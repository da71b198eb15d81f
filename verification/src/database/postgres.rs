//! PostgreSQL transactions, which are not supported yet.
use vstd::prelude::*;
use crate::database::DatabaseError;
use crate::text::owned;

verus! {

/// PostgreSQL transaction.
#[derive(Debug)]
pub struct PostgresTransaction {
    placeholder: String,
}

impl PostgresTransaction {
    /// Execute a statement: refused.
    pub fn execute(&self, query: &str) -> (r: Result<(), DatabaseError>)
        ensures r matches Err(DatabaseError(m)) && m@ == "Transactions not yet implemented"@,
    {
        Err(DatabaseError(owned("Transactions not yet implemented")))
    }

    /// Commit: refused.
    pub fn commit(&self) -> (r: Result<(), DatabaseError>)
        ensures r matches Err(DatabaseError(m)) && m@ == "Transactions not yet implemented"@,
    {
        Err(DatabaseError(owned("Transactions not yet implemented")))
    }

    /// Roll back: refused.
    pub fn rollback(&self) -> (r: Result<(), DatabaseError>)
        ensures r matches Err(DatabaseError(m)) && m@ == "Transactions not yet implemented"@,
    {
        Err(DatabaseError(owned("Transactions not yet implemented")))
    }
}

} // verus!
