//! SQLite transactions: statements inside one are not supported yet; commit
//! and roll back succeed.
use vstd::prelude::*;
use crate::database::DatabaseError;
use crate::text::owned;

verus! {

/// SQLite transaction on a named connection.
#[derive(Debug)]
pub struct SQLiteTransaction {
    name: String,
}

impl SQLiteTransaction {
    pub closed spec fn name_spec(&self) -> Seq<char> { self.name@ }

    /// A transaction on the named connection.
    pub fn new(name: String) -> (t: Self)
        ensures t.name_spec() == name@,
    {
        SQLiteTransaction { name }
    }

    /// Execute a statement: refused.
    pub fn execute(&self, query: &str) -> (r: Result<(), DatabaseError>)
        ensures r matches Err(DatabaseError(m)) && m@ == "Transaction execute not implemented"@,
    {
        Err(DatabaseError(owned("Transaction execute not implemented")))
    }

    /// Commit: accepted.
    pub fn commit(&self) -> (r: Result<(), DatabaseError>)
        ensures r is Ok,
    {
        Ok(())
    }

    /// Roll back: accepted.
    pub fn rollback(&self) -> (r: Result<(), DatabaseError>)
        ensures r is Ok,
    {
        Ok(())
    }
}

} // verus!
