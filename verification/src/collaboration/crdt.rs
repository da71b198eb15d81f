//! Conflict-free replicated document state. The documents, edits and
//! operations carry no data yet, and applying an operation changes nothing.
use vstd::prelude::*;
use crate::collaboration::CollaborationError;

verus! {

/// A shared document.
#[derive(Debug, Clone, Copy)]
pub struct Document;

/// An edit of a document.
#[derive(Debug, Clone, Copy)]
pub struct Edit;

/// An operation on a document.
#[derive(Debug, Clone, Copy)]
pub struct Operation;

/// Synchronisation state of a replica.
#[derive(Debug, Clone, Copy)]
pub struct SyncState;

/// The replica manager.
#[derive(Debug, Clone, Copy)]
pub struct CrdtManager;

impl CrdtManager {
    /// A manager.
    pub fn new() -> (m: Self)
        ensures m == CrdtManager,
    {
        CrdtManager
    }

    /// Apply an operation: always accepted.
    pub fn apply_operation(&self, op: Operation) -> (r: Result<(), CollaborationError>)
        ensures r is Ok,
    {
        Ok(())
    }
}

} // verus!
