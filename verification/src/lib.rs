//! Verified core of a source-repository mirroring catalog.
//!
//! The crate keeps the decision logic of a mirror catalog: recording the
//! lifecycle of synchronization attempts in a ledger, indexing the tags of a
//! mirror, and resolving commit references and paths against an in-memory
//! snapshot of a repository's objects. All I/O (the git transport and the
//! durable stores) is injected by the host through narrow interfaces.

pub mod git;
pub mod memory;
pub mod utils;
pub mod workspace;
pub mod workspace_sync;
pub mod workspace_tag;

use vstd::prelude::*;

verus! {

/// Error carried by the persistence interfaces.
#[derive(Debug)]
pub struct BackendError {
    pub message: String,
}

} // verus!
