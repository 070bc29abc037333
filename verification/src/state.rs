//! UI state persisted between sessions.

use vstd::prelude::*;

use crate::flags::PathFlags;

verus! {

/// Version of the persisted-state layout.  Version 1 keyed the active
/// worktree by `(repo, branch)`; version 2 keys it by path.
pub const CURRENT_SCHEMA_VERSION: u32 = 2;

#[derive(Debug)]
pub struct PersistedState {
    pub schema_version: u32,
    pub ui: PersistedUi,
}

#[derive(Debug)]
pub struct PersistedUi {
    pub active_worktree: Option<ActiveWorktreeId>,
    /// Explicit expand (`true`) / collapse (`false`) choices by repo path.
    pub expanded: PathFlags,
}

/// Identity of a worktree across sessions: its path.
#[derive(Debug, PartialEq, Eq)]
pub struct ActiveWorktreeId {
    pub path: String,
}

pub fn current_schema_version() -> (v: u32)
    ensures
        v == CURRENT_SCHEMA_VERSION,
{
    CURRENT_SCHEMA_VERSION
}

/// Keep a state read from disk only when it was written with the current
/// layout; older or newer layouts are dropped.
pub fn accept_loaded(state: PersistedState) -> (r: Option<PersistedState>)
    ensures
        r.is_some() <==> state.schema_version == CURRENT_SCHEMA_VERSION,
        r.is_some() ==> r.unwrap() == state,
{
    if state.schema_version != CURRENT_SCHEMA_VERSION {
        None
    } else {
        Some(state)
    }
}

} // verus!
