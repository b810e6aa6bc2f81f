use vstd::prelude::*;
use crate::mvstore::page::Page;

verus! {

/// The root of a map at a version: the root page, the version used for
/// writing, the reentrant lock count and its owner, the counters of updates
/// and of attempted updates, and the size of the used part of the append
/// buffer. A reference is only ever made from a root page and a version, so
/// it has no earlier root before it.
pub struct RootReference {
    pub root: Page,
    pub version: i64,
    pub hold_count: i8,
    pub owner_id: i64,
    pub update_counter: i64,
    pub update_attempt_counter: i64,
    pub append_counter: i8,
}

impl RootReference {
    /// The reference that sets a map's root initially, and for read-only
    /// snapshots: unlocked, one update counted, nothing appended.
    pub fn new(root: Page, version: i64) -> (r: RootReference)
        ensures
            r.root == root,
            r.version == version,
            r.hold_count == 0,
            r.owner_id == 0,
            r.update_counter == 1,
            r.update_attempt_counter == 1,
            r.append_counter == 0,
    {
        RootReference {
            root,
            version,
            hold_count: 0,
            owner_id: 0,
            update_counter: 1,
            update_attempt_counter: 1,
            append_counter: 0,
        }
    }

    /// The version of this root: with no earlier root in a chain, its own.
    pub fn getVersion(&self) -> (r: i64)
        ensures
            r == self.version,
    {
        self.version
    }

    /// Whether the thread `current_thread` holds the lock on this root: the
    /// lock is held and that thread owns it.
    pub fn isLockedByCurrentThread(&self, current_thread: i64) -> (r: bool)
        ensures
            r == (self.hold_count != 0 && self.owner_id == current_thread),
    {
        self.hold_count != 0 && self.owner_id == current_thread
    }
}

} // verus!
