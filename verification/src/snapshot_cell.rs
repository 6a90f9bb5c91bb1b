//! Single-slot broadcast cell: the "latest value" hand-off between the poll
//! loop and its consumers.
//!
//! The writer overwrites the slot on every publish and never waits for
//! readers; a slow reader therefore skips superseded snapshots and always
//! observes the most recently published one. Each reader keeps its own
//! cursor so it can ask whether the cell changed since it last looked. The
//! task layer outside the library adds the actual blocking ("wait until
//! changed"); every state change of the cell itself is decided here.

use crate::gh_api::RunnerList;
use vstd::prelude::*;

verus! {

/// The single-slot cell: holds at most the latest snapshot, together with a
/// version counter that increments on every publish.
pub struct SnapshotCell {
    latest: Option<RunnerList>,
    version: u64,
}

/// One reader's cursor into a [`SnapshotCell`]: the version it last observed.
pub struct CellReader {
    last_seen: u64,
}

impl CellReader {
    /// The cell version this reader last observed.
    pub closed spec fn seen(&self) -> u64 {
        self.last_seen
    }
}

/// The publish relation: `post` is `pre` after one snapshot `s` was
/// published. The slot holds exactly `s`, whatever it held before.
pub open spec fn published(pre: SnapshotCell, s: RunnerList, post: SnapshotCell) -> bool {
    post.slot() == Some(s) && post.current_version() == pre.current_version() + 1
}

impl SnapshotCell {
    /// The snapshot currently in the slot, if any was ever published.
    pub closed spec fn slot(&self) -> Option<RunnerList> {
        self.latest
    }

    /// How many snapshots have been published so far.
    pub closed spec fn current_version(&self) -> u64 {
        self.version
    }

    /// A fresh cell: empty slot, version 0.
    pub fn new() -> (c: SnapshotCell)
        ensures
            c.slot() is None,
            c.current_version() == 0,
    {
        SnapshotCell { latest: None, version: 0 }
    }

    /// How many snapshots have been published so far, as a runtime value:
    /// lets the writer check the version headroom [`SnapshotCell::publish`]
    /// asks for.
    pub fn version(&self) -> (v: u64)
        ensures
            v == self.current_version(),
    {
        self.version
    }

    /// A reader that has seen nothing yet: any published snapshot counts as
    /// a change for it.
    pub fn subscribe(&self) -> (r: CellReader)
        ensures
            r.seen() == 0,
    {
        CellReader { last_seen: 0 }
    }

    /// Publish a snapshot: overwrite whatever the slot held, whether or not
    /// any reader observed it. Never waits for readers.
    pub fn publish(&mut self, s: RunnerList)
        requires
            old(self).current_version() < u64::MAX,
        ensures
            published(*old(self), s, *final(self)),
    {
        self.latest = Some(s);
        self.version = self.version + 1;
    }

    /// Has the cell changed since this reader last looked?
    pub fn has_changed(&self, r: &CellReader) -> (b: bool)
        ensures
            b == (r.seen() < self.current_version()),
    {
        r.last_seen < self.version
    }

    /// Read the current slot and mark it seen: the reader observes the
    /// latest published snapshot, never a superseded one.
    pub fn read_latest<'a>(&'a self, r: &mut CellReader) -> (s: &'a Option<RunnerList>)
        ensures
            *s == self.slot(),
            final(r).seen() == self.current_version(),
    {
        r.last_seen = self.version;
        &self.latest
    }
}

/// However many snapshots a slow consumer lets pass, a read after the last
/// publish yields the snapshot published last: after `s1`, `s2`, `s3` go
/// through the cell in that order, the slot holds exactly `s3`.
pub proof fn lemma_latest_supersedes(
    c0: SnapshotCell,
    c1: SnapshotCell,
    c2: SnapshotCell,
    c3: SnapshotCell,
    s1: RunnerList,
    s2: RunnerList,
    s3: RunnerList,
)
    requires
        published(c0, s1, c1),
        published(c1, s2, c2),
        published(c2, s3, c3),
    ensures
        c3.slot() == Some(s3),
        c3.current_version() == c0.current_version() + 3,
{
}

} // verus!
