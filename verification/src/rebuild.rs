//! The index rebuild coordinator.
//!
//! Rebuilding a tenant's search index is destructive, so it runs behind a
//! durable checkpoint gate: the canonical documents are extracted into a
//! snapshot, the snapshot is persisted to durable storage, and only once
//! that write is confirmed may the index be replaced. A failure before the
//! snapshot is persisted leaves the existing index untouched; a failure
//! after it is recoverable from the persisted bytes alone.
//!
//! The coordinator is a step machine: the caller performs each backend step
//! and reports its result.

use vstd::prelude::*;

use crate::snapshot::{
    decode_snapshot_spec, encode_snapshot, encode_snapshot_spec, lemma_snapshot_fits,
    lemma_snapshot_round_trip, IndexSnapshot,
};
use crate::ErrorKind;

verus! {

/// Where a rebuild stands.
#[derive(Clone, Copy, Debug, PartialEq, Eq, Structural)]
pub enum RebuildPhase {
    /// Waiting for the canonical documents to be extracted.
    AwaitingExtract,
    /// Snapshot in hand; waiting for it to be persisted durably.
    AwaitingPersist,
    /// Recovery artifact confirmed written; the index may now be replaced.
    AwaitingReplace,
    /// The index was replaced; the rebuild is done.
    Complete,
    /// Failed before the snapshot was persisted: the existing index is
    /// untouched and nothing needs recovery.
    Aborted,
    /// Failed while replacing the index: recover by replaying the persisted
    /// snapshot bytes, with no access to the original database state.
    ReplaceFailed,
}

/// A rebuild of one tenant's search index.
pub struct RebuildFlow {
    pub phase: RebuildPhase,
    pub snapshot: Option<IndexSnapshot>,
    /// The bytes confirmed written to durable storage.
    pub persisted: Ghost<Seq<u8>>,
}

impl RebuildFlow {
    /// From the moment a snapshot exists it is kept; from the moment the
    /// recovery artifact is confirmed written, it is non-empty and decodes
    /// back to exactly the snapshot being installed.
    pub open spec fn wf(self) -> bool {
        &&& (self.phase == RebuildPhase::AwaitingPersist || self.phase
            == RebuildPhase::AwaitingReplace || self.phase == RebuildPhase::Complete
            || self.phase == RebuildPhase::ReplaceFailed) ==> self.snapshot is Some
        &&& (self.phase == RebuildPhase::AwaitingReplace || self.phase == RebuildPhase::Complete
            || self.phase == RebuildPhase::ReplaceFailed) ==> {
            &&& self.persisted@.len() > 0
            &&& self.persisted@ == encode_snapshot_spec(self.snapshot->Some_0@)
            &&& decode_snapshot_spec(self.persisted@) == Some(self.snapshot->Some_0@)
        }
    }

    /// Starts a rebuild; nothing has been touched yet.
    pub fn new() -> (r: RebuildFlow)
        ensures
            r.wf(),
            r.phase == RebuildPhase::AwaitingExtract,
    {
        RebuildFlow {
            phase: RebuildPhase::AwaitingExtract,
            snapshot: None,
            persisted: Ghost(Seq::empty()),
        }
    }

    /// Reports what extracting the canonical documents produced.
    ///
    /// On failure the rebuild aborts with the existing index untouched.
    pub fn on_extracted(&mut self, result: Result<IndexSnapshot, ErrorKind>)
        requires
            old(self).wf(),
            old(self).phase == RebuildPhase::AwaitingExtract,
        ensures
            final(self).wf(),
            match result {
                Ok(s) => final(self).phase == RebuildPhase::AwaitingPersist && final(self).snapshot
                    == Some(s),
                Err(_) => final(self).phase == RebuildPhase::Aborted,
            },
    {
        match result {
            Ok(s) => {
                self.snapshot = Some(s);
                self.phase = RebuildPhase::AwaitingPersist;
            },
            Err(_) => {
                self.phase = RebuildPhase::Aborted;
            },
        }
    }

    /// The bytes to write to durable storage: the snapshot's encoding,
    /// never empty.
    pub fn persist_payload(&self) -> (r: Vec<u8>)
        requires
            self.wf(),
            self.phase == RebuildPhase::AwaitingPersist,
        ensures
            r@ == encode_snapshot_spec(self.snapshot->Some_0@),
            r@.len() > 0,
    {
        match &self.snapshot {
            Some(s) => encode_snapshot(s),
            None => {
                proof {
                    assert(false);
                }
                Vec::new()
            },
        }
    }

    /// Reports whether the recovery artifact was durably written.
    ///
    /// Only a confirmed write makes the destructive step reachable; on
    /// failure the rebuild aborts with the existing index untouched.
    pub fn on_persisted(&mut self, result: Result<(), ErrorKind>)
        requires
            old(self).wf(),
            old(self).phase == RebuildPhase::AwaitingPersist,
        ensures
            final(self).wf(),
            final(self).snapshot == old(self).snapshot,
            match result {
                Ok(()) => final(self).phase == RebuildPhase::AwaitingReplace
                    && final(self).persisted@ == encode_snapshot_spec(old(self).snapshot->Some_0@),
                Err(_) => final(self).phase == RebuildPhase::Aborted,
            },
    {
        match result {
            Ok(()) => {
                proof {
                    let s = self.snapshot->Some_0;
                    lemma_snapshot_fits(s);
                    lemma_snapshot_round_trip(s@);
                    self.persisted@ = encode_snapshot_spec(s@);
                    lemma_auto_encode_nonempty(s@);
                }
                self.phase = RebuildPhase::AwaitingReplace;
            },
            Err(_) => {
                self.phase = RebuildPhase::Aborted;
            },
        }
    }

    /// The documents to install: only available once the recovery artifact
    /// is confirmed written, and exactly what that artifact decodes to.
    pub fn replace_payload(&self) -> (r: IndexSnapshot)
        requires
            self.wf(),
            self.phase == RebuildPhase::AwaitingReplace,
        ensures
            r@ == self.snapshot->Some_0@,
            decode_snapshot_spec(self.persisted@) == Some(r@),
    {
        match &self.snapshot {
            Some(s) => s.clone(),
            None => {
                proof {
                    assert(false);
                }
                IndexSnapshot { documents: Vec::new() }
            },
        }
    }

    /// Reports whether the atomic index replacement succeeded.
    ///
    /// On failure the persisted artifact stays authoritative: a retry can
    /// rebuild the index from it alone.
    pub fn on_replaced(&mut self, result: Result<(), ErrorKind>)
        requires
            old(self).wf(),
            old(self).phase == RebuildPhase::AwaitingReplace,
        ensures
            final(self).wf(),
            final(self).snapshot == old(self).snapshot,
            final(self).persisted@ == old(self).persisted@,
            match result {
                Ok(()) => final(self).phase == RebuildPhase::Complete,
                Err(_) => final(self).phase == RebuildPhase::ReplaceFailed,
            },
    {
        match result {
            Ok(()) => {
                self.phase = RebuildPhase::Complete;
            },
            Err(_) => {
                self.phase = RebuildPhase::ReplaceFailed;
            },
        }
    }

    /// The durable checkpoint gate, as a fact about every rebuild: whenever
    /// the destructive replacement is allowed to run (and ever after), the
    /// persisted recovery artifact exists, is non-empty, and decodes back
    /// to exactly the documents being installed.
    pub proof fn lemma_replace_gated_on_snapshot(self)
        requires
            self.wf(),
            self.phase == RebuildPhase::AwaitingReplace || self.phase == RebuildPhase::Complete
                || self.phase == RebuildPhase::ReplaceFailed,
        ensures
            self.persisted@.len() > 0,
            self.snapshot is Some,
            decode_snapshot_spec(self.persisted@) == Some(self.snapshot->Some_0@),
    {
    }
}

/// The encoding always carries at least its count header.
proof fn lemma_auto_encode_nonempty(docs: Seq<crate::snapshot::DocumentView>)
    ensures
        encode_snapshot_spec(docs).len() > 0,
{
    vstd::bytes::lemma_auto_spec_u64_to_from_le_bytes();
}

} // verus!
