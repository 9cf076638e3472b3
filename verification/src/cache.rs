//! The snapshot cache: one writer, arbitrarily many readers, atomic
//! whole-document replacement.
//!
//! The cache owns a reader/writer lock and never exposes it. The lock's
//! invariant is that the stored value, when present, is a complete
//! rendered snapshot — so a reader can observe either the prior document
//! or the new one, never a partially written mixture, and never anything
//! that was not produced by one build.

use vstd::prelude::*;
use vstd::rwlock::{RwLock, RwLockPredicate};
use crate::model::{ExchangeQuoteTable, SerializationError};
use crate::snapshot::{build_snapshot, valid_snapshot_doc, wf_tables};

verus! {

/// What the lock may store: nothing (before the first successful cycle)
/// or one complete rendered snapshot.
pub struct CachePred;

impl RwLockPredicate<Option<Vec<u8>>> for CachePred {
    open spec fn inv(self, v: Option<Vec<u8>>) -> bool {
        v matches Some(d) ==> valid_snapshot_doc(d@)
    }
}

/// Holds the most recently published document for the process lifetime.
/// Starts empty, becomes populated on the first publish, and never goes
/// back to empty.
pub struct SnapshotCache {
    lock: RwLock<Option<Vec<u8>>, CachePred>,
}

/// A verified byte-for-byte copy of a document.
fn copy_doc(v: &Vec<u8>) -> (r: Vec<u8>)
    ensures
        r@ == v@,
{
    let n = v.len();
    let mut r: Vec<u8> = Vec::new();
    let mut i: usize = 0;
    while i < n
        invariant
            n == v@.len(),
            0 <= i <= n,
            r@ == v@.take(i as int),
        decreases n - i,
    {
        r.push(v[i]);
        assert(r@ =~= v@.take(i as int + 1));
        i = i + 1;
    }
    assert(v@.take(n as int) =~= v@);
    r
}

impl SnapshotCache {
    /// An empty cache: `read` yields nothing until the first publish.
    pub fn new() -> (c: SnapshotCache) {
        SnapshotCache { lock: RwLock::new(None, Ghost(CachePred)) }
    }

    /// Copy out the current document, or nothing before the first
    /// publish. Takes the shared side of the lock for the copy only and
    /// performs no I/O; any document handed out satisfies the cache
    /// invariant, i.e. it is the rendering of one build's tables.
    pub fn read(&self) -> (r: Option<Vec<u8>>)
        ensures
            r matches Some(d) ==> valid_snapshot_doc(d@),
    {
        let handle = self.lock.acquire_read();
        let r = match handle.borrow() {
            Some(d) => Some(copy_doc(d)),
            None => None,
        };
        handle.release_read();
        r
    }

    /// Install a newly built document, replacing the whole value. Takes
    /// the exclusive side of the lock for the swap only: the document was
    /// built beforehand on state the readers never see.
    pub fn publish(&self, doc: Vec<u8>)
        requires
            valid_snapshot_doc(doc@),
    {
        let (_stale, handle) = self.lock.acquire_write();
        handle.release_write(Some(doc));
    }
}

/// One cycle's publish step: serialize the tables and install the result.
/// A serialization defect — the only fatal-per-cycle condition — skips
/// the publish, so the cache keeps serving the last good snapshot, and is
/// reported to the caller instead of unwinding.
pub fn build_and_publish(cache: &SnapshotCache, tables: &Vec<ExchangeQuoteTable>) -> (r: Result<
    (),
    SerializationError,
>)
    ensures
        r is Ok <==> wf_tables(tables@),
{
    match build_snapshot(tables) {
        Ok(doc) => {
            cache.publish(doc);
            Ok(())
        },
        Err(e) => Err(e),
    }
}

} // verus!
