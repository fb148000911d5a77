//! The decision core of one mailbox synchronization pass.
//!
//! The unverified shell around this crate performs the outside work — it
//! opens sessions, fetches messages, moves them over the bounded channel,
//! and stores bodies on disk — and consults these types between steps: the
//! plan says how many workers to spawn and on which identifiers, a worker
//! task dictates fetch order and judges each fetch, the writer task judges
//! each store, and the aggregator folds every child's outcome into the one
//! result a scope reports.

use vstd::prelude::*;
use crate::chunks::{concat_chunks, partition, spec_chunk_size};
use crate::errors::SyncError;
use crate::flags::ProtocolFlag;

verus! {

/// One message as a fetch worker hands it to the writer: created by the
/// worker, moved over the channel, consumed exactly once by the writer.
pub struct FetchedMessage {
    /// The identifier the message was fetched under.
    pub identifier: u32,
    /// The flags the protocol reported, in reported order.
    pub flags: Vec<ProtocolFlag>,
    /// The full message body.
    pub body: Vec<u8>,
}

/// How one mailbox pass proceeds: an empty search result spawns no workers
/// and succeeds at once; otherwise one fetch worker per chunk and a single
/// writer share one bounded channel.
pub enum MailboxPlan {
    Empty,
    Work {
        /// The identifier chunks, one fetch worker each.
        chunks: Vec<Vec<u32>>,
        /// Capacity of the bounded channel between the workers and the
        /// writer: the configured worker count, which bounds how far
        /// fetching can outpace storing.
        channel_capacity: usize,
    },
}

/// Plans one mailbox pass from the identifiers the search returned. The
/// chunks partition the identifiers exactly — laid end to end they are the
/// search result again — and every chunk but the last holds exactly the
/// computed chunk size, the last the remainder. An unevenly divisible
/// result count therefore yields one worker beyond the configured count.
pub fn plan_mailbox(ids: &Vec<u32>, worker_count: usize) -> (p: MailboxPlan)
    requires
        worker_count >= 1,
    ensures
        ids.len() == 0 <==> p is Empty,
        p matches MailboxPlan::Work { chunks, channel_capacity } ==> {
            &&& channel_capacity == worker_count
            &&& concat_chunks(chunks.deep_view()) == ids@
            &&& chunks.len() >= 1
            &&& forall|i: int|
                0 <= i < chunks.len() - 1 ==> #[trigger] chunks.deep_view()[i].len()
                    == spec_chunk_size(ids.len() as nat, worker_count as nat)
            &&& 1 <= chunks.deep_view().last().len() <= spec_chunk_size(
                ids.len() as nat,
                worker_count as nat,
            )
            &&& chunks.len() == (ids.len() + spec_chunk_size(ids.len() as nat,
                worker_count as nat) - 1) as int / spec_chunk_size(ids.len() as nat,
                worker_count as nat) as int
        },
{
    if ids.len() == 0 {
        MailboxPlan::Empty
    } else {
        let chunks = partition(ids, worker_count);
        MailboxPlan::Work { chunks, channel_capacity: worker_count }
    }
}

/// One fetch worker's walk over its chunk: identifiers are fetched strictly
/// in chunk order, and the first failed fetch stops the worker where it
/// stands.
pub struct WorkerTask {
    /// The chunk this worker owns.
    pub chunk: Vec<u32>,
    /// How many of the chunk's identifiers are already fetched and handed
    /// on; the identifier at this position is the next to fetch.
    pub next: usize,
}

impl WorkerTask {
    /// The walk never leaves the chunk.
    pub open spec fn wf(self) -> bool {
        self.next <= self.chunk.len()
    }

    /// The identifiers already fetched and handed on, in chunk order.
    pub open spec fn done(self) -> Seq<u32> {
        self.chunk@.take(self.next as int)
    }

    /// A worker at the start of its chunk.
    pub fn new(chunk: Vec<u32>) -> (t: WorkerTask)
        ensures
            t.wf(),
            t.chunk@ == chunk@,
            t.next == 0,
    {
        WorkerTask { chunk, next: 0 }
    }

    /// The identifier to fetch next, or `None` when the chunk is done.
    pub fn current(&self) -> (r: Option<u32>)
        requires
            self.wf(),
        ensures
            self.next < self.chunk.len() ==> r == Some(self.chunk@[self.next as int]),
            self.next == self.chunk.len() ==> r is None,
    {
        if self.next < self.chunk.len() {
            Some(self.chunk[self.next])
        } else {
            None
        }
    }

    /// Judges the protocol's answer for the current identifier, which must
    /// be exactly one fetched message. On exactly one, the worker moves past
    /// the identifier; on any other count the fetch has failed: the worker
    /// stops where it stands and the error names the identifier.
    pub fn advance(&mut self, fetched_count: usize) -> (r: Result<(), SyncError>)
        requires
            old(self).wf(),
            old(self).next < old(self).chunk.len(),
        ensures
            final(self).wf(),
            final(self).chunk == old(self).chunk,
            fetched_count == 1 ==> r is Ok && final(self).next == old(self).next + 1
                && final(self).done() == old(self).done().push(
                old(self).chunk@[old(self).next as int],
            ),
            fetched_count != 1 ==> r == Err::<(), SyncError>(
                SyncError::FetchFailed(old(self).chunk@[old(self).next as int]),
            ) && final(self).next == old(self).next,
    {
        if fetched_count == 1 {
            self.next += 1;
            proof {
                assert(self.done() =~= old(self).done().push(
                    old(self).chunk@[old(self).next as int],
                ));
            }
            Ok(())
        } else {
            Err(SyncError::FetchFailed(self.chunk[self.next]))
        }
    }
}

/// The single writer's progress: it drains the channel in arrival order,
/// and the first failed store stops it — messages still queued or yet to be
/// sent are never stored.
pub struct WriterTask {
    /// How many messages this writer has durably stored.
    pub stored: usize,
}

impl WriterTask {
    /// A writer that has stored nothing yet.
    pub fn new() -> (t: WriterTask)
        ensures
            t.stored == 0,
    {
        WriterTask { stored: 0 }
    }

    /// Judges one store attempt for the message fetched under `identifier`.
    /// Success counts the message as stored; failure is `StorageFailed`
    /// naming the identifier, and stops the writer.
    pub fn record_store(&mut self, identifier: u32, ok: bool) -> (r: Result<(), SyncError>)
        requires
            old(self).stored < usize::MAX,
        ensures
            ok ==> r is Ok && final(self).stored == old(self).stored + 1,
            !ok ==> r == Err::<(), SyncError>(SyncError::StorageFailed(identifier))
                && final(self).stored == old(self).stored,
    {
        if ok {
            self.stored += 1;
            Ok(())
        } else {
            Err(SyncError::StorageFailed(identifier))
        }
    }
}

/// The first error in a scope's child outcomes, or `Ok` when every child
/// succeeded.
pub open spec fn spec_first_error(rs: Seq<Result<(), SyncError>>) -> Result<(), SyncError>
    decreases rs.len(),
{
    if rs.len() == 0 {
        Ok(())
    } else if rs.first() is Err {
        rs.first()
    } else {
        spec_first_error(rs.drop_first())
    }
}

proof fn lemma_first_error_found(rs: Seq<Result<(), SyncError>>, i: int)
    requires
        0 <= i < rs.len(),
        forall|j: int| 0 <= j < i ==> rs[j] is Ok,
        rs[i] is Err,
    ensures
        spec_first_error(rs) == rs[i],
    decreases i,
{
    if i == 0 {
    } else {
        lemma_first_error_found(rs.drop_first(), i - 1);
    }
}

proof fn lemma_first_error_all_ok(rs: Seq<Result<(), SyncError>>)
    requires
        forall|j: int| 0 <= j < rs.len() ==> rs[j] is Ok,
    ensures
        spec_first_error(rs) == Ok::<(), SyncError>(()),
    decreases rs.len(),
{
    if rs.len() > 0 {
        lemma_first_error_all_ok(rs.drop_first());
    }
}

/// Joins the outcomes of every child of one scope — the workers and the
/// writer of a mailbox, the mailbox passes of an account, the accounts of
/// the process. The result is `Ok` exactly when every child succeeded, and
/// otherwise the first error in the listed order. Every outcome is
/// consulted: a child's failure never hides a sibling's completed outcome,
/// it only decides what this scope reports upward.
pub fn first_error(results: &Vec<Result<(), SyncError>>) -> (r: Result<(), SyncError>)
    ensures
        r == spec_first_error(results@),
        (r is Ok <==> forall|i: int| 0 <= i < results.len() ==> results@[i] is Ok),
        r is Err ==> exists|i: int|
            0 <= i < results.len() && results@[i] == r && forall|j: int|
                0 <= j < i ==> #[trigger] results@[j] is Ok,
{
    let mut i: usize = 0;
    while i < results.len()
        invariant
            i <= results.len(),
            forall|j: int| 0 <= j < i ==> results@[j] is Ok,
        decreases results.len() - i,
    {
        if results[i].is_err() {
            proof {
                lemma_first_error_found(results@, i as int);
            }
            return results[i];
        }
        i += 1;
    }
    proof {
        lemma_first_error_all_ok(results@);
    }
    Ok(())
}

} // verus!
