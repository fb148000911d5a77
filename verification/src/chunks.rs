//! Work partitioning for one mailbox pass.
//!
//! The ordered set of message identifiers found in a mailbox is cut into
//! contiguous chunks, one per fetch worker. The chunk size is the result
//! count divided by the worker count, rounded down but never below one; the
//! final chunk holds whatever remainder is left, so an unevenly divisible
//! result count yields one chunk (and so one worker) beyond the configured
//! count.

use vstd::prelude::*;
use vstd::multiset::Multiset;
use vstd::seq_lib::lemma_multiset_commutative;

verus! {

/// The chunks laid end to end, in order.
pub open spec fn concat_chunks(cs: Seq<Seq<u32>>) -> Seq<u32>
    decreases cs.len(),
{
    if cs.len() == 0 {
        Seq::empty()
    } else {
        concat_chunks(cs.drop_last()) + cs.last()
    }
}

/// How often each identifier occurs over all chunks together.
pub open spec fn chunk_multiset(cs: Seq<Seq<u32>>) -> Multiset<u32>
    decreases cs.len(),
{
    if cs.len() == 0 {
        Multiset::empty()
    } else {
        chunk_multiset(cs.drop_last()).add(cs.last().to_multiset())
    }
}

/// Identifiers assigned to one worker: `result_count / worker_count`,
/// rounded down, but at least one.
pub open spec fn spec_chunk_size(result_count: nat, worker_count: nat) -> nat
    recommends
        worker_count >= 1,
{
    if result_count / worker_count == 0 {
        1
    } else {
        result_count / worker_count
    }
}

/// Computes the chunk size for a mailbox pass.
pub fn chunk_size(result_count: usize, worker_count: usize) -> (s: usize)
    requires
        worker_count >= 1,
    ensures
        s == spec_chunk_size(result_count as nat, worker_count as nat),
        1 <= s,
        result_count >= worker_count ==> s <= result_count,
{
    let q = result_count / worker_count;
    if q == 0 {
        1
    } else {
        q
    }
}

/// Law: chunks that concatenate back to the identifier sequence hold each
/// identifier exactly as often as that sequence does — the union of the
/// chunks covers the search result with no gap and no duplicate.
pub proof fn lemma_chunks_cover_exactly(cs: Seq<Seq<u32>>, ids: Seq<u32>)
    requires
        concat_chunks(cs) == ids,
    ensures
        chunk_multiset(cs) == ids.to_multiset(),
    decreases cs.len(),
{
    if cs.len() == 0 {
        assert(ids =~= Seq::<u32>::empty());
        ids.to_multiset_ensures();
        assert(ids.to_multiset() =~= Multiset::empty());
    } else {
        lemma_chunks_cover_exactly(cs.drop_last(), concat_chunks(cs.drop_last()));
        lemma_multiset_commutative(concat_chunks(cs.drop_last()), cs.last());
    }
}

/// Cuts `ids` into contiguous chunks for `worker_count` workers: every chunk
/// but the last has exactly the computed chunk size, the last absorbs the
/// remainder, and laid end to end the chunks are `ids` again. An empty
/// identifier set yields no chunks at all.
pub fn partition(ids: &Vec<u32>, worker_count: usize) -> (chunks: Vec<Vec<u32>>)
    requires
        worker_count >= 1,
    ensures
        concat_chunks(chunks.deep_view()) == ids@,
        ids.len() == 0 ==> chunks.len() == 0,
        ids.len() > 0 ==> chunks.len() >= 1,
        forall|i: int|
            0 <= i < chunks.len() - 1 ==> #[trigger] chunks.deep_view()[i].len()
                == spec_chunk_size(ids.len() as nat, worker_count as nat),
        chunks.len() >= 1 ==> 1 <= chunks.deep_view().last().len() <= spec_chunk_size(
            ids.len() as nat,
            worker_count as nat,
        ),
        ids.len() > 0 ==> (chunks.len() - 1) * spec_chunk_size(ids.len() as nat, worker_count as nat)
            < ids.len() <= chunks.len() * spec_chunk_size(ids.len() as nat, worker_count as nat),
        ids.len() > 0 ==> chunks.len() == (ids.len() + spec_chunk_size(ids.len() as nat,
            worker_count as nat) - 1) as int / spec_chunk_size(ids.len() as nat,
            worker_count as nat) as int,
{
    let ghost cs_g: nat = spec_chunk_size(ids.len() as nat, worker_count as nat);
    let cs = chunk_size(ids.len(), worker_count);
    let mut chunks: Vec<Vec<u32>> = Vec::new();
    let mut start: usize = 0;
    proof {
        assert(chunks.len() * cs_g == 0) by (nonlinear_arith)
            requires
                chunks.len() == 0,
        ;
        assert(ids@.take(0) =~= concat_chunks(chunks.deep_view()));
    }
    while start < ids.len()
        invariant
            cs == cs_g,
            cs >= 1,
            start <= ids.len(),
            start == if chunks.len() * cs_g <= ids.len() {
                (chunks.len() * cs_g) as int
            } else {
                ids.len() as int
            },
            chunks.len() * cs_g > ids.len() ==> (chunks.len() - 1) * cs_g < ids.len(),
            concat_chunks(chunks.deep_view()) == ids@.take(start as int),
            forall|i: int|
                0 <= i < chunks.len() - 1 ==> #[trigger] chunks.deep_view()[i].len() == cs_g,
            chunks.len() >= 1 ==> 1 <= chunks.deep_view().last().len() <= cs_g,
            chunks.len() >= 1 && start < ids.len() ==> chunks.deep_view().last().len() == cs_g,
        decreases ids.len() - start,
    {
        let end: usize = if ids.len() - start > cs {
            start + cs
        } else {
            ids.len()
        };
        let mut c: Vec<u32> = Vec::new();
        let mut j: usize = start;
        while j < end
            invariant
                start <= j <= end <= ids.len(),
                c@ == ids@.subrange(start as int, j as int),
            decreases end - j,
        {
            c.push(ids[j]);
            assert(c@ =~= ids@.subrange(start as int, j + 1));
            j += 1;
        }
        let ghost old_chunks = chunks.deep_view();
        let ghost k = chunks.len() as int;
        chunks.push(c);
        proof {
            assert(c.deep_view() =~= c@);
            assert(chunks.deep_view() =~= old_chunks.push(c.deep_view()));
            assert(chunks.deep_view().drop_last() =~= old_chunks);
            assert((k + 1) * cs_g == k * cs_g + cs_g) by (nonlinear_arith);
            assert(ids@.take(start as int) + ids@.subrange(start as int, end as int) =~= ids@.take(
                end as int,
            ));
        }
        start = end;
    }
    proof {
        assert(ids@.take(ids.len() as int) =~= ids@);
        if ids.len() > 0 {
            let n = chunks.len() as int;
            assert((n - 1) * cs_g < ids.len() <= n * cs_g) by {
                if n * cs_g <= ids.len() {
                    assert(start == n * cs_g);
                    assert((n - 1) * cs_g == n * cs_g - cs_g) by (nonlinear_arith);
                }
            }
            assert(n == (ids.len() + cs_g - 1) as int / cs_g as int) by (nonlinear_arith)
                requires
                    cs_g >= 1,
                    (n - 1) * cs_g < ids.len() <= n * cs_g,
                    n >= 1,
            ;
        }
    }
    chunks
}

} // verus!
