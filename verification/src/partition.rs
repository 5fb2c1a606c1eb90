//! Splitting the entries of a run among its workers.
//!
//! The entries are cut into as many chunks as there are workers. The chunks
//! follow each other in the order of the entries, and their lengths differ by
//! one at most: the first `len % workers` chunks hold one entry more than the
//! others. With fewer entries than workers the last chunks are empty.

use vstd::prelude::*;

verus! {

/// Length of chunk `index` when `len` entries are split among `workers` workers.
pub open spec fn chunk_len(len: nat, workers: nat, index: nat) -> nat
    recommends
        workers > 0,
        index < workers,
{
    if index < len % workers {
        len / workers + 1
    } else {
        len / workers
    }
}

/// Index of the first entry of chunk `index`: the lengths of the chunks before it, added up.
pub open spec fn chunk_start(len: nat, workers: nat, index: nat) -> nat
    recommends
        workers > 0,
        index <= workers,
{
    if index < len % workers {
        index * (len / workers) + index
    } else {
        index * (len / workers) + len % workers
    }
}

/// Chunk `index` of `entries`.
pub open spec fn chunk_of<T>(entries: Seq<T>, workers: nat, index: nat) -> Seq<T>
    recommends
        workers > 0,
        index < workers,
{
    entries.subrange(
        chunk_start(entries.len(), workers, index) as int,
        (chunk_start(entries.len(), workers, index) + chunk_len(entries.len(), workers, index)) as int,
    )
}

/// The chunks of `entries`, one for each worker.
pub open spec fn chunks_of<T>(entries: Seq<T>, workers: nat) -> Seq<Seq<T>>
    recommends
        workers > 0,
{
    Seq::new(workers, |i: int| chunk_of(entries, workers, i as nat))
}

/// What the chunks hold.
pub open spec fn chunk_views<T>(chunks: Seq<Vec<T>>) -> Seq<Seq<T>> {
    Seq::new(chunks.len(), |i: int| chunks[i]@)
}

/// The chunks lie end to end: the first begins at the first entry, each
/// begins where the one before it ends, and the last ends at the last entry.
pub proof fn lemma_chunks_lie_end_to_end(len: nat, workers: nat, index: nat)
    requires
        workers > 0,
        index < workers,
    ensures
        chunk_start(len, workers, 0) == 0,
        chunk_start(len, workers, index + 1) == chunk_start(len, workers, index) + chunk_len(
            len,
            workers,
            index,
        ),
        chunk_start(len, workers, index + 1) <= len,
        chunk_start(len, workers, workers) == len,
{
    let base = len / workers;
    let extra = len % workers;
    assert(len == workers * base + extra && 0 <= extra < workers) by (nonlinear_arith)
        requires
            base == len / workers,
            extra == len % workers,
            workers > 0,
    ;
    assert((index + 1) * base == index * base + base) by (nonlinear_arith);
    assert((index + 1) * base <= workers * base) by (nonlinear_arith)
        requires
            index + 1 <= workers,
            base >= 0,
    ;
    assert(0 * base == 0) by (nonlinear_arith);
}

/// No two chunks overlap: a chunk ends before any later chunk begins.
pub proof fn lemma_chunks_are_disjoint(len: nat, workers: nat, first: nat, second: nat)
    requires
        workers > 0,
        first < second < workers,
    ensures
        chunk_start(len, workers, first) + chunk_len(len, workers, first) <= chunk_start(
            len,
            workers,
            second,
        ),
    decreases second - first,
{
    lemma_chunks_lie_end_to_end(len, workers, first);
    if first + 1 < second {
        lemma_chunks_lie_end_to_end(len, workers, first + 1);
        lemma_chunks_are_disjoint(len, workers, first + 1, second);
    }
}

/// The first `count` chunks, one after the other, are the entries up to the
/// start of chunk `count`.
pub proof fn lemma_chunks_join<T>(entries: Seq<T>, workers: nat, count: nat)
    requires
        workers > 0,
        count <= workers,
    ensures
        chunks_of(entries, workers).take(count as int).flatten() == entries.subrange(
            0,
            chunk_start(entries.len(), workers, count) as int,
        ),
    decreases count,
{
    let len = entries.len();
    let pieces = chunks_of(entries, workers).take(count as int);
    pieces.lemma_flatten_and_flatten_alt_are_equivalent();
    if count == 0 {
        lemma_chunks_lie_end_to_end(len, workers, 0);
        assert(pieces.flatten_alt() =~= entries.subrange(0, 0));
    } else {
        let before = chunks_of(entries, workers).take(count - 1);
        lemma_chunks_join(entries, workers, (count - 1) as nat);
        before.lemma_flatten_and_flatten_alt_are_equivalent();
        lemma_chunks_lie_end_to_end(len, workers, (count - 1) as nat);
        assert(pieces.drop_last() =~= before);
        assert(pieces.last() == chunk_of(entries, workers, (count - 1) as nat));
        assert(pieces.flatten_alt() =~= entries.subrange(
            0,
            chunk_start(len, workers, count) as int,
        ));
    }
}

/// Every entry is in exactly one chunk, and in its place: the chunks, one
/// after the other, are the entries.
pub proof fn lemma_chunks_cover<T>(entries: Seq<T>, workers: nat)
    requires
        workers > 0,
    ensures
        chunks_of(entries, workers).len() == workers,
        chunks_of(entries, workers).flatten() == entries,
{
    let chunks = chunks_of(entries, workers);
    lemma_chunks_join(entries, workers, workers);
    lemma_chunks_lie_end_to_end(entries.len(), workers, (workers - 1) as nat);
    assert(chunks.take(workers as int) =~= chunks);
    assert(entries.subrange(0, entries.len() as int) =~= entries);
}

/// Computes the length of one chunk.
pub fn chunk_size(len: usize, workers: usize, index: usize) -> (size: usize)
    requires
        workers > 0,
        index < workers,
    ensures
        size == chunk_len(len as nat, workers as nat, index as nat),
{
    proof {
        lemma_chunks_lie_end_to_end(len as nat, workers as nat, index as nat);
    }
    if index < len % workers {
        len / workers + 1
    } else {
        len / workers
    }
}

/// Computes where one chunk begins; for `index == workers`, where the last one ends.
pub fn chunk_begin(len: usize, workers: usize, index: usize) -> (start: usize)
    requires
        workers > 0,
        index <= workers,
    ensures
        start == chunk_start(len as nat, workers as nat, index as nat),
        start <= len,
{
    let base = len / workers;
    let extra = len % workers;
    proof {
        if index > 0 {
            lemma_chunks_lie_end_to_end(len as nat, workers as nat, (index - 1) as nat);
        } else {
            lemma_chunks_lie_end_to_end(len as nat, workers as nat, 0);
        }
        assert(index * base >= 0) by (nonlinear_arith)
            requires
                index >= 0,
                base >= 0,
        ;
    }
    if index < extra {
        index * base + index
    } else {
        index * base + extra
    }
}

/// Splits `entries` among `workers` workers.
pub fn partition<T>(entries: Vec<T>, workers: usize) -> (chunks: Vec<Vec<T>>)
    requires
        workers > 0,
    ensures
        chunks.len() == workers,
        chunk_views(chunks@) == chunks_of(entries@, workers as nat),
        chunk_views(chunks@).flatten() == entries@,
{
    let len = entries.len();
    let ghost all = entries@;
    let mut rest = entries;
    let mut backwards: Vec<Vec<T>> = Vec::new();
    let mut i: usize = workers;
    proof {
        lemma_chunks_lie_end_to_end(len as nat, workers as nat, (workers - 1) as nat);
        assert(rest@ =~= all.subrange(0, len as int));
    }
    while i > 0
        invariant
            workers > 0,
            i <= workers,
            len == all.len(),
            backwards.len() == workers - i,
            rest@ == all.subrange(0, chunk_start(len as nat, workers as nat, i as nat) as int),
            chunk_start(len as nat, workers as nat, i as nat) <= len,
            forall|k: int|
                0 <= k < backwards.len() ==> (#[trigger] backwards@[k])@ == chunk_of(
                    all,
                    workers as nat,
                    (workers - 1 - k) as nat,
                ),
        decreases i,
    {
        i -= 1;
        let start = chunk_begin(len, workers, i);
        proof {
            lemma_chunks_lie_end_to_end(len as nat, workers as nat, i as nat);
        }
        let chunk = rest.split_off(start);
        assert(chunk@ =~= chunk_of(all, workers as nat, i as nat));
        assert(rest@ =~= all.subrange(0, start as int));
        backwards.push(chunk);
    }
    let mut chunks: Vec<Vec<T>> = Vec::new();
    while backwards.len() > 0
        invariant
            chunks.len() + backwards.len() == workers,
            forall|k: int|
                0 <= k < backwards.len() ==> (#[trigger] backwards@[k])@ == chunk_of(
                    all,
                    workers as nat,
                    (workers - 1 - k) as nat,
                ),
            forall|k: int|
                0 <= k < chunks.len() ==> (#[trigger] chunks@[k])@ == chunk_of(
                    all,
                    workers as nat,
                    k as nat,
                ),
        decreases backwards.len(),
    {
        let chunk = backwards.pop().unwrap();
        chunks.push(chunk);
    }
    proof {
        assert(chunk_views(chunks@) =~= chunks_of(all, workers as nat));
        lemma_chunks_cover(all, workers as nat);
    }
    chunks
}

} // verus!
