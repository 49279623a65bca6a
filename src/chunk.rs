use vstd::prelude::*;

verus! {

/// The largest number of bytes that the browser's `getRandomValues` fills in
/// one call; a longer request raises a quota error.
pub const MAX_CHUNK: usize = 65536;

/// The half-open byte range `start..end` of the destination buffer that one
/// call of the host's fill primitive covers.
#[derive(Clone, Copy, Debug, PartialEq, Eq, Structural)]
pub struct Chunk {
    pub start: usize,
    pub end: usize,
}

/// Number of calls needed to cover `len` bytes in pieces of at most
/// `MAX_CHUNK`: the ceiling of `len / MAX_CHUNK`.
pub open spec fn chunk_count(len: nat) -> nat {
    ((len + MAX_CHUNK - 1) as nat) / (MAX_CHUNK as nat)
}

/// The `i`-th piece: it starts at `i * MAX_CHUNK` and runs for `MAX_CHUNK`
/// bytes, or up to `len` where the buffer ends first.
pub open spec fn chunk_at(i: int, len: nat) -> Chunk {
    let start = i * MAX_CHUNK;
    let end = if start + MAX_CHUNK <= len { start + MAX_CHUNK } else { len as int };
    Chunk { start: start as usize, end: end as usize }
}

/// All the pieces of a `len`-byte buffer, in increasing offset order.
pub open spec fn chunks_of(len: nat) -> Seq<Chunk> {
    Seq::new(chunk_count(len), |i: int| chunk_at(i, len))
}

/// The pieces `plan` cover `0..len` exactly: the first starts at 0, each
/// starts where the one before it ended, the last ends at `len`, and none is
/// empty or longer than `MAX_CHUNK`.
pub open spec fn covers(plan: Seq<Chunk>, len: nat) -> bool {
    &&& (len == 0 <==> plan.len() == 0)
    &&& plan.len() > 0 ==> plan[0].start == 0
    &&& plan.len() > 0 ==> plan[plan.len() - 1].end == len
    &&& forall|i: int|
        0 <= i < plan.len() ==> plan[i].start < plan[i].end && plan[i].end - plan[i].start
            <= MAX_CHUNK
    &&& forall|i: int| 0 <= i < plan.len() - 1 ==> #[trigger] plan[i].end == plan[i + 1].start
}

/// Sum of the lengths of the pieces of `plan`.
pub open spec fn total_len(plan: Seq<Chunk>) -> int
    decreases plan.len(),
{
    if plan.len() == 0 {
        0
    } else {
        total_len(plan.drop_last()) + (plan.last().end - plan.last().start)
    }
}

proof fn lemma_count_step(n: nat, len: nat)
    requires
        n * MAX_CHUNK < len,
    ensures
        n < chunk_count(len),
{
    let c = MAX_CHUNK as nat;
    assert((n + 1) * c <= len + c - 1) by (nonlinear_arith)
        requires
            n * c < len,
            c == 65536,
    ;
    assert(n + 1 <= (len + c - 1) as nat / c) by (nonlinear_arith)
        requires
            (n + 1) * c <= len + c - 1,
            c == 65536,
    ;
}

proof fn lemma_count_last(n: nat, len: nat)
    requires
        n * MAX_CHUNK < len,
        len <= (n + 1) * MAX_CHUNK,
    ensures
        chunk_count(len) == n + 1,
{
    let c = MAX_CHUNK as nat;
    assert((n + 1) * c <= len + c - 1 < (n + 2) * c) by (nonlinear_arith)
        requires
            n * c < len,
            len <= (n + 1) * c,
            c == 65536,
    ;
    assert((len + c - 1) as nat / c == n + 1) by (nonlinear_arith)
        requires
            (n + 1) * c <= len + c - 1 < (n + 2) * c,
            c == 65536,
    ;
}

/// The pieces in which the browser's fill primitive is called on a buffer of
/// `len` bytes: consecutive runs of `MAX_CHUNK` bytes, the last one possibly
/// shorter; none at all for an empty buffer.
pub fn chunk_plan(len: usize) -> (r: Vec<Chunk>)
    ensures
        r@ == chunks_of(len as nat),
{
    let mut plan: Vec<Chunk> = Vec::new();
    let mut start: usize = 0;
    while start < len
        invariant
            start <= len,
            start as int == plan@.len() * MAX_CHUNK,
            plan@.len() <= chunk_count(len as nat),
            forall|j: int| 0 <= j < plan@.len() ==> plan@[j] == chunk_at(j, len as nat),
        decreases len - start,
    {
        let ghost n = plan@.len();
        proof {
            lemma_count_step(n, len as nat);
        }
        if len - start > MAX_CHUNK {
            let end = start + MAX_CHUNK;
            plan.push(Chunk { start, end });
            assert(end as int == (n + 1) * MAX_CHUNK) by (nonlinear_arith)
                requires
                    end == start + MAX_CHUNK,
                    start as int == n * MAX_CHUNK,
            ;
            start = end;
        } else {
            plan.push(Chunk { start, end: len });
            proof {
                assert(len <= (n + 1) * MAX_CHUNK) by (nonlinear_arith)
                    requires
                        len - start <= MAX_CHUNK,
                        start as int == n * MAX_CHUNK,
                ;
                lemma_count_last(n, len as nat);
            }
            assert(plan@ =~= chunks_of(len as nat));
            return plan;
        }
    }
    proof {
        let n = plan@.len();
        assert(len as int == n * MAX_CHUNK);
        if n > 0 {
            assert((n - 1) * MAX_CHUNK < len) by (nonlinear_arith)
                requires
                    len as int == n * MAX_CHUNK,
                    n > 0,
            ;
            lemma_count_last((n - 1) as nat, len as nat);
        }
    }
    assert(plan@ =~= chunks_of(len as nat));
    plan
}

/// Where piece `i` of a `len`-byte buffer starts, for a piece that exists.
proof fn lemma_chunk_bounds(i: int, len: nat)
    requires
        0 <= i < chunk_count(len),
        len <= usize::MAX,
    ensures
        i * MAX_CHUNK < len,
        chunk_at(i, len).start == i * MAX_CHUNK,
        chunk_at(i, len).end == if (i + 1) * MAX_CHUNK <= len {
            (i + 1) * MAX_CHUNK
        } else {
            len as int
        },
        i + 1 < chunk_count(len) ==> (i + 1) * MAX_CHUNK < len,
        i + 1 == chunk_count(len) ==> len <= (i + 1) * MAX_CHUNK,
{
    let c = MAX_CHUNK as nat;
    let k = chunk_count(len);
    assert(k * c <= len + c - 1 < (k + 1) * c) by (nonlinear_arith)
        requires
            k == (len + c - 1) as nat / c,
            c == 65536,
    ;
    assert(i * c < len) by (nonlinear_arith)
        requires
            0 <= i < k,
            k * c <= len + c - 1,
            c == 65536,
    ;
    if i + 1 < k {
        assert((i + 1) * c < len) by (nonlinear_arith)
            requires
                i + 1 < k,
                k * c <= len + c - 1,
                c == 65536,
        ;
    }
    if i + 1 == k {
        assert(len <= (i + 1) * c) by (nonlinear_arith)
            requires
                i + 1 == k,
                len + c - 1 < (k + 1) * c,
                c == 65536,
        ;
    }
    assert((i + 1) * c == i * c + c) by (nonlinear_arith);
}

/// The pieces of the first `k` calls together cover `0..end` of piece `k - 1`.
proof fn lemma_prefix_total(len: nat, k: int)
    requires
        0 < k <= chunk_count(len),
        len <= usize::MAX,
    ensures
        total_len(chunks_of(len).take(k)) == chunk_at(k - 1, len).end,
    decreases k,
{
    let plan = chunks_of(len);
    let pre = plan.take(k);
    assert(pre.drop_last() =~= plan.take(k - 1));
    lemma_chunk_bounds(k - 1, len);
    assert(pre.last() == chunk_at(k - 1, len));
    assert(total_len(pre) == total_len(pre.drop_last()) + (pre.last().end - pre.last().start));
    if k > 1 {
        lemma_prefix_total(len, k - 1);
        lemma_chunk_bounds(k - 2, len);
        assert((k - 1) * MAX_CHUNK == (k - 2) * MAX_CHUNK + MAX_CHUNK) by (nonlinear_arith);
    } else {
        assert(plan.take(0).len() == 0);
    }
}

/// The pieces of a `len`-byte buffer cover it in offset order with no gap
/// and no overlap, their lengths add up to `len`, and there are
/// `ceil(len / MAX_CHUNK)` of them.
pub proof fn lemma_chunks_cover(len: nat)
    requires
        len <= usize::MAX,
    ensures
        covers(chunks_of(len), len),
        total_len(chunks_of(len)) == len,
        chunks_of(len).len() == chunk_count(len),
        chunk_count(len) * MAX_CHUNK >= len,
        chunk_count(len) == 0 || (chunk_count(len) - 1) * MAX_CHUNK < len,
{
    let plan = chunks_of(len);
    let k = chunk_count(len);
    let c = MAX_CHUNK as nat;
    assert(k * c <= len + c - 1 < (k + 1) * c) by (nonlinear_arith)
        requires
            k == (len + c - 1) as nat / c,
            c == 65536,
    ;
    assert(len == 0 <==> k == 0) by (nonlinear_arith)
        requires
            k * c <= len + c - 1 < (k + 1) * c,
            c == 65536,
    ;
    assert forall|i: int| 0 <= i < plan.len() implies plan[i].start < plan[i].end
        && plan[i].end - plan[i].start <= MAX_CHUNK by {
        lemma_chunk_bounds(i, len);
    }
    assert forall|i: int| 0 <= i < plan.len() - 1 implies #[trigger] plan[i].end == plan[i
        + 1].start by {
        lemma_chunk_bounds(i, len);
        lemma_chunk_bounds(i + 1, len);
        assert((i + 1) * MAX_CHUNK == i * MAX_CHUNK + MAX_CHUNK) by (nonlinear_arith);
    }
    if k > 0 {
        lemma_chunk_bounds(k - 1, len);
        lemma_prefix_total(len, k as int);
        assert(plan.take(k as int) =~= plan);
        assert(k * MAX_CHUNK >= len) by (nonlinear_arith)
            requires
                len <= (k - 1 + 1) * MAX_CHUNK,
        ;
    }
}

} // verus!
