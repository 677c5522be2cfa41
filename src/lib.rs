//! Limit/offset pairs for paginated range queries.
//!
//! A range of records `[0, total)` is split into equal chunks, each described
//! by a `LimitOffsetPair` whose `offset` is the inclusive start and whose
//! `limit` is the exclusive end of the chunk.
use vstd::prelude::*;

verus! {

/// One chunk of a record range: `offset` is its inclusive start and `limit`
/// its exclusive end.
#[derive(Clone, Copy, Debug, PartialEq, Eq, Structural)]
pub struct LimitOffsetPair {
    pub limit: usize,
    pub offset: usize,
}

impl View for LimitOffsetPair {
    /// `(offset, limit)` as mathematical integers.
    type V = (nat, nat);

    open spec fn view(&self) -> (nat, nat) {
        (self.offset as nat, self.limit as nat)
    }
}

/// Why a partition request was refused.
#[derive(Clone, Copy, Debug, PartialEq, Eq, Structural)]
pub enum ChunkError {
    /// The chunk size is zero or does not divide the total evenly.
    InvalidChunkSize,
}

/// A total can be split into chunks of `chunk_size` exactly when the size is
/// positive and leaves no remainder.
pub open spec fn divides_evenly(chunk_size: nat, total: nat) -> bool {
    chunk_size > 0 && total % chunk_size == 0
}

/// The chunk with index `i` of size `chunk_size`, as `(offset, limit)`.
pub open spec fn chunk_at(chunk_size: nat, i: nat) -> (nat, nat) {
    (i * chunk_size, (i + 1) * chunk_size)
}

/// The chunks that partition `[0, total)` into pieces of `chunk_size`,
/// in increasing order.
pub open spec fn chunk_pairs(chunk_size: nat, total: nat) -> Seq<(nat, nat)>
    recommends
        chunk_size > 0,
{
    Seq::new(total / chunk_size, |i: int| chunk_at(chunk_size, i as nat))
}

/// The `(offset, limit)` view of each pair of a sequence.
pub open spec fn pairs_view(pairs: Seq<LimitOffsetPair>) -> Seq<(nat, nat)> {
    pairs.map_values(|p: LimitOffsetPair| p@)
}

/// Each chunk starts where the one before it ends.
pub proof fn lemma_chunk_pairs_adjacent(chunk_size: nat, total: nat)
    requires
        divides_evenly(chunk_size, total),
    ensures
        forall|i: int|
            0 <= i < chunk_pairs(chunk_size, total).len() - 1 ==> (#[trigger] chunk_pairs(
                chunk_size,
                total,
            )[i + 1]).0 == chunk_pairs(chunk_size, total)[i].1,
{
}

/// A non-empty total is covered from offset zero up to `total`.
pub proof fn lemma_chunk_pairs_cover(chunk_size: nat, total: nat)
    requires
        divides_evenly(chunk_size, total),
        total > 0,
    ensures
        chunk_pairs(chunk_size, total).len() > 0,
        chunk_pairs(chunk_size, total)[0].0 == 0,
        chunk_pairs(chunk_size, total).last().1 == total,
{
    let n = total / chunk_size;
    vstd::arithmetic::div_mod::lemma_fundamental_div_mod(total as int, chunk_size as int);
    assert(n > 0) by (nonlinear_arith)
        requires
            n * chunk_size == total,
            total > 0,
    ;
    assert(chunk_pairs(chunk_size, total).last().1 == n * chunk_size) by (nonlinear_arith)
        requires
            chunk_pairs(chunk_size, total).last().1 == ((n - 1) + 1) * chunk_size,
            n > 0,
    ;
}

/// Every record below `total` lies in exactly one chunk, the one
/// with index `x / chunk_size`.
pub proof fn lemma_chunk_pairs_partition(chunk_size: nat, total: nat, x: nat)
    requires
        divides_evenly(chunk_size, total),
        x < total,
    ensures
        forall|i: int|
            0 <= i < chunk_pairs(chunk_size, total).len() ==> ((#[trigger] chunk_pairs(
                chunk_size,
                total,
            )[i]).0 <= x < chunk_pairs(chunk_size, total)[i].1 <==> i == x / chunk_size),
        x / chunk_size < chunk_pairs(chunk_size, total).len(),
{
    let c = chunk_size as int;
    let q = x / chunk_size;
    vstd::arithmetic::div_mod::lemma_fundamental_div_mod(x as int, c);
    vstd::arithmetic::div_mod::lemma_div_is_ordered(x as int, total as int, c);
    vstd::arithmetic::div_mod::lemma_fundamental_div_mod(total as int, c);
    assert(q < total / chunk_size) by (nonlinear_arith)
        requires
            q * c <= x,
            x < total,
            (total / chunk_size) * c == total,
            c > 0,
    ;
    assert forall|i: int| 0 <= i < chunk_pairs(chunk_size, total).len() implies (#[trigger] chunk_pairs(
        chunk_size,
        total,
    )[i]).0 <= x < chunk_pairs(chunk_size, total)[i].1 <==> i == q by {
        assert(chunk_pairs(chunk_size, total)[i].0 == i * c);
        assert(chunk_pairs(chunk_size, total)[i].1 == (i + 1) * c);
        if i * c <= x < (i + 1) * c {
            assert(i == q) by (nonlinear_arith)
                requires
                    i * c <= x < (i + 1) * c,
                    q * c <= x < q * c + c,
                    c > 0,
            ;
        }
        if i == q {
            assert(i * c <= x < (i + 1) * c) by (nonlinear_arith)
                requires
                    i == q,
                    q * c <= x < q * c + c,
            ;
        }
    }
}

/// Whether `total` can be split into chunks of `chunk_size` with nothing left
/// over. A zero chunk size never can.
pub fn validate_chunk_size(chunk_size: usize, total: usize) -> (r: bool)
    ensures
        r == divides_evenly(chunk_size as nat, total as nat),
{
    chunk_size != 0 && total % chunk_size == 0
}

/// Splits `[0, absolute_limit)` into chunks of `chunk_size` records.
///
/// Fails with `InvalidChunkSize` when `chunk_size` is zero or does not divide
/// `absolute_limit`; otherwise the `i`-th pair is
/// `(i * chunk_size, (i + 1) * chunk_size)`.
pub fn get_limit_offset_pairs(chunk_size: usize, absolute_limit: usize) -> (r: Result<
    Vec<LimitOffsetPair>,
    ChunkError,
>)
    ensures
        r is Ok <==> divides_evenly(chunk_size as nat, absolute_limit as nat),
        r matches Err(e) ==> e == ChunkError::InvalidChunkSize,
        r matches Ok(v) ==> pairs_view(v@) == chunk_pairs(chunk_size as nat, absolute_limit as nat),
        r matches Ok(v) ==> v@.len() == absolute_limit / chunk_size,
        r matches Ok(v) ==> forall|i: int|
            #![trigger v@[i]]
            0 <= i < v@.len() ==> {
                &&& v@[i].offset == i * chunk_size
                &&& v@[i].limit == (i + 1) * chunk_size
            },
{
    if !validate_chunk_size(chunk_size, absolute_limit) {
        return Err(ChunkError::InvalidChunkSize);
    }
    let count: usize = absolute_limit / chunk_size;
    assert(count * chunk_size == absolute_limit) by {
        vstd::arithmetic::div_mod::lemma_fundamental_div_mod(
            absolute_limit as int,
            chunk_size as int,
        );
    }
    let mut pairs: Vec<LimitOffsetPair> = Vec::new();
    for i in 0..count
        invariant
            count == absolute_limit / chunk_size,
            count * chunk_size == absolute_limit,
            pairs@.len() == i,
            forall|j: int|
                #![trigger pairs@[j]]
                0 <= j < i ==> {
                    &&& pairs@[j].offset == j * chunk_size
                    &&& pairs@[j].limit == (j + 1) * chunk_size
                },
    {
        assert((i + 1) * chunk_size <= count * chunk_size) by (nonlinear_arith)
            requires
                i < count,
        ;
        assert((i + 1) * chunk_size == i * chunk_size + chunk_size) by (nonlinear_arith);
        let offset: usize = i * chunk_size;
        let limit: usize = offset + chunk_size;
        pairs.push(LimitOffsetPair { limit, offset });
    }
    assert(pairs_view(pairs@) =~= chunk_pairs(chunk_size as nat, absolute_limit as nat));
    Ok(pairs)
}

/// The pair of page `page` when every page holds `page_size` records:
/// `offset = page * page_size` and `limit = offset + page_size`.
///
/// A zero `page_size` gives an empty page, with `limit == offset`.
pub fn for_page(page: usize, page_size: usize) -> (r: LimitOffsetPair)
    requires
        (page + 1) * page_size <= usize::MAX,
    ensures
        r.offset == page * page_size,
        r.limit == (page + 1) * page_size,
        r@ == chunk_at(page_size as nat, page as nat),
{
    assert((page + 1) * page_size == page * page_size + page_size) by (nonlinear_arith);
    assert(page * page_size <= (page + 1) * page_size) by (nonlinear_arith);
    let offset: usize = page * page_size;
    let limit: usize = offset + page_size;
    LimitOffsetPair { limit, offset }
}

} // verus!
