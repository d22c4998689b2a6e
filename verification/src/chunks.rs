//! Balanced partition of `len` elements into `n` contiguous chunks.
//!
//! With `base = len / n` and `rem = len % n`, the first `rem` chunks hold
//! `base + 1` elements and the rest hold `base`.  Chunk `i` starts at
//! `i * base + min(i, rem)`.  The ranges cover `[0, len)` exactly, in
//! order, and any two chunk lengths differ by at most one element.

use vstd::prelude::*;
use vstd::arithmetic::div_mod::lemma_fundamental_div_mod;
use vstd::arithmetic::div_mod::lemma_mod_bound;
use vstd::arithmetic::div_mod::lemma_div_pos_is_pos;
use vstd::arithmetic::mul::lemma_mul_inequality;
use vstd::arithmetic::mul::lemma_mul_is_distributive_add_other_way;

verus! {

/// Offset at which chunk `i` of a balanced `n`-way partition of `len`
/// elements begins.
pub open spec fn chunk_start(len: int, n: int, i: int) -> int {
    let base = len / n;
    let rem = len % n;
    i * base + if i <= rem {
        i
    } else {
        rem
    }
}

/// Number of elements in chunk `i` of a balanced `n`-way partition of
/// `len` elements.
pub open spec fn chunk_len(len: int, n: int, i: int) -> int {
    let base = len / n;
    let rem = len % n;
    base + if i < rem {
        1int
    } else {
        0int
    }
}

/// Coverage law: the chunk ranges partition `[0, len)` exactly — the
/// first chunk starts at zero, each chunk ends where the next one
/// begins, no chunk is of negative length, and the last chunk ends at
/// `len`.  So there are no gaps, no overlaps, and the ranges are sorted
/// by start offset.
pub proof fn lemma_chunks_cover(len: int, n: int)
    requires
        0 <= len,
        1 <= n,
    ensures
        chunk_start(len, n, 0) == 0,
        chunk_start(len, n, n) == len,
        forall|i: int|
            0 <= i < n ==> #[trigger] chunk_start(len, n, i + 1) == chunk_start(len, n, i)
                + chunk_len(len, n, i),
        forall|i: int| 0 <= i < n ==> #[trigger] chunk_len(len, n, i) >= 0,
{
    let base = len / n;
    let rem = len % n;
    lemma_fundamental_div_mod(len, n);
    lemma_mod_bound(len, n);
    lemma_div_pos_is_pos(len, n);
    assert(chunk_start(len, n, n) == len);
    assert forall|i: int| 0 <= i < n implies #[trigger] chunk_start(len, n, i + 1) == chunk_start(
        len,
        n,
        i,
    ) + chunk_len(len, n, i) by {
        lemma_mul_is_distributive_add_other_way(base, i, 1);
    }
}

/// Balance law: any two chunks of the same partition differ in length
/// by at most one element.
pub proof fn lemma_chunks_balanced(len: int, n: int, i: int, j: int)
    requires
        0 <= len,
        1 <= n,
        0 <= i < n,
        0 <= j < n,
    ensures
        chunk_len(len, n, i) - chunk_len(len, n, j) <= 1,
{
}

/// Every chunk start lies inside `[0, len]`, so the offset and the end
/// of each chunk fit in the input.
pub proof fn lemma_chunk_start_bounds(len: int, n: int, i: int)
    requires
        0 <= len,
        1 <= n,
        0 <= i <= n,
    ensures
        0 <= chunk_start(len, n, i) <= len,
{
    let base = len / n;
    let rem = len % n;
    lemma_fundamental_div_mod(len, n);
    lemma_mod_bound(len, n);
    lemma_div_pos_is_pos(len, n);
    lemma_mul_inequality(i, n, base);
    assert(i * base >= 0) by (nonlinear_arith)
        requires
            i >= 0,
            base >= 0,
    ;
}

/// Computes the start offset and length of chunk `i` of a balanced
/// `n`-way partition of `len` elements.
pub fn chunk_range(len: usize, n: usize, i: usize) -> (r: (usize, usize))
    requires
        1 <= n,
        i < n,
    ensures
        r.0 == chunk_start(len as int, n as int, i as int),
        r.1 == chunk_len(len as int, n as int, i as int),
        r.0 + r.1 <= len,
{
    proof {
        lemma_chunks_cover(len as int, n as int);
        lemma_chunk_start_bounds(len as int, n as int, i as int);
        lemma_chunk_start_bounds(len as int, n as int, i as int + 1);
        assert(chunk_start(len as int, n as int, i as int + 1) == chunk_start(
            len as int,
            n as int,
            i as int,
        ) + chunk_len(len as int, n as int, i as int));
    }
    let base: usize = len / n;
    let rem: usize = len % n;
    let start: usize = i * base + if i < rem {
        i
    } else {
        rem
    };
    let length: usize = base + if i < rem {
        1
    } else {
        0
    };
    (start, length)
}

} // verus!

