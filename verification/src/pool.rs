//! Going round the circular pool of transfer descriptors.

use crate::layout::TDS_PER_EP;
use vstd::prelude::*;

verus! {

/// Descriptor `i` of a transfer that starts at `first`: the pool is circular.
#[verifier::opaque]
pub open spec fn td_at(first: int, i: int) -> int {
    (first + i) % TDS_PER_EP as int
}

/// The place of descriptor `j` in a chain that starts at `first`.
#[verifier::opaque]
pub open spec fn td_place(first: int, j: int) -> int {
    (j - first) % TDS_PER_EP as int
}

/// The pool has room for every place.
pub broadcast proof fn lemma_td_at_range(first: int, i: int)
    ensures
        0 <= #[trigger] td_at(first, i) < TDS_PER_EP,
{
    reveal(td_at);
}

/// Only the distance from the start of the pool counts.
pub proof fn lemma_td_at_sum(first: int, a: int, other: int, b: int)
    requires
        first + a == other + b,
    ensures
        td_at(first, a) == td_at(other, b),
{
    reveal(td_at);
}

/// The first descriptor of a chain.
pub proof fn lemma_td_at_zero(first: int)
    requires
        0 <= first < TDS_PER_EP,
    ensures
        td_at(first, 0) == first,
{
    reveal(td_at);
}

/// Descriptor `i` of a transfer that starts at `first`.
pub fn td_index(first: usize, i: usize) -> (idx: usize)
    requires
        first < TDS_PER_EP,
        first + i <= usize::MAX,
    ensures
        idx == td_at(first as int, i as int),
        idx < TDS_PER_EP,
{
    reveal(td_at);
    (first + i) % TDS_PER_EP
}

/// Every descriptor has exactly one place in a chain.
pub proof fn lemma_place(first: int, j: int, i: int)
    requires
        0 <= first < TDS_PER_EP,
        0 <= j < TDS_PER_EP,
        0 <= i < TDS_PER_EP,
    ensures
        0 <= td_place(first, j) < TDS_PER_EP,
        0 <= td_at(first, i) < TDS_PER_EP,
        td_place(first, j) == i <==> j == td_at(first, i),
{
    reveal(td_at);
    reveal(td_place);
}

/// Going round the pool in two steps.
pub proof fn lemma_td_at_twice(first: int, a: int, b: int)
    ensures
        td_at(td_at(first, a), b) == td_at(first, a + b),
{
    reveal(td_at);
}

/// Where the pool starts only matters up to its size.
pub proof fn lemma_td_at_wraps(first: int, other: int, a: int)
    requires
        first % TDS_PER_EP as int == other % TDS_PER_EP as int,
    ensures
        td_at(first, a) == td_at(other, a),
{
    reveal(td_at);
}

/// Places that are less than a round apart are different.
pub proof fn lemma_td_at_distinct(first: int, a: int, b: int)
    requires
        a < b < a + TDS_PER_EP,
    ensures
        td_at(first, a) != td_at(first, b),
{
    reveal(td_at);
}

/// The descriptors in front of `first` come last in a chain that starts there.
pub proof fn lemma_place_in_front(first: int, distance: int)
    requires
        1 <= distance <= TDS_PER_EP,
    ensures
        td_place(first, td_at(first, -distance)) == TDS_PER_EP - distance,
{
    reveal(td_at);
    reveal(td_place);
}

/// Taking descriptors off the pool moves its end, and not its start.
pub proof fn lemma_start_stays(head: int, in_use: int, count: int)
    ensures
        (td_at(head, count) - (in_use + count)) % TDS_PER_EP as int == (head - in_use)
            % TDS_PER_EP as int,
{
    reveal(td_at);
}

} // verus!
