//! How a transfer is split over transfer descriptors.

use vstd::prelude::*;

verus! {

/// Transfer descriptors in the pool of one endpoint.
pub const TDS_PER_EP: usize = 8;

/// Largest payload of a single transfer descriptor: four pages of 4 KiB.
pub const TRANSFER_DTD_MAX: usize = 16384;

/// Largest payload of a full chain.
pub const TRANSFER_MAX_BYTES: usize = TDS_PER_EP * TRANSFER_DTD_MAX;

pub open spec fn min(a: int, b: int) -> int {
    if a <= b {
        a
    } else {
        b
    }
}

/// The number of descriptors that a transfer of `size` bytes takes: one for every
/// started `TRANSFER_DTD_MAX` bytes, one for an empty transfer, and never more than
/// the pool holds.
pub open spec fn chain_count(size: int) -> int {
    if size == 0 {
        1
    } else {
        min((size + TRANSFER_DTD_MAX - 1) / TRANSFER_DTD_MAX as int, TDS_PER_EP as int)
    }
}

/// The payload of descriptor `i` of a chain for `size` bytes.
pub open spec fn chain_size(size: int, i: int) -> int {
    if 0 <= i < chain_count(size) {
        min(size - i * TRANSFER_DTD_MAX, TRANSFER_DTD_MAX as int)
    } else {
        0
    }
}

/// Split `size` bytes into the payloads of a chain of descriptors.
///
/// Returns `(sizes, count)`: `sizes[..count]` are the payloads, and the rest is zero.
/// An empty transfer takes one empty descriptor. What exceeds `TRANSFER_MAX_BYTES` is
/// cut off.
pub fn chain_layout(size: usize) -> (result: ([usize; 8], usize))
    ensures
        result.1 == chain_count(size as int),
        forall|i: int| 0 <= i < TDS_PER_EP ==> #[trigger] result.0[i] == chain_size(size as int, i),
{
    let mut sizes: [usize; 8] = [0usize; 8];
    if size == 0 {
        return (sizes, 1);
    }
    let mut count: usize = 0;
    let mut off: usize = 0;
    while off < size && count < TDS_PER_EP
        invariant
            size > 0,
            count <= TDS_PER_EP,
            count <= chain_count(size as int),
            off == min(size as int, count * TRANSFER_DTD_MAX),
            forall|i: int| 0 <= i < count ==> #[trigger] sizes[i] == chain_size(size as int, i),
            forall|i: int| count <= i < TDS_PER_EP ==> #[trigger] sizes[i] == 0,
        decreases TDS_PER_EP - count,
    {
        let left: usize = size - off;
        let n: usize = if left < TRANSFER_DTD_MAX {
            left
        } else {
            TRANSFER_DTD_MAX
        };
        sizes[count] = n;
        count += 1;
        off += n;
    }
    (sizes, count)
}

} // verus!
