//! Partition of the image rows over a fixed pool of render workers.
//!
//! Rows are dealt round-robin: the worker with index `w` owns exactly the rows
//! `y` with `y mod count == w`. The stripes of two distinct workers are
//! disjoint and together cover every row, so each worker can fill its rows of
//! the shared raster without coordinating with the others.

use vstd::prelude::*;
use vstd::arithmetic::div_mod::lemma_mod_bound;

verus! {

/// The worker that owns row `y` when rows are dealt round-robin over `count`
/// workers.
pub open spec fn row_owner(y: int, count: int) -> int {
    y % count
}

/// Every row of the image has an owner, and it is a valid worker index; since
/// `row_owner` is a function of the row, the owner is unique, so the workers'
/// stripes are disjoint and together cover the image.
pub proof fn lemma_row_owner_valid(y: int, count: int)
    requires
        0 <= y,
        0 < count,
    ensures
        0 <= row_owner(y, count) < count,
{
    lemma_mod_bound(y, count);
}

/// The rows of a `height`-row image owned by the given worker, in increasing
/// order: exactly those `y` below `height` with `y mod count == worker`.
pub fn worker_rows(worker: u32, count: u32, height: u32) -> (rows: Vec<u32>)
    requires
        0 < count,
        worker < count,
    ensures
        forall|i: int|
            0 <= i < rows@.len() ==> rows@[i] < height && row_owner(rows@[i] as int, count as int)
                == worker as int,
        forall|y: u32|
            y < height && row_owner(y as int, count as int) == worker as int ==> rows@.contains(y),
        forall|i: int, j: int| 0 <= i < j < rows@.len() ==> rows@[i] < rows@[j],
{
    let mut rows: Vec<u32> = Vec::new();
    let mut y: u32 = 0;
    while y < height
        invariant
            y <= height,
            worker < count,
            forall|i: int|
                0 <= i < rows@.len() ==> rows@[i] < y && row_owner(
                    rows@[i] as int,
                    count as int,
                ) == worker as int,
            forall|z: u32|
                z < y && row_owner(z as int, count as int) == worker as int ==> rows@.contains(z),
            forall|i: int, j: int| 0 <= i < j < rows@.len() ==> rows@[i] < rows@[j],
        decreases height - y,
    {
        if y % count == worker {
            let ghost prev_rows = rows@;
            rows.push(y);
            proof {
                assert forall|z: u32|
                    z < y && row_owner(z as int, count as int) == worker as int
                        implies rows@.contains(z) by {
                    let i: int = choose|i: int| 0 <= i < prev_rows.len() && prev_rows[i] == z;
                    assert(rows@[i] == z);
                }
                assert(rows@[rows@.len() - 1] == y);
            }
        }
        y = y + 1;
    }
    rows
}

/// Convert a bottom-up row index to the top-down raster row, as the renderer
/// does when it writes a finished pixel into the image.
pub fn flip_row(y: u32, height: u32) -> (r: u32)
    requires
        y < height,
    ensures
        r == height - 1 - y,
        r < height,
{
    height - 1 - y
}

/// Flipping a row index twice gives back the original row: the vertical flip
/// at write time is an involution, so no two rows collide under it.
pub proof fn lemma_flip_row_involutive(y: int, height: int)
    requires
        0 <= y < height,
    ensures
        height - 1 - (height - 1 - y) == y,
        0 <= height - 1 - y < height,
{
}

} // verus!
