//! The row partition arithmetic: how a region's width is split, in whole
//! pixels, among `n` children so that the shares cover the width exactly.

use vstd::arithmetic::div_mod::{lemma_div_pos_is_pos, lemma_fundamental_div_mod};
use vstd::arithmetic::mul::{lemma_mul_inequality, lemma_mul_is_distributive_add_other_way};
use vstd::math::min;
use vstd::prelude::*;

verus! {

/// The width of the child at index `i` when a width `w` is partitioned
/// equally among `n` children: every child gets the floor share `w / n`, and
/// the first `w % n` children carry one extra pixel, so that the shares sum
/// to `w` exactly.
pub open spec fn row_child_width(w: int, n: int, i: int) -> int
    recommends
        0 < n,
        0 <= i < n,
{
    w / n + if i < w % n {
        1int
    } else {
        0int
    }
}

/// The main-axis offset of the child at index `i` from the region's left
/// edge: the sum of the widths of the children before it.
pub open spec fn row_child_offset(w: int, n: int, i: int) -> int
    recommends
        0 < n,
        0 <= i <= n,
{
    i * (w / n) + min(i, w % n)
}

/// The sum of the widths of the children from index `i` on.
pub open spec fn row_widths_sum_from(w: int, n: int, i: int) -> int
    recommends
        0 < n,
        0 <= i <= n,
    decreases n - i,
{
    if i < n {
        row_child_width(w, n, i) + row_widths_sum_from(w, n, i + 1)
    } else {
        0
    }
}

/// Each child begins exactly where the one before it ends: its offset plus
/// its width is the next child's offset.
pub proof fn lemma_row_offset_step(w: int, n: int, i: int)
    requires
        0 < n,
        0 <= i < n,
        0 <= w,
    ensures
        row_child_offset(w, n, i + 1) == row_child_offset(w, n, i) + row_child_width(w, n, i),
{
    lemma_mul_is_distributive_add_other_way(w / n, i, 1);
}

/// Every offset lies inside the region: the width partitioned so far never
/// exceeds `w`, and the last child ends exactly at `w`.
pub proof fn lemma_row_offset_bounds(w: int, n: int, i: int)
    requires
        0 < n,
        0 <= i <= n,
        0 <= w,
    ensures
        0 <= row_child_offset(w, n, i) <= w,
        row_child_offset(w, n, n) == w,
{
    lemma_div_pos_is_pos(w, n);
    lemma_fundamental_div_mod(w, n);
    lemma_mul_inequality(i, n, w / n);
    assert(0 <= i * (w / n)) by (nonlinear_arith)
        requires
            0 <= i,
            0 <= w / n,
    ;
}

/// Every child's width is nonnegative and fits inside the region.
pub proof fn lemma_row_width_bounds(w: int, n: int, i: int)
    requires
        0 < n,
        0 <= i < n,
        0 <= w,
    ensures
        0 <= row_child_width(w, n, i),
        row_child_offset(w, n, i) + row_child_width(w, n, i) <= w,
{
    lemma_div_pos_is_pos(w, n);
    lemma_row_offset_step(w, n, i);
    lemma_row_offset_bounds(w, n, i + 1);
}

/// Partition completeness: the widths of the children from index `i` on sum
/// to what is left of the region after the first `i` children.
pub proof fn lemma_row_partition_from(w: int, n: int, i: int)
    requires
        0 < n,
        0 <= i <= n,
        0 <= w,
    ensures
        row_widths_sum_from(w, n, i) == w - row_child_offset(w, n, i),
    decreases n - i,
{
    lemma_row_offset_bounds(w, n, n);
    if i < n {
        lemma_row_offset_step(w, n, i);
        lemma_row_partition_from(w, n, i + 1);
    }
}

/// Partition completeness: the `n` child widths sum to the region's width
/// exactly.
pub proof fn lemma_row_partition_sum(w: int, n: int)
    requires
        0 < n,
        0 <= w,
    ensures
        row_widths_sum_from(w, n, 0) == w,
{
    lemma_row_partition_from(w, n, 0);
}

} // verus!
