//! The mathematical model shared by both fields.
//!
//! A buffer of cells is modelled as a `Seq<int>` of its values; the stencil
//! at the heart of the relaxation solver is the floor of the equal-weight
//! average of five cell values.  Edges are clamped: a missing neighbor reads
//! as the cell itself (zero flux at the wall), never as a wrapped cell.

use vstd::prelude::*;
use crate::grid::{lemma_flat_in_range, Grid};
use vstd::arithmetic::div_mod::{lemma_div_is_ordered, lemma_div_multiples_vanish};

verus! {

/// The cell values of a buffer, as unbounded integers.
pub open spec fn field_model(s: Seq<u32>) -> Seq<int> {
    Seq::new(s.len(), |i: int| s[i] as int)
}

/// A field of `n` cells, all zero.
pub open spec fn zero_field(n: int) -> Seq<int> {
    Seq::new(n as nat, |i: int| 0)
}

/// Every cell of `s` lies in `[lo, hi]`.
pub open spec fn bounded(s: Seq<int>, lo: int, hi: int) -> bool {
    forall|i: int| 0 <= i < s.len() ==> lo <= #[trigger] s[i] <= hi
}

/// Every cell of `s` holds the same value `v`.
pub open spec fn is_uniform(s: Seq<int>, v: int) -> bool {
    forall|i: int| 0 <= i < s.len() ==> #[trigger] s[i] == v
}

/// The total of all cell values.
pub open spec fn field_sum(s: Seq<int>) -> int
    decreases s.len(),
{
    if s.len() == 0 {
        0
    } else {
        field_sum(s.drop_last()) + s.last()
    }
}

/// A bounded field's total lies between `len * lo` and `len * hi`.
pub proof fn lemma_sum_bounded(s: Seq<int>, lo: int, hi: int)
    requires
        bounded(s, lo, hi),
    ensures
        s.len() * lo <= field_sum(s) <= s.len() * hi,
    decreases s.len(),
{
    if s.len() == 0 {
        assert(s.len() * lo == 0 && s.len() * hi == 0) by (nonlinear_arith)
            requires
                s.len() == 0,
        ;
    } else {
        let s0 = s.drop_last();
        assert forall|i: int| 0 <= i < s0.len() implies lo <= #[trigger] s0[i] <= hi by {
            assert(s0[i] == s[i]);
        }
        lemma_sum_bounded(s0, lo, hi);
        assert(lo <= s.last() <= hi);
        assert(s0.len() * lo + lo == s.len() * lo) by (nonlinear_arith)
            requires
                s0.len() == s.len() - 1,
        ;
        assert(s0.len() * hi + hi == s.len() * hi) by (nonlinear_arith)
            requires
                s0.len() == s.len() - 1,
        ;
    }
}

/// Value of the axis-aligned neighbor `(nx, ny)` of cell `(x, y)`, read
/// from the frozen previous-pass slot `prev`; when the neighbor falls off
/// the grid the cell's own value is read instead (clamped edge), so no read
/// ever wraps around.
pub open spec fn neighbor_or_self(
    prev: Seq<int>,
    g: Grid,
    x: int,
    y: int,
    nx: int,
    ny: int,
) -> int {
    if g.in_bounds(nx, ny) {
        prev[g.flat(nx, ny)]
    } else {
        prev[g.flat(x, y)]
    }
}

/// The floor of the average of five cell values: the symmetric,
/// equal-weight stencil used by every relaxation pass.
pub open spec fn avg5(c: int, l: int, r: int, u: int, d: int) -> int {
    (c + l + r + u + d) / 5
}

/// The average of five values in `[lo, hi]` stays in `[lo, hi]`: the
/// stencil damps, it never amplifies.
pub proof fn lemma_avg5_in_bounds(c: int, l: int, r: int, u: int, d: int, lo: int, hi: int)
    requires
        lo <= c <= hi,
        lo <= l <= hi,
        lo <= r <= hi,
        lo <= u <= hi,
        lo <= d <= hi,
    ensures
        lo <= avg5(c, l, r, u, d) <= hi,
{
    let s = c + l + r + u + d;
    assert(5 * lo <= s <= 5 * hi);
    lemma_div_is_ordered(5 * lo, s, 5);
    lemma_div_is_ordered(s, 5 * hi, 5);
    lemma_div_multiples_vanish(lo, 5);
    lemma_div_multiples_vanish(hi, 5);
}

/// A clamped-neighbor read of a bounded field yields a bounded value: every
/// read resolves to some in-range cell of `prev`.
pub proof fn lemma_neighbor_in_bounds(
    prev: Seq<int>,
    g: Grid,
    x: int,
    y: int,
    nx: int,
    ny: int,
    lo: int,
    hi: int,
)
    requires
        g.wf(),
        prev.len() == g.count_spec(),
        g.in_bounds(x, y),
        bounded(prev, lo, hi),
    ensures
        lo <= neighbor_or_self(prev, g, x, y, nx, ny) <= hi,
{
    if g.in_bounds(nx, ny) {
        lemma_flat_in_range(g.w(), g.h(), nx, ny);
    } else {
        lemma_flat_in_range(g.w(), g.h(), x, y);
    }
}

/// Five equal values average to that value exactly: the weights sum to one,
/// so the stencil injects no energy of its own.
pub proof fn lemma_avg5_uniform(v: int)
    ensures
        avg5(v, v, v, v, v) == v,
{
    assert(v + v + v + v + v == 5 * v);
    lemma_div_multiples_vanish(v, 5);
}

} // verus!
