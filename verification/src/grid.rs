//! Grid dimensions and flat-index arithmetic.
//!
//! A grid is an immutable `(width, height)` pair fixed at construction.
//! Every cell-indexed buffer holds exactly `width * height` elements; the
//! cell `(x, y)` lives at the flat index `y * width + x`.

use vstd::prelude::*;

verus! {

/// Largest side length a grid may have.  With both sides at most `MAX_DIM`,
/// `width * height` fits in 32 bits, so flat-index arithmetic never
/// overflows a `usize`.
pub const MAX_DIM: usize = 0xFFFF;

/// Immutable grid dimensions.
#[derive(Clone, Copy, PartialEq, Eq, Structural)]
pub struct Grid {
    pub width: usize,
    pub height: usize,
}

impl Grid {
    /// Both sides are at least one cell and small enough that flat indices
    /// cannot overflow.
    pub open spec fn wf(&self) -> bool {
        1 <= self.width <= MAX_DIM && 1 <= self.height <= MAX_DIM
    }

    pub open spec fn w(&self) -> int {
        self.width as int
    }

    pub open spec fn h(&self) -> int {
        self.height as int
    }

    /// Number of cells.
    pub open spec fn count_spec(&self) -> int {
        self.w() * self.h()
    }

    /// Flat index of cell `(x, y)`.
    pub open spec fn flat(&self, x: int, y: int) -> int {
        y * self.w() + x
    }

    pub open spec fn in_bounds(&self, x: int, y: int) -> bool {
        0 <= x < self.w() && 0 <= y < self.h()
    }

    pub fn new(width: usize, height: usize) -> (g: Grid)
        requires
            1 <= width <= MAX_DIM,
            1 <= height <= MAX_DIM,
        ensures
            g.wf(),
            g.w() == width,
            g.h() == height,
    {
        Grid { width, height }
    }

    pub fn width(&self) -> (w: usize)
        ensures
            w == self.w(),
    {
        self.width
    }

    pub fn height(&self) -> (h: usize)
        ensures
            h == self.h(),
    {
        self.height
    }

    pub fn count(&self) -> (n: usize)
        requires
            self.wf(),
        ensures
            n == self.count_spec(),
    {
        proof {
            lemma_count_fits(self.w(), self.h());
        }
        self.width * self.height
    }

    /// Flat index of an in-bounds cell.
    pub fn index_of(&self, x: usize, y: usize) -> (i: usize)
        requires
            self.wf(),
            self.in_bounds(x as int, y as int),
        ensures
            i == self.flat(x as int, y as int),
            0 <= i < self.count_spec(),
    {
        proof {
            lemma_count_fits(self.w(), self.h());
            lemma_flat_in_range(self.w(), self.h(), x as int, y as int);
        }
        y * self.width + x
    }
}

/// The cell count of a well-formed grid fits in 32 bits.
pub proof fn lemma_count_fits(w: int, h: int)
    requires
        1 <= w <= MAX_DIM,
        1 <= h <= MAX_DIM,
    ensures
        w * h <= 0xFFFF_FFFF,
        1 <= w * h,
{
    assert(1 <= w * h <= 0xFFFF * 0xFFFF) by (nonlinear_arith)
        requires
            1 <= w <= 0xFFFF,
            1 <= h <= 0xFFFF,
    ;
}

/// The flat index of an in-bounds cell lies in `[0, w * h)`.
pub proof fn lemma_flat_in_range(w: int, h: int, x: int, y: int)
    requires
        1 <= w,
        0 <= x < w,
        0 <= y < h,
    ensures
        0 <= y * w + x < w * h,
{
    assert(0 <= y * w + x < w * h) by (nonlinear_arith)
        requires
            1 <= w,
            0 <= x < w,
            0 <= y < h,
    ;
}

/// Flattening is injective: the flat index of `(x, y)` decomposes back
/// into exactly that column and row.
pub proof fn lemma_flat_inverse(w: int, h: int, x: int, y: int)
    requires
        1 <= w,
        0 <= x < w,
        0 <= y < h,
    ensures
        (y * w + x) % w == x,
        (y * w + x) / w == y,
{
    vstd::arithmetic::div_mod::lemma_fundamental_div_mod_converse(y * w + x, w, y, x);
}

/// A flat index `i` decomposes into the column `i % w` and the row `i / w`.
pub proof fn lemma_flat_decompose(w: int, h: int, i: int)
    requires
        1 <= w,
        1 <= h,
        0 <= i < w * h,
    ensures
        0 <= i % w < w,
        0 <= i / w < h,
        (i / w) * w + (i % w) == i,
{
    assert(0 <= i % w < w && 0 <= i / w < h && (i / w) * w + (i % w) == i) by (nonlinear_arith)
        requires
            1 <= w,
            1 <= h,
            0 <= i < w * h,
    ;
}

} // verus!
