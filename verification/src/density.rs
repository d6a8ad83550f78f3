//! The density field and its relaxation solver.
//!
//! The field is held in three equal-size slots: two ping-pong working slots
//! (`a` and `b`, with a parity flag naming the one that currently holds the
//! authoritative values) and a `seed` slot.  The seed is refreshed once per
//! frame, right after force injection, and every relaxation pass of that
//! frame reads it as its fixed source term; the passes themselves only
//! alternate between the two working slots, swapping roles after each pass
//! instead of copying data.

use vstd::prelude::*;
use vstd::pervasive::VecAdditionalExecFns;
use crate::field::{
    avg5, bounded, field_model, lemma_avg5_in_bounds, lemma_neighbor_in_bounds, neighbor_or_self,
    zero_field,
};
use crate::fixed::{clamped, SCALE};
use crate::grid::{lemma_flat_decompose, Grid};

verus! {

/// Saturating injection of `amount` into one cell value: the sum, capped to
/// the representable density range `[0, SCALE]`.
pub open spec fn inject_value(v: int, amount: int) -> int {
    clamped(v + amount, 0, SCALE as int)
}

/// Uniform-mode injection: every cell receives the contribution.
pub open spec fn inject_all(s: Seq<int>, amount: int) -> Seq<int> {
    Seq::new(s.len(), |i: int| inject_value(s[i], amount))
}

/// Localized injection: exactly the cell `(x, y)` receives the
/// contribution.  An out-of-grid coordinate is silently ignored — the write
/// never wraps and never lands anywhere else.
pub open spec fn inject_cell(s: Seq<int>, g: Grid, x: int, y: int, amount: int) -> Seq<int> {
    if g.in_bounds(x, y) {
        s.update(g.flat(x, y), inject_value(s[g.flat(x, y)], amount))
    } else {
        s
    }
}

/// One cell of a relaxation pass: the equal-weight average of the cell's
/// own value in the frozen `seed` slot and its four axis-aligned neighbors'
/// values in the previous working slot.
pub open spec fn diffused(seed: Seq<int>, prev: Seq<int>, g: Grid, x: int, y: int) -> int {
    avg5(
        seed[g.flat(x, y)],
        neighbor_or_self(prev, g, x, y, x - 1, y),
        neighbor_or_self(prev, g, x, y, x + 1, y),
        neighbor_or_self(prev, g, x, y, x, y - 1),
        neighbor_or_self(prev, g, x, y, x, y + 1),
    )
}

/// One full relaxation pass: every cell recomputed independently from the
/// seed and the previous working slot.
pub open spec fn relax_pass(seed: Seq<int>, prev: Seq<int>, g: Grid) -> Seq<int> {
    Seq::new(prev.len(), |i: int| diffused(seed, prev, g, i % g.w(), i / g.w()))
}

/// `n` relaxation passes from the working slot `cur`, every one reading the
/// same frozen `seed`.
pub open spec fn relax_steps(seed: Seq<int>, cur: Seq<int>, g: Grid, n: nat) -> Seq<int>
    decreases n,
{
    if n == 0 {
        cur
    } else {
        relax_pass(seed, relax_steps(seed, cur, g, (n - 1) as nat), g)
    }
}

/// The density field: grid constants, the two ping-pong working slots, and
/// the per-frame seed snapshot.
pub struct DensityField {
    grid: Grid,
    a: Vec<u32>,
    b: Vec<u32>,
    seed: Vec<u32>,
    front_a: bool,
}

impl DensityField {
    pub closed spec fn grid_spec(&self) -> Grid {
        self.grid
    }

    /// The authoritative working slot.
    pub closed spec fn cur(&self) -> Seq<int> {
        field_model(if self.front_a { self.a@ } else { self.b@ })
    }

    /// The seed slot: the post-injection snapshot of the frame.
    pub closed spec fn seed_m(&self) -> Seq<int> {
        field_model(self.seed@)
    }

    /// Parity of the ping-pong pair: true while the slot that was
    /// authoritative at construction plays the authoritative role.
    pub closed spec fn primary_is_front(&self) -> bool {
        self.front_a
    }

    /// All three slots have exactly one value per cell, and every value is
    /// a representable density in `[0, SCALE]`.
    pub closed spec fn wf(&self) -> bool {
        &&& self.grid.wf()
        &&& self.a@.len() == self.grid.count_spec()
        &&& self.b@.len() == self.grid.count_spec()
        &&& self.seed@.len() == self.grid.count_spec()
        &&& bounded(field_model(self.a@), 0, SCALE as int)
        &&& bounded(field_model(self.b@), 0, SCALE as int)
        &&& bounded(field_model(self.seed@), 0, SCALE as int)
    }

    /// Facts every caller may rely on for a well-formed field.
    pub proof fn lemma_wf(&self)
        requires
            self.wf(),
        ensures
            self.grid_spec().wf(),
            self.cur().len() == self.grid_spec().count_spec(),
            self.seed_m().len() == self.grid_spec().count_spec(),
            bounded(self.cur(), 0, SCALE as int),
            bounded(self.seed_m(), 0, SCALE as int),
    {
    }

    /// A fresh field: every cell of every slot is zero.
    pub fn new(grid: Grid) -> (f: DensityField)
        requires
            grid.wf(),
        ensures
            f.wf(),
            f.grid_spec() == grid,
            f.primary_is_front(),
            f.cur() == zero_field(grid.count_spec()),
            f.seed_m() == zero_field(grid.count_spec()),
    {
        let n = grid.count();
        let a = zero_buffer(n);
        let b = zero_buffer(n);
        let seed = zero_buffer(n);
        let f = DensityField { grid, a, b, seed, front_a: true };
        proof {
            assert(field_model(f.a@) =~= zero_field(grid.count_spec()));
            assert(field_model(f.b@) =~= zero_field(grid.count_spec()));
            assert(field_model(f.seed@) =~= zero_field(grid.count_spec()));
        }
        f
    }

    /// Read one settled cell.
    pub fn density_at(&self, x: usize, y: usize) -> (d: u32)
        requires
            self.wf(),
            self.grid_spec().in_bounds(x as int, y as int),
        ensures
            d == self.cur()[self.grid_spec().flat(x as int, y as int)],
            d <= SCALE,
    {
        let i = self.grid.index_of(x, y);
        let d = if self.front_a {
            self.a[i]
        } else {
            self.b[i]
        };
        proof {
            let gi = self.grid.flat(x as int, y as int);
            assert(self.cur()[gi] == d);
            assert(bounded(self.cur(), 0, SCALE as int));
        }
        d
    }

    /// Uniform-mode force injection: add the contribution to every cell of
    /// the authoritative slot, saturating at `SCALE`.
    pub fn add_uniform(&mut self, amount: u32)
        requires
            old(self).wf(),
            amount <= SCALE,
        ensures
            final(self).wf(),
            final(self).grid_spec() == old(self).grid_spec(),
            final(self).primary_is_front() == old(self).primary_is_front(),
            final(self).seed_m() == old(self).seed_m(),
            final(self).cur() == inject_all(old(self).cur(), amount as int),
    {
        if self.front_a {
            inject_all_into(&mut self.a, amount);
        } else {
            inject_all_into(&mut self.b, amount);
        }
    }

    /// Localized force injection: add the contribution to exactly the cell
    /// `(x, y)` of the authoritative slot, saturating at `SCALE`.  An
    /// out-of-grid coordinate is ignored.
    pub fn add_at(&mut self, x: usize, y: usize, amount: u32)
        requires
            old(self).wf(),
            amount <= SCALE,
        ensures
            final(self).wf(),
            final(self).grid_spec() == old(self).grid_spec(),
            final(self).primary_is_front() == old(self).primary_is_front(),
            final(self).seed_m() == old(self).seed_m(),
            final(self).cur() == inject_cell(
                old(self).cur(),
                old(self).grid_spec(),
                x as int,
                y as int,
                amount as int,
            ),
    {
        if x < self.grid.width() && y < self.grid.height() {
            let i = self.grid.index_of(x, y);
            if self.front_a {
                inject_one_into(&mut self.a, i, amount);
            } else {
                inject_one_into(&mut self.b, i, amount);
            }
        }
    }

    /// Parity of the ping-pong pair, as an executable read.
    pub fn current_is_primary(&self) -> (b: bool)
        ensures
            b == self.primary_is_front(),
    {
        self.front_a
    }

    /// A copy of the authoritative slot, for read-only consumers.
    pub fn snapshot(&self) -> (v: Vec<u32>)
        requires
            self.wf(),
        ensures
            v@.len() == self.grid_spec().count_spec(),
            field_model(v@) == self.cur(),
    {
        let src = if self.front_a {
            &self.a
        } else {
            &self.b
        };
        let n = src.len();
        let mut v: Vec<u32> = Vec::new();
        let mut k: usize = 0;
        while k < n
            invariant
                k <= n,
                src@.len() == n,
                v@.len() == k,
                forall|i: int| 0 <= i < k ==> v@[i] == src@[i],
            decreases n - k,
        {
            let e = src[k];
            v.push(e);
            k = k + 1;
        }
        proof {
            assert(v@ =~= src@);
        }
        v
    }

    /// Refresh the seed slot from the authoritative slot: the once-per-frame
    /// snapshot that fixes the source term for the frame's passes.
    fn capture_seed(&mut self)
        requires
            old(self).wf(),
        ensures
            final(self).wf(),
            final(self).grid_spec() == old(self).grid_spec(),
            final(self).primary_is_front() == old(self).primary_is_front(),
            final(self).cur() == old(self).cur(),
            final(self).seed_m() == old(self).cur(),
    {
        if self.front_a {
            copy_into(&self.a, &mut self.seed);
        } else {
            copy_into(&self.b, &mut self.seed);
        }
    }

    /// One relaxation pass: compute every cell into the back slot from the
    /// seed and the authoritative slot, then swap the two slots' roles.
    fn pass_once(&mut self)
        requires
            old(self).wf(),
        ensures
            final(self).wf(),
            final(self).grid_spec() == old(self).grid_spec(),
            final(self).seed_m() == old(self).seed_m(),
            final(self).primary_is_front() == !old(self).primary_is_front(),
            final(self).cur() == relax_pass(
                old(self).seed_m(),
                old(self).cur(),
                old(self).grid_spec(),
            ),
    {
        if self.front_a {
            diffuse_into(&self.seed, &self.a, &mut self.b, self.grid);
        } else {
            diffuse_into(&self.seed, &self.b, &mut self.a, self.grid);
        }
        self.front_a = !self.front_a;
    }

    /// Run a frame's relaxation: snapshot the authoritative slot into the
    /// seed, then perform `passes` ping-pong passes against that seed.  The
    /// parity of the authoritative slot afterwards is fully determined by
    /// the parity of `passes`: an even count leaves the original slot
    /// assignment in the authoritative role.
    pub fn run_relaxation(&mut self, passes: usize)
        requires
            old(self).wf(),
        ensures
            final(self).wf(),
            final(self).grid_spec() == old(self).grid_spec(),
            final(self).seed_m() == old(self).cur(),
            final(self).cur() == relax_steps(
                old(self).cur(),
                old(self).cur(),
                old(self).grid_spec(),
                passes as nat,
            ),
            final(self).primary_is_front() == (old(self).primary_is_front() == (
            passes % 2 == 0)),
    {
        self.capture_seed();
        let ghost g = self.grid_spec();
        let ghost s0 = self.seed_m();
        let ghost c0 = self.cur();
        let ghost f0 = self.primary_is_front();
        let mut k: usize = 0;
        while k < passes
            invariant
                k <= passes,
                self.wf(),
                self.grid_spec() == g,
                self.seed_m() == s0,
                self.cur() == relax_steps(s0, c0, g, k as nat),
                self.primary_is_front() == (f0 == (k % 2 == 0)),
            decreases passes - k,
        {
            self.pass_once();
            k = k + 1;
            proof {
                assert(relax_steps(s0, c0, g, k as nat) == relax_pass(
                    s0,
                    relax_steps(s0, c0, g, (k - 1) as nat),
                    g,
                ));
            }
        }
    }
}

/// Copy every cell of `src` into `dst` (same length).
fn copy_into(src: &Vec<u32>, dst: &mut Vec<u32>)
    requires
        old(dst)@.len() == src@.len(),
    ensures
        final(dst)@ == src@,
{
    let n = src.len();
    let mut k: usize = 0;
    while k < n
        invariant
            k <= n,
            src@.len() == n,
            dst@.len() == n,
            forall|i: int| 0 <= i < k ==> dst@[i] == src@[i],
        decreases n - k,
    {
        let e = src[k];
        dst.set(k, e);
        k = k + 1;
    }
    proof {
        assert(dst@ =~= src@);
    }
}

/// Read the clamped neighbor `(nx, ny)` of the in-bounds cell `(x, y)`.
fn read_neighbor(prev: &Vec<u32>, grid: Grid, x: usize, y: usize, nx: i64, ny: i64) -> (v: u32)
    requires
        grid.wf(),
        prev@.len() == grid.count_spec(),
        grid.in_bounds(x as int, y as int),
    ensures
        v as int == neighbor_or_self(
            field_model(prev@),
            grid,
            x as int,
            y as int,
            nx as int,
            ny as int,
        ),
{
    let w = grid.width();
    let h = grid.height();
    if 0 <= nx && nx < w as i64 && 0 <= ny && ny < h as i64 {
        let ni = grid.index_of(nx as usize, ny as usize);
        let v = prev[ni];
        proof {
            assert(field_model(prev@)[ni as int] == v as int);
        }
        v
    } else {
        let i = grid.index_of(x, y);
        let v = prev[i];
        proof {
            assert(field_model(prev@)[i as int] == v as int);
        }
        v
    }
}

/// One relaxation pass: write into `next`, for every cell, the equal-weight
/// average of the cell's value in `seed` and its four clamped neighbors'
/// values in `prev`.
fn diffuse_into(seed: &Vec<u32>, prev: &Vec<u32>, next: &mut Vec<u32>, grid: Grid)
    requires
        grid.wf(),
        seed@.len() == grid.count_spec(),
        prev@.len() == grid.count_spec(),
        old(next)@.len() == grid.count_spec(),
        bounded(field_model(seed@), 0, SCALE as int),
        bounded(field_model(prev@), 0, SCALE as int),
    ensures
        final(next)@.len() == grid.count_spec(),
        field_model(final(next)@) == relax_pass(field_model(seed@), field_model(prev@), grid),
        bounded(field_model(final(next)@), 0, SCALE as int),
{
    let w = grid.width();
    let n = grid.count();
    let ghost sm = field_model(seed@);
    let ghost pm = field_model(prev@);
    let mut i: usize = 0;
    while i < n
        invariant
            i <= n,
            n == grid.count_spec(),
            w == grid.w(),
            grid.wf(),
            seed@.len() == n,
            prev@.len() == n,
            next@.len() == n,
            sm == field_model(seed@),
            pm == field_model(prev@),
            bounded(sm, 0, SCALE as int),
            bounded(pm, 0, SCALE as int),
            forall|j: int|
                0 <= j < i ==> next@[j] as int == diffused(sm, pm, grid, j % grid.w(), j / grid.w()),
            forall|j: int| 0 <= j < i ==> next@[j] <= SCALE,
        decreases n - i,
    {
        let x = i % w;
        let y = i / w;
        proof {
            lemma_flat_decompose(grid.w(), grid.h(), i as int);
        }
        let c = seed[i];
        let l = read_neighbor(prev, grid, x, y, x as i64 - 1, y as i64);
        let r = read_neighbor(prev, grid, x, y, x as i64 + 1, y as i64);
        let u = read_neighbor(prev, grid, x, y, x as i64, y as i64 - 1);
        let d = read_neighbor(prev, grid, x, y, x as i64, y as i64 + 1);
        proof {
            let xi = x as int;
            let yi = y as int;
            assert(field_model(seed@)[i as int] == c as int);
            assert(0 <= sm[i as int] <= SCALE as int);
            lemma_neighbor_in_bounds(pm, grid, xi, yi, xi - 1, yi, 0, SCALE as int);
            lemma_neighbor_in_bounds(pm, grid, xi, yi, xi + 1, yi, 0, SCALE as int);
            lemma_neighbor_in_bounds(pm, grid, xi, yi, xi, yi - 1, 0, SCALE as int);
            lemma_neighbor_in_bounds(pm, grid, xi, yi, xi, yi + 1, 0, SCALE as int);
        }
        let sum = c + l + r + u + d;
        let v = sum / 5;
        proof {
            let xi = x as int;
            let yi = y as int;
            assert(v as int == avg5(sm[grid.flat(xi, yi)], l as int, r as int, u as int, d as int));
            assert(v as int == diffused(sm, pm, grid, xi, yi));
            lemma_avg5_in_bounds(
                sm[grid.flat(xi, yi)],
                l as int,
                r as int,
                u as int,
                d as int,
                0,
                SCALE as int,
            );
        }
        next.set(i, v);
        i = i + 1;
    }
    proof {
        assert forall|j: int| 0 <= j < n implies field_model(next@)[j] == relax_pass(sm, pm, grid)[j]
            by {
            assert(next@[j] as int == diffused(sm, pm, grid, j % grid.w(), j / grid.w()));
        }
        assert(field_model(next@) =~= relax_pass(sm, pm, grid));
        assert forall|j: int| 0 <= j < n implies 0 <= #[trigger] field_model(next@)[j]
            <= SCALE as int by {
            assert(next@[j] <= SCALE);
        }
    }
}

/// A buffer of `n` zeroed cells.
fn zero_buffer(n: usize) -> (v: Vec<u32>)
    ensures
        v@.len() == n,
        forall|i: int| 0 <= i < n ==> v@[i] == 0u32,
{
    let mut v: Vec<u32> = Vec::new();
    let mut k: usize = 0;
    while k < n
        invariant
            k <= n,
            v@.len() == k,
            forall|i: int| 0 <= i < k ==> v@[i] == 0u32,
        decreases n - k,
    {
        v.push(0);
        k = k + 1;
    }
    v
}

/// Add `amount` to every cell of `buf`, saturating at `SCALE`.
fn inject_all_into(buf: &mut Vec<u32>, amount: u32)
    requires
        bounded(field_model(old(buf)@), 0, SCALE as int),
        amount <= SCALE,
    ensures
        final(buf)@.len() == old(buf)@.len(),
        field_model(final(buf)@) == inject_all(field_model(old(buf)@), amount as int),
        bounded(field_model(final(buf)@), 0, SCALE as int),
{
    let n = buf.len();
    let ghost start = buf@;
    let mut k: usize = 0;
    while k < n
        invariant
            k <= n,
            n == start.len(),
            buf@.len() == n,
            amount <= SCALE,
            bounded(field_model(start), 0, SCALE as int),
            forall|i: int| k <= i < n ==> buf@[i] == start[i],
            forall|i: int|
                0 <= i < k ==> buf@[i] as int == inject_value(start[i] as int, amount as int),
        decreases n - k,
    {
        let v = buf[k];
        proof {
            assert(buf@[k as int] == start[k as int]);
            assert(field_model(start)[k as int] == start[k as int] as int);
            assert(0 <= v as int <= SCALE as int);
        }
        let sum = v + amount;
        let nv = if sum > SCALE {
            SCALE
        } else {
            sum
        };
        buf.set(k, nv);
        proof {
            assert(nv as int == inject_value(start[k as int] as int, amount as int));
        }
        k = k + 1;
    }
    proof {
        assert forall|i: int| 0 <= i < n implies field_model(buf@)[i] == inject_all(
            field_model(start),
            amount as int,
        )[i] by {
            assert(buf@[i] as int == inject_value(start[i] as int, amount as int));
            assert(field_model(start)[i] == start[i] as int);
        }
        assert(field_model(buf@) =~= inject_all(field_model(start), amount as int));
        assert forall|i: int| 0 <= i < n implies 0 <= #[trigger] field_model(buf@)[i]
            <= SCALE as int by {
            assert(buf@[i] as int == inject_value(start[i] as int, amount as int));
        }
    }
}

/// Add `amount` to the cell at flat index `i`, saturating at `SCALE`.
fn inject_one_into(buf: &mut Vec<u32>, i: usize, amount: u32)
    requires
        bounded(field_model(old(buf)@), 0, SCALE as int),
        amount <= SCALE,
        i < old(buf)@.len(),
    ensures
        final(buf)@.len() == old(buf)@.len(),
        field_model(final(buf)@) == field_model(old(buf)@).update(
            i as int,
            inject_value(field_model(old(buf)@)[i as int], amount as int),
        ),
        bounded(field_model(final(buf)@), 0, SCALE as int),
{
    let ghost start = field_model(buf@);
    let v = buf[i];
    proof {
        assert(buf@ == old(buf)@);
        assert(field_model(buf@)[i as int] == v as int);
        assert(0 <= field_model(old(buf)@)[i as int] <= SCALE as int);
        assert(0 <= v as int <= SCALE as int);
    }
    let sum = v + amount;
    let nv = if sum > SCALE {
        SCALE
    } else {
        sum
    };
    buf.set(i, nv);
    proof {
        assert(nv as int == inject_value(start[i as int], amount as int));
        assert(field_model(buf@) =~= start.update(
            i as int,
            inject_value(start[i as int], amount as int),
        ));
        assert forall|j: int| 0 <= j < buf@.len() implies 0 <= #[trigger] field_model(buf@)[j]
            <= SCALE as int by {
            if j != i as int {
                assert(field_model(buf@)[j] == start[j]);
            }
        }
    }
}

} // verus!
