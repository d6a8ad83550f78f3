//! The velocity field and its relaxation.
//!
//! Velocities are 2-D vectors of fixed-point components, one per cell.  The
//! field is held in two equal-size ping-pong slots; unlike the density
//! solver there is no seed slot, so each relaxation pass averages a cell
//! with its neighbors entirely out of the previous working slot.  Force
//! injection adds a uniform contribution to every cell, with each component
//! clamped to the representable range `[-SCALE, SCALE]`.

use vstd::prelude::*;
use vstd::pervasive::VecAdditionalExecFns;
use vstd::arithmetic::div_mod::lemma_hoist_over_denominator;
use crate::field::{avg5, bounded, lemma_avg5_in_bounds, lemma_neighbor_in_bounds, neighbor_or_self};
use crate::fixed::{clamped, SCALE_I};
use crate::grid::{lemma_flat_decompose, Grid};

verus! {

/// A 2-D velocity, fixed-point: `SCALE` stands for 1.0 along an axis.
#[derive(Clone, Copy, Debug, PartialEq, Eq, Structural)]
pub struct Vel2 {
    pub x: i32,
    pub y: i32,
}

impl Vel2 {
    pub open spec fn axes_bounded(&self) -> bool {
        -(SCALE_I as int) <= self.x <= SCALE_I as int && -(SCALE_I as int) <= self.y
            <= SCALE_I as int
    }

    pub fn zero() -> (v: Vel2)
        ensures
            v.x == 0,
            v.y == 0,
    {
        Vel2 { x: 0, y: 0 }
    }
}

/// The x components of a velocity buffer, as unbounded integers.
pub open spec fn vel_x_model(s: Seq<Vel2>) -> Seq<int> {
    Seq::new(s.len(), |i: int| s[i].x as int)
}

/// The y components of a velocity buffer, as unbounded integers.
pub open spec fn vel_y_model(s: Seq<Vel2>) -> Seq<int> {
    Seq::new(s.len(), |i: int| s[i].y as int)
}

/// Uniform-mode injection along one axis: every cell receives the
/// contribution, clamped to the representable range.
pub open spec fn vel_inject_all(s: Seq<int>, dv: int) -> Seq<int> {
    Seq::new(s.len(), |i: int| clamped(s[i] + dv, -(SCALE_I as int), SCALE_I as int))
}

/// One cell of a velocity relaxation pass: the equal-weight average of the
/// cell's own previous value and its four clamped neighbors' previous
/// values, all read from the same frozen slot.
pub open spec fn vel_diffused(prev: Seq<int>, g: Grid, x: int, y: int) -> int {
    avg5(
        prev[g.flat(x, y)],
        neighbor_or_self(prev, g, x, y, x - 1, y),
        neighbor_or_self(prev, g, x, y, x + 1, y),
        neighbor_or_self(prev, g, x, y, x, y - 1),
        neighbor_or_self(prev, g, x, y, x, y + 1),
    )
}

/// One full velocity relaxation pass along one axis.
pub open spec fn vel_pass(prev: Seq<int>, g: Grid) -> Seq<int> {
    Seq::new(prev.len(), |i: int| vel_diffused(prev, g, i % g.w(), i / g.w()))
}

/// `n` velocity relaxation passes along one axis.
pub open spec fn vel_steps(cur: Seq<int>, g: Grid, n: nat) -> Seq<int>
    decreases n,
{
    if n == 0 {
        cur
    } else {
        vel_pass(vel_steps(cur, g, (n - 1) as nat), g)
    }
}

/// The velocity field: grid constants and the two ping-pong slots.
pub struct VelocityField {
    grid: Grid,
    a: Vec<Vel2>,
    b: Vec<Vel2>,
    front_a: bool,
}

impl VelocityField {
    pub closed spec fn grid_spec(&self) -> Grid {
        self.grid
    }

    /// The x components of the authoritative slot.
    pub closed spec fn cur_x(&self) -> Seq<int> {
        vel_x_model(if self.front_a { self.a@ } else { self.b@ })
    }

    /// The y components of the authoritative slot.
    pub closed spec fn cur_y(&self) -> Seq<int> {
        vel_y_model(if self.front_a { self.a@ } else { self.b@ })
    }

    /// Parity of the ping-pong pair: true while the slot that was
    /// authoritative at construction plays the authoritative role.
    pub closed spec fn primary_is_front(&self) -> bool {
        self.front_a
    }

    /// Both slots have exactly one vector per cell, every component a
    /// representable velocity in `[-SCALE, SCALE]`.
    pub closed spec fn wf(&self) -> bool {
        &&& self.grid.wf()
        &&& self.a@.len() == self.grid.count_spec()
        &&& self.b@.len() == self.grid.count_spec()
        &&& bounded(vel_x_model(self.a@), -(SCALE_I as int), SCALE_I as int)
        &&& bounded(vel_y_model(self.a@), -(SCALE_I as int), SCALE_I as int)
        &&& bounded(vel_x_model(self.b@), -(SCALE_I as int), SCALE_I as int)
        &&& bounded(vel_y_model(self.b@), -(SCALE_I as int), SCALE_I as int)
    }

    /// Facts every caller may rely on for a well-formed field.
    pub proof fn lemma_wf(&self)
        requires
            self.wf(),
        ensures
            self.grid_spec().wf(),
            self.cur_x().len() == self.grid_spec().count_spec(),
            self.cur_y().len() == self.grid_spec().count_spec(),
            bounded(self.cur_x(), -(SCALE_I as int), SCALE_I as int),
            bounded(self.cur_y(), -(SCALE_I as int), SCALE_I as int),
    {
    }

    /// A fresh field: every component of every cell is zero.
    pub fn new(grid: Grid) -> (f: VelocityField)
        requires
            grid.wf(),
        ensures
            f.wf(),
            f.grid_spec() == grid,
            f.primary_is_front(),
            f.cur_x().len() == grid.count_spec(),
            f.cur_y().len() == grid.count_spec(),
            forall|i: int| 0 <= i < grid.count_spec() ==> f.cur_x()[i] == 0,
            forall|i: int| 0 <= i < grid.count_spec() ==> f.cur_y()[i] == 0,
    {
        let n = grid.count();
        let a = zero_vel_buffer(n);
        let b = zero_vel_buffer(n);
        VelocityField { grid, a, b, front_a: true }
    }

    /// Read one settled cell.
    pub fn velocity_at(&self, x: usize, y: usize) -> (v: Vel2)
        requires
            self.wf(),
            self.grid_spec().in_bounds(x as int, y as int),
        ensures
            v.x as int == self.cur_x()[self.grid_spec().flat(x as int, y as int)],
            v.y as int == self.cur_y()[self.grid_spec().flat(x as int, y as int)],
            v.axes_bounded(),
    {
        let i = self.grid.index_of(x, y);
        let v = if self.front_a {
            self.a[i]
        } else {
            self.b[i]
        };
        proof {
            let gi = self.grid.flat(x as int, y as int);
            assert(self.cur_x()[gi] == v.x as int);
            assert(self.cur_y()[gi] == v.y as int);
        }
        v
    }

    /// Parity of the ping-pong pair, as an executable read.
    pub fn current_is_primary(&self) -> (b: bool)
        ensures
            b == self.primary_is_front(),
    {
        self.front_a
    }

    /// A copy of the authoritative slot, for read-only consumers: one
    /// vector per cell, in flat-index order.
    pub fn snapshot(&self) -> (v: Vec<Vel2>)
        requires
            self.wf(),
        ensures
            v@.len() == self.grid_spec().count_spec(),
            vel_x_model(v@) == self.cur_x(),
            vel_y_model(v@) == self.cur_y(),
    {
        let src = if self.front_a {
            &self.a
        } else {
            &self.b
        };
        let n = src.len();
        let mut v: Vec<Vel2> = Vec::new();
        let mut k: usize = 0;
        while k < n
            invariant
                k <= n,
                src@.len() == n,
                v@.len() == k,
                forall|i: int| 0 <= i < k ==> v@[i] == src@[i],
            decreases n - k,
        {
            let e = src[k];
            v.push(e);
            k = k + 1;
        }
        proof {
            assert(v@ =~= src@);
        }
        v
    }

    /// Uniform-mode force injection: add the contribution to every cell of
    /// the authoritative slot, clamping each component to `[-SCALE, SCALE]`.
    pub fn add_uniform(&mut self, dv: Vel2)
        requires
            old(self).wf(),
            dv.axes_bounded(),
        ensures
            final(self).wf(),
            final(self).grid_spec() == old(self).grid_spec(),
            final(self).primary_is_front() == old(self).primary_is_front(),
            final(self).cur_x() == vel_inject_all(old(self).cur_x(), dv.x as int),
            final(self).cur_y() == vel_inject_all(old(self).cur_y(), dv.y as int),
    {
        if self.front_a {
            vel_inject_into(&mut self.a, dv);
        } else {
            vel_inject_into(&mut self.b, dv);
        }
    }

    /// One relaxation pass: compute every cell into the back slot from the
    /// authoritative slot, then swap the two slots' roles.
    fn pass_once(&mut self)
        requires
            old(self).wf(),
        ensures
            final(self).wf(),
            final(self).grid_spec() == old(self).grid_spec(),
            final(self).primary_is_front() == !old(self).primary_is_front(),
            final(self).cur_x() == vel_pass(old(self).cur_x(), old(self).grid_spec()),
            final(self).cur_y() == vel_pass(old(self).cur_y(), old(self).grid_spec()),
    {
        if self.front_a {
            vel_diffuse_into(&self.a, &mut self.b, self.grid);
        } else {
            vel_diffuse_into(&self.b, &mut self.a, self.grid);
        }
        self.front_a = !self.front_a;
    }

    /// Run a frame's velocity relaxation: `passes` ping-pong passes.  As
    /// with the density solver, the parity of the authoritative slot
    /// afterwards is fully determined by the parity of `passes`.
    pub fn run_relaxation(&mut self, passes: usize)
        requires
            old(self).wf(),
        ensures
            final(self).wf(),
            final(self).grid_spec() == old(self).grid_spec(),
            final(self).cur_x() == vel_steps(
                old(self).cur_x(),
                old(self).grid_spec(),
                passes as nat,
            ),
            final(self).cur_y() == vel_steps(
                old(self).cur_y(),
                old(self).grid_spec(),
                passes as nat,
            ),
            final(self).primary_is_front() == (old(self).primary_is_front() == (
            passes % 2 == 0)),
    {
        let ghost g = self.grid_spec();
        let ghost x0 = self.cur_x();
        let ghost y0 = self.cur_y();
        let ghost f0 = self.primary_is_front();
        let mut k: usize = 0;
        while k < passes
            invariant
                k <= passes,
                self.wf(),
                self.grid_spec() == g,
                self.cur_x() == vel_steps(x0, g, k as nat),
                self.cur_y() == vel_steps(y0, g, k as nat),
                self.primary_is_front() == (f0 == (k % 2 == 0)),
            decreases passes - k,
        {
            self.pass_once();
            k = k + 1;
            proof {
                assert(vel_steps(x0, g, k as nat) == vel_pass(vel_steps(x0, g, (k - 1) as nat), g));
                assert(vel_steps(y0, g, k as nat) == vel_pass(vel_steps(y0, g, (k - 1) as nat), g));
            }
        }
    }
}

/// A buffer of `n` zero vectors.
fn zero_vel_buffer(n: usize) -> (v: Vec<Vel2>)
    ensures
        v@.len() == n,
        forall|i: int| 0 <= i < n ==> v@[i].x == 0 && v@[i].y == 0,
{
    let mut v: Vec<Vel2> = Vec::new();
    let mut k: usize = 0;
    while k < n
        invariant
            k <= n,
            v@.len() == k,
            forall|i: int| 0 <= i < k ==> v@[i].x == 0 && v@[i].y == 0,
        decreases n - k,
    {
        v.push(Vel2 { x: 0, y: 0 });
        k = k + 1;
    }
    v
}

/// One component's clamped addition.
fn clamp_add_axis(v: i32, dv: i32) -> (r: i32)
    requires
        -SCALE_I <= v <= SCALE_I,
        -SCALE_I <= dv <= SCALE_I,
    ensures
        r as int == clamped(v as int + dv as int, -(SCALE_I as int), SCALE_I as int),
        -SCALE_I <= r <= SCALE_I,
{
    let s = v + dv;
    if s < -SCALE_I {
        -SCALE_I
    } else if s > SCALE_I {
        SCALE_I
    } else {
        s
    }
}

/// Add `dv` to every cell of `buf`, clamping each component.
fn vel_inject_into(buf: &mut Vec<Vel2>, dv: Vel2)
    requires
        bounded(vel_x_model(old(buf)@), -(SCALE_I as int), SCALE_I as int),
        bounded(vel_y_model(old(buf)@), -(SCALE_I as int), SCALE_I as int),
        dv.axes_bounded(),
    ensures
        final(buf)@.len() == old(buf)@.len(),
        vel_x_model(final(buf)@) == vel_inject_all(vel_x_model(old(buf)@), dv.x as int),
        vel_y_model(final(buf)@) == vel_inject_all(vel_y_model(old(buf)@), dv.y as int),
        bounded(vel_x_model(final(buf)@), -(SCALE_I as int), SCALE_I as int),
        bounded(vel_y_model(final(buf)@), -(SCALE_I as int), SCALE_I as int),
{
    let n = buf.len();
    let ghost start = buf@;
    let mut k: usize = 0;
    while k < n
        invariant
            k <= n,
            n == start.len(),
            buf@.len() == n,
            dv.axes_bounded(),
            bounded(vel_x_model(start), -(SCALE_I as int), SCALE_I as int),
            bounded(vel_y_model(start), -(SCALE_I as int), SCALE_I as int),
            forall|i: int| k <= i < n ==> buf@[i] == start[i],
            forall|i: int|
                0 <= i < k ==> buf@[i].x as int == clamped(
                    start[i].x as int + dv.x as int,
                    -(SCALE_I as int),
                    SCALE_I as int,
                ),
            forall|i: int|
                0 <= i < k ==> buf@[i].y as int == clamped(
                    start[i].y as int + dv.y as int,
                    -(SCALE_I as int),
                    SCALE_I as int,
                ),
        decreases n - k,
    {
        let v = buf[k];
        proof {
            assert(buf@[k as int] == start[k as int]);
            assert(vel_x_model(start)[k as int] == start[k as int].x as int);
            assert(vel_y_model(start)[k as int] == start[k as int].y as int);
        }
        let nx = clamp_add_axis(v.x, dv.x);
        let ny = clamp_add_axis(v.y, dv.y);
        buf.set(k, Vel2 { x: nx, y: ny });
        k = k + 1;
    }
    proof {
        assert forall|i: int| 0 <= i < n implies vel_x_model(buf@)[i] == vel_inject_all(
            vel_x_model(start),
            dv.x as int,
        )[i] by {
            assert(vel_x_model(start)[i] == start[i].x as int);
        }
        assert(vel_x_model(buf@) =~= vel_inject_all(vel_x_model(start), dv.x as int));
        assert forall|i: int| 0 <= i < n implies vel_y_model(buf@)[i] == vel_inject_all(
            vel_y_model(start),
            dv.y as int,
        )[i] by {
            assert(vel_y_model(start)[i] == start[i].y as int);
        }
        assert(vel_y_model(buf@) =~= vel_inject_all(vel_y_model(start), dv.y as int));
        assert forall|i: int| 0 <= i < n implies -(SCALE_I as int) <= #[trigger] vel_x_model(
            buf@,
        )[i] <= SCALE_I as int by {}
        assert forall|i: int| 0 <= i < n implies -(SCALE_I as int) <= #[trigger] vel_y_model(
            buf@,
        )[i] <= SCALE_I as int by {}
    }
}

/// The equal-weight average of five fixed-point components, computed on
/// values offset into the nonnegative range so that the floor division
/// rounds uniformly for every sign.
fn avg5_fixed(c: i32, l: i32, r: i32, u: i32, d: i32) -> (m: i32)
    requires
        -SCALE_I <= c <= SCALE_I,
        -SCALE_I <= l <= SCALE_I,
        -SCALE_I <= r <= SCALE_I,
        -SCALE_I <= u <= SCALE_I,
        -SCALE_I <= d <= SCALE_I,
    ensures
        m as int == avg5(c as int, l as int, r as int, u as int, d as int),
        -SCALE_I <= m <= SCALE_I,
{
    let cs = (c + SCALE_I) as u32;
    let ls = (l + SCALE_I) as u32;
    let rs = (r + SCALE_I) as u32;
    let us = (u + SCALE_I) as u32;
    let ds = (d + SCALE_I) as u32;
    let sum = cs + ls + rs + us + ds;
    let q = sum / 5;
    let m = (q as i32) - SCALE_I;
    proof {
        let t = c as int + l as int + r as int + u as int + d as int;
        assert(sum as int == t + (SCALE_I as int) * 5);
        lemma_hoist_over_denominator(t, SCALE_I as int, 5nat);
        assert(q as int == t / 5 + SCALE_I as int);
        lemma_avg5_in_bounds(
            c as int,
            l as int,
            r as int,
            u as int,
            d as int,
            -(SCALE_I as int),
            SCALE_I as int,
        );
    }
    m
}

/// Read the clamped neighbor `(nx, ny)` of the in-bounds cell `(x, y)`.
fn vel_read_neighbor(prev: &Vec<Vel2>, grid: Grid, x: usize, y: usize, nx: i64, ny: i64) -> (v:
    Vel2)
    requires
        grid.wf(),
        prev@.len() == grid.count_spec(),
        grid.in_bounds(x as int, y as int),
    ensures
        v.x as int == neighbor_or_self(
            vel_x_model(prev@),
            grid,
            x as int,
            y as int,
            nx as int,
            ny as int,
        ),
        v.y as int == neighbor_or_self(
            vel_y_model(prev@),
            grid,
            x as int,
            y as int,
            nx as int,
            ny as int,
        ),
{
    let w = grid.width();
    let h = grid.height();
    if 0 <= nx && nx < w as i64 && 0 <= ny && ny < h as i64 {
        let ni = grid.index_of(nx as usize, ny as usize);
        let v = prev[ni];
        proof {
            assert(vel_x_model(prev@)[ni as int] == v.x as int);
            assert(vel_y_model(prev@)[ni as int] == v.y as int);
        }
        v
    } else {
        let i = grid.index_of(x, y);
        let v = prev[i];
        proof {
            assert(vel_x_model(prev@)[i as int] == v.x as int);
            assert(vel_y_model(prev@)[i as int] == v.y as int);
        }
        v
    }
}

/// One velocity relaxation pass: write into `next`, for every cell, the
/// equal-weight average of the cell and its four clamped neighbors in
/// `prev`, componentwise.
fn vel_diffuse_into(prev: &Vec<Vel2>, next: &mut Vec<Vel2>, grid: Grid)
    requires
        grid.wf(),
        prev@.len() == grid.count_spec(),
        old(next)@.len() == grid.count_spec(),
        bounded(vel_x_model(prev@), -(SCALE_I as int), SCALE_I as int),
        bounded(vel_y_model(prev@), -(SCALE_I as int), SCALE_I as int),
    ensures
        final(next)@.len() == grid.count_spec(),
        vel_x_model(final(next)@) == vel_pass(vel_x_model(prev@), grid),
        vel_y_model(final(next)@) == vel_pass(vel_y_model(prev@), grid),
        bounded(vel_x_model(final(next)@), -(SCALE_I as int), SCALE_I as int),
        bounded(vel_y_model(final(next)@), -(SCALE_I as int), SCALE_I as int),
{
    let w = grid.width();
    let n = grid.count();
    let ghost pxm = vel_x_model(prev@);
    let ghost pym = vel_y_model(prev@);
    let mut i: usize = 0;
    while i < n
        invariant
            i <= n,
            n == grid.count_spec(),
            w == grid.w(),
            grid.wf(),
            prev@.len() == n,
            next@.len() == n,
            pxm == vel_x_model(prev@),
            pym == vel_y_model(prev@),
            bounded(pxm, -(SCALE_I as int), SCALE_I as int),
            bounded(pym, -(SCALE_I as int), SCALE_I as int),
            forall|j: int|
                0 <= j < i ==> next@[j].x as int == vel_diffused(
                    pxm,
                    grid,
                    j % grid.w(),
                    j / grid.w(),
                ),
            forall|j: int|
                0 <= j < i ==> next@[j].y as int == vel_diffused(
                    pym,
                    grid,
                    j % grid.w(),
                    j / grid.w(),
                ),
            forall|j: int| 0 <= j < i ==> (-SCALE_I <= #[trigger] next@[j].x <= SCALE_I),
            forall|j: int| 0 <= j < i ==> (-SCALE_I <= #[trigger] next@[j].y <= SCALE_I),
        decreases n - i,
    {
        let x = i % w;
        let y = i / w;
        proof {
            lemma_flat_decompose(grid.w(), grid.h(), i as int);
        }
        let c = prev[i];
        let l = vel_read_neighbor(prev, grid, x, y, x as i64 - 1, y as i64);
        let r = vel_read_neighbor(prev, grid, x, y, x as i64 + 1, y as i64);
        let u = vel_read_neighbor(prev, grid, x, y, x as i64, y as i64 - 1);
        let d = vel_read_neighbor(prev, grid, x, y, x as i64, y as i64 + 1);
        proof {
            let xi = x as int;
            let yi = y as int;
            assert(vel_x_model(prev@)[i as int] == c.x as int);
            assert(vel_y_model(prev@)[i as int] == c.y as int);
            assert(-(SCALE_I as int) <= pxm[i as int] <= SCALE_I as int);
            assert(-(SCALE_I as int) <= pym[i as int] <= SCALE_I as int);
            lemma_neighbor_in_bounds(pxm, grid, xi, yi, xi - 1, yi, -(SCALE_I as int), SCALE_I as int);
            lemma_neighbor_in_bounds(pxm, grid, xi, yi, xi + 1, yi, -(SCALE_I as int), SCALE_I as int);
            lemma_neighbor_in_bounds(pxm, grid, xi, yi, xi, yi - 1, -(SCALE_I as int), SCALE_I as int);
            lemma_neighbor_in_bounds(pxm, grid, xi, yi, xi, yi + 1, -(SCALE_I as int), SCALE_I as int);
            lemma_neighbor_in_bounds(pym, grid, xi, yi, xi - 1, yi, -(SCALE_I as int), SCALE_I as int);
            lemma_neighbor_in_bounds(pym, grid, xi, yi, xi + 1, yi, -(SCALE_I as int), SCALE_I as int);
            lemma_neighbor_in_bounds(pym, grid, xi, yi, xi, yi - 1, -(SCALE_I as int), SCALE_I as int);
            lemma_neighbor_in_bounds(pym, grid, xi, yi, xi, yi + 1, -(SCALE_I as int), SCALE_I as int);
        }
        let mx = avg5_fixed(c.x, l.x, r.x, u.x, d.x);
        let my = avg5_fixed(c.y, l.y, r.y, u.y, d.y);
        proof {
            let xi = x as int;
            let yi = y as int;
            assert(mx as int == vel_diffused(pxm, grid, xi, yi));
            assert(my as int == vel_diffused(pym, grid, xi, yi));
        }
        next.set(i, Vel2 { x: mx, y: my });
        i = i + 1;
    }
    proof {
        assert forall|j: int| 0 <= j < n implies vel_x_model(next@)[j] == vel_pass(pxm, grid)[j] by {
            assert(next@[j].x as int == vel_diffused(pxm, grid, j % grid.w(), j / grid.w()));
        }
        assert(vel_x_model(next@) =~= vel_pass(pxm, grid));
        assert forall|j: int| 0 <= j < n implies vel_y_model(next@)[j] == vel_pass(pym, grid)[j] by {
            assert(next@[j].y as int == vel_diffused(pym, grid, j % grid.w(), j / grid.w()));
        }
        assert(vel_y_model(next@) =~= vel_pass(pym, grid));
        assert forall|j: int| 0 <= j < n implies -(SCALE_I as int) <= #[trigger] vel_x_model(
            next@,
        )[j] <= SCALE_I as int by {
            assert(-SCALE_I <= next@[j].x <= SCALE_I);
        }
        assert forall|j: int| 0 <= j < n implies -(SCALE_I as int) <= #[trigger] vel_y_model(
            next@,
        )[j] <= SCALE_I as int by {
            assert(-SCALE_I <= next@[j].y <= SCALE_I);
        }
    }
}

} // verus!
