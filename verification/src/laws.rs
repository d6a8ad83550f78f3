//! Proved properties of the solver.
//!
//! Each public proof function here states, over the same spec functions
//! that the executable contracts use, a property that holds of every field
//! and every frame: relaxation damps and never amplifies, a uniform field
//! is a fixed point of the stencil, zero-force injection is a no-op, a
//! point source never reaches past its axis neighbors in one pass, and a
//! frame is a pure function of its inputs.

use vstd::prelude::*;
use crate::density::{inject_value, relax_pass, relax_steps};
use crate::field::{
    bounded, field_sum, is_uniform, lemma_avg5_in_bounds, lemma_avg5_uniform,
    lemma_neighbor_in_bounds, lemma_sum_bounded, neighbor_or_self,
};
use crate::fixed::{SCALE, SCALE_I};
use crate::grid::{lemma_flat_decompose, lemma_flat_in_range, lemma_flat_inverse, Grid};
use crate::sim::{frame_density, frame_velocity_axis, injected_density, FrameParams};
use crate::velocity::{vel_inject_all, vel_pass, vel_steps};

verus! {

/// One density relaxation pass maps fields bounded by `[lo, hi]` to a
/// field bounded by `[lo, hi]`.
pub proof fn lemma_pass_preserves_bounds(seed: Seq<int>, prev: Seq<int>, g: Grid, lo: int, hi: int)
    requires
        g.wf(),
        seed.len() == g.count_spec(),
        prev.len() == g.count_spec(),
        bounded(seed, lo, hi),
        bounded(prev, lo, hi),
    ensures
        relax_pass(seed, prev, g).len() == g.count_spec(),
        bounded(relax_pass(seed, prev, g), lo, hi),
{
    let r = relax_pass(seed, prev, g);
    assert forall|i: int| 0 <= i < r.len() implies lo <= #[trigger] r[i] <= hi by {
        lemma_flat_decompose(g.w(), g.h(), i);
        let x = i % g.w();
        let y = i / g.w();
        lemma_flat_in_range(g.w(), g.h(), x, y);
        assert(lo <= seed[g.flat(x, y)] <= hi);
        lemma_neighbor_in_bounds(prev, g, x, y, x - 1, y, lo, hi);
        lemma_neighbor_in_bounds(prev, g, x, y, x + 1, y, lo, hi);
        lemma_neighbor_in_bounds(prev, g, x, y, x, y - 1, lo, hi);
        lemma_neighbor_in_bounds(prev, g, x, y, x, y + 1, lo, hi);
        lemma_avg5_in_bounds(
            seed[g.flat(x, y)],
            neighbor_or_self(prev, g, x, y, x - 1, y),
            neighbor_or_self(prev, g, x, y, x + 1, y),
            neighbor_or_self(prev, g, x, y, x, y - 1),
            neighbor_or_self(prev, g, x, y, x, y + 1),
            lo,
            hi,
        );
    }
}

/// Boundedness of the density solver: however many passes run, a field
/// that starts in `[lo, hi]` (seed included) stays in `[lo, hi]`.
/// Relaxation damps; it never amplifies, so the total density of a
/// force-free field can never grow past its starting bound.
pub proof fn lemma_relaxation_preserves_bounds(
    seed: Seq<int>,
    cur: Seq<int>,
    g: Grid,
    lo: int,
    hi: int,
    n: nat,
)
    requires
        g.wf(),
        seed.len() == g.count_spec(),
        cur.len() == g.count_spec(),
        bounded(seed, lo, hi),
        bounded(cur, lo, hi),
    ensures
        relax_steps(seed, cur, g, n).len() == g.count_spec(),
        bounded(relax_steps(seed, cur, g, n), lo, hi),
    decreases n,
{
    if n > 0 {
        lemma_relaxation_preserves_bounds(seed, cur, g, lo, hi, (n - 1) as nat);
        lemma_pass_preserves_bounds(seed, relax_steps(seed, cur, g, (n - 1) as nat), g, lo, hi);
    }
}

/// One velocity relaxation pass maps a field bounded by `[lo, hi]` to a
/// field bounded by `[lo, hi]`.
pub proof fn lemma_vel_pass_preserves_bounds(prev: Seq<int>, g: Grid, lo: int, hi: int)
    requires
        g.wf(),
        prev.len() == g.count_spec(),
        bounded(prev, lo, hi),
    ensures
        vel_pass(prev, g).len() == g.count_spec(),
        bounded(vel_pass(prev, g), lo, hi),
{
    let r = vel_pass(prev, g);
    assert forall|i: int| 0 <= i < r.len() implies lo <= #[trigger] r[i] <= hi by {
        lemma_flat_decompose(g.w(), g.h(), i);
        let x = i % g.w();
        let y = i / g.w();
        lemma_flat_in_range(g.w(), g.h(), x, y);
        assert(lo <= prev[g.flat(x, y)] <= hi);
        lemma_neighbor_in_bounds(prev, g, x, y, x - 1, y, lo, hi);
        lemma_neighbor_in_bounds(prev, g, x, y, x + 1, y, lo, hi);
        lemma_neighbor_in_bounds(prev, g, x, y, x, y - 1, lo, hi);
        lemma_neighbor_in_bounds(prev, g, x, y, x, y + 1, lo, hi);
        lemma_avg5_in_bounds(
            prev[g.flat(x, y)],
            neighbor_or_self(prev, g, x, y, x - 1, y),
            neighbor_or_self(prev, g, x, y, x + 1, y),
            neighbor_or_self(prev, g, x, y, x, y - 1),
            neighbor_or_self(prev, g, x, y, x, y + 1),
            lo,
            hi,
        );
    }
}

/// Boundedness of the velocity solver: a component field that starts in
/// `[lo, hi]` stays in `[lo, hi]` through any number of passes.
pub proof fn lemma_vel_relaxation_preserves_bounds(cur: Seq<int>, g: Grid, lo: int, hi: int, n: nat)
    requires
        g.wf(),
        cur.len() == g.count_spec(),
        bounded(cur, lo, hi),
    ensures
        vel_steps(cur, g, n).len() == g.count_spec(),
        bounded(vel_steps(cur, g, n), lo, hi),
    decreases n,
{
    if n > 0 {
        lemma_vel_relaxation_preserves_bounds(cur, g, lo, hi, (n - 1) as nat);
        lemma_vel_pass_preserves_bounds(vel_steps(cur, g, (n - 1) as nat), g, lo, hi);
    }
}

/// A uniform field is a fixed point of the density solver: with every cell
/// (and the whole seed) at `v`, any number of passes returns the field
/// unchanged.  The stencil's weights sum to one.
pub proof fn lemma_uniform_fixed_point(s: Seq<int>, g: Grid, v: int, n: nat)
    requires
        g.wf(),
        s.len() == g.count_spec(),
        is_uniform(s, v),
    ensures
        relax_steps(s, s, g, n) == s,
    decreases n,
{
    if n > 0 {
        lemma_uniform_fixed_point(s, g, v, (n - 1) as nat);
        let r = relax_pass(s, s, g);
        assert forall|i: int| 0 <= i < r.len() implies #[trigger] r[i] == s[i] by {
            lemma_flat_decompose(g.w(), g.h(), i);
            let x = i % g.w();
            let y = i / g.w();
            lemma_flat_in_range(g.w(), g.h(), x, y);
            assert(s[g.flat(x, y)] == v);
            lemma_neighbor_in_bounds(s, g, x, y, x - 1, y, v, v);
            lemma_neighbor_in_bounds(s, g, x, y, x + 1, y, v, v);
            lemma_neighbor_in_bounds(s, g, x, y, x, y - 1, v, v);
            lemma_neighbor_in_bounds(s, g, x, y, x, y + 1, v, v);
            lemma_avg5_uniform(v);
        }
        assert(r =~= s);
    }
}

/// A uniform field is a fixed point of the velocity solver too.
pub proof fn lemma_vel_uniform_fixed_point(s: Seq<int>, g: Grid, v: int, n: nat)
    requires
        g.wf(),
        s.len() == g.count_spec(),
        is_uniform(s, v),
    ensures
        vel_steps(s, g, n) == s,
    decreases n,
{
    if n > 0 {
        lemma_vel_uniform_fixed_point(s, g, v, (n - 1) as nat);
        let r = vel_pass(s, g);
        assert forall|i: int| 0 <= i < r.len() implies #[trigger] r[i] == s[i] by {
            lemma_flat_decompose(g.w(), g.h(), i);
            let x = i % g.w();
            let y = i / g.w();
            lemma_flat_in_range(g.w(), g.h(), x, y);
            assert(s[g.flat(x, y)] == v);
            lemma_neighbor_in_bounds(s, g, x, y, x - 1, y, v, v);
            lemma_neighbor_in_bounds(s, g, x, y, x + 1, y, v, v);
            lemma_neighbor_in_bounds(s, g, x, y, x, y - 1, v, v);
            lemma_neighbor_in_bounds(s, g, x, y, x, y + 1, v, v);
            lemma_avg5_uniform(v);
        }
        assert(r =~= s);
    }
}

/// No-op injection: a zero-force frame's injection leaves the density
/// field and both velocity component fields exactly as they were.
pub proof fn lemma_zero_force_injection_is_noop(
    dens: Seq<int>,
    vx: Seq<int>,
    vy: Seq<int>,
    g: Grid,
    p: FrameParams,
)
    requires
        g.wf(),
        p.is_zero_force(),
        dens.len() == g.count_spec(),
        bounded(dens, 0, SCALE as int),
        bounded(vx, -(SCALE_I as int), SCALE_I as int),
        bounded(vy, -(SCALE_I as int), SCALE_I as int),
    ensures
        injected_density(dens, g, p) == dens,
        vel_inject_all(vx, p.force_velocity.x as int) == vx,
        vel_inject_all(vy, p.force_velocity.y as int) == vy,
{
    let r = injected_density(dens, g, p);
    match p.target {
        crate::sim::InjectionTarget::Skip => {},
        crate::sim::InjectionTarget::Everywhere => {
            assert forall|i: int| 0 <= i < dens.len() implies #[trigger] r[i] == dens[i] by {
                assert(inject_value(dens[i], 0) == dens[i]);
            }
            assert(r =~= dens);
        },
        crate::sim::InjectionTarget::Cell { x, y } => {
            if g.in_bounds(x as int, y as int) {
                lemma_flat_in_range(g.w(), g.h(), x as int, y as int);
                let gi = g.flat(x as int, y as int);
                assert(inject_value(dens[gi], 0) == dens[gi]);
                assert(r =~= dens);
            }
        },
    }
    assert forall|i: int| 0 <= i < vx.len() implies #[trigger] vel_inject_all(vx, 0)[i]
        == vx[i] by {}
    assert(vel_inject_all(vx, p.force_velocity.x as int) =~= vx);
    assert forall|i: int| 0 <= i < vy.len() implies #[trigger] vel_inject_all(vy, 0)[i]
        == vy[i] by {}
    assert(vel_inject_all(vy, p.force_velocity.y as int) =~= vy);
}

/// Boundedness of a whole zero-force frame: injection is a no-op and the
/// passes only damp, so the density field never grows past its bound.
pub proof fn lemma_zero_force_frame_bounded(
    dens: Seq<int>,
    g: Grid,
    p: FrameParams,
    hi: int,
    passes: nat,
)
    requires
        g.wf(),
        dens.len() == g.count_spec(),
        p.is_zero_force(),
        bounded(dens, 0, hi),
        hi <= SCALE as int,
    ensures
        frame_density(dens, g, p, passes).len() == g.count_spec(),
        bounded(frame_density(dens, g, p, passes), 0, hi),
{
    assert(bounded(dens, 0, SCALE as int));
    let zero_vel: Seq<int> = Seq::new(g.count_spec() as nat, |i: int| 0);
    lemma_zero_force_injection_is_noop(dens, zero_vel, zero_vel, g, p);
    lemma_relaxation_preserves_bounds(dens, dens, g, 0, hi, passes);
}

/// The sum form of boundedness: through any number of zero-force frames,
/// the total density across the grid never exceeds the cell count times
/// the starting bound — it stays bounded over time, however many frames
/// run, because each frame's output is again bounded by `hi`.
pub proof fn lemma_zero_force_frame_sum_bounded(
    dens: Seq<int>,
    g: Grid,
    p: FrameParams,
    hi: int,
    passes: nat,
)
    requires
        g.wf(),
        dens.len() == g.count_spec(),
        p.is_zero_force(),
        bounded(dens, 0, hi),
        hi <= SCALE as int,
    ensures
        0 <= field_sum(frame_density(dens, g, p, passes)) <= g.count_spec() * hi,
{
    lemma_zero_force_frame_bounded(dens, g, p, hi, passes);
    lemma_sum_bounded(frame_density(dens, g, p, passes), 0, hi);
    assert(g.count_spec() * 0 == 0) by (nonlinear_arith);
}

/// Boundedness of a whole zero-force frame for one velocity axis.
pub proof fn lemma_zero_force_frame_velocity_bounded(
    axis: Seq<int>,
    g: Grid,
    dv: int,
    lo: int,
    hi: int,
    passes: nat,
)
    requires
        g.wf(),
        axis.len() == g.count_spec(),
        dv == 0,
        bounded(axis, lo, hi),
        -(SCALE_I as int) <= lo <= hi <= SCALE_I as int,
    ensures
        frame_velocity_axis(axis, g, dv, passes).len() == g.count_spec(),
        bounded(frame_velocity_axis(axis, g, dv, passes), lo, hi),
{
    assert(bounded(axis, -(SCALE_I as int), SCALE_I as int));
    assert forall|i: int| 0 <= i < axis.len() implies #[trigger] vel_inject_all(axis, 0)[i]
        == axis[i] by {}
    assert(vel_inject_all(axis, dv) =~= axis);
    lemma_vel_relaxation_preserves_bounds(axis, g, lo, hi, passes);
}

/// A clamped-neighbor read resolves to a zero cell whenever both the cell
/// and the neighbor lie away from the origin of a single-source field.
proof fn lemma_far_neighbor_zero(s: Seq<int>, g: Grid, x: int, y: int, nx: int, ny: int)
    requires
        g.wf(),
        s.len() == g.count_spec(),
        forall|i: int| 1 <= i < s.len() ==> s[i] == 0,
        g.in_bounds(x, y),
        x + y >= 1,
        nx + ny >= 1,
    ensures
        neighbor_or_self(s, g, x, y, nx, ny) == 0,
{
    if g.in_bounds(nx, ny) {
        lemma_flat_in_range(g.w(), g.h(), nx, ny);
        assert(g.flat(nx, ny) >= 1) by (nonlinear_arith)
            requires
                g.w() >= 1,
                0 <= nx,
                0 <= ny,
                nx + ny >= 1,
                g.flat(nx, ny) == ny * g.w() + nx,
        ;
    } else {
        lemma_flat_in_range(g.w(), g.h(), x, y);
        assert(g.flat(x, y) >= 1) by (nonlinear_arith)
            requires
                g.w() >= 1,
                0 <= x,
                0 <= y,
                x + y >= 1,
                g.flat(x, y) == y * g.w() + x,
        ;
    }
}

/// Boundary safety and locality of diffusion: one pass over a field whose
/// only nonzero cell is the origin `(0, 0)` spreads exactly one fifth of
/// the source into each axis neighbor `(1, 0)` and `(0, 1)`, keeps three
/// fifths (rounded down) at the origin, and leaves every cell at
/// taxicab distance two or more — the far corner included — untouched at
/// zero.  Nothing ever wraps around an edge.
pub proof fn lemma_single_source_spread(s: Seq<int>, g: Grid, v: int)
    requires
        g.wf(),
        g.w() >= 2,
        g.h() >= 2,
        s.len() == g.count_spec(),
        s[0] == v,
        v >= 0,
        forall|i: int| 1 <= i < s.len() ==> s[i] == 0,
    ensures
        relax_pass(s, s, g)[g.flat(0, 0)] == (3 * v) / 5,
        relax_pass(s, s, g)[g.flat(1, 0)] == v / 5,
        relax_pass(s, s, g)[g.flat(0, 1)] == v / 5,
        forall|x: int, y: int|
            g.in_bounds(x, y) && x + y >= 2 ==> relax_pass(s, s, g)[g.flat(x, y)] == 0,
{
    let r = relax_pass(s, s, g);
    let w = g.w();
    let h = g.h();

    // The origin: clamped left and up reads fold back onto the source.
    lemma_flat_in_range(w, h, 0, 0);
    lemma_flat_inverse(w, h, 0, 0);
    lemma_flat_in_range(w, h, 1, 0);
    lemma_flat_in_range(w, h, 0, 1);
    assert(g.flat(0, 0) == 0 && g.flat(1, 0) == 1 && g.flat(0, 1) == w);
    assert(s[g.flat(1, 0)] == 0);
    assert(s[g.flat(0, 1)] == 0);
    assert(r[0] == (v + v + 0 + v + 0) / 5);

    // The right axis neighbor (1, 0).
    lemma_flat_inverse(w, h, 1, 0);
    lemma_flat_in_range(w, h, 1, 1);
    assert(s[g.flat(1, 1)] == 0);
    if g.in_bounds(2, 0) {
        lemma_flat_in_range(w, h, 2, 0);
        assert(s[g.flat(2, 0)] == 0);
    }
    assert(r[1] == (0 + v + 0 + 0 + 0) / 5);

    // The lower axis neighbor (0, 1).
    lemma_flat_inverse(w, h, 0, 1);
    assert(s[g.flat(1, 1)] == 0);
    if g.in_bounds(0, 2) {
        lemma_flat_in_range(w, h, 0, 2);
        assert(g.flat(0, 2) >= 1) by (nonlinear_arith)
            requires
                w >= 1,
                g.flat(0, 2) == 2 * w,
        ;
        assert(s[g.flat(0, 2)] == 0);
    }
    assert(g.flat(0, 1) == w >= 1);
    assert(s[g.flat(0, 1)] == 0);
    assert(r[g.flat(0, 1)] == (0 + 0 + 0 + v + 0) / 5);

    // Everything at taxicab distance two or more reads only zero cells.
    assert forall|x: int, y: int|
        g.in_bounds(x, y) && x + y >= 2 implies r[g.flat(x, y)] == 0 by {
        lemma_flat_in_range(w, h, x, y);
        lemma_flat_inverse(w, h, x, y);
        assert(g.flat(x, y) >= 1) by (nonlinear_arith)
            requires
                w >= 1,
                0 <= x,
                0 <= y,
                x + y >= 2,
                g.flat(x, y) == y * w + x,
        ;
        assert(s[g.flat(x, y)] == 0);
        lemma_far_neighbor_zero(s, g, x, y, x - 1, y);
        lemma_far_neighbor_zero(s, g, x, y, x + 1, y);
        lemma_far_neighbor_zero(s, g, x, y, x, y - 1);
        lemma_far_neighbor_zero(s, g, x, y, x, y + 1);
        lemma_avg5_uniform(0);
    }
}

/// Determinism: a frame is a pure function of the starting fields and the
/// frame parameters, so two runs from identical inputs produce identical
/// fields — there is no hidden state and no nondeterminism in any kernel.
pub proof fn lemma_frame_deterministic(
    dens1: Seq<int>,
    dens2: Seq<int>,
    vx1: Seq<int>,
    vx2: Seq<int>,
    vy1: Seq<int>,
    vy2: Seq<int>,
    g: Grid,
    p1: FrameParams,
    p2: FrameParams,
    passes: nat,
)
    requires
        dens1 == dens2,
        vx1 == vx2,
        vy1 == vy2,
        p1 == p2,
    ensures
        frame_density(dens1, g, p1, passes) == frame_density(dens2, g, p2, passes),
        frame_velocity_axis(vx1, g, p1.force_velocity.x as int, passes) == frame_velocity_axis(
            vx2,
            g,
            p2.force_velocity.x as int,
            passes,
        ),
        frame_velocity_axis(vy1, g, p1.force_velocity.y as int, passes) == frame_velocity_axis(
            vy2,
            g,
            p2.force_velocity.y as int,
            passes,
        ),
{
}

} // verus!
