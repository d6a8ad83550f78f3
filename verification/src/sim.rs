//! The per-frame simulator: force injection, relaxation, visualization.
//!
//! One frame advances in a fixed order: the frame's forcing parameters are
//! written into the fields, the density solver snapshots its seed and both
//! fields relax for a fixed number of ping-pong passes, and only then may a
//! renderer read the settled buffers through the read-only accessors.  The
//! simulator owns all buffers; nothing else writes them.

use vstd::prelude::*;
use crate::density::{inject_all, inject_cell, relax_steps, DensityField};
use crate::field::{bounded, field_model, zero_field};
use crate::fixed::{SCALE, SCALE_I};
use crate::grid::{Grid, MAX_DIM};
use crate::velocity::{vel_inject_all, vel_steps, Vel2, VelocityField};

verus! {

/// Number of relaxation passes per frame: a configuration constant.
pub const RELAXATION_PASSES: usize = 20;

/// Where a frame's density contribution lands.
#[derive(Clone, Copy, PartialEq, Eq, Structural)]
pub enum InjectionTarget {
    /// No density contribution this frame.
    Skip,
    /// Uniform mode: every cell receives the contribution.
    Everywhere,
    /// Localized mode: exactly the cell `(x, y)`; an out-of-grid coordinate
    /// is silently ignored.
    Cell { x: usize, y: usize },
}

/// One frame's forcing parameters: produced anew each frame, never
/// persisted.  Out-of-range control inputs are clamped before a value of
/// this type is built (see `fixed`).
#[derive(Clone, Copy)]
pub struct FrameParams {
    /// Uniform velocity contribution; each component in `[-SCALE, SCALE]`.
    pub force_velocity: Vel2,
    /// Density contribution, in `[0, SCALE]`.
    pub force_density: u32,
    /// Where the density contribution lands.
    pub target: InjectionTarget,
}

impl FrameParams {
    pub open spec fn wf(&self) -> bool {
        self.force_velocity.axes_bounded() && self.force_density <= SCALE
    }

    /// A frame that pushes nothing into the fields.
    pub open spec fn is_zero_force(&self) -> bool {
        self.force_velocity.x == 0 && self.force_velocity.y == 0 && self.force_density == 0
    }
}

/// The density field right after a frame's injection.
pub open spec fn injected_density(cur: Seq<int>, g: Grid, p: FrameParams) -> Seq<int> {
    match p.target {
        InjectionTarget::Skip => cur,
        InjectionTarget::Everywhere => inject_all(cur, p.force_density as int),
        InjectionTarget::Cell { x, y } => inject_cell(
            cur,
            g,
            x as int,
            y as int,
            p.force_density as int,
        ),
    }
}

/// The density field at the end of a frame: injected, then relaxed for
/// `passes` passes, every pass reading the post-injection field as its
/// frozen seed.
pub open spec fn frame_density(cur: Seq<int>, g: Grid, p: FrameParams, passes: nat) -> Seq<int> {
    relax_steps(injected_density(cur, g, p), injected_density(cur, g, p), g, passes)
}

/// One axis of the velocity field at the end of a frame: injected
/// uniformly, then relaxed for `passes` passes.
pub open spec fn frame_velocity_axis(cur: Seq<int>, g: Grid, dv: int, passes: nat) -> Seq<int> {
    vel_steps(vel_inject_all(cur, dv), g, passes)
}

/// The simulator: grid constants and the two fields, allocated once and
/// owned exclusively for the simulator's lifetime.
pub struct FluidSimulator {
    grid: Grid,
    density: DensityField,
    velocity: VelocityField,
}

impl FluidSimulator {
    pub closed spec fn grid_spec(&self) -> Grid {
        self.grid
    }

    /// The settled density field.
    pub closed spec fn density_m(&self) -> Seq<int> {
        self.density.cur()
    }

    /// The density seed slot (the last frame's post-injection snapshot).
    pub closed spec fn density_seed_m(&self) -> Seq<int> {
        self.density.seed_m()
    }

    /// The settled velocity field, x components.
    pub closed spec fn vel_x_m(&self) -> Seq<int> {
        self.velocity.cur_x()
    }

    /// The settled velocity field, y components.
    pub closed spec fn vel_y_m(&self) -> Seq<int> {
        self.velocity.cur_y()
    }

    /// Ping-pong parity of the density pair.
    pub closed spec fn density_primary(&self) -> bool {
        self.density.primary_is_front()
    }

    /// Ping-pong parity of the velocity pair.
    pub closed spec fn velocity_primary(&self) -> bool {
        self.velocity.primary_is_front()
    }

    pub closed spec fn wf(&self) -> bool {
        &&& self.grid.wf()
        &&& self.density.wf()
        &&& self.velocity.wf()
        &&& self.density.grid_spec() == self.grid
        &&& self.velocity.grid_spec() == self.grid
    }

    /// Facts every caller may rely on for a well-formed simulator.
    pub proof fn lemma_wf(&self)
        requires
            self.wf(),
        ensures
            self.grid_spec().wf(),
            self.density_m().len() == self.grid_spec().count_spec(),
            self.vel_x_m().len() == self.grid_spec().count_spec(),
            self.vel_y_m().len() == self.grid_spec().count_spec(),
            bounded(self.density_m(), 0, SCALE as int),
            bounded(self.vel_x_m(), -(SCALE_I as int), SCALE_I as int),
            bounded(self.vel_y_m(), -(SCALE_I as int), SCALE_I as int),
    {
        self.density.lemma_wf();
        self.velocity.lemma_wf();
    }

    /// A fresh simulator: both fields zero everywhere, both ping-pong pairs
    /// in their primary slot assignment.
    pub fn new(width: usize, height: usize) -> (s: FluidSimulator)
        requires
            1 <= width <= MAX_DIM,
            1 <= height <= MAX_DIM,
        ensures
            s.wf(),
            s.grid_spec().w() == width,
            s.grid_spec().h() == height,
            s.density_m() == zero_field(s.grid_spec().count_spec()),
            s.density_primary(),
            s.velocity_primary(),
            forall|i: int| 0 <= i < s.grid_spec().count_spec() ==> s.vel_x_m()[i] == 0,
            forall|i: int| 0 <= i < s.grid_spec().count_spec() ==> s.vel_y_m()[i] == 0,
    {
        let grid = Grid::new(width, height);
        let density = DensityField::new(grid);
        let velocity = VelocityField::new(grid);
        FluidSimulator { grid, density, velocity }
    }

    /// The grid constants, shared read-only with every consumer.
    pub fn grid(&self) -> (g: Grid)
        ensures
            g == self.grid_spec(),
    {
        self.grid
    }

    pub fn width(&self) -> (w: usize)
        ensures
            w == self.grid_spec().w(),
    {
        self.grid.width()
    }

    pub fn height(&self) -> (h: usize)
        ensures
            h == self.grid_spec().h(),
    {
        self.grid.height()
    }

    /// Force injection: write the frame's contributions into the fields.
    /// Its effects must be visible before the frame's relaxation runs;
    /// `advance_frame` enforces that ordering.
    pub fn add_force(&mut self, p: &FrameParams)
        requires
            old(self).wf(),
            p.wf(),
        ensures
            final(self).wf(),
            final(self).grid_spec() == old(self).grid_spec(),
            final(self).density_m() == injected_density(
                old(self).density_m(),
                old(self).grid_spec(),
                *p,
            ),
            final(self).vel_x_m() == vel_inject_all(old(self).vel_x_m(), p.force_velocity.x as int),
            final(self).vel_y_m() == vel_inject_all(old(self).vel_y_m(), p.force_velocity.y as int),
            final(self).density_primary() == old(self).density_primary(),
            final(self).velocity_primary() == old(self).velocity_primary(),
            final(self).density_seed_m() == old(self).density_seed_m(),
    {
        self.velocity.add_uniform(p.force_velocity);
        match p.target {
            InjectionTarget::Skip => {},
            InjectionTarget::Everywhere => {
                self.density.add_uniform(p.force_density);
            },
            InjectionTarget::Cell { x, y } => {
                self.density.add_at(x, y, p.force_density);
            },
        }
    }

    /// The relaxation solver: snapshot the density seed, then run `passes`
    /// ping-pong passes on both fields.
    pub fn relax(&mut self, passes: usize)
        requires
            old(self).wf(),
        ensures
            final(self).wf(),
            final(self).grid_spec() == old(self).grid_spec(),
            final(self).density_m() == relax_steps(
                old(self).density_m(),
                old(self).density_m(),
                old(self).grid_spec(),
                passes as nat,
            ),
            final(self).density_seed_m() == old(self).density_m(),
            final(self).vel_x_m() == vel_steps(
                old(self).vel_x_m(),
                old(self).grid_spec(),
                passes as nat,
            ),
            final(self).vel_y_m() == vel_steps(
                old(self).vel_y_m(),
                old(self).grid_spec(),
                passes as nat,
            ),
            final(self).density_primary() == (old(self).density_primary() == (passes % 2 == 0)),
            final(self).velocity_primary() == (old(self).velocity_primary() == (passes % 2 == 0)),
    {
        self.density.run_relaxation(passes);
        self.velocity.run_relaxation(passes);
    }

    /// One full frame: force injection, then the configured number of
    /// relaxation passes.  Afterwards the read-only accessors observe a
    /// fully settled buffer.
    pub fn advance_frame(&mut self, p: &FrameParams)
        requires
            old(self).wf(),
            p.wf(),
        ensures
            final(self).wf(),
            final(self).grid_spec() == old(self).grid_spec(),
            final(self).density_m() == frame_density(
                old(self).density_m(),
                old(self).grid_spec(),
                *p,
                RELAXATION_PASSES as nat,
            ),
            final(self).vel_x_m() == frame_velocity_axis(
                old(self).vel_x_m(),
                old(self).grid_spec(),
                p.force_velocity.x as int,
                RELAXATION_PASSES as nat,
            ),
            final(self).vel_y_m() == frame_velocity_axis(
                old(self).vel_y_m(),
                old(self).grid_spec(),
                p.force_velocity.y as int,
                RELAXATION_PASSES as nat,
            ),
            final(self).density_primary() == old(self).density_primary(),
            final(self).velocity_primary() == old(self).velocity_primary(),
    {
        self.add_force(p);
        self.relax(RELAXATION_PASSES);
    }

    /// Read one settled density cell.
    pub fn density_at(&self, x: usize, y: usize) -> (d: u32)
        requires
            self.wf(),
            self.grid_spec().in_bounds(x as int, y as int),
        ensures
            d == self.density_m()[self.grid_spec().flat(x as int, y as int)],
            d <= SCALE,
    {
        self.density.density_at(x, y)
    }

    /// Read one settled velocity cell.
    pub fn velocity_at(&self, x: usize, y: usize) -> (v: Vel2)
        requires
            self.wf(),
            self.grid_spec().in_bounds(x as int, y as int),
        ensures
            v.x as int == self.vel_x_m()[self.grid_spec().flat(x as int, y as int)],
            v.y as int == self.vel_y_m()[self.grid_spec().flat(x as int, y as int)],
            v.axes_bounded(),
    {
        self.velocity.velocity_at(x, y)
    }

    /// A copy of the settled density buffer, for a renderer.
    pub fn density_snapshot(&self) -> (v: Vec<u32>)
        requires
            self.wf(),
        ensures
            v@.len() == self.grid_spec().count_spec(),
            field_model(v@) == self.density_m(),
    {
        self.density.snapshot()
    }

    /// A copy of the settled velocity buffer, one vector per cell in
    /// flat-index order: what an arrow-glyph renderer instances from.
    pub fn velocity_snapshot(&self) -> (v: Vec<Vel2>)
        requires
            self.wf(),
        ensures
            v@.len() == self.grid_spec().count_spec(),
            crate::velocity::vel_x_model(v@) == self.vel_x_m(),
            crate::velocity::vel_y_model(v@) == self.vel_y_m(),
    {
        self.velocity.snapshot()
    }

    /// Ping-pong parity of the density pair, as an executable read.
    pub fn density_slot_is_primary(&self) -> (b: bool)
        ensures
            b == self.density_primary(),
    {
        self.density.current_is_primary()
    }

    /// Ping-pong parity of the velocity pair, as an executable read.
    pub fn velocity_slot_is_primary(&self) -> (b: bool)
        ensures
            b == self.velocity_primary(),
    {
        self.velocity.current_is_primary()
    }
}

} // verus!
