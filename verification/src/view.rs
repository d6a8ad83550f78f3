//! Visualization support: the read-only side of the simulator.
//!
//! A heat-map renderer runs one pass over the whole viewport, maps each
//! output pixel to a grid cell by coordinate scaling, and colors it from
//! that cell's settled density.  The per-pixel kernel lives here, verified;
//! a host only loops over its output surface and writes what the kernel
//! returns.  Arrow-glyph rendering reads cells directly through
//! `FluidSimulator::velocity_at`; the glyph geometry itself is the
//! renderer's business, not the simulator's.

use vstd::prelude::*;
use vstd::arithmetic::div_mod::{
    lemma_div_is_ordered, lemma_multiply_divide_le, lemma_multiply_divide_lt,
};
use crate::fixed::SCALE;
use crate::grid::{lemma_flat_in_range, Grid};
use crate::sim::FluidSimulator;

verus! {

/// Largest viewport side the pixel mapping accepts.
pub const MAX_VIEWPORT: u64 = 0xFFFF_FFFF;

/// The grid column a viewport column scales to.
pub open spec fn scaled_coord(p: int, cells: int, view: int) -> int {
    (p * cells) / view
}

/// Map a viewport pixel to the grid cell it samples.
pub fn cell_for_pixel(g: &Grid, px: u64, py: u64, view_w: u64, view_h: u64) -> (c: (usize, usize))
    requires
        g.wf(),
        px < view_w,
        py < view_h,
        view_w <= MAX_VIEWPORT,
        view_h <= MAX_VIEWPORT,
    ensures
        c.0 as int == scaled_coord(px as int, g.w(), view_w as int),
        c.1 as int == scaled_coord(py as int, g.h(), view_h as int),
        g.in_bounds(c.0 as int, c.1 as int),
{
    let w = g.width() as u64;
    let h = g.height() as u64;
    proof {
        assert((px as int) * (w as int) <= (MAX_VIEWPORT as int) * 0xFFFF) by (nonlinear_arith)
            requires
                0 <= px as int <= MAX_VIEWPORT as int,
                0 <= w as int <= 0xFFFF,
        ;
        assert((py as int) * (h as int) <= (MAX_VIEWPORT as int) * 0xFFFF) by (nonlinear_arith)
            requires
                0 <= py as int <= MAX_VIEWPORT as int,
                0 <= h as int <= 0xFFFF,
        ;
    }
    let cx = (px * w) / view_w;
    let cy = (py * h) / view_h;
    proof {
        assert((px as int) * (w as int) < (view_w as int) * (w as int)) by (nonlinear_arith)
            requires
                (px as int) < (view_w as int),
                0 < w as int,
        ;
        lemma_multiply_divide_lt((px as int) * (w as int), view_w as int, w as int);
        assert((py as int) * (h as int) < (view_h as int) * (h as int)) by (nonlinear_arith)
            requires
                (py as int) < (view_h as int),
                0 < h as int,
        ;
        lemma_multiply_divide_lt((py as int) * (h as int), view_h as int, h as int);
        lemma_div_is_ordered(0, (px as int) * (w as int), view_w as int);
        lemma_div_is_ordered(0, (py as int) * (h as int), view_h as int);
    }
    (cx as usize, cy as usize)
}

/// Map a density in `[0, SCALE]` to an 8-bit intensity: 0 for a zero
/// density, 255 for a full one, linear in between.
pub fn shade(d: u32) -> (s: u8)
    requires
        d <= SCALE,
    ensures
        s as int == (d as int * 255) / (SCALE as int),
{
    let v = ((d as u64) * 255) / (SCALE as u64);
    proof {
        lemma_multiply_divide_le((d as int) * 255, SCALE as int, 255);
        lemma_div_is_ordered(0, (d as int) * 255, SCALE as int);
    }
    v as u8
}

/// The visualize-density kernel for one output pixel: scale the pixel to a
/// grid cell, read that cell's settled density, shade it.
pub fn heatmap_pixel(sim: &FluidSimulator, px: u64, py: u64, view_w: u64, view_h: u64) -> (s: u8)
    requires
        sim.wf(),
        px < view_w,
        py < view_h,
        view_w <= MAX_VIEWPORT,
        view_h <= MAX_VIEWPORT,
    ensures
        s as int == (sim.density_m()[sim.grid_spec().flat(
            scaled_coord(px as int, sim.grid_spec().w(), view_w as int),
            scaled_coord(py as int, sim.grid_spec().h(), view_h as int),
        )] * 255) / (SCALE as int),
{
    proof {
        sim.lemma_wf();
    }
    let g = sim.grid();
    let (cx, cy) = cell_for_pixel(&g, px, py, view_w, view_h);
    proof {
        lemma_flat_in_range(g.w(), g.h(), cx as int, cy as int);
    }
    let d = sim.density_at(cx, cy);
    shade(d)
}

} // verus!
