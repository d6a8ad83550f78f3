//! Tests for the control surface, the visualization helpers, the error
//! reporter, and the field stores used directly.

use fluid_grid::density::DensityField;
use fluid_grid::fixed::{clamp_axis_control, clamp_density_control, SCALE};
use fluid_grid::grid::Grid;
use fluid_grid::report::FrameReporter;
use fluid_grid::sim::{FluidSimulator, FrameParams, InjectionTarget};
use fluid_grid::velocity::{Vel2, VelocityField};
use fluid_grid::view::{cell_for_pixel, heatmap_pixel, shade};

#[test]
fn density_control_clamps_to_unit_interval() {
    assert_eq!(clamp_density_control(-5), 0);
    assert_eq!(clamp_density_control(0), 0);
    assert_eq!(clamp_density_control(123_456), 123_456);
    assert_eq!(clamp_density_control(1_000_000), SCALE);
    assert_eq!(clamp_density_control(2_000_000), SCALE);
}

#[test]
fn axis_control_clamps_to_signed_unit_interval() {
    assert_eq!(clamp_axis_control(-2_000_000), -1_000_000);
    assert_eq!(clamp_axis_control(-1), -1);
    assert_eq!(clamp_axis_control(0), 0);
    assert_eq!(clamp_axis_control(999_999), 999_999);
    assert_eq!(clamp_axis_control(7_000_000), 1_000_000);
}

#[test]
fn pixels_scale_onto_the_grid() {
    let g = Grid::new(20, 20);
    assert_eq!(cell_for_pixel(&g, 0, 0, 1920, 1080), (0, 0));
    assert_eq!(cell_for_pixel(&g, 1919, 1079, 1920, 1080), (19, 19));
    assert_eq!(cell_for_pixel(&g, 959, 539, 1920, 1080), (9, 9));
    assert_eq!(cell_for_pixel(&g, 96, 54, 1920, 1080), (1, 1));
}

#[test]
fn shade_is_linear_in_density() {
    assert_eq!(shade(0), 0);
    assert_eq!(shade(SCALE), 255);
    assert_eq!(shade(SCALE / 2), 127);
    assert_eq!(shade(SCALE / 5), 51);
}

#[test]
fn heatmap_pixel_reads_the_sampled_cell() {
    let mut sim = FluidSimulator::new(2, 1);
    let p = FrameParams {
        force_velocity: Vel2 { x: 0, y: 0 },
        force_density: SCALE,
        target: InjectionTarget::Cell { x: 1, y: 0 },
    };
    sim.add_force(&p);
    // Left half of the viewport samples the empty cell, right half the
    // full one.
    assert_eq!(heatmap_pixel(&sim, 0, 0, 100, 50), 0);
    assert_eq!(heatmap_pixel(&sim, 49, 0, 100, 50), 0);
    assert_eq!(heatmap_pixel(&sim, 50, 0, 100, 50), 255);
    assert_eq!(heatmap_pixel(&sim, 99, 49, 100, 50), 255);
}

#[test]
fn reporter_deduplicates_consecutive_messages() {
    let mut rep = FrameReporter::new();
    assert!(rep.note_failure(b"device lost".to_vec()));
    assert!(!rep.note_failure(b"device lost".to_vec()));
    assert!(rep.note_failure(b"out of memory".to_vec()));
    assert!(!rep.note_failure(b"out of memory".to_vec()));
}

#[test]
fn reporter_forgets_after_a_good_frame() {
    let mut rep = FrameReporter::new();
    assert!(rep.note_failure(b"device lost".to_vec()));
    rep.note_success();
    assert!(rep.note_failure(b"device lost".to_vec()));
}

#[test]
fn fresh_fields_are_zero_everywhere() {
    let g = Grid::new(5, 3);
    let d = DensityField::new(g);
    let snap = d.snapshot();
    assert_eq!(snap.len(), 15);
    assert!(snap.iter().all(|&v| v == 0));
    assert!(d.current_is_primary());
    let v = VelocityField::new(g);
    assert!(v.current_is_primary());
    for y in 0..3usize {
        for x in 0..5usize {
            assert_eq!(v.velocity_at(x, y), Vel2 { x: 0, y: 0 });
        }
    }
}

#[test]
fn density_field_relaxation_stands_alone() {
    // The density store can be driven without the simulator around it.
    let g = Grid::new(2, 1);
    let mut d = DensityField::new(g);
    d.add_at(0, 0, SCALE);
    assert_eq!(d.density_at(0, 0), SCALE);
    d.run_relaxation(1);
    assert_eq!(d.density_at(0, 0), 4 * SCALE / 5);
    assert_eq!(d.density_at(1, 0), SCALE / 5);
    assert!(!d.current_is_primary());
}

#[test]
fn uniform_density_injection_saturates() {
    let g = Grid::new(3, 2);
    let mut d = DensityField::new(g);
    d.add_uniform(800_000);
    d.add_uniform(800_000);
    for y in 0..2usize {
        for x in 0..3usize {
            assert_eq!(d.density_at(x, y), SCALE);
        }
    }
}

#[test]
fn velocity_field_clamps_componentwise() {
    let g = Grid::new(2, 2);
    let mut v = VelocityField::new(g);
    v.add_uniform(Vel2 { x: 700_000, y: -700_000 });
    v.add_uniform(Vel2 { x: 700_000, y: -700_000 });
    assert_eq!(v.velocity_at(1, 1), Vel2 { x: 1_000_000, y: -1_000_000 });
    v.run_relaxation(2);
    // A uniform field is a fixed point of the velocity passes as well.
    assert_eq!(v.velocity_at(0, 0), Vel2 { x: 1_000_000, y: -1_000_000 });
    assert!(v.current_is_primary());
}
