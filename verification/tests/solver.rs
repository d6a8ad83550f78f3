//! Scenario and property tests for the solver.

use fluid_grid::fixed::SCALE;
use fluid_grid::sim::{FluidSimulator, FrameParams, InjectionTarget, RELAXATION_PASSES};
use fluid_grid::velocity::Vel2;

fn zero_params() -> FrameParams {
    FrameParams {
        force_velocity: Vel2 { x: 0, y: 0 },
        force_density: 0,
        target: InjectionTarget::Skip,
    }
}

#[test]
fn uniform_injection_no_passes_fills_grid() {
    // 20x20 grid, zero initial density, uniform injection of a full
    // density, zero relaxation passes: every cell reads exactly 1.0.
    let mut sim = FluidSimulator::new(20, 20);
    let p = FrameParams {
        force_velocity: Vel2 { x: 0, y: 0 },
        force_density: SCALE,
        target: InjectionTarget::Everywhere,
    };
    sim.add_force(&p);
    sim.relax(0);
    for y in 0..20usize {
        for x in 0..20usize {
            assert_eq!(sim.density_at(x, y), SCALE);
        }
    }
}

#[test]
fn center_injection_dominates_distant_cells() {
    // One localized injection at the grid's center, then a full frame of
    // relaxation passes: the center stays strictly denser than every cell
    // at Chebyshev distance five or more.
    let mut sim = FluidSimulator::new(20, 20);
    let p = FrameParams {
        force_velocity: Vel2 { x: 0, y: 0 },
        force_density: SCALE,
        target: InjectionTarget::Cell { x: 10, y: 10 },
    };
    sim.add_force(&p);
    sim.relax(RELAXATION_PASSES);
    let center = sim.density_at(10, 10);
    assert!(center > 0);
    for y in 0..20usize {
        for x in 0..20usize {
            let dx = (x as i64 - 10).abs();
            let dy = (y as i64 - 10).abs();
            let chebyshev = dx.max(dy);
            if chebyshev >= 5 {
                assert!(sim.density_at(x, y) < center);
            }
        }
    }
}

#[test]
fn corner_injection_spreads_only_to_axis_neighbors() {
    // Injecting 1.0 at (0, 0) and relaxing once reaches exactly the two
    // axis neighbors; everything further, the far corner included, stays
    // zero: no wraparound, no diagonal leak.
    let mut sim = FluidSimulator::new(8, 8);
    let p = FrameParams {
        force_velocity: Vel2 { x: 0, y: 0 },
        force_density: SCALE,
        target: InjectionTarget::Cell { x: 0, y: 0 },
    };
    sim.add_force(&p);
    sim.relax(1);
    assert_eq!(sim.density_at(0, 0), 3 * SCALE / 5);
    assert_eq!(sim.density_at(1, 0), SCALE / 5);
    assert_eq!(sim.density_at(0, 1), SCALE / 5);
    for y in 0..8usize {
        for x in 0..8usize {
            if x + y >= 2 {
                assert_eq!(sim.density_at(x, y), 0);
            }
        }
    }
    assert_eq!(sim.density_at(7, 7), 0);
}

#[test]
fn clamped_edges_on_one_row_grid() {
    // A 2x1 grid exercises every clamped edge: the source cell averages
    // itself three times (left, up, down are all walls) with its seed, the
    // other cell sees the source once.
    let mut sim = FluidSimulator::new(2, 1);
    let p = FrameParams {
        force_velocity: Vel2 { x: 0, y: 0 },
        force_density: SCALE,
        target: InjectionTarget::Cell { x: 0, y: 0 },
    };
    sim.add_force(&p);
    sim.relax(1);
    assert_eq!(sim.density_at(0, 0), 4 * SCALE / 5);
    assert_eq!(sim.density_at(1, 0), SCALE / 5);
}

#[test]
fn out_of_grid_injection_is_ignored() {
    let mut sim = FluidSimulator::new(8, 8);
    let p = FrameParams {
        force_velocity: Vel2 { x: 0, y: 0 },
        force_density: SCALE,
        target: InjectionTarget::Cell { x: 100, y: 3 },
    };
    sim.add_force(&p);
    for y in 0..8usize {
        for x in 0..8usize {
            assert_eq!(sim.density_at(x, y), 0);
        }
    }
}

#[test]
fn localized_injection_saturates_at_full_density() {
    let mut sim = FluidSimulator::new(4, 4);
    let p = FrameParams {
        force_velocity: Vel2 { x: 0, y: 0 },
        force_density: SCALE,
        target: InjectionTarget::Cell { x: 2, y: 2 },
    };
    sim.add_force(&p);
    sim.add_force(&p);
    assert_eq!(sim.density_at(2, 2), SCALE);
}

#[test]
fn zero_force_injection_is_bit_identical() {
    // A zero vector and a zero density scalar leave every cell exactly as
    // it was, whatever state the field is in.
    let mut sim = FluidSimulator::new(12, 9);
    let p = FrameParams {
        force_velocity: Vel2 { x: 250_000, y: -125_000 },
        force_density: 700_000,
        target: InjectionTarget::Cell { x: 5, y: 4 },
    };
    sim.advance_frame(&p);
    let before = sim.density_snapshot();
    let vel_before = sim.velocity_at(5, 4);
    sim.add_force(&zero_params());
    let after = sim.density_snapshot();
    let vel_after = sim.velocity_at(5, 4);
    assert_eq!(before, after);
    assert_eq!(vel_before, vel_after);
}

#[test]
fn uniform_field_is_fixed_point_of_a_frame() {
    // A uniform density field relaxed under zero force comes out
    // bit-identical: the stencil's weights sum to one.
    let mut sim = FluidSimulator::new(10, 10);
    let fill = FrameParams {
        force_velocity: Vel2 { x: 0, y: 0 },
        force_density: 321_000,
        target: InjectionTarget::Everywhere,
    };
    sim.add_force(&fill);
    let before = sim.density_snapshot();
    sim.advance_frame(&zero_params());
    let after = sim.density_snapshot();
    assert_eq!(before, after);
}

#[test]
fn ping_pong_parity_matches_pass_count() {
    // After an even number of passes the original slot assignment is
    // authoritative again; after an odd number the other slot is.
    let mut sim = FluidSimulator::new(6, 6);
    assert!(sim.density_slot_is_primary());
    assert!(sim.velocity_slot_is_primary());
    sim.relax(RELAXATION_PASSES);
    assert_eq!(RELAXATION_PASSES % 2, 0);
    assert!(sim.density_slot_is_primary());
    assert!(sim.velocity_slot_is_primary());
    sim.relax(1);
    assert!(!sim.density_slot_is_primary());
    assert!(!sim.velocity_slot_is_primary());
    sim.relax(3);
    assert!(sim.density_slot_is_primary());
    assert!(sim.velocity_slot_is_primary());
    sim.advance_frame(&zero_params());
    assert!(sim.density_slot_is_primary());
    assert!(sim.velocity_slot_is_primary());
}

#[test]
fn identical_runs_are_bit_identical() {
    // Two independent simulators driven with identical per-frame
    // parameters produce bit-identical fields, frame after frame.
    let mut sim1 = FluidSimulator::new(16, 12);
    let mut sim2 = FluidSimulator::new(16, 12);
    let frames = [
        FrameParams {
            force_velocity: Vel2 { x: 123_456, y: -654_321 },
            force_density: 300_000,
            target: InjectionTarget::Everywhere,
        },
        FrameParams {
            force_velocity: Vel2 { x: -1_000_000, y: 1_000_000 },
            force_density: 500_000,
            target: InjectionTarget::Cell { x: 3, y: 4 },
        },
        FrameParams {
            force_velocity: Vel2 { x: 0, y: 0 },
            force_density: 0,
            target: InjectionTarget::Skip,
        },
    ];
    for p in frames.iter() {
        sim1.advance_frame(p);
        sim2.advance_frame(p);
        assert_eq!(sim1.density_snapshot(), sim2.density_snapshot());
        for y in 0..12usize {
            for x in 0..16usize {
                assert_eq!(sim1.velocity_at(x, y), sim2.velocity_at(x, y));
            }
        }
    }
}

#[test]
fn zero_force_frames_never_amplify_density() {
    // With no external force the largest cell density never grows from one
    // frame to the next, so the total density stays bounded over time.
    let mut sim = FluidSimulator::new(10, 10);
    let p = FrameParams {
        force_velocity: Vel2 { x: 0, y: 0 },
        force_density: SCALE,
        target: InjectionTarget::Cell { x: 4, y: 4 },
    };
    sim.advance_frame(&p);
    let mut last_max: u32 = max_density(&sim);
    let mut last_sum: u64 = sum_density(&sim);
    for _ in 0..5 {
        sim.advance_frame(&zero_params());
        let m = max_density(&sim);
        let s = sum_density(&sim);
        assert!(m <= last_max);
        assert!(s <= last_sum);
        last_max = m;
        last_sum = s;
    }
}

fn max_density(sim: &FluidSimulator) -> u32 {
    let mut m: u32 = 0;
    for y in 0..sim.height() {
        for x in 0..sim.width() {
            m = m.max(sim.density_at(x, y));
        }
    }
    m
}

fn sum_density(sim: &FluidSimulator) -> u64 {
    let mut s: u64 = 0;
    for y in 0..sim.height() {
        for x in 0..sim.width() {
            s += sim.density_at(x, y) as u64;
        }
    }
    s
}

#[test]
fn uniform_velocity_injection_reaches_every_cell() {
    // Velocity forcing is uniform: after a frame every cell carries the
    // injected vector (a uniform field is a fixed point of the passes).
    let mut sim = FluidSimulator::new(9, 7);
    let p = FrameParams {
        force_velocity: Vel2 { x: 500_000, y: -250_000 },
        force_density: 0,
        target: InjectionTarget::Skip,
    };
    sim.advance_frame(&p);
    for y in 0..7usize {
        for x in 0..9usize {
            let v = sim.velocity_at(x, y);
            assert_eq!(v, Vel2 { x: 500_000, y: -250_000 });
        }
    }
    let arrows = sim.velocity_snapshot();
    assert_eq!(arrows.len(), 63);
    assert!(arrows.iter().all(|v| *v == Vel2 { x: 500_000, y: -250_000 }));
}

#[test]
fn velocity_injection_clamps_at_unit_speed() {
    let mut sim = FluidSimulator::new(3, 3);
    let p = FrameParams {
        force_velocity: Vel2 { x: 900_000, y: -900_000 },
        force_density: 0,
        target: InjectionTarget::Skip,
    };
    sim.advance_frame(&p);
    sim.advance_frame(&p);
    let v = sim.velocity_at(1, 1);
    assert_eq!(v, Vel2 { x: 1_000_000, y: -1_000_000 });
}
