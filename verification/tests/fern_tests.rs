use barnsley_fern::canvas::{Canvas, FernError};
use barnsley_fern::color::Color;
use barnsley_fern::fern::{project, Fern};
use barnsley_fern::sampler::{branch_index, sample_step, FractalPoint};
use rand::Rng;

const FERN: Color = Color { r: 51, g: 153, b: 137, a: 255 };
const BACKGROUND: Color = Color { r: 43, g: 44, b: 40, a: 255 };

fn snapshot(canvas: &Canvas) -> Vec<Color> {
    let mut cells: Vec<Color> = Vec::new();
    for row in 0..canvas.height() {
        for col in 0..canvas.width() {
            cells.push(canvas.get(col, row));
        }
    }
    cells
}

/// A small deterministic generator of draw numerators, independent of the
/// real random source.
fn fixed_draws(n: usize) -> Vec<u64> {
    let mut state: u64 = 88172645463325252;
    let mut draws: Vec<u64> = Vec::new();
    for _ in 0..n {
        state ^= state << 13;
        state ^= state >> 7;
        state ^= state << 17;
        draws.push(state % 1_000_000_000);
    }
    draws
}

#[test]
fn scenario_first_step_from_origin() {
    // Starting point (0,0), 1000 x 1000 canvas, first draw r = 0.5: the
    // sampled branch is the [0.01, 0.86) map, the next point is (0, 1.6),
    // and the painted pixel comes from the pre-update point (0,0):
    // pixel_x = 1000 * 3 / 6 = 500, pixel_y = 1000 - 1000 * 2 / 14 = 857.
    let mut fern = Fern::new(1000, 1000).unwrap();
    fern.gen_fern_steps(&vec![500_000_000], 1000, 1000, FERN, BACKGROUND);
    assert_eq!(fern.point.x, 0);
    assert_eq!(fern.point.y, 1_600_000);
    assert_eq!(fern.iterated_count, 1);
    let target = fern.get_render_target();
    assert_eq!(target.get(500, 857), FERN);
    assert_eq!(target.get(500, 856), BACKGROUND);
    assert_eq!(target.get(499, 857), BACKGROUND);
}

#[test]
fn sampler_branch_thresholds() {
    assert_eq!(branch_index(0), 0);
    assert_eq!(branch_index(9_999_999), 0);
    assert_eq!(branch_index(10_000_000), 1);
    assert_eq!(branch_index(859_999_999), 1);
    assert_eq!(branch_index(860_000_000), 2);
    assert_eq!(branch_index(929_999_999), 2);
    assert_eq!(branch_index(930_000_000), 3);
    assert_eq!(branch_index(999_999_999), 3);
}

#[test]
fn sampler_exact_maps() {
    // Each map applied to (1.0, 2.0), in millionths.
    let p = FractalPoint::from_scaled(1_000_000, 2_000_000).unwrap();
    let q0 = sample_step(0, p);
    assert_eq!((q0.x, q0.y), (0, 320_000)); // (0, 0.16 * 2)
    let q1 = sample_step(500_000_000, p);
    assert_eq!((q1.x, q1.y), (930_000, 3_260_000)); // (0.85 + 0.08, -0.04 + 1.7 + 1.6)
    let q2 = sample_step(900_000_000, p);
    assert_eq!((q2.x, q2.y), (-320_000, 2_270_000)); // (0.2 - 0.52, 0.23 + 0.44 + 1.6)
    let q3 = sample_step(950_000_000, p);
    assert_eq!((q3.x, q3.y), (410_000, 1_180_000)); // (-0.15 + 0.56, 0.26 + 0.48 + 0.44)
}

#[test]
fn projection_discards_out_of_range() {
    // x = -3.5 projects to a negative pixel column; x = 3.1 past the right
    // edge; y = -3.0 past the bottom edge. All are discarded, never painted.
    let left = FractalPoint::from_scaled(-3_500_000, 0).unwrap();
    assert_eq!(project(left, 1000, 1000), None);
    let right = FractalPoint::from_scaled(3_100_000, 0).unwrap();
    assert_eq!(project(right, 1000, 1000), None);
    let low = FractalPoint::from_scaled(0, -3_000_000).unwrap();
    assert_eq!(project(low, 1000, 1000), None);
    let inside = FractalPoint::from_scaled(0, 11_000_000).unwrap();
    assert_eq!(project(inside, 1000, 1000), Some((500, 71)));
}

#[test]
fn painted_pixels_stay_in_bounds() {
    // Generation on a tiny canvas: most projections are discarded, and every
    // cell still holds one of the two colors.
    let mut fern = Fern::new(8, 8).unwrap();
    fern.gen_fern(5_000, 8, 8, FERN, BACKGROUND);
    assert_eq!(fern.iterated_count, 5_000);
    let target = fern.get_render_target();
    for row in 0..8 {
        for col in 0..8 {
            let cell = target.get(col, row);
            assert!(cell == FERN || cell == BACKGROUND);
        }
    }
}

#[test]
fn determinism_of_fixed_sequence() {
    let draws = fixed_draws(20_000);
    let mut one = Fern::new(300, 300).unwrap();
    let mut two = Fern::new(300, 300).unwrap();
    one.gen_fern_steps(&draws, 300, 300, FERN, BACKGROUND);
    two.gen_fern_steps(&draws, 300, 300, FERN, BACKGROUND);
    assert_eq!(one.point, two.point);
    assert_eq!(one.iterated_count, two.iterated_count);
    assert_eq!(snapshot(one.get_render_target()), snapshot(two.get_render_target()));
}

#[test]
fn render_target_is_idempotent() {
    let mut fern = Fern::new(200, 200).unwrap();
    fern.gen_fern(10_000, 200, 200, FERN, BACKGROUND);
    let first = snapshot(fern.get_render_target());
    let second = snapshot(fern.get_render_target());
    let third = snapshot(fern.get_render_target());
    assert_eq!(first, second);
    assert_eq!(second, third);
}

#[test]
fn lazy_clear_on_reset() {
    let other_background = Color { r: 19, g: 21, b: 21, a: 255 };
    let mut fern = Fern::new(100, 100).unwrap();
    fern.gen_fern_steps(&fixed_draws(10_000), 100, 100, FERN, BACKGROUND);
    let before = snapshot(fern.get_render_target());
    fern.reset();
    // Reset alone leaves every painted cell visible.
    assert_eq!(snapshot(fern.get_render_target()), before);
    assert_eq!(fern.iterated_count, 0);
    assert_eq!((fern.point.x, fern.point.y), (0, 0));
    // Only the next generation call clears, by filling the new background.
    fern.gen_fern_steps(&vec![], 100, 100, FERN, other_background);
    let after = snapshot(fern.get_render_target());
    assert!(after.iter().all(|cell| *cell == other_background));
}

#[test]
fn generate_zero_is_noop_after_fill() {
    let mut fern = Fern::new(50, 50).unwrap();
    fern.gen_fern_steps(&fixed_draws(1_000), 50, 50, FERN, BACKGROUND);
    let before = snapshot(fern.get_render_target());
    let count = fern.iterated_count;
    let point = fern.point;
    fern.gen_fern(0, 50, 50, FERN, BACKGROUND);
    assert_eq!(snapshot(fern.get_render_target()), before);
    assert_eq!(fern.iterated_count, count);
    assert_eq!(fern.point, point);
}

#[test]
fn generate_zero_still_owes_the_fill() {
    // On a fresh fern the one-time background fill happens even for zero
    // iterations.
    let mut fern = Fern::new(10, 10).unwrap();
    fern.gen_fern(0, 10, 10, FERN, BACKGROUND);
    assert_eq!(fern.iterated_count, 0);
    let target = fern.get_render_target();
    for row in 0..10 {
        for col in 0..10 {
            assert_eq!(target.get(col, row), BACKGROUND);
        }
    }
}

#[test]
fn zero_dimension_is_rejected() {
    assert_eq!(Fern::new(0, 100).err(), Some(FernError::InvalidDimension));
    assert_eq!(Fern::new(100, 0).err(), Some(FernError::InvalidDimension));
    assert_eq!(Canvas::new(0, 0).err(), Some(FernError::InvalidDimension));
    assert!(Canvas::new(1, 1).is_ok());
}

#[test]
fn branch_distribution_converges() {
    // Empirical branch frequencies over ten million draws from the real
    // random source converge to 1%, 85%, 7%, 7% within +/- 0.2%.
    let mut rng = rand::thread_rng();
    let total: u64 = 10_000_000;
    let mut counts: [u64; 4] = [0; 4];
    for _ in 0..total {
        let r: u64 = rng.gen_range(1..1_000_000_000);
        counts[branch_index(r) as usize] += 1;
    }
    let expected: [f64; 4] = [0.01, 0.85, 0.07, 0.07];
    for k in 0..4 {
        let freq = counts[k] as f64 / total as f64;
        assert!(
            (freq - expected[k]).abs() < 0.002,
            "branch {} frequency {} out of tolerance",
            k,
            freq
        );
    }
}

#[test]
fn accumulation_persists_across_calls() {
    // Pixels painted by an earlier call stay painted: generation only adds.
    let mut fern = Fern::new(400, 400).unwrap();
    fern.gen_fern_steps(&fixed_draws(5_000), 400, 400, FERN, BACKGROUND);
    let before = snapshot(fern.get_render_target());
    fern.gen_fern_steps(&fixed_draws(5_000), 400, 400, FERN, BACKGROUND);
    let after = snapshot(fern.get_render_target());
    for (old_cell, new_cell) in before.iter().zip(after.iter()) {
        if *old_cell == FERN {
            assert_eq!(*new_cell, FERN);
        }
    }
    assert_eq!(fern.iterated_count, 10_000);
}
