// Tests of the weight normalizer, the patch statistical aggregator,
// the effective radius calculator and the vector primitives.
// Raw fixed-point values: 1_000_000 is one physical unit.

use tire_core::conv::TuningConventions;
use tire_core::normalize::normalize_weights;
use tire_core::patch::{aggregate_patch, ContactSample};
use tire_core::radius::{compute_effective_radius, compute_effective_radius_with};
use tire_core::vec3::Vec3;

fn sample(weight: i128, penetration: i128) -> ContactSample {
    ContactSample { weight, penetration, slip_x: 0, slip_y: 0 }
}

#[test]
fn normalizer_output_sums_to_one_unit() {
    let weights: Vec<i128> = vec![1_000_000, 3_000_000];
    let out = normalize_weights(&weights, TuningConventions::default());
    assert_eq!(out, vec![250_000, 750_000]);
    let total: i128 = out.iter().sum();
    assert_eq!(total, 1_000_000);
}

#[test]
fn normalizer_uneven_split_sums_within_truncation_loss() {
    let weights: Vec<i128> = vec![1_000_000, 1_000_000, 1_000_000];
    let out = normalize_weights(&weights, TuningConventions::default());
    let total: i128 = out.iter().sum();
    // Each of the three entries may lose under one raw unit.
    assert!(total <= 1_000_000 && total > 1_000_000 - 3);
    assert_eq!(out, vec![333_333, 333_333, 333_333]);
}

#[test]
fn normalizer_all_zero_weights_give_zeros() {
    let weights: Vec<i128> = vec![0, 0, 0];
    let out = normalize_weights(&weights, TuningConventions::default());
    assert_eq!(out, vec![0, 0, 0]);
}

#[test]
fn normalizer_all_below_threshold_give_zeros() {
    let conv = TuningConventions::new(1, 100, 500_000, 0);
    let weights: Vec<i128> = vec![400_000, 100_000, 500_000];
    let out = normalize_weights(&weights, conv);
    assert_eq!(out, vec![0, 0, 0]);
}

#[test]
fn normalizer_tiny_qualifying_mass_gives_zeros() {
    // One raw unit of weight is within epsilon: degenerate, all zero.
    let weights: Vec<i128> = vec![1];
    let out = normalize_weights(&weights, TuningConventions::default());
    assert_eq!(out, vec![0]);
}

#[test]
fn normalizer_negative_weights_do_not_qualify() {
    let weights: Vec<i128> = vec![-2_000_000, 2_000_000];
    let out = normalize_weights(&weights, TuningConventions::default());
    assert_eq!(out, vec![0, 1_000_000]);
}

#[test]
fn patch_empty_sample_list_gives_zero_aggregate() {
    let samples: Vec<ContactSample> = vec![];
    let out = aggregate_patch(&samples, TuningConventions::default());
    assert_eq!(out.contact_confidence, 0);
    assert_eq!(out.penetration_avg, 0);
    assert_eq!(out.penetration_max, 0);
    assert_eq!(out.slip_x_avg, 0);
    assert_eq!(out.slip_y_avg, 0);
}

#[test]
fn patch_half_contact_gives_half_confidence() {
    // Two equal weights, one sample in contact: confidence one half.
    let samples = vec![sample(1_000_000, 20_000), sample(1_000_000, 0)];
    let out = aggregate_patch(&samples, TuningConventions::default());
    assert_eq!(out.contact_confidence, 500_000);
    // Weighted penetration average: 0.5 * 0.02 = 0.01.
    assert_eq!(out.penetration_avg, 10_000);
    assert_eq!(out.penetration_max, 20_000);
}

#[test]
fn patch_max_penetration_dominates_average() {
    let samples = vec![
        sample(1_000_000, 30_000),
        sample(2_000_000, 10_000),
        sample(1_000_000, 0),
    ];
    let out = aggregate_patch(&samples, TuningConventions::default());
    assert!(out.penetration_max >= out.penetration_avg);
    assert_eq!(out.penetration_max, 30_000);
}

#[test]
fn patch_threshold_above_all_penetrations_zeroes_confidence() {
    let samples = vec![sample(1_000_000, 20_000), sample(1_000_000, 15_000)];
    let conv = TuningConventions::new(1, 100, 0, 50_000);
    let out = aggregate_patch(&samples, conv);
    assert_eq!(out.contact_confidence, 0);
}

#[test]
fn patch_slip_averages_are_weighted() {
    let samples = vec![
        ContactSample { weight: 1_000_000, penetration: 10_000, slip_x: 200_000, slip_y: -100_000 },
        ContactSample { weight: 1_000_000, penetration: 10_000, slip_x: 400_000, slip_y: -300_000 },
    ];
    let out = aggregate_patch(&samples, TuningConventions::default());
    assert_eq!(out.slip_x_avg, 300_000);
    assert_eq!(out.slip_y_avg, -200_000);
}

#[test]
fn effective_radius_compresses_under_load() {
    // 0.34 nominal, 0.27 floor, 4200 load, 120000 stiffness.
    let r = compute_effective_radius(340_000, 270_000, 4_200_000_000, 120_000_000_000);
    assert!((270_000..=340_000).contains(&r));
    // Compression 4200/120000 = 0.035.
    assert_eq!(r, 305_000);
}

#[test]
fn effective_radius_degenerate_tire_gives_zero() {
    let r = compute_effective_radius(0, 0, 4_200_000_000, 120_000_000_000);
    assert_eq!(r, 0);
    let r2 = compute_effective_radius(-100_000, -100_000, 1_000_000, 1_000_000);
    assert_eq!(r2, 0);
}

#[test]
fn effective_radius_clamped_at_floor_under_heavy_load() {
    let r = compute_effective_radius(340_000, 270_000, 1_000_000_000_000, 1_000_000);
    assert_eq!(r, 270_000);
}

#[test]
fn effective_radius_zero_load_keeps_nominal_radius() {
    let r = compute_effective_radius(340_000, 270_000, 0, 120_000_000_000);
    assert_eq!(r, 340_000);
    let r2 = compute_effective_radius(340_000, 270_000, -5_000_000, 120_000_000_000);
    assert_eq!(r2, 340_000);
}

#[test]
fn effective_radius_stiffness_floored_by_conventions() {
    // Stiffness below the floor is raised to it: 1.0 / 0.0001 = 10000
    // of compression capped at the radius, then clamped to the floor.
    let conv = TuningConventions::default();
    let r = compute_effective_radius_with(340_000, 270_000, 1_000_000, 0, conv);
    assert_eq!(r, 270_000);
}

#[test]
fn vec3_cross_and_length_are_exact() {
    let x = Vec3::new(1_000_000, 0, 0);
    let y = Vec3::new(0, 1_000_000, 0);
    assert_eq!(x.cross(y), Vec3::new(0, 0, 1_000_000));
    let v = Vec3::new(3_000_000, 4_000_000, 0);
    assert_eq!(v.length(), 5_000_000);
    assert_eq!(v.add(x), Vec3::new(4_000_000, 4_000_000, 0));
    assert_eq!(v.sub(x), Vec3::new(2_000_000, 4_000_000, 0));
    assert_eq!(v.mul(500_000), Vec3::new(1_500_000, 2_000_000, 0));
}
