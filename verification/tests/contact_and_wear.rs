// Tests of the contact aggregator and the wear/thermal stepper.
// Raw fixed-point values: 1_000_000 is one physical unit.

use tire_core::vec3::Vec3;
use tire_core::contact::tire_aggregate_contacts;
use tire_core::wear::{tire_step_wear_and_temperature, WearStepInput};

#[test]
fn aggregate_returns_data_for_basic_inputs() {
    let points = vec![
        Vec3::new(0, -200_000, 0),
        Vec3::new(100_000, -200_000, 0),
    ];
    let normals = vec![
        Vec3::new(0, 1_000_000, 0),
        Vec3::new(0, 1_000_000, 0),
    ];
    let forces: Vec<i128> = vec![2_000_000_000, 1_800_000_000];
    let grips: Vec<i128> = vec![1_000_000, 900_000];

    let out = tire_aggregate_contacts(
        Some(&points),
        Some(&normals),
        Some(&forces),
        Some(&grips),
        points.len(),
        Vec3::default(),
        15_000_000_000,
    );

    assert!(out.total_force.y > 0);
    assert!(out.contact_area > 0);
    assert!(out.max_pressure >= 2_000_000_000);
}

#[test]
fn aggregate_exact_totals_for_basic_inputs() {
    let points = vec![
        Vec3::new(0, -200_000, 0),
        Vec3::new(100_000, -200_000, 0),
    ];
    let normals = vec![
        Vec3::new(0, 1_000_000, 0),
        Vec3::new(0, 1_000_000, 0),
    ];
    let forces: Vec<i128> = vec![2_000_000_000, 1_800_000_000];
    let grips: Vec<i128> = vec![1_000_000, 900_000];

    let out = tire_aggregate_contacts(
        Some(&points),
        Some(&normals),
        Some(&forces),
        Some(&grips),
        2,
        Vec3::default(),
        15_000_000_000,
    );

    // Vertical force is not grip-attenuated: 2000 + 1800 units.
    assert_eq!(out.total_force.y, 3_800_000_000);
    assert_eq!(out.total_force.x, 0);
    assert_eq!(out.total_force.z, 0);
    // Area: 2000/15000 + 1800/15000, truncated per contact.
    assert_eq!(out.contact_area, 133_333 + 120_000);
    assert_eq!(out.max_pressure, 2_000_000_000);
    // Centroid of the two points.
    assert_eq!(out.average_position, Vec3::new(50_000, -200_000, 0));
}

#[test]
fn aggregate_null_point_buffer_returns_zero() {
    let normals = vec![Vec3::new(0, 1_000_000, 0), Vec3::new(0, 1_000_000, 0)];
    let forces: Vec<i128> = vec![2_000_000_000, 1_800_000_000];
    let grips: Vec<i128> = vec![1_000_000, 900_000];

    let out = tire_aggregate_contacts(
        None,
        Some(&normals),
        Some(&forces),
        Some(&grips),
        2,
        Vec3::default(),
        15_000_000_000,
    );

    assert_eq!(out.total_force, Vec3::new(0, 0, 0));
    assert_eq!(out.total_torque, Vec3::new(0, 0, 0));
    assert_eq!(out.average_position, Vec3::new(0, 0, 0));
    assert_eq!(out.contact_area, 0);
    assert_eq!(out.max_pressure, 0);
    assert_eq!(out.weighted_grip, 0);
}

#[test]
fn aggregate_zero_count_returns_zero() {
    let points: Vec<Vec3> = vec![];
    let normals: Vec<Vec3> = vec![];
    let forces: Vec<i128> = vec![];
    let grips: Vec<i128> = vec![];
    let out = tire_aggregate_contacts(
        Some(&points),
        Some(&normals),
        Some(&forces),
        Some(&grips),
        0,
        Vec3::default(),
        1_000_000,
    );
    assert_eq!(out.contact_area, 0);
    assert_eq!(out.weighted_grip, 0);
    assert_eq!(out.max_pressure, 0);
}

#[test]
fn aggregate_zero_force_gives_unit_weighted_grip() {
    let points = vec![Vec3::new(0, 0, 0)];
    let normals = vec![Vec3::new(0, 1_000_000, 0)];
    let forces: Vec<i128> = vec![0];
    let grips: Vec<i128> = vec![900_000];
    let out = tire_aggregate_contacts(
        Some(&points),
        Some(&normals),
        Some(&forces),
        Some(&grips),
        1,
        Vec3::default(),
        1_000_000,
    );
    // No force magnitude: nominal grip of one unit.
    assert_eq!(out.weighted_grip, 1_000_000);
}

#[test]
fn aggregate_torque_of_offset_contact() {
    // One contact one unit along x, force along y: torque is about z.
    let points = vec![Vec3::new(1_000_000, 0, 0)];
    let normals = vec![Vec3::new(0, 1_000_000, 0)];
    let forces: Vec<i128> = vec![2_000_000_000];
    let grips: Vec<i128> = vec![1_000_000];
    let out = tire_aggregate_contacts(
        Some(&points),
        Some(&normals),
        Some(&forces),
        Some(&grips),
        1,
        Vec3::default(),
        1_000_000,
    );
    // lever (1,0,0) x force (0,2000,0) = (0,0,2000).
    assert_eq!(out.total_torque, Vec3::new(0, 0, 2_000_000_000));
}

fn sample_wear_input() -> WearStepInput {
    WearStepInput {
        wheel_slip_ratio: 120_000,
        wheel_slip_angle: 80_000,
        max_pressure: 3_200_000_000,
        total_force_magnitude: 4_100_000_000,
        current_tire_wear: 200_000,
        base_wear_rate: 1_000,
        base_heat_generation: 150_000,
        cooling_rate: 20_000,
        ambient_temperature: 22_000_000,
        surface_temperature: 65_000_000,
        core_temperature: 58_000_000,
        delta: 16_667,
    }
}

#[test]
fn wear_step_is_deterministic_for_same_input() {
    let input = sample_wear_input();

    let a = tire_step_wear_and_temperature(input);
    let b = tire_step_wear_and_temperature(input);

    assert_eq!(a, b);
}

#[test]
fn wear_step_exact_wear_for_sample_input() {
    // wear factor: 1 + 5*0.12 + 3*0.08 = 1.84; rate: 0.001 * 1.84 = 0.00184;
    // pressure share 0.32: rate 0.0005888; one 1/60 step adds ~0.0000098.
    let out = tire_step_wear_and_temperature(sample_wear_input());
    assert_eq!(out.tire_wear, 200_000 + 9);
    assert!(out.surface_temperature > 65_000_000 - 20_000);
    assert!(out.core_temperature > 58_000_000 - 20_000);
}

#[test]
fn wear_step_clamps_wear_to_one() {
    let mut input = sample_wear_input();
    input.current_tire_wear = 999_000;
    input.base_wear_rate = 10_000_000_000;
    input.max_pressure = 10_000_000_000;
    input.delta = 1_000_000;
    let out = tire_step_wear_and_temperature(input);
    assert_eq!(out.tire_wear, 1_000_000);
}

#[test]
fn wear_step_clamps_wear_to_zero() {
    let mut input = sample_wear_input();
    input.current_tire_wear = 0;
    input.base_wear_rate = -10_000_000_000;
    input.max_pressure = 10_000_000_000;
    input.delta = 1_000_000;
    let out = tire_step_wear_and_temperature(input);
    assert_eq!(out.tire_wear, 0);
}

#[test]
fn wear_step_cooling_pulls_surface_toward_ambient() {
    let mut input = sample_wear_input();
    // No heat generation: only cooling acts, surface above ambient.
    input.base_heat_generation = 0;
    input.base_wear_rate = 0;
    let out = tire_step_wear_and_temperature(input);
    assert!(out.surface_temperature < 65_000_000);
    assert!(out.core_temperature < 58_000_000);
}
