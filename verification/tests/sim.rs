//! The drive cycle.

use agl_slint_cluster::sim::{SimSource, CYCLE};
use agl_slint_cluster::telemetry::{Beam, Cruise, Lane, Warn};

const SECOND: i128 = 1_000_000;

/// The part of the way made in `dt` seconds.
fn gain(dt: f64) -> i64 {
    ((1.0 - (-dt * 2.5).exp()) * 1e6).round() as i64
}

#[test]
fn the_trace_passes_through_its_points() {
    for (at, speed) in [
        (0, 0),
        (11, 62),
        (22, 68),
        (28, 34),
        (34, 30),
        (45, 118),
        (52, 104),
        (61, 0),
        (65, 0),
        (66, 0),
    ] {
        assert_eq!(
            SimSource::target_speed(at * SECOND),
            speed * SECOND,
            "at {at} s"
        );
    }
    // Half way, a smooth step is half done; a quarter of the way, five of
    // thirty-two parts.
    assert_eq!(SimSource::target_speed(5_500_000), 31 * SECOND);
    assert_eq!(SimSource::target_speed(2_750_000), 9_687_500);
    assert_eq!(SimSource::target_speed(25 * SECOND), 51 * SECOND);
}

#[test]
fn the_trace_repeats_and_stays_in_range() {
    let mut t = 0;
    while t < CYCLE {
        let v = SimSource::target_speed(t);
        assert!((0..=118 * SECOND).contains(&v));
        assert_eq!(SimSource::target_speed(t + CYCLE), v);
        t += 123_457;
    }
}

#[test]
fn just_before_the_start_the_step_is_mirrored() {
    // 62 k^2 (3 - 2 k) for k = -1/44.
    let k: f64 = -1.0 / 44.0;
    let expected = 62.0 * k * k * (3.0 - 2.0 * k);
    let got = SimSource::target_speed(-250_000) as f64 / 1e6;
    assert!((got - expected).abs() < 1e-6);
    // Any earlier time is as long before the start as it is in the cycle.
    assert_eq!(SimSource::target_speed(-5_500_000), 62 * SECOND);
    assert_eq!(SimSource::target_speed(-5_500_000 - 3 * CYCLE), 62 * SECOND);
    assert_eq!(SimSource::target_speed(-CYCLE), 0);
    assert!(SimSource::target_speed(i128::MIN) >= 0);
}

#[test]
fn the_first_poll_is_exact() {
    let mut sim = SimSource::new();
    let t = sim.poll(5_500_000, 500_000);
    // Half of the way to 31 km/h.
    assert_eq!(t.speed_kmh, 15_500_000);
    // 15.5 km/h for 5.5 s.
    assert_eq!(t.odo_km, 12_345_023_681);
    assert_eq!(t.range_km, 560_000_000 - 23_681);
    assert_eq!(t.trip_seconds, 5);
    assert_eq!(t.turn_distance_km, 2_200_000);
    assert!(!t.turn_right);
    assert_eq!(t.battery_level, 849_975);
    assert_eq!(t.fuel_level, 549_983);
    assert_eq!(t.turn_street, "Minatomirai Blvd");
    assert_eq!(t.outside_temp_c, 21);
    assert_eq!(t.cruise_speed_kmh, 80_000_000);
    assert!(t.lta_on && t.lca_on && t.ready);
    assert_eq!(t.gear, 'D');
    assert_eq!(t.headlights, Beam::Low);
    assert_eq!(t.lane, Lane::Tracking);
}

#[test]
fn readings_follow_the_acceleration() {
    let mut sim = SimSource::default();
    let t = sim.poll(5_500_000, 1_000_000);
    assert_eq!(t.speed_kmh, 31_000_000);
    // About 8.45 km/h per second.
    let a = 2.0
        * (SimSource::target_speed(5_750_000) - SimSource::target_speed(5_250_000)) as f64
        / 1e6;
    assert!((t.power as f64 / 1e6 - a / 9.0).abs() < 2e-6);
    assert!((t.efficiency_percent as f64 / 1e6 - (85.0 - 1.6 * a)).abs() < 2e-6);
    assert!((t.avg_efficiency_kwh as f64 / 1e6 - (4.8 - 0.06 * a)).abs() < 2e-6);
    // Braking recovers energy.
    let t = sim.poll(51_000_000, 1_000_000);
    assert!(t.power < 0);
    assert_eq!(t.efficiency_percent, 99_000_000);
    assert_eq!(t.avg_efficiency_kwh, 4_800_000);
}

#[test]
fn cruise_is_held_on_the_open_stretches() {
    let mut sim = SimSource::new();
    // 18 s into the cycle: about 66 km/h and hardly any acceleration.
    let t = sim.poll(18_000_000, 1_000_000);
    assert!(t.speed_kmh > 55_000_000);
    assert_eq!(t.cruise, Cruise::Active);
    // Accelerating hard.
    let t = sim.poll(22_000_000, 1_000_000);
    assert!(t.speed_kmh > 55_000_000);
    assert_eq!(t.cruise, Cruise::Off);
}

#[test]
fn the_indicator_comes_on_as_the_junction_nears() {
    let mut sim = SimSource::new();
    assert!(!sim.poll(33_000_000, 0).turn_right); // 1.2 km
    assert!(sim.poll(1_000_000, 0).turn_right);
    assert!(sim.poll(30_000_000, 0).turn_right);
    assert!(!sim.poll(1_000_000, 0).turn_right); // 36 m
}

#[test]
fn a_whole_cycle_is_plausible() {
    let mut sim = SimSource::new();
    let mut odo = 12_345_000_000;
    let mut last = 0;
    let mut left = (560_000_000, 850_000, 550_000);
    for _ in 0..2 * 66 * 20 {
        let t = sim.poll(50_000, gain(0.05));
        assert!((0..=118_000_000).contains(&t.speed_kmh));
        assert!((-1_000_000..=1_000_000).contains(&t.power));
        assert!((40_000_000..=99_000_000).contains(&t.efficiency_percent));
        assert!((2_000_000..=4_800_000).contains(&t.avg_efficiency_kwh));
        assert!((0..=left.0).contains(&t.range_km));
        assert!((50_000..=left.1).contains(&t.battery_level));
        assert!((20_000..=left.2).contains(&t.fuel_level));
        assert_eq!(
            t.turn_right,
            t.turn_distance_km > 50_000 && t.turn_distance_km < 1_200_000
        );
        assert!(t.cruise == Cruise::Off || t.speed_kmh > 55_000_000);
        assert!((0..=2_400_000).contains(&t.turn_distance_km));
        assert!(t.odo_km >= odo);
        // The needle never jumps.
        assert!((t.speed_kmh - last).abs() < 1_500_000);
        assert_eq!(t.engine, Warn::Off);
        assert!(!t.parking_brake && !t.seatbelt && !t.door_open);
        odo = t.odo_km;
        left = (t.range_km, t.battery_level, t.fuel_level);
        last = t.speed_kmh;
    }
    assert_eq!(sim.poll(0, 0).trip_seconds, 132);
}

#[test]
fn a_very_long_drive_runs_out_gracefully() {
    let mut sim = SimSource::new();
    sim.poll(45_000_000, 1_000_000);
    let t = sim.poll(u64::MAX, 0);
    assert_eq!(t.range_km, 0);
    assert_eq!(t.battery_level, 50_000);
    assert_eq!(t.fuel_level, 20_000);
    assert_eq!(t.trip_seconds, u32::MAX);
    let t = sim.poll(u64::MAX, 0);
    assert_eq!(t.speed_kmh, 118_000_000);
}
