//! What the widgets show.

use agl_slint_cluster::display::{
    apply, blink, clock_face, group_thousands, wall_clock, warn_level,
};
use agl_slint_cluster::telemetry::{Beam, Cruise, Lane, Telemetry, Warn};
use chrono::NaiveTime;

#[test]
fn the_default_frame_is_shown() {
    let p = apply(&Telemetry::default(), true);
    assert_eq!(p.speed, 0);
    assert_eq!(p.charge_angle, -6_000_000);
    assert_eq!(p.efficiency_percent, 85_000_000);
    assert_eq!(p.avg_efficiency, "4.8");
    assert_eq!(p.range_km, "560");
    assert_eq!(p.battery_level, 850_000);
    assert_eq!(p.fuel_level, 550_000);
    assert_eq!(p.outside_temp, "21");
    assert_eq!(p.odo, "12,345");
    assert_eq!(p.drive_time, "00:00");
    assert_eq!(p.turn_distance, "2.4");
    assert_eq!(p.turn_street, "Minatomirai Blvd");
    assert_eq!(p.cruise_speed, "80");
    assert_eq!(p.gear, "D");
    assert!(p.lta_on && p.lca_on && p.ready);
    assert!(!p.turn_left_on && !p.turn_right_on);
    assert_eq!(
        [
            p.tt_lights,
            p.tt_engine,
            p.tt_oil,
            p.tt_battery,
            p.tt_abs,
            p.tt_parking_brake,
            p.tt_seatbelt,
            p.tt_door,
            p.tt_cruise,
            p.tt_lane,
        ],
        [0; 10]
    );
}

#[test]
fn every_lamp_has_its_level() {
    let t = Telemetry {
        headlights: Beam::High,
        engine: Warn::Amber,
        oil: Warn::Red,
        battery_warn: Warn::Amber,
        abs: Warn::Red,
        parking_brake: true,
        seatbelt: true,
        door_open: true,
        cruise: Cruise::Armed,
        lane: Lane::Depart,
        turn_left: true,
        turn_right: false,
        ..Telemetry::default()
    };
    let p = apply(&t, true);
    assert_eq!(
        [
            p.tt_lights,
            p.tt_engine,
            p.tt_oil,
            p.tt_battery,
            p.tt_abs,
            p.tt_parking_brake,
            p.tt_seatbelt,
            p.tt_door,
            p.tt_cruise,
            p.tt_lane,
        ],
        [2, 1, 2, 1, 2, 1, 1, 1, 1, 3]
    );
    assert!(p.turn_left_on && !p.turn_right_on);
    assert!(!apply(&t, false).turn_left_on);
    assert_eq!(warn_level(Warn::Off), 0);
}

#[test]
fn the_dial_has_stops() {
    let at = |power: i64| {
        let t = Telemetry {
            power,
            ..Telemetry::default()
        };
        apply(&t, false).charge_angle
    };
    assert_eq!(at(1_000_000), 112_000_000);
    assert_eq!(at(-1_000_000), -124_000_000);
    assert_eq!(at(500_000), 53_000_000);
    assert_eq!(at(2_000_000), 138_000_000);
    assert_eq!(at(i64::MIN), -138_000_000);
}

#[test]
fn distances_have_one_decimal() {
    let shown = |turn_distance_km: i64| {
        let t = Telemetry {
            turn_distance_km,
            ..Telemetry::default()
        };
        apply(&t, false).turn_distance
    };
    assert_eq!(shown(0), "0.0");
    assert_eq!(shown(49_999), "0.0");
    assert_eq!(shown(50_001), "0.1");
    assert_eq!(shown(999_999), "1.0");
    assert_eq!(shown(12_340_000), "12.3");
    // Halves that single precision holds exactly go to the even digit.
    assert_eq!(shown(250_000), "0.2");
    assert_eq!(shown(750_000), "0.8");
    // Others go to the side on which the nearest number is.
    assert_eq!(shown(350_000), "0.3");
    assert_eq!(shown(2_450_000), "2.5");
    assert_eq!(shown(-1_260_000), "-1.3");
    assert_eq!(shown(-10_000), "-0.0");
    for k in -40_000..40_000i64 {
        let n = 2_500 * k + k % 3;
        let x = (n as f64 / 1e6) as f32;
        assert_eq!(shown(n), format!("{x:.1}"), "{n}");
    }
    for n in [i64::MAX, i64::MIN + 1, 16_777_217_000_000, 4_294_967_295_999_999] {
        let x = (n as f64 / 1e6) as f32;
        assert_eq!(shown(n), format!("{x:.1}"), "{n}");
    }
}

#[test]
fn whole_units_are_those_of_single_precision() {
    let shown = |range_km: i64| {
        let t = Telemetry {
            range_km,
            odo_km: range_km,
            cruise_speed_kmh: range_km,
            ..Telemetry::default()
        };
        let p = apply(&t, false);
        assert_eq!(p.range_km, p.cruise_speed);
        assert_eq!(p.range_km, p.odo.replace(',', ""));
        p.range_km
    };
    assert_eq!(shown(999_999), "0");
    assert_eq!(shown(321_999_000), "321");
    assert_eq!(shown(321_999_999), "322");
    assert_eq!(shown(16_777_215_000_000), "16777215");
    assert_eq!(shown(16_777_217_000_000), "16777216");
    assert_eq!(shown(-5_000_000), "0");
    assert_eq!(shown(i64::MAX), "4294967295");
    for k in 0..40_000i64 {
        let n = 1_000_003 * k - k % 7;
        let x = (n as f64 / 1e6) as f32;
        assert_eq!(shown(n), format!("{}", x as u32), "{n}");
    }
}

#[test]
fn counters_are_cut_to_whole_units() {
    let t = Telemetry {
        range_km: 321_900_000,
        cruise_speed_kmh: -5,
        odo_km: 1_234_567_890_000,
        outside_temp_c: -12,
        trip_seconds: 3_723,
        gear: 'é',
        ..Telemetry::default()
    };
    let p = apply(&t, false);
    assert_eq!(p.range_km, "321");
    assert_eq!(p.cruise_speed, "0");
    assert_eq!(p.odo, "1,234,567");
    assert_eq!(p.outside_temp, "-12");
    assert_eq!(p.drive_time, "62:03");
    assert_eq!(p.gear, "é");
    let t = Telemetry {
        odo_km: i64::MAX,
        outside_temp_c: i32::MIN,
        trip_seconds: u32::MAX,
        ..Telemetry::default()
    };
    let p = apply(&t, false);
    assert_eq!(p.odo, "4,294,967,295");
    assert_eq!(p.outside_temp, "-2147483648");
    assert_eq!(p.drive_time, "71582788:15");
}

#[test]
fn thousands_are_grouped() {
    for (n, s) in [
        (0, "0"),
        (7, "7"),
        (999, "999"),
        (1_000, "1,000"),
        (10_050, "10,050"),
        (100_000, "100,000"),
        (1_000_000, "1,000,000"),
        (u32::MAX, "4,294,967,295"),
    ] {
        assert_eq!(group_thousands(n), s);
        assert_eq!(group_thousands(n).replace(',', ""), n.to_string());
        for (i, c) in s.chars().enumerate() {
            assert_eq!(c == ',', (s.len() - i) % 4 == 0);
        }
    }
}

#[test]
fn indicators_blink_every_eight_ticks() {
    let lit: Vec<bool> = (0..32).map(blink).collect();
    for (i, on) in lit.iter().enumerate() {
        assert_eq!(*on, i / 8 == 0 || i / 8 == 2);
    }
}

#[test]
fn the_clock_shows_hours_and_minutes() {
    for (h, m, s) in [(0, 0, 0), (7, 5, 59), (12, 30, 1), (23, 59, 59)] {
        let now = NaiveTime::from_hms_opt(h, m, s).unwrap();
        assert_eq!(wall_clock(&now), now.format("%H:%M").to_string());
    }
    assert_eq!(
        wall_clock(&NaiveTime::from_hms_opt(9, 41, 0).unwrap()),
        "09:41"
    );
    assert_eq!(clock_face(123, 4), "123:04");
}
