//! The VSS mapping, there and back.

use agl_slint_cluster::kuksa::{
    apply, changed, datapoint, fold, path, signals, Datapoint, Signal, Signals, TypedValue, Value,
    PATHS,
};
use agl_slint_cluster::telemetry::{Beam, Cruise, Lane, Telemetry, Warn};

fn micro(x: f64) -> i64 {
    (x * 1e6).round() as i64
}

fn units(x: i64) -> f32 {
    (x as f64 / 1e6) as f32
}

fn roundtrip(t: &Telemetry) -> Telemetry {
    let mut out = Telemetry::default();
    let mut sig = Signals::default();
    for (path, v) in signals(t) {
        assert!(PATHS.contains(&path), "{path} is not subscribed");
        assert!(apply(&mut out, &mut sig, path, &v), "{path} rejected");
    }
    out
}

fn busy() -> Telemetry {
    Telemetry {
        speed_kmh: micro(123.45),
        power: micro(-0.4),
        range_km: micro(321.0),
        battery_level: micro(0.42),
        fuel_level: micro(0.07),
        outside_temp_c: -12,
        odo_km: micro(98_765.4),
        trip_seconds: 3_723,
        cruise_speed_kmh: micro(100.0),
        lta_on: true,
        gear: 'R',
        ready: false,
        turn_left: true,
        headlights: Beam::High,
        engine: Warn::Amber,
        oil: Warn::Red,
        battery_warn: Warn::Amber,
        abs: Warn::Red,
        parking_brake: true,
        seatbelt: true,
        door_open: true,
        cruise: Cruise::Armed,
        lane: Lane::Warn,
        ..Telemetry::default()
    }
}

#[test]
fn every_mapped_field_roundtrips() {
    let t = busy();
    let r = roundtrip(&t);
    assert!((units(r.speed_kmh) - units(t.speed_kmh)).abs() < 1e-3);
    assert!((units(r.power) - units(t.power)).abs() < 0.01);
    assert!((units(r.range_km) - units(t.range_km)).abs() < 1e-3);
    assert!((units(r.battery_level) - units(t.battery_level)).abs() < 1e-3);
    assert!((units(r.fuel_level) - units(t.fuel_level)).abs() < 0.006);
    assert_eq!(r.outside_temp_c, t.outside_temp_c);
    assert!((units(r.odo_km) - units(t.odo_km)).abs() < 0.01);
    assert_eq!(r.trip_seconds, t.trip_seconds);
    assert_eq!(r.cruise_speed_kmh, t.cruise_speed_kmh);
    assert_eq!(r.lta_on, t.lta_on);
    assert_eq!(r.gear, t.gear);
    assert_eq!(r.ready, t.ready);
    assert_eq!(r.turn_left, t.turn_left);
    assert_eq!(r.turn_right, t.turn_right);
    assert_eq!(r.headlights, t.headlights);
    assert_eq!(r.engine, t.engine);
    assert_eq!(r.oil, t.oil);
    assert_eq!(r.battery_warn, t.battery_warn);
    assert_eq!(r.abs, t.abs);
    assert_eq!(r.parking_brake, t.parking_brake);
    assert_eq!(r.seatbelt, t.seatbelt);
    assert_eq!(r.door_open, t.door_open);
    assert_eq!(r.cruise, t.cruise);
    assert_eq!(r.lane, t.lane);
}

#[test]
fn numeric_signals_accept_any_numeric_encoding() {
    let mut t = Telemetry::default();
    let mut s = Signals::default();
    assert!(apply(
        &mut t,
        &mut s,
        "Vehicle.Speed",
        &TypedValue::Double(micro(50.0))
    ));
    assert_eq!(t.speed_kmh, micro(50.0));
    assert!(apply(
        &mut t,
        &mut s,
        "Vehicle.Powertrain.Range",
        &TypedValue::Uint32(250_000)
    ));
    assert_eq!(t.range_km, micro(250.0));
    assert!(!apply(
        &mut t,
        &mut s,
        "Vehicle.Speed",
        &TypedValue::String("fast".into())
    ));
    assert_eq!(t.speed_kmh, micro(50.0));
}

#[test]
fn derived_fields_follow_their_last_inputs() {
    let mut t = Telemetry::default();
    let mut s = Signals::default();
    // Any open door lights the lamp; it stays lit until all are closed.
    apply(
        &mut t,
        &mut s,
        "Vehicle.Cabin.Door.Row2.PassengerSide.IsOpen",
        &TypedValue::Bool(true),
    );
    apply(
        &mut t,
        &mut s,
        "Vehicle.Cabin.Door.Row1.DriverSide.IsOpen",
        &TypedValue::Bool(true),
    );
    apply(
        &mut t,
        &mut s,
        "Vehicle.Cabin.Door.Row1.DriverSide.IsOpen",
        &TypedValue::Bool(false),
    );
    assert!(t.door_open);
    apply(
        &mut t,
        &mut s,
        "Vehicle.Cabin.Door.Row2.PassengerSide.IsOpen",
        &TypedValue::Bool(false),
    );
    assert!(!t.door_open);
    // Power is normalised by MaxPower once it is known.
    apply(
        &mut t,
        &mut s,
        "Vehicle.Powertrain.ElectricMotor.Power",
        &TypedValue::Int32(-75),
    );
    assert_eq!(t.power, micro(-0.5));
    apply(
        &mut t,
        &mut s,
        "Vehicle.Powertrain.ElectricMotor.MaxPower",
        &TypedValue::Uint32(300),
    );
    assert_eq!(t.power, micro(-0.25));
    // High beam wins over low beam while both are on.
    apply(
        &mut t,
        &mut s,
        "Vehicle.Body.Lights.Beam.Low.IsOn",
        &TypedValue::Bool(true),
    );
    apply(
        &mut t,
        &mut s,
        "Vehicle.Body.Lights.Beam.High.IsOn",
        &TypedValue::Bool(true),
    );
    assert_eq!(t.headlights, Beam::High);
    apply(
        &mut t,
        &mut s,
        "Vehicle.Body.Lights.Beam.High.IsOn",
        &TypedValue::Bool(false),
    );
    assert_eq!(t.headlights, Beam::Low);
}

#[test]
fn unknown_paths_are_ignored() {
    let mut t = Telemetry::default();
    let mut s = Signals::default();
    assert!(!apply(
        &mut t,
        &mut s,
        "Vehicle.Cabin.Sunroof.Position",
        &TypedValue::Int32(3)
    ));
    assert_eq!(format!("{t:?}"), format!("{:?}", Telemetry::default()));
}

fn applied(path: &str, v: TypedValue) -> Telemetry {
    let mut t = Telemetry::default();
    let mut s = Signals::default();
    assert!(apply(&mut t, &mut s, path, &v), "{path} rejected");
    t
}

#[test]
fn every_path_is_listed_once() {
    assert_eq!(PATHS.len(), 30);
    for (i, p) in PATHS.iter().enumerate() {
        assert!(!PATHS[..i].contains(p), "{p} twice");
    }
    assert_eq!(path(Signal::Speed), "Vehicle.Speed");
    assert_eq!(
        path(Signal::RearPassengerDoor),
        "Vehicle.Cabin.Door.Row2.PassengerSide.IsOpen"
    );
}

#[test]
fn gears_have_their_numbers() {
    let gear = "Vehicle.Powertrain.Transmission.SelectedGear";
    assert_eq!(applied(gear, TypedValue::Int32(126)).gear, 'P');
    assert_eq!(applied(gear, TypedValue::Int32(127)).gear, 'D');
    assert_eq!(applied(gear, TypedValue::Int32(0)).gear, 'N');
    assert_eq!(applied(gear, TypedValue::Int32(-2)).gear, 'R');
    assert_eq!(applied(gear, TypedValue::Int32(3)).gear, 'D');
    assert_eq!(applied(gear, TypedValue::Float(micro(-0.5))).gear, 'N');
    assert_eq!(applied(gear, TypedValue::Float(micro(126.9))).gear, 'P');
}

#[test]
fn the_twelve_volt_lamp_has_two_thresholds() {
    let volts = "Vehicle.LowVoltageBattery.CurrentVoltage";
    let at = |v: f64| applied(volts, TypedValue::Float(micro(v))).battery_warn;
    assert_eq!(at(10.99), Warn::Red);
    assert_eq!(at(11.0), Warn::Amber);
    assert_eq!(at(11.79), Warn::Amber);
    assert_eq!(at(11.8), Warn::Off);
}

#[test]
fn words_have_their_meaning() {
    let state = "Vehicle.LowVoltageSystemState";
    let oil = "Vehicle.Powertrain.CombustionEngine.EngineOilLevel";
    let text = |s: &str| TypedValue::String(s.into());
    assert!(applied(state, text("ON")).ready);
    assert!(applied(state, text("START")).ready);
    assert!(!applied(state, text("ACC")).ready);
    assert_eq!(applied(oil, text("CRITICALLY_LOW")).oil, Warn::Red);
    assert_eq!(applied(oil, text("LOW")).oil, Warn::Amber);
    assert_eq!(applied(oil, text("NORMAL")).oil, Warn::Off);
    assert_eq!(applied(oil, text("low")).oil, Warn::Off);
}

#[test]
fn numbers_are_brought_into_range() {
    let soc = "Vehicle.Powertrain.TractionBattery.StateOfCharge.Current";
    assert_eq!(
        applied(soc, TypedValue::Float(micro(42.5))).battery_level,
        micro(0.425)
    );
    assert_eq!(
        applied(soc, TypedValue::Int64(i64::MAX)).battery_level,
        micro(1.0)
    );
    assert_eq!(applied(soc, TypedValue::Int32(-3)).battery_level, 0);
    let trip = "Vehicle.TripDuration";
    assert_eq!(
        applied(trip, TypedValue::Float(micro(12.9))).trip_seconds,
        12
    );
    assert_eq!(applied(trip, TypedValue::Int32(-9)).trip_seconds, 0);
    assert_eq!(
        applied(trip, TypedValue::Uint64(u64::MAX)).trip_seconds,
        u32::MAX
    );
    let air = "Vehicle.Exterior.AirTemperature";
    assert_eq!(
        applied(air, TypedValue::Float(micro(-0.5))).outside_temp_c,
        -1
    );
    assert_eq!(
        applied(air, TypedValue::Float(micro(20.49))).outside_temp_c,
        20
    );
    assert_eq!(
        applied("Vehicle.Speed", TypedValue::Uint64(u64::MAX)).speed_kmh,
        i64::MAX
    );
}

#[test]
fn power_is_clamped_and_a_useless_maximum_is_ignored() {
    let mut t = Telemetry::default();
    let mut s = Signals::default();
    let motor = path(Signal::MotorPower);
    let max = path(Signal::MaxPower);
    assert!(apply(&mut t, &mut s, motor, &TypedValue::Int32(400)));
    assert_eq!(t.power, micro(1.0));
    assert!(apply(&mut t, &mut s, max, &TypedValue::Uint32(800)));
    assert_eq!(t.power, micro(0.5));
    // Not positive: back to the default of 150 kW.
    assert!(apply(&mut t, &mut s, max, &TypedValue::Int32(0)));
    assert_eq!(t.power, micro(1.0));
    assert!(apply(&mut t, &mut s, motor, &TypedValue::Int32(-15)));
    assert_eq!(t.power, micro(-0.1));
}

#[test]
fn flags_and_texts_take_nothing_else() {
    let mut t = Telemetry::default();
    let mut s = Signals::default();
    for p in PATHS {
        assert!(!apply(&mut t, &mut s, p, &TypedValue::Array), "{p}");
    }
    assert!(!apply(
        &mut t,
        &mut s,
        path(Signal::TurnLeft),
        &TypedValue::Int32(1)
    ));
    assert!(!apply(
        &mut t,
        &mut s,
        path(Signal::OilLevel),
        &TypedValue::Bool(true)
    ));
    assert_eq!(format!("{t:?}"), format!("{:?}", Telemetry::default()));
}

#[test]
fn cruise_and_lane_follow_both_their_flags() {
    let mut t = Telemetry::default();
    let mut s = Signals::default();
    let on = TypedValue::Bool(true);
    let off = TypedValue::Bool(false);
    apply(&mut t, &mut s, path(Signal::CruiseEnabled), &on);
    assert_eq!(t.cruise, Cruise::Armed);
    apply(&mut t, &mut s, path(Signal::CruiseActive), &on);
    assert_eq!(t.cruise, Cruise::Active);
    apply(&mut t, &mut s, path(Signal::CruiseEnabled), &off);
    assert_eq!(t.cruise, Cruise::Active);
    apply(&mut t, &mut s, path(Signal::CruiseActive), &off);
    assert_eq!(t.cruise, Cruise::Off);
    apply(&mut t, &mut s, path(Signal::LaneWarning), &on);
    assert_eq!(t.lane, Lane::Off);
    apply(&mut t, &mut s, path(Signal::LaneEnabled), &on);
    assert_eq!(t.lane, Lane::Warn);
    assert!(t.lta_on);
    apply(&mut t, &mut s, path(Signal::LaneWarning), &off);
    assert_eq!(t.lane, Lane::Tracking);
    apply(&mut t, &mut s, path(Signal::LaneEnabled), &off);
    assert!(!t.lta_on);
}

#[test]
fn signals_are_typed_as_the_broker_expects() {
    let list = signals(&busy());
    assert_eq!(list.len(), 27);
    let value = |p: &str| {
        list.iter()
            .find(|(q, _)| *q == p)
            .map(|(_, v)| v.clone())
            .unwrap_or_else(|| panic!("{p} is missing"))
    };
    assert_eq!(value("Vehicle.Speed"), TypedValue::Float(micro(123.45)));
    assert_eq!(
        value("Vehicle.TripDuration"),
        TypedValue::Float(micro(3_723.0))
    );
    assert_eq!(
        value("Vehicle.LowVoltageSystemState"),
        TypedValue::String("ACC".into())
    );
    assert_eq!(
        value("Vehicle.LowVoltageBattery.CurrentVoltage"),
        TypedValue::Float(micro(11.5))
    );
    assert_eq!(
        value("Vehicle.Powertrain.Range"),
        TypedValue::Uint32(321_000)
    );
    assert_eq!(
        value("Vehicle.Powertrain.TractionBattery.StateOfCharge.Current"),
        TypedValue::Float(micro(42.0))
    );
    assert_eq!(
        value("Vehicle.Powertrain.FuelSystem.RelativeLevel"),
        TypedValue::Uint32(7)
    );
    assert_eq!(
        value("Vehicle.Powertrain.ElectricMotor.MaxPower"),
        TypedValue::Uint32(150)
    );
    assert_eq!(
        value("Vehicle.Powertrain.ElectricMotor.Power"),
        TypedValue::Int32(-60)
    );
    assert_eq!(
        value("Vehicle.Powertrain.Transmission.SelectedGear"),
        TypedValue::Int32(-1)
    );
    assert_eq!(
        value("Vehicle.Cabin.Seat.Row1.DriverSide.IsBelted"),
        TypedValue::Bool(false)
    );
}

#[test]
fn what_has_no_counterpart_is_lost_as_documented() {
    let t = Telemetry {
        engine: Warn::Red,
        abs: Warn::Amber,
        lane: Lane::Depart,
        gear: '3',
        efficiency_percent: micro(50.0),
        turn_street: "Elsewhere".into(),
        ..Telemetry::default()
    };
    let r = roundtrip(&t);
    assert_eq!(r.engine, Warn::Amber);
    assert_eq!(r.abs, Warn::Red);
    assert_eq!(r.lane, Lane::Warn);
    assert_eq!(r.gear, 'D');
    assert_eq!(r.efficiency_percent, micro(85.0));
    assert_eq!(r.turn_street, "Minatomirai Blvd");
}

#[test]
fn the_order_of_different_updates_does_not_matter() {
    let mut list = signals(&busy());
    let forward = roundtrip(&busy());
    list.reverse();
    let mut t = Telemetry::default();
    let mut s = Signals::default();
    for (p, v) in &list {
        apply(&mut t, &mut s, p, v);
    }
    assert_eq!(format!("{t:?}"), format!("{forward:?}"));
}

#[test]
fn an_update_is_folded_entry_by_entry() {
    let mut t = Telemetry::default();
    let mut s = Signals::default();
    let entries = vec![
        (
            "Vehicle.Speed".to_string(),
            datapoint(TypedValue::Float(micro(77.5))),
        ),
        (
            "Vehicle.TraveledDistance".to_string(),
            Datapoint {
                timestamp: Some((1, 2)),
                value: None,
            },
        ),
        (
            "Vehicle.TripDuration".to_string(),
            Datapoint {
                timestamp: None,
                value: Some(Value { typed_value: None }),
            },
        ),
        (
            "Vehicle.Unheard.Of".to_string(),
            datapoint(TypedValue::Bool(true)),
        ),
        (
            "Vehicle.Chassis.ParkingBrake.IsEngaged".to_string(),
            datapoint(TypedValue::Bool(true)),
        ),
    ];
    fold(&mut t, &mut s, &entries);
    assert_eq!(t.speed_kmh, micro(77.5));
    assert!(t.parking_brake);
    assert_eq!(t.odo_km, micro(12_345.0));
    assert_eq!(t.trip_seconds, 0);
}

#[test]
fn a_datapoint_leaves_the_time_to_the_server() {
    let d = datapoint(TypedValue::Bool(true));
    assert_eq!(d.timestamp, None);
    assert_eq!(
        d.value,
        Some(Value {
            typed_value: Some(TypedValue::Bool(true))
        })
    );
}

#[test]
fn only_what_changed_is_sent() {
    let before = signals(&busy());
    assert_eq!(changed(&Vec::new(), &before).len(), 27);
    assert!(changed(&before, &before).is_empty());
    let mut t = busy();
    t.speed_kmh += 1;
    t.parking_brake = false;
    let after = signals(&t);
    let sent = changed(&before, &after);
    let paths: Vec<&str> = sent.iter().map(|&i| after[i].0).collect();
    assert_eq!(
        paths,
        ["Vehicle.Speed", "Vehicle.Chassis.ParkingBrake.IsEngaged"]
    );
}

#[test]
fn sending_what_changed_is_enough() {
    let first = Telemetry::default();
    let second = busy();
    let before = signals(&first);
    let after = signals(&second);
    let mut all = Telemetry::default();
    let mut sig = Signals::default();
    for (p, v) in before.iter().chain(after.iter()) {
        assert!(apply(&mut all, &mut sig, p, v));
    }
    let mut some = Telemetry::default();
    let mut sig = Signals::default();
    for (p, v) in &before {
        assert!(apply(&mut some, &mut sig, p, v));
    }
    for i in changed(&before, &after) {
        assert!(apply(&mut some, &mut sig, after[i].0, &after[i].1));
    }
    assert_eq!(format!("{all:?}"), format!("{some:?}"));
}

#[test]
fn coarser_units_are_those_of_single_precision() {
    let sent = |range_km: i64, fuel_level: i64, power: i64| {
        let t = Telemetry {
            range_km,
            fuel_level,
            power,
            ..Telemetry::default()
        };
        let list = signals(&t);
        let of = |name: &str| list.iter().find(|(p, _)| *p == name).unwrap().1.clone();
        (
            of("Vehicle.Powertrain.Range"),
            of("Vehicle.Powertrain.FuelSystem.RelativeLevel"),
            of("Vehicle.Powertrain.ElectricMotor.Power"),
        )
    };
    assert_eq!(
        sent(micro(321.5), micro(0.265), micro(0.01)),
        (
            TypedValue::Uint32(321_500),
            TypedValue::Uint32(26),
            TypedValue::Int32(1)
        )
    );
    assert_eq!(
        sent(-1, -1, micro(-0.01)),
        (
            TypedValue::Uint32(0),
            TypedValue::Uint32(0),
            TypedValue::Int32(-1)
        )
    );
    for i in -2_000..2_000i64 {
        let n = 1_235 * i + i % 7;
        let x = units(n);
        assert_eq!(
            sent(n, n, n),
            (
                TypedValue::Uint32((x * 1000.0).max(0.0) as u32),
                TypedValue::Uint32((x * 100.0).round() as u32),
                TypedValue::Int32((x as f64 * 150.0).round() as i32)
            ),
            "{n}"
        );
    }
    for n in [i64::MAX, i64::MIN] {
        let x = units(n);
        assert_eq!(
            sent(n, n, n),
            (
                TypedValue::Uint32((x * 1000.0).max(0.0) as u32),
                TypedValue::Uint32((x * 100.0).round() as u32),
                TypedValue::Int32((x as f64 * 150.0).round() as i32)
            )
        );
    }
}

#[test]
fn assistance_flags_come_in_any_order() {
    let names = [
        "Vehicle.ADAS.CruiseControl.IsEnabled",
        "Vehicle.ADAS.CruiseControl.IsActive",
        "Vehicle.ADAS.LaneDepartureDetection.IsEnabled",
        "Vehicle.ADAS.LaneDepartureDetection.IsWarning",
    ];
    for bits in 0..16u32 {
        let flag = |i: usize| bits >> i & 1 == 1;
        for order in 0..256usize {
            let at = [order & 3, order >> 2 & 3, order >> 4 & 3, order >> 6];
            if (0..4).any(|i| !at.contains(&i)) {
                continue;
            }
            let mut t = Telemetry::default();
            let mut sig = Signals::default();
            for i in at {
                assert!(apply(&mut t, &mut sig, names[i], &TypedValue::Bool(flag(i))));
            }
            let cruise = match (flag(1), flag(0)) {
                (true, _) => Cruise::Active,
                (false, true) => Cruise::Armed,
                (false, false) => Cruise::Off,
            };
            let lane = match (flag(2), flag(3)) {
                (false, _) => Lane::Off,
                (true, true) => Lane::Warn,
                (true, false) => Lane::Tracking,
            };
            assert_eq!((t.cruise, t.lane, t.lta_on), (cruise, lane, flag(2)));
        }
    }
}
