//! The CAN frames, there and back.

use agl_slint_cluster::bus::receive;
use agl_slint_cluster::can::{
    decode, encode, to_frame, u16_at, u32_at, warn_code, warn_from, Message, StreetBuffer,
    ID_ADAS, ID_ENERGY, ID_MOTION, ID_STREET, ID_TELLTALES, ID_TRIP, STREET_CHUNK, STREET_CHUNKS,
};
use agl_slint_cluster::fixed::quant;
use agl_slint_cluster::telemetry::{Beam, Cruise, Lane, Telemetry, Warn};
use socketcan::frame::can_frame_default;
use socketcan::{CanFrame, EmbeddedFrame, ExtendedId, Frame, StandardId};

fn micro(x: f64) -> i64 {
    (x * 1e6).round() as i64
}

fn units(x: i64) -> f32 {
    (x as f64 / 1e6) as f32
}

fn roundtrip(t: &Telemetry) -> Telemetry {
    let mut out = Telemetry::default();
    let mut street = StreetBuffer::default();
    for m in encode(t) {
        assert!(m.data.len() <= 8, "frame too long: {m:?}");
        assert!(
            decode(&mut out, &mut street, m.id, &m.data),
            "unrecognised: {m:?}"
        );
    }
    out
}

/// Field-by-field comparison with the tolerance of each field's encoding.
fn assert_matches(t: &Telemetry, r: &Telemetry) {
    assert!((units(r.speed_kmh) - units(t.speed_kmh)).abs() < 0.006);
    assert!((units(r.power) - units(t.power)).abs() < 0.0006);
    assert_eq!(r.efficiency_percent, t.efficiency_percent);
    assert!((units(r.avg_efficiency_kwh) - units(t.avg_efficiency_kwh)).abs() < 0.006);
    assert_eq!(r.range_km, t.range_km);
    assert!((units(r.battery_level) - units(t.battery_level)).abs() < 0.006);
    assert!((units(r.fuel_level) - units(t.fuel_level)).abs() < 0.006);
    assert_eq!(r.outside_temp_c, t.outside_temp_c);
    assert!((units(r.odo_km) - units(t.odo_km)).abs() < 0.06);
    assert_eq!(r.trip_seconds, t.trip_seconds);
    assert!((units(r.turn_distance_km) - units(t.turn_distance_km)).abs() < 0.006);
    assert_eq!(r.turn_street, t.turn_street);
    assert_eq!(r.cruise_speed_kmh, t.cruise_speed_kmh);
    assert_eq!(r.lta_on, t.lta_on);
    assert_eq!(r.lca_on, t.lca_on);
    assert_eq!(r.gear, t.gear);
    assert_eq!(r.ready, t.ready);
    assert_eq!(r.turn_left, t.turn_left);
    assert_eq!(r.turn_right, t.turn_right);
    assert_eq!(r.headlights, t.headlights);
    assert_eq!(r.engine, t.engine);
    assert_eq!(r.oil, t.oil);
    assert_eq!(r.battery_warn, t.battery_warn);
    assert_eq!(r.abs, t.abs);
    assert_eq!(r.parking_brake, t.parking_brake);
    assert_eq!(r.seatbelt, t.seatbelt);
    assert_eq!(r.door_open, t.door_open);
    assert_eq!(r.cruise, t.cruise);
    assert_eq!(r.lane, t.lane);
}

fn busy() -> Telemetry {
    Telemetry {
        speed_kmh: micro(123.45),
        power: micro(-0.375),
        efficiency_percent: micro(67.0),
        avg_efficiency_kwh: micro(5.25),
        range_km: micro(321.0),
        battery_level: micro(0.42),
        fuel_level: micro(0.07),
        outside_temp_c: -12,
        odo_km: micro(98_765.4),
        trip_seconds: 3_723,
        turn_distance_km: micro(0.35),
        turn_street: "Sakuragicho Station Rd".into(),
        cruise_speed_kmh: micro(100.0),
        lta_on: false,
        lca_on: true,
        gear: 'R',
        ready: false,
        turn_left: true,
        turn_right: false,
        headlights: Beam::High,
        engine: Warn::Amber,
        oil: Warn::Red,
        battery_warn: Warn::Amber,
        abs: Warn::Red,
        parking_brake: true,
        seatbelt: true,
        door_open: true,
        cruise: Cruise::Armed,
        lane: Lane::Depart,
    }
}

#[test]
fn default_frame_survives_roundtrip() {
    let t = Telemetry::default();
    assert_matches(&t, &roundtrip(&t));
}

#[test]
fn every_field_roundtrips() {
    let t = busy();
    assert_matches(&t, &roundtrip(&t));
}

#[test]
fn street_chunk_zero_starts_a_new_name() {
    let mut t = Telemetry::default();
    let mut s = StreetBuffer::default();
    let long = Telemetry {
        turn_street: "Minatomirai Boulevard".into(),
        ..Telemetry::default()
    };
    for m in encode(&long).into_iter().filter(|m| m.id == ID_STREET) {
        decode(&mut t, &mut s, m.id, &m.data);
    }
    assert_eq!(t.turn_street, "Minatomirai Boulevard");
    // A single short chunk 0 replaces the whole name.
    decode(&mut t, &mut s, ID_STREET, b"\0Home");
    assert_eq!(t.turn_street, "Home");
}

#[test]
fn long_street_is_cut_at_a_char_boundary() {
    let t = Telemetry {
        turn_street: "みなとみらい大通り横浜駅前".into(),
        ..Telemetry::default()
    };
    let r = roundtrip(&t);
    assert!(t.turn_street.starts_with(&r.turn_street));
    assert!(r.turn_street.len() <= STREET_CHUNK * STREET_CHUNKS);
    assert!(r.turn_street.len() > STREET_CHUNK * STREET_CHUNKS - 3);
}

#[test]
fn short_frames_update_only_the_fields_they_carry() {
    let mut t = Telemetry::default();
    let mut s = StreetBuffer::default();
    // 100.00 km/h and nothing else: power, gear, ready stay as they were.
    assert!(decode(&mut t, &mut s, ID_MOTION, &[0x10, 0x27]));
    assert_eq!(t.speed_kmh, micro(100.0));
    assert_eq!(t.gear, 'D');
    assert!(t.ready);
    // One flag byte: lamps change, the warning levels do not.
    t.engine = Warn::Red;
    assert!(decode(&mut t, &mut s, ID_TELLTALES, &[0x15]));
    assert!(t.turn_left && t.parking_brake && !t.turn_right);
    assert_eq!(t.headlights, Beam::Low);
    assert_eq!(t.engine, Warn::Red);
    // A single byte cannot carry a 16-bit field; it is left alone.
    assert!(decode(&mut t, &mut s, ID_MOTION, &[0xff]));
    assert_eq!(t.speed_kmh, micro(100.0));
}

#[test]
fn unknown_ids_are_ignored() {
    let mut t = Telemetry::default();
    let mut s = StreetBuffer::default();
    assert!(!decode(&mut t, &mut s, 0x7ff, &[0xff; 8]));
    assert!(!decode(&mut t, &mut s, 0x000, &[]));
    assert_eq!(format!("{t:?}"), format!("{:?}", Telemetry::default()));
}

#[test]
fn frames_have_the_documented_layout() {
    let frames = encode(&busy());
    let expected: Vec<(u16, Vec<u8>)> = vec![
        // 12345, -375, 67 %, 'R', not ready.
        (ID_MOTION, vec![0x39, 0x30, 0x89, 0xfe, 67, b'R', 0, 0]),
        // 42 %, 7 %, 321, 525, -12.
        (ID_ENERGY, vec![42, 7, 0x41, 0x01, 0x0d, 0x02, 0xf4, 0]),
        // 987654, 3723.
        (ID_TRIP, vec![0x06, 0x12, 0x0f, 0x00, 0x8b, 0x0e, 0x00, 0x00]),
        (ID_ADAS, vec![100, 1, 3, 2, 35, 0, 0, 0]),
        (ID_TELLTALES, vec![0b0111_1001, 1, 2, 1, 2, 0, 0, 0]),
        (ID_STREET, b"\x00Sakurag".to_vec()),
        (ID_STREET, b"\x01icho St".to_vec()),
        (ID_STREET, b"\x02ation R".to_vec()),
        (ID_STREET, b"\x03d".to_vec()),
    ];
    assert_eq!(frames.len(), expected.len());
    for (m, (id, data)) in frames.iter().zip(expected) {
        assert_eq!(*m, Message { id, data });
    }
}

#[test]
fn the_bench_commands_do_what_they_say() {
    let mut t = Telemetry::default();
    let mut s = StreetBuffer::default();
    assert!(decode(&mut t, &mut s, 0x104, &[0x15]));
    assert!(t.turn_left && t.parking_brake);
    assert_eq!(t.headlights, Beam::Low);
    assert!(decode(&mut t, &mut s, 0x104, &[0x00, 0x02]));
    assert!(!t.turn_left && !t.parking_brake);
    assert_eq!(t.headlights, Beam::Off);
    assert_eq!(t.engine, Warn::Red);
    assert!(decode(&mut t, &mut s, 0x101, &[0x1e]));
    assert_eq!(t.battery_level, micro(0.30));
    assert!(decode(
        &mut t,
        &mut s,
        0x105,
        &[0x00, 0x48, 0x6f, 0x6d, 0x65]
    ));
    assert_eq!(t.turn_street, "Home");
}

#[test]
fn values_out_of_range_saturate() {
    let t = Telemetry {
        speed_kmh: micro(1_000.0),
        power: micro(-3.0),
        efficiency_percent: micro(-1.0),
        outside_temp_c: 200,
        odo_km: i64::MAX,
        gear: 'é',
        ..Telemetry::default()
    };
    let r = roundtrip(&t);
    assert_eq!(r.speed_kmh, micro(655.35));
    assert_eq!(r.power, micro(-1.0));
    assert_eq!(r.efficiency_percent, 0);
    assert_eq!(r.outside_temp_c, 127);
    assert_eq!(r.odo_km, micro(429_496_729.5));
    assert_eq!(r.gear, '?');
    let cold = Telemetry {
        outside_temp_c: -200,
        ..Telemetry::default()
    };
    assert_eq!(roundtrip(&cold).outside_temp_c, -128);
}

#[test]
fn scaling_rounds_to_the_nearest_half_away_from_zero() {
    assert_eq!(quant(micro(1.005), 100, 0, 65_535), 101);
    assert_eq!(quant(micro(1.0049), 100, 0, 65_535), 100);
    assert_eq!(quant(micro(-0.0005), 1_000, -1_000, 1_000), -1);
    assert_eq!(quant(micro(-0.0004), 1_000, -1_000, 1_000), 0);
    assert_eq!(quant(i64::MIN, 1, -5, 5), -5);
}

#[test]
fn scaling_is_that_of_single_precision() {
    // A product may be rounded to a half, or away from one.
    assert_eq!(quant(micro(600.04498291015625), 100, 0, 65_535), 60_005);
    assert_eq!(quant(micro(0.265), 100, 0, 100), 26);
    assert_eq!(quant(micro(0.285), 100, 0, 100), 29);
    for (k, by) in [(1, 1.0f32), (10, 10.0), (100, 100.0), (1_000, 1_000.0)] {
        for i in -60_000..60_000i64 {
            let n = 2_505 * i + i % 11;
            let x = units(n);
            assert_eq!(
                quant(n, k, i64::MIN, i64::MAX),
                (x * by).round() as i64,
                "{n} x {k}"
            );
        }
        for n in [i64::MAX, i64::MIN, 16_777_217_000_000, 98_765_432_100_000] {
            let x = units(n);
            assert_eq!(quant(n, k, i64::MIN, i64::MAX), (x * by).round() as i64);
        }
    }
}

#[test]
fn whole_tenths_of_the_odometer_are_kept() {
    for f in (0..10_485_760i64).step_by(37) {
        assert_eq!(quant(100_000 * f, 10, 0, 0xffff_ffff), f);
    }
    // Above 2^20 km single precision does not hold them.
    assert_eq!(quant(100_000 * 10_485_763, 10, 0, 0xffff_ffff), 10_485_762);
}

#[test]
fn a_second_trip_over_the_bus_changes_nothing() {
    let once = roundtrip(&busy());
    let twice = roundtrip(&once);
    assert_eq!(format!("{once:?}"), format!("{twice:?}"));
}

#[test]
fn a_repeated_frame_changes_nothing() {
    let mut t = Telemetry::default();
    let mut s = StreetBuffer::default();
    for m in encode(&busy()) {
        decode(&mut t, &mut s, m.id, &m.data);
        let once = format!("{t:?}");
        decode(&mut t, &mut s, m.id, &m.data);
        assert_eq!(format!("{t:?}"), once);
    }
}

#[test]
fn a_cut_frame_and_then_the_whole_one_is_the_whole_one() {
    for m in encode(&busy()) {
        for n in 0..=m.data.len() {
            let mut cut = Telemetry::default();
            let mut s = StreetBuffer::default();
            decode(&mut cut, &mut s, m.id, &m.data[..n]);
            decode(&mut cut, &mut s, m.id, &m.data);
            let mut whole = Telemetry::default();
            let mut s = StreetBuffer::default();
            decode(&mut whole, &mut s, m.id, &m.data);
            assert_eq!(format!("{cut:?}"), format!("{whole:?}"));
        }
    }
}

#[test]
fn frames_of_different_kinds_may_come_in_either_order() {
    let frames = encode(&busy());
    let mut forward = Telemetry::default();
    let mut s = StreetBuffer::default();
    for m in &frames {
        decode(&mut forward, &mut s, m.id, &m.data);
    }
    // The chunks of the name keep their order, everything else is turned round.
    let mut backward = Telemetry::default();
    let mut s = StreetBuffer::default();
    for m in frames[5..].iter().chain(frames[..5].iter().rev()) {
        decode(&mut backward, &mut s, m.id, &m.data);
    }
    assert_eq!(format!("{forward:?}"), format!("{backward:?}"));
}

#[test]
fn reserved_bytes_and_padding_do_not_count() {
    let mut t = busy();
    let mut s = StreetBuffer::default();
    for m in encode(&busy()).iter().take(5) {
        let mut noisy = m.data.clone();
        let used = match m.id {
            ID_MOTION | ID_ENERGY => 7,
            ID_ADAS => 6,
            ID_TELLTALES => 5,
            _ => 8,
        };
        for b in &mut noisy[used..] {
            *b = 0xff;
        }
        decode(&mut t, &mut s, m.id, &noisy);
    }
    assert_matches(&busy(), &t);
    decode(&mut t, &mut s, ID_STREET, b"\0Home\0\0\0");
    assert_eq!(t.turn_street, "Home");
}

#[test]
fn unassigned_codes_read_as_off() {
    let mut t = busy();
    let mut s = StreetBuffer::default();
    decode(&mut t, &mut s, ID_TELLTALES, &[0x0c, 3, 9, 255, 7]);
    assert_eq!(t.headlights, Beam::Off);
    assert_eq!(t.engine, Warn::Off);
    assert_eq!(t.abs, Warn::Off);
    decode(&mut t, &mut s, ID_ADAS, &[90, 3, 4]);
    assert_eq!(t.cruise, Cruise::Off);
    assert_eq!(t.lane, Lane::Off);
    assert_eq!(t.cruise_speed_kmh, micro(90.0));
    assert!(!t.lta_on && t.lca_on);
}

#[test]
fn a_chunk_out_of_range_is_known_and_ignored() {
    let mut t = Telemetry::default();
    let mut s = StreetBuffer::default();
    assert!(decode(&mut t, &mut s, ID_STREET, b"\x04Nowhere"));
    assert!(decode(&mut t, &mut s, ID_STREET, b""));
    assert_eq!(t.turn_street, "Minatomirai Blvd");
}

#[test]
fn a_torn_character_is_replaced() {
    let mut t = Telemetry::default();
    let mut s = StreetBuffer::default();
    decode(&mut t, &mut s, ID_STREET, b"\0A\xe3\x81");
    assert_eq!(t.turn_street, "A\u{fffd}");
    assert_eq!(s.text(), "A\u{fffd}");
    // What is whole before it stays.
    decode(&mut t, &mut s, ID_STREET, b"\0\xe6\xb5\xb7ab\xe5\xb2");
    assert!(t.turn_street.starts_with("\u{6d77}ab"));
    assert!(t.turn_street.contains('\u{fffd}'));
    assert!(!t.turn_street.contains('\0'));
}

#[test]
fn a_nul_ends_a_name_on_the_bus() {
    let t = Telemetry {
        turn_street: "Bay\0Side".into(),
        ..Telemetry::default()
    };
    assert_eq!(roundtrip(&t).turn_street, "Bay");
}

#[test]
fn an_empty_name_takes_one_frame() {
    let t = Telemetry {
        turn_street: String::new(),
        ..Telemetry::default()
    };
    let frames = encode(&t);
    assert_eq!(frames.len(), 6);
    assert_eq!(
        frames[5],
        Message {
            id: ID_STREET,
            data: vec![0]
        }
    );
    assert_eq!(roundtrip(&t).turn_street, "");
}

#[test]
fn fields_are_little_endian() {
    let d = [0x01, 0x02, 0x03, 0x04, 0x05];
    assert_eq!(u16_at(&d, 1), 0x0302);
    assert_eq!(u32_at(&d, 1), 0x0504_0302);
    assert_eq!(warn_code(Warn::Amber), 1);
    assert_eq!(warn_from(2), Warn::Red);
    assert_eq!(warn_from(3), Warn::Off);
}

#[test]
fn a_message_travels_in_a_socketcan_frame() {
    let m = Message {
        id: ID_MOTION,
        data: vec![0x10, 0x27],
    };
    let frame = to_frame(&m);
    assert_eq!(frame.raw_id(), 0x100);
    assert_eq!(frame.data(), [0x10, 0x27]);
    assert!(!frame.is_extended());
    let mut t = Telemetry::default();
    let mut s = StreetBuffer::default();
    assert!(receive(&mut t, &mut s, &frame));
    assert_eq!(t.speed_kmh, micro(100.0));
}

#[test]
fn a_long_identifier_makes_an_extended_frame() {
    let frame = to_frame(&Message {
        id: 0x1234,
        data: vec![],
    });
    assert!(frame.is_extended());
    assert_eq!(frame.raw_id(), 0x1234);
}

#[test]
fn only_standard_data_frames_are_received() {
    let mut t = Telemetry::default();
    let mut s = StreetBuffer::default();
    let standard = StandardId::new(0x100).unwrap();
    let extended = ExtendedId::new(0x100).unwrap();
    let remote = CanFrame::new_remote(standard, 2).unwrap();
    assert!(!receive(&mut t, &mut s, &remote));
    let long = CanFrame::new(extended, &[0x10, 0x27]).unwrap();
    assert!(!receive(&mut t, &mut s, &long));
    let foreign = CanFrame::new(StandardId::new(0x7ff).unwrap(), &[1, 2]).unwrap();
    assert!(!receive(&mut t, &mut s, &foreign));
    assert_eq!(format!("{t:?}"), format!("{:?}", Telemetry::default()));
    // An error frame, and one that claims more bytes than a classic frame has.
    let mut raw = can_frame_default();
    raw.can_id = 0x2000_0100;
    raw.can_dlc = 8;
    assert!(!receive(&mut t, &mut s, &CanFrame::from(raw)));
    raw.can_id = 0x100;
    raw.can_dlc = 9;
    assert!(!receive(&mut t, &mut s, &CanFrame::from(raw)));
    assert_eq!(format!("{t:?}"), format!("{:?}", Telemetry::default()));
    let data = CanFrame::new(standard, &[0x10, 0x27]).unwrap();
    assert!(receive(&mut t, &mut s, &data));
    assert_eq!(t.speed_kmh, micro(100.0));
}
