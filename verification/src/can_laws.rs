//! What holds of the CAN encoding as a whole.

use vstd::prelude::*;
use vstd::utf8::{decode_utf8, decode_utf8_encode_utf8, encode_utf8};

use crate::can::{
    adas_message, after_adas, after_energy, after_motion, after_telltales, after_trip, buffer_after,
    code_of_beam, code_of_cruise, code_of_lane, code_of_warn, decoded, encoded, energy_message,
    field16, field32, gear_byte, is_chunk, known, lamp_flags, le16, le32, motion_message, scaled,
    street_bytes, street_message, street_messages, telltales_message, trip_message, twos,
    warn_of_code, weight, with_chunk, with_lamps, MessageView, ID_ADAS, ID_ENERGY, ID_MOTION,
    ID_STREET, ID_TELLTALES, ID_TRIP,
};
use crate::fixed::{
    clamped, counting_steps_is_near, counting_tenths_is_exact, counting_whole_steps_is_exact,
    per_unit, rounded_product,
};
use crate::street_laws::{a_name_is_cut_between_characters, a_street_name_arrives, replayed};
use crate::telemetry::{same_fields, Cruise, Lane, TelemetryView, Warn};

verus! {

/// `t` as a receiver sees it: every quantity to the resolution of its field.
pub open spec fn on_the_bus(t: TelemetryView) -> TelemetryView {
    TelemetryView {
        speed_kmh: (10_000 * scaled(t.speed_kmh, 100, 0, 65535)) as i64,
        power: (1_000 * scaled(t.power, 1_000, -1000, 1000)) as i64,
        efficiency_percent: (1_000_000 * scaled(t.efficiency_percent, 1, 0, 255)) as i64,
        avg_efficiency_kwh: (10_000 * scaled(t.avg_efficiency_kwh, 100, 0, 65535)) as i64,
        range_km: (1_000_000 * scaled(t.range_km, 1, 0, 65535)) as i64,
        battery_level: (10_000 * scaled(t.battery_level, 100, 0, 100)) as i64,
        fuel_level: (10_000 * scaled(t.fuel_level, 100, 0, 100)) as i64,
        outside_temp_c: clamped(t.outside_temp_c as int, -128, 127) as i32,
        odo_km: (100_000 * scaled(t.odo_km, 10, 0, 0xffff_ffff)) as i64,
        turn_distance_km: (10_000 * scaled(t.turn_distance_km, 100, 0, 65535)) as i64,
        turn_street: decode_utf8(street_bytes(t.turn_street)),
        cruise_speed_kmh: (1_000_000 * scaled(t.cruise_speed_kmh, 1, 0, 255)) as i64,
        gear: gear_byte(t.gear) as char,
        ..t
    }
}

proof fn le16_reads_back(n: int, d: Seq<u8>, i: int)
    requires
        0 <= n < 65536,
        0 <= i,
        i + 2 <= d.len(),
        d[i] == le16(n)[0],
        d[i + 1] == le16(n)[1],
    ensures
        field16(d, i) == n,
{
}

proof fn le32_reads_back(n: int, d: Seq<u8>, i: int)
    requires
        0 <= n < 0x1_0000_0000,
        0 <= i,
        i + 4 <= d.len(),
        d.subrange(i, i + 4) == le32(n),
    ensures
        field32(d, i) == n,
{
    assert(d[i] == d.subrange(i, i + 4)[0]);
    assert(d[i + 1] == d.subrange(i, i + 4)[1]);
    assert(d[i + 2] == d.subrange(i, i + 4)[2]);
    assert(d[i + 3] == d.subrange(i, i + 4)[3]);
}

/// The fields of an `ID_MOTION` frame read back.
proof fn motion_reads_back(
    t0: TelemetryView,
    speed: int,
    power: int,
    efficiency: u8,
    gear: u8,
    ready: bool,
)
    requires
        0 <= speed <= 65535,
        -1000 <= power <= 1000,
    ensures
        after_motion(
            t0,
            le16(speed) + le16(power % 65536) + seq![
                efficiency,
                gear,
                weight(ready, 1),
                0u8,
            ],
        ) == (TelemetryView {
            speed_kmh: (10_000 * speed) as i64,
            power: (1_000 * power) as i64,
            efficiency_percent: (1_000_000 * efficiency) as i64,
            gear: gear as char,
            ready,
            ..t0
        }),
{
    let d = le16(speed) + le16(power % 65536) + seq![
        efficiency,
        gear,
        weight(ready, 1),
        0u8,
    ];
    le16_reads_back(speed, d, 0);
    le16_reads_back(power % 65536, d, 2);
    assert(twos(power % 65536, 65536) == power);
    assert(0u8 & 1 == 0 && 1u8 & 1 == 1) by (bit_vector);
}

proof fn motion_arrives(t0: TelemetryView, t: TelemetryView)
    ensures
        after_motion(t0, motion_message(t).data) == (TelemetryView {
            speed_kmh: on_the_bus(t).speed_kmh,
            power: on_the_bus(t).power,
            efficiency_percent: on_the_bus(t).efficiency_percent,
            gear: on_the_bus(t).gear,
            ready: t.ready,
            ..t0
        }),
{
    motion_reads_back(
        t0,
        scaled(t.speed_kmh, 100, 0, 65535),
        scaled(t.power, 1_000, -1000, 1000),
        scaled(t.efficiency_percent, 1, 0, 255) as u8,
        gear_byte(t.gear),
        t.ready,
    );
}

/// The fields of an `ID_ENERGY` frame read back.
proof fn energy_reads_back(
    t0: TelemetryView,
    battery: u8,
    fuel: u8,
    range: int,
    average: int,
    temp: int,
)
    requires
        0 <= range <= 65535,
        0 <= average <= 65535,
        -128 <= temp <= 127,
    ensures
        after_energy(
            t0,
            seq![battery, fuel] + le16(range) + le16(average) + seq![(temp % 256) as u8, 0u8],
        ) == (TelemetryView {
            battery_level: (10_000 * battery) as i64,
            fuel_level: (10_000 * fuel) as i64,
            range_km: (1_000_000 * range) as i64,
            avg_efficiency_kwh: (10_000 * average) as i64,
            outside_temp_c: temp as i32,
            ..t0
        }),
{
    let d = seq![battery, fuel] + le16(range) + le16(average) + seq![(temp % 256) as u8, 0u8];
    le16_reads_back(range, d, 2);
    le16_reads_back(average, d, 4);
    assert(twos(temp % 256, 256) == temp);
}

proof fn energy_arrives(t0: TelemetryView, t: TelemetryView)
    ensures
        after_energy(t0, energy_message(t).data) == (TelemetryView {
            battery_level: on_the_bus(t).battery_level,
            fuel_level: on_the_bus(t).fuel_level,
            range_km: on_the_bus(t).range_km,
            avg_efficiency_kwh: on_the_bus(t).avg_efficiency_kwh,
            outside_temp_c: on_the_bus(t).outside_temp_c,
            ..t0
        }),
{
    energy_reads_back(
        t0,
        scaled(t.battery_level, 100, 0, 100) as u8,
        scaled(t.fuel_level, 100, 0, 100) as u8,
        scaled(t.range_km, 1, 0, 65535),
        scaled(t.avg_efficiency_kwh, 100, 0, 65535),
        clamped(t.outside_temp_c as int, -128, 127),
    );
}

proof fn trip_arrives(t0: TelemetryView, t: TelemetryView)
    ensures
        after_trip(t0, trip_message(t).data) == (TelemetryView {
            odo_km: on_the_bus(t).odo_km,
            trip_seconds: t.trip_seconds,
            ..t0
        }),
{
    let d = trip_message(t).data;
    let odo = scaled(t.odo_km, 10, 0, 0xffff_ffff);
    assert(d.subrange(0, 4) == le32(odo));
    assert(d.subrange(4, 8) == le32(t.trip_seconds as int));
    le32_reads_back(odo, d, 0);
    le32_reads_back(t.trip_seconds as int, d, 4);
}

/// The fields of an `ID_ADAS` frame read back.
proof fn adas_reads_back(
    t0: TelemetryView,
    speed: u8,
    cruise: Cruise,
    lane: Lane,
    lta_on: bool,
    lca_on: bool,
    turn: int,
)
    requires
        0 <= turn <= 65535,
    ensures
        after_adas(
            t0,
            seq![
                speed,
                code_of_cruise(cruise),
                code_of_lane(lane),
                weight(lta_on, 1) | weight(lca_on, 2),
            ] + le16(turn) + seq![0u8, 0u8],
        ) == (TelemetryView {
            cruise_speed_kmh: (1_000_000 * speed) as i64,
            cruise,
            lane,
            lta_on,
            lca_on,
            turn_distance_km: (10_000 * turn) as i64,
            ..t0
        }),
{
    let d = seq![
        speed,
        code_of_cruise(cruise),
        code_of_lane(lane),
        weight(lta_on, 1) | weight(lca_on, 2),
    ] + le16(turn) + seq![0u8, 0u8];
    le16_reads_back(turn, d, 4);
    flags_read_back(weight(lta_on, 1), weight(lca_on, 2), 0, 0, 0, 0);
    let f = weight(lta_on, 1) | weight(lca_on, 2);
    assert(f | 0 == f) by (bit_vector);
    assert(0u8 << 2 == 0) by (bit_vector);
}

proof fn adas_arrives(t0: TelemetryView, t: TelemetryView)
    ensures
        after_adas(t0, adas_message(t).data) == (TelemetryView {
            cruise_speed_kmh: on_the_bus(t).cruise_speed_kmh,
            cruise: t.cruise,
            lane: t.lane,
            lta_on: t.lta_on,
            lca_on: t.lca_on,
            turn_distance_km: on_the_bus(t).turn_distance_km,
            ..t0
        }),
{
    adas_reads_back(
        t0,
        scaled(t.cruise_speed_kmh, 1, 0, 255) as u8,
        t.cruise,
        t.lane,
        t.lta_on,
        t.lca_on,
        scaled(t.turn_distance_km, 100, 0, 65535),
    );
}

/// Fields at different bits of one byte read back.
proof fn flags_read_back(left: u8, right: u8, beam: u8, brake: u8, belt: u8, door: u8)
    requires
        left == 0 || left == 1,
        right == 0 || right == 2,
        beam <= 3,
        brake == 0 || brake == 0x10,
        belt == 0 || belt == 0x20,
        door == 0 || door == 0x40,
    ensures
        ({
            let f = left | right | (beam << 2) | brake | belt | door;
            &&& f & 1 == left
            &&& f & 2 == right
            &&& (f >> 2) & 3 == beam
            &&& f & 0x10 == brake
            &&& f & 0x20 == belt
            &&& f & 0x40 == door
        }),
{
    assert({
        let f = left | right | (beam << 2) | brake | belt | door;
        &&& f & 1 == left
        &&& f & 2 == right
        &&& (f >> 2) & 3 == beam
        &&& f & 0x10 == brake
        &&& f & 0x20 == belt
        &&& f & 0x40 == door
    }) by (bit_vector)
        requires
            left == 0 || left == 1,
            right == 0 || right == 2,
            beam <= 3,
            brake == 0 || brake == 0x10,
            belt == 0 || belt == 0x20,
            door == 0 || door == 0x40,
    ;
}

proof fn telltales_read_back(
    t0: TelemetryView,
    lit: TelemetryView,
    flags: u8,
    engine: Warn,
    oil: Warn,
    battery: Warn,
    abs: Warn,
)
    requires
        lit == with_lamps(t0, flags),
    ensures
        after_telltales(
            t0,
            seq![
                flags,
                code_of_warn(engine),
                code_of_warn(oil),
                code_of_warn(battery),
                code_of_warn(abs),
                0u8,
                0u8,
                0u8,
            ],
        ) == (TelemetryView { engine, oil, battery_warn: battery, abs, ..lit }),
{
    warn_reads_back(engine);
    warn_reads_back(oil);
    warn_reads_back(battery);
    warn_reads_back(abs);
}

proof fn warn_reads_back(w: Warn)
    ensures
        warn_of_code(code_of_warn(w)) == w,
{
}

proof fn lamps_arrive(t0: TelemetryView, t: TelemetryView)
    ensures
        with_lamps(t0, lamp_flags(t)) == (TelemetryView {
            turn_left: t.turn_left,
            turn_right: t.turn_right,
            headlights: t.headlights,
            parking_brake: t.parking_brake,
            seatbelt: t.seatbelt,
            door_open: t.door_open,
            ..t0
        }),
{
    flags_read_back(
        weight(t.turn_left, 1),
        weight(t.turn_right, 2),
        code_of_beam(t.headlights),
        weight(t.parking_brake, 0x10),
        weight(t.seatbelt, 0x20),
        weight(t.door_open, 0x40),
    );
}

proof fn telltales_arrive(t0: TelemetryView, t: TelemetryView)
    ensures
        after_telltales(t0, telltales_message(t).data) == (TelemetryView {
            turn_left: t.turn_left,
            turn_right: t.turn_right,
            headlights: t.headlights,
            parking_brake: t.parking_brake,
            seatbelt: t.seatbelt,
            door_open: t.door_open,
            engine: t.engine,
            oil: t.oil,
            battery_warn: t.battery_warn,
            abs: t.abs,
            ..t0
        }),
{
    lamps_arrive(t0, t);
    let flags = lamp_flags(t);
    let lit = with_lamps(t0, flags);
    telltales_read_back(t0, lit, flags, t.engine, t.oil, t.battery_warn, t.abs);
}

/// Frames replayed after other frames go on from what those left.
proof fn replay_in_two_parts(
    t: TelemetryView,
    buffer: Seq<u8>,
    head: Seq<MessageView>,
    tail: Seq<MessageView>,
)
    ensures
        replayed(t, buffer, head + tail) == replayed(
            replayed(t, buffer, head).0,
            replayed(t, buffer, head).1,
            tail,
        ),
    decreases tail.len(),
{
    if tail.len() == 0 {
        assert(head + tail == head);
    } else {
        assert((head + tail).drop_last() == head + tail.drop_last());
        replay_in_two_parts(t, buffer, head, tail.drop_last());
    }
}

proof fn replay_of_five(t: TelemetryView, buffer: Seq<u8>, ms: Seq<MessageView>)
    requires
        ms.len() == 5,
        ms[0].id == ID_MOTION,
        ms[1].id == ID_ENERGY,
        ms[2].id == ID_TRIP,
        ms[3].id == ID_ADAS,
        ms[4].id == ID_TELLTALES,
    ensures
        replayed(t, buffer, ms) == (
            after_telltales(
                after_adas(
                    after_trip(after_energy(after_motion(t, ms[0].data), ms[1].data), ms[2].data),
                    ms[3].data,
                ),
                ms[4].data,
            ),
            buffer,
        ),
{
    let none = Seq::<MessageView>::empty();
    replay_of_one_more(t, buffer, none, ms[0]);
    replay_of_one_more(t, buffer, none.push(ms[0]), ms[1]);
    replay_of_one_more(t, buffer, none.push(ms[0]).push(ms[1]), ms[2]);
    replay_of_one_more(t, buffer, none.push(ms[0]).push(ms[1]).push(ms[2]), ms[3]);
    replay_of_one_more(t, buffer, none.push(ms[0]).push(ms[1]).push(ms[2]).push(ms[3]), ms[4]);
    assert(none.push(ms[0]).push(ms[1]).push(ms[2]).push(ms[3]).push(ms[4]) == ms);
}

proof fn replay_of_one_more(
    t: TelemetryView,
    buffer: Seq<u8>,
    ms: Seq<MessageView>,
    m: MessageView,
)
    ensures
        replayed(t, buffer, ms.push(m)) == (
            decoded(replayed(t, buffer, ms).0, replayed(t, buffer, ms).1, m.id, m.data),
            buffer_after(replayed(t, buffer, ms).1, m.id, m.data),
        ),
{
    assert(ms.push(m).drop_last() == ms);
}

/// A frame of signals that is encoded, sent and decoded arrives: whatever the
/// receiver showed before, it then shows every field of `t` to the resolution
/// of the bus. A NUL character would end the street name early.
pub proof fn what_is_sent_arrives(t0: TelemetryView, buffer: Seq<u8>, t: TelemetryView)
    requires
        forall|i: int| 0 <= i < t.turn_street.len() ==> t.turn_street[i] != '\0',
    ensures
        replayed(t0, buffer, encoded(t)).0 == on_the_bus(t),
{
    let head = seq![
        motion_message(t),
        energy_message(t),
        trip_message(t),
        adas_message(t),
        telltales_message(t),
    ];
    let t1 = after_motion(t0, motion_message(t).data);
    let t2 = after_energy(t1, energy_message(t).data);
    let t3 = after_trip(t2, trip_message(t).data);
    let t4 = after_adas(t3, adas_message(t).data);
    let t5 = after_telltales(t4, telltales_message(t).data);
    motion_arrives(t0, t);
    energy_arrives(t1, t);
    trip_arrives(t2, t);
    adas_arrives(t3, t);
    telltales_arrive(t4, t);
    replay_of_five(t0, buffer, head);
    replay_in_two_parts(t0, buffer, head, street_messages(t.turn_street));
    a_street_name_arrives(t5, buffer, t.turn_street);
}

/// A field whose value is within its range is off by at most half a step and
/// what single precision leaves out.
proof fn scaling_is_near(v: i64, k: int, step: int, lo: int, hi: int)
    requires
        per_unit(k, step),
        lo <= 0 <= hi,
        lo * step <= v <= hi * step,
    ensures
        near(step * scaled(v, k, lo, hi), v as int, step),
{
    let size = if v < 0 {
        -v as int
    } else {
        v as int
    };
    counting_steps_is_near(size, k, step);
    let q = rounded_product(v as int, k);
    let r = rounded_product(size, k);
    assert(v < 0 ==> step * q == -(step * r)) by (nonlinear_arith)
        requires
            v < 0 ==> q == -r,
    ;
    // Bringing the count into the field's range brings it nearer.
    assert(q > hi ==> v <= step * hi <= step * q) by (nonlinear_arith)
        requires
            v <= hi * step,
            step > 0,
    ;
    assert(q < lo ==> step * q <= step * lo <= v) by (nonlinear_arith)
        requires
            lo * step <= v,
            step > 0,
    ;
}

/// Whether `a` is within half of `step` of `b`, but for a four-millionth part of
/// `b`.
pub open spec fn near(a: int, b: int, step: int) -> bool {
    let size = if b < 0 {
        -b
    } else {
        b
    };
    -(step / 2 + size / 4_194_304) <= a - b <= step / 2 + size / 4_194_304
}

/// Within the range of its field every quantity arrives to half a step, but for
/// what single precision leaves out of it, and everything that is not a quantity
/// arrives as it is: temperatures of a byte, an ASCII gear and a street name of
/// at most 28 bytes included.
pub proof fn fields_arrive_within_half_a_step(t: TelemetryView)
    ensures
        0 <= t.speed_kmh <= 655_350_000 ==> near(
            on_the_bus(t).speed_kmh as int,
            t.speed_kmh as int,
            10_000,
        ),
        -1_000_000 <= t.power <= 1_000_000 ==> near(
            on_the_bus(t).power as int,
            t.power as int,
            1_000,
        ),
        0 <= t.efficiency_percent <= 255_000_000 ==> near(
            on_the_bus(t).efficiency_percent as int,
            t.efficiency_percent as int,
            1_000_000,
        ),
        0 <= t.avg_efficiency_kwh <= 655_350_000 ==> near(
            on_the_bus(t).avg_efficiency_kwh as int,
            t.avg_efficiency_kwh as int,
            10_000,
        ),
        0 <= t.range_km <= 65_535_000_000 ==> near(
            on_the_bus(t).range_km as int,
            t.range_km as int,
            1_000_000,
        ),
        0 <= t.battery_level <= 1_000_000 ==> near(
            on_the_bus(t).battery_level as int,
            t.battery_level as int,
            10_000,
        ),
        0 <= t.fuel_level <= 1_000_000 ==> near(
            on_the_bus(t).fuel_level as int,
            t.fuel_level as int,
            10_000,
        ),
        0 <= t.odo_km <= 429_496_729_500_000 ==> near(
            on_the_bus(t).odo_km as int,
            t.odo_km as int,
            100_000,
        ),
        0 <= t.turn_distance_km <= 655_350_000 ==> near(
            on_the_bus(t).turn_distance_km as int,
            t.turn_distance_km as int,
            10_000,
        ),
        0 <= t.cruise_speed_kmh <= 255_000_000 ==> near(
            on_the_bus(t).cruise_speed_kmh as int,
            t.cruise_speed_kmh as int,
            1_000_000,
        ),
        -128 <= t.outside_temp_c <= 127 ==> on_the_bus(t).outside_temp_c == t.outside_temp_c,
        t.gear as u32 <= 127 ==> on_the_bus(t).gear == t.gear,
        encode_utf8(t.turn_street).len() <= 28 ==> on_the_bus(t).turn_street == t.turn_street,
        on_the_bus(t).turn_street.is_prefix_of(t.turn_street),
{
    if 0 <= t.speed_kmh <= 655_350_000 {
        scaling_is_near(t.speed_kmh, 100, 10_000, 0, 65535);
    }
    if -1_000_000 <= t.power <= 1_000_000 {
        scaling_is_near(t.power, 1_000, 1_000, -1000, 1000);
    }
    if 0 <= t.efficiency_percent <= 255_000_000 {
        scaling_is_near(t.efficiency_percent, 1, 1_000_000, 0, 255);
    }
    if 0 <= t.avg_efficiency_kwh <= 655_350_000 {
        scaling_is_near(t.avg_efficiency_kwh, 100, 10_000, 0, 65535);
    }
    if 0 <= t.range_km <= 65_535_000_000 {
        scaling_is_near(t.range_km, 1, 1_000_000, 0, 65535);
    }
    if 0 <= t.battery_level <= 1_000_000 {
        scaling_is_near(t.battery_level, 100, 10_000, 0, 100);
    }
    if 0 <= t.fuel_level <= 1_000_000 {
        scaling_is_near(t.fuel_level, 100, 10_000, 0, 100);
    }
    if 0 <= t.odo_km <= 429_496_729_500_000 {
        scaling_is_near(t.odo_km, 10, 100_000, 0, 0xffff_ffff);
    }
    if 0 <= t.turn_distance_km <= 655_350_000 {
        scaling_is_near(t.turn_distance_km, 100, 10_000, 0, 65535);
    }
    if 0 <= t.cruise_speed_kmh <= 255_000_000 {
        scaling_is_near(t.cruise_speed_kmh, 1, 1_000_000, 0, 255);
    }
    a_name_is_cut_between_characters(t.turn_street);
}

/// A field that has been over the bus once is scaled as it was.
proof fn scaling_again(v: i64, k: int, step: int, lo: int, hi: int)
    requires
        per_unit(k, step),
        -65536 < lo <= 0 <= hi < 65536,
    ensures
        scaled((step * scaled(v, k, lo, hi)) as i64, k, lo, hi) == scaled(v, k, lo, hi),
{
    let f = scaled(v, k, lo, hi);
    counting_whole_steps_is_exact(f, k, step);
    assert(-65_536_000_000 <= step * f <= 65_536_000_000) by (nonlinear_arith)
        requires
            -65536 < f < 65536,
            0 < step <= 1_000_000,
    ;
}

proof fn quantities_make_a_second_trip(t: TelemetryView)
    requires
        on_the_bus(t).odo_km < 1_048_576_000_000,
    ensures
        ({
            let once = on_the_bus(t);
            let twice = on_the_bus(once);
            &&& twice.speed_kmh == once.speed_kmh
            &&& twice.power == once.power
            &&& twice.efficiency_percent == once.efficiency_percent
            &&& twice.avg_efficiency_kwh == once.avg_efficiency_kwh
            &&& twice.range_km == once.range_km
            &&& twice.battery_level == once.battery_level
            &&& twice.fuel_level == once.fuel_level
            &&& twice.turn_distance_km == once.turn_distance_km
            &&& twice.cruise_speed_kmh == once.cruise_speed_kmh
            &&& twice.odo_km == once.odo_km
        }),
{
    scaling_again(t.speed_kmh, 100, 10_000, 0, 65535);
    scaling_again(t.power, 1_000, 1_000, -1000, 1000);
    scaling_again(t.efficiency_percent, 1, 1_000_000, 0, 255);
    scaling_again(t.avg_efficiency_kwh, 100, 10_000, 0, 65535);
    scaling_again(t.range_km, 1, 1_000_000, 0, 65535);
    scaling_again(t.battery_level, 100, 10_000, 0, 100);
    scaling_again(t.fuel_level, 100, 10_000, 0, 100);
    scaling_again(t.turn_distance_km, 100, 10_000, 0, 65535);
    scaling_again(t.cruise_speed_kmh, 1, 1_000_000, 0, 255);
    let tenths = scaled(t.odo_km, 10, 0, 0xffff_ffff);
    assert(0 <= tenths < 10_485_760);
    counting_tenths_is_exact(tenths);
}

/// What has been over the bus once goes over it again unchanged, the odometer
/// as long as single precision holds its tenths: below 2^20 km.
pub proof fn a_second_trip_changes_nothing(t: TelemetryView)
    requires
        on_the_bus(t).odo_km < 1_048_576_000_000,
    ensures
        on_the_bus(on_the_bus(t)) == on_the_bus(t),
{
    quantities_make_a_second_trip(t);
    a_name_is_cut_between_characters(t.turn_street);
    let bytes = street_bytes(t.turn_street);
    decode_utf8_encode_utf8(bytes);
    assert(street_bytes(on_the_bus(t).turn_street) == bytes);
    same_fields(on_the_bus(on_the_bus(t)), on_the_bus(t));
}

/// Every frame that carries `t` has an identifier that the decoder knows and
/// fits a classic CAN frame.
pub proof fn every_frame_is_known_and_fits(t: TelemetryView, i: int)
    requires
        0 <= i < encoded(t).len(),
    ensures
        known(encoded(t)[i].id),
        encoded(t)[i].data.len() <= 8,
        6 <= encoded(t).len() <= 9,
{
    let bytes = street_bytes(t.turn_street);
    a_name_is_cut_between_characters(t.turn_street);
    if i >= 5 {
        assert(encoded(t)[i] == street_message(bytes, i - 5));
    }
}

proof fn motion_twice(t: TelemetryView, d: Seq<u8>, n: int)
    requires
        0 <= n <= d.len(),
    ensures
        after_motion(after_motion(t, d.take(n)), d) == after_motion(t, d),
{
}

proof fn energy_twice(t: TelemetryView, d: Seq<u8>, n: int)
    requires
        0 <= n <= d.len(),
    ensures
        after_energy(after_energy(t, d.take(n)), d) == after_energy(t, d),
{
}

proof fn trip_twice(t: TelemetryView, d: Seq<u8>, n: int)
    requires
        0 <= n <= d.len(),
    ensures
        after_trip(after_trip(t, d.take(n)), d) == after_trip(t, d),
{
}

proof fn adas_twice(t: TelemetryView, d: Seq<u8>, n: int)
    requires
        0 <= n <= d.len(),
    ensures
        after_adas(after_adas(t, d.take(n)), d) == after_adas(t, d),
{
}

proof fn telltales_twice(t: TelemetryView, d: Seq<u8>, n: int)
    requires
        0 <= n <= d.len(),
    ensures
        after_telltales(after_telltales(t, d.take(n)), d) == after_telltales(t, d),
{
}

/// A frame cut short updates no field that the whole frame does not: the whole
/// frame after it gives what the whole frame gives alone.
pub proof fn a_short_frame_does_no_more_than_the_whole(
    t: TelemetryView,
    buffer: Seq<u8>,
    id: u16,
    d: Seq<u8>,
    n: int,
)
    requires
        0 <= n <= d.len(),
    ensures
        decoded(
            decoded(t, buffer, id, d.take(n)),
            buffer_after(buffer, id, d.take(n)),
            id,
            d,
        ) == decoded(t, buffer, id, d),
        buffer_after(buffer_after(buffer, id, d.take(n)), id, d) == buffer_after(
            buffer,
            id,
            d,
        ),
{
    if id == ID_MOTION {
        motion_twice(t, d, n);
    } else if id == ID_ENERGY {
        energy_twice(t, d, n);
    } else if id == ID_TRIP {
        trip_twice(t, d, n);
    } else if id == ID_ADAS {
        adas_twice(t, d, n);
    } else if id == ID_TELLTALES {
        telltales_twice(t, d, n);
    } else if id == ID_STREET && is_chunk(d) {
        assert(with_chunk(buffer_after(buffer, id, d.take(n)), d) == with_chunk(buffer, d));
    }
}

/// A frame decoded twice in a row does what it does once.
pub proof fn repeating_a_frame_changes_nothing(
    t: TelemetryView,
    buffer: Seq<u8>,
    id: u16,
    d: Seq<u8>,
)
    ensures
        buffer_after(buffer_after(buffer, id, d), id, d) == buffer_after(buffer, id, d),
        decoded(decoded(t, buffer, id, d), buffer_after(buffer, id, d), id, d) == decoded(
            t,
            buffer,
            id,
            d,
        ),
{
    assert(d.take(d.len() as int) == d);
    a_short_frame_does_no_more_than_the_whole(t, buffer, id, d, d.len() as int);
}

/// Whether `l` and `r` show the same of what frames with the identifier `id`
/// carry.
#[verifier::opaque]
pub open spec fn agree(id: u16, l: TelemetryView, r: TelemetryView) -> bool {
    if id == ID_MOTION {
        l.speed_kmh == r.speed_kmh && l.power == r.power && l.efficiency_percent
            == r.efficiency_percent && l.gear == r.gear && l.ready == r.ready
    } else if id == ID_ENERGY {
        l.battery_level == r.battery_level && l.fuel_level == r.fuel_level && l.range_km
            == r.range_km && l.avg_efficiency_kwh == r.avg_efficiency_kwh && l.outside_temp_c
            == r.outside_temp_c
    } else if id == ID_TRIP {
        l.odo_km == r.odo_km && l.trip_seconds == r.trip_seconds
    } else if id == ID_ADAS {
        l.cruise_speed_kmh == r.cruise_speed_kmh && l.cruise == r.cruise && l.lane == r.lane
            && l.lta_on == r.lta_on && l.lca_on == r.lca_on && l.turn_distance_km
            == r.turn_distance_km
    } else if id == ID_TELLTALES {
        l.turn_left == r.turn_left && l.turn_right == r.turn_right && l.headlights == r.headlights
            && l.parking_brake == r.parking_brake && l.seatbelt == r.seatbelt && l.door_open
            == r.door_open && l.engine == r.engine && l.oil == r.oil && l.battery_warn
            == r.battery_warn && l.abs == r.abs
    } else {
        l.turn_street == r.turn_street
    }
}

proof fn agreeing_in_everything_is_being_the_same(l: TelemetryView, r: TelemetryView)
    requires
        agree(ID_MOTION, l, r),
        agree(ID_ENERGY, l, r),
        agree(ID_TRIP, l, r),
        agree(ID_ADAS, l, r),
        agree(ID_TELLTALES, l, r),
        agree(ID_STREET, l, r),
    ensures
        l == r,
{
    reveal(agree);
}

proof fn agreement_carries_over(id: u16, a: TelemetryView, b: TelemetryView, c: TelemetryView)
    ensures
        agree(id, a, a),
        agree(id, a, b) ==> agree(id, b, a),
        agree(id, a, b) && agree(id, b, c) ==> agree(id, a, c),
{
    reveal(agree);
}

proof fn motion_leaves_the_rest(t: TelemetryView, d: Seq<u8>, other: u16)
    requires
        known(other),
        other != ID_MOTION,
    ensures
        agree(other, after_motion(t, d), t),
{
    reveal(agree);
}

proof fn energy_leaves_the_rest(t: TelemetryView, d: Seq<u8>, other: u16)
    requires
        known(other),
        other != ID_ENERGY,
    ensures
        agree(other, after_energy(t, d), t),
{
    reveal(agree);
}

proof fn trip_leaves_the_rest(t: TelemetryView, d: Seq<u8>, other: u16)
    requires
        known(other),
        other != ID_TRIP,
    ensures
        agree(other, after_trip(t, d), t),
{
    reveal(agree);
}

proof fn adas_leaves_the_rest(t: TelemetryView, d: Seq<u8>, other: u16)
    requires
        known(other),
        other != ID_ADAS,
    ensures
        agree(other, after_adas(t, d), t),
{
    reveal(agree);
}

proof fn telltales_leaves_the_rest(t: TelemetryView, d: Seq<u8>, other: u16)
    requires
        known(other),
        other != ID_TELLTALES,
    ensures
        agree(other, after_telltales(t, d), t),
{
    reveal(agree);
}

/// A frame updates only the fields it carries; the rest keeps its last value.
pub proof fn a_frame_updates_only_its_own_fields(
    t: TelemetryView,
    buffer: Seq<u8>,
    id: u16,
    d: Seq<u8>,
    other: u16,
)
    requires
        known(other),
        id != other,
    ensures
        agree(other, decoded(t, buffer, id, d), t),
        !known(id) ==> decoded(t, buffer, id, d) == t,
{
    if id == ID_MOTION {
        motion_leaves_the_rest(t, d, other);
    } else if id == ID_ENERGY {
        energy_leaves_the_rest(t, d, other);
    } else if id == ID_TRIP {
        trip_leaves_the_rest(t, d, other);
    } else if id == ID_ADAS {
        adas_leaves_the_rest(t, d, other);
    } else if id == ID_TELLTALES {
        telltales_leaves_the_rest(t, d, other);
    } else {
        reveal(agree);
    }
}

proof fn motion_is_local(l: TelemetryView, r: TelemetryView, d: Seq<u8>)
    requires
        agree(ID_MOTION, l, r),
    ensures
        agree(ID_MOTION, after_motion(l, d), after_motion(r, d)),
{
    reveal(agree);
}

proof fn energy_is_local(l: TelemetryView, r: TelemetryView, d: Seq<u8>)
    requires
        agree(ID_ENERGY, l, r),
    ensures
        agree(ID_ENERGY, after_energy(l, d), after_energy(r, d)),
{
    reveal(agree);
}

proof fn trip_is_local(l: TelemetryView, r: TelemetryView, d: Seq<u8>)
    requires
        agree(ID_TRIP, l, r),
    ensures
        agree(ID_TRIP, after_trip(l, d), after_trip(r, d)),
{
    reveal(agree);
}

proof fn adas_is_local(l: TelemetryView, r: TelemetryView, d: Seq<u8>)
    requires
        agree(ID_ADAS, l, r),
    ensures
        agree(ID_ADAS, after_adas(l, d), after_adas(r, d)),
{
    reveal(agree);
}

proof fn telltales_is_local(l: TelemetryView, r: TelemetryView, d: Seq<u8>)
    requires
        agree(ID_TELLTALES, l, r),
    ensures
        agree(ID_TELLTALES, after_telltales(l, d), after_telltales(r, d)),
{
    reveal(agree);
}

/// What a frame makes of the fields it carries depends on nothing but them.
proof fn a_frame_looks_only_at_its_own_fields(
    l: TelemetryView,
    r: TelemetryView,
    buffer: Seq<u8>,
    id: u16,
    d: Seq<u8>,
)
    requires
        known(id),
        agree(id, l, r),
    ensures
        agree(id, decoded(l, buffer, id, d), decoded(r, buffer, id, d)),
{
    if id == ID_MOTION {
        motion_is_local(l, r, d);
    } else if id == ID_ENERGY {
        energy_is_local(l, r, d);
    } else if id == ID_TRIP {
        trip_is_local(l, r, d);
    } else if id == ID_ADAS {
        adas_is_local(l, r, d);
    } else if id == ID_TELLTALES {
        telltales_is_local(l, r, d);
    } else {
        assert(agree(id, decoded(l, buffer, id, d), decoded(r, buffer, id, d))) by {
            reveal(agree);
        }
    }
}

/// Of two frames with different identifiers, the first has the last word on
/// its own fields even if the other comes after it.
proof fn the_other_frame_does_not_matter(
    t: TelemetryView,
    buffer: Seq<u8>,
    a: MessageView,
    b: MessageView,
)
    requires
        known(a.id),
        a.id != b.id,
    ensures
        ({
            let first = decoded(t, buffer, a.id, a.data);
            let l = decoded(first, buffer_after(buffer, a.id, a.data), b.id, b.data);
            let r = decoded(
                decoded(t, buffer, b.id, b.data),
                buffer_after(buffer, b.id, b.data),
                a.id,
                a.data,
            );
            agree(a.id, l, r)
        }),
{
    let first = decoded(t, buffer, a.id, a.data);
    let l = decoded(first, buffer_after(buffer, a.id, a.data), b.id, b.data);
    let y = decoded(t, buffer, b.id, b.data);
    let r = decoded(y, buffer_after(buffer, b.id, b.data), a.id, a.data);
    a_frame_updates_only_its_own_fields(
        first,
        buffer_after(buffer, a.id, a.data),
        b.id,
        b.data,
        a.id,
    );
    a_frame_updates_only_its_own_fields(t, buffer, b.id, b.data, a.id);
    let after = buffer_after(buffer, b.id, b.data);
    a_frame_looks_only_at_its_own_fields(y, t, after, a.id, a.data);
    if a.id == ID_STREET {
        assert(after == buffer);
    }
    assert(decoded(t, after, a.id, a.data) == first);
    agreement_carries_over(a.id, l, first, r);
    agreement_carries_over(a.id, r, first, l);
}

/// Frames with different identifiers may come in either order.
pub proof fn frames_of_different_kinds_commute(
    t: TelemetryView,
    buffer: Seq<u8>,
    a: MessageView,
    b: MessageView,
)
    requires
        a.id != b.id,
    ensures
        replayed(t, buffer, seq![a, b]) == replayed(t, buffer, seq![b, a]),
{
    let none = Seq::<MessageView>::empty();
    replay_of_one_more(t, buffer, none, a);
    replay_of_one_more(t, buffer, none.push(a), b);
    replay_of_one_more(t, buffer, none, b);
    replay_of_one_more(t, buffer, none.push(b), a);
    assert(none.push(a).push(b) == seq![a, b]);
    assert(none.push(b).push(a) == seq![b, a]);
    let x = decoded(t, buffer, a.id, a.data);
    let y = decoded(t, buffer, b.id, b.data);
    let after_a = buffer_after(buffer, a.id, a.data);
    let after_b = buffer_after(buffer, b.id, b.data);
    let l = decoded(x, after_a, b.id, b.data);
    let r = decoded(y, after_b, a.id, a.data);
    assert forall|id: u16| known(id) implies #[trigger] agree(id, l, r) by {
        if id == a.id {
            the_other_frame_does_not_matter(t, buffer, a, b);
        } else if id == b.id {
            the_other_frame_does_not_matter(t, buffer, b, a);
            agreement_carries_over(id, r, l, r);
        } else {
            a_frame_updates_only_its_own_fields(t, buffer, a.id, a.data, id);
            a_frame_updates_only_its_own_fields(x, after_a, b.id, b.data, id);
            a_frame_updates_only_its_own_fields(t, buffer, b.id, b.data, id);
            a_frame_updates_only_its_own_fields(y, after_b, a.id, a.data, id);
            agreement_carries_over(id, l, x, t);
            agreement_carries_over(id, r, y, t);
            agreement_carries_over(id, r, t, l);
            agreement_carries_over(id, l, t, r);
        }
    }
    agreeing_in_everything_is_being_the_same(l, r);
}

/// A frame too short to carry any field changes nothing.
pub proof fn a_frame_without_a_whole_field_changes_nothing(
    t: TelemetryView,
    buffer: Seq<u8>,
    id: u16,
    d: Seq<u8>,
)
    requires
        d.len() == 0 || (d.len() == 1 && id == ID_MOTION) || (d.len() <= 3 && id == ID_TRIP),
    ensures
        decoded(t, buffer, id, d) == t,
        buffer_after(buffer, id, d) == buffer,
{
}

/// How many bytes of a frame its fields take.
pub open spec fn used_bytes(id: u16) -> int {
    if id == ID_MOTION || id == ID_ENERGY {
        7
    } else if id == ID_ADAS {
        6
    } else if id == ID_TELLTALES {
        5
    } else {
        8
    }
}

/// Bytes past the fields of a frame are reserved: whatever they are, they do not
/// count.
pub proof fn reserved_bytes_do_not_count(t: TelemetryView, buffer: Seq<u8>, id: u16, d: Seq<u8>)
    requires
        d.len() >= used_bytes(id),
    ensures
        decoded(t, buffer, id, d.take(used_bytes(id))) == decoded(t, buffer, id, d),
        buffer_after(buffer, id, d.take(used_bytes(id))) == buffer_after(buffer, id, d),
{
    let cut = d.take(used_bytes(id));
    if id == ID_MOTION {
        same_fields(after_motion(t, cut), after_motion(t, d));
    } else if id == ID_ENERGY {
        same_fields(after_energy(t, cut), after_energy(t, d));
    } else if id == ID_TRIP {
        same_fields(after_trip(t, cut), after_trip(t, d));
    } else if id == ID_ADAS {
        same_fields(after_adas(t, cut), after_adas(t, d));
    } else if id == ID_TELLTALES {
        same_fields(after_telltales(t, cut), after_telltales(t, d));
    } else if is_chunk(d) {
        assert(with_chunk(buffer, cut) == with_chunk(buffer, d));
    }
}

} // verus!
