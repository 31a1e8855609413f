//! What the bytes of a CAN frame mean, and which bytes a frame consists of.

use socketcan::CanFrame;
use vstd::prelude::*;
use vstd::utf8::{encode_utf8, is_char_boundary};

use crate::bus::{
    after_frame, carries, frame_data, frame_extended, frame_id, frame_is_data, frame_length,
    message_in, understood,
};
use crate::can::{
    boundary_upto, buffer_after, code_of_beam, code_of_cruise, code_of_lane, decoded, encoded,
    gear_byte, known, lamp_flags, scaled, street_bytes, street_messages, weight, zero_from,
    MessageView,
};
use crate::fixed::{clamped, rounded_product};
use crate::street_laws::a_name_is_cut_between_characters;
use crate::telemetry::{Beam, Cruise, Lane, TelemetryView, Warn};
use crate::text::text_of;

verus! {

// ----- short frames ------------------------------------------------------------------

/// A motion frame cut to its first `n` bytes sets every field that these bytes
/// fully contain, to what the whole frame sets it to, and leaves every other
/// field as it was.
pub proof fn a_short_motion_frame_sets_what_it_contains(
    t: TelemetryView,
    buffer: Seq<u8>,
    whole: Seq<u8>,
    n: int,
)
    requires
        0 <= n <= 8 <= whole.len(),
    ensures
        ({
            let short = decoded(t, buffer, 0x100, whole.take(n));
            let full = decoded(t, buffer, 0x100, whole);
            short == (TelemetryView {
                speed_kmh: if n >= 2 {
                    full.speed_kmh
                } else {
                    t.speed_kmh
                },
                power: if n >= 4 {
                    full.power
                } else {
                    t.power
                },
                efficiency_percent: if n >= 5 {
                    full.efficiency_percent
                } else {
                    t.efficiency_percent
                },
                gear: if n >= 6 {
                    full.gear
                } else {
                    t.gear
                },
                ready: if n >= 7 {
                    full.ready
                } else {
                    t.ready
                },
                ..t
            })
        }),
{
}

/// A energy frame cut to its first `n` bytes sets every field that these bytes
/// fully contain, to what the whole frame sets it to, and leaves every other
/// field as it was.
pub proof fn a_short_energy_frame_sets_what_it_contains(
    t: TelemetryView,
    buffer: Seq<u8>,
    whole: Seq<u8>,
    n: int,
)
    requires
        0 <= n <= 8 <= whole.len(),
    ensures
        ({
            let short = decoded(t, buffer, 0x101, whole.take(n));
            let full = decoded(t, buffer, 0x101, whole);
            short == (TelemetryView {
                battery_level: if n >= 1 {
                    full.battery_level
                } else {
                    t.battery_level
                },
                fuel_level: if n >= 2 {
                    full.fuel_level
                } else {
                    t.fuel_level
                },
                range_km: if n >= 4 {
                    full.range_km
                } else {
                    t.range_km
                },
                avg_efficiency_kwh: if n >= 6 {
                    full.avg_efficiency_kwh
                } else {
                    t.avg_efficiency_kwh
                },
                outside_temp_c: if n >= 7 {
                    full.outside_temp_c
                } else {
                    t.outside_temp_c
                },
                ..t
            })
        }),
{
}

/// A trip frame cut to its first `n` bytes sets every field that these bytes
/// fully contain, to what the whole frame sets it to, and leaves every other
/// field as it was.
pub proof fn a_short_trip_frame_sets_what_it_contains(
    t: TelemetryView,
    buffer: Seq<u8>,
    whole: Seq<u8>,
    n: int,
)
    requires
        0 <= n <= 8 <= whole.len(),
    ensures
        ({
            let short = decoded(t, buffer, 0x102, whole.take(n));
            let full = decoded(t, buffer, 0x102, whole);
            short == (TelemetryView {
                odo_km: if n >= 4 {
                    full.odo_km
                } else {
                    t.odo_km
                },
                trip_seconds: if n >= 8 {
                    full.trip_seconds
                } else {
                    t.trip_seconds
                },
                ..t
            })
        }),
{
}

/// A assistance frame cut to its first `n` bytes sets every field that these bytes
/// fully contain, to what the whole frame sets it to, and leaves every other
/// field as it was.
pub proof fn a_short_assistance_frame_sets_what_it_contains(
    t: TelemetryView,
    buffer: Seq<u8>,
    whole: Seq<u8>,
    n: int,
)
    requires
        0 <= n <= 8 <= whole.len(),
    ensures
        ({
            let short = decoded(t, buffer, 0x103, whole.take(n));
            let full = decoded(t, buffer, 0x103, whole);
            short == (TelemetryView {
                cruise_speed_kmh: if n >= 1 {
                    full.cruise_speed_kmh
                } else {
                    t.cruise_speed_kmh
                },
                cruise: if n >= 2 {
                    full.cruise
                } else {
                    t.cruise
                },
                lane: if n >= 3 {
                    full.lane
                } else {
                    t.lane
                },
                lta_on: if n >= 4 {
                    full.lta_on
                } else {
                    t.lta_on
                },
                lca_on: if n >= 4 {
                    full.lca_on
                } else {
                    t.lca_on
                },
                turn_distance_km: if n >= 6 {
                    full.turn_distance_km
                } else {
                    t.turn_distance_km
                },
                ..t
            })
        }),
{
}

/// The lamps of a telltale frame are set by a frame cut to its first `n` bytes if
/// these fully contain them, to what the whole frame sets them to, and are left
/// as they were otherwise.
pub proof fn a_short_telltale_frame_sets_the_lamps_it_contains(
    t: TelemetryView,
    buffer: Seq<u8>,
    whole: Seq<u8>,
    n: int,
)
    requires
        0 <= n <= 8 <= whole.len(),
    ensures
        ({
            let short = decoded(t, buffer, 0x104, whole.take(n));
            let full = decoded(t, buffer, 0x104, whole);
            &&& short.turn_left == if n >= 1 {
                full.turn_left
            } else {
                t.turn_left
            }
            &&& short.turn_right == if n >= 1 {
                full.turn_right
            } else {
                t.turn_right
            }
            &&& short.headlights == if n >= 1 {
                full.headlights
            } else {
                t.headlights
            }
            &&& short.parking_brake == if n >= 1 {
                full.parking_brake
            } else {
                t.parking_brake
            }
            &&& short.seatbelt == if n >= 1 {
                full.seatbelt
            } else {
                t.seatbelt
            }
            &&& short.door_open == if n >= 1 {
                full.door_open
            } else {
                t.door_open
            }
        }),
{
}

/// The warnings of a telltale frame are set by a frame cut to its first `n` bytes if
/// these fully contain them, to what the whole frame sets them to, and are left
/// as they were otherwise.
pub proof fn a_short_telltale_frame_sets_the_warnings_it_contains(
    t: TelemetryView,
    buffer: Seq<u8>,
    whole: Seq<u8>,
    n: int,
)
    requires
        0 <= n <= 8 <= whole.len(),
    ensures
        ({
            let short = decoded(t, buffer, 0x104, whole.take(n));
            let full = decoded(t, buffer, 0x104, whole);
            &&& short.engine == if n >= 2 {
                full.engine
            } else {
                t.engine
            }
            &&& short.oil == if n >= 3 {
                full.oil
            } else {
                t.oil
            }
            &&& short.battery_warn == if n >= 4 {
                full.battery_warn
            } else {
                t.battery_warn
            }
            &&& short.abs == if n >= 5 {
                full.abs
            } else {
                t.abs
            }
        }),
{
}

// ----- the numbers in a frame --------------------------------------------------------

/// A motion frame, as far as it goes: the speed in hundredths of a km/h and the
/// power in thousandths, two bytes each with the lower one first and the power
/// signed; the efficiency in percent; the gear as a character; and the lowest
/// bit of byte 6 for a drivetrain that is ready.
pub proof fn what_a_motion_frame_says(t: TelemetryView, buffer: Seq<u8>, d: Seq<u8>)
    ensures
        ({
            let r = decoded(t, buffer, 0x100, d);
            &&& d.len() >= 2 ==> r.speed_kmh == 10_000 * (d[0] + 256 * d[1])
            &&& d.len() >= 4 && d[3] < 128 ==> r.power == 1_000 * (d[2] + 256 * d[3])
            &&& d.len() >= 4 && d[3] >= 128 ==> r.power == 1_000 * (d[2] + 256 * d[3] - 65_536)
            &&& d.len() >= 5 ==> r.efficiency_percent == 1_000_000 * d[4]
            &&& d.len() >= 6 ==> r.gear as u32 == d[5]
            &&& d.len() >= 7 ==> (r.ready <==> d[6] % 2 == 1)
        }),
{
    if d.len() >= 7 {
        let f = d[6];
        assert(f & 1 != 0 <==> f % 2 == 1) by (bit_vector);
    }
}

/// An energy frame, as far as it goes: charge and fuel in percent, the range in
/// whole km and the average in hundredths, two bytes each with the lower one
/// first, and the temperature as a signed byte.
pub proof fn what_an_energy_frame_says(t: TelemetryView, buffer: Seq<u8>, d: Seq<u8>)
    ensures
        ({
            let r = decoded(t, buffer, 0x101, d);
            &&& d.len() >= 1 ==> 100 * r.battery_level == 1_000_000 * d[0]
            &&& d.len() >= 2 ==> 100 * r.fuel_level == 1_000_000 * d[1]
            &&& d.len() >= 4 ==> r.range_km == 1_000_000 * (d[2] + 256 * d[3])
            &&& d.len() >= 6 ==> r.avg_efficiency_kwh == 10_000 * (d[4] + 256 * d[5])
            &&& d.len() >= 7 && d[6] < 128 ==> r.outside_temp_c == d[6]
            &&& d.len() >= 7 && d[6] >= 128 ==> r.outside_temp_c == d[6] - 256
        }),
{
}

/// A trip frame, as far as it goes: the odometer in tenths of a km and the time
/// in seconds, four bytes each with the lowest one first.
pub proof fn what_a_trip_frame_says(t: TelemetryView, buffer: Seq<u8>, d: Seq<u8>)
    ensures
        ({
            let r = decoded(t, buffer, 0x102, d);
            &&& d.len() >= 4 ==> r.odo_km == 100_000 * (d[0] + 256 * (d[1] + 256 * (d[2] + 256
                * d[3])))
            &&& d.len() >= 8 ==> r.trip_seconds == d[4] + 256 * (d[5] + 256 * (d[6] + 256 * d[7]))
        }),
{
}

/// An assistance frame, as far as it goes: the set speed in km/h, the states of
/// cruise control and lane keeping by their numbers, any other number being off,
/// a bit each for lane tracing and lane change, and the distance to the turn in
/// hundredths of a km.
pub proof fn what_an_assistance_frame_says(t: TelemetryView, buffer: Seq<u8>, d: Seq<u8>)
    ensures
        ({
            let r = decoded(t, buffer, 0x103, d);
            &&& d.len() >= 1 ==> r.cruise_speed_kmh == 1_000_000 * d[0]
            &&& d.len() >= 2 ==> (r.cruise == Cruise::Armed <==> d[1] == 1)
            &&& d.len() >= 2 ==> (r.cruise == Cruise::Active <==> d[1] == 2)
            &&& d.len() >= 3 ==> (r.lane == Lane::Tracking <==> d[2] == 1)
            &&& d.len() >= 3 ==> (r.lane == Lane::Warn <==> d[2] == 2)
            &&& d.len() >= 3 ==> (r.lane == Lane::Depart <==> d[2] == 3)
            &&& d.len() >= 4 ==> (r.lta_on <==> d[3] % 2 == 1)
            &&& d.len() >= 4 ==> (r.lca_on <==> d[3] / 2 % 2 == 1)
            &&& d.len() >= 6 ==> r.turn_distance_km == 10_000 * (d[4] + 256 * d[5])
        }),
{
    if d.len() >= 4 {
        let f = d[3];
        assert(f & 1 != 0 <==> f % 2 == 1) by (bit_vector);
        assert(f & 2 != 0 <==> f / 2 % 2 == 1) by (bit_vector);
    }
}

/// The lamps of a telltale frame: a bit each from the lowest up for left and
/// right, two for the headlights, then parking brake, belt and door.
pub proof fn what_the_lamp_byte_says(t: TelemetryView, buffer: Seq<u8>, d: Seq<u8>)
    requires
        d.len() >= 1,
    ensures
        ({
            let r = decoded(t, buffer, 0x104, d);
            &&& r.turn_left <==> d[0] % 2 == 1
            &&& r.turn_right <==> d[0] / 2 % 2 == 1
            &&& r.headlights == Beam::Low <==> d[0] / 4 % 4 == 1
            &&& r.headlights == Beam::High <==> d[0] / 4 % 4 == 2
            &&& r.parking_brake <==> d[0] / 16 % 2 == 1
            &&& r.seatbelt <==> d[0] / 32 % 2 == 1
            &&& r.door_open <==> d[0] / 64 % 2 == 1
        }),
{
    let f = d[0];
    assert(f & 1 != 0 <==> f % 2 == 1) by (bit_vector);
    assert(f & 2 != 0 <==> f / 2 % 2 == 1) by (bit_vector);
    assert((f >> 2) & 3 == f / 4 % 4) by (bit_vector);
    assert(f & 0x10 != 0 <==> f / 16 % 2 == 1) by (bit_vector);
    assert(f & 0x20 != 0 <==> f / 32 % 2 == 1) by (bit_vector);
    assert(f & 0x40 != 0 <==> f / 64 % 2 == 1) by (bit_vector);
}

/// Whether the number `code` stands for the lamp `w`: 1 amber, 2 red, any other
/// off.
pub open spec fn stands_for(code: u8, w: Warn) -> bool {
    &&& w == Warn::Amber <==> code == 1
    &&& w == Warn::Red <==> code == 2
}

/// The warning lamps of a telltale frame, as far as it goes: engine, oil,
/// battery and ABS by their numbers, a byte each.
pub proof fn what_the_warning_bytes_say(t: TelemetryView, buffer: Seq<u8>, d: Seq<u8>)
    ensures
        ({
            let r = decoded(t, buffer, 0x104, d);
            &&& d.len() >= 2 ==> stands_for(d[1], r.engine)
            &&& d.len() >= 3 ==> stands_for(d[2], r.oil)
            &&& d.len() >= 4 ==> stands_for(d[3], r.battery_warn)
            &&& d.len() >= 5 ==> stands_for(d[4], r.abs)
        }),
{
}

/// A frame with any other identifier than the six says nothing.
pub proof fn other_frames_say_nothing(t: TelemetryView, buffer: Seq<u8>, id: u16, d: Seq<u8>)
    requires
        id < 0x100 || id > 0x105,
    ensures
        decoded(t, buffer, id, d) == t,
        buffer_after(buffer, id, d) == buffer,
        !known(id),
{
}

/// Only street frames touch the buffer.
pub proof fn only_street_frames_touch_the_buffer(buffer: Seq<u8>, id: u16, d: Seq<u8>)
    requires
        id != 0x105,
    ensures
        buffer_after(buffer, id, d) == buffer,
{
}

/// The six identifiers are known.
pub proof fn six_identifiers_are_known(id: u16)
    requires
        0x100 <= id <= 0x105,
    ensures
        known(id),
{
}

/// A frame of a bus is a message if and only if it is a data frame with a standard
/// identifier and at most eight bytes, and then the message is what the frame
/// holds.
pub proof fn which_frames_are_messages(frame: CanFrame)
    ensures
        message_in(frame) is Some <==> frame_is_data(frame) && !frame_extended(frame)
            && frame_length(frame) <= 8,
        message_in(frame) is Some ==> message_in(frame)->0 == (
            frame_id(frame) as u16,
            frame_data(frame),
        ),
{
}

/// A frame that carries a message with a standard identifier brings exactly that
/// message: it does to a receiver what decoding the message does. A frame that is
/// no message does nothing.
pub proof fn a_frame_brings_its_message(
    t: TelemetryView,
    buffer: Seq<u8>,
    frame: CanFrame,
    m: MessageView,
)
    requires
        m.data.len() <= 8,
    ensures
        carries(frame, m) && m.id <= 0x7ff ==> message_in(frame) == Some((m.id, m.data)),
        carries(frame, m) && m.id <= 0x7ff ==> after_frame(t, buffer, frame) == (
            decoded(t, buffer, m.id, m.data),
            buffer_after(buffer, m.id, m.data),
        ),
        carries(frame, m) && m.id <= 0x7ff ==> (understood(frame) <==> 0x100 <= m.id <= 0x105),
        carries(frame, m) && m.id > 0x7ff ==> message_in(frame) is None,
        message_in(frame) is None ==> after_frame(t, buffer, frame) == (t, buffer) && !understood(
            frame,
        ),
{
}

// ----- street names ------------------------------------------------------------------

/// What a street frame does to the buffer: its text, up to seven bytes and zeros
/// for those that it does not have, replaces that of its chunk. Chunk 0 clears
/// the others; any other chunk leaves them.
pub proof fn where_a_chunk_goes(buffer: Seq<u8>, d: Seq<u8>, k: int)
    requires
        d.len() >= 1,
        d[0] <= 3,
        0 <= k < 28,
    ensures
        ({
            let r = buffer_after(buffer, 0x105, d);
            let place = k - 7 * d[0];
            &&& r.len() == 28
            &&& 0 <= place < 7 && place + 1 < d.len() ==> r[k] == d[place + 1]
            &&& 0 <= place < 7 && place + 1 >= d.len() ==> r[k] == 0
            &&& !(0 <= place < 7) && d[0] == 0 ==> r[k] == 0
            &&& !(0 <= place < 7) && d[0] > 0 ==> r[k] == buffer[k]
        }),
{
}

/// A street frame without a chunk number, or with one out of range, is ignored.
pub proof fn a_frame_without_a_chunk_is_ignored(t: TelemetryView, buffer: Seq<u8>, d: Seq<u8>)
    requires
        d.len() == 0 || d[0] > 3,
    ensures
        decoded(t, buffer, 0x105, d) == t,
        buffer_after(buffer, 0x105, d) == buffer,
{
}

/// The name shown is the text of the buffer up to its first zero byte, or of all
/// of it.
pub proof fn a_name_ends_at_the_first_zero(t: TelemetryView, buffer: Seq<u8>, d: Seq<u8>, end: int)
    requires
        d.len() >= 1,
        d[0] <= 3,
        0 <= end <= 28,
        forall|k: int| 0 <= k < end ==> buffer_after(buffer, 0x105, d)[k] != 0,
        end < 28 ==> buffer_after(buffer, 0x105, d)[end] == 0,
    ensures
        decoded(t, buffer, 0x105, d) == (TelemetryView {
            turn_street: text_of(buffer_after(buffer, 0x105, d).take(end)),
            ..t
        }),
{
    first_zero(buffer_after(buffer, 0x105, d), 0, end);
}

proof fn first_zero(bytes: Seq<u8>, i: int, end: int)
    requires
        0 <= i <= end <= bytes.len(),
        forall|k: int| i <= k < end ==> bytes[k] != 0,
        end < bytes.len() ==> bytes[end] == 0,
    ensures
        zero_from(bytes, i) == end,
    decreases end - i,
{
    if i < end {
        first_zero(bytes, i + 1, end);
    }
}

/// The chunks after the first may come in any order.
pub proof fn later_chunks_commute(buffer: Seq<u8>, a: Seq<u8>, b: Seq<u8>)
    requires
        a.len() >= 1,
        b.len() >= 1,
        1 <= a[0] <= 3,
        1 <= b[0] <= 3,
        a[0] != b[0],
    ensures
        buffer_after(buffer_after(buffer, 0x105, a), 0x105, b) == buffer_after(
            buffer_after(buffer, 0x105, b),
            0x105,
            a,
        ),
{
    assert(buffer_after(buffer_after(buffer, 0x105, a), 0x105, b) =~= buffer_after(
        buffer_after(buffer, 0x105, b),
        0x105,
        a,
    ));
}

/// As much of a name is sent as fits: all of it up to 28 bytes, and of a longer
/// one no character boundary lies between the cut and the limit.
pub proof fn as_much_of_a_name_is_sent_as_fits(name: Seq<char>, b: int)
    ensures
        ({
            let bytes = encode_utf8(name);
            let sent = street_bytes(name);
            &&& sent == bytes.take(sent.len() as int)
            &&& bytes.len() <= 28 ==> sent == bytes
            &&& bytes.len() > 28 && sent.len() < b <= 28 ==> !is_char_boundary(bytes, b)
        }),
{
    let bytes = encode_utf8(name);
    a_name_is_cut_between_characters(name);
    if bytes.len() > 28 {
        no_boundary_above(bytes, 28, b);
    } else {
        assert(bytes.take(bytes.len() as int) == bytes);
    }
}

proof fn no_boundary_above(bytes: Seq<u8>, n: int, b: int)
    requires
        0 <= n <= bytes.len(),
    ensures
        boundary_upto(bytes, n) <= n,
        0 <= boundary_upto(bytes, n),
        boundary_upto(bytes, n) < b <= n ==> !is_char_boundary(bytes, b),
    decreases n,
{
    if n > 0 && !is_char_boundary(bytes, n) {
        no_boundary_above(bytes, n - 1, b);
    }
}

/// The frames of a name carry its bytes seven by seven, each under its number
/// and the last one what is left; there are no more than are needed, and one for
/// an empty name.
pub proof fn a_name_is_sent_seven_by_seven(name: Seq<char>, k: int)
    ensures
        ({
            let sent = street_bytes(name);
            let frames = street_messages(name);
            let n = frames.len();
            &&& 1 <= n <= 4
            &&& sent.len() <= 7 * n
            &&& n > 1 ==> 7 * (n - 1) < sent.len()
            &&& 0 <= k < n ==> frames[k].id == 0x105 && frames[k].data.len() >= 1
                && frames[k].data[0] == k
            &&& 0 <= k < n - 1 ==> frames[k].data.skip(1) == sent.subrange(7 * k, 7 * k + 7)
            &&& k == n - 1 ==> frames[k].data.skip(1) == sent.skip(7 * k)
        }),
{
    a_name_is_cut_between_characters(name);
    let sent = street_bytes(name);
    let frames = street_messages(name);
    let n = frames.len();
    if 0 <= k < n - 1 {
        assert(frames[k].data.skip(1) == sent.subrange(7 * k, 7 * k + 7));
    }
    if k == n - 1 {
        assert(frames[k].data.skip(1) == sent.skip(7 * k));
    }
}

// ----- what is sent ------------------------------------------------------------------

/// The frames of a `Telemetry` are a motion, an energy, a trip, an assistance and
/// a telltale frame of eight bytes each, then the street frames. Bytes without a
/// field are zero.
pub proof fn five_frames_and_the_name(t: TelemetryView)
    ensures
        ({
            let e = encoded(t);
            &&& e.len() >= 6
            &&& e[0].id == 0x100 && e[0].data.len() == 8 && e[0].data[7] == 0
            &&& e[1].id == 0x101 && e[1].data.len() == 8 && e[1].data[7] == 0
            &&& e[2].id == 0x102 && e[2].data.len() == 8
            &&& e[3].id == 0x103 && e[3].data.len() == 8 && e[3].data[6] == 0 && e[3].data[7] == 0
            &&& e[4].id == 0x104 && e[4].data.len() == 8
            &&& e[4].data[5] == 0 && e[4].data[6] == 0 && e[4].data[7] == 0
            &&& e.skip(5) == street_messages(t.turn_street)
        }),
{
    assert(encoded(t).skip(5) == street_messages(t.turn_street));
}

/// Whether the field `q` holds `v` times `k`, rounded, or the end of the field's
/// range that is nearer to it.
pub open spec fn field_holds(q: int, v: int, k: int, lo: int, hi: int) -> bool {
    &&& lo <= q <= hi
    &&& rounded_product(v, k) >= hi ==> q == hi
    &&& rounded_product(v, k) <= lo ==> q == lo
    &&& lo <= rounded_product(v, k) <= hi ==> q == rounded_product(v, k)
}

/// Quantities are sent in the units of their fields, the lower byte first, and
/// what a field cannot hold as the nearest that it can.
pub proof fn quantities_are_sent_in_their_units(t: TelemetryView)
    ensures
        ({
            let m = encoded(t)[0].data;
            let e = encoded(t)[1].data;
            let a = encoded(t)[3].data;
            &&& field_holds(m[0] + 256 * m[1], t.speed_kmh as int, 100, 0, 65_535)
            &&& m[3] < 128 ==> field_holds(
                m[2] + 256 * m[3],
                t.power as int,
                1_000,
                -1_000,
                1_000,
            )
            &&& m[3] >= 128 ==> field_holds(
                m[2] + 256 * m[3] - 65_536,
                t.power as int,
                1_000,
                -1_000,
                1_000,
            )
            &&& field_holds(m[4] as int, t.efficiency_percent as int, 1, 0, 255)
            &&& field_holds(e[0] as int, t.battery_level as int, 100, 0, 100)
            &&& field_holds(e[1] as int, t.fuel_level as int, 100, 0, 100)
            &&& field_holds(e[2] + 256 * e[3], t.range_km as int, 1, 0, 65_535)
            &&& field_holds(e[4] + 256 * e[5], t.avg_efficiency_kwh as int, 100, 0, 65_535)
            &&& field_holds(a[0] as int, t.cruise_speed_kmh as int, 1, 0, 255)
            &&& field_holds(a[4] + 256 * a[5], t.turn_distance_km as int, 100, 0, 65_535)
        }),
{
    let power = scaled(t.power, 1_000, -1000, 1000);
    let m = encoded(t)[0].data;
    assert(m[2] + 256 * m[3] == power % 65_536);
}

/// The odometer is sent in tenths of a km and the trip time in seconds, the
/// lowest byte first.
pub proof fn counters_are_sent_in_their_units(t: TelemetryView)
    ensures
        ({
            let d = encoded(t)[2].data;
            &&& field_holds(
                d[0] + 256 * (d[1] + 256 * (d[2] + 256 * d[3])),
                t.odo_km as int,
                10,
                0,
                0xffff_ffff,
            )
            &&& d[4] + 256 * (d[5] + 256 * (d[6] + 256 * d[7])) == t.trip_seconds
        }),
{
}

/// The gear is sent as an ASCII character, any other as '?', and a drivetrain that
/// is ready as a 1.
pub proof fn gear_and_readiness_are_sent(t: TelemetryView)
    ensures
        ({
            let m = encoded(t)[0].data;
            &&& t.gear as u32 <= 127 ==> m[5] == t.gear as u32
            &&& t.gear as u32 > 127 ==> m[5] == '?' as u32
            &&& m[6] == 1 <==> t.ready
            &&& m[6] <= 1
        }),
{
    let m = encoded(t)[0].data;
    assert(m[5] == gear_byte(t.gear));
    assert(m[6] == weight(t.ready, 1));
}

/// The temperature is sent as a signed byte, as far as one holds it.
pub proof fn the_temperature_is_sent(t: TelemetryView)
    ensures
        ({
            let temp = encoded(t)[1].data[6];
            &&& 0 <= t.outside_temp_c <= 127 ==> temp == t.outside_temp_c
            &&& -128 <= t.outside_temp_c < 0 ==> temp == t.outside_temp_c + 256
            &&& t.outside_temp_c > 127 ==> temp == 127
            &&& t.outside_temp_c < -128 ==> temp == 128
        }),
{
    let n = clamped(t.outside_temp_c as int, -128, 127);
    assert(encoded(t)[1].data[6] == (n % 256) as u8);
}

/// Cruise control and lane keeping are sent as numbers that count from off, lane
/// tracing and lane change as a bit each.
pub proof fn assistance_is_sent_by_numbers(t: TelemetryView)
    ensures
        ({
            let a = encoded(t)[3].data;
            &&& a[1] <= 2
            &&& a[1] == 1 <==> t.cruise == Cruise::Armed
            &&& a[1] == 2 <==> t.cruise == Cruise::Active
            &&& a[2] <= 3
            &&& a[2] == 1 <==> t.lane == Lane::Tracking
            &&& a[2] == 2 <==> t.lane == Lane::Warn
            &&& a[2] == 3 <==> t.lane == Lane::Depart
            &&& a[3] < 4
            &&& a[3] % 2 == 1 <==> t.lta_on
            &&& a[3] / 2 == 1 <==> t.lca_on
        }),
{
    let a = encoded(t)[3].data;
    assert(a[1] == code_of_cruise(t.cruise));
    assert(a[2] == code_of_lane(t.lane));
    assert(a[3] == weight(t.lta_on, 1) | weight(t.lca_on, 2));
    assert(0u8 | 0u8 == 0 && 1u8 | 0u8 == 1 && 0u8 | 2u8 == 2 && 1u8 | 2u8 == 3) by (bit_vector);
}

/// Whether `code` is the number of the lamp `w`.
pub open spec fn is_number_of(code: u8, w: Warn) -> bool {
    code <= 2 && stands_for(code, w)
}

/// Lamps are sent as a bit each, the headlights as two.
pub proof fn lamps_are_sent_as_bits(t: TelemetryView)
    ensures
        ({
            let f = encoded(t)[4].data[0];
            &&& f < 128
            &&& f % 2 == 1 <==> t.turn_left
            &&& f / 2 % 2 == 1 <==> t.turn_right
            &&& f / 4 % 4 < 3
            &&& f / 4 % 4 == 1 <==> t.headlights == Beam::Low
            &&& f / 4 % 4 == 2 <==> t.headlights == Beam::High
            &&& f / 16 % 2 == 1 <==> t.parking_brake
            &&& f / 32 % 2 == 1 <==> t.seatbelt
            &&& f / 64 % 2 == 1 <==> t.door_open
        }),
{
    the_lamp_byte(t);
    lamp_bits(
        t.turn_left,
        t.turn_right,
        code_of_beam(t.headlights),
        t.parking_brake,
        t.seatbelt,
        t.door_open,
    );
}

proof fn the_lamp_byte(t: TelemetryView)
    ensures
        encoded(t)[4].data[0] == lamp_flags(t),
{
}

/// Warning lamps are sent by their numbers.
pub proof fn warnings_are_sent_by_their_numbers(t: TelemetryView)
    ensures
        ({
            let d = encoded(t)[4].data;
            &&& is_number_of(d[1], t.engine)
            &&& is_number_of(d[2], t.oil)
            &&& is_number_of(d[3], t.battery_warn)
            &&& is_number_of(d[4], t.abs)
        }),
{
}

proof fn lamp_bits(left: bool, right: bool, h: u8, brake: bool, belt: bool, door: bool)
    requires
        h <= 2,
    ensures
        ({
            let f = weight(left, 1) | weight(right, 2) | (h << 2) | weight(brake, 0x10) | weight(
                belt,
                0x20,
            ) | weight(door, 0x40);
            &&& f < 128
            &&& f % 2 == 1 <==> left
            &&& f / 2 % 2 == 1 <==> right
            &&& f / 4 % 4 == h
            &&& f / 16 % 2 == 1 <==> brake
            &&& f / 32 % 2 == 1 <==> belt
            &&& f / 64 % 2 == 1 <==> door
        }),
{
    let l = weight(left, 1);
    let r = weight(right, 2);
    let p = weight(brake, 0x10);
    let s = weight(belt, 0x20);
    let o = weight(door, 0x40);
    let f = l | r | (h << 2) | p | s | o;
    assert(f < 128 && f % 2 == l && f / 2 % 2 == r / 2 && f / 4 % 4 == h && f / 16 % 2 == p / 16
        && f / 32 % 2 == s / 32 && f / 64 % 2 == o / 64) by (bit_vector)
        requires
            f == l | r | (h << 2) | p | s | o,
            l == 0 || l == 1,
            r == 0 || r == 2,
            h <= 2,
            p == 0 || p == 0x10,
            s == 0 || s == 0x20,
            o == 0 || o == 0x40,
    ;
}

} // verus!
