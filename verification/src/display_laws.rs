//! What can be read off the cluster: every text, angle and lamp level says what
//! the signal behind it is.

use chrono::NaiveTime;
use vstd::prelude::*;

use crate::display::{
    a_comma_stands_before_every_three_digits, clock_of, decimal, digit_char,
    grouping_only_adds_commas, hour_of, lit_at, minute_of, one_decimal, panel_of, shown_units,
    two_by_two, two_digits, without_commas,
};
use crate::fixed::{
    div_even, rounding_to_even_is_nearest, single, single_is_not_negative, Micro, SINGLE_UNIT,
};
use crate::telemetry::{Beam, Cruise, Lane, TelemetryView, Warn};

verus! {

// ----- reading numerals --------------------------------------------------------------

/// Whether `c` is a decimal digit.
pub open spec fn is_digit(c: char) -> bool {
    '0' <= c <= '9'
}

/// The number that the row of digits `s` stands for.
pub open spec fn reads_as(s: Seq<char>) -> int
    decreases s.len(),
{
    if s.len() == 0 {
        0
    } else {
        10 * reads_as(s.drop_last()) + (s.last() as int - '0' as int)
    }
}

/// Whether `s` is a numeral as people write them: at least one digit, nothing but
/// digits, and no needless zero in front.
pub open spec fn is_numeral(s: Seq<char>) -> bool {
    &&& s.len() >= 1
    &&& forall|i: int| 0 <= i < s.len() ==> is_digit(#[trigger] s[i])
    &&& s.len() > 1 ==> s[0] != '0'
}

/// Whether `s` is a numeral of at least two digits, filled up with a zero.
pub open spec fn is_long_numeral(s: Seq<char>) -> bool {
    &&& s.len() >= 2
    &&& forall|i: int| 0 <= i < s.len() ==> is_digit(#[trigger] s[i])
    &&& s.len() > 2 ==> s[0] != '0'
}

/// A number in decimal reads back as itself.
pub proof fn a_decimal_reads_back(n: int)
    requires
        0 <= n,
    ensures
        is_numeral(decimal(n)),
        reads_as(decimal(n)) == n,
        n > 0 ==> decimal(n)[0] != '0',
        n >= 10 ==> decimal(n).len() >= 2,
        n < 10 ==> decimal(n).len() == 1,
        n < 100 ==> decimal(n).len() <= 2,
    decreases n,
{
    reveal_with_fuel(decimal, 3);
    let s = decimal(n);
    let last = digit_char(n % 10);
    assert(is_digit(last) && last as int - '0' as int == n % 10);
    if n < 10 {
        assert(s.drop_last() == Seq::<char>::empty());
        assert(reads_as(s.drop_last()) == 0);
    } else {
        let head = decimal(n / 10);
        a_decimal_reads_back(n / 10);
        assert(s == head.push(last));
        assert(s.drop_last() == head);
        assert forall|i: int| 0 <= i < s.len() implies is_digit(#[trigger] s[i]) by {
            if i < head.len() {
                assert(s[i] == head[i]);
            }
        }
        assert(s[0] == head[0]);
    }
}

// ----- texts -------------------------------------------------------------------------

/// The temperature reads back: the text begins with a minus sign if and only if
/// it is below zero, and what follows is the numeral of its size.
pub proof fn the_temperature_reads_back(t: TelemetryView, blink: bool)
    ensures
        ({
            let s = panel_of(t, blink).outside_temp;
            let digits = if t.outside_temp_c < 0 {
                s.skip(1)
            } else {
                s
            };
            &&& s.len() >= 1
            &&& s[0] == '-' <==> t.outside_temp_c < 0
            &&& is_numeral(digits)
            &&& t.outside_temp_c < 0 ==> reads_as(digits) == -t.outside_temp_c
            &&& t.outside_temp_c >= 0 ==> reads_as(digits) == t.outside_temp_c
        }),
{
    let n = t.outside_temp_c as int;
    let size = if n < 0 {
        -n
    } else {
        n
    };
    a_decimal_reads_back(size);
    let s = panel_of(t, blink).outside_temp;
    if n < 0 {
        assert(s.skip(1) == decimal(size));
    } else {
        assert(is_digit(s[0]));
    }
}

/// Different temperatures are shown by different texts.
pub proof fn different_temperatures_look_different(t: TelemetryView, u: TelemetryView, blink: bool)
    requires
        t.outside_temp_c != u.outside_temp_c,
    ensures
        panel_of(t, blink).outside_temp != panel_of(u, blink).outside_temp,
{
    the_temperature_reads_back(t, blink);
    the_temperature_reads_back(u, blink);
}

/// Whether `k` is the count of whole units in `n` millionths, as single precision
/// holds them: none if that is negative, and no more than a `u32` holds.
pub open spec fn counts_units(k: int, n: int) -> bool {
    &&& n < 0 ==> k == 0
    &&& n >= 0 && single(n) < SINGLE_UNIT * 4_294_967_296 ==> SINGLE_UNIT * k <= single(n)
        < SINGLE_UNIT * (k + 1)
    &&& n >= 0 && single(n) >= SINGLE_UNIT * 4_294_967_296 ==> k == 4_294_967_295
}

proof fn units_are_counted(n: int)
    ensures
        counts_units(shown_units(n) as int, n),
{
    if n >= 0 {
        single_is_not_negative(n);
    }
}

/// Range and set speed are shown as the numerals of their whole units.
pub proof fn range_and_set_speed_read_back(t: TelemetryView, blink: bool)
    ensures
        ({
            let p = panel_of(t, blink);
            &&& is_numeral(p.range_km)
            &&& counts_units(reads_as(p.range_km), t.range_km as int)
            &&& is_numeral(p.cruise_speed)
            &&& counts_units(reads_as(p.cruise_speed), t.cruise_speed_kmh as int)
        }),
{
    units_are_counted(t.range_km as int);
    units_are_counted(t.cruise_speed_kmh as int);
    a_decimal_reads_back(shown_units(t.range_km as int) as int);
    a_decimal_reads_back(shown_units(t.cruise_speed_kmh as int) as int);
}

/// The odometer is shown as the numeral of its whole km, with a comma at every
/// fourth place from the right and nowhere else.
pub proof fn the_odometer_reads_back(t: TelemetryView, blink: bool)
    ensures
        ({
            let s = panel_of(t, blink).odo;
            &&& is_numeral(without_commas(s))
            &&& counts_units(reads_as(without_commas(s)), t.odo_km as int)
            &&& forall|i: int|
                0 <= i < s.len() ==> ((#[trigger] s[i]) == ',' <==> (s.len() - i) % 4 == 0)
        }),
{
    let k = shown_units(t.odo_km as int) as int;
    units_are_counted(t.odo_km as int);
    a_decimal_reads_back(k);
    grouping_only_adds_commas(k);
    a_comma_stands_before_every_three_digits(k);
}

/// Without its commas a text is what is left of it: the commas do not count, and
/// everything else stays in its place.
pub proof fn dropping_commas(a: Seq<char>, c: char)
    ensures
        without_commas(Seq::<char>::empty()) == Seq::<char>::empty(),
        c == ',' ==> without_commas(a.push(c)) == without_commas(a),
        c != ',' ==> without_commas(a.push(c)) == without_commas(a).push(c),
{
    assert(a.push(c).drop_last() == a);
}

/// Whether `s` shows `n` millionths with one decimal: a minus sign if and only if
/// that is negative, a numeral, a point and a digit, and these are the tenths
/// nearest to what single precision holds, of two that are equally near the even
/// ones.
pub open spec fn shows_tenths(s: Seq<char>, n: int) -> bool {
    let size = if n < 0 {
        -n
    } else {
        n
    };
    let body = if n < 0 {
        s.skip(1)
    } else {
        s
    };
    let q = 10 * reads_as(body.take(body.len() - 2)) + reads_as(body.skip(body.len() - 1));
    &&& s.len() >= 3
    &&& s[0] == '-' <==> n < 0
    &&& body.len() >= 3
    &&& is_numeral(body.take(body.len() - 2))
    &&& body[body.len() - 2] == '.'
    &&& is_digit(body[body.len() - 1])
    &&& 2 * (10 * single(size) - SINGLE_UNIT * q) <= SINGLE_UNIT
    &&& 2 * (SINGLE_UNIT * q - 10 * single(size)) <= SINGLE_UNIT
    &&& 2 * (10 * single(size) - SINGLE_UNIT * q) == SINGLE_UNIT ==> q % 2 == 0
    &&& 2 * (SINGLE_UNIT * q - 10 * single(size)) == SINGLE_UNIT ==> q % 2 == 0
}

proof fn tenths_are_shown(n: int)
    ensures
        shows_tenths(one_decimal(n), n),
{
    let size = if n < 0 {
        -n
    } else {
        n
    };
    single_is_not_negative(size);
    let x = 10 * single(size);
    let q = div_even(x, SINGLE_UNIT as int);
    rounding_to_even_is_nearest(x, SINGLE_UNIT as int);
    assert(q >= 0);
    a_decimal_reads_back(q / 10);
    let c = digit_char(q % 10);
    let s = one_decimal(n);
    let body = decimal(q / 10) + seq!['.', c];
    assert(is_digit(c) && c as int - '0' as int == q % 10);
    if n < 0 {
        assert(s.skip(1) == body);
    } else {
        assert(s == body);
        assert(s[0] == decimal(q / 10)[0]);
        assert(is_digit(decimal(q / 10)[0]));
    }
    assert(body.take(body.len() - 2) == decimal(q / 10));
    let tail = body.skip(body.len() - 1);
    assert(tail == seq![c]);
    assert(tail.drop_last() == Seq::<char>::empty());
    reveal_with_fuel(reads_as, 2);
    assert(reads_as(tail) == q % 10);
}

/// Average and distance to the turn are shown with one decimal, to the nearest.
pub proof fn decimals_read_back(t: TelemetryView, blink: bool)
    ensures
        shows_tenths(panel_of(t, blink).avg_efficiency, t.avg_efficiency_kwh as int),
        shows_tenths(panel_of(t, blink).turn_distance, t.turn_distance_km as int),
{
    tenths_are_shown(t.avg_efficiency_kwh as int);
    tenths_are_shown(t.turn_distance_km as int);
}

proof fn two_digits_read_back(n: int)
    requires
        0 <= n,
    ensures
        is_long_numeral(two_digits(n)),
        reads_as(two_digits(n)) == n,
        n < 100 ==> two_digits(n).len() == 2,
{
    a_decimal_reads_back(n);
    let s = two_digits(n);
    if n < 10 {
        let d = decimal(n);
        assert(s.drop_last() == seq!['0']);
        assert(seq!['0'].drop_last() == Seq::<char>::empty());
        assert(d.drop_last() == Seq::<char>::empty());
        reveal_with_fuel(reads_as, 3);
        assert(s.last() == d.last());
        assert forall|i: int| 0 <= i < s.len() implies is_digit(#[trigger] s[i]) by {
            if i == 1 {
                assert(s[1] == d[0]);
            }
        }
    }
}

/// A clock face reads back: before the colon the numeral of the one number, after
/// it the two digits of the other.
pub proof fn a_clock_face_reads_back(major: u32, minor: u32)
    requires
        minor < 60,
    ensures
        ({
            let s = two_by_two(major, minor);
            let colon = s.len() - 3;
            &&& s.len() >= 5
            &&& s[colon] == ':'
            &&& is_long_numeral(s.take(colon))
            &&& reads_as(s.take(colon)) == major
            &&& is_long_numeral(s.skip(colon + 1))
            &&& reads_as(s.skip(colon + 1)) == minor
        }),
{
    two_digits_read_back(major as int);
    two_digits_read_back(minor as int);
    let s = two_by_two(major, minor);
    let colon = s.len() - 3;
    assert(s.take(colon) == two_digits(major as int));
    assert(s.skip(colon + 1) == two_digits(minor as int));
}

/// The wall clock reads back: the hour before the colon, the minute after it.
pub proof fn the_wall_clock_reads_back(now: NaiveTime)
    requires
        minute_of(now) < 60,
    ensures
        ({
            let s = clock_of(now);
            let colon = s.len() - 3;
            &&& s.len() >= 5
            &&& s[colon] == ':'
            &&& is_long_numeral(s.take(colon))
            &&& reads_as(s.take(colon)) == hour_of(now)
            &&& is_long_numeral(s.skip(colon + 1))
            &&& reads_as(s.skip(colon + 1)) == minute_of(now)
        }),
{
    a_clock_face_reads_back(hour_of(now), minute_of(now));
}

/// The drive time reads back: sixty times its minutes and its seconds, fewer than
/// sixty, are the seconds of the trip.
pub proof fn the_drive_time_reads_back(t: TelemetryView, blink: bool)
    ensures
        ({
            let s = panel_of(t, blink).drive_time;
            let colon = s.len() - 3;
            &&& s.len() >= 5
            &&& s[colon] == ':'
            &&& is_long_numeral(s.take(colon))
            &&& is_long_numeral(s.skip(colon + 1))
            &&& reads_as(s.skip(colon + 1)) < 60
            &&& 60 * reads_as(s.take(colon)) + reads_as(s.skip(colon + 1)) == t.trip_seconds
        }),
{
    a_clock_face_reads_back(t.trip_seconds / 60, t.trip_seconds % 60);
}

// ----- angles, lamps and flags -------------------------------------------------------

/// The dial stands at 118 degrees for full power around -6 for none, and at a
/// stop, 138 degrees to either side, where that is past it.
pub proof fn the_dial_stands_where_the_power_is(t: TelemetryView, blink: bool)
    ensures
        ({
            let angle = panel_of(t, blink).charge_angle;
            let free = 118 * t.power - 6_000_000;
            &&& -138_000_000 <= free <= 138_000_000 ==> angle == free
            &&& free < -138_000_000 ==> angle == -138_000_000
            &&& free > 138_000_000 ==> angle == 138_000_000
        }),
{
}

/// Whether the lamp level `level` shows `w`: nothing for off, and more for worse.
pub open spec fn shows_warning(level: i32, w: Warn) -> bool {
    &&& 0 <= level <= 2
    &&& level == 0 <==> w == Warn::Off
    &&& level == 2 <==> w == Warn::Red
}

/// Every warning lamp shows its own warning.
pub proof fn warnings_are_shown(t: TelemetryView, blink: bool)
    ensures
        shows_warning(panel_of(t, blink).tt_engine, t.engine),
        shows_warning(panel_of(t, blink).tt_oil, t.oil),
        shows_warning(panel_of(t, blink).tt_battery, t.battery_warn),
        shows_warning(panel_of(t, blink).tt_abs, t.abs),
{
}

/// Headlights, cruise control and lane keeping are shown by levels that count up
/// from off, and the plain lamps by 0 and 1.
pub proof fn states_are_shown(t: TelemetryView, blink: bool)
    ensures
        ({
            let p = panel_of(t, blink);
            &&& 0 <= p.tt_lights <= 2
            &&& p.tt_lights == 1 <==> t.headlights == Beam::Low
            &&& p.tt_lights == 2 <==> t.headlights == Beam::High
            &&& 0 <= p.tt_cruise <= 2
            &&& p.tt_cruise == 1 <==> t.cruise == Cruise::Armed
            &&& p.tt_cruise == 2 <==> t.cruise == Cruise::Active
            &&& 0 <= p.tt_lane <= 3
            &&& p.tt_lane == 1 <==> t.lane == Lane::Tracking
            &&& p.tt_lane == 2 <==> t.lane == Lane::Warn
            &&& p.tt_lane == 3 <==> t.lane == Lane::Depart
            &&& 0 <= p.tt_parking_brake <= 1
            &&& p.tt_parking_brake == 1 <==> t.parking_brake
            &&& 0 <= p.tt_seatbelt <= 1
            &&& p.tt_seatbelt == 1 <==> t.seatbelt
            &&& 0 <= p.tt_door <= 1
            &&& p.tt_door == 1 <==> t.door_open
        }),
{
}

/// An arrow is lit while its indicator is requested and the blinking is in its
/// lit half: eight ticks on and eight off.
pub proof fn arrows_blink(t: TelemetryView, tick: int)
    ensures
        ({
            let p = panel_of(t, lit_at(tick));
            &&& p.turn_left_on <==> t.turn_left && tick % 16 < 8
            &&& p.turn_right_on <==> t.turn_right && tick % 16 < 8
        }),
{
}

/// What needs no conversion is shown as it is, whatever the blinking does.
pub proof fn the_rest_is_shown_as_it_is(t: TelemetryView, blink: bool)
    ensures
        ({
            let p = panel_of(t, blink);
            &&& p.speed == t.speed_kmh
            &&& p.efficiency_percent == t.efficiency_percent
            &&& p.battery_level == t.battery_level
            &&& p.fuel_level == t.fuel_level
            &&& p.turn_street == t.turn_street
            &&& p.lta_on == t.lta_on
            &&& p.lca_on == t.lca_on
            &&& p.gear.len() == 1
            &&& p.gear[0] == t.gear
            &&& p.ready == t.ready
        }),
{
}

} // verus!
