//! What the cluster shows: the one place that turns signals into display values
//! -- number formatting, the dial-angle mapping, the lamp levels and the blinking
//! all live here -- so a new data source never has to know about widgets. It just
//! fills `Telemetry`.

use chrono::{NaiveTime, Timelike};
use vstd::prelude::*;

use crate::fixed::{
    clamped, div_even, div_half_even, single, to_single, whole_numbers_are_single, Micro,
    SINGLE_UNIT,
};
use crate::telemetry::{Beam, Cruise, Lane, Telemetry, TelemetryView, Warn};
use crate::text::collect;

verus! {

// ----- numbers ---------------------------------------------------------------------

/// The digit `n`.
pub open spec fn digit_char(n: int) -> char {
    (0x30 + n) as char
}

/// `n` in decimal.
pub open spec fn decimal(n: int) -> Seq<char>
    decreases n,
{
    if n < 10 {
        seq![digit_char(n)]
    } else {
        decimal(n / 10).push(digit_char(n % 10))
    }
}

/// `n` in decimal, with a sign if it is negative.
pub open spec fn signed_decimal(n: int) -> Seq<char> {
    if n < 0 {
        seq!['-'] + decimal(-n)
    } else {
        decimal(n)
    }
}

/// `n` in decimal with at least two digits.
pub open spec fn two_digits(n: int) -> Seq<char> {
    if n < 10 {
        seq!['0'] + decimal(n)
    } else {
        decimal(n)
    }
}

/// `n` in decimal with a comma before every three digits.
pub open spec fn grouped(n: int) -> Seq<char>
    decreases n,
{
    if n < 1_000 {
        decimal(n)
    } else {
        grouped(n / 1_000) + seq![
            ',',
            digit_char(n / 100 % 10),
            digit_char(n / 10 % 10),
            digit_char(n % 10),
        ]
    }
}

/// The whole units in `n` millionths as they are shown: those of the nearest
/// single-precision number, the fraction dropped. Negative values give zero and
/// large ones the largest `u32`.
pub open spec fn shown_units(n: int) -> u32 {
    if n < 0 {
        0
    } else {
        clamped(single(n) / (SINGLE_UNIT as int), 0, u32::MAX as int) as u32
    }
}

/// `n` millionths with one decimal, as they are shown: the tenths nearest to the
/// nearest single-precision number, of two that are equally near the even one.
pub open spec fn one_decimal(n: int) -> Seq<char> {
    let size = if n < 0 {
        -n
    } else {
        n
    };
    let q = div_even(10 * single(size), SINGLE_UNIT as int);
    let digits = decimal(q / 10) + seq!['.', digit_char(q % 10)];
    if n < 0 {
        seq!['-'] + digits
    } else {
        digits
    }
}

/// Append `n` in decimal.
fn push_decimal(v: &mut Vec<char>, n: u64)
    ensures
        final(v)@ == old(v)@ + decimal(n as int),
    decreases n,
{
    if n >= 10 {
        push_decimal(v, n / 10);
    }
    v.push((0x30 + (n % 10) as u8) as char);
    assert(v@ == old(v)@ + decimal(n as int));
}

/// Append `n` in decimal with at least two digits.
fn push_two_digits(v: &mut Vec<char>, n: u32)
    ensures
        final(v)@ == old(v)@ + two_digits(n as int),
{
    if n < 10 {
        v.push('0');
    }
    push_decimal(v, n as u64);
    assert(v@ == old(v)@ + two_digits(n as int));
}

/// Append `n` in decimal with a comma before every three digits.
fn push_grouped(v: &mut Vec<char>, n: u32)
    ensures
        final(v)@ == old(v)@ + grouped(n as int),
    decreases n,
{
    if n < 1_000 {
        push_decimal(v, n as u64);
    } else {
        push_grouped(v, n / 1_000);
        v.push(',');
        v.push((0x30 + (n / 100 % 10) as u8) as char);
        v.push((0x30 + (n / 10 % 10) as u8) as char);
        v.push((0x30 + (n % 10) as u8) as char);
        assert(v@ == old(v)@ + grouped(n as int));
    }
}

/// `n` in decimal.
fn whole_text(n: u32) -> (s: String)
    ensures
        s@ == decimal(n as int),
{
    let mut v: Vec<char> = Vec::new();
    push_decimal(&mut v, n as u64);
    collect(v.as_slice())
}

/// `n` in decimal, with a sign if it is negative.
fn signed_text(n: i32) -> (s: String)
    ensures
        s@ == signed_decimal(n as int),
{
    let mut v: Vec<char> = Vec::new();
    let n: i64 = n as i64;
    if n < 0 {
        v.push('-');
        push_decimal(&mut v, (-n) as u64);
    } else {
        push_decimal(&mut v, n as u64);
    }
    assert(v@ == signed_decimal(n as int));
    collect(v.as_slice())
}

/// `n` millionths with one decimal.
fn decimal_text(n: Micro) -> (s: String)
    ensures
        s@ == one_decimal(n as int),
{
    let mut v: Vec<char> = Vec::new();
    let size: i128 = if n < 0 { -(n as i128) } else { n as i128 };
    let q: i128 = div_half_even(10 * to_single(size as u64), SINGLE_UNIT);
    let q: u64 = q as u64;
    if n < 0 {
        v.push('-');
    }
    push_decimal(&mut v, q / 10);
    v.push('.');
    v.push((0x30 + (q % 10) as u8) as char);
    assert(v@ == one_decimal(n as int));
    collect(v.as_slice())
}

/// The whole units in `n` millionths, as they are shown.
fn units_shown(n: Micro) -> (q: u32)
    ensures
        q == shown_units(n as int),
{
    if n < 0 {
        0
    } else {
        let u: i128 = to_single(n as u64) / SINGLE_UNIT;
        if u > 0xffff_ffff {
            u32::MAX
        } else {
            u as u32
        }
    }
}

/// Group an integer with thousands separators, as the odometer shows them.
pub fn group_thousands(n: u32) -> (s: String)
    ensures
        s@ == grouped(n as int),
{
    let mut v: Vec<char> = Vec::new();
    push_grouped(&mut v, n);
    collect(v.as_slice())
}

/// `s` without its commas.
pub open spec fn without_commas(s: Seq<char>) -> Seq<char>
    decreases s.len(),
{
    if s.len() == 0 {
        s
    } else if s.last() == ',' {
        without_commas(s.drop_last())
    } else {
        without_commas(s.drop_last()).push(s.last())
    }
}

proof fn a_decimal_has_no_commas(n: int)
    requires
        0 <= n,
    ensures
        without_commas(decimal(n)) == decimal(n),
    decreases n,
{
    let last = digit_char(n % 10);
    assert(last != ',');
    if n < 10 {
        reveal_with_fuel(without_commas, 2);
        assert(decimal(n).drop_last() == Seq::<char>::empty());
    } else {
        a_decimal_has_no_commas(n / 10);
        assert(decimal(n).drop_last() == decimal(n / 10));
    }
}

/// Grouping adds commas and nothing else: without them the number is there as
/// it is in decimal.
pub proof fn grouping_only_adds_commas(n: int)
    requires
        0 <= n,
    ensures
        without_commas(grouped(n)) == decimal(n),
    decreases n,
{
    if n < 1_000 {
        a_decimal_has_no_commas(n);
    } else {
        grouping_only_adds_commas(n / 1_000);
        let head = grouped(n / 1_000);
        let a = digit_char(n / 100 % 10);
        let b = digit_char(n / 10 % 10);
        let c = digit_char(n % 10);
        let all = grouped(n);
        assert(all.drop_last() == head + seq![',', a, b]);
        assert(all.drop_last().drop_last() == head + seq![',', a]);
        assert(all.drop_last().drop_last().drop_last() == head + seq![',']);
        assert(all.drop_last().drop_last().drop_last().drop_last() == head);
        reveal_with_fuel(without_commas, 5);
        reveal_with_fuel(decimal, 4);
        assert(n / 10 / 10 / 10 == n / 1_000);
        assert(n / 10 / 10 == n / 100);
    }
}

/// A number in decimal has no more digits than it needs, and none is a comma.
proof fn a_decimal_is_digits(n: int)
    requires
        0 <= n,
    ensures
        forall|i: int| 0 <= i < decimal(n).len() ==> decimal(n)[i] != ',',
        decimal(n).len() >= 1,
        n < 1_000 ==> decimal(n).len() <= 3,
    decreases n,
{
    assert(digit_char(n % 10) != ',');
    reveal_with_fuel(decimal, 4);
    if n >= 10 {
        a_decimal_is_digits(n / 10);
    }
}

/// A comma stands at every fourth place from the right and nowhere else, and
/// never in front.
pub proof fn a_comma_stands_before_every_three_digits(n: int)
    requires
        0 <= n,
    ensures
        forall|i: int|
            0 <= i < grouped(n).len() ==> ((#[trigger] grouped(n)[i]) == ',' <==> (grouped(n).len()
                - i) % 4 == 0),
        grouped(n).len() >= 1,
        grouped(n)[0] != ',',
    decreases n,
{
    if n < 1_000 {
        a_decimal_is_digits(n);
    } else {
        a_comma_stands_before_every_three_digits(n / 1_000);
        let head = grouped(n / 1_000);
        let all = grouped(n);
        assert(digit_char(n / 100 % 10) != ',');
        assert(digit_char(n / 10 % 10) != ',');
        assert(digit_char(n % 10) != ',');
        assert(all.len() == head.len() + 4);
        assert forall|i: int| 0 <= i < all.len() implies ((#[trigger] all[i]) == ',' <==> (all.len()
            - i) % 4 == 0) by {
            if i < head.len() {
                assert(all[i] == head[i]);
            }
        }
    }
}

/// A whole number below 2^24 is shown as it is, with a zero for its decimal
/// where it has one.
pub proof fn a_whole_number_is_shown_as_it_is(k: int)
    requires
        0 <= k < 0x100_0000,
    ensures
        shown_units(1_000_000 * k) == k,
        one_decimal(1_000_000 * k) == decimal(k) + seq!['.', '0'],
{
    whole_numbers_are_single(k);
}

// ----- the clock -------------------------------------------------------------------

/// A time of day of the `chrono` crate.
#[verifier::external_type_specification]
#[verifier::external_body]
pub struct ExNaiveTime(chrono::NaiveTime);

/// The hour of a time of day: what its `hour` returns.
pub uninterp spec fn hour_of(time: NaiveTime) -> u32;

/// The minute of a time of day: what its `minute` returns.
pub uninterp spec fn minute_of(time: NaiveTime) -> u32;

/// `chrono::Timelike::hour` of a `NaiveTime`, from 0 to 23.
#[verifier::external_body]
fn hour(time: &NaiveTime) -> (h: u32)
    ensures
        h == hour_of(*time),
        h <= 23,
{
    time.hour()
}

/// `chrono::Timelike::minute` of a `NaiveTime`, from 0 to 59.
#[verifier::external_body]
fn minute(time: &NaiveTime) -> (m: u32)
    ensures
        m == minute_of(*time),
        m <= 59,
{
    time.minute()
}

/// Two numbers as a clock shows them, at least two digits each: hours and
/// minutes, or minutes and seconds.
pub open spec fn two_by_two(major: u32, minor: u32) -> Seq<char> {
    two_digits(major as int) + seq![':'] + two_digits(minor as int)
}

/// `major` and `minor`, at least two digits each, with a colon between them.
pub fn clock_face(major: u32, minor: u32) -> (s: String)
    ensures
        s@ == two_by_two(major, minor),
{
    let mut v: Vec<char> = Vec::new();
    push_two_digits(&mut v, major);
    v.push(':');
    push_two_digits(&mut v, minor);
    assert(v@ == two_by_two(major, minor));
    collect(v.as_slice())
}

/// What a clock shows at a time of day: its hour and its minute.
pub open spec fn clock_of(now: NaiveTime) -> Seq<char> {
    two_by_two(hour_of(now), minute_of(now))
}

/// The clock is wall time, independent of the vehicle signals.
pub fn wall_clock(now: &NaiveTime) -> (s: String)
    ensures
        s@ == two_by_two(hour_of(*now), minute_of(*now)),
        s@ == clock_of(*now),
{
    clock_face(hour(now), minute(now))
}

// ----- the panel -------------------------------------------------------------------

/// What the widgets show of one frame of signals. A lamp's level indexes its
/// ISO-colour variants (0 off); turn arrows carry the already-blinked state.
#[derive(Clone, Debug, PartialEq, Eq)]
pub struct Panel {
    pub speed: Micro,
    /// The left dial's angle, degrees: REGEN .. CHARGE .. POWER.
    pub charge_angle: Micro,
    pub efficiency_percent: Micro,
    pub avg_efficiency: String,
    pub range_km: String,
    pub battery_level: Micro,
    pub fuel_level: Micro,
    pub outside_temp: String,
    pub odo: String,
    pub drive_time: String,
    pub turn_distance: String,
    pub turn_street: String,
    pub cruise_speed: String,
    pub lta_on: bool,
    pub lca_on: bool,
    pub gear: String,
    pub ready: bool,
    pub turn_left_on: bool,
    pub turn_right_on: bool,
    pub tt_lights: i32,
    pub tt_engine: i32,
    pub tt_oil: i32,
    pub tt_battery: i32,
    pub tt_abs: i32,
    pub tt_parking_brake: i32,
    pub tt_seatbelt: i32,
    pub tt_door: i32,
    pub tt_cruise: i32,
    pub tt_lane: i32,
}

/// What a `Panel` shows.
#[verifier::ext_equal]
pub struct PanelView {
    pub speed: Micro,
    pub charge_angle: Micro,
    pub efficiency_percent: Micro,
    pub avg_efficiency: Seq<char>,
    pub range_km: Seq<char>,
    pub battery_level: Micro,
    pub fuel_level: Micro,
    pub outside_temp: Seq<char>,
    pub odo: Seq<char>,
    pub drive_time: Seq<char>,
    pub turn_distance: Seq<char>,
    pub turn_street: Seq<char>,
    pub cruise_speed: Seq<char>,
    pub lta_on: bool,
    pub lca_on: bool,
    pub gear: Seq<char>,
    pub ready: bool,
    pub turn_left_on: bool,
    pub turn_right_on: bool,
    pub tt_lights: i32,
    pub tt_engine: i32,
    pub tt_oil: i32,
    pub tt_battery: i32,
    pub tt_abs: i32,
    pub tt_parking_brake: i32,
    pub tt_seatbelt: i32,
    pub tt_door: i32,
    pub tt_cruise: i32,
    pub tt_lane: i32,
}

impl View for Panel {
    type V = PanelView;

    open spec fn view(&self) -> PanelView {
        PanelView {
            speed: self.speed,
            charge_angle: self.charge_angle,
            efficiency_percent: self.efficiency_percent,
            avg_efficiency: self.avg_efficiency@,
            range_km: self.range_km@,
            battery_level: self.battery_level,
            fuel_level: self.fuel_level,
            outside_temp: self.outside_temp@,
            odo: self.odo@,
            drive_time: self.drive_time@,
            turn_distance: self.turn_distance@,
            turn_street: self.turn_street@,
            cruise_speed: self.cruise_speed@,
            lta_on: self.lta_on,
            lca_on: self.lca_on,
            gear: self.gear@,
            ready: self.ready,
            turn_left_on: self.turn_left_on,
            turn_right_on: self.turn_right_on,
            tt_lights: self.tt_lights,
            tt_engine: self.tt_engine,
            tt_oil: self.tt_oil,
            tt_battery: self.tt_battery,
            tt_abs: self.tt_abs,
            tt_parking_brake: self.tt_parking_brake,
            tt_seatbelt: self.tt_seatbelt,
            tt_door: self.tt_door,
            tt_cruise: self.tt_cruise,
            tt_lane: self.tt_lane,
        }
    }
}

pub open spec fn level_of_warn(w: Warn) -> i32 {
    match w {
        Warn::Off => 0,
        Warn::Amber => 1,
        Warn::Red => 2,
    }
}

pub open spec fn level_of_beam(b: Beam) -> i32 {
    match b {
        Beam::Off => 0,
        Beam::Low => 1,
        Beam::High => 2,
    }
}

pub open spec fn level_of_cruise(c: Cruise) -> i32 {
    match c {
        Cruise::Off => 0,
        Cruise::Armed => 1,
        Cruise::Active => 2,
    }
}

pub open spec fn level_of_lane(l: Lane) -> i32 {
    match l {
        Lane::Off => 0,
        Lane::Tracking => 1,
        Lane::Warn => 2,
        Lane::Depart => 3,
    }
}

pub open spec fn level_of_lamp(on: bool) -> i32 {
    if on {
        1
    } else {
        0
    }
}

/// The left dial reads REGEN .. CHARGE .. POWER; idle sits a little above centre.
pub open spec fn dial_angle(power: Micro) -> Micro {
    clamped(-6_000_000 + 118 * power, -138_000_000, 138_000_000) as i64
}

/// Map a two-stage warning lamp to its variant index (0 off, 1 amber, 2 red).
pub fn warn_level(w: Warn) -> (level: i32)
    ensures
        level == level_of_warn(w),
{
    match w {
        Warn::Off => 0,
        Warn::Amber => 1,
        Warn::Red => 2,
    }
}

fn beam_level(b: Beam) -> (level: i32)
    ensures
        level == level_of_beam(b),
{
    match b {
        Beam::Off => 0,
        Beam::Low => 1,
        Beam::High => 2,
    }
}

fn cruise_level(c: Cruise) -> (level: i32)
    ensures
        level == level_of_cruise(c),
{
    match c {
        Cruise::Off => 0,
        Cruise::Armed => 1,
        Cruise::Active => 2,
    }
}

fn lane_level(l: Lane) -> (level: i32)
    ensures
        level == level_of_lane(l),
{
    match l {
        Lane::Off => 0,
        Lane::Tracking => 1,
        Lane::Warn => 2,
        Lane::Depart => 3,
    }
}

fn lamp(on: bool) -> (level: i32)
    ensures
        level == level_of_lamp(on),
{
    if on {
        1
    } else {
        0
    }
}

fn angle(power: Micro) -> (a: Micro)
    ensures
        a == dial_angle(power),
{
    let a: i128 = -6_000_000 + 118 * (power as i128);
    if a < -138_000_000 {
        -138_000_000
    } else if a > 138_000_000 {
        138_000_000
    } else {
        a as i64
    }
}

fn letter(c: char) -> (s: String)
    ensures
        s@ == seq![c],
{
    let mut s: String = String::new();
    s.push(c);
    assert(s@ == seq![c]);
    s
}

/// Whether an indicator is lit at tick `tick`.
pub open spec fn lit_at(tick: int) -> bool {
    tick / 8 % 2 == 0
}

/// Turn-signal blink: whether an indicator is lit at tick `ticks` of the 20 Hz
/// render timer. Eight ticks on, eight off.
pub fn blink(ticks: u64) -> (lit: bool)
    ensures
        lit == lit_at(ticks as int),
        lit == (ticks as int / 8 % 2 == 0),
{
    (ticks / 8) % 2 == 0
}

/// What the widgets show of `t`; `blink` is whether the indicators are in the lit
/// half of their period.
pub open spec fn panel_of(t: TelemetryView, blink: bool) -> PanelView {
    PanelView {
        speed: t.speed_kmh,
        charge_angle: dial_angle(t.power),
        efficiency_percent: t.efficiency_percent,
        avg_efficiency: one_decimal(t.avg_efficiency_kwh as int),
        range_km: decimal(shown_units(t.range_km as int) as int),
        battery_level: t.battery_level,
        fuel_level: t.fuel_level,
        outside_temp: signed_decimal(t.outside_temp_c as int),
        odo: grouped(shown_units(t.odo_km as int) as int),
        drive_time: two_by_two(t.trip_seconds / 60, t.trip_seconds % 60),
        turn_distance: one_decimal(t.turn_distance_km as int),
        turn_street: t.turn_street,
        cruise_speed: decimal(shown_units(t.cruise_speed_kmh as int) as int),
        lta_on: t.lta_on,
        lca_on: t.lca_on,
        gear: seq![t.gear],
        ready: t.ready,
        turn_left_on: (t.turn_left && blink),
        turn_right_on: (t.turn_right && blink),
        tt_lights: level_of_beam(t.headlights),
        tt_engine: level_of_warn(t.engine),
        tt_oil: level_of_warn(t.oil),
        tt_battery: level_of_warn(t.battery_warn),
        tt_abs: level_of_warn(t.abs),
        tt_parking_brake: level_of_lamp(t.parking_brake),
        tt_seatbelt: level_of_lamp(t.seatbelt),
        tt_door: level_of_lamp(t.door_open),
        tt_cruise: level_of_cruise(t.cruise),
        tt_lane: level_of_lane(t.lane),
    }
}

/// Panels that show the same in every field are the same.
proof fn same_panel(l: PanelView, r: PanelView)
    requires
        l.speed == r.speed,
        l.charge_angle == r.charge_angle,
        l.efficiency_percent == r.efficiency_percent,
        l.avg_efficiency == r.avg_efficiency,
        l.range_km == r.range_km,
        l.battery_level == r.battery_level,
        l.fuel_level == r.fuel_level,
        l.outside_temp == r.outside_temp,
        l.odo == r.odo,
        l.drive_time == r.drive_time,
        l.turn_distance == r.turn_distance,
        l.turn_street == r.turn_street,
        l.cruise_speed == r.cruise_speed,
        l.lta_on == r.lta_on,
        l.lca_on == r.lca_on,
        l.gear == r.gear,
        l.ready == r.ready,
        l.turn_left_on == r.turn_left_on,
        l.turn_right_on == r.turn_right_on,
        l.tt_lights == r.tt_lights,
        l.tt_engine == r.tt_engine,
        l.tt_oil == r.tt_oil,
        l.tt_battery == r.tt_battery,
        l.tt_abs == r.tt_abs,
        l.tt_parking_brake == r.tt_parking_brake,
        l.tt_seatbelt == r.tt_seatbelt,
        l.tt_door == r.tt_door,
        l.tt_cruise == r.tt_cruise,
        l.tt_lane == r.tt_lane,
    ensures
        l == r,
{
}

/// Turn one telemetry frame into what the widgets show; `blink` is whether the
/// indicators are in the lit half of their period.
pub fn apply(t: &Telemetry, blink: bool) -> (p: Panel)
    ensures
        p@ == panel_of(t@, blink),
        p.speed == t@.speed_kmh,
        p.charge_angle == dial_angle(t@.power),
        p.efficiency_percent == t@.efficiency_percent,
        p.avg_efficiency@ == one_decimal(t@.avg_efficiency_kwh as int),
        p.range_km@ == decimal(shown_units(t@.range_km as int) as int),
        p.battery_level == t@.battery_level,
        p.fuel_level == t@.fuel_level,
        p.outside_temp@ == signed_decimal(t@.outside_temp_c as int),
        p.odo@ == grouped(shown_units(t@.odo_km as int) as int),
        p.drive_time@ == two_by_two(t@.trip_seconds / 60, t@.trip_seconds % 60),
        p.turn_distance@ == one_decimal(t@.turn_distance_km as int),
        p.turn_street@ == t@.turn_street,
        p.cruise_speed@ == decimal(shown_units(t@.cruise_speed_kmh as int) as int),
        p.lta_on == t@.lta_on,
        p.lca_on == t@.lca_on,
        p.gear@ == seq![t@.gear],
        p.ready == t@.ready,
        p.turn_left_on == (t@.turn_left && blink),
        p.turn_right_on == (t@.turn_right && blink),
        p.tt_lights == level_of_beam(t@.headlights),
        p.tt_engine == level_of_warn(t@.engine),
        p.tt_oil == level_of_warn(t@.oil),
        p.tt_battery == level_of_warn(t@.battery_warn),
        p.tt_abs == level_of_warn(t@.abs),
        p.tt_parking_brake == level_of_lamp(t@.parking_brake),
        p.tt_seatbelt == level_of_lamp(t@.seatbelt),
        p.tt_door == level_of_lamp(t@.door_open),
        p.tt_cruise == level_of_cruise(t@.cruise),
        p.tt_lane == level_of_lane(t@.lane),
{
    let p: Panel = Panel {
        speed: t.speed_kmh,
        charge_angle: angle(t.power),
        efficiency_percent: t.efficiency_percent,
        avg_efficiency: decimal_text(t.avg_efficiency_kwh),
        range_km: whole_text(units_shown(t.range_km)),
        battery_level: t.battery_level,
        fuel_level: t.fuel_level,
        outside_temp: signed_text(t.outside_temp_c),
        odo: group_thousands(units_shown(t.odo_km)),
        drive_time: clock_face(t.trip_seconds / 60, t.trip_seconds % 60),
        turn_distance: decimal_text(t.turn_distance_km),
        turn_street: t.turn_street.clone(),
        cruise_speed: whole_text(units_shown(t.cruise_speed_kmh)),
        lta_on: t.lta_on,
        lca_on: t.lca_on,
        gear: letter(t.gear),
        ready: t.ready,
        turn_left_on: t.turn_left && blink,
        turn_right_on: t.turn_right && blink,
        tt_lights: beam_level(t.headlights),
        tt_engine: warn_level(t.engine),
        tt_oil: warn_level(t.oil),
        tt_battery: warn_level(t.battery_warn),
        tt_abs: warn_level(t.abs),
        tt_parking_brake: lamp(t.parking_brake),
        tt_seatbelt: lamp(t.seatbelt),
        tt_door: lamp(t.door_open),
        tt_cruise: cruise_level(t.cruise),
        tt_lane: lane_level(t.lane),
    };
    proof {
        same_panel(p@, panel_of(t@, blink));
    }
    p
}

/// An indicator is lit for eight ticks and dark for eight, over and over, and it
/// starts lit.
pub proof fn an_indicator_blinks_evenly(tick: int)
    ensures
        (tick / 8 % 2 == 0) != ((tick + 8) / 8 % 2 == 0),
        (tick / 8 % 2 == 0) == ((tick + 16) / 8 % 2 == 0),
        0 <= tick < 8 ==> lit_at(tick),
        lit_at(tick + 8) == !lit_at(tick),
{
}

/// The dial turns with the power and never past its stops.
pub proof fn the_dial_follows_the_power(p: Micro, q: Micro)
    requires
        p <= q,
    ensures
        dial_angle(p) <= dial_angle(q),
        -138_000_000 <= dial_angle(p) <= 138_000_000,
        -1_000_000 <= p <= 1_000_000 ==> dial_angle(p) == -6_000_000 + 118 * p,
{
}

} // verus!
