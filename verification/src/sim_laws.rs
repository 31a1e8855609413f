//! What holds of the drive cycle: the trace from point to point, the car that
//! follows it, and the readings that go with that.

use vstd::prelude::*;

use crate::fixed::{clamped, div_round, rounding_is_exact_on_multiples, rounding_is_nearest};
use crate::sim::{
    a_step_stays_between_its_ends, acceleration, advanced, polled, readings, readings_with,
    smooth_part, step, target, trace, SimView,
};
use crate::telemetry::{Beam, Cruise, Lane, Warn};

verus! {

// ----- the trace ---------------------------------------------------------------------

/// When the trace has its point `i`, in microseconds.
pub open spec fn time_of(i: int) -> int {
    1_000_000 * seq![0int, 11, 22, 28, 34, 45, 52, 61, 66][i]
}

/// The speed of the trace at its point `i`.
pub open spec fn speed_of(i: int) -> int {
    1_000_000 * seq![0int, 62, 68, 34, 30, 118, 104, 0, 0][i]
}

/// Between its points `i` and `i + 1` the trace is one smooth step.
proof fn one_step_from_point_to_point(i: int, m: int)
    requires
        0 <= i < 8,
        time_of(i) <= m <= time_of(i + 1),
    ensures
        trace(m) == step(time_of(i), speed_of(i), time_of(i + 1), speed_of(i + 1), m),
{
    ends_of_a_step(time_of(i), speed_of(i), time_of(i + 1), speed_of(i + 1));
    if m == time_of(i) && i > 0 {
        ends_of_a_step(time_of(i - 1), speed_of(i - 1), time_of(i), speed_of(i));
    }
    if i == 7 {
        a_step_stays_between_its_ends(61_000_000, 0, 66_000_000, 0, m);
    }
}

/// A smooth step begins and ends at its ends.
proof fn ends_of_a_step(x0: int, v0: int, x1: int, v1: int)
    requires
        x0 < x1,
    ensures
        step(x0, v0, x1, v1, x0) == v0,
        step(x0, v0, x1, v1, x1) == v1,
{
    let s = x1 - x0;
    let cube = s * s * s;
    assert(cube > 0) by (nonlinear_arith)
        requires
            s > 0,
            cube == s * s * s,
    ;
    assert(s * s * (3 * s - 2 * s) == cube) by (nonlinear_arith)
        requires
            cube == s * s * s,
    ;
    assert((v1 - v0) * (0int * 0int * (3 * s - 2 * 0)) == 0) by (nonlinear_arith);
    rounding_is_exact_on_multiples(v1 - v0, cube);
    rounding_is_exact_on_multiples(0, cube);
}

/// The trace goes through its points.
pub proof fn the_trace_goes_through_its_points(i: int)
    requires
        0 <= i <= 8,
    ensures
        trace(time_of(i)) == speed_of(i),
{
    if i < 8 {
        one_step_from_point_to_point(i, time_of(i));
        ends_of_a_step(time_of(i), speed_of(i), time_of(i + 1), speed_of(i + 1));
    } else {
        one_step_from_point_to_point(7, time_of(8));
        ends_of_a_step(time_of(7), speed_of(7), time_of(8), speed_of(8));
    }
}

/// Between two neighbouring points the trace never leaves the range of their
/// speeds.
pub proof fn the_trace_stays_between_its_points(i: int, m: int)
    requires
        0 <= i < 8,
        time_of(i) <= m <= time_of(i + 1),
    ensures
        speed_of(i) <= speed_of(i + 1) ==> speed_of(i) <= trace(m) <= speed_of(i + 1),
        speed_of(i) >= speed_of(i + 1) ==> speed_of(i + 1) <= trace(m) <= speed_of(i),
{
    one_step_from_point_to_point(i, m);
    a_step_stays_between_its_ends(time_of(i), speed_of(i), time_of(i + 1), speed_of(i + 1), m);
}

/// More of a smooth step is done later.
proof fn more_is_done_later(x: int, y: int, s: int)
    requires
        0 <= x <= y <= s,
    ensures
        x * x * (3 * s - 2 * x) <= y * y * (3 * s - 2 * y),
{
    let d = y - x;
    let w = 3 * s * (x + y) - 2 * (y * y + y * x + x * x);
    assert(w >= 0) by (nonlinear_arith)
        requires
            0 <= x <= y <= s,
            w == 3 * s * (x + y) - 2 * (y * y + y * x + x * x),
    ;
    assert(d * w >= 0) by (nonlinear_arith)
        requires
            d >= 0,
            w >= 0,
    ;
    assert(d * w == y * y * (3 * s - 2 * y) - x * x * (3 * s - 2 * x)) by (nonlinear_arith)
        requires
            d == y - x,
            w == 3 * s * (x + y) - 2 * (y * y + y * x + x * x),
    ;
}

/// Rounding keeps the order.
proof fn rounding_keeps_the_order(a: int, b: int, d: int)
    requires
        a <= b,
        d > 0,
    ensures
        div_round(a, d) <= div_round(b, d),
{
    let h = d / 2;
    if a >= 0 {
        assert((a + h) / d <= (b + h) / d) by (nonlinear_arith)
            requires
                a <= b,
                d > 0,
        ;
    } else if b < 0 {
        assert((-b + h) / d <= (-a + h) / d) by (nonlinear_arith)
            requires
                a <= b,
                d > 0,
        ;
    } else {
        assert((-a + h) / d >= 0 && (b + h) / d >= 0) by (nonlinear_arith)
            requires
                a < 0,
                b >= 0,
                h >= 0,
                d > 0,
        ;
    }
}

/// Between two neighbouring points the trace goes from the one speed to the other
/// without turning back.
pub proof fn the_trace_does_not_turn_back(i: int, m: int, later: int)
    requires
        0 <= i < 8,
        time_of(i) <= m <= later <= time_of(i + 1),
    ensures
        speed_of(i) <= speed_of(i + 1) ==> trace(m) <= trace(later),
        speed_of(i) >= speed_of(i + 1) ==> trace(m) >= trace(later),
{
    one_step_from_point_to_point(i, m);
    one_step_from_point_to_point(i, later);
    let s = time_of(i + 1) - time_of(i);
    let x = m - time_of(i);
    let y = later - time_of(i);
    let k = x * x * (3 * s - 2 * x);
    let l = y * y * (3 * s - 2 * y);
    let d = speed_of(i + 1) - speed_of(i);
    more_is_done_later(x, y, s);
    smooth_part(x, s);
    if d >= 0 {
        assert(d * k <= d * l) by (nonlinear_arith)
            requires
                k <= l,
                d >= 0,
        ;
        rounding_keeps_the_order(d * k, d * l, s * s * s);
    }
    if d <= 0 {
        assert(d * l <= d * k) by (nonlinear_arith)
            requires
                k <= l,
                d <= 0,
        ;
        rounding_keeps_the_order(d * l, d * k, s * s * s);
    }
}

/// Between two neighbouring points the trace is a smooth step: of the way from
/// the one speed to the other it has done three times the square less twice the
/// cube of the part of the time that is over, to the nearest millionth.
pub proof fn the_trace_is_smooth(i: int, m: int)
    requires
        0 <= i < 8,
        time_of(i) <= m <= time_of(i + 1),
    ensures
        ({
            let s = time_of(i + 1) - time_of(i);
            let x = m - time_of(i);
            let part = x * x * (3 * s - 2 * x);
            let way = (speed_of(i + 1) - speed_of(i)) * part;
            let done = trace(m) - speed_of(i);
            &&& 2 * (way - s * s * s * done) <= s * s * s
            &&& 2 * (s * s * s * done - way) <= s * s * s
        }),
{
    one_step_from_point_to_point(i, m);
    let s = time_of(i + 1) - time_of(i);
    let x = m - time_of(i);
    smooth_part(x, s);
    rounding_is_nearest((speed_of(i + 1) - speed_of(i)) * (x * x * (3 * s - 2 * x)), s * s * s);
}

/// The target speed is that of the trace, over and over; before the start it is
/// that of the first step, continued backwards.
pub proof fn the_target_follows_the_trace(t: int, cycles: int)
    requires
        0 <= t < 66_000_000,
        cycles >= 0,
    ensures
        target(t + 66_000_000 * cycles) == trace(t),
        target(-t - 66_000_000 * cycles) == trace(-t),
        ({
            let s = 11_000_000int;
            let way = 62_000_000 * (t * t * (3 * s + 2 * t));
            &&& 2 * (way - s * s * s * trace(-t)) <= s * s * s
            &&& 2 * (s * s * s * trace(-t) - way) <= s * s * s
        }),
{
    assert((t + 66_000_000 * cycles) % 66_000_000 == t);
    let s = 11_000_000int;
    let x = -t;
    let part = x * x * (3 * s - 2 * x);
    assert(t * t * (3 * s + 2 * t) == part) by (nonlinear_arith)
        requires
            x == -t,
            part == x * x * (3 * s - 2 * x),
    ;
    assert(s * s * s > 0) by (nonlinear_arith)
        requires
            s == 11_000_000,
    ;
    rounding_is_nearest(62_000_000 * part, s * s * s);
}

/// The acceleration is what the target gains in the half second around a time,
/// doubled.
pub proof fn acceleration_is_what_the_target_gains(t: int)
    ensures
        acceleration(t) + 2 * target(t - 250_000) == 2 * target(t + 250_000),
{
}

// ----- the car -----------------------------------------------------------------------

/// Time goes on by `dt`, the shown speed gets nearer to the target by the part
/// `gain` of the distance, and both counters gain what that speed makes in `dt`;
/// all of it to the nearest.
pub proof fn how_the_car_goes_on(s: SimView, dt: int, gain: int)
    ensures
        ({
            let n = advanced(s, dt, gain);
            let way = (target(n.t) - s.speed) * gain;
            let km = div_round(n.speed * dt, 3_600_000_000);
            &&& 0 <= s.t + dt <= 0xffff_ffff_ffff_ffff ==> n.t == s.t + dt
            &&& s.t + dt > 0xffff_ffff_ffff_ffff ==> n.t == 0xffff_ffff_ffff_ffff
            &&& 2 * (way - 1_000_000 * (n.speed - s.speed)) <= 1_000_000
            &&& 2 * (1_000_000 * (n.speed - s.speed) - way) <= 1_000_000
            &&& 2 * (n.speed * dt - 3_600_000_000 * km) <= 3_600_000_000
            &&& 2 * (3_600_000_000 * km - n.speed * dt) <= 3_600_000_000
            &&& i64::MIN <= s.trip_km + km <= i64::MAX ==> n.trip_km == s.trip_km + km
            &&& s.trip_km + km > i64::MAX ==> n.trip_km == i64::MAX
            &&& i64::MIN <= s.odo_km + km <= i64::MAX ==> n.odo_km == s.odo_km + km
            &&& s.odo_km + km > i64::MAX ==> n.odo_km == i64::MAX
        }),
{
    let n = advanced(s, dt, gain);
    rounding_is_nearest((target(n.t) - s.speed) * gain, 1_000_000);
    rounding_is_nearest(n.speed * dt, 3_600_000_000);
}

/// A poll goes on by its time once and then reads.
pub proof fn a_poll_goes_on_and_reads(s: SimView, dt: int, gain: int)
    ensures
        polled(s, dt, gain).0 == advanced(s, dt, gain),
        polled(s, dt, gain).1 == readings(advanced(s, dt, gain)),
        0 <= s.t && 0 <= dt && s.t + dt <= 0xffff_ffff_ffff_ffff ==> polled(s, dt, gain).0.t - s.t
            == dt,
{
}

// ----- the readings ------------------------------------------------------------------

/// Whether `q` parts, `d` to the unit, are nearest to `n`, where that lies
/// between `lo` and `hi`, and else the end that is nearer.
pub open spec fn nearest_part(q: int, n: int, d: int, lo: int, hi: int) -> bool {
    &&& lo <= q <= hi
    &&& lo * d <= n <= hi * d ==> 2 * (n - d * q) <= d && 2 * (d * q - n) <= d
    &&& n < lo * d ==> q == lo
    &&& n > hi * d ==> q == hi
}

proof fn parts_are_nearest(n: int, d: int, lo: int, hi: int)
    requires
        d > 0,
        lo <= hi,
    ensures
        nearest_part(clamped(div_round(n, d), lo, hi), n, d, lo, hi),
{
    rounding_is_nearest(n, d);
    let q = div_round(n, d);
    assert(n < lo * d ==> q <= lo) by (nonlinear_arith)
        requires
            2 * (d * q - n) <= d,
            d > 0,
    ;
    assert(n > hi * d ==> q >= hi) by (nonlinear_arith)
        requires
            2 * (n - d * q) <= d,
            d > 0,
    ;
    assert(lo * d <= n <= hi * d ==> lo <= q <= hi) by (nonlinear_arith)
        requires
            2 * (d * q - n) <= d,
            2 * (n - d * q) <= d,
            d > 0,
    ;
}

/// The readings go with the acceleration of the moment.
pub proof fn readings_go_with_the_acceleration(s: SimView, a: int)
    requires
        a == 2 * target(s.t + 250_000) - 2 * target(s.t - 250_000),
    ensures
        readings(s) == readings_with(s, a),
{
    acceleration_is_what_the_target_gains(s.t);
}

/// Power and efficiency follow the acceleration: a ninth of it, between full
/// regeneration and full power; 85 % less 1.6 for every km/h per second gained
/// and 1.4 more for every one lost, between 40 and 99; and on average 4.8 less
/// 0.06 for every one gained, but not below 2.
pub proof fn power_and_efficiency_follow_the_acceleration(s: SimView, a: int)
    ensures
        ({
            let r = readings_with(s, a);
            let gained = if a > 0 {
                a
            } else {
                0
            };
            let lost = if a < 0 {
                -a
            } else {
                0
            };
            &&& nearest_part(r.power as int, a, 9, -1_000_000, 1_000_000)
            &&& nearest_part(
                r.efficiency_percent as int,
                850_000_000 - 16 * gained + 14 * lost,
                10,
                40_000_000,
                99_000_000,
            )
            &&& nearest_part(
                r.avg_efficiency_kwh as int,
                480_000_000 - 6 * gained,
                100,
                2_000_000,
                4_800_000,
            )
        }),
{
    let gained = if a > 0 {
        a
    } else {
        0
    };
    let lost = if a < 0 {
        -a
    } else {
        0
    };
    parts_are_nearest(a, 9, -1_000_000, 1_000_000);
    parts_are_nearest(850_000_000 - 16 * gained + 14 * lost, 10, 40_000_000, 99_000_000);
    parts_are_nearest(480_000_000 - 6 * gained, 100, 2_000_000, i64::MAX as int);
}

/// What is left follows the trip: of 560 km of range every km is gone, and of the
/// charge and the fuel the parts that go with it, 0.6 and 0.4 on the whole range,
/// down to 0.05 and 0.02.
pub proof fn what_is_left_follows_the_trip(s: SimView, a: int)
    requires
        0 <= s.trip_km,
    ensures
        ({
            let r = readings_with(s, a);
            &&& s.trip_km <= 560_000_000 ==> r.range_km + s.trip_km == 560_000_000
            &&& s.trip_km > 560_000_000 ==> r.range_km == 0
            &&& nearest_part(
                r.battery_level as int,
                2_380_000_000 - 3 * s.trip_km,
                2_800,
                50_000,
                1_000_000,
            )
            &&& nearest_part(
                r.fuel_level as int,
                770_000_000 - s.trip_km,
                1_400,
                20_000,
                1_000_000,
            )
        }),
{
    parts_are_nearest(2_380_000_000 - 3 * s.trip_km, 2_800, 50_000, 1_000_000);
    parts_are_nearest(770_000_000 - s.trip_km, 1_400, 20_000, 1_000_000);
}

/// The distance to the turn falls evenly from 2.4 km to nothing within a cycle, the
/// indicator is on between 1.2 km and 50 m before it, and the trip time counts the
/// whole seconds.
pub proof fn turn_and_time_follow_the_clock(s: SimView, a: int)
    requires
        0 <= s.t,
    ensures
        ({
            let r = readings_with(s, a);
            let m = s.t % 66_000_000;
            &&& 2 * (2_400_000 * (66_000_000 - m) - 66_000_000 * r.turn_distance_km) <= 66_000_000
            &&& 2 * (66_000_000 * r.turn_distance_km - 2_400_000 * (66_000_000 - m)) <= 66_000_000
            &&& s.t < 4_294_967_296_000_000 ==> 1_000_000 * r.trip_seconds <= s.t < 1_000_000 * (
            r.trip_seconds + 1)
            &&& s.t >= 4_294_967_296_000_000 ==> r.trip_seconds == 4_294_967_295
            &&& r.turn_right <==> 50_000 < r.turn_distance_km < 1_200_000
        }),
{
    rounding_is_nearest(132_000_000 - 2 * (s.t % 66_000_000), 55);
}

/// Speed and odometer are shown as they are, and the rest never changes: 21
/// degrees, 80 km/h set, assistance on, in drive, low beam, and no lamp that
/// warns.
pub proof fn the_rest_is_steady(s: SimView, a: int)
    requires
        i64::MIN <= s.speed <= i64::MAX,
        i64::MIN <= s.odo_km <= i64::MAX,
    ensures
        ({
            let r = readings_with(s, a);
            &&& r.speed_kmh == s.speed
            &&& r.odo_km == s.odo_km
            &&& r.outside_temp_c == 21
            &&& r.turn_street == "Minatomirai Blvd"@
            &&& r.cruise_speed_kmh == 80_000_000
            &&& r.lta_on && r.lca_on && r.ready
            &&& r.gear == 'D'
            &&& !r.turn_left
            &&& r.headlights == Beam::Low
            &&& r.lane == Lane::Tracking
            &&& r.cruise == Cruise::Active <==> s.speed > 55_000_000 && -3_000_000 < a < 3_000_000
            &&& r.cruise != Cruise::Armed
            &&& r.engine == Warn::Off && r.oil == Warn::Off
            &&& r.battery_warn == Warn::Off && r.abs == Warn::Off
            &&& !r.parking_brake && !r.seatbelt && !r.door_open
        }),
{
}

} // verus!
