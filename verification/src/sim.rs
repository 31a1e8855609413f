//! The built-in demo source: a repeating drive cycle, with every reading
//! derived from one speed trace the way the real signals relate to each other.
//! It never touches the UI -- it only produces `Telemetry`.
//!
//! Times are in microseconds, quantities in millionths of their unit.

use vstd::prelude::*;

use crate::fixed::{
    as_micro, clamped, div_nearest, div_round, rounding_is_exact_on_multiples, rounding_is_nearest,
    saturate, whole, whole_units, Micro,
};
use crate::telemetry::{Beam, Cruise, Lane, Telemetry, TelemetryView, Warn};

verus! {

/// Length of one drive cycle.
pub const CYCLE: i128 = 66_000_000;

/// The largest speed of the trace.
pub const FASTEST: i64 = 118_000_000;

/// A smooth step from the speed `v0` at the time `x0` to `v1` at `x1`: three
/// times the square less twice the cube of the part of the way that is done.
pub open spec fn step(x0: int, v0: int, x1: int, v1: int, t: int) -> int {
    let span = x1 - x0;
    let x = t - x0;
    v0 + div_round((v1 - v0) * (x * x * (3 * span - 2 * x)), span * span * span)
}

/// Where in the cycle the time `t` is; a time before the start is before it
/// here, too.
pub open spec fn in_cycle(t: int) -> int {
    if t >= 0 {
        t % 66_000_000
    } else {
        -(-t % 66_000_000)
    }
}

/// The speed at the time `m` of the cycle, as a piecewise trace: pull away,
/// cruise, slow for a junction, accelerate onto a faster road, then come to a
/// stop.
pub open spec fn trace(m: int) -> int {
    if m <= 11_000_000 {
        step(0, 0, 11_000_000, 62_000_000, m)
    } else if m <= 22_000_000 {
        step(11_000_000, 62_000_000, 22_000_000, 68_000_000, m)
    } else if m <= 28_000_000 {
        step(22_000_000, 68_000_000, 28_000_000, 34_000_000, m)
    } else if m <= 34_000_000 {
        step(28_000_000, 34_000_000, 34_000_000, 30_000_000, m)
    } else if m <= 45_000_000 {
        step(34_000_000, 30_000_000, 45_000_000, 118_000_000, m)
    } else if m <= 52_000_000 {
        step(45_000_000, 118_000_000, 52_000_000, 104_000_000, m)
    } else if m <= 61_000_000 {
        step(52_000_000, 104_000_000, 61_000_000, 0, m)
    } else {
        0
    }
}

/// Target speed at time `t`.
pub open spec fn target(t: int) -> int {
    trace(in_cycle(t))
}

/// Acceleration in km/h per second, over half a second around `t`.
pub open spec fn acceleration(t: int) -> int {
    2 * (target(t + 250_000) - target(t - 250_000))
}

/// A smooth step stays between its ends.
pub proof fn a_step_stays_between_its_ends(x0: int, v0: int, x1: int, v1: int, t: int)
    requires
        x0 <= t <= x1,
        x0 < x1,
    ensures
        v0 <= v1 ==> v0 <= step(x0, v0, x1, v1, t) <= v1,
        v1 <= v0 ==> v1 <= step(x0, v0, x1, v1, t) <= v0,
{
    let s = x1 - x0;
    let x = t - x0;
    let k = x * x * (3 * s - 2 * x);
    let cube = s * s * s;
    smooth_part(x, s);
    let d = v1 - v0;
    let q = div_round(d * k, cube);
    rounding_is_nearest(d * k, cube);
    between(d, k, cube, q);
}

/// The part of a smooth step that is done is between nothing and all of it.
pub proof fn smooth_part(x: int, s: int)
    requires
        0 <= x <= s,
        0 < s,
    ensures
        0 <= x * x * (3 * s - 2 * x) <= s * s * s,
        s * s * s > 0,
{
    assert(0 <= x * x) by (nonlinear_arith);
    assert(0 <= x * x * (3 * s - 2 * x)) by (nonlinear_arith)
        requires
            0 <= x * x,
            0 <= 3 * s - 2 * x,
    ;
    // s^3 - 3 s x^2 + 2 x^3 is (s - x)^2 (s + 2 x).
    let r = s - x;
    assert(0 <= r * r) by (nonlinear_arith);
    assert(0 <= r * r * (s + 2 * x)) by (nonlinear_arith)
        requires
            0 <= r * r,
            0 <= s + 2 * x,
    ;
    assert(r * r * (s + 2 * x) == s * s * s - x * x * (3 * s - 2 * x)) by (nonlinear_arith)
        requires
            r == s - x,
    ;
    assert(0 < s * s * s) by (nonlinear_arith)
        requires
            0 < s,
    ;
}

/// A part of `d` that is rounded is between nothing and `d`.
proof fn between(d: int, k: int, whole: int, q: int)
    requires
        0 <= k <= whole,
        0 < whole,
        2 * (d * k - whole * q) <= whole,
        2 * (whole * q - d * k) <= whole,
    ensures
        d >= 0 ==> 0 <= q <= d,
        d <= 0 ==> d <= q <= 0,
{
    if d >= 0 {
        assert(0 <= d * k <= d * whole) by (nonlinear_arith)
            requires
                0 <= d,
                0 <= k <= whole,
        ;
        assert(0 <= q <= d) by (nonlinear_arith)
            requires
                0 <= d * k <= d * whole,
                0 < whole,
                2 * (d * k - whole * q) <= whole,
                2 * (whole * q - d * k) <= whole,
        ;
    }
    if d <= 0 {
        assert(d * whole <= d * k <= 0) by (nonlinear_arith)
            requires
                d <= 0,
                0 <= k <= whole,
        ;
        assert(d <= q <= 0) by (nonlinear_arith)
            requires
                d * whole <= d * k <= 0,
                0 < whole,
                2 * (d * k - whole * q) <= whole,
                2 * (whole * q - d * k) <= whole,
        ;
    }
}

/// The trace never leaves the range of its points.
pub proof fn the_trace_stays_in_range(t: int)
    requires
        t >= 0,
    ensures
        0 <= target(t) <= FASTEST,
{
    let m = in_cycle(t);
    if m <= 11_000_000 {
        a_step_stays_between_its_ends(0, 0, 11_000_000, 62_000_000, m);
    } else if m <= 22_000_000 {
        a_step_stays_between_its_ends(11_000_000, 62_000_000, 22_000_000, 68_000_000, m);
    } else if m <= 28_000_000 {
        a_step_stays_between_its_ends(22_000_000, 68_000_000, 28_000_000, 34_000_000, m);
    } else if m <= 34_000_000 {
        a_step_stays_between_its_ends(28_000_000, 34_000_000, 34_000_000, 30_000_000, m);
    } else if m <= 45_000_000 {
        a_step_stays_between_its_ends(34_000_000, 30_000_000, 45_000_000, 118_000_000, m);
    } else if m <= 52_000_000 {
        a_step_stays_between_its_ends(45_000_000, 118_000_000, 52_000_000, 104_000_000, m);
    } else if m <= 61_000_000 {
        a_step_stays_between_its_ends(52_000_000, 104_000_000, 61_000_000, 0, m);
    }
}

/// The drive cycle repeats.
pub proof fn the_cycle_repeats(t: int)
    requires
        t >= 0,
    ensures
        target(t + CYCLE) == target(t),
{
    assert(in_cycle(t + CYCLE) == in_cycle(t));
}

/// What a `SimSource` knows: the time since the cycle started, the speed shown,
/// the distance travelled and the odometer.
pub struct SimView {
    pub t: int,
    pub speed: int,
    pub trip_km: int,
    pub odo_km: int,
}

/// The simulation `dt` later. The shown speed chases the trace: it gets nearer
/// by the part `gain` (in millionths) of the distance.
pub open spec fn advanced(s: SimView, dt: int, gain: int) -> SimView {
    let t = clamped(s.t + dt, 0, u64::MAX as int);
    let speed = s.speed + div_round((target(t) - s.speed) * gain, 1_000_000);
    // Millionths of a kilometre, from km/h and microseconds.
    let km = div_round(speed * dt, 3_600_000_000);
    SimView { t, speed, trip_km: as_micro(s.trip_km + km) as int, odo_km: as_micro(
        s.odo_km + km,
    ) as int }
}

/// Distance to the turn; it counts down and repeats with the cycle.
pub open spec fn to_turn(t: int) -> int {
    div_round(132_000_000 - 2 * (t % 66_000_000), 55)
}

/// The positive part of `a`.
pub open spec fn gain_of(a: int) -> int {
    if a > 0 {
        a
    } else {
        0
    }
}

/// The readings of a vehicle in the state `s` with the acceleration `a`. A healthy
/// vehicle: headlights
/// on, lane keeping tracking, cruise held on the open stretches, and the
/// indicator blinking as the junction nears. The warning lamps stay off.
pub open spec fn readings_with(s: SimView, a: int) -> TelemetryView {
    TelemetryView {
        speed_kmh: s.speed as i64,
        power: clamped(div_round(a, 9), -1_000_000, 1_000_000) as i64,
        // Efficiency drops while accelerating (spending energy) and rises while
        // regenerating (recovering it).
        efficiency_percent: clamped(
            div_round(850_000_000 - 16 * gain_of(a) + 14 * gain_of(-a), 10),
            40_000_000,
            99_000_000,
        ) as i64,
        avg_efficiency_kwh: clamped(
            div_round(480_000_000 - 6 * gain_of(a), 100),
            2_000_000,
            i64::MAX as int,
        ) as i64,
        // Remaining range and charge fall as the trip goes on.
        range_km: clamped(560_000_000 - s.trip_km, 0, i64::MAX as int) as i64,
        battery_level: clamped(
            div_round(2_380_000_000 - 3 * s.trip_km, 2_800),
            50_000,
            1_000_000,
        ) as i64,
        fuel_level: clamped(div_round(770_000_000 - s.trip_km, 1_400), 20_000, 1_000_000) as i64,
        outside_temp_c: 21,
        odo_km: s.odo_km as i64,
        trip_seconds: whole_units(s.t),
        turn_distance_km: to_turn(s.t) as i64,
        turn_street: "Minatomirai Blvd"@,
        cruise_speed_kmh: 80_000_000,
        lta_on: true,
        lca_on: true,
        gear: 'D',
        ready: true,
        turn_left: false,
        turn_right: 50_000 < to_turn(s.t) < 1_200_000,
        headlights: Beam::Low,
        engine: Warn::Off,
        oil: Warn::Off,
        battery_warn: Warn::Off,
        abs: Warn::Off,
        parking_brake: false,
        seatbelt: false,
        door_open: false,
        cruise: if s.speed > 55_000_000 && -3_000_000 < a < 3_000_000 {
            Cruise::Active
        } else {
            Cruise::Off
        },
        lane: Lane::Tracking,
    }
}

/// The readings of a vehicle in the state `s`.
pub open spec fn readings(s: SimView) -> TelemetryView {
    readings_with(s, acceleration(s.t))
}

/// The simulation `dt` later, and the readings that it has there.
pub open spec fn polled(s: SimView, dt: int, gain: int) -> (SimView, TelemetryView) {
    (advanced(s, dt, gain), readings(advanced(s, dt, gain)))
}

pub struct SimSource {
    /// Time since the cycle started.
    t: u64,
    /// Speed actually shown, low-pass filtered so the needle never jumps.
    speed: Micro,
    /// Distance travelled this cycle, km.
    trip_km: Micro,
    odo_km: Micro,
}

impl View for SimSource {
    type V = SimView;

    closed spec fn view(&self) -> SimView {
        SimView {
            t: self.t as int,
            speed: self.speed as int,
            trip_km: self.trip_km as int,
            odo_km: self.odo_km as int,
        }
    }
}

impl Default for SimSource {
    fn default() -> (s: Self)
        ensures
            s@ == (SimView { t: 0, speed: 0, trip_km: 0, odo_km: 12_345_000_000 }),
    {
        SimSource::new()
    }
}

/// One smooth step of the trace.
fn stepped(x0: i128, v0: i128, x1: i128, v1: i128, t: i128) -> (v: i128)
    requires
        0 <= x0 <= t <= x1,
        1_000_000 <= x1 - x0 <= 11_000_000,
        0 <= v0 <= 118_000_000,
        0 <= v1 <= 118_000_000,
    ensures
        v == step(x0 as int, v0 as int, x1 as int, v1 as int, t as int),
        0 <= v <= 118_000_000,
{
    let span: i128 = x1 - x0;
    let x: i128 = t - x0;
    proof {
        products_fit(x as int, span as int, v1 - v0);
        a_step_stays_between_its_ends(x0 as int, v0 as int, x1 as int, v1 as int, t as int);
    }
    let part: i128 = x * x * (3 * span - 2 * x);
    let cube: i128 = span * span * span;
    v0 + div_nearest((v1 - v0) * part, cube)
}

/// The products of a smooth step stay far within range.
proof fn products_fit(x: int, span: int, d: int)
    requires
        0 <= x <= span,
        1_000_000 <= span <= 11_000_000,
        -118_000_000 <= d <= 118_000_000,
    ensures
        0 <= x * x <= 121_000_000_000_000,
        0 <= x * x * (3 * span - 2 * x) <= 1_331_000_000_000_000_000_000,
        0 <= span * span <= 121_000_000_000_000,
        0 < span * span * span <= 1_331_000_000_000_000_000_000,
        -157_058_000_000_000_000_000_000_000_000 <= d * (x * x * (3 * span - 2 * x))
            <= 157_058_000_000_000_000_000_000_000_000,
{
    assert(0 <= x * x <= 121_000_000_000_000) by (nonlinear_arith)
        requires
            0 <= x <= 11_000_000,
    ;
    assert(0 <= span * span <= 121_000_000_000_000) by (nonlinear_arith)
        requires
            0 <= span <= 11_000_000,
    ;
    let ss = span * span;
    assert(ss * span <= 1_331_000_000_000_000_000_000) by (nonlinear_arith)
        requires
            0 <= ss <= 121_000_000_000_000,
            0 <= span <= 11_000_000,
    ;
    smooth_part(x, span);
    let p = x * x * (3 * span - 2 * x);
    assert(-118_000_000 * p <= d * p <= 118_000_000 * p) by (nonlinear_arith)
        requires
            -118_000_000 <= d <= 118_000_000,
            0 <= p,
    ;
}

/// The trace before its start: the first step, continued backwards.
fn before_start(m: i128) -> (v: i128)
    requires
        -66_000_000 < m < 0,
    ensures
        v == trace(m as int),
        0 <= v <= 100_000_000_000,
        -250_000 <= m ==> v <= 1_000_000,
{
    proof {
        let w = 33_000_000 - 2 * m;
        let xx = m * m;
        assert(0 <= m * m <= 4_356_000_000_000_000) by (nonlinear_arith)
            requires
                -66_000_000 < m < 0,
        ;
        assert(0 <= xx * w <= 4_356_000_000_000_000 * 165_000_000) by (nonlinear_arith)
            requires
                0 <= xx <= 4_356_000_000_000_000,
                0 <= w <= 165_000_000,
        ;
        if -250_000 <= m {
            assert(m * m <= 62_500_000_000) by (nonlinear_arith)
                requires
                    -250_000 <= m < 0,
            ;
            assert(xx * w <= 62_500_000_000 * 33_500_000) by (nonlinear_arith)
                requires
                    0 <= xx <= 62_500_000_000,
                    0 <= w <= 33_500_000,
            ;
        }
        rounding_is_nearest(62_000_000 * (xx * w), 1_331_000_000_000_000_000_000);
    }
    let part: i128 = m * m * (33_000_000 - 2 * m);
    div_nearest(62_000_000 * part, 1_331_000_000_000_000_000_000)
}

impl SimSource {
    pub fn new() -> (s: Self)
        ensures
            s@ == (SimView { t: 0, speed: 0, trip_km: 0, odo_km: 12_345_000_000 }),
    {
        SimSource { t: 0, speed: 0, trip_km: 0, odo_km: 12_345_000_000 }
    }

    /// The shown speed is one that the trace has, and distances only grow.
    #[verifier::type_invariant]
    spec fn plausible(self) -> bool {
        &&& 0 <= self.speed <= FASTEST
        &&& 0 <= self.trip_km
    }

    /// Target speed at time `t`, as a piecewise trace: pull away, cruise, slow
    /// for a junction, accelerate onto a faster road, then come to a stop.
    /// A time before the start is as long before it in the cycle.
    pub fn target_speed(t: i128) -> (v: i128)
        ensures
            v == target(t as int),
            0 <= v,
            t >= 0 ==> v <= FASTEST,
            -250_000 <= t < 0 ==> v <= 1_000_000,
    {
        let m: i128 = if t >= 0 {
            t % CYCLE
        } else {
            // One less than `-t`, which `i128` always holds.
            let less: i128 = -(t + 1);
            -((less % CYCLE + 1) % CYCLE)
        };
        if m < 0 {
            before_start(m)
        } else if m <= 11_000_000 {
            stepped(0, 0, 11_000_000, 62_000_000, m)
        } else if m <= 22_000_000 {
            stepped(11_000_000, 62_000_000, 22_000_000, 68_000_000, m)
        } else if m <= 28_000_000 {
            stepped(22_000_000, 68_000_000, 28_000_000, 34_000_000, m)
        } else if m <= 34_000_000 {
            stepped(28_000_000, 34_000_000, 34_000_000, 30_000_000, m)
        } else if m <= 45_000_000 {
            stepped(34_000_000, 30_000_000, 45_000_000, 118_000_000, m)
        } else if m <= 52_000_000 {
            stepped(45_000_000, 118_000_000, 52_000_000, 104_000_000, m)
        } else if m <= 61_000_000 {
            stepped(52_000_000, 104_000_000, 61_000_000, 0, m)
        } else {
            0
        }
    }

    /// Acceleration in km/h per second, used to drive the power/charge meter.
    fn accel(&self) -> (a: i128)
        ensures
            a == acceleration(self@.t),
            -240_000_000 <= a <= 240_000_000,
    {
        let t: i128 = self.t as i128;
        2 * (SimSource::target_speed(t + 250_000) - SimSource::target_speed(t - 250_000))
    }

    /// First-order lag: the shown speed chases the trace.
    fn chase(&self, t: u64, gain: Micro) -> (speed: Micro)
        requires
            0 <= gain <= 1_000_000,
        ensures
            speed == self@.speed + div_round(
                (target(t as int) - self@.speed) * gain,
                1_000_000,
            ),
            0 <= speed <= FASTEST,
    {
        let d: i128 = SimSource::target_speed(t as i128) - self.speed as i128;
        proof {
            use_type_invariant(self);
            the_trace_stays_in_range(t as int);
            rounding_is_nearest(d * gain, 1_000_000);
            between(d as int, gain as int, 1_000_000, div_round(d * gain, 1_000_000));
            assert(-118_000_000_000_000 <= d * gain <= 118_000_000_000_000) by (nonlinear_arith)
                requires
                    -118_000_000 <= d <= 118_000_000,
                    0 <= gain <= 1_000_000,
            ;
        }
        self.speed + div_nearest(d * gain as i128, 1_000_000) as i64
    }

    /// Advance by `dt` microseconds.
    fn advance(&mut self, dt: u64, gain: Micro)
        requires
            0 <= gain <= 1_000_000,
        ensures
            final(self)@ == advanced(old(self)@, dt as int, gain as int),
            old(self)@.trip_km <= final(self)@.trip_km,
            old(self)@.odo_km <= final(self)@.odo_km,
    {
        proof {
            use_type_invariant(&*self);
        }
        let t: u64 = if dt > u64::MAX - self.t { u64::MAX } else { self.t + dt };
        let speed: Micro = self.chase(t, gain);
        proof {
            assert(0 <= speed * dt <= 118_000_000 * 0xffff_ffff_ffff_ffff) by (nonlinear_arith)
                requires
                    0 <= speed <= 118_000_000,
                    0 <= dt <= 0xffff_ffff_ffff_ffff,
            ;
            rounding_is_nearest(speed * dt, 3_600_000_000);
        }
        let km: i128 = div_nearest(speed as i128 * dt as i128, 3_600_000_000);
        let trip_km: Micro = saturate(self.trip_km as i128 + km);
        let odo_km: Micro = saturate(self.odo_km as i128 + km);
        *self = SimSource { t, speed, trip_km, odo_km };
    }

    /// Advance by `dt` (microseconds of wall time since the last call) and
    /// return the signals to show now. `gain`, from 0 to one million, is the
    /// part of the way to the trace, in millionths, that the shown speed makes
    /// in that time.
    pub fn poll(&mut self, dt: u64, gain: Micro) -> (r: Telemetry)
        requires
            0 <= gain <= 1_000_000,
        ensures
            (final(self)@, r@) == polled(old(self)@, dt as int, gain as int),
            final(self)@ == advanced(old(self)@, dt as int, gain as int),
            r@ == readings(final(self)@),
            0 <= r@.speed_kmh <= FASTEST,
            old(self)@.trip_km <= final(self)@.trip_km,
            old(self)@.odo_km <= final(self)@.odo_km,
    {
        self.advance(dt, gain);
        self.read()
    }

    /// The readings of the vehicle as it is.
    fn read(&self) -> (r: Telemetry)
        ensures
            r@ == readings(self@),
            0 <= r@.speed_kmh <= FASTEST,
    {
        proof {
            use_type_invariant(self);
        }
        let a: i128 = self.accel();
        let spent: i128 = if a > 0 { a } else { 0 };
        let recovered: i128 = if a < 0 { -a } else { 0 };
        let trip: i128 = self.trip_km as i128;
        let turn: Micro = self.turn_distance();
        Telemetry {
            speed_kmh: self.speed,
            // Idle sits a little above the middle of the sweep; the UI maps this
            // signed power to the left dial's REGEN..CHARGE..POWER angle.
            power: limit(div_nearest(a, 9), -1_000_000, 1_000_000),
            efficiency_percent: limit(
                div_nearest(850_000_000 - 16 * spent + 14 * recovered, 10),
                40_000_000,
                99_000_000,
            ),
            avg_efficiency_kwh: limit(
                div_nearest(480_000_000 - 6 * spent, 100),
                2_000_000,
                i64::MAX,
            ),
            range_km: limit(560_000_000 - trip, 0, i64::MAX),
            battery_level: limit(
                div_nearest(2_380_000_000 - 3 * trip, 2_800),
                50_000,
                1_000_000,
            ),
            fuel_level: limit(div_nearest(770_000_000 - trip, 1_400), 20_000, 1_000_000),
            outside_temp_c: 21,
            odo_km: self.odo_km,
            trip_seconds: whole(self.t as i128),
            turn_distance_km: turn,
            turn_street: "Minatomirai Blvd".to_owned(),
            cruise_speed_kmh: 80_000_000,
            lta_on: true,
            lca_on: true,
            gear: 'D',
            ready: true,
            turn_left: false,
            turn_right: turn > 50_000 && turn < 1_200_000,
            headlights: Beam::Low,
            engine: Warn::Off,
            oil: Warn::Off,
            battery_warn: Warn::Off,
            abs: Warn::Off,
            parking_brake: false,
            seatbelt: false,
            door_open: false,
            cruise: if self.speed > 55_000_000 && -3_000_000 < a && a < 3_000_000 {
                Cruise::Active
            } else {
                Cruise::Off
            },
            lane: Lane::Tracking,
        }
    }

    /// Distance to the turn; it counts down and repeats with the cycle.
    fn turn_distance(&self) -> (km: Micro)
        ensures
            km == to_turn(self@.t),
    {
        let m: i128 = self.t as i128 % CYCLE;
        proof {
            rounding_is_nearest(132_000_000 - 2 * m, 55);
        }
        div_nearest(132_000_000 - 2 * m, 55) as i64
    }
}

/// `n` brought into `lo..=hi`.
fn limit(n: i128, lo: i64, hi: i64) -> (q: i64)
    requires
        lo <= hi,
    ensures
        q == clamped(n as int, lo as int, hi as int),
{
    if n < lo as i128 {
        lo
    } else if n > hi as i128 {
        hi
    } else {
        n as i64
    }
}

/// The shown speed chases the trace and never passes it: it ends between where
/// it was and where the trace is, at the trace for the full gain and where it
/// was for none.
pub proof fn the_speed_chases_the_trace(s: SimView, dt: int, gain: int)
    requires
        0 <= gain <= 1_000_000,
    ensures
        ({
            let next = advanced(s, dt, gain);
            let aim = target(next.t);
            &&& s.speed <= aim ==> s.speed <= next.speed <= aim
            &&& aim <= s.speed ==> aim <= next.speed <= s.speed
            &&& gain == 1_000_000 ==> next.speed == aim
            &&& gain == 0 ==> next.speed == s.speed
        }),
{
    let d = target(advanced(s, dt, gain).t) - s.speed;
    rounding_is_nearest(d * gain, 1_000_000);
    between(d, gain, 1_000_000, div_round(d * gain, 1_000_000));
    rounding_is_exact_on_multiples(d, 1_000_000);
    rounding_is_exact_on_multiples(0, 1_000_000);
}

/// What the odometer gains is what the trip gains, until a counter is full.
pub proof fn the_odometer_counts_the_trip(s: SimView, dt: int, gain: int)
    requires
        advanced(s, dt, gain).trip_km < i64::MAX,
        advanced(s, dt, gain).odo_km < i64::MAX,
        i64::MIN < advanced(s, dt, gain).trip_km,
        i64::MIN < advanced(s, dt, gain).odo_km,
    ensures
        advanced(s, dt, gain).odo_km - s.odo_km == advanced(s, dt, gain).trip_km - s.trip_km,
{
}

/// Every reading is plausible: power between full regeneration and full power,
/// efficiency, range, charge and fuel within their scales and never above what
/// the trip began with, and no warning lamp lit. The indicator blinks on the
/// last stretch to the turn and only there, and cruise control holds a speed
/// above 55 km/h that hardly changes, and no other.
pub proof fn readings_are_plausible(s: SimView)
    requires
        i64::MIN <= s.speed <= i64::MAX,
        s.trip_km >= 0,
    ensures
        -1_000_000 <= readings(s).power <= 1_000_000,
        40_000_000 <= readings(s).efficiency_percent <= 99_000_000,
        2_000_000 <= readings(s).avg_efficiency_kwh <= 4_800_000,
        0 <= readings(s).range_km <= 560_000_000,
        50_000 <= readings(s).battery_level <= 850_000,
        20_000 <= readings(s).fuel_level <= 550_000,
        0 <= readings(s).turn_distance_km <= 2_400_000,
        readings(s).turn_right <==> 50_000 < readings(s).turn_distance_km < 1_200_000,
        !readings(s).turn_left,
        readings(s).cruise == Cruise::Active <==> readings(s).speed_kmh > 55_000_000 && -3_000_000
            < acceleration(s.t) < 3_000_000,
        readings(s).cruise != Cruise::Armed,
        readings(s).engine == Warn::Off && readings(s).oil == Warn::Off && readings(s).battery_warn
            == Warn::Off && readings(s).abs == Warn::Off,
        !readings(s).parking_brake && !readings(s).seatbelt && !readings(s).door_open,
{
    rounding_is_nearest(132_000_000 - 2 * (s.t % 66_000_000), 55);
}

/// Remaining range, charge and fuel fall as the trip goes on.
pub proof fn what_is_left_falls_with_the_trip(s: SimView, later: SimView)
    requires
        0 <= s.trip_km <= later.trip_km,
    ensures
        readings(later).range_km <= readings(s).range_km,
        readings(later).battery_level <= readings(s).battery_level,
        readings(later).fuel_level <= readings(s).fuel_level,
{
}

} // verus!
