//! What each VSS signal does to the cluster, and what the cluster publishes.

use vstd::prelude::*;

use crate::fixed::{
    a_product_is_near, clamped, div_round, product, rounded_product, rounding_is_exact_on_multiples,
    rounding_is_nearest, single, single_is_not_negative, Micro, SINGLE_UNIT,
};
use crate::kuksa::{
    accepted, after_signal, announced, applied, changes, fits, folded, is_bare, kilowatts, named,
    number_in, path_of, published, readings, unreported, value_in, whole_metres, Datapoint, Signal,
    SignalsView, TypedValue, Value, ValueView,
};
use crate::kuksa_laws::{published_in_four_groups, same_raw};
use crate::telemetry::{same_fields, Beam, Cruise, Lane, TelemetryView, Warn};

verus! {

// ----- paths and values --------------------------------------------------------------

/// The path of every signal, letter by letter.
pub proof fn paths_are_spelled()
    ensures
        path_of(Signal::Speed) == "Vehicle.Speed"@,
        path_of(Signal::TraveledDistance) == "Vehicle.TraveledDistance"@,
        path_of(Signal::TripDuration) == "Vehicle.TripDuration"@,
        path_of(Signal::AirTemperature) == "Vehicle.Exterior.AirTemperature"@,
        path_of(Signal::SystemState) == "Vehicle.LowVoltageSystemState"@,
        path_of(Signal::BatteryVoltage) == "Vehicle.LowVoltageBattery.CurrentVoltage"@,
        path_of(Signal::Range) == "Vehicle.Powertrain.Range"@,
        path_of(Signal::StateOfCharge)
            == "Vehicle.Powertrain.TractionBattery.StateOfCharge.Current"@,
        path_of(Signal::FuelLevel) == "Vehicle.Powertrain.FuelSystem.RelativeLevel"@,
        path_of(Signal::MotorPower) == "Vehicle.Powertrain.ElectricMotor.Power"@,
        path_of(Signal::MaxPower) == "Vehicle.Powertrain.ElectricMotor.MaxPower"@,
        path_of(Signal::SelectedGear) == "Vehicle.Powertrain.Transmission.SelectedGear"@,
        path_of(Signal::OilLevel) == "Vehicle.Powertrain.CombustionEngine.EngineOilLevel"@,
        path_of(Signal::MilOn) == "Vehicle.OBD.Status.IsMILOn"@,
        path_of(Signal::CruiseEnabled) == "Vehicle.ADAS.CruiseControl.IsEnabled"@,
        path_of(Signal::CruiseActive) == "Vehicle.ADAS.CruiseControl.IsActive"@,
        path_of(Signal::CruiseSpeed) == "Vehicle.ADAS.CruiseControl.SpeedSet"@,
        path_of(Signal::LaneEnabled) == "Vehicle.ADAS.LaneDepartureDetection.IsEnabled"@,
        path_of(Signal::LaneWarning) == "Vehicle.ADAS.LaneDepartureDetection.IsWarning"@,
        path_of(Signal::AbsError) == "Vehicle.ADAS.ABS.IsError"@,
        path_of(Signal::TurnLeft) == "Vehicle.Body.Lights.DirectionIndicator.Left.IsSignaling"@,
        path_of(Signal::TurnRight) == "Vehicle.Body.Lights.DirectionIndicator.Right.IsSignaling"@,
        path_of(Signal::LowBeam) == "Vehicle.Body.Lights.Beam.Low.IsOn"@,
        path_of(Signal::HighBeam) == "Vehicle.Body.Lights.Beam.High.IsOn"@,
        path_of(Signal::ParkingBrake) == "Vehicle.Chassis.ParkingBrake.IsEngaged"@,
        path_of(Signal::Belted) == "Vehicle.Cabin.Seat.Row1.DriverSide.IsBelted"@,
        path_of(Signal::FrontDriverDoor) == "Vehicle.Cabin.Door.Row1.DriverSide.IsOpen"@,
        path_of(Signal::FrontPassengerDoor) == "Vehicle.Cabin.Door.Row1.PassengerSide.IsOpen"@,
        path_of(Signal::RearDriverDoor) == "Vehicle.Cabin.Door.Row2.DriverSide.IsOpen"@,
        path_of(Signal::RearPassengerDoor) == "Vehicle.Cabin.Door.Row2.PassengerSide.IsOpen"@,
{
}

/// A number is one in any numeric encoding, in millionths; a text, a flag and an
/// array are none.
pub proof fn what_a_number_is(v: ValueView)
    ensures
        v matches ValueView::Int32(n) ==> number_in(v) == Some(n * 1_000_000),
        v matches ValueView::Int64(n) ==> number_in(v) == Some(n * 1_000_000),
        v matches ValueView::Uint32(n) ==> number_in(v) == Some(n * 1_000_000),
        v matches ValueView::Uint64(n) ==> number_in(v) == Some(n * 1_000_000),
        v matches ValueView::Float(x) ==> number_in(v) == Some(x as int),
        v matches ValueView::Double(x) ==> number_in(v) == Some(x as int),
        v is String || v is Bool || v is Array ==> number_in(v) is None,
{
}

/// Whether the value `v` has the type that the signal `s` needs: a text for the
/// system state and the oil level, a number for what is measured, a flag for
/// everything else.
pub open spec fn has_its_type(s: Signal, v: ValueView) -> bool {
    if s == Signal::SystemState || s == Signal::OilLevel {
        v is String
    } else if s == Signal::Speed || s == Signal::TraveledDistance || s == Signal::TripDuration || s
        == Signal::AirTemperature || s == Signal::BatteryVoltage || s == Signal::Range || s
        == Signal::StateOfCharge || s == Signal::FuelLevel || s == Signal::MotorPower || s
        == Signal::MaxPower || s == Signal::SelectedGear || s == Signal::CruiseSpeed {
        !(v is String || v is Bool || v is Array)
    } else {
        v is Bool
    }
}

/// An update counts if and only if its path is one of the cluster's and its value
/// has the type that the signal needs.
pub proof fn what_counts(t: TelemetryView, g: SignalsView, path: Seq<char>, v: ValueView)
    ensures
        accepted(path, v) <==> named(path) is Some && has_its_type(named(path)->0, v),
        named(path) matches Some(s) ==> fits(s, v) == has_its_type(s, v),
        named(path) matches Some(s) ==> applied(t, g, path, v) == after_signal(t, g, s, v),
        !accepted(path, v) ==> applied(t, g, path, v) == (t, g),
{
}

// ----- numbers -----------------------------------------------------------------------

/// Whether the quantity `q` is `n`, or the end of its range that is nearer to `n`.
pub open spec fn holds(q: i64, n: int) -> bool {
    &&& i64::MIN <= n <= i64::MAX ==> q == n
    &&& n > i64::MAX ==> q == i64::MAX
    &&& n < i64::MIN ==> q == i64::MIN
}

/// Speed, odometer and set speed are taken over as they come, and nothing else
/// changes.
pub proof fn what_speeds_and_distances_do(t: TelemetryView, g: SignalsView, v: ValueView, n: int)
    requires
        number_in(v) == Some(n),
    ensures
        ({
            let r = after_signal(t, g, Signal::Speed, v);
            r == (TelemetryView { speed_kmh: r.0.speed_kmh, ..t }, g) && holds(r.0.speed_kmh, n)
        }),
        ({
            let r = after_signal(t, g, Signal::TraveledDistance, v);
            r == (TelemetryView { odo_km: r.0.odo_km, ..t }, g) && holds(r.0.odo_km, n)
        }),
        ({
            let r = after_signal(t, g, Signal::CruiseSpeed, v);
            r == (TelemetryView { cruise_speed_kmh: r.0.cruise_speed_kmh, ..t }, g) && holds(
                r.0.cruise_speed_kmh,
                n,
            )
        }),
{
}

/// Whether `q` is `n / d` to the nearest, halves away from zero.
pub open spec fn is_nearest(q: int, n: int, d: int) -> bool {
    &&& 2 * (n - d * q) <= d
    &&& 2 * (d * q - n) <= d
    &&& 2 * (n - d * q) == d ==> n < 0
    &&& 2 * (d * q - n) == d ==> n > 0
}

proof fn rounding_is_the_nearest(n: int, d: int)
    requires
        d > 0,
    ensures
        is_nearest(div_round(n, d), n, d),
{
    rounding_is_nearest(n, d);
    let m = if n >= 0 { n } else { -n };
    let h = d / 2;
    let q = (m + h) / d;
    assert(d * q <= m + h < d * q + d) by (nonlinear_arith)
        requires
            q == (m + h) / d,
            d > 0,
    ;
    assert(d * -q == -(d * q)) by (nonlinear_arith);
    let r = div_round(n, d);
    assert(r == if n >= 0 {
        q
    } else {
        -q
    });
    assert(d * r == if n >= 0 {
        d * q
    } else {
        -(d * q)
    });
    assert(d == 2 * h || d == 2 * h + 1);
    assert(n == 0 ==> q == 0) by (nonlinear_arith)
        requires
            n == 0 ==> d * q <= h,
            n == 0 ==> h < d * q + d,
            0 <= h < d,
    ;
}

/// The range comes in metres and is shown in km, to the nearest that a quantity
/// holds; nothing else changes.
pub proof fn what_the_range_does(t: TelemetryView, g: SignalsView, v: ValueView, n: int)
    requires
        number_in(v) == Some(n),
    ensures
        ({
            let r = after_signal(t, g, Signal::Range, v);
            &&& r == (TelemetryView { range_km: r.0.range_km, ..t }, g)
            &&& 1_000 * i64::MIN <= n <= 1_000 * i64::MAX ==> is_nearest(
                r.0.range_km as int,
                n,
                1_000,
            )
            &&& n < 1_000 * i64::MIN ==> r.0.range_km == i64::MIN
            &&& n > 1_000 * i64::MAX ==> r.0.range_km == i64::MAX
        }),
{
    rounding_is_the_nearest(n, 1_000);
}

/// Whether the fraction `f` is `n` percent, to the nearest, between nothing and
/// all of it.
pub open spec fn is_percentage(f: int, n: int) -> bool {
    &&& 0 <= f <= 1_000_000
    &&& 0 <= n <= 100_000_000 ==> is_nearest(f, n, 100)
    &&& n < 0 ==> f == 0
    &&& n > 100_000_000 ==> f == 1_000_000
}

/// Charge and fuel come in percent and are shown as fractions between nothing and
/// all; nothing else changes.
pub proof fn what_levels_do(t: TelemetryView, g: SignalsView, v: ValueView, n: int)
    requires
        number_in(v) == Some(n),
    ensures
        ({
            let r = after_signal(t, g, Signal::StateOfCharge, v);
            r == (TelemetryView { battery_level: r.0.battery_level, ..t }, g) && is_percentage(
                r.0.battery_level as int,
                n,
            )
        }),
        ({
            let r = after_signal(t, g, Signal::FuelLevel, v);
            r == (TelemetryView { fuel_level: r.0.fuel_level, ..t }, g) && is_percentage(
                r.0.fuel_level as int,
                n,
            )
        }),
{
    rounding_is_the_nearest(n, 100);
}

/// The temperature is shown to the nearest degree, as far as an `i32` holds it;
/// nothing else changes.
pub proof fn what_the_temperature_does(t: TelemetryView, g: SignalsView, v: ValueView, n: int)
    requires
        number_in(v) == Some(n),
    ensures
        ({
            let r = after_signal(t, g, Signal::AirTemperature, v);
            &&& r == (TelemetryView { outside_temp_c: r.0.outside_temp_c, ..t }, g)
            &&& -2_147_483_648_000_000 <= n <= 2_147_483_647_000_000 ==> is_nearest(
                r.0.outside_temp_c as int,
                n,
                1_000_000,
            )
            &&& n < -2_147_483_648_000_000 ==> r.0.outside_temp_c == i32::MIN
            &&& n > 2_147_483_647_000_000 ==> r.0.outside_temp_c == i32::MAX
        }),
{
    rounding_is_the_nearest(n, 1_000_000);
}

/// The trip time is shown in whole seconds, none if it is negative and no more
/// than a `u32` holds; nothing else changes.
pub proof fn what_the_trip_time_does(t: TelemetryView, g: SignalsView, v: ValueView, n: int)
    requires
        number_in(v) == Some(n),
    ensures
        ({
            let r = after_signal(t, g, Signal::TripDuration, v);
            &&& r == (TelemetryView { trip_seconds: r.0.trip_seconds, ..t }, g)
            &&& n < 0 ==> r.0.trip_seconds == 0
            &&& 0 <= n < 4_294_967_296_000_000 ==> 1_000_000 * r.0.trip_seconds <= n < 1_000_000 * (
            r.0.trip_seconds + 1)
            &&& n >= 4_294_967_296_000_000 ==> r.0.trip_seconds == u32::MAX
        }),
{
}

/// For every whole number `g`, the gear shown is neutral for 0 and only then, park
/// for 126 and only then, reverse for a negative number and only then, and drive
/// for every other. Nothing else changes.
pub proof fn what_a_whole_gear_does(t: TelemetryView, raw: SignalsView, v: ValueView, g: int)
    requires
        number_in(v) == Some(1_000_000 * g),
    ensures
        ({
            let r = after_signal(t, raw, Signal::SelectedGear, v);
            &&& r == (TelemetryView { gear: r.0.gear, ..t }, raw)
            &&& r.0.gear == 'N' <==> g == 0
            &&& r.0.gear == 'P' <==> g == 126
            &&& r.0.gear == 'R' <==> g < 0
            &&& r.0.gear == 'D' <==> g > 0 && g != 126
        }),
{
}

/// Of a number that is not whole the fraction does not count for the gear: it is
/// the gear of the whole number next to it towards zero.
pub proof fn a_fraction_of_a_gear_does_not_count(
    t: TelemetryView,
    raw: SignalsView,
    v: ValueView,
    w: ValueView,
    g: int,
    part: int,
)
    requires
        number_in(w) == Some(1_000_000 * g),
        0 <= part < 1_000_000,
        number_in(v) == Some(1_000_000 * g + part) && g >= 0 || number_in(v) == Some(
            1_000_000 * g - part,
        ) && g <= 0,
    ensures
        after_signal(t, raw, Signal::SelectedGear, v) == after_signal(
            t,
            raw,
            Signal::SelectedGear,
            w,
        ),
{
}

/// The battery lamp is red below 11 V, off from 11.8 V up and amber in between;
/// nothing else changes.
pub proof fn what_the_voltage_does(t: TelemetryView, g: SignalsView, v: ValueView, n: int)
    requires
        number_in(v) == Some(n),
    ensures
        ({
            let r = after_signal(t, g, Signal::BatteryVoltage, v);
            &&& r == (TelemetryView { battery_warn: r.0.battery_warn, ..t }, g)
            &&& r.0.battery_warn == Warn::Red <==> n < 11_000_000
            &&& r.0.battery_warn == Warn::Off <==> n >= 11_800_000
        }),
{
}

/// Whether `p` is the part `motor` of `max`, between full regeneration and full
/// power, to the nearest millionth.
pub open spec fn is_part(p: int, motor: int, max: int) -> bool {
    &&& -1_000_000 <= p <= 1_000_000
    &&& -max <= motor <= max ==> is_nearest(p, 1_000_000 * motor, max)
    &&& motor > max ==> p == 1_000_000
    &&& motor < -max ==> p == -1_000_000
}

proof fn power_is_part_of_the_largest(motor: int, max: int)
    requires
        max > 0,
    ensures
        is_part(clamped(div_round(1_000_000 * motor, max), -1_000_000, 1_000_000), motor, max),
{
    rounding_is_the_nearest(1_000_000 * motor, max);
    let q = div_round(1_000_000 * motor, max);
    assert(-max <= motor <= max ==> -1_000_000 <= q <= 1_000_000) by (nonlinear_arith)
        requires
            is_nearest(q, 1_000_000 * motor, max),
            max > 0,
    ;
    assert(motor > max ==> q >= 1_000_000) by (nonlinear_arith)
        requires
            is_nearest(q, 1_000_000 * motor, max),
            max > 0,
    ;
    assert(motor < -max ==> q <= -1_000_000) by (nonlinear_arith)
        requires
            is_nearest(q, 1_000_000 * motor, max),
            max > 0,
    ;
}

/// A motor power is shown as a part of the largest one, of 150 kW until one has
/// been reported; it is noted, and nothing else changes.
pub proof fn what_the_motor_power_does(t: TelemetryView, g: SignalsView, v: ValueView, n: int)
    requires
        number_in(v) == Some(n),
        g.max_power matches Some(max) ==> max > 0,
    ensures
        ({
            let r = after_signal(t, g, Signal::MotorPower, v);
            &&& r == (TelemetryView { power: r.0.power, ..t }, SignalsView { motor_power: n, ..g })
            &&& g.max_power matches Some(max) ==> is_part(r.0.power as int, n, max)
            &&& g.max_power is None ==> is_part(r.0.power as int, n, 150_000_000)
        }),
{
    power_is_part_of_the_largest(n, 150_000_000);
    if let Some(max) = g.max_power {
        power_is_part_of_the_largest(n, max);
    }
}

/// A largest power makes the motor power a part of it, one that is not positive a
/// part of 150 kW again; it is noted, and nothing else changes.
pub proof fn what_the_largest_power_does(t: TelemetryView, g: SignalsView, v: ValueView, n: int)
    requires
        number_in(v) == Some(n),
    ensures
        ({
            let r = after_signal(t, g, Signal::MaxPower, v);
            &&& r.0 == (TelemetryView { power: r.0.power, ..t })
            &&& n > 0 ==> r.1 == (SignalsView { max_power: Some(n), ..g }) && is_part(
                r.0.power as int,
                g.motor_power,
                n,
            )
            &&& n <= 0 ==> r.1 == (SignalsView { max_power: None, ..g }) && is_part(
                r.0.power as int,
                g.motor_power,
                150_000_000,
            )
        }),
{
    power_is_part_of_the_largest(g.motor_power, 150_000_000);
    if n > 0 {
        power_is_part_of_the_largest(g.motor_power, n);
    }
}

// ----- flags and texts ---------------------------------------------------------------

/// The left indicator follows its flag, and nothing else changes.
pub proof fn what_the_left_indicator_flag_does(t: TelemetryView, g: SignalsView, b: bool)
    ensures
        ({
            let r = after_signal(t, g, Signal::TurnLeft, ValueView::Bool(b));
            &&& r.0 == (TelemetryView { turn_left: b, ..t })
            &&& r.1 == g
        }),
{
    let r = after_signal(t, g, Signal::TurnLeft, ValueView::Bool(b));
    same_fields(r.0, TelemetryView { turn_left: b, ..t });
    same_raw(r.1, g);
}

/// The right indicator follows its flag, and nothing else changes.
pub proof fn what_the_right_indicator_flag_does(t: TelemetryView, g: SignalsView, b: bool)
    ensures
        ({
            let r = after_signal(t, g, Signal::TurnRight, ValueView::Bool(b));
            &&& r.0 == (TelemetryView { turn_right: b, ..t })
            &&& r.1 == g
        }),
{
    let r = after_signal(t, g, Signal::TurnRight, ValueView::Bool(b));
    same_fields(r.0, TelemetryView { turn_right: b, ..t });
    same_raw(r.1, g);
}

/// The parking brake lamp follows its flag, and nothing else changes.
pub proof fn what_the_parking_brake_flag_does(t: TelemetryView, g: SignalsView, b: bool)
    ensures
        ({
            let r = after_signal(t, g, Signal::ParkingBrake, ValueView::Bool(b));
            &&& r.0 == (TelemetryView { parking_brake: b, ..t })
            &&& r.1 == g
        }),
{
    let r = after_signal(t, g, Signal::ParkingBrake, ValueView::Bool(b));
    same_fields(r.0, TelemetryView { parking_brake: b, ..t });
    same_raw(r.1, g);
}

/// The belt lamp is lit while the belt is *not* fastened, and nothing else changes.
pub proof fn what_the_belt_flag_does(t: TelemetryView, g: SignalsView, b: bool)
    ensures
        ({
            let r = after_signal(t, g, Signal::Belted, ValueView::Bool(b));
            &&& r.0 == (TelemetryView { seatbelt: !b, ..t })
            &&& r.1 == g
        }),
{
    let r = after_signal(t, g, Signal::Belted, ValueView::Bool(b));
    same_fields(r.0, TelemetryView { seatbelt: !b, ..t });
    same_raw(r.1, g);
}

/// The engine lamp is amber while its flag is up and off while it is not,
/// and nothing else changes.
pub proof fn what_the_engine_flag_does(t: TelemetryView, g: SignalsView, b: bool)
    ensures
        ({
            let r = after_signal(t, g, Signal::MilOn, ValueView::Bool(b));
            &&& r.0 == (TelemetryView { engine: r.0.engine, ..t })
            &&& r.1 == g
            &&& b ==> r.0.engine == Warn::Amber
            &&& !b ==> r.0.engine == Warn::Off
        }),
{
    let r = after_signal(t, g, Signal::MilOn, ValueView::Bool(b));
    same_fields(r.0, TelemetryView { engine: r.0.engine, ..t });
    same_raw(r.1, g);
}

/// The ABS lamp is red while its flag is up and off while it is not,
/// and nothing else changes.
pub proof fn what_the_abs_flag_does(t: TelemetryView, g: SignalsView, b: bool)
    ensures
        ({
            let r = after_signal(t, g, Signal::AbsError, ValueView::Bool(b));
            &&& r.0 == (TelemetryView { abs: r.0.abs, ..t })
            &&& r.1 == g
            &&& b ==> r.0.abs == Warn::Red
            &&& !b ==> r.0.abs == Warn::Off
        }),
{
    let r = after_signal(t, g, Signal::AbsError, ValueView::Bool(b));
    same_fields(r.0, TelemetryView { abs: r.0.abs, ..t });
    same_raw(r.1, g);
}

/// Cruise control that is not active is armed while it is enabled, and off while
/// it is not. The flag is noted, and nothing else changes.
pub proof fn what_enabling_cruise_control_does(t: TelemetryView, g: SignalsView, b: bool)
    ensures
        ({
            let r = after_signal(t, g, Signal::CruiseEnabled, ValueView::Bool(b));
            &&& r.0 == (TelemetryView { cruise: r.0.cruise, ..t })
            &&& r.1 == (SignalsView { cruise_enabled: b, ..g })
            &&& r.0.cruise == Cruise::Active <==> g.cruise_active
            &&& r.0.cruise == Cruise::Armed <==> !g.cruise_active && b
        }),
{
    let r = after_signal(t, g, Signal::CruiseEnabled, ValueView::Bool(b));
    same_fields(r.0, TelemetryView { cruise: r.0.cruise, ..t });
    same_raw(r.1, SignalsView { cruise_enabled: b, ..g });
}

/// Cruise control is active while its flag for that is up; while it is not, it is
/// armed if it is enabled and else off. The flag is noted, and nothing else
/// changes.
pub proof fn what_activating_cruise_control_does(t: TelemetryView, g: SignalsView, b: bool)
    ensures
        ({
            let r = after_signal(t, g, Signal::CruiseActive, ValueView::Bool(b));
            &&& r.0 == (TelemetryView { cruise: r.0.cruise, ..t })
            &&& r.1 == (SignalsView { cruise_active: b, ..g })
            &&& r.0.cruise == Cruise::Active <==> b
            &&& r.0.cruise == Cruise::Armed <==> !b && g.cruise_enabled
        }),
{
    let r = after_signal(t, g, Signal::CruiseActive, ValueView::Bool(b));
    same_fields(r.0, TelemetryView { cruise: r.0.cruise, ..t });
    same_raw(r.1, SignalsView { cruise_active: b, ..g });
}

/// Lane keeping is off unless it is enabled, and then it warns or tracks; the lane
/// tracing lamp shows whether it is. The flag is noted, and nothing else changes.
pub proof fn what_enabling_lane_keeping_does(t: TelemetryView, g: SignalsView, b: bool)
    ensures
        ({
            let r = after_signal(t, g, Signal::LaneEnabled, ValueView::Bool(b));
            &&& r.0 == (TelemetryView { lane: r.0.lane, lta_on: b, ..t })
            &&& r.1 == (SignalsView { lane_enabled: b, ..g })
            &&& r.0.lane == Lane::Off <==> !b
            &&& r.0.lane == Lane::Warn <==> b && g.lane_warning
            &&& r.0.lane == Lane::Tracking <==> b && !g.lane_warning
        }),
{
    let r = after_signal(t, g, Signal::LaneEnabled, ValueView::Bool(b));
    same_fields(r.0, TelemetryView { lane: r.0.lane, lta_on: b, ..t });
    same_raw(r.1, SignalsView { lane_enabled: b, ..g });
}

/// Lane keeping that is enabled warns while its flag for that is up and tracks
/// while it is not. The flag is noted, and nothing else changes.
pub proof fn what_a_lane_warning_does(t: TelemetryView, g: SignalsView, b: bool)
    ensures
        ({
            let r = after_signal(t, g, Signal::LaneWarning, ValueView::Bool(b));
            &&& r.0 == (TelemetryView { lane: r.0.lane, ..t })
            &&& r.1 == (SignalsView { lane_warning: b, ..g })
            &&& r.0.lane == Lane::Off <==> !g.lane_enabled
            &&& r.0.lane == Lane::Warn <==> g.lane_enabled && b
            &&& r.0.lane == Lane::Tracking <==> g.lane_enabled && !b
        }),
{
    let r = after_signal(t, g, Signal::LaneWarning, ValueView::Bool(b));
    same_fields(r.0, TelemetryView { lane: r.0.lane, ..t });
    same_raw(r.1, SignalsView { lane_warning: b, ..g });
}

/// The headlights are on low beam while that is on and the high beam is not. The
/// flag is noted, and nothing else changes.
pub proof fn what_the_low_beam_does(t: TelemetryView, g: SignalsView, b: bool)
    ensures
        ({
            let r = after_signal(t, g, Signal::LowBeam, ValueView::Bool(b));
            &&& r.0 == (TelemetryView { headlights: r.0.headlights, ..t })
            &&& r.1 == (SignalsView { low_beam: b, ..g })
            &&& r.0.headlights == Beam::High <==> g.high_beam
            &&& r.0.headlights == Beam::Low <==> !g.high_beam && b
        }),
{
    let r = after_signal(t, g, Signal::LowBeam, ValueView::Bool(b));
    same_fields(r.0, TelemetryView { headlights: r.0.headlights, ..t });
    same_raw(r.1, SignalsView { low_beam: b, ..g });
}

/// The headlights are on high beam while that is on, and else on low beam while
/// that is. The flag is noted, and nothing else changes.
pub proof fn what_the_high_beam_does(t: TelemetryView, g: SignalsView, b: bool)
    ensures
        ({
            let r = after_signal(t, g, Signal::HighBeam, ValueView::Bool(b));
            &&& r.0 == (TelemetryView { headlights: r.0.headlights, ..t })
            &&& r.1 == (SignalsView { high_beam: b, ..g })
            &&& r.0.headlights == Beam::High <==> b
            &&& r.0.headlights == Beam::Low <==> !b && g.low_beam
        }),
{
    let r = after_signal(t, g, Signal::HighBeam, ValueView::Bool(b));
    same_fields(r.0, TelemetryView { headlights: r.0.headlights, ..t });
    same_raw(r.1, SignalsView { high_beam: b, ..g });
}

/// The door lamp is lit while this door or any of the other three is open. The
/// flag is noted, and nothing else changes.
pub proof fn what_the_front_driver_door_does(t: TelemetryView, g: SignalsView, b: bool)
    ensures
        ({
            let r = after_signal(t, g, Signal::FrontDriverDoor, ValueView::Bool(b));
            &&& r.0 == (TelemetryView { door_open: r.0.door_open, ..t })
            &&& r.1 == (SignalsView { front_driver_open: b, ..g })
            &&& r.0.door_open <==> b || g.front_passenger_open || g.rear_driver_open
                || g.rear_passenger_open
        }),
{
    let r = after_signal(t, g, Signal::FrontDriverDoor, ValueView::Bool(b));
    same_fields(r.0, TelemetryView { door_open: r.0.door_open, ..t });
    same_raw(r.1, SignalsView { front_driver_open: b, ..g });
}

/// The door lamp is lit while this door or any of the other three is open. The
/// flag is noted, and nothing else changes.
pub proof fn what_the_front_passenger_door_does(t: TelemetryView, g: SignalsView, b: bool)
    ensures
        ({
            let r = after_signal(t, g, Signal::FrontPassengerDoor, ValueView::Bool(b));
            &&& r.0 == (TelemetryView { door_open: r.0.door_open, ..t })
            &&& r.1 == (SignalsView { front_passenger_open: b, ..g })
            &&& r.0.door_open <==> b || g.front_driver_open || g.rear_driver_open
                || g.rear_passenger_open
        }),
{
    let r = after_signal(t, g, Signal::FrontPassengerDoor, ValueView::Bool(b));
    same_fields(r.0, TelemetryView { door_open: r.0.door_open, ..t });
    same_raw(r.1, SignalsView { front_passenger_open: b, ..g });
}

/// The door lamp is lit while this door or any of the other three is open. The
/// flag is noted, and nothing else changes.
pub proof fn what_the_rear_driver_door_does(t: TelemetryView, g: SignalsView, b: bool)
    ensures
        ({
            let r = after_signal(t, g, Signal::RearDriverDoor, ValueView::Bool(b));
            &&& r.0 == (TelemetryView { door_open: r.0.door_open, ..t })
            &&& r.1 == (SignalsView { rear_driver_open: b, ..g })
            &&& r.0.door_open <==> b || g.front_driver_open || g.front_passenger_open
                || g.rear_passenger_open
        }),
{
    let r = after_signal(t, g, Signal::RearDriverDoor, ValueView::Bool(b));
    same_fields(r.0, TelemetryView { door_open: r.0.door_open, ..t });
    same_raw(r.1, SignalsView { rear_driver_open: b, ..g });
}

/// The door lamp is lit while this door or any of the other three is open. The
/// flag is noted, and nothing else changes.
pub proof fn what_the_rear_passenger_door_does(t: TelemetryView, g: SignalsView, b: bool)
    ensures
        ({
            let r = after_signal(t, g, Signal::RearPassengerDoor, ValueView::Bool(b));
            &&& r.0 == (TelemetryView { door_open: r.0.door_open, ..t })
            &&& r.1 == (SignalsView { rear_passenger_open: b, ..g })
            &&& r.0.door_open <==> b || g.front_driver_open || g.front_passenger_open
                || g.rear_driver_open
        }),
{
    let r = after_signal(t, g, Signal::RearPassengerDoor, ValueView::Bool(b));
    same_fields(r.0, TelemetryView { door_open: r.0.door_open, ..t });
    same_raw(r.1, SignalsView { rear_passenger_open: b, ..g });
}

/// The drivetrain is ready in the states `ON` and `START`, and the oil lamp is
/// amber for `LOW`, red for `CRITICALLY_LOW` and off for any other level; nothing
/// else changes.
pub proof fn what_texts_do(t: TelemetryView, g: SignalsView, x: Seq<char>)
    ensures
        after_signal(t, g, Signal::SystemState, ValueView::String(x)) == (
            TelemetryView { ready: x == "ON"@ || x == "START"@, ..t },
            g,
        ),
        ({
            let r = after_signal(t, g, Signal::OilLevel, ValueView::String(x));
            &&& r == (TelemetryView { oil: r.0.oil, ..t }, g)
            &&& r.0.oil == Warn::Red <==> x == "CRITICALLY_LOW"@
            &&& r.0.oil == Warn::Amber <==> x == "LOW"@
        }),
{
    reveal_strlit("LOW");
    reveal_strlit("CRITICALLY_LOW");
    assert("LOW"@.len() == 3 && "CRITICALLY_LOW"@.len() == 14);
}

// ----- many updates ------------------------------------------------------------------

/// Updates count one after another, and one without a value counts for nothing.
pub proof fn updates_count_in_order(
    t: TelemetryView,
    g: SignalsView,
    updates: Seq<(Seq<char>, Option<ValueView>)>,
    path: Seq<char>,
    v: ValueView,
)
    ensures
        folded(t, g, Seq::<(Seq<char>, Option<ValueView>)>::empty()) == (t, g),
        folded(t, g, updates.push((path, None))) == folded(t, g, updates),
        folded(t, g, updates.push((path, Some(v)))) == applied(
            folded(t, g, updates).0,
            folded(t, g, updates).1,
            path,
            v,
        ),
{
    assert(updates.push((path, None)).drop_last() == updates);
    assert(updates.push((path, Some(v))).drop_last() == updates);
}

/// What changed is sent in the order of the list, nothing twice.
pub proof fn changes_are_in_order(
    last: Seq<(Seq<char>, ValueView)>,
    now: Seq<(Seq<char>, ValueView)>,
    i: int,
    j: int,
)
    requires
        0 <= i < j < changes(last, now).len(),
    ensures
        0 <= changes(last, now)[i] < changes(last, now)[j] < now.len(),
    decreases now.len(),
{
    places_are_in_the_list(last, now.drop_last(), i);
    let before = changes(last, now.drop_last());
    if j < before.len() {
        changes_are_in_order(last, now.drop_last(), i, j);
    }
}

proof fn places_are_in_the_list(
    last: Seq<(Seq<char>, ValueView)>,
    now: Seq<(Seq<char>, ValueView)>,
    i: int,
)
    ensures
        0 <= i < changes(last, now).len() ==> 0 <= changes(last, now)[i] < now.len(),
    decreases now.len(),
{
    if now.len() > 0 {
        places_are_in_the_list(last, now.drop_last(), i);
    }
}

/// A reading holds the value that was put into it, whenever it was taken, and an
/// empty one holds none. One that was wrapped holds its value and no time.
pub proof fn a_reading_holds_its_value(d: Datapoint, v: TypedValue)
    ensures
        d.value == Some(Value { typed_value: Some(v) }) ==> value_in(d) == Some(v@),
        d.value == Some(Value { typed_value: None }) ==> value_in(d) is None,
        d.value is None ==> value_in(d) is None,
        is_bare(d, v@) ==> d.timestamp is None && d.value is Some && d.value->0.typed_value is Some
            && d.value->0.typed_value->0@ == v@,
{
}

/// The entries of a list of readings count under their own names, in their places.
pub proof fn readings_are_listed(entries: Seq<(String, Datapoint)>, i: int)
    ensures
        readings(entries).len() == entries.len(),
        0 <= i < entries.len() ==> readings(entries)[i] == (
            entries[i].0@,
            value_in(entries[i].1),
        ),
{
}

/// Signals are announced under their own paths, in their places.
pub proof fn signals_are_announced(v: Seq<(Signal, ValueView)>, i: int)
    ensures
        announced(v).len() == v.len(),
        0 <= i < v.len() ==> announced(v)[i] == (path_of(v[i].0), v[i].1),
{
}

/// As long as nothing else has been reported, a flag alone decides what is derived
/// from it, and a motor power is a part of 150 kW.
pub proof fn nothing_is_reported_at_first(t: TelemetryView, b: bool, v: ValueView, n: int)
    requires
        number_in(v) == Some(n),
    ensures
        ({
            let flag = ValueView::Bool(b);
            let g = unreported();
            &&& after_signal(t, g, Signal::FrontDriverDoor, flag).0.door_open == b
            &&& after_signal(t, g, Signal::RearPassengerDoor, flag).0.door_open == b
            &&& after_signal(t, g, Signal::CruiseEnabled, flag).0.cruise != Cruise::Active
            &&& after_signal(t, g, Signal::CruiseActive, flag).0.cruise != Cruise::Armed
            &&& after_signal(t, g, Signal::LaneWarning, flag).0.lane == Lane::Off
            &&& after_signal(t, g, Signal::LaneEnabled, flag).0.lane != Lane::Warn
            &&& after_signal(t, g, Signal::LowBeam, flag).0.headlights != Beam::High
            &&& after_signal(t, g, Signal::HighBeam, flag).0.headlights != Beam::Low
            &&& after_signal(t, g, Signal::MaxPower, v).0.power == 0
            &&& is_part(
                after_signal(t, g, Signal::MotorPower, v).0.power as int,
                n,
                150_000_000,
            )
        }),
{
    what_the_motor_power_does(t, unreported(), v, n);
    if n > 0 {
        rounding_is_exact_on_multiples(0, n);
    }
    rounding_is_exact_on_multiples(0, 150_000_000);
}

// ----- what is published -------------------------------------------------------------

/// What is published of the motion: speed and odometer as they are, time and
/// temperature in whole units, the state of the system, and a voltage at which the
/// 12 V lamp is what it is.
pub proof fn what_is_published_of_the_motion(t: TelemetryView)
    ensures
        ({
            let p = published(t);
            &&& p.len() == 27
            &&& p[0] == (Signal::Speed, ValueView::Float(t.speed_kmh))
            &&& p[1] == (Signal::TraveledDistance, ValueView::Float(t.odo_km))
            &&& p[2].0 == Signal::TripDuration && p[2].1 is Float
            &&& p[2].1->Float_0 == t.trip_seconds * 1_000_000
            &&& p[3].0 == Signal::AirTemperature && p[3].1 is Float
            &&& p[3].1->Float_0 == t.outside_temp_c * 1_000_000
            &&& t.ready ==> p[4] == (Signal::SystemState, ValueView::String("ON"@))
            &&& !t.ready ==> p[4] == (Signal::SystemState, ValueView::String("ACC"@))
            &&& p[5].0 == Signal::BatteryVoltage && p[5].1 is Float
            &&& t.battery_warn == Warn::Red ==> 10 * p[5].1->Float_0 == 105_000_000
            &&& t.battery_warn == Warn::Amber ==> 10 * p[5].1->Float_0 == 115_000_000
            &&& t.battery_warn == Warn::Off ==> 10 * p[5].1->Float_0 == 126_000_000
        }),
{
    published_in_four_groups(t, 0);
    published_in_four_groups(t, 1);
    published_in_four_groups(t, 2);
    published_in_four_groups(t, 3);
    published_in_four_groups(t, 4);
    published_in_four_groups(t, 5);
}

/// Whether `m` is the count of whole metres in `km` millionths of a km, as single
/// precision multiplies: none if that is negative, and no more than a `u32` holds.
pub open spec fn counts_metres(m: u32, km: int) -> bool {
    &&& km < 0 ==> m == 0
    &&& km >= 0 && product(km, 1_000) < SINGLE_UNIT * 4_294_967_296 ==> SINGLE_UNIT * m <= product(
        km,
        1_000,
    ) < SINGLE_UNIT * (m + 1)
    &&& km >= 0 && product(km, 1_000) >= SINGLE_UNIT * 4_294_967_296 ==> m == u32::MAX
}

/// Whether `kw` is the power `p` as a part of 150 kW, in kW to the nearest, as far
/// as an `i32` holds it.
pub open spec fn is_motor_power(kw: i32, p: int) -> bool {
    let size = if p < 0 {
        -p
    } else {
        p
    };
    let signed = if p < 0 {
        -kw as int
    } else {
        kw as int
    };
    &&& 300 * single(size) < SINGLE_UNIT * 0xffff_ffff ==> is_nearest(
        signed,
        150 * single(size),
        SINGLE_UNIT as int,
    ) && signed >= 0
    &&& 300 * single(size) >= SINGLE_UNIT * 0xffff_ffff ==> kw == if p < 0 {
        i32::MIN
    } else {
        i32::MAX
    }
}

/// What is published of the energy: the range in metres, the charge in percent,
/// and the fuel in percent to the nearest.
pub proof fn what_is_published_of_the_energy(t: TelemetryView)
    ensures
        ({
            let p = published(t);
            let fuel = rounded_product(t.fuel_level as int, 100);
            &&& p.len() == 27
            &&& p[6].0 == Signal::Range && p[6].1 is Uint32
            &&& counts_metres(p[6].1->Uint32_0, t.range_km as int)
            &&& p[7].0 == Signal::StateOfCharge && p[7].1 is Float
            &&& holds(p[7].1->Float_0, t.battery_level * 100)
            &&& p[8].0 == Signal::FuelLevel && p[8].1 is Uint32
            &&& 0 <= fuel <= u32::MAX ==> p[8].1->Uint32_0 == fuel
            &&& fuel < 0 ==> p[8].1->Uint32_0 == 0
            &&& fuel > u32::MAX ==> p[8].1->Uint32_0 == u32::MAX
        }),
{
    published_in_four_groups(t, 6);
    published_in_four_groups(t, 7);
    published_in_four_groups(t, 8);
    metres_are_counted(t.range_km);
}

proof fn metres_are_counted(km: Micro)
    ensures
        counts_metres(whole_metres(km), km as int),
{
    if km >= 0 {
        a_product_is_near(km as int, 1_000, 1_000);
    }
}

/// What is published of the power: the motor's in kW of 150, to the nearest.
pub proof fn what_is_published_of_the_power(t: TelemetryView)
    ensures
        ({
            let p = published(t);
            &&& p.len() == 27
            &&& p[9] == (Signal::MaxPower, ValueView::Uint32(150))
            &&& p[10].0 == Signal::MotorPower && p[10].1 is Int32
            &&& is_motor_power(p[10].1->Int32_0, t.power as int)
        }),
{
    published_in_four_groups(t, 9);
    published_in_four_groups(t, 10);
    power_is_in_kilowatts(t.power);
}

proof fn power_is_in_kilowatts(power: Micro)
    ensures
        is_motor_power(kilowatts(power), power as int),
{
    let size = if power < 0 {
        -power as int
    } else {
        power as int
    };
    single_is_not_negative(size);
    rounding_is_the_nearest(150 * single(size), SINGLE_UNIT as int);
    let kw = div_round(150 * single(size), SINGLE_UNIT as int);
    assert(kw >= 0);
    if 300 * single(size) < SINGLE_UNIT * 0xffff_ffff {
        assert(kw < 0x8000_0000);
    }
}

/// What is published of the drivetrain: the number of the gear, the level of the
/// oil in words, and the engine lamp.
pub proof fn what_is_published_of_the_drivetrain(t: TelemetryView)
    ensures
        ({
            let p = published(t);
            &&& p.len() == 27
            &&& p[11].0 == Signal::SelectedGear && p[11].1 is Int32
            &&& p[11].1->Int32_0 == 126 <==> t.gear == 'P'
            &&& p[11].1->Int32_0 == -1 <==> t.gear == 'R'
            &&& p[11].1->Int32_0 == 0 <==> t.gear == 'N'
            &&& p[11].1->Int32_0 == 127 <==> t.gear != 'P' && t.gear != 'R' && t.gear != 'N'
            &&& t.oil == Warn::Red ==> p[12] == (
                Signal::OilLevel,
                ValueView::String("CRITICALLY_LOW"@),
            )
            &&& t.oil == Warn::Amber ==> p[12] == (Signal::OilLevel, ValueView::String("LOW"@))
            &&& t.oil == Warn::Off ==> p[12] == (Signal::OilLevel, ValueView::String("NORMAL"@))
            &&& p[13] == (Signal::MilOn, ValueView::Bool(t.engine != Warn::Off))
        }),
{
    published_in_four_groups(t, 11);
    published_in_four_groups(t, 12);
    published_in_four_groups(t, 13);
}

/// What is published of driver assistance and body: a flag for each state and each
/// lamp, two for the headlights and for what has more than two states, and the set
/// speed as it is. Of the doors one stands for all.
pub proof fn what_is_published_as_flags(t: TelemetryView)
    ensures
        ({
            let p = published(t);
            &&& p.len() == 27
            &&& p[14] == (Signal::CruiseEnabled, ValueView::Bool(t.cruise != Cruise::Off))
            &&& p[15] == (Signal::CruiseActive, ValueView::Bool(t.cruise == Cruise::Active))
            &&& p[16] == (Signal::CruiseSpeed, ValueView::Float(t.cruise_speed_kmh))
            &&& p[17] == (Signal::LaneEnabled, ValueView::Bool(t.lane != Lane::Off))
            &&& p[18] == (
                Signal::LaneWarning,
                ValueView::Bool(t.lane != Lane::Off && t.lane != Lane::Tracking),
            )
            &&& p[19] == (Signal::AbsError, ValueView::Bool(t.abs != Warn::Off))
            &&& p[20] == (Signal::TurnLeft, ValueView::Bool(t.turn_left))
            &&& p[21] == (Signal::TurnRight, ValueView::Bool(t.turn_right))
            &&& p[22] == (Signal::LowBeam, ValueView::Bool(t.headlights == Beam::Low))
            &&& p[23] == (Signal::HighBeam, ValueView::Bool(t.headlights == Beam::High))
            &&& p[24] == (Signal::ParkingBrake, ValueView::Bool(t.parking_brake))
            &&& p[25] == (Signal::Belted, ValueView::Bool(!t.seatbelt))
            &&& p[26] == (Signal::FrontDriverDoor, ValueView::Bool(t.door_open))
        }),
{
    published_in_four_groups(t, 14);
    published_in_four_groups(t, 15);
    published_in_four_groups(t, 16);
    published_in_four_groups(t, 17);
    published_in_four_groups(t, 18);
    published_in_four_groups(t, 19);
    published_in_four_groups(t, 20);
    published_in_four_groups(t, 21);
    published_in_four_groups(t, 22);
    published_in_four_groups(t, 23);
    published_in_four_groups(t, 24);
    published_in_four_groups(t, 25);
    published_in_four_groups(t, 26);
}

} // verus!
