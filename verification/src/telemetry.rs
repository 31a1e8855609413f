//! The boundary between where the numbers come from and how the cluster shows
//! them. Everything upstream produces a `Telemetry` frame; `display` is the
//! only place that turns it into what the widgets show.
//!
//! Physical quantities are in millionths of the unit that the field names.

use vstd::prelude::*;

use crate::fixed::Micro;

verus! {

/// Headlight state.
#[derive(Clone, Copy, Debug, PartialEq, Eq, Structural)]
pub enum Beam {
    Off,
    Low,
    High,
}

/// A warning lamp with the usual two escalation colours.
#[derive(Clone, Copy, Debug, PartialEq, Eq, Structural)]
pub enum Warn {
    Off,
    Amber,
    Red,
}

/// Cruise-control lamp.
#[derive(Clone, Copy, Debug, PartialEq, Eq, Structural)]
pub enum Cruise {
    Off,
    /// Switched on, not holding a speed yet.
    Armed,
    Active,
}

/// Lane-keeping lamp.
#[derive(Clone, Copy, Debug, PartialEq, Eq, Structural)]
pub enum Lane {
    Off,
    Tracking,
    Warn,
    Depart,
}

/// One frame of vehicle signals, in physical / semantic units -- never display
/// strings. A bus reader or a replay file fills exactly this struct.
#[derive(Clone, Debug)]
pub struct Telemetry {
    /// Road speed, km/h.
    pub speed_kmh: Micro,
    /// Energy flow right now: -1 (full regen / charge) .. +1 (full power).
    pub power: Micro,
    /// Instantaneous drive efficiency, 0..100 %.
    pub efficiency_percent: Micro,
    /// Average efficiency, km/kWh.
    pub avg_efficiency_kwh: Micro,
    /// Remaining range, km.
    pub range_km: Micro,
    /// Traction battery charge, 0..1.
    pub battery_level: Micro,
    /// Fuel remaining, 0..1.
    pub fuel_level: Micro,
    /// Outside temperature, whole deg C.
    pub outside_temp_c: i32,
    /// Odometer, km.
    pub odo_km: Micro,
    /// Time elapsed on this trip, whole seconds.
    pub trip_seconds: u32,
    /// Distance to the next navigation turn, km.
    pub turn_distance_km: Micro,
    /// Name of the street at the next turn.
    pub turn_street: String,
    /// Cruise-control set speed, km/h.
    pub cruise_speed_kmh: Micro,
    /// Lane Tracing Assist active.
    pub lta_on: bool,
    /// Lane Change Assist active.
    pub lca_on: bool,
    /// Selected gear: 'P', 'R', 'N', 'D'.
    pub gear: char,
    /// Drivetrain ready to move.
    pub ready: bool,
    // --- Telltale lamps (top band). Off states leave the band clean. ---
    /// Left turn signal requested.
    pub turn_left: bool,
    /// Right turn signal requested.
    pub turn_right: bool,
    /// Headlights.
    pub headlights: Beam,
    /// Engine / MIL.
    pub engine: Warn,
    /// Oil pressure.
    pub oil: Warn,
    /// 12 V / charging system.
    pub battery_warn: Warn,
    /// Anti-lock brakes.
    pub abs: Warn,
    /// Parking brake engaged (red).
    pub parking_brake: bool,
    /// Seatbelt unfastened (red).
    pub seatbelt: bool,
    /// A door is open (red).
    pub door_open: bool,
    /// Cruise control.
    pub cruise: Cruise,
    /// Lane keeping.
    pub lane: Lane,
}

/// What a `Telemetry` says: the same fields, the street name as characters.
#[verifier::ext_equal]
pub struct TelemetryView {
    pub speed_kmh: Micro,
    pub power: Micro,
    pub efficiency_percent: Micro,
    pub avg_efficiency_kwh: Micro,
    pub range_km: Micro,
    pub battery_level: Micro,
    pub fuel_level: Micro,
    pub outside_temp_c: i32,
    pub odo_km: Micro,
    pub trip_seconds: u32,
    pub turn_distance_km: Micro,
    pub turn_street: Seq<char>,
    pub cruise_speed_kmh: Micro,
    pub lta_on: bool,
    pub lca_on: bool,
    pub gear: char,
    pub ready: bool,
    pub turn_left: bool,
    pub turn_right: bool,
    pub headlights: Beam,
    pub engine: Warn,
    pub oil: Warn,
    pub battery_warn: Warn,
    pub abs: Warn,
    pub parking_brake: bool,
    pub seatbelt: bool,
    pub door_open: bool,
    pub cruise: Cruise,
    pub lane: Lane,
}

impl View for Telemetry {
    type V = TelemetryView;

    open spec fn view(&self) -> TelemetryView {
        TelemetryView {
            speed_kmh: self.speed_kmh,
            power: self.power,
            efficiency_percent: self.efficiency_percent,
            avg_efficiency_kwh: self.avg_efficiency_kwh,
            range_km: self.range_km,
            battery_level: self.battery_level,
            fuel_level: self.fuel_level,
            outside_temp_c: self.outside_temp_c,
            odo_km: self.odo_km,
            trip_seconds: self.trip_seconds,
            turn_distance_km: self.turn_distance_km,
            turn_street: self.turn_street@,
            cruise_speed_kmh: self.cruise_speed_kmh,
            lta_on: self.lta_on,
            lca_on: self.lca_on,
            gear: self.gear,
            ready: self.ready,
            turn_left: self.turn_left,
            turn_right: self.turn_right,
            headlights: self.headlights,
            engine: self.engine,
            oil: self.oil,
            battery_warn: self.battery_warn,
            abs: self.abs,
            parking_brake: self.parking_brake,
            seatbelt: self.seatbelt,
            door_open: self.door_open,
            cruise: self.cruise,
            lane: self.lane,
        }
    }
}

/// Two frames of signals are the same if their fields are.
pub proof fn same_fields(l: TelemetryView, r: TelemetryView)
    requires
        l.speed_kmh == r.speed_kmh,
        l.power == r.power,
        l.efficiency_percent == r.efficiency_percent,
        l.avg_efficiency_kwh == r.avg_efficiency_kwh,
        l.range_km == r.range_km,
        l.battery_level == r.battery_level,
        l.fuel_level == r.fuel_level,
        l.outside_temp_c == r.outside_temp_c,
        l.odo_km == r.odo_km,
        l.trip_seconds == r.trip_seconds,
        l.turn_distance_km == r.turn_distance_km,
        l.turn_street == r.turn_street,
        l.cruise_speed_kmh == r.cruise_speed_kmh,
        l.lta_on == r.lta_on,
        l.lca_on == r.lca_on,
        l.gear == r.gear,
        l.ready == r.ready,
        l.turn_left == r.turn_left,
        l.turn_right == r.turn_right,
        l.headlights == r.headlights,
        l.engine == r.engine,
        l.oil == r.oil,
        l.battery_warn == r.battery_warn,
        l.abs == r.abs,
        l.parking_brake == r.parking_brake,
        l.seatbelt == r.seatbelt,
        l.door_open == r.door_open,
        l.cruise == r.cruise,
        l.lane == r.lane,
    ensures
        l == r,
{
}

/// A quiet, stationary vehicle.
pub open spec fn quiet() -> TelemetryView {
    TelemetryView {
        speed_kmh: 0,
        power: 0,
        efficiency_percent: 85_000_000,
        avg_efficiency_kwh: 4_800_000,
        range_km: 560_000_000,
        battery_level: 850_000,
        fuel_level: 550_000,
        outside_temp_c: 21,
        odo_km: 12_345_000_000,
        trip_seconds: 0,
        turn_distance_km: 2_400_000,
        turn_street: "Minatomirai Blvd"@,
        cruise_speed_kmh: 80_000_000,
        lta_on: true,
        lca_on: true,
        gear: 'D',
        ready: true,
        turn_left: false,
        turn_right: false,
        headlights: Beam::Off,
        engine: Warn::Off,
        oil: Warn::Off,
        battery_warn: Warn::Off,
        abs: Warn::Off,
        parking_brake: false,
        seatbelt: false,
        door_open: false,
        cruise: Cruise::Off,
        lane: Lane::Off,
    }
}

/// Before the first frame the cluster shows a vehicle that stands still and is
/// ready to go: in drive, nothing flowing, no lamp lit and no turn indicated, with
/// 560 km to go.
pub proof fn a_vehicle_is_quiet_at_first()
    ensures
        ({
            let t = quiet();
            &&& t.speed_kmh == 0 && t.power == 0 && t.trip_seconds == 0
            &&& t.efficiency_percent == 85_000_000
            &&& 10 * t.avg_efficiency_kwh == 48_000_000
            &&& t.range_km == 560_000_000
            &&& 100 * t.battery_level == 85_000_000 && 100 * t.fuel_level == 55_000_000
            &&& t.outside_temp_c == 21
            &&& t.odo_km == 12_345_000_000
            &&& 10 * t.turn_distance_km == 24_000_000
            &&& t.turn_street == "Minatomirai Blvd"@
            &&& t.cruise_speed_kmh == 80_000_000
            &&& t.lta_on && t.lca_on && t.ready
            &&& t.gear == 'D'
            &&& !t.turn_left && !t.turn_right
            &&& t.headlights == Beam::Off && t.cruise == Cruise::Off && t.lane == Lane::Off
            &&& t.engine == Warn::Off && t.oil == Warn::Off
            &&& t.battery_warn == Warn::Off && t.abs == Warn::Off
            &&& !t.parking_brake && !t.seatbelt && !t.door_open
        }),
{
}

impl Default for Telemetry {
    /// A quiet, stationary vehicle -- the values the UI falls back to before the
    /// first real frame arrives.
    fn default() -> (t: Self)
        ensures
            t@ == quiet(),
    {
        Telemetry {
            speed_kmh: 0,
            power: 0,
            efficiency_percent: 85_000_000,
            avg_efficiency_kwh: 4_800_000,
            range_km: 560_000_000,
            battery_level: 850_000,
            fuel_level: 550_000,
            outside_temp_c: 21,
            odo_km: 12_345_000_000,
            trip_seconds: 0,
            turn_distance_km: 2_400_000,
            turn_street: "Minatomirai Blvd".to_owned(),
            cruise_speed_kmh: 80_000_000,
            lta_on: true,
            lca_on: true,
            gear: 'D',
            ready: true,
            turn_left: false,
            turn_right: false,
            headlights: Beam::Off,
            engine: Warn::Off,
            oil: Warn::Off,
            battery_warn: Warn::Off,
            abs: Warn::Off,
            parking_brake: false,
            seatbelt: false,
            door_open: false,
            cruise: Cruise::Off,
            lane: Lane::Off,
        }
    }
}

/// A source of cluster signals.
///
/// `poll` is called on the UI thread from the render timer, so it **must not
/// block**: no synchronous socket reads, no I/O waits. A real bus-backed
/// source should run its own background thread and have `poll` return the
/// latest frame it has received, ignoring `dt`.
pub trait TelemetrySource {
    /// Advance by `dt` (seconds of wall time since the last call) and return
    /// the signals to show now.
    fn poll(&mut self, dt: Micro) -> (t: Telemetry);
}

} // verus!
