//! The cluster as a client of the Eclipse Kuksa databroker: the mapping between
//! a fixed set of VSS (Vehicle Signal Specification) paths and `Telemetry`, in
//! both directions.
//!
//! The paths exist unchanged in VSS 4.0, 5.0 and 5.1. A few `Telemetry` fields
//! have no VSS counterpart (instantaneous and average efficiency, the next-turn
//! street and distance, Lane Change Assist); those keep their default.

use vstd::prelude::*;

use crate::fixed::{
    as_micro, clamped, div_nearest, div_round, multiply, product, quant, rounded_product, saturate,
    single, to_single, whole, whole_units, Micro, SINGLE_UNIT,
};
use crate::telemetry::{Beam, Cruise, Lane, Telemetry, TelemetryView, Warn};
use crate::text::same;

verus! {

// ----- the paths -------------------------------------------------------------------

/// Every VSS path the cluster subscribes to, in one place.
pub const PATHS: [&'static str; 30] = [
    "Vehicle.Speed",
    "Vehicle.TraveledDistance",
    "Vehicle.TripDuration",
    "Vehicle.Exterior.AirTemperature",
    "Vehicle.LowVoltageSystemState",
    "Vehicle.LowVoltageBattery.CurrentVoltage",
    "Vehicle.Powertrain.Range",
    "Vehicle.Powertrain.TractionBattery.StateOfCharge.Current",
    "Vehicle.Powertrain.FuelSystem.RelativeLevel",
    "Vehicle.Powertrain.ElectricMotor.Power",
    "Vehicle.Powertrain.ElectricMotor.MaxPower",
    "Vehicle.Powertrain.Transmission.SelectedGear",
    "Vehicle.Powertrain.CombustionEngine.EngineOilLevel",
    "Vehicle.OBD.Status.IsMILOn",
    "Vehicle.ADAS.CruiseControl.IsEnabled",
    "Vehicle.ADAS.CruiseControl.IsActive",
    "Vehicle.ADAS.CruiseControl.SpeedSet",
    "Vehicle.ADAS.LaneDepartureDetection.IsEnabled",
    "Vehicle.ADAS.LaneDepartureDetection.IsWarning",
    "Vehicle.ADAS.ABS.IsError",
    "Vehicle.Body.Lights.DirectionIndicator.Left.IsSignaling",
    "Vehicle.Body.Lights.DirectionIndicator.Right.IsSignaling",
    "Vehicle.Body.Lights.Beam.Low.IsOn",
    "Vehicle.Body.Lights.Beam.High.IsOn",
    "Vehicle.Chassis.ParkingBrake.IsEngaged",
    "Vehicle.Cabin.Seat.Row1.DriverSide.IsBelted",
    "Vehicle.Cabin.Door.Row1.DriverSide.IsOpen",
    "Vehicle.Cabin.Door.Row1.PassengerSide.IsOpen",
    "Vehicle.Cabin.Door.Row2.DriverSide.IsOpen",
    "Vehicle.Cabin.Door.Row2.PassengerSide.IsOpen",
];

/// The signals behind `PATHS`, in the same order.
#[derive(Clone, Copy, Debug, PartialEq, Eq, Structural)]
pub enum Signal {
    Speed,
    TraveledDistance,
    TripDuration,
    AirTemperature,
    SystemState,
    BatteryVoltage,
    Range,
    StateOfCharge,
    FuelLevel,
    MotorPower,
    MaxPower,
    SelectedGear,
    OilLevel,
    MilOn,
    CruiseEnabled,
    CruiseActive,
    CruiseSpeed,
    LaneEnabled,
    LaneWarning,
    AbsError,
    TurnLeft,
    TurnRight,
    LowBeam,
    HighBeam,
    ParkingBrake,
    Belted,
    FrontDriverDoor,
    FrontPassengerDoor,
    RearDriverDoor,
    RearPassengerDoor,
}

/// Where a signal's path stands in `PATHS`.
pub open spec fn place(s: Signal) -> int {
    match s {
        Signal::Speed => 0,
        Signal::TraveledDistance => 1,
        Signal::TripDuration => 2,
        Signal::AirTemperature => 3,
        Signal::SystemState => 4,
        Signal::BatteryVoltage => 5,
        Signal::Range => 6,
        Signal::StateOfCharge => 7,
        Signal::FuelLevel => 8,
        Signal::MotorPower => 9,
        Signal::MaxPower => 10,
        Signal::SelectedGear => 11,
        Signal::OilLevel => 12,
        Signal::MilOn => 13,
        Signal::CruiseEnabled => 14,
        Signal::CruiseActive => 15,
        Signal::CruiseSpeed => 16,
        Signal::LaneEnabled => 17,
        Signal::LaneWarning => 18,
        Signal::AbsError => 19,
        Signal::TurnLeft => 20,
        Signal::TurnRight => 21,
        Signal::LowBeam => 22,
        Signal::HighBeam => 23,
        Signal::ParkingBrake => 24,
        Signal::Belted => 25,
        Signal::FrontDriverDoor => 26,
        Signal::FrontPassengerDoor => 27,
        Signal::RearDriverDoor => 28,
        Signal::RearPassengerDoor => 29,
    }
}

/// The path of a signal.
pub open spec fn path_of(s: Signal) -> Seq<char> {
    PATHS[place(s)]@
}

/// The signal whose path stands at `i` in `PATHS`.
pub open spec fn signal_at(i: int) -> Signal {
    if i == 0 {
        Signal::Speed
    } else if i == 1 {
        Signal::TraveledDistance
    } else if i == 2 {
        Signal::TripDuration
    } else if i == 3 {
        Signal::AirTemperature
    } else if i == 4 {
        Signal::SystemState
    } else if i == 5 {
        Signal::BatteryVoltage
    } else if i == 6 {
        Signal::Range
    } else if i == 7 {
        Signal::StateOfCharge
    } else if i == 8 {
        Signal::FuelLevel
    } else if i == 9 {
        Signal::MotorPower
    } else if i == 10 {
        Signal::MaxPower
    } else if i == 11 {
        Signal::SelectedGear
    } else if i == 12 {
        Signal::OilLevel
    } else if i == 13 {
        Signal::MilOn
    } else if i == 14 {
        Signal::CruiseEnabled
    } else if i == 15 {
        Signal::CruiseActive
    } else if i == 16 {
        Signal::CruiseSpeed
    } else if i == 17 {
        Signal::LaneEnabled
    } else if i == 18 {
        Signal::LaneWarning
    } else if i == 19 {
        Signal::AbsError
    } else if i == 20 {
        Signal::TurnLeft
    } else if i == 21 {
        Signal::TurnRight
    } else if i == 22 {
        Signal::LowBeam
    } else if i == 23 {
        Signal::HighBeam
    } else if i == 24 {
        Signal::ParkingBrake
    } else if i == 25 {
        Signal::Belted
    } else if i == 26 {
        Signal::FrontDriverDoor
    } else if i == 27 {
        Signal::FrontPassengerDoor
    } else if i == 28 {
        Signal::RearDriverDoor
    } else {
        Signal::RearPassengerDoor
    }
}

/// The signal that has the path `path`.
pub open spec fn named(path: Seq<char>) -> Option<Signal> {
    if exists|s: Signal| path_of(s) == path {
        Some(choose|s: Signal| path_of(s) == path)
    } else {
        None
    }
}

/// The length of a path and a character that no other path of that length has
/// in the same place.
spec fn telling(path: Seq<char>) -> (int, char) {
    let n = path.len() as int;
    let at: int = if n == 35 {
        27
    } else if n == 41 || n == 44 {
        22
    } else if n == 45 {
        38
    } else {
        8
    };
    (n, path[at])
}

/// What tells the path of `s` from the others.
spec fn told(s: Signal) -> (int, char) {
    match s {
        Signal::Speed => (13, 'S'),
        Signal::TraveledDistance => (24, 'T'),
        Signal::TripDuration => (20, 'T'),
        Signal::AirTemperature => (31, 'E'),
        Signal::SystemState => (29, 'L'),
        Signal::BatteryVoltage => (40, 'L'),
        Signal::Range => (24, 'P'),
        Signal::StateOfCharge => (56, 'P'),
        Signal::FuelLevel => (43, 'P'),
        Signal::MotorPower => (38, 'P'),
        Signal::MaxPower => (41, 'c'),
        Signal::SelectedGear => (44, 'n'),
        Signal::OilLevel => (50, 'P'),
        Signal::MilOn => (26, 'O'),
        Signal::CruiseEnabled => (36, 'A'),
        Signal::CruiseActive => (35, 'I'),
        Signal::CruiseSpeed => (35, 'S'),
        Signal::LaneEnabled => (45, 'E'),
        Signal::LaneWarning => (45, 'W'),
        Signal::AbsError => (24, 'A'),
        Signal::TurnLeft => (55, 'B'),
        Signal::TurnRight => (56, 'B'),
        Signal::LowBeam => (33, 'B'),
        Signal::HighBeam => (34, 'B'),
        Signal::ParkingBrake => (38, 'C'),
        Signal::Belted => (43, 'C'),
        Signal::FrontDriverDoor => (41, '1'),
        Signal::FrontPassengerDoor => (44, '1'),
        Signal::RearDriverDoor => (41, '2'),
        Signal::RearPassengerDoor => (44, '2'),
    }
}

proof fn paths_tell(s: Signal)
    ensures
        telling(path_of(s)) == told(s),
{
    match s {
        Signal::Speed => reveal_strlit("Vehicle.Speed"),
        Signal::TraveledDistance => reveal_strlit("Vehicle.TraveledDistance"),
        Signal::TripDuration => reveal_strlit("Vehicle.TripDuration"),
        Signal::AirTemperature => reveal_strlit("Vehicle.Exterior.AirTemperature"),
        Signal::SystemState => reveal_strlit("Vehicle.LowVoltageSystemState"),
        Signal::BatteryVoltage => reveal_strlit("Vehicle.LowVoltageBattery.CurrentVoltage"),
        Signal::Range => reveal_strlit("Vehicle.Powertrain.Range"),
        Signal::StateOfCharge => reveal_strlit(
            "Vehicle.Powertrain.TractionBattery.StateOfCharge.Current",
        ),
        Signal::FuelLevel => reveal_strlit("Vehicle.Powertrain.FuelSystem.RelativeLevel"),
        Signal::MotorPower => reveal_strlit("Vehicle.Powertrain.ElectricMotor.Power"),
        Signal::MaxPower => reveal_strlit("Vehicle.Powertrain.ElectricMotor.MaxPower"),
        Signal::SelectedGear => reveal_strlit("Vehicle.Powertrain.Transmission.SelectedGear"),
        Signal::OilLevel => reveal_strlit("Vehicle.Powertrain.CombustionEngine.EngineOilLevel"),
        Signal::MilOn => reveal_strlit("Vehicle.OBD.Status.IsMILOn"),
        Signal::CruiseEnabled => reveal_strlit("Vehicle.ADAS.CruiseControl.IsEnabled"),
        Signal::CruiseActive => reveal_strlit("Vehicle.ADAS.CruiseControl.IsActive"),
        Signal::CruiseSpeed => reveal_strlit("Vehicle.ADAS.CruiseControl.SpeedSet"),
        Signal::LaneEnabled => reveal_strlit("Vehicle.ADAS.LaneDepartureDetection.IsEnabled"),
        Signal::LaneWarning => reveal_strlit("Vehicle.ADAS.LaneDepartureDetection.IsWarning"),
        Signal::AbsError => reveal_strlit("Vehicle.ADAS.ABS.IsError"),
        Signal::TurnLeft => reveal_strlit(
            "Vehicle.Body.Lights.DirectionIndicator.Left.IsSignaling",
        ),
        Signal::TurnRight => reveal_strlit(
            "Vehicle.Body.Lights.DirectionIndicator.Right.IsSignaling",
        ),
        Signal::LowBeam => reveal_strlit("Vehicle.Body.Lights.Beam.Low.IsOn"),
        Signal::HighBeam => reveal_strlit("Vehicle.Body.Lights.Beam.High.IsOn"),
        Signal::ParkingBrake => reveal_strlit("Vehicle.Chassis.ParkingBrake.IsEngaged"),
        Signal::Belted => reveal_strlit("Vehicle.Cabin.Seat.Row1.DriverSide.IsBelted"),
        Signal::FrontDriverDoor => reveal_strlit("Vehicle.Cabin.Door.Row1.DriverSide.IsOpen"),
        Signal::FrontPassengerDoor => reveal_strlit("Vehicle.Cabin.Door.Row1.PassengerSide.IsOpen"),
        Signal::RearDriverDoor => reveal_strlit("Vehicle.Cabin.Door.Row2.DriverSide.IsOpen"),
        Signal::RearPassengerDoor => reveal_strlit("Vehicle.Cabin.Door.Row2.PassengerSide.IsOpen"),
    }
}

proof fn what_is_told_differs(a: Signal, b: Signal)
    requires
        told(a) == told(b),
    ensures
        a == b,
{
}

/// No two signals have the same path.
pub proof fn paths_are_distinct(a: Signal, b: Signal)
    requires
        path_of(a) == path_of(b),
    ensures
        a == b,
{
    paths_tell(a);
    paths_tell(b);
    what_is_told_differs(a, b);
}

/// The path of a signal names that signal.
pub proof fn a_path_names_its_signal(s: Signal)
    ensures
        named(path_of(s)) == Some(s),
{
    assert(path_of(s) == path_of(s));
    let found = choose|x: Signal| path_of(x) == path_of(s);
    paths_are_distinct(found, s);
}

proof fn places_read_back(i: int)
    requires
        0 <= i < 30,
    ensures
        place(signal_at(i)) == i,
{
}

/// The path of a signal.
pub fn path(s: Signal) -> (p: &'static str)
    ensures
        p@ == path_of(s),
{
    let i: usize = match s {
        Signal::Speed => 0,
        Signal::TraveledDistance => 1,
        Signal::TripDuration => 2,
        Signal::AirTemperature => 3,
        Signal::SystemState => 4,
        Signal::BatteryVoltage => 5,
        Signal::Range => 6,
        Signal::StateOfCharge => 7,
        Signal::FuelLevel => 8,
        Signal::MotorPower => 9,
        Signal::MaxPower => 10,
        Signal::SelectedGear => 11,
        Signal::OilLevel => 12,
        Signal::MilOn => 13,
        Signal::CruiseEnabled => 14,
        Signal::CruiseActive => 15,
        Signal::CruiseSpeed => 16,
        Signal::LaneEnabled => 17,
        Signal::LaneWarning => 18,
        Signal::AbsError => 19,
        Signal::TurnLeft => 20,
        Signal::TurnRight => 21,
        Signal::LowBeam => 22,
        Signal::HighBeam => 23,
        Signal::ParkingBrake => 24,
        Signal::Belted => 25,
        Signal::FrontDriverDoor => 26,
        Signal::FrontPassengerDoor => 27,
        Signal::RearDriverDoor => 28,
        Signal::RearPassengerDoor => 29,
    };
    PATHS[i]
}

/// The signal whose path stands at `i` in `PATHS`.
fn nth(i: usize) -> (s: Signal)
    ensures
        s == signal_at(i as int),
{
    match i {
        0 => Signal::Speed,
        1 => Signal::TraveledDistance,
        2 => Signal::TripDuration,
        3 => Signal::AirTemperature,
        4 => Signal::SystemState,
        5 => Signal::BatteryVoltage,
        6 => Signal::Range,
        7 => Signal::StateOfCharge,
        8 => Signal::FuelLevel,
        9 => Signal::MotorPower,
        10 => Signal::MaxPower,
        11 => Signal::SelectedGear,
        12 => Signal::OilLevel,
        13 => Signal::MilOn,
        14 => Signal::CruiseEnabled,
        15 => Signal::CruiseActive,
        16 => Signal::CruiseSpeed,
        17 => Signal::LaneEnabled,
        18 => Signal::LaneWarning,
        19 => Signal::AbsError,
        20 => Signal::TurnLeft,
        21 => Signal::TurnRight,
        22 => Signal::LowBeam,
        23 => Signal::HighBeam,
        24 => Signal::ParkingBrake,
        25 => Signal::Belted,
        26 => Signal::FrontDriverDoor,
        27 => Signal::FrontPassengerDoor,
        28 => Signal::RearDriverDoor,
        _ => Signal::RearPassengerDoor,
    }
}

/// The signal that has the path `path`.
fn signal(path: &str) -> (s: Option<Signal>)
    ensures
        s == named(path@),
{
    let mut i: usize = 0;
    while i < 30
        invariant
            i <= 30,
            forall|j: int| 0 <= j < i ==> #[trigger] PATHS[j]@ != path@,
        decreases 30 - i,
    {
        if same(path, PATHS[i]) {
            let s: Signal = nth(i);
            proof {
                places_read_back(i as int);
                a_path_names_its_signal(s);
            }
            return Some(s);
        }
        i = i + 1;
    }
    proof {
        assert forall|s: Signal| path_of(s) != path@ by {
            assert(PATHS[place(s)]@ != path@);
        }
    }
    None
}

// ----- values ----------------------------------------------------------------------

/// The value of a VSS signal, as a databroker types it. Floating-point values
/// are in millionths; nothing the cluster reads is an array.
#[derive(Clone, Debug, PartialEq, Eq)]
pub enum TypedValue {
    String(String),
    Bool(bool),
    Int32(i32),
    Int64(i64),
    Uint32(u32),
    Uint64(u64),
    Float(Micro),
    Double(Micro),
    Array,
}

/// What a `TypedValue` says.
#[verifier::ext_equal]
pub enum ValueView {
    String(Seq<char>),
    Bool(bool),
    Int32(i32),
    Int64(i64),
    Uint32(u32),
    Uint64(u64),
    Float(Micro),
    Double(Micro),
    Array,
}

impl View for TypedValue {
    type V = ValueView;

    open spec fn view(&self) -> ValueView {
        match self {
            TypedValue::String(s) => ValueView::String(s@),
            TypedValue::Bool(b) => ValueView::Bool(*b),
            TypedValue::Int32(n) => ValueView::Int32(*n),
            TypedValue::Int64(n) => ValueView::Int64(*n),
            TypedValue::Uint32(n) => ValueView::Uint32(*n),
            TypedValue::Uint64(n) => ValueView::Uint64(*n),
            TypedValue::Float(x) => ValueView::Float(*x),
            TypedValue::Double(x) => ValueView::Double(*x),
            TypedValue::Array => ValueView::Array,
        }
    }
}

/// A number in any encoding, in millionths.
pub open spec fn number_in(v: ValueView) -> Option<int> {
    match v {
        ValueView::Float(x) => Some(x as int),
        ValueView::Double(x) => Some(x as int),
        ValueView::Int32(n) => Some(1_000_000 * n),
        ValueView::Int64(n) => Some(1_000_000 * n),
        ValueView::Uint32(n) => Some(1_000_000 * n),
        ValueView::Uint64(n) => Some(1_000_000 * n),
        _ => None,
    }
}

/// No number is larger than this, in millionths.
pub const LARGEST: i128 = 18_446_744_073_709_551_615_000_000;

fn as_number(v: &TypedValue) -> (n: Option<i128>)
    ensures
        n is Some == number_in(v@) is Some,
        n is Some ==> n->0 == number_in(v@)->0 && -LARGEST <= n->0 <= LARGEST,
{
    match v {
        TypedValue::Float(x) => Some(*x as i128),
        TypedValue::Double(x) => Some(*x as i128),
        TypedValue::Int32(n) => Some(1_000_000 * (*n as i128)),
        TypedValue::Int64(n) => Some(1_000_000 * (*n as i128)),
        TypedValue::Uint32(n) => Some(1_000_000 * (*n as i128)),
        TypedValue::Uint64(n) => Some(1_000_000 * (*n as i128)),
        _ => None,
    }
}

fn as_bool(v: &TypedValue) -> (b: Option<bool>)
    ensures
        b == (match v@ {
            ValueView::Bool(x) => Some(x),
            _ => None,
        }),
{
    match v {
        TypedValue::Bool(b) => Some(*b),
        _ => None,
    }
}

fn as_str(v: &TypedValue) -> (s: Option<&str>)
    ensures
        s is Some == v@ is String,
        s is Some ==> s->0@ == v@->String_0,
{
    match v {
        TypedValue::String(s) => Some(s.as_str()),
        _ => None,
    }
}

// ----- the raw signals ---------------------------------------------------------------

/// Motor power is normalised against `MaxPower`; this is used until the
/// vehicle has reported one. In millionths of a kW.
pub const DEFAULT_MAX_POWER: i128 = 150_000_000;

/// The raw signals that several `Telemetry` fields are derived from, kept so
/// an update to one of them can recompute the field.
pub struct Signals {
    motor_power: i128,
    max_power: Option<i128>,
    cruise_enabled: bool,
    cruise_active: bool,
    lane_enabled: bool,
    lane_warning: bool,
    low_beam: bool,
    high_beam: bool,
    front_driver_open: bool,
    front_passenger_open: bool,
    rear_driver_open: bool,
    rear_passenger_open: bool,
}

/// What `Signals` hold; the power is in millionths of a kW.
#[verifier::ext_equal]
pub struct SignalsView {
    pub motor_power: int,
    pub max_power: Option<int>,
    pub cruise_enabled: bool,
    pub cruise_active: bool,
    pub lane_enabled: bool,
    pub lane_warning: bool,
    pub low_beam: bool,
    pub high_beam: bool,
    pub front_driver_open: bool,
    pub front_passenger_open: bool,
    pub rear_driver_open: bool,
    pub rear_passenger_open: bool,
}

impl View for Signals {
    type V = SignalsView;

    closed spec fn view(&self) -> SignalsView {
        SignalsView {
            motor_power: self.motor_power as int,
            max_power: match self.max_power {
                Some(max) => Some(max as int),
                None => None,
            },
            cruise_enabled: self.cruise_enabled,
            cruise_active: self.cruise_active,
            lane_enabled: self.lane_enabled,
            lane_warning: self.lane_warning,
            low_beam: self.low_beam,
            high_beam: self.high_beam,
            front_driver_open: self.front_driver_open,
            front_passenger_open: self.front_passenger_open,
            rear_driver_open: self.rear_driver_open,
            rear_passenger_open: self.rear_passenger_open,
        }
    }
}

/// Nothing reported yet.
pub open spec fn unreported() -> SignalsView {
    SignalsView {
        motor_power: 0,
        max_power: None,
        cruise_enabled: false,
        cruise_active: false,
        lane_enabled: false,
        lane_warning: false,
        low_beam: false,
        high_beam: false,
        front_driver_open: false,
        front_passenger_open: false,
        rear_driver_open: false,
        rear_passenger_open: false,
    }
}

impl Signals {
    /// A largest power is positive, and no power is out of range.
    #[verifier::type_invariant]
    spec fn in_range(self) -> bool {
        &&& -LARGEST <= self.motor_power <= LARGEST
        &&& self.max_power matches Some(max) ==> 0 < max <= LARGEST
    }
}

impl Default for Signals {
    fn default() -> (g: Self)
        ensures
            g@ == unreported(),
    {
        let g: Signals = Signals {
            motor_power: 0,
            max_power: None,
            cruise_enabled: false,
            cruise_active: false,
            lane_enabled: false,
            lane_warning: false,
            low_beam: false,
            high_beam: false,
            front_driver_open: false,
            front_passenger_open: false,
            rear_driver_open: false,
            rear_passenger_open: false,
        };
        assert(g@ == unreported());
        g
    }
}

/// Motor power over the largest, -1..1 in millionths.
pub open spec fn power_of(g: SignalsView) -> Micro {
    let max = match g.max_power {
        Some(max) => max,
        None => DEFAULT_MAX_POWER as int,
    };
    clamped(div_round(1_000_000 * g.motor_power, max), -1_000_000, 1_000_000) as i64
}

pub open spec fn cruise_of(g: SignalsView) -> Cruise {
    if g.cruise_active {
        Cruise::Active
    } else if g.cruise_enabled {
        Cruise::Armed
    } else {
        Cruise::Off
    }
}

pub open spec fn lane_of(g: SignalsView) -> Lane {
    if !g.lane_enabled {
        Lane::Off
    } else if g.lane_warning {
        Lane::Warn
    } else {
        Lane::Tracking
    }
}

pub open spec fn beam_of(g: SignalsView) -> Beam {
    if g.high_beam {
        Beam::High
    } else if g.low_beam {
        Beam::Low
    } else {
        Beam::Off
    }
}

/// Whether any door is open.
pub open spec fn any_open(g: SignalsView) -> bool {
    g.front_driver_open || g.front_passenger_open || g.rear_driver_open || g.rear_passenger_open
}

fn power(g: &Signals) -> (p: Micro)
    ensures
        p == power_of(g@),
{
    proof {
        use_type_invariant(g);
    }
    let max: i128 = match g.max_power {
        Some(max) => max,
        None => DEFAULT_MAX_POWER,
    };
    let p: i128 = div_nearest(1_000_000 * g.motor_power, max);
    if p < -1_000_000 {
        -1_000_000
    } else if p > 1_000_000 {
        1_000_000
    } else {
        p as i64
    }
}

fn cruise(g: &Signals) -> (c: Cruise)
    ensures
        c == cruise_of(g@),
{
    if g.cruise_active {
        Cruise::Active
    } else if g.cruise_enabled {
        Cruise::Armed
    } else {
        Cruise::Off
    }
}

fn lane(g: &Signals) -> (l: Lane)
    ensures
        l == lane_of(g@),
{
    if !g.lane_enabled {
        Lane::Off
    } else if g.lane_warning {
        Lane::Warn
    } else {
        Lane::Tracking
    }
}

fn beam(g: &Signals) -> (b: Beam)
    ensures
        b == beam_of(g@),
{
    if g.high_beam {
        Beam::High
    } else if g.low_beam {
        Beam::Low
    } else {
        Beam::Off
    }
}

// ----- reading -----------------------------------------------------------------------

/// What the value of a signal is.
pub enum Kind {
    Number,
    Flag,
    Text,
}

pub open spec fn kind_of(s: Signal) -> Kind {
    match s {
        Signal::Speed => Kind::Number,
        Signal::TraveledDistance => Kind::Number,
        Signal::TripDuration => Kind::Number,
        Signal::AirTemperature => Kind::Number,
        Signal::SystemState => Kind::Text,
        Signal::BatteryVoltage => Kind::Number,
        Signal::Range => Kind::Number,
        Signal::StateOfCharge => Kind::Number,
        Signal::FuelLevel => Kind::Number,
        Signal::MotorPower => Kind::Number,
        Signal::MaxPower => Kind::Number,
        Signal::SelectedGear => Kind::Number,
        Signal::OilLevel => Kind::Text,
        Signal::CruiseSpeed => Kind::Number,
        _ => Kind::Flag,
    }
}

/// The integer part of `n` millionths.
pub open spec fn integer_part(n: int) -> int {
    if n >= 0 {
        n / 1_000_000
    } else {
        -(-n / 1_000_000)
    }
}

/// The gear that the number `n` stands for: 126 park, 127 drive, 0 neutral,
/// negative reverse, any other a forward gear.
pub open spec fn gear_of(n: int) -> char {
    let g = integer_part(n);
    if g == 126 {
        'P'
    } else if g == 0 {
        'N'
    } else if g < 0 {
        'R'
    } else {
        'D'
    }
}

/// The 12 V lamp: below 11.0 V red, below 11.8 V amber.
pub open spec fn voltage_warning(n: int) -> Warn {
    if n < 11_000_000 {
        Warn::Red
    } else if n < 11_800_000 {
        Warn::Amber
    } else {
        Warn::Off
    }
}

/// A percentage as a fraction, 0..1 in millionths.
pub open spec fn fraction(n: int) -> Micro {
    clamped(div_round(n, 100), 0, 1_000_000) as i64
}

/// `n` millionths to the nearest integer.
pub open spec fn nearest_i32(n: int) -> i32 {
    clamped(div_round(n, 1_000_000), i32::MIN as int, i32::MAX as int) as i32
}

/// A largest power counts only if it is positive.
pub open spec fn positive(n: int) -> Option<int> {
    if n > 0 {
        Some(n)
    } else {
        None
    }
}

/// The raw signals after the number `n` (in millionths) came for `s`.
pub open spec fn number_noted(g: SignalsView, s: Signal, n: int) -> SignalsView {
    SignalsView {
        motor_power: if s is MotorPower {
            n
        } else {
            g.motor_power
        },
        max_power: if s is MaxPower {
            positive(n)
        } else {
            g.max_power
        },
        ..g
    }
}

/// `t` after the number `n` (in millionths) came for `s` and left the raw
/// signals at `g`.
pub open spec fn number_shown(
    t: TelemetryView,
    g: SignalsView,
    s: Signal,
    n: int,
) -> TelemetryView {
    TelemetryView {
        speed_kmh: if s is Speed {
            as_micro(n)
        } else {
            t.speed_kmh
        },
        power: if s is MotorPower || s is MaxPower {
            power_of(g)
        } else {
            t.power
        },
        // Metres to kilometres.
        range_km: if s is Range {
            as_micro(div_round(n, 1_000))
        } else {
            t.range_km
        },
        battery_level: if s is StateOfCharge {
            fraction(n)
        } else {
            t.battery_level
        },
        fuel_level: if s is FuelLevel {
            fraction(n)
        } else {
            t.fuel_level
        },
        outside_temp_c: if s is AirTemperature {
            nearest_i32(n)
        } else {
            t.outside_temp_c
        },
        odo_km: if s is TraveledDistance {
            as_micro(n)
        } else {
            t.odo_km
        },
        trip_seconds: if s is TripDuration {
            whole_units(n)
        } else {
            t.trip_seconds
        },
        cruise_speed_kmh: if s is CruiseSpeed {
            as_micro(n)
        } else {
            t.cruise_speed_kmh
        },
        gear: if s is SelectedGear {
            gear_of(n)
        } else {
            t.gear
        },
        battery_warn: if s is BatteryVoltage {
            voltage_warning(n)
        } else {
            t.battery_warn
        },
        ..t
    }
}

/// The lamp `colour` if `on`, else off.
pub open spec fn lamp_if(on: bool, colour: Warn) -> Warn {
    if on {
        colour
    } else {
        Warn::Off
    }
}

/// The raw signals after the flag `b` came for `s`.
pub open spec fn flag_noted(g: SignalsView, s: Signal, b: bool) -> SignalsView {
    SignalsView {
        cruise_enabled: if s is CruiseEnabled {
            b
        } else {
            g.cruise_enabled
        },
        cruise_active: if s is CruiseActive {
            b
        } else {
            g.cruise_active
        },
        lane_enabled: if s is LaneEnabled {
            b
        } else {
            g.lane_enabled
        },
        lane_warning: if s is LaneWarning {
            b
        } else {
            g.lane_warning
        },
        low_beam: if s is LowBeam {
            b
        } else {
            g.low_beam
        },
        high_beam: if s is HighBeam {
            b
        } else {
            g.high_beam
        },
        front_driver_open: if s is FrontDriverDoor {
            b
        } else {
            g.front_driver_open
        },
        front_passenger_open: if s is FrontPassengerDoor {
            b
        } else {
            g.front_passenger_open
        },
        rear_driver_open: if s is RearDriverDoor {
            b
        } else {
            g.rear_driver_open
        },
        rear_passenger_open: if s is RearPassengerDoor {
            b
        } else {
            g.rear_passenger_open
        },
        ..g
    }
}

/// `t` with the lamps that the flag `b` for `s` decides alone.
pub open spec fn lamp_shown(t: TelemetryView, s: Signal, b: bool) -> TelemetryView {
    TelemetryView {
        lta_on: if s is LaneEnabled {
            b
        } else {
            t.lta_on
        },
        turn_left: if s is TurnLeft {
            b
        } else {
            t.turn_left
        },
        turn_right: if s is TurnRight {
            b
        } else {
            t.turn_right
        },
        engine: if s is MilOn {
            lamp_if(b, Warn::Amber)
        } else {
            t.engine
        },
        abs: if s is AbsError {
            lamp_if(b, Warn::Red)
        } else {
            t.abs
        },
        parking_brake: if s is ParkingBrake {
            b
        } else {
            t.parking_brake
        },
        // The lamp shows an *unfastened* belt.
        seatbelt: if s is Belted {
            !b
        } else {
            t.seatbelt
        },
        ..t
    }
}

/// `t` with what `s` decides together with others, from the raw signals `g`.
pub open spec fn recomputed(t: TelemetryView, g: SignalsView, s: Signal) -> TelemetryView {
    TelemetryView {
        headlights: if s is LowBeam || s is HighBeam {
            beam_of(g)
        } else {
            t.headlights
        },
        door_open: if s is FrontDriverDoor || s is FrontPassengerDoor || s is RearDriverDoor
            || s is RearPassengerDoor {
            any_open(g)
        } else {
            t.door_open
        },
        cruise: if s is CruiseEnabled || s is CruiseActive {
            cruise_of(g)
        } else {
            t.cruise
        },
        lane: if s is LaneEnabled || s is LaneWarning {
            lane_of(g)
        } else {
            t.lane
        },
        ..t
    }
}

/// `t` after the flag `b` came for `s` and left the raw signals at `g`.
pub open spec fn flag_shown(t: TelemetryView, g: SignalsView, s: Signal, b: bool) -> TelemetryView {
    recomputed(lamp_shown(t, s, b), g, s)
}

/// The oil lamp for a level.
pub open spec fn oil_warning(level: Seq<char>) -> Warn {
    if level == "CRITICALLY_LOW"@ {
        Warn::Red
    } else if level == "LOW"@ {
        Warn::Amber
    } else {
        Warn::Off
    }
}

/// `t` after the text `x` came for `s`.
pub open spec fn text_shown(t: TelemetryView, s: Signal, x: Seq<char>) -> TelemetryView {
    TelemetryView {
        ready: if s is SystemState {
            x == "ON"@ || x == "START"@
        } else {
            t.ready
        },
        oil: if s is OilLevel {
            oil_warning(x)
        } else {
            t.oil
        },
        ..t
    }
}

/// Whether a value is of the type that the signal `s` needs.
pub open spec fn fits(s: Signal, v: ValueView) -> bool {
    match kind_of(s) {
        Kind::Number => number_in(v) is Some,
        Kind::Flag => v is Bool,
        Kind::Text => v is String,
    }
}

/// `t` and the raw signals after the value `v` came for `s`.
pub open spec fn after_signal(t: TelemetryView, g: SignalsView, s: Signal, v: ValueView) -> (
    TelemetryView,
    SignalsView,
) {
    if !fits(s, v) {
        (t, g)
    } else {
        match kind_of(s) {
            Kind::Number => {
                let now = number_noted(g, s, number_in(v)->0);
                (number_shown(t, now, s, number_in(v)->0), now)
            },
            Kind::Flag => {
                let now = flag_noted(g, s, v->Bool_0);
                (flag_shown(t, now, s, v->Bool_0), now)
            },
            Kind::Text => (text_shown(t, s, v->String_0), g),
        }
    }
}

/// Whether the update `v` of `path` is one the cluster uses.
pub open spec fn accepted(path: Seq<char>, v: ValueView) -> bool {
    match named(path) {
        Some(s) => fits(s, v),
        None => false,
    }
}

/// `t` and the raw signals after the update `v` of `path`.
pub open spec fn applied(t: TelemetryView, g: SignalsView, path: Seq<char>, v: ValueView) -> (
    TelemetryView,
    SignalsView,
) {
    match named(path) {
        Some(s) => after_signal(t, g, s, v),
        None => (t, g),
    }
}

fn nearest(n: i128) -> (r: i32)
    requires
        -LARGEST <= n <= LARGEST,
    ensures
        r == nearest_i32(n as int),
{
    let q: i128 = div_nearest(n, 1_000_000);
    if q < -0x8000_0000 {
        i32::MIN
    } else if q > 0x7fff_ffff {
        i32::MAX
    } else {
        q as i32
    }
}

fn percent(n: i128) -> (f: Micro)
    requires
        -LARGEST <= n <= LARGEST,
    ensures
        f == fraction(n as int),
{
    let q: i128 = div_nearest(n, 100);
    if q < 0 {
        0
    } else if q > 1_000_000 {
        1_000_000
    } else {
        q as i64
    }
}

fn gear(n: i128) -> (c: char)
    requires
        -LARGEST <= n <= LARGEST,
    ensures
        c == gear_of(n as int),
{
    if 126_000_000 <= n && n < 127_000_000 {
        'P'
    } else if -1_000_000 < n && n < 1_000_000 {
        'N'
    } else if n < 0 {
        'R'
    } else {
        'D'
    }
}

fn voltage(n: i128) -> (w: Warn)
    ensures
        w == voltage_warning(n as int),
{
    if n < 11_000_000 {
        Warn::Red
    } else if n < 11_800_000 {
        Warn::Amber
    } else {
        Warn::Off
    }
}

/// Keep the number `n` if others are to be seen with it.
fn note_number(g: &mut Signals, s: Signal, n: i128)
    requires
        -LARGEST <= n <= LARGEST,
    ensures
        final(g)@ == number_noted(old(g)@, s, n as int),
{
    proof {
        use_type_invariant(&*g);
    }
    match s {
        Signal::MotorPower => g.motor_power = n,
        Signal::MaxPower => g.max_power = if n > 0 { Some(n) } else { None },
        _ => {},
    }
}

/// Show the number `n` (in millionths).
fn show_number(t: &mut Telemetry, g: &Signals, s: Signal, n: i128)
    requires
        -LARGEST <= n <= LARGEST,
    ensures
        final(t)@ == number_shown(old(t)@, g@, s, n as int),
{
    match s {
        Signal::Speed => t.speed_kmh = saturate(n),
        Signal::TraveledDistance => t.odo_km = saturate(n),
        Signal::TripDuration => t.trip_seconds = whole(n),
        Signal::AirTemperature => t.outside_temp_c = nearest(n),
        Signal::BatteryVoltage => t.battery_warn = voltage(n),
        Signal::Range => t.range_km = saturate(div_nearest(n, 1_000)),
        Signal::StateOfCharge => t.battery_level = percent(n),
        Signal::FuelLevel => t.fuel_level = percent(n),
        Signal::MotorPower => t.power = power(g),
        Signal::MaxPower => t.power = power(g),
        Signal::SelectedGear => t.gear = gear(n),
        Signal::CruiseSpeed => t.cruise_speed_kmh = saturate(n),
        _ => {},
    }
}

/// Keep the flag `b` if others are to be seen with it.
fn note_flag(g: &mut Signals, s: Signal, b: bool)
    ensures
        final(g)@ == flag_noted(old(g)@, s, b),
{
    proof {
        use_type_invariant(&*g);
    }
    match s {
        Signal::CruiseEnabled => g.cruise_enabled = b,
        Signal::CruiseActive => g.cruise_active = b,
        Signal::LaneEnabled => g.lane_enabled = b,
        Signal::LaneWarning => g.lane_warning = b,
        Signal::LowBeam => g.low_beam = b,
        Signal::HighBeam => g.high_beam = b,
        Signal::FrontDriverDoor => g.front_driver_open = b,
        Signal::FrontPassengerDoor => g.front_passenger_open = b,
        Signal::RearDriverDoor => g.rear_driver_open = b,
        Signal::RearPassengerDoor => g.rear_passenger_open = b,
        _ => {},
    }
}

fn any_door(g: &Signals) -> (r: bool)
    ensures
        r == any_open(g@),
{
    g.front_driver_open || g.front_passenger_open || g.rear_driver_open || g.rear_passenger_open
}

/// The lamp `colour` if `on`, else off.
fn lit(on: bool, colour: Warn) -> (w: Warn)
    ensures
        w == lamp_if(on, colour),
{
    if on {
        colour
    } else {
        Warn::Off
    }
}

/// Light the lamp that `s` decides alone.
fn show_lamp(t: &mut Telemetry, s: Signal, b: bool)
    ensures
        final(t)@ == lamp_shown(old(t)@, s, b),
{
    match s {
        Signal::LaneEnabled => t.lta_on = b,
        Signal::TurnLeft => t.turn_left = b,
        Signal::TurnRight => t.turn_right = b,
        Signal::MilOn => t.engine = lit(b, Warn::Amber),
        Signal::AbsError => t.abs = lit(b, Warn::Red),
        Signal::ParkingBrake => t.parking_brake = b,
        Signal::Belted => t.seatbelt = !b,
        _ => {},
    }
}

/// Recompute what `s` decides together with others.
fn recompute(t: &mut Telemetry, g: &Signals, s: Signal)
    ensures
        final(t)@ == recomputed(old(t)@, g@, s),
{
    t.headlights = match s {
        Signal::LowBeam | Signal::HighBeam => beam(g),
        _ => t.headlights,
    };
    t.door_open = match s {
        Signal::FrontDriverDoor
        | Signal::FrontPassengerDoor
        | Signal::RearDriverDoor
        | Signal::RearPassengerDoor => any_door(g),
        _ => t.door_open,
    };
    t.cruise = match s {
        Signal::CruiseEnabled | Signal::CruiseActive => cruise(g),
        _ => t.cruise,
    };
    t.lane = match s {
        Signal::LaneEnabled | Signal::LaneWarning => lane(g),
        _ => t.lane,
    };
}

/// Show the text `x`.
fn show_text(t: &mut Telemetry, s: Signal, x: &str)
    ensures
        final(t)@ == text_shown(old(t)@, s, x@),
{
    match s {
        Signal::SystemState => t.ready = same(x, "ON") || same(x, "START"),
        Signal::OilLevel => t.oil = if same(x, "CRITICALLY_LOW") {
            Warn::Red
        } else if same(x, "LOW") {
            Warn::Amber
        } else {
            Warn::Off
        },
        _ => {},
    }
}

fn kind(s: Signal) -> (k: Kind)
    ensures
        k == kind_of(s),
{
    match s {
        Signal::Speed => Kind::Number,
        Signal::TraveledDistance => Kind::Number,
        Signal::TripDuration => Kind::Number,
        Signal::AirTemperature => Kind::Number,
        Signal::SystemState => Kind::Text,
        Signal::BatteryVoltage => Kind::Number,
        Signal::Range => Kind::Number,
        Signal::StateOfCharge => Kind::Number,
        Signal::FuelLevel => Kind::Number,
        Signal::MotorPower => Kind::Number,
        Signal::MaxPower => Kind::Number,
        Signal::SelectedGear => Kind::Number,
        Signal::OilLevel => Kind::Text,
        Signal::CruiseSpeed => Kind::Number,
        _ => Kind::Flag,
    }
}

/// Fold one VSS update into `t`. Returns `false` if the path is not one the
/// cluster uses or the value has the wrong type; `t` is then untouched.
pub fn apply(t: &mut Telemetry, sig: &mut Signals, path: &str, v: &TypedValue) -> (r: bool)
    ensures
        r == accepted(path@, v@),
        (final(t)@, final(sig)@) == applied(old(t)@, old(sig)@, path@, v@),
        !r ==> *final(t) == *old(t) && *final(sig) == *old(sig),
{
    let s: Signal = match signal(path) {
        Some(s) => s,
        None => return false,
    };
    match kind(s) {
        Kind::Number => match as_number(v) {
            Some(n) => {
                note_number(sig, s, n);
                show_number(t, sig, s, n);
            },
            None => return false,
        },
        Kind::Flag => match as_bool(v) {
            Some(b) => {
                note_flag(sig, s, b);
                show_lamp(t, s, b);
                recompute(t, sig, s);
            },
            None => return false,
        },
        Kind::Text => match as_str(v) {
            Some(x) => show_text(t, s, x),
            None => return false,
        },
    }
    true
}

// ----- publishing --------------------------------------------------------------------

pub open spec fn state_text(ready: bool) -> Seq<char> {
    if ready {
        "ON"@
    } else {
        "ACC"@
    }
}

pub open spec fn oil_text(w: Warn) -> Seq<char> {
    match w {
        Warn::Red => "CRITICALLY_LOW"@,
        Warn::Amber => "LOW"@,
        Warn::Off => "NORMAL"@,
    }
}

/// A voltage at which the 12 V lamp is `w`.
pub open spec fn typical_voltage(w: Warn) -> Micro {
    match w {
        Warn::Red => 10_500_000,
        Warn::Amber => 11_500_000,
        Warn::Off => 12_600_000,
    }
}

/// A fraction as a percentage, to the nearest.
pub open spec fn whole_percent(level: Micro) -> u32 {
    clamped(rounded_product(level as int, 100), 0, u32::MAX as int) as u32
}

/// A distance in metres, the fraction dropped; none if it is negative.
pub open spec fn whole_metres(km: Micro) -> u32 {
    if km < 0 {
        0
    } else {
        clamped(product(km as int, 1_000) / (SINGLE_UNIT as int), 0, u32::MAX as int) as u32
    }
}

/// A power as a fraction of 150 kW in whole kilowatts, to the nearest.
pub open spec fn kilowatts(power: Micro) -> i32 {
    let size = if power < 0 {
        -power as int
    } else {
        power as int
    };
    let kw = div_round(150 * single(size), SINGLE_UNIT as int);
    clamped(
        if power < 0 {
            -kw
        } else {
            kw
        },
        i32::MIN as int,
        i32::MAX as int,
    ) as i32
}

/// The number of a gear letter; any other than 'P', 'R' and 'N' is drive.
pub open spec fn gear_number(gear: char) -> i32 {
    if gear == 'P' {
        126
    } else if gear == 'R' {
        -1i32
    } else if gear == 'N' {
        0
    } else {
        127
    }
}

pub open spec fn motion_signals(t: TelemetryView) -> Seq<(Signal, ValueView)> {
    seq![
        (Signal::Speed, ValueView::Float(t.speed_kmh)),
        (Signal::TraveledDistance, ValueView::Float(t.odo_km)),
        (Signal::TripDuration, ValueView::Float((1_000_000 * t.trip_seconds) as i64)),
        (Signal::AirTemperature, ValueView::Float((1_000_000 * t.outside_temp_c) as i64)),
        (Signal::SystemState, ValueView::String(state_text(t.ready))),
        (Signal::BatteryVoltage, ValueView::Float(typical_voltage(t.battery_warn))),
    ]
}

pub open spec fn energy_signals(t: TelemetryView) -> Seq<(Signal, ValueView)> {
    seq![
        (Signal::Range, ValueView::Uint32(whole_metres(t.range_km))),
        (Signal::StateOfCharge, ValueView::Float(as_micro(100 * t.battery_level))),
        (Signal::FuelLevel, ValueView::Uint32(whole_percent(t.fuel_level))),
        (Signal::MaxPower, ValueView::Uint32(150)),
        (Signal::MotorPower, ValueView::Int32(kilowatts(t.power))),
        (Signal::SelectedGear, ValueView::Int32(gear_number(t.gear))),
        (Signal::OilLevel, ValueView::String(oil_text(t.oil))),
        (Signal::MilOn, ValueView::Bool(t.engine != Warn::Off)),
    ]
}

pub open spec fn assistance_signals(t: TelemetryView) -> Seq<(Signal, ValueView)> {
    seq![
        (Signal::CruiseEnabled, ValueView::Bool(t.cruise != Cruise::Off)),
        (Signal::CruiseActive, ValueView::Bool(t.cruise == Cruise::Active)),
        (Signal::CruiseSpeed, ValueView::Float(t.cruise_speed_kmh)),
        (Signal::LaneEnabled, ValueView::Bool(t.lane != Lane::Off)),
        (Signal::LaneWarning, ValueView::Bool(t.lane == Lane::Warn || t.lane == Lane::Depart)),
        (Signal::AbsError, ValueView::Bool(t.abs != Warn::Off)),
    ]
}

pub open spec fn body_signals(t: TelemetryView) -> Seq<(Signal, ValueView)> {
    seq![
        (Signal::TurnLeft, ValueView::Bool(t.turn_left)),
        (Signal::TurnRight, ValueView::Bool(t.turn_right)),
        (Signal::LowBeam, ValueView::Bool(t.headlights == Beam::Low)),
        (Signal::HighBeam, ValueView::Bool(t.headlights == Beam::High)),
        (Signal::ParkingBrake, ValueView::Bool(t.parking_brake)),
        (Signal::Belted, ValueView::Bool(!t.seatbelt)),
        (Signal::FrontDriverDoor, ValueView::Bool(t.door_open)),
    ]
}

/// The VSS signals that describe `t`, typed as the databroker's VSS metadata
/// expects them (float, uint32 for uint8/16/32, int32 for int8/16, bool,
/// string).
pub open spec fn published(t: TelemetryView) -> Seq<(Signal, ValueView)> {
    motion_signals(t) + energy_signals(t) + assistance_signals(t) + body_signals(t)
}

/// The entries of a list of updates.
pub open spec fn listed(v: Seq<(&'static str, TypedValue)>) -> Seq<(Seq<char>, ValueView)> {
    Seq::new(v.len(), |i: int| (v[i].0@, v[i].1@))
}

/// Signals under their paths.
pub open spec fn announced(v: Seq<(Signal, ValueView)>) -> Seq<(Seq<char>, ValueView)> {
    Seq::new(v.len(), |i: int| (path_of(v[i].0), v[i].1))
}

fn state(ready: bool) -> (s: String)
    ensures
        s@ == state_text(ready),
{
    if ready {
        "ON".to_owned()
    } else {
        "ACC".to_owned()
    }
}

fn oil(w: Warn) -> (s: String)
    ensures
        s@ == oil_text(w),
{
    match w {
        Warn::Red => "CRITICALLY_LOW".to_owned(),
        Warn::Amber => "LOW".to_owned(),
        Warn::Off => "NORMAL".to_owned(),
    }
}

fn volts(w: Warn) -> (v: Micro)
    ensures
        v == typical_voltage(w),
{
    match w {
        Warn::Red => 10_500_000,
        Warn::Amber => 11_500_000,
        Warn::Off => 12_600_000,
    }
}

fn number_of(gear: char) -> (n: i32)
    ensures
        n == gear_number(gear),
{
    if gear == 'P' {
        126
    } else if gear == 'R' {
        -1
    } else if gear == 'N' {
        0
    } else {
        127
    }
}

/// Append one signal under its path.
fn push(out: &mut Vec<(&'static str, TypedValue)>, s: Signal, v: TypedValue)
    ensures
        listed(final(out)@) == listed(old(out)@).push((path_of(s), v@)),
{
    out.push((path(s), v));
    assert(listed(out@) == listed(old(out)@).push((path_of(s), v@)));
}

fn push_motion(out: &mut Vec<(&'static str, TypedValue)>, t: &Telemetry)
    ensures
        listed(final(out)@) == listed(old(out)@) + announced(motion_signals(t@)),
{
    push(out, Signal::Speed, TypedValue::Float(t.speed_kmh));
    push(out, Signal::TraveledDistance, TypedValue::Float(t.odo_km));
    push(out, Signal::TripDuration, TypedValue::Float(1_000_000 * (t.trip_seconds as i64)));
    push(out, Signal::AirTemperature, TypedValue::Float(1_000_000 * (t.outside_temp_c as i64)));
    push(out, Signal::SystemState, TypedValue::String(state(t.ready)));
    push(out, Signal::BatteryVoltage, TypedValue::Float(volts(t.battery_warn)));
    assert(listed(out@) == listed(old(out)@) + announced(motion_signals(t@)));
}

/// A distance in metres, the fraction dropped; none if it is negative.
fn metres(km: Micro) -> (m: u32)
    ensures
        m == whole_metres(km),
{
    if km < 0 {
        return 0;
    }
    let m: i128 = multiply(km as u64, 1_000) / SINGLE_UNIT;
    if m > 0xffff_ffff {
        u32::MAX
    } else {
        m as u32
    }
}

/// A power as a fraction of 150 kW in whole kilowatts, to the nearest.
fn motor_power(power: Micro) -> (kw: i32)
    ensures
        kw == kilowatts(power),
{
    let size: i128 = if power < 0 { -(power as i128) } else { power as i128 };
    let kw: i128 = div_nearest(150 * to_single(size as u64), SINGLE_UNIT);
    if power < 0 {
        if kw > 0x8000_0000 {
            i32::MIN
        } else {
            (-kw) as i32
        }
    } else if kw > 0x7fff_ffff {
        i32::MAX
    } else {
        kw as i32
    }
}

fn push_energy(out: &mut Vec<(&'static str, TypedValue)>, t: &Telemetry)
    ensures
        listed(final(out)@) == listed(old(out)@) + announced(energy_signals(t@)),
{
    push(out, Signal::Range, TypedValue::Uint32(metres(t.range_km)));
    push(out, Signal::StateOfCharge, TypedValue::Float(saturate(100 * (t.battery_level as i128))));
    let fuel: u32 = quant(t.fuel_level, 100, 0, 0xffff_ffff) as u32;
    push(out, Signal::FuelLevel, TypedValue::Uint32(fuel));
    push(out, Signal::MaxPower, TypedValue::Uint32(150));
    push(out, Signal::MotorPower, TypedValue::Int32(motor_power(t.power)));
    push(out, Signal::SelectedGear, TypedValue::Int32(number_of(t.gear)));
    push(out, Signal::OilLevel, TypedValue::String(oil(t.oil)));
    push(out, Signal::MilOn, TypedValue::Bool(t.engine != Warn::Off));
    assert(listed(out@) == listed(old(out)@) + announced(energy_signals(t@)));
}

fn push_assistance(out: &mut Vec<(&'static str, TypedValue)>, t: &Telemetry)
    ensures
        listed(final(out)@) == listed(old(out)@) + announced(assistance_signals(t@)),
{
    push(out, Signal::CruiseEnabled, TypedValue::Bool(t.cruise != Cruise::Off));
    push(out, Signal::CruiseActive, TypedValue::Bool(t.cruise == Cruise::Active));
    push(out, Signal::CruiseSpeed, TypedValue::Float(t.cruise_speed_kmh));
    push(out, Signal::LaneEnabled, TypedValue::Bool(t.lane != Lane::Off));
    let straying: bool = t.lane == Lane::Warn || t.lane == Lane::Depart;
    push(out, Signal::LaneWarning, TypedValue::Bool(straying));
    push(out, Signal::AbsError, TypedValue::Bool(t.abs != Warn::Off));
    assert(listed(out@) == listed(old(out)@) + announced(assistance_signals(t@)));
}

fn push_body(out: &mut Vec<(&'static str, TypedValue)>, t: &Telemetry)
    ensures
        listed(final(out)@) == listed(old(out)@) + announced(body_signals(t@)),
{
    push(out, Signal::TurnLeft, TypedValue::Bool(t.turn_left));
    push(out, Signal::TurnRight, TypedValue::Bool(t.turn_right));
    push(out, Signal::LowBeam, TypedValue::Bool(t.headlights == Beam::Low));
    push(out, Signal::HighBeam, TypedValue::Bool(t.headlights == Beam::High));
    push(out, Signal::ParkingBrake, TypedValue::Bool(t.parking_brake));
    push(out, Signal::Belted, TypedValue::Bool(!t.seatbelt));
    push(out, Signal::FrontDriverDoor, TypedValue::Bool(t.door_open));
    assert(listed(out@) == listed(old(out)@) + announced(body_signals(t@)));
}

/// The VSS signals that describe `t`, typed as the databroker's VSS metadata
/// expects them (float, uint32 for uint8/16/32, int32 for int8/16, bool,
/// string). This is the publishing half of the mapping, for a simulated vehicle.
pub fn signals(t: &Telemetry) -> (out: Vec<(&'static str, TypedValue)>)
    ensures
        listed(out@) == announced(published(t@)),
{
    let mut out: Vec<(&'static str, TypedValue)> = Vec::with_capacity(27);
    push_motion(&mut out, t);
    push_energy(&mut out, t);
    push_assistance(&mut out, t);
    push_body(&mut out, t);
    assert(listed(out@) == announced(published(t@)));
    out
}

// ----- updates -----------------------------------------------------------------------

/// A databroker's value field.
#[derive(Clone, Debug, PartialEq, Eq)]
pub struct Value {
    pub typed_value: Option<TypedValue>,
}

/// One reading of a signal: when it was taken, in seconds and nanoseconds, and
/// what it is.
#[derive(Clone, Debug, PartialEq, Eq)]
pub struct Datapoint {
    pub timestamp: Option<(i64, i32)>,
    pub value: Option<Value>,
}

/// The value in a reading, if it holds one.
pub open spec fn value_in(d: Datapoint) -> Option<ValueView> {
    match d.value {
        Some(value) => match value.typed_value {
            Some(v) => Some(v@),
            None => None,
        },
        None => None,
    }
}

/// Whether `d` is nothing but the value `v`.
pub open spec fn is_bare(d: Datapoint, v: ValueView) -> bool {
    d.timestamp is None && value_in(d) == Some(v)
}

/// Wrap a value as a databroker `Datapoint` (timestamp left to the server).
pub fn datapoint(v: TypedValue) -> (d: Datapoint)
    ensures
        is_bare(d, v@),
        d.timestamp is None,
        d.value == Some(Value { typed_value: Some(v) }),
        value_in(d) == Some(v@),
{
    Datapoint { timestamp: None, value: Some(Value { typed_value: Some(v) }) }
}

/// The readings in a list of entries.
pub open spec fn readings(entries: Seq<(String, Datapoint)>) -> Seq<
    (Seq<char>, Option<ValueView>),
> {
    Seq::new(entries.len(), |i: int| (entries[i].0@, value_in(entries[i].1)))
}

/// `t` and the raw signals after all of `updates`, in order; an entry without a
/// value counts for nothing.
pub open spec fn folded(
    t: TelemetryView,
    g: SignalsView,
    updates: Seq<(Seq<char>, Option<ValueView>)>,
) -> (TelemetryView, SignalsView)
    decreases updates.len(),
{
    if updates.len() == 0 {
        (t, g)
    } else {
        let before = folded(t, g, updates.drop_last());
        match updates.last().1 {
            Some(v) => applied(before.0, before.1, updates.last().0, v),
            None => before,
        }
    }
}

/// Fold the entries of one subscription update into `t`.
pub fn fold(t: &mut Telemetry, sig: &mut Signals, entries: &Vec<(String, Datapoint)>)
    ensures
        (final(t)@, final(sig)@) == folded(old(t)@, old(sig)@, readings(entries@)),
{
    let mut i: usize = 0;
    while i < entries.len()
        invariant
            i <= entries@.len(),
            (t@, sig@) == folded(old(t)@, old(sig)@, readings(entries@).take(i as int)),
        decreases entries@.len() - i,
    {
        assert(readings(entries@).take(i + 1).drop_last() == readings(entries@).take(i as int));
        assert(readings(entries@)[i as int] == (
            entries@[i as int].0@,
            value_in(entries@[i as int].1),
        ));
        match &entries[i].1.value {
            Some(value) => match &value.typed_value {
                Some(v) => {
                    apply(t, sig, entries[i].0.as_str(), v);
                },
                None => {},
            },
            None => {},
        }
        i = i + 1;
    }
    assert(readings(entries@).take(i as int) == readings(entries@));
}

/// Which of the signals `now` are to be sent after `last`: those with no
/// value yet, or another one, in the same place of the list.
pub open spec fn changes(
    last: Seq<(Seq<char>, ValueView)>,
    now: Seq<(Seq<char>, ValueView)>,
) -> Seq<int>
    decreases now.len(),
{
    if now.len() == 0 {
        Seq::empty()
    } else {
        let i = now.len() - 1;
        let before = changes(last, now.drop_last());
        if i < last.len() && last[i].1 == now[i].1 {
            before
        } else {
            before.push(i)
        }
    }
}

/// The numbers in `v`.
pub open spec fn numbers(v: Seq<usize>) -> Seq<int> {
    Seq::new(v.len(), |i: int| v[i] as int)
}

/// Whether two values are the same, type and all.
fn same_value(a: &TypedValue, b: &TypedValue) -> (r: bool)
    ensures
        r == (a@ == b@),
{
    match (a, b) {
        (TypedValue::String(x), TypedValue::String(y)) => same(x.as_str(), y.as_str()),
        (TypedValue::Bool(x), TypedValue::Bool(y)) => *x == *y,
        (TypedValue::Int32(x), TypedValue::Int32(y)) => *x == *y,
        (TypedValue::Int64(x), TypedValue::Int64(y)) => *x == *y,
        (TypedValue::Uint32(x), TypedValue::Uint32(y)) => *x == *y,
        (TypedValue::Uint64(x), TypedValue::Uint64(y)) => *x == *y,
        (TypedValue::Float(x), TypedValue::Float(y)) => *x == *y,
        (TypedValue::Double(x), TypedValue::Double(y)) => *x == *y,
        (TypedValue::Array, TypedValue::Array) => true,
        _ => false,
    }
}

/// Which of the signals `now` changed since `last`, so that only those are sent.
pub fn changed(
    last: &Vec<(&'static str, TypedValue)>,
    now: &Vec<(&'static str, TypedValue)>,
) -> (out: Vec<usize>)
    ensures
        numbers(out@) == changes(listed(last@), listed(now@)),
{
    let mut out: Vec<usize> = Vec::new();
    let mut i: usize = 0;
    while i < now.len()
        invariant
            i <= now@.len(),
            numbers(out@) == changes(listed(last@), listed(now@).take(i as int)),
        decreases now@.len() - i,
    {
        assert(listed(now@).take(i + 1).drop_last() == listed(now@).take(i as int));
        let ghost before = numbers(out@);
        if i >= last.len() || !same_value(&last[i].1, &now[i].1) {
            out.push(i);
            assert(numbers(out@) == before.push(i as int));
        }
        i = i + 1;
    }
    assert(listed(now@).take(i as int) == listed(now@));
    out
}

} // verus!
