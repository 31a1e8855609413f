//! What holds of the mapping to and from VSS signals as a whole.

use vstd::prelude::*;

use crate::fixed::{
    a_product_is_near, a_single_is_near, as_micro, clamped, counting_steps_is_near, div_round,
    rounded_product, rounding_is_exact_on_multiples, rounding_is_nearest, single,
    spacing_in_proportion, whole_units, Micro, SINGLE_UNIT,
};
use crate::kuksa::{
    a_path_names_its_signal, accepted, after_signal, announced, any_open, applied,
    assistance_signals, beam_of, body_signals, changes, cruise_of, energy_signals, fits, flag_noted,
    flag_shown, folded, fraction, gear_number, gear_of, kilowatts, kind_of, lamp_if, lane_of,
    motion_signals, named, nearest_i32, number_in, number_noted, number_shown, oil_text,
    oil_warning, path_of, place, positive, power_of, published, signal_at, state_text, text_shown,
    typical_voltage, voltage_warning, whole_metres, whole_percent, Kind, Signal, SignalsView,
    ValueView, PATHS,
};
use crate::telemetry::{same_fields, Beam, Cruise, Lane, TelemetryView, Warn};

verus! {

/// The paths that are used are exactly those that are subscribed to.
pub proof fn exactly_the_subscribed_paths_are_used(path: Seq<char>)
    ensures
        named(path) is Some <==> exists|i: int| 0 <= i < 30 && #[trigger] PATHS[i]@ == path,
        named(path) is Some ==> path_of(named(path)->0) == path,
{
    if named(path) is Some {
        let s = named(path)->0;
        assert(PATHS[place(s)]@ == path);
    }
    if exists|i: int| 0 <= i < 30 && #[trigger] PATHS[i]@ == path {
        let i = choose|i: int| 0 <= i < 30 && #[trigger] PATHS[i]@ == path;
        assert(path_of(signal_at(i)) == path);
    }
}

/// An update of a path that is not subscribed to, or of the wrong type, changes
/// nothing.
pub proof fn a_refused_update_changes_nothing(
    t: TelemetryView,
    g: SignalsView,
    path: Seq<char>,
    v: ValueView,
)
    requires
        !accepted(path, v),
    ensures
        applied(t, g, path, v) == (t, g),
{
}

/// Numbers are taken in any numeric encoding: what counts is the value.
pub proof fn any_numeric_encoding_will_do(
    t: TelemetryView,
    g: SignalsView,
    path: Seq<char>,
    v: ValueView,
    w: ValueView,
)
    requires
        number_in(v) is Some,
        number_in(v) == number_in(w),
    ensures
        accepted(path, v) == accepted(path, w),
        applied(t, g, path, v) == applied(t, g, path, w),
{
}

/// What is published is what the four groups of signals hold, one after another.
pub proof fn published_in_four_groups(t: TelemetryView, i: int)
    requires
        0 <= i < published(t).len(),
    ensures
        published(t).len() == 27,
        published(t)[i] == if i < 6 {
            motion_signals(t)[i]
        } else if i < 14 {
            energy_signals(t)[i - 6]
        } else if i < 20 {
            assistance_signals(t)[i - 14]
        } else {
            body_signals(t)[i - 20]
        },
{
}

/// Everything that is published is subscribed to and accepted.
pub proof fn what_is_published_is_accepted(t: TelemetryView, i: int)
    requires
        0 <= i < published(t).len(),
    ensures
        fits(published(t)[i].0, published(t)[i].1),
        accepted(announced(published(t))[i].0, announced(published(t))[i].1),
        published(t).len() == 27,
{
    a_path_names_its_signal(published(t)[i].0);
    published_in_four_groups(t, i);
}

// ----- the last value of each path ---------------------------------------------------

/// `t` and the raw signals after all of `updates`, in order.
pub open spec fn after_all(
    t: TelemetryView,
    g: SignalsView,
    updates: Seq<(Signal, ValueView)>,
) -> (TelemetryView, SignalsView)
    decreases updates.len(),
{
    if updates.len() == 0 {
        (t, g)
    } else {
        let before = after_all(t, g, updates.drop_last());
        after_signal(before.0, before.1, updates.last().0, updates.last().1)
    }
}

/// The last value of each signal that has had one.
pub type Last = spec_fn(Signal) -> Option<ValueView>;

/// `last` with another last value for `s`.
pub open spec fn updated(last: Last, s: Signal, v: ValueView) -> Last {
    |x: Signal|
        if x == s {
            Some(v)
        } else {
            last(x)
        }
}

/// The last value of each signal among `updates`, values of the wrong type left
/// out.
pub open spec fn last_values(updates: Seq<(Signal, ValueView)>) -> Last
    decreases updates.len(),
{
    if updates.len() == 0 {
        |s: Signal| None
    } else {
        let before = last_values(updates.drop_last());
        if fits(updates.last().0, updates.last().1) {
            updated(before, updates.last().0, updates.last().1)
        } else {
            before
        }
    }
}

/// The flag `s` if it was reported, else what it was.
pub open spec fn flag_from(last: Last, s: Signal, was: bool) -> bool {
    if last(s) is Some {
        last(s)->0->Bool_0
    } else {
        was
    }
}

/// The raw signals, once `last` are the last values.
pub open spec fn raw_from(g: SignalsView, last: Last) -> SignalsView {
    SignalsView {
        motor_power: if last(Signal::MotorPower) is Some {
            number_in(last(Signal::MotorPower)->0)->0
        } else {
            g.motor_power
        },
        max_power: if last(Signal::MaxPower) is Some {
            positive(number_in(last(Signal::MaxPower)->0)->0)
        } else {
            g.max_power
        },
        cruise_enabled: flag_from(last, Signal::CruiseEnabled, g.cruise_enabled),
        cruise_active: flag_from(last, Signal::CruiseActive, g.cruise_active),
        lane_enabled: flag_from(last, Signal::LaneEnabled, g.lane_enabled),
        lane_warning: flag_from(last, Signal::LaneWarning, g.lane_warning),
        low_beam: flag_from(last, Signal::LowBeam, g.low_beam),
        high_beam: flag_from(last, Signal::HighBeam, g.high_beam),
        front_driver_open: flag_from(last, Signal::FrontDriverDoor, g.front_driver_open),
        front_passenger_open: flag_from(last, Signal::FrontPassengerDoor, g.front_passenger_open),
        rear_driver_open: flag_from(last, Signal::RearDriverDoor, g.rear_driver_open),
        rear_passenger_open: flag_from(last, Signal::RearPassengerDoor, g.rear_passenger_open),
    }
}

/// `t`, once `last` are the last values and `raw` the raw signals.
pub open spec fn shown_from(t: TelemetryView, raw: SignalsView, last: Last) -> TelemetryView {
    TelemetryView {
        speed_kmh: if last(Signal::Speed) is Some {
            as_micro(number_in(last(Signal::Speed)->0)->0)
        } else {
            t.speed_kmh
        },
        power: if last(Signal::MotorPower) is Some || last(Signal::MaxPower) is Some {
            power_of(raw)
        } else {
            t.power
        },
        range_km: if last(Signal::Range) is Some {
            as_micro(div_round(number_in(last(Signal::Range)->0)->0, 1_000))
        } else {
            t.range_km
        },
        battery_level: if last(Signal::StateOfCharge) is Some {
            fraction(number_in(last(Signal::StateOfCharge)->0)->0)
        } else {
            t.battery_level
        },
        fuel_level: if last(Signal::FuelLevel) is Some {
            fraction(number_in(last(Signal::FuelLevel)->0)->0)
        } else {
            t.fuel_level
        },
        outside_temp_c: if last(Signal::AirTemperature) is Some {
            nearest_i32(number_in(last(Signal::AirTemperature)->0)->0)
        } else {
            t.outside_temp_c
        },
        odo_km: if last(Signal::TraveledDistance) is Some {
            as_micro(number_in(last(Signal::TraveledDistance)->0)->0)
        } else {
            t.odo_km
        },
        trip_seconds: if last(Signal::TripDuration) is Some {
            whole_units(number_in(last(Signal::TripDuration)->0)->0)
        } else {
            t.trip_seconds
        },
        cruise_speed_kmh: if last(Signal::CruiseSpeed) is Some {
            as_micro(number_in(last(Signal::CruiseSpeed)->0)->0)
        } else {
            t.cruise_speed_kmh
        },
        lta_on: if last(Signal::LaneEnabled) is Some {
            last(Signal::LaneEnabled)->0->Bool_0
        } else {
            t.lta_on
        },
        gear: if last(Signal::SelectedGear) is Some {
            gear_of(number_in(last(Signal::SelectedGear)->0)->0)
        } else {
            t.gear
        },
        ready: if last(Signal::SystemState) is Some {
            last(Signal::SystemState)->0->String_0 == "ON"@ || last(
                Signal::SystemState,
            )->0->String_0 == "START"@
        } else {
            t.ready
        },
        turn_left: if last(Signal::TurnLeft) is Some {
            last(Signal::TurnLeft)->0->Bool_0
        } else {
            t.turn_left
        },
        turn_right: if last(Signal::TurnRight) is Some {
            last(Signal::TurnRight)->0->Bool_0
        } else {
            t.turn_right
        },
        headlights: if last(Signal::LowBeam) is Some || last(Signal::HighBeam) is Some {
            beam_of(raw)
        } else {
            t.headlights
        },
        engine: if last(Signal::MilOn) is Some {
            if last(Signal::MilOn)->0->Bool_0 {
                Warn::Amber
            } else {
                Warn::Off
            }
        } else {
            t.engine
        },
        oil: if last(Signal::OilLevel) is Some {
            oil_warning(last(Signal::OilLevel)->0->String_0)
        } else {
            t.oil
        },
        battery_warn: if last(Signal::BatteryVoltage) is Some {
            voltage_warning(number_in(last(Signal::BatteryVoltage)->0)->0)
        } else {
            t.battery_warn
        },
        abs: if last(Signal::AbsError) is Some {
            if last(Signal::AbsError)->0->Bool_0 {
                Warn::Red
            } else {
                Warn::Off
            }
        } else {
            t.abs
        },
        parking_brake: if last(Signal::ParkingBrake) is Some {
            last(Signal::ParkingBrake)->0->Bool_0
        } else {
            t.parking_brake
        },
        seatbelt: if last(Signal::Belted) is Some {
            !last(Signal::Belted)->0->Bool_0
        } else {
            t.seatbelt
        },
        door_open: if last(Signal::FrontDriverDoor) is Some || last(
            Signal::FrontPassengerDoor,
        ) is Some || last(Signal::RearDriverDoor) is Some || last(
            Signal::RearPassengerDoor,
        ) is Some {
            any_open(raw)
        } else {
            t.door_open
        },
        cruise: if last(Signal::CruiseEnabled) is Some || last(Signal::CruiseActive) is Some {
            cruise_of(raw)
        } else {
            t.cruise
        },
        lane: if last(Signal::LaneEnabled) is Some || last(Signal::LaneWarning) is Some {
            lane_of(raw)
        } else {
            t.lane
        },
        ..t
    }
}

proof fn one_more_number_is_shown(
    t: TelemetryView,
    raw: SignalsView,
    last: Last,
    s: Signal,
    v: ValueView,
)
    requires
        kind_of(s) is Number,
        number_in(v) is Some,
    ensures
        ({
            let n = number_in(v)->0;
            let now = number_noted(raw, s, n);
            number_shown(shown_from(t, raw, last), now, s, n) == shown_from(
                t,
                now,
                updated(last, s, v),
            )
        }),
{
    let n = number_in(v)->0;
    let now = number_noted(raw, s, n);
    same_fields(
        number_shown(shown_from(t, raw, last), now, s, n),
        shown_from(t, now, updated(last, s, v)),
    );
}

proof fn one_more_flag_is_shown(
    t: TelemetryView,
    raw: SignalsView,
    last: Last,
    s: Signal,
    b: bool,
)
    requires
        kind_of(s) is Flag,
    ensures
        ({
            let now = flag_noted(raw, s, b);
            flag_shown(shown_from(t, raw, last), now, s, b) == shown_from(
                t,
                now,
                updated(last, s, ValueView::Bool(b)),
            )
        }),
{
    let now = flag_noted(raw, s, b);
    same_fields(
        flag_shown(shown_from(t, raw, last), now, s, b),
        shown_from(t, now, updated(last, s, ValueView::Bool(b))),
    );
}

proof fn one_more_text_is_shown(
    t: TelemetryView,
    raw: SignalsView,
    last: Last,
    s: Signal,
    x: Seq<char>,
)
    requires
        kind_of(s) is Text,
    ensures
        text_shown(shown_from(t, raw, last), s, x) == shown_from(
            t,
            raw,
            updated(last, s, ValueView::String(x)),
        ),
{
    same_fields(
        text_shown(shown_from(t, raw, last), s, x),
        shown_from(t, raw, updated(last, s, ValueView::String(x))),
    );
}

/// Raw signals are the same if their fields are.
pub proof fn same_raw(l: SignalsView, r: SignalsView)
    requires
        l.motor_power == r.motor_power,
        l.max_power == r.max_power,
        l.cruise_enabled == r.cruise_enabled,
        l.cruise_active == r.cruise_active,
        l.lane_enabled == r.lane_enabled,
        l.lane_warning == r.lane_warning,
        l.low_beam == r.low_beam,
        l.high_beam == r.high_beam,
        l.front_driver_open == r.front_driver_open,
        l.front_passenger_open == r.front_passenger_open,
        l.rear_driver_open == r.rear_driver_open,
        l.rear_passenger_open == r.rear_passenger_open,
    ensures
        l == r,
{
}

proof fn one_more_number_is_noted(
    g: SignalsView,
    last: Last,
    s: Signal,
    v: ValueView,
)
    requires
        kind_of(s) is Number,
        number_in(v) is Some,
    ensures
        number_noted(raw_from(g, last), s, number_in(v)->0) == raw_from(g, updated(last, s, v)),
{
    same_raw(
        number_noted(raw_from(g, last), s, number_in(v)->0),
        raw_from(g, updated(last, s, v)),
    );
}

proof fn one_more_flag_is_noted(
    g: SignalsView,
    last: Last,
    s: Signal,
    b: bool,
)
    requires
        kind_of(s) is Flag,
    ensures
        flag_noted(raw_from(g, last), s, b) == raw_from(g, updated(last, s, ValueView::Bool(b))),
{
    same_raw(
        flag_noted(raw_from(g, last), s, b),
        raw_from(g, updated(last, s, ValueView::Bool(b))),
    );
}

proof fn one_more_text_is_noted(
    g: SignalsView,
    last: Last,
    s: Signal,
    x: Seq<char>,
)
    requires
        kind_of(s) is Text,
    ensures
        raw_from(g, last) == raw_from(g, updated(last, s, ValueView::String(x))),
{
    same_raw(raw_from(g, last), raw_from(g, updated(last, s, ValueView::String(x))));
}

/// One more value is noted and shown as the last of its signal.
proof fn one_more_value_counts(
    t: TelemetryView,
    g: SignalsView,
    last: Last,
    s: Signal,
    v: ValueView,
)
    requires
        fits(s, v),
    ensures
        after_signal(shown_from(t, raw_from(g, last), last), raw_from(g, last), s, v) == (
            shown_from(t, raw_from(g, updated(last, s, v)), updated(last, s, v)),
            raw_from(g, updated(last, s, v)),
        ),
{
    let raw = raw_from(g, last);
    match kind_of(s) {
        Kind::Number => {
            one_more_number_is_noted(g, last, s, v);
            one_more_number_is_shown(t, raw, last, s, v);
        },
        Kind::Flag => {
            let b = v->Bool_0;
            one_more_flag_is_noted(g, last, s, b);
            one_more_flag_is_shown(t, raw, last, s, b);
        },
        Kind::Text => {
            one_more_text_is_noted(g, last, s, v->String_0);
            one_more_text_is_shown(t, raw, last, s, v->String_0);
        },
    }
}

proof fn nothing_yet(t: TelemetryView, g: SignalsView)
    ensures
        raw_from(g, |s: Signal| None) == g,
        shown_from(t, g, |s: Signal| None) == t,
{
    same_raw(raw_from(g, |s: Signal| None), g);
    same_fields(shown_from(t, g, |s: Signal| None), t);
}

/// Derived fields follow their last inputs: after any updates, `t` and the raw
/// signals are what the last value of each signal makes of them. In which order
/// the updates of different signals came does not matter.
pub proof fn derived_fields_follow_their_last_inputs(
    t: TelemetryView,
    g: SignalsView,
    updates: Seq<(Signal, ValueView)>,
)
    ensures
        after_all(t, g, updates) == (
            shown_from(t, raw_from(g, last_values(updates)), last_values(updates)),
            raw_from(g, last_values(updates)),
        ),
    decreases updates.len(),
{
    if updates.len() == 0 {
        nothing_yet(t, g);
    } else {
        derived_fields_follow_their_last_inputs(t, g, updates.drop_last());
        let (s, v) = updates.last();
        if fits(s, v) {
            one_more_value_counts(t, g, last_values(updates.drop_last()), s, v);
        }
    }
}

/// What has no path keeps its value, whatever comes.
pub proof fn fields_without_a_path_never_change(
    t: TelemetryView,
    g: SignalsView,
    updates: Seq<(Signal, ValueView)>,
)
    ensures
        ({
            let after = after_all(t, g, updates).0;
            &&& after.efficiency_percent == t.efficiency_percent
            &&& after.avg_efficiency_kwh == t.avg_efficiency_kwh
            &&& after.turn_distance_km == t.turn_distance_km
            &&& after.turn_street == t.turn_street
            &&& after.lca_on == t.lca_on
        }),
{
    derived_fields_follow_their_last_inputs(t, g, updates);
}

/// Active cruise counts before armed, a lane is watched only while lane keeping
/// is enabled, the high beam wins over the low one, any open door lights the
/// lamp, and power is a fraction of the largest, 150 kW until one is reported.
pub proof fn derived_fields_have_their_order(g: SignalsView)
    ensures
        g.cruise_active ==> cruise_of(g) == Cruise::Active,
        !g.cruise_active && g.cruise_enabled ==> cruise_of(g) == Cruise::Armed,
        lane_of(g) == Lane::Off <==> !g.lane_enabled,
        g.high_beam ==> beam_of(g) == Beam::High,
        !g.high_beam && g.low_beam ==> beam_of(g) == Beam::Low,
        any_open(g) <==> g.front_driver_open || g.front_passenger_open || g.rear_driver_open
            || g.rear_passenger_open,
        -1_000_000 <= power_of(g) <= 1_000_000,
        g.max_power is None && g.motor_power == 150_000_000 ==> power_of(g) == 1_000_000,
        g.max_power == Some(g.motor_power) && g.motor_power > 0 ==> power_of(g) == 1_000_000,
{
    if g.motor_power > 0 {
        rounding_is_exact_on_multiples(1_000_000, g.motor_power);
    }
}

/// Updates of different signals may come in either order.
pub proof fn updates_of_different_signals_commute(
    t: TelemetryView,
    g: SignalsView,
    a: (Signal, ValueView),
    b: (Signal, ValueView),
)
    requires
        a.0 != b.0,
    ensures
        after_all(t, g, seq![a, b]) == after_all(t, g, seq![b, a]),
{
    derived_fields_follow_their_last_inputs(t, g, seq![a, b]);
    derived_fields_follow_their_last_inputs(t, g, seq![b, a]);
    reveal_with_fuel(last_values, 3);
    assert(seq![a, b].drop_last() == seq![a]);
    assert(seq![b, a].drop_last() == seq![b]);
    assert(seq![a].drop_last() == Seq::<(Signal, ValueView)>::empty());
    assert(seq![b].drop_last() == Seq::<(Signal, ValueView)>::empty());
    assert(last_values(seq![a, b]) =~= last_values(seq![b, a]));
}

// ----- what is published arrives -----------------------------------------------------

/// A list of values, each of them present.
pub open spec fn present(v: Seq<(Seq<char>, ValueView)>) -> Seq<(Seq<char>, Option<ValueView>)> {
    Seq::new(v.len(), |i: int| (v[i].0, Some(v[i].1)))
}

/// Updates under the paths of their signals are updates of those signals.
proof fn paths_reach_their_signals(
    t: TelemetryView,
    g: SignalsView,
    updates: Seq<(Signal, ValueView)>,
)
    ensures
        folded(t, g, present(announced(updates))) == after_all(t, g, updates),
    decreases updates.len(),
{
    let all = present(announced(updates));
    if updates.len() > 0 {
        paths_reach_their_signals(t, g, updates.drop_last());
        assert(all.drop_last() == present(announced(updates.drop_last())));
        a_path_names_its_signal(updates.last().0);
    }
}

/// A value that is the only one of its signal is the last one.
proof fn an_only_value_is_the_last(updates: Seq<(Signal, ValueView)>, k: int)
    requires
        0 <= k < updates.len(),
        fits(updates[k].0, updates[k].1),
        forall|j: int| 0 <= j < updates.len() && j != k ==> updates[j].0 != updates[k].0,
    ensures
        last_values(updates)(updates[k].0) == Some(updates[k].1),
    decreases updates.len(),
{
    if k < updates.len() - 1 {
        an_only_value_is_the_last(updates.drop_last(), k);
    }
}

/// The four flags of cruise control and lane keeping as updates.
pub open spec fn assistance_updates(
    cruise_enabled: bool,
    cruise_active: bool,
    lane_enabled: bool,
    lane_warning: bool,
) -> Seq<(Signal, ValueView)> {
    seq![
        (Signal::CruiseEnabled, ValueView::Bool(cruise_enabled)),
        (Signal::CruiseActive, ValueView::Bool(cruise_active)),
        (Signal::LaneEnabled, ValueView::Bool(lane_enabled)),
        (Signal::LaneWarning, ValueView::Bool(lane_warning)),
    ]
}

/// Cruise control and lane keeping are shown by their four flags, in whichever
/// order these come: active cruise counts before enabled, and a warning only
/// while lane keeping is enabled.
pub proof fn assistance_flags_may_come_in_any_order(
    t: TelemetryView,
    g: SignalsView,
    enabled: bool,
    active: bool,
    lane: bool,
    warning: bool,
    updates: Seq<(Signal, ValueView)>,
)
    requires
        updates.len() == 4,
        forall|i: int|
            0 <= i < 4 ==> updates.contains(
                #[trigger] assistance_updates(enabled, active, lane, warning)[i],
            ),
    ensures
        ({
            let after = after_all(t, g, updates).0;
            &&& folded(t, g, present(announced(updates))).0 == after
            &&& after.cruise == if active {
                Cruise::Active
            } else if enabled {
                Cruise::Armed
            } else {
                Cruise::Off
            }
            &&& after.lane == if !lane {
                Lane::Off
            } else if warning {
                Lane::Warn
            } else {
                Lane::Tracking
            }
            &&& after.lta_on == lane
        }),
{
    let all = assistance_updates(enabled, active, lane, warning);
    assert(updates.contains(all[0]) && updates.contains(all[1]) && updates.contains(all[2])
        && updates.contains(all[3]));
    let a = updates.index_of(all[0]);
    let b = updates.index_of(all[1]);
    let c = updates.index_of(all[2]);
    let d = updates.index_of(all[3]);
    assert(updates[a] == all[0] && updates[b] == all[1] && updates[c] == all[2] && updates[d]
        == all[3]);
    an_only_value_is_the_last(updates, a);
    an_only_value_is_the_last(updates, b);
    an_only_value_is_the_last(updates, c);
    an_only_value_is_the_last(updates, d);
    derived_fields_follow_their_last_inputs(t, g, updates);
    paths_reach_their_signals(t, g, updates);
}

/// Where a signal stands in the list of published ones.
spec fn slot(s: Signal) -> int {
    match s {
        Signal::Speed => 0,
        Signal::TraveledDistance => 1,
        Signal::TripDuration => 2,
        Signal::AirTemperature => 3,
        Signal::SystemState => 4,
        Signal::BatteryVoltage => 5,
        Signal::Range => 6,
        Signal::StateOfCharge => 7,
        Signal::FuelLevel => 8,
        Signal::MaxPower => 9,
        Signal::MotorPower => 10,
        Signal::SelectedGear => 11,
        Signal::OilLevel => 12,
        Signal::MilOn => 13,
        Signal::CruiseEnabled => 14,
        Signal::CruiseActive => 15,
        Signal::CruiseSpeed => 16,
        Signal::LaneEnabled => 17,
        Signal::LaneWarning => 18,
        Signal::AbsError => 19,
        Signal::TurnLeft => 20,
        Signal::TurnRight => 21,
        Signal::LowBeam => 22,
        Signal::HighBeam => 23,
        Signal::ParkingBrake => 24,
        Signal::Belted => 25,
        Signal::FrontDriverDoor => 26,
        _ => -1,
    }
}

proof fn published_in_their_slots(t: TelemetryView, i: int)
    requires
        0 <= i < 27,
    ensures
        published(t).len() == 27,
        slot(published(t)[i].0) == i,
        fits(published(t)[i].0, published(t)[i].1),
{
    what_is_published_is_accepted(t, i);
    published_in_four_groups(t, i);
}

/// The last value of a published signal is the one published.
proof fn last_is_published(t: TelemetryView, n: int, s: Signal)
    requires
        0 <= n <= 27,
    ensures
        last_values(published(t).take(n))(s) == if 0 <= slot(s) < n {
            Some(published(t)[slot(s)].1)
        } else {
            None
        },
    decreases n,
{
    if n > 0 {
        last_is_published(t, n - 1, s);
        published_in_their_slots(t, n - 1);
        let shorter = published(t).take(n - 1);
        assert(published(t).take(n).drop_last() == shorter);
        assert(published(t).take(n).last() == published(t)[n - 1]);
        if slot(s) == n - 1 {
            same_slot(s, published(t)[n - 1].0);
        }
    }
}

proof fn same_slot(a: Signal, b: Signal)
    requires
        slot(a) == slot(b) >= 0,
    ensures
        a == b,
{
}

spec fn has_motion_values(last: Last, t: TelemetryView) -> bool {
    &&& last(Signal::Speed) == Some(ValueView::Float(t.speed_kmh))
    &&& last(Signal::TraveledDistance) == Some(ValueView::Float(t.odo_km))
    &&& last(Signal::TripDuration) == Some(ValueView::Float((1_000_000 * t.trip_seconds) as i64))
    &&& last(Signal::AirTemperature) == Some(
        ValueView::Float((1_000_000 * t.outside_temp_c) as i64),
    )
    &&& last(Signal::SystemState) == Some(ValueView::String(state_text(t.ready)))
    &&& last(Signal::BatteryVoltage) == Some(ValueView::Float(typical_voltage(t.battery_warn)))
}

proof fn last_motion_values(t: TelemetryView)
    ensures
        has_motion_values(last_values(published(t)), t),
{
    published_in_their_slots(t, 0);
    assert(published(t).take(27) == published(t));
    last_is_published(t, 27, Signal::Speed);
    assert(published(t)[0] == motion_signals(t)[0]);
    last_is_published(t, 27, Signal::TraveledDistance);
    assert(published(t)[1] == motion_signals(t)[1]);
    last_is_published(t, 27, Signal::TripDuration);
    assert(published(t)[2] == motion_signals(t)[2]);
    last_is_published(t, 27, Signal::AirTemperature);
    assert(published(t)[3] == motion_signals(t)[3]);
    last_is_published(t, 27, Signal::SystemState);
    assert(published(t)[4] == motion_signals(t)[4]);
    last_is_published(t, 27, Signal::BatteryVoltage);
    assert(published(t)[5] == motion_signals(t)[5]);
}

spec fn has_energy_values(last: Last, t: TelemetryView) -> bool {
    &&& last(Signal::Range) == Some(ValueView::Uint32(whole_metres(t.range_km)))
    &&& last(Signal::StateOfCharge) == Some(ValueView::Float(as_micro(100 * t.battery_level)))
    &&& last(Signal::FuelLevel) == Some(ValueView::Uint32(whole_percent(t.fuel_level)))
    &&& last(Signal::MaxPower) == Some(ValueView::Uint32(150))
    &&& last(Signal::MotorPower) == Some(ValueView::Int32(kilowatts(t.power)))
    &&& last(Signal::SelectedGear) == Some(ValueView::Int32(gear_number(t.gear)))
    &&& last(Signal::OilLevel) == Some(ValueView::String(oil_text(t.oil)))
    &&& last(Signal::MilOn) == Some(ValueView::Bool(t.engine != Warn::Off))
}

proof fn last_energy_values(t: TelemetryView)
    ensures
        has_energy_values(last_values(published(t)), t),
{
    published_in_their_slots(t, 0);
    assert(published(t).take(27) == published(t));
    last_is_published(t, 27, Signal::Range);
    assert(published(t)[6] == energy_signals(t)[0]);
    last_is_published(t, 27, Signal::StateOfCharge);
    assert(published(t)[7] == energy_signals(t)[1]);
    last_is_published(t, 27, Signal::FuelLevel);
    assert(published(t)[8] == energy_signals(t)[2]);
    last_is_published(t, 27, Signal::MaxPower);
    assert(published(t)[9] == energy_signals(t)[3]);
    last_is_published(t, 27, Signal::MotorPower);
    assert(published(t)[10] == energy_signals(t)[4]);
    last_is_published(t, 27, Signal::SelectedGear);
    assert(published(t)[11] == energy_signals(t)[5]);
    last_is_published(t, 27, Signal::OilLevel);
    assert(published(t)[12] == energy_signals(t)[6]);
    last_is_published(t, 27, Signal::MilOn);
    assert(published(t)[13] == energy_signals(t)[7]);
}

spec fn has_assistance_values(last: Last, t: TelemetryView) -> bool {
    &&& last(Signal::CruiseEnabled) == Some(ValueView::Bool(t.cruise != Cruise::Off))
    &&& last(Signal::CruiseActive) == Some(ValueView::Bool(t.cruise == Cruise::Active))
    &&& last(Signal::CruiseSpeed) == Some(ValueView::Float(t.cruise_speed_kmh))
    &&& last(Signal::LaneEnabled) == Some(ValueView::Bool(t.lane != Lane::Off))
    &&& last(Signal::LaneWarning) == Some(
        ValueView::Bool(t.lane == Lane::Warn || t.lane == Lane::Depart),
    )
    &&& last(Signal::AbsError) == Some(ValueView::Bool(t.abs != Warn::Off))
}

proof fn last_assistance_values(t: TelemetryView)
    ensures
        has_assistance_values(last_values(published(t)), t),
{
    published_in_their_slots(t, 0);
    assert(published(t).take(27) == published(t));
    last_is_published(t, 27, Signal::CruiseEnabled);
    assert(published(t)[14] == assistance_signals(t)[0]);
    last_is_published(t, 27, Signal::CruiseActive);
    assert(published(t)[15] == assistance_signals(t)[1]);
    last_is_published(t, 27, Signal::CruiseSpeed);
    assert(published(t)[16] == assistance_signals(t)[2]);
    last_is_published(t, 27, Signal::LaneEnabled);
    assert(published(t)[17] == assistance_signals(t)[3]);
    last_is_published(t, 27, Signal::LaneWarning);
    assert(published(t)[18] == assistance_signals(t)[4]);
    last_is_published(t, 27, Signal::AbsError);
    assert(published(t)[19] == assistance_signals(t)[5]);
}

spec fn has_body_values(last: Last, t: TelemetryView) -> bool {
    &&& last(Signal::TurnLeft) == Some(ValueView::Bool(t.turn_left))
    &&& last(Signal::TurnRight) == Some(ValueView::Bool(t.turn_right))
    &&& last(Signal::LowBeam) == Some(ValueView::Bool(t.headlights == Beam::Low))
    &&& last(Signal::HighBeam) == Some(ValueView::Bool(t.headlights == Beam::High))
    &&& last(Signal::ParkingBrake) == Some(ValueView::Bool(t.parking_brake))
    &&& last(Signal::Belted) == Some(ValueView::Bool(!t.seatbelt))
    &&& last(Signal::FrontDriverDoor) == Some(ValueView::Bool(t.door_open))
    &&& last(Signal::FrontPassengerDoor) is None
    &&& last(Signal::RearDriverDoor) is None
    &&& last(Signal::RearPassengerDoor) is None
}

proof fn last_body_values(t: TelemetryView)
    ensures
        has_body_values(last_values(published(t)), t),
{
    published_in_their_slots(t, 0);
    assert(published(t).take(27) == published(t));
    last_is_published(t, 27, Signal::TurnLeft);
    assert(published(t)[20] == body_signals(t)[0]);
    last_is_published(t, 27, Signal::TurnRight);
    assert(published(t)[21] == body_signals(t)[1]);
    last_is_published(t, 27, Signal::LowBeam);
    assert(published(t)[22] == body_signals(t)[2]);
    last_is_published(t, 27, Signal::HighBeam);
    assert(published(t)[23] == body_signals(t)[3]);
    last_is_published(t, 27, Signal::ParkingBrake);
    assert(published(t)[24] == body_signals(t)[4]);
    last_is_published(t, 27, Signal::Belted);
    assert(published(t)[25] == body_signals(t)[5]);
    last_is_published(t, 27, Signal::FrontDriverDoor);
    assert(published(t)[26] == body_signals(t)[6]);
    last_is_published(t, 27, Signal::FrontPassengerDoor);
    last_is_published(t, 27, Signal::RearDriverDoor);
    last_is_published(t, 27, Signal::RearPassengerDoor);
}

/// `t` as a subscriber sees it that showed `t0` and knew the raw signals `g`:
/// the range to the metre, the fuel to the percent and the power to the kW; an
/// engine lamp is amber, an ABS lamp red, a departure a warning, a gear other
/// than 'P', 'R' and 'N' is 'D', and what has no path is what it was.
pub open spec fn over_the_broker(
    t0: TelemetryView,
    g: SignalsView,
    t: TelemetryView,
) -> TelemetryView {
    TelemetryView {
        power: clamped(
            div_round(1_000_000 * (1_000_000 * kilowatts(t.power)), 150_000_000),
            -1_000_000,
            1_000_000,
        ) as i64,
        efficiency_percent: t0.efficiency_percent,
        avg_efficiency_kwh: t0.avg_efficiency_kwh,
        range_km: (1_000 * whole_metres(t.range_km)) as i64,
        battery_level: clamped(t.battery_level as int, 0, 1_000_000) as i64,
        fuel_level: (10_000 * clamped(rounded_product(t.fuel_level as int, 100), 0, 100)) as i64,
        turn_distance_km: t0.turn_distance_km,
        turn_street: t0.turn_street,
        lta_on: t.lane != Lane::Off,
        lca_on: t0.lca_on,
        gear: if t.gear == 'P' || t.gear == 'R' || t.gear == 'N' {
            t.gear
        } else {
            'D'
        },
        engine: lamp_if(t.engine != Warn::Off, Warn::Amber),
        abs: lamp_if(t.abs != Warn::Off, Warn::Red),
        door_open: t.door_open || g.front_passenger_open || g.rear_driver_open
            || g.rear_passenger_open,
        lane: if t.lane == Lane::Depart {
            Lane::Warn
        } else {
            t.lane
        },
        ..t
    }
}

proof fn numbers_arrive(t: TelemetryView)
    ensures
        as_micro(t.speed_kmh as int) == t.speed_kmh,
        whole_units(1_000_000 * t.trip_seconds) == t.trip_seconds,
        nearest_i32(1_000_000 * t.outside_temp_c) == t.outside_temp_c,
        as_micro(div_round(1_000_000 * whole_metres(t.range_km), 1_000)) == (1_000 * whole_metres(
            t.range_km,
        )) as i64,
        fraction(as_micro(100 * t.battery_level) as int) == clamped(
            t.battery_level as int,
            0,
            1_000_000,
        ),
        fraction(1_000_000 * whole_percent(t.fuel_level)) == 10_000 * clamped(
            rounded_product(t.fuel_level as int, 100),
            0,
            100,
        ),
{
    rounding_is_exact_on_multiples(t.outside_temp_c as int, 1_000_000);
    let metres = whole_metres(t.range_km);
    rounding_is_exact_on_multiples(1_000 * metres, 1_000);
    rounding_is_exact_on_multiples(t.battery_level as int, 100);
    rounding_is_exact_on_multiples(10_000 * whole_percent(t.fuel_level), 100);
}

proof fn lamps_and_words_arrive(t: TelemetryView)
    ensures
        state_text(t.ready) == "ON"@ || state_text(t.ready) == "START"@ <==> t.ready,
        oil_warning(oil_text(t.oil)) == t.oil,
        voltage_warning(typical_voltage(t.battery_warn) as int) == t.battery_warn,
        gear_of(1_000_000 * gear_number(t.gear)) == if t.gear == 'P' || t.gear == 'R' || t.gear
            == 'N' {
            t.gear
        } else {
            'D'
        },
{
    reveal_strlit("ON");
    reveal_strlit("ACC");
    reveal_strlit("START");
    reveal_strlit("LOW");
    reveal_strlit("NORMAL");
    reveal_strlit("CRITICALLY_LOW");
    assert("ACC"@.len() == 3);
    assert("LOW"@[0] != "ACC"@[0]);
    assert("NORMAL"@.len() == 6);
}

proof fn numbers_are_shown(
    t0: TelemetryView,
    g: SignalsView,
    t: TelemetryView,
    last: Last,
)
    requires
        has_motion_values(last, t),
        has_energy_values(last, t),
        has_assistance_values(last, t),
    ensures
        ({
            let shown = shown_from(t0, raw_from(g, last), last);
            let expected = over_the_broker(t0, g, t);
            &&& shown.speed_kmh == expected.speed_kmh
            &&& shown.range_km == expected.range_km
            &&& shown.battery_level == expected.battery_level
            &&& shown.fuel_level == expected.fuel_level
            &&& shown.outside_temp_c == expected.outside_temp_c
            &&& shown.odo_km == expected.odo_km
            &&& shown.trip_seconds == expected.trip_seconds
            &&& shown.cruise_speed_kmh == expected.cruise_speed_kmh
            &&& shown.gear == expected.gear
            &&& shown.battery_warn == expected.battery_warn
        }),
{
    numbers_arrive(t);
    lamps_and_words_arrive(t);
}

proof fn flags_are_shown(
    t0: TelemetryView,
    g: SignalsView,
    t: TelemetryView,
    last: Last,
)
    requires
        has_motion_values(last, t),
        has_energy_values(last, t),
        has_assistance_values(last, t),
        has_body_values(last, t),
    ensures
        ({
            let shown = shown_from(t0, raw_from(g, last), last);
            let expected = over_the_broker(t0, g, t);
            &&& shown.lta_on == expected.lta_on
            &&& shown.ready == expected.ready
            &&& shown.turn_left == expected.turn_left
            &&& shown.turn_right == expected.turn_right
            &&& shown.engine == expected.engine
            &&& shown.oil == expected.oil
            &&& shown.abs == expected.abs
            &&& shown.parking_brake == expected.parking_brake
            &&& shown.seatbelt == expected.seatbelt
        }),
{
    lamps_and_words_arrive(t);
}

proof fn derived_are_shown(
    t0: TelemetryView,
    g: SignalsView,
    t: TelemetryView,
    last: Last,
)
    requires
        has_energy_values(last, t),
        has_assistance_values(last, t),
        has_body_values(last, t),
    ensures
        ({
            let shown = shown_from(t0, raw_from(g, last), last);
            let expected = over_the_broker(t0, g, t);
            &&& shown.power == expected.power
            &&& shown.headlights == expected.headlights
            &&& shown.door_open == expected.door_open
            &&& shown.cruise == expected.cruise
            &&& shown.lane == expected.lane
        }),
{
    let raw = raw_from(g, last);
    assert(raw.motor_power == 1_000_000 * kilowatts(t.power));
    assert(raw.max_power == Some(150_000_000int));
}

/// What is published arrives: whatever a subscriber showed before, once it has
/// applied the published signals it shows every field that has a path, to the
/// resolution of the path's type, and nothing else has changed.
pub proof fn what_is_published_arrives(t0: TelemetryView, g: SignalsView, t: TelemetryView)
    ensures
        folded(t0, g, present(announced(published(t)))).0 == over_the_broker(t0, g, t),
{
    let last = last_values(published(t));
    paths_reach_their_signals(t0, g, published(t));
    derived_fields_follow_their_last_inputs(t0, g, published(t));
    last_motion_values(t);
    last_energy_values(t);
    last_assistance_values(t);
    last_body_values(t);
    all_is_shown(t0, g, t, last);
}

proof fn all_is_shown(
    t0: TelemetryView,
    g: SignalsView,
    t: TelemetryView,
    last: Last,
)
    requires
        has_motion_values(last, t),
        has_energy_values(last, t),
        has_assistance_values(last, t),
        has_body_values(last, t),
    ensures
        shown_from(t0, raw_from(g, last), last) == over_the_broker(t0, g, t),
{
    numbers_are_shown(t0, g, t, last);
    flags_are_shown(t0, g, t, last);
    derived_are_shown(t0, g, t, last);
    same_fields(shown_from(t0, raw_from(g, last), last), over_the_broker(t0, g, t));
}

/// Within its range a field that is published in coarser units arrives to half
/// a kW of 150, to half a percent, and to the metre; of the metres of a long
/// range single precision leaves out a four-millionth part.
pub proof fn published_fields_arrive_within_their_resolution(
    t0: TelemetryView,
    g: SignalsView,
    t: TelemetryView,
)
    ensures
        -1_000_000 <= t.power <= 1_000_000 ==> -3_333 <= over_the_broker(t0, g, t).power - t.power
            <= 3_333,
        0 <= t.fuel_level <= 1_000_000 ==> -5_000 <= over_the_broker(t0, g, t).fuel_level
            - t.fuel_level <= 5_000,
        0 <= t.battery_level <= 1_000_000 ==> over_the_broker(t0, g, t).battery_level
            == t.battery_level,
        0 <= t.range_km <= 4_294_967_295_000 ==> -(t.range_km as int / 4_194_304) <= t.range_km
            - over_the_broker(t0, g, t).range_km <= 1_000 + t.range_km as int / 4_194_304,
{
    if -1_000_000 <= t.power <= 1_000_000 {
        power_arrives(t.power);
    }
    if 0 <= t.fuel_level <= 1_000_000 {
        counting_steps_is_near(t.fuel_level as int, 100, 10_000);
    }
    if 0 <= t.range_km <= 4_294_967_295_000 {
        a_product_is_near(t.range_km as int, 1_000, 1_000);
    }
}

proof fn power_arrives(power: Micro)
    requires
        -1_000_000 <= power <= 1_000_000,
    ensures
        ({
            let back = clamped(
                div_round(1_000_000 * (1_000_000 * kilowatts(power)), 150_000_000),
                -1_000_000,
                1_000_000,
            );
            -3_333 <= back - power <= 3_333
        }),
{
    let size = if power < 0 {
        -power as int
    } else {
        power as int
    };
    a_single_is_near(size);
    spacing_in_proportion(size, 1);
    rounding_is_nearest(150 * single(size), SINGLE_UNIT as int);
    let kw = div_round(150 * single(size), SINGLE_UNIT as int);
    assert(0 <= kw <= 150);
    rounding_is_nearest(1_000_000 * (1_000_000 * kw), 150_000_000);
    rounding_is_nearest(-(1_000_000 * (1_000_000 * kw)), 150_000_000);
}

// ----- sending what changed ------------------------------------------------------------

/// Exactly what has no value yet, or another one, is sent.
pub proof fn exactly_what_changed_is_sent(
    last: Seq<(Seq<char>, ValueView)>,
    now: Seq<(Seq<char>, ValueView)>,
    i: int,
)
    ensures
        changes(last, now).contains(i) <==> 0 <= i < now.len() && !(i < last.len() && last[i].1
            == now[i].1),
    decreases now.len(),
{
    if now.len() > 0 {
        let n = now.len() - 1;
        let before = changes(last, now.drop_last());
        exactly_what_changed_is_sent(last, now.drop_last(), i);
        exactly_what_changed_is_sent(last, now.drop_last(), n);
        if !(n < last.len() && last[n].1 == now[n].1) {
            let all = before.push(n);
            if before.contains(i) {
                let k = before.index_of(i);
                assert(all[k] == i);
            }
            if i == n {
                assert(all[before.len() as int] == i);
            }
            if all.contains(i) && i != n {
                let k = all.index_of(i);
                assert(before[k] == i);
            }
        }
    }
}

/// The entries of `v` at the places `at`.
pub open spec fn selected(v: Seq<(Signal, ValueView)>, at: Seq<int>) -> Seq<(Signal, ValueView)> {
    Seq::new(at.len(), |k: int| v[at[k]])
}

/// Later updates count before earlier ones.
proof fn later_updates_count_first(
    a: Seq<(Signal, ValueView)>,
    b: Seq<(Signal, ValueView)>,
    s: Signal,
)
    ensures
        last_values(a + b)(s) == if last_values(b)(s) is Some {
            last_values(b)(s)
        } else {
            last_values(a)(s)
        },
    decreases b.len(),
{
    if b.len() == 0 {
        assert(a + b == a);
    } else {
        later_updates_count_first(a, b.drop_last(), s);
        assert((a + b).drop_last() == a + b.drop_last());
    }
}

proof fn last_is_what_changed(t: TelemetryView, u: TelemetryView, n: int, s: Signal)
    requires
        0 <= n <= 27,
    ensures
        ({
            let sent = changes(announced(published(t)), announced(published(u)).take(n));
            last_values(selected(published(u), sent))(s) == if 0 <= slot(s) < n && published(
                t,
            )[slot(s)].1 != published(u)[slot(s)].1 {
                Some(published(u)[slot(s)].1)
            } else {
                None
            }
        }),
    decreases n,
{
    if n > 0 {
        last_is_what_changed(t, u, n - 1, s);
        published_in_their_slots(t, n - 1);
        published_in_their_slots(u, n - 1);
        let old_list = announced(published(t));
        let new_list = announced(published(u));
        assert(new_list.take(n).drop_last() == new_list.take(n - 1));
        let before = changes(old_list, new_list.take(n - 1));
        let chosen = selected(published(u), before);
        if published(t)[n - 1].1 != published(u)[n - 1].1 {
            let more = selected(published(u), before.push(n - 1));
            assert(more.drop_last() == chosen);
            assert(more.last() == published(u)[n - 1]);
        }
        if slot(s) == n - 1 {
            same_slot(s, published(u)[n - 1].0);
        }
    }
}

/// Sending what changed is enough: a subscriber that has everything published of
/// `t` shows the same after what changed in `u` as after all of `u`.
pub proof fn sending_what_changed_is_enough(
    t0: TelemetryView,
    g: SignalsView,
    t: TelemetryView,
    u: TelemetryView,
)
    ensures
        ({
            let sent = changes(announced(published(t)), announced(published(u)));
            after_all(t0, g, published(t) + selected(published(u), sent)) == after_all(
                t0,
                g,
                published(t) + published(u),
            )
        }),
{
    let sent = changes(announced(published(t)), announced(published(u)));
    let some = published(t) + selected(published(u), sent);
    let all = published(t) + published(u);
    derived_fields_follow_their_last_inputs(t0, g, some);
    derived_fields_follow_their_last_inputs(t0, g, all);
    published_in_their_slots(t, 0);
    published_in_their_slots(u, 0);
    assert(announced(published(u)).take(27) == announced(published(u)));
    assert(published(t).take(27) == published(t));
    assert(published(u).take(27) == published(u));
    assert forall|s: Signal| #[trigger] last_values(some)(s) == last_values(all)(s) by {
        later_updates_count_first(published(t), selected(published(u), sent), s);
        later_updates_count_first(published(t), published(u), s);
        last_is_what_changed(t, u, 27, s);
        last_is_published(t, 27, s);
        last_is_published(u, 27, s);
    }
    assert(last_values(some) =~= last_values(all));
}

} // verus!
