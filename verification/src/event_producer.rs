//! The simulated activity of the test gateway: which event a tick produces for a device, given
//! what the random source drew.
use vstd::prelude::*;
use vstd::string::StringExecFns;
use crate::api::{contains_sub, str_contains};
use crate::json::{JsonNumber, JsonValue, JsonView, json_view};
use crate::state::{ButtonPressType, DeviceEvent, DeviceEventView, EventTypeView, EventType, Timestamp};

verus! {

/// Which simulated activity runs.
#[derive(Debug, Clone, Copy, PartialEq, Eq, Structural)]
pub enum EventScenario {
    /// An event every half second or so, of a kind drawn at random.
    BasicHome,
    /// Quieter activity that follows the kind of device, with an occasional battery drain.
    AmbientActivity,
}

/// The activity a test gateway's scenario runs: the ambient scenario's own, else the basic
/// home's.
pub fn event_scenario_of(scenario: &str) -> (res: EventScenario)
    ensures
        res == (if scenario@ == "ambient"@ { EventScenario::AmbientActivity } else { EventScenario::BasicHome }),
{
    if crate::text::str_eq(scenario, "ambient") {
        EventScenario::AmbientActivity
    } else {
        EventScenario::BasicHome
    }
}

/// A simulated change, with the values the random source drew for it.
#[derive(Debug, Clone, Copy, PartialEq, Eq, Structural)]
pub enum SimulatedChange {
    /// The `on` attribute changed.
    On { old: bool, new: bool },
    /// The `brightness` attribute changed.
    Brightness { old: u8, new: u8 },
    /// The `main` button was pressed.
    Button { press: ButtonPressType },
    /// The `is_detected` attribute went from `false` to `detected`.
    Motion { detected: bool },
    /// The `temperature` attribute changed; each value is the bits of the number's double.
    Temperature { old_bits: u64, new_bits: u64 },
    /// The device came online or went offline.
    Reachability { reachable: bool },
    /// The battery level dropped.
    Battery { old_level: u8, new_level: u8 },
}

/// What an attribute change looks like in an event.
pub open spec fn attribute_change(attribute: Seq<char>, old_value: JsonView, new_value: JsonView) -> EventTypeView {
    EventTypeView::AttributeChanged { attribute, old_value, new_value }
}

/// The event a simulated change makes for `device_id` at `now`.
pub open spec fn simulated_event_view(device_id: Seq<char>, change: SimulatedChange, now: Timestamp) -> DeviceEventView {
    DeviceEventView {
        timestamp: now,
        device_id,
        event_type: match change {
            SimulatedChange::On { old, new } => attribute_change("on"@, JsonView::Bool(old), JsonView::Bool(new)),
            SimulatedChange::Brightness { old, new } => attribute_change("brightness"@,
                JsonView::Number(JsonNumber::PosInt(old as u64)), JsonView::Number(JsonNumber::PosInt(new as u64))),
            SimulatedChange::Button { press } => EventTypeView::ButtonPressed { button_id: "main"@, press_type: press },
            SimulatedChange::Motion { detected } => attribute_change("is_detected"@, JsonView::Bool(false), JsonView::Bool(detected)),
            SimulatedChange::Temperature { old_bits, new_bits } => attribute_change("temperature"@,
                JsonView::Number(JsonNumber::Float(old_bits)), JsonView::Number(JsonNumber::Float(new_bits))),
            SimulatedChange::Reachability { reachable } => EventTypeView::DeviceReachabilityChanged { reachable },
            SimulatedChange::Battery { old_level, new_level } => EventTypeView::BatteryLevelChanged { old_level, new_level },
        },
    }
}

fn attribute_event(device_id: String, attribute: &str, old_value: JsonValue, new_value: JsonValue, now: Timestamp)
    -> (res: DeviceEvent)
    ensures
        res@ == (DeviceEventView { timestamp: now, device_id: device_id@,
            event_type: attribute_change(attribute@, json_view(old_value), json_view(new_value)) }),
{
    DeviceEvent {
        timestamp: now,
        device_id,
        event_type: EventType::AttributeChanged { attribute: String::from_str(attribute), old_value, new_value },
    }
}

/// The event a simulated change makes for `device_id` at `now`.
pub fn simulated_event(device_id: String, change: SimulatedChange, now: Timestamp) -> (res: DeviceEvent)
    ensures
        res@ == simulated_event_view(device_id@, change, now),
{
    match change {
        SimulatedChange::On { old, new } =>
            attribute_event(device_id, "on", JsonValue::Bool(old), JsonValue::Bool(new), now),
        SimulatedChange::Brightness { old, new } => attribute_event(device_id, "brightness",
            JsonValue::Number(JsonNumber::PosInt(old as u64)), JsonValue::Number(JsonNumber::PosInt(new as u64)), now),
        SimulatedChange::Button { press } => DeviceEvent {
            timestamp: now,
            device_id,
            event_type: EventType::ButtonPressed { button_id: String::from_str("main"), press_type: press },
        },
        SimulatedChange::Motion { detected } =>
            attribute_event(device_id, "is_detected", JsonValue::Bool(false), JsonValue::Bool(detected), now),
        SimulatedChange::Temperature { old_bits, new_bits } => attribute_event(device_id, "temperature",
            JsonValue::Number(JsonNumber::Float(old_bits)), JsonValue::Number(JsonNumber::Float(new_bits)), now),
        SimulatedChange::Reachability { reachable } => DeviceEvent {
            timestamp: now,
            device_id,
            event_type: EventType::DeviceReachabilityChanged { reachable },
        },
        SimulatedChange::Battery { old_level, new_level } => DeviceEvent {
            timestamp: now,
            device_id,
            event_type: EventType::BatteryLevelChanged { old_level, new_level },
        },
    }
}

/// The kind of change a tick of the basic-home scenario makes, once it has drawn a device and
/// a roll in `0..6`.
#[derive(Debug, Clone, Copy, PartialEq, Eq, Structural)]
pub enum BasicHomeKind {
    On,
    Brightness,
    Button,
    Motion,
    Temperature,
    Reachability,
}

/// The basic-home kind for a roll: 0 and 1 toggle on/off and brightness on any device; 2, 3 and
/// 4 press a button, detect motion and change the temperature, but only on a device whose id
/// names a switch, a motion sensor or a temperature sensor; anything else changes reachability.
pub open spec fn basic_home_kind_spec(device_id: Seq<char>, roll: u8) -> BasicHomeKind {
    if roll == 0 {
        BasicHomeKind::On
    } else if roll == 1 {
        BasicHomeKind::Brightness
    } else if roll == 2 && contains_sub(device_id, "switch"@) {
        BasicHomeKind::Button
    } else if roll == 3 && contains_sub(device_id, "motion"@) {
        BasicHomeKind::Motion
    } else if roll == 4 && contains_sub(device_id, "temperature"@) {
        BasicHomeKind::Temperature
    } else {
        BasicHomeKind::Reachability
    }
}

/// The basic-home kind for a roll.
pub fn basic_home_kind(device_id: &str, roll: u8) -> (res: BasicHomeKind)
    ensures
        res == basic_home_kind_spec(device_id@, roll),
{
    if roll == 0 {
        BasicHomeKind::On
    } else if roll == 1 {
        BasicHomeKind::Brightness
    } else if roll == 2 && str_contains(device_id, "switch") {
        BasicHomeKind::Button
    } else if roll == 3 && str_contains(device_id, "motion") {
        BasicHomeKind::Motion
    } else if roll == 4 && str_contains(device_id, "temperature") {
        BasicHomeKind::Temperature
    } else {
        BasicHomeKind::Reachability
    }
}

/// The press a roll in `0..3` stands for: single, double, then long for any other roll.
pub fn press_of_roll(roll: u8) -> (res: ButtonPressType)
    ensures
        res == (if roll == 0 { ButtonPressType::SinglePress } else if roll == 1 { ButtonPressType::DoublePress }
            else { ButtonPressType::LongPress }),
{
    if roll == 0 {
        ButtonPressType::SinglePress
    } else if roll == 1 {
        ButtonPressType::DoublePress
    } else {
        ButtonPressType::LongPress
    }
}

/// The kind of change the ambient scenario makes for a device, by what its id names.
#[derive(Debug, Clone, Copy, PartialEq, Eq, Structural)]
pub enum AmbientKind {
    Light,
    Motion,
    Switch,
    Temperature,
    Outlet,
    /// Nothing happens to the device.
    Quiet,
}

/// The ambient kind of a device: the first of light, motion, switch, temperature and outlet
/// that its id names; a device that names none stays quiet.
pub open spec fn ambient_kind_spec(device_id: Seq<char>) -> AmbientKind {
    if contains_sub(device_id, "light"@) {
        AmbientKind::Light
    } else if contains_sub(device_id, "motion"@) {
        AmbientKind::Motion
    } else if contains_sub(device_id, "switch"@) {
        AmbientKind::Switch
    } else if contains_sub(device_id, "temperature"@) {
        AmbientKind::Temperature
    } else if contains_sub(device_id, "outlet"@) {
        AmbientKind::Outlet
    } else {
        AmbientKind::Quiet
    }
}

/// The ambient kind of a device.
pub fn ambient_kind(device_id: &str) -> (res: AmbientKind)
    ensures
        res == ambient_kind_spec(device_id@),
{
    if str_contains(device_id, "light") {
        AmbientKind::Light
    } else if str_contains(device_id, "motion") {
        AmbientKind::Motion
    } else if str_contains(device_id, "switch") {
        AmbientKind::Switch
    } else if str_contains(device_id, "temperature") {
        AmbientKind::Temperature
    } else if str_contains(device_id, "outlet") {
        AmbientKind::Outlet
    } else {
        AmbientKind::Quiet
    }
}

/// Whether the ambient scenario drains a device's battery: switches and motion sensors only.
pub open spec fn has_battery_spec(device_id: Seq<char>) -> bool {
    contains_sub(device_id, "switch"@) || contains_sub(device_id, "motion"@)
}

/// The battery drain of the ambient scenario: a level drawn in `50..=100` drops by a drawn
/// `1..=5`, on a switch or a motion sensor; other devices have no battery event.
pub fn battery_drain(device_id: String, old_level: u8, drop: u8, now: Timestamp) -> (res: Option<DeviceEvent>)
    requires
        50 <= old_level <= 100,
        1 <= drop <= 5,
    ensures
        has_battery_spec(device_id@) ==> (res matches Some(e)
            && e@ == simulated_event_view(device_id@, SimulatedChange::Battery { old_level, new_level: (old_level - drop) as u8 }, now)),
        !has_battery_spec(device_id@) ==> res is None,
{
    if str_contains(device_id.as_str(), "switch") || str_contains(device_id.as_str(), "motion") {
        Some(simulated_event(device_id, SimulatedChange::Battery { old_level, new_level: old_level - drop }, now))
    } else {
        None
    }
}

} // verus!
