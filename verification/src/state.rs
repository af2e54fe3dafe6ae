//! Shared device, state and event types.
use vstd::prelude::*;
use crate::text::str_eq;
use crate::json::{JsonValue, JsonView, json_view, json_object_view, clone_members};

verus! {

/// Identifier of a device.
pub type DeviceId = String;

/// Milliseconds since the Unix epoch.
pub type Timestamp = u64;

/// Envelope for every message on the binary request/response protocol.
pub struct Message {
    pub correlation_id: String,
    pub message_type: MessageType,
    /// CBOR-encoded payload.
    pub payload: Vec<u8>,
    pub timestamp: Timestamp,
}

#[derive(Clone, Copy, Debug, PartialEq, Eq, Structural)]
pub enum MessageType {
    Request,
    Response,
    Event,
    Error,
}

/// The kind of a device.
#[derive(Debug)]
pub enum DeviceType {
    Light,
    Switch,
    Sensor,
    Outlet,
    Blinds,
    Speaker,
    Gateway,
    MotionSensor,
    VirtualLightGroup,
    VirtualScene,
    VirtualTimer,
    VirtualConditional,
    Unknown(String),
}

impl Clone for DeviceType {
    fn clone(&self) -> (res: Self)
        ensures
            res == *self,
    {
        match self {
            DeviceType::Light => DeviceType::Light,
            DeviceType::Switch => DeviceType::Switch,
            DeviceType::Sensor => DeviceType::Sensor,
            DeviceType::Outlet => DeviceType::Outlet,
            DeviceType::Blinds => DeviceType::Blinds,
            DeviceType::Speaker => DeviceType::Speaker,
            DeviceType::Gateway => DeviceType::Gateway,
            DeviceType::MotionSensor => DeviceType::MotionSensor,
            DeviceType::VirtualLightGroup => DeviceType::VirtualLightGroup,
            DeviceType::VirtualScene => DeviceType::VirtualScene,
            DeviceType::VirtualTimer => DeviceType::VirtualTimer,
            DeviceType::VirtualConditional => DeviceType::VirtualConditional,
            DeviceType::Unknown(s) => DeviceType::Unknown(s.clone()),
        }
    }
}

/// Two device types are the same kind (an unknown kind is compared by its name).
pub open spec fn same_device_type(a: DeviceType, b: DeviceType) -> bool {
    if a is Unknown || b is Unknown {
        a is Unknown && b is Unknown && a->Unknown_0@ == b->Unknown_0@
    } else {
        a == b
    }
}

impl DeviceType {
    /// Compares two device types as `==` does.
    pub fn same_as(&self, other: &DeviceType) -> (res: bool)
        ensures
            res == same_device_type(*self, *other),
    {
        match (self, other) {
            (DeviceType::Light, DeviceType::Light) => true,
            (DeviceType::Switch, DeviceType::Switch) => true,
            (DeviceType::Sensor, DeviceType::Sensor) => true,
            (DeviceType::Outlet, DeviceType::Outlet) => true,
            (DeviceType::Blinds, DeviceType::Blinds) => true,
            (DeviceType::Speaker, DeviceType::Speaker) => true,
            (DeviceType::Gateway, DeviceType::Gateway) => true,
            (DeviceType::MotionSensor, DeviceType::MotionSensor) => true,
            (DeviceType::VirtualLightGroup, DeviceType::VirtualLightGroup) => true,
            (DeviceType::VirtualScene, DeviceType::VirtualScene) => true,
            (DeviceType::VirtualTimer, DeviceType::VirtualTimer) => true,
            (DeviceType::VirtualConditional, DeviceType::VirtualConditional) => true,
            (DeviceType::Unknown(x), DeviceType::Unknown(y)) => str_eq(x.as_str(), y.as_str()),
            _ => false,
        }
    }
}

#[derive(Clone, Copy, Debug, PartialEq, Eq, Structural)]
pub enum Capability {
    OnOff,
    Brightness,
    MotionDetection,
    ColorTemperature,
    RgbColor,
    Temperature,
    Humidity,
    Motion,
    ContactSensor,
    BatteryLevel,
    Volume,
    /// For blinds.
    Position,
}

#[derive(Clone, Copy, Debug, PartialEq, Eq, Structural)]
pub struct RgbColor {
    pub r: u8,
    pub g: u8,
    pub b: u8,
}

#[derive(Clone, Copy, Debug, PartialEq, Eq, Structural)]
pub struct LightState {
    pub is_on: bool,
    /// 0-100.
    pub brightness: Option<u8>,
    /// Kelvin.
    pub color_temp: Option<u16>,
    pub rgb_color: Option<RgbColor>,
}

#[derive(Clone, Copy, Debug, PartialEq, Eq, Structural)]
pub struct SwitchState {
    pub is_pressed: bool,
    pub last_pressed: Option<Timestamp>,
    pub battery_level: Option<u8>,
}

/// Readings of a climate sensor. Each reading is the bit pattern of an IEEE-754 single.
#[derive(Clone, Copy, Debug, PartialEq, Eq, Structural)]
pub struct SensorState {
    pub temperature_bits: Option<u32>,
    pub humidity_bits: Option<u32>,
    pub last_updated: Timestamp,
}

#[derive(Clone, Copy, Debug, PartialEq, Eq, Structural)]
pub struct MotionSensorState {
    pub motion_detected: bool,
    pub last_motion: Option<Timestamp>,
    pub battery_level: Option<u8>,
}

/// State of a power outlet. The meter readings (watts, kWh) are bit patterns of IEEE-754 singles.
#[derive(Clone, Copy, Debug, PartialEq, Eq, Structural)]
pub struct OutletState {
    pub is_on: bool,
    pub power_consumption_bits: Option<u32>,
    pub total_energy_bits: Option<u32>,
}

#[derive(Debug)]
pub struct SceneState {
    pub scene_name: String,
    pub is_active: bool,
}

impl Clone for SceneState {
    fn clone(&self) -> (res: Self)
        ensures
            res == *self,
    {
        SceneState { scene_name: self.scene_name.clone(), is_active: self.is_active }
    }
}

#[derive(Clone, Copy, Debug, PartialEq, Eq, Structural)]
pub enum TimerAction {
    Start,
    Stop,
    Reset,
}

#[derive(Debug)]
pub struct TimerState {
    pub timer_name: String,
    pub action: TimerAction,
}

impl Clone for TimerState {
    fn clone(&self) -> (res: Self)
        ensures
            res == *self,
    {
        TimerState { timer_name: self.timer_name.clone(), action: self.action }
    }
}

/// The state of one device.
#[derive(Debug)]
pub enum DeviceStateValue {
    Light(LightState),
    Switch(SwitchState),
    Sensor(SensorState),
    Scene(SceneState),
    Timer(TimerState),
    MotionSensor(MotionSensorState),
    Outlet(OutletState),
    /// For devices with no state, such as a button controller.
    Empty,
}

impl Clone for DeviceStateValue {
    fn clone(&self) -> (res: Self)
        ensures
            res == *self,
    {
        match self {
            DeviceStateValue::Light(l) => DeviceStateValue::Light(*l),
            DeviceStateValue::Switch(s) => DeviceStateValue::Switch(*s),
            DeviceStateValue::Sensor(s) => DeviceStateValue::Sensor(*s),
            DeviceStateValue::Scene(s) => DeviceStateValue::Scene(s.clone()),
            DeviceStateValue::Timer(t) => DeviceStateValue::Timer(t.clone()),
            DeviceStateValue::MotionSensor(m) => DeviceStateValue::MotionSensor(*m),
            DeviceStateValue::Outlet(o) => DeviceStateValue::Outlet(*o),
            DeviceStateValue::Empty => DeviceStateValue::Empty,
        }
    }
}

/// Descriptive information about a device.
#[derive(Debug)]
pub struct DeviceInfo {
    pub device_id: DeviceId,
    pub name: String,
    pub device_type: DeviceType,
    pub capabilities: Vec<Capability>,
    pub device_groups: Vec<String>,
    pub manufacturer: Option<String>,
    pub model: Option<String>,
    pub firmware_version: Option<String>,
    pub battery_powered: bool,
    pub reachable: bool,
    pub last_seen: Timestamp,
    pub custom_attributes: Vec<(String, JsonValue)>,
}

/// The content of a [`DeviceInfo`], with its lists as sequences.
pub struct DeviceInfoView {
    pub device_id: String,
    pub name: String,
    pub device_type: DeviceType,
    pub capabilities: Seq<Capability>,
    pub device_groups: Seq<String>,
    pub manufacturer: Option<String>,
    pub model: Option<String>,
    pub firmware_version: Option<String>,
    pub battery_powered: bool,
    pub reachable: bool,
    pub last_seen: Timestamp,
    pub custom_attributes: Seq<(Seq<char>, JsonView)>,
}

impl View for DeviceInfo {
    type V = DeviceInfoView;

    open spec fn view(&self) -> DeviceInfoView {
        DeviceInfoView {
            device_id: self.device_id,
            name: self.name,
            device_type: self.device_type,
            capabilities: self.capabilities@,
            device_groups: self.device_groups@,
            manufacturer: self.manufacturer,
            model: self.model,
            firmware_version: self.firmware_version,
            battery_powered: self.battery_powered,
            reachable: self.reachable,
            last_seen: self.last_seen,
            custom_attributes: json_object_view(self.custom_attributes@, self.custom_attributes@.len()),
        }
    }
}

/// Copies a list of strings.
pub fn clone_strings(v: &Vec<String>) -> (res: Vec<String>)
    ensures
        res@ == v@,
{
    let mut out: Vec<String> = Vec::new();
    let mut i: usize = 0;
    while i < v.len()
        invariant
            i <= v.len(),
            out@ == v@.subrange(0, i as int),
        decreases v.len() - i,
    {
        out.push(v[i].clone());
        i = i + 1;
        assert(out@ =~= v@.subrange(0, i as int));
    }
    assert(v@.subrange(0, v.len() as int) =~= v@);
    out
}

/// Copies a list of capabilities.
pub fn clone_capabilities(v: &Vec<Capability>) -> (res: Vec<Capability>)
    ensures
        res@ == v@,
{
    let mut out: Vec<Capability> = Vec::new();
    let mut i: usize = 0;
    while i < v.len()
        invariant
            i <= v.len(),
            out@ == v@.subrange(0, i as int),
        decreases v.len() - i,
    {
        out.push(v[i]);
        i = i + 1;
        assert(out@ =~= v@.subrange(0, i as int));
    }
    assert(v@.subrange(0, v.len() as int) =~= v@);
    out
}

/// Copies an optional string.
pub fn clone_opt_string(v: &Option<String>) -> (res: Option<String>)
    ensures
        res == *v,
{
    match v {
        Some(s) => Some(s.clone()),
        None => None,
    }
}

impl DeviceInfo {
    /// Copies the device information.
    pub fn clone_info(&self) -> (res: DeviceInfo)
        ensures
            res@ == self@,
    {
        DeviceInfo {
            device_id: self.device_id.clone(),
            name: self.name.clone(),
            device_type: self.device_type.clone(),
            capabilities: clone_capabilities(&self.capabilities),
            device_groups: clone_strings(&self.device_groups),
            manufacturer: clone_opt_string(&self.manufacturer),
            model: clone_opt_string(&self.model),
            firmware_version: clone_opt_string(&self.firmware_version),
            battery_powered: self.battery_powered,
            reachable: self.reachable,
            last_seen: self.last_seen,
            custom_attributes: clone_members(&self.custom_attributes),
        }
    }
}

/// A device with its information, current state and sync bookkeeping.
#[derive(Debug)]
pub struct DeviceState {
    pub device_id: DeviceId,
    pub device_info: DeviceInfo,
    pub state: DeviceStateValue,
    pub last_updated: Timestamp,
    pub last_synced_to_gateway: Option<Timestamp>,
    pub last_synced_from_gateway: Option<Timestamp>,
}

/// The content of a [`DeviceState`].
pub struct DeviceStateView {
    pub device_id: String,
    pub device_info: DeviceInfoView,
    pub state: DeviceStateValue,
    pub last_updated: Timestamp,
    pub last_synced_to_gateway: Option<Timestamp>,
    pub last_synced_from_gateway: Option<Timestamp>,
}

impl View for DeviceState {
    type V = DeviceStateView;

    open spec fn view(&self) -> DeviceStateView {
        DeviceStateView {
            device_id: self.device_id,
            device_info: self.device_info@,
            state: self.state,
            last_updated: self.last_updated,
            last_synced_to_gateway: self.last_synced_to_gateway,
            last_synced_from_gateway: self.last_synced_from_gateway,
        }
    }
}

impl DeviceState {
    /// Copies the device record.
    pub fn clone_state(&self) -> (res: DeviceState)
        ensures
            res@ == self@,
    {
        DeviceState {
            device_id: self.device_id.clone(),
            device_info: self.device_info.clone_info(),
            state: self.state.clone(),
            last_updated: self.last_updated,
            last_synced_to_gateway: self.last_synced_to_gateway,
            last_synced_from_gateway: self.last_synced_from_gateway,
        }
    }
}

/// A request to create a named group of devices.
#[derive(Debug)]
pub struct CreateDeviceGroupRequest {
    pub group_name: String,
    pub icon_ref: String,
    pub device_ids: Vec<DeviceId>,
}

/// A named group of devices.
#[derive(Debug)]
pub struct DeviceGroupInfo {
    pub group_name: String,
    pub icon_ref: String,
    pub device_count: u32,
    pub device_ids: Vec<DeviceId>,
}

/// The content of a [`DeviceGroupInfo`].
pub struct DeviceGroupView {
    pub group_name: String,
    pub icon_ref: String,
    pub device_count: u32,
    pub device_ids: Seq<String>,
}

impl View for DeviceGroupInfo {
    type V = DeviceGroupView;

    open spec fn view(&self) -> DeviceGroupView {
        DeviceGroupView {
            group_name: self.group_name,
            icon_ref: self.icon_ref,
            device_count: self.device_count,
            device_ids: self.device_ids@,
        }
    }
}

impl DeviceGroupInfo {
    /// Copies the group.
    pub fn clone_group(&self) -> (res: DeviceGroupInfo)
        ensures
            res@ == self@,
    {
        DeviceGroupInfo {
            group_name: self.group_name.clone(),
            icon_ref: self.icon_ref.clone(),
            device_count: self.device_count,
            device_ids: clone_strings(&self.device_ids),
        }
    }
}

#[derive(Clone, Copy, Debug, PartialEq, Eq, Structural)]
pub enum ButtonPressType {
    SinglePress,
    DoublePress,
    LongPress,
}

/// What happened to a device.
#[derive(Debug)]
pub enum EventType {
    AttributeChanged { attribute: String, old_value: JsonValue, new_value: JsonValue },
    StateChanged { old_state: Option<DeviceStateValue>, new_state: Option<DeviceStateValue> },
    ButtonPressed { button_id: String, press_type: ButtonPressType },
    DeviceAdded { device_type: String },
    DeviceRemoved,
    DeviceReachabilityChanged { reachable: bool },
    SceneActivated { scene_id: String },
    BatteryLevelChanged { old_level: u8, new_level: u8 },
}

/// The content of an [`EventType`].
pub enum EventTypeView {
    AttributeChanged { attribute: Seq<char>, old_value: JsonView, new_value: JsonView },
    StateChanged { old_state: Option<DeviceStateValue>, new_state: Option<DeviceStateValue> },
    ButtonPressed { button_id: Seq<char>, press_type: ButtonPressType },
    DeviceAdded { device_type: Seq<char> },
    DeviceRemoved,
    DeviceReachabilityChanged { reachable: bool },
    SceneActivated { scene_id: Seq<char> },
    BatteryLevelChanged { old_level: u8, new_level: u8 },
}

impl View for EventType {
    type V = EventTypeView;

    open spec fn view(&self) -> EventTypeView {
        match *self {
            EventType::AttributeChanged { attribute, old_value, new_value } =>
                EventTypeView::AttributeChanged {
                    attribute: attribute@,
                    old_value: json_view(old_value),
                    new_value: json_view(new_value),
                },
            EventType::StateChanged { old_state, new_state } =>
                EventTypeView::StateChanged { old_state, new_state },
            EventType::ButtonPressed { button_id, press_type } =>
                EventTypeView::ButtonPressed { button_id: button_id@, press_type },
            EventType::DeviceAdded { device_type } =>
                EventTypeView::DeviceAdded { device_type: device_type@ },
            EventType::DeviceRemoved => EventTypeView::DeviceRemoved,
            EventType::DeviceReachabilityChanged { reachable } =>
                EventTypeView::DeviceReachabilityChanged { reachable },
            EventType::SceneActivated { scene_id } => EventTypeView::SceneActivated { scene_id: scene_id@ },
            EventType::BatteryLevelChanged { old_level, new_level } =>
                EventTypeView::BatteryLevelChanged { old_level, new_level },
        }
    }
}

fn clone_opt_state(s: &Option<DeviceStateValue>) -> (res: Option<DeviceStateValue>)
    ensures
        res == *s,
{
    match s {
        Some(v) => Some(v.clone()),
        None => None,
    }
}

impl EventType {
    /// Copies the event kind.
    pub fn clone_event_type(&self) -> (res: EventType)
        ensures
            res@ == self@,
    {
        match self {
            EventType::AttributeChanged { attribute, old_value, new_value } => EventType::AttributeChanged {
                attribute: attribute.clone(),
                old_value: old_value.deep_clone(),
                new_value: new_value.deep_clone(),
            },
            EventType::StateChanged { old_state, new_state } => EventType::StateChanged {
                old_state: clone_opt_state(old_state),
                new_state: clone_opt_state(new_state),
            },
            EventType::ButtonPressed { button_id, press_type } =>
                EventType::ButtonPressed { button_id: button_id.clone(), press_type: *press_type },
            EventType::DeviceAdded { device_type } => EventType::DeviceAdded { device_type: device_type.clone() },
            EventType::DeviceRemoved => EventType::DeviceRemoved,
            EventType::DeviceReachabilityChanged { reachable } =>
                EventType::DeviceReachabilityChanged { reachable: *reachable },
            EventType::SceneActivated { scene_id } => EventType::SceneActivated { scene_id: scene_id.clone() },
            EventType::BatteryLevelChanged { old_level, new_level } =>
                EventType::BatteryLevelChanged { old_level: *old_level, new_level: *new_level },
        }
    }
}

/// Something that happened to a device, at a time given in milliseconds since the Unix epoch.
#[derive(Debug)]
pub struct DeviceEvent {
    pub timestamp: Timestamp,
    pub device_id: String,
    pub event_type: EventType,
}

/// The content of a [`DeviceEvent`].
pub struct DeviceEventView {
    pub timestamp: Timestamp,
    pub device_id: Seq<char>,
    pub event_type: EventTypeView,
}

impl View for DeviceEvent {
    type V = DeviceEventView;

    open spec fn view(&self) -> DeviceEventView {
        DeviceEventView { timestamp: self.timestamp, device_id: self.device_id@, event_type: self.event_type@ }
    }
}

impl DeviceEvent {
    /// Copies the event.
    pub fn clone_event(&self) -> (res: DeviceEvent)
        ensures
            res@ == self@,
    {
        DeviceEvent {
            timestamp: self.timestamp,
            device_id: self.device_id.clone(),
            event_type: self.event_type.clone_event_type(),
        }
    }
}

/// A request to discover devices.
#[derive(Debug)]
pub struct DiscoverDevicesRequest {
    pub force_refresh: Option<bool>,
    pub device_types: Option<Vec<DeviceType>>,
}

/// The devices found by a discovery.
#[derive(Debug)]
pub struct DiscoverDevicesResponse {
    pub devices: Vec<DeviceInfo>,
    pub total_count: u32,
    pub discovery_timestamp: Timestamp,
    pub gateway_scan_duration_ms: u64,
}

} // verus!
