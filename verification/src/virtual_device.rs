//! What every virtual device shares: its kind, configuration, errors and exposed information.
use vstd::prelude::*;
use vstd::string::StringExecFns;
use crate::json::{JsonValue, JsonView, json_view};
use crate::state::{Capability, DeviceId, DeviceInfo, DeviceInfoView, DeviceType, Timestamp};
use crate::store::StateError;

verus! {

/// Why a virtual device refused an operation.
#[derive(Debug)]
pub enum VirtualDeviceError {
    InvalidStateType,
    DeviceNotFound(String),
    StateStore(StateError),
    Config(String),
    Timer(String),
}

/// The kind of a virtual device.
#[derive(Clone, Copy, Debug, PartialEq, Eq, Structural)]
pub enum VirtualDeviceType {
    LightGroup,
    LightGroupLinear,
    ButtonController,
    SceneController,
    ConditionalDevice,
    TimerDevice,
}

/// How a virtual device was configured.
#[derive(Debug)]
pub struct VirtualDeviceConfig {
    pub device_id: DeviceId,
    pub device_type: VirtualDeviceType,
    pub name: String,
    pub description: Option<String>,
    pub enabled: bool,
    /// Kind-specific configuration.
    pub config: JsonValue,
}

/// The content of a [`VirtualDeviceConfig`].
pub struct VirtualDeviceConfigView {
    pub device_id: String,
    pub device_type: VirtualDeviceType,
    pub name: String,
    pub description: Option<String>,
    pub enabled: bool,
    pub config: JsonView,
}

impl View for VirtualDeviceConfig {
    type V = VirtualDeviceConfigView;

    open spec fn view(&self) -> VirtualDeviceConfigView {
        VirtualDeviceConfigView {
            device_id: self.device_id,
            device_type: self.device_type,
            name: self.name,
            description: self.description,
            enabled: self.enabled,
            config: json_view(self.config),
        }
    }
}

impl VirtualDeviceConfig {
    /// Copies the configuration.
    pub fn clone_config(&self) -> (res: VirtualDeviceConfig)
        ensures
            res@ == self@,
    {
        VirtualDeviceConfig {
            device_id: self.device_id.clone(),
            device_type: self.device_type,
            name: self.name.clone(),
            description: match &self.description {
                Some(d) => Some(d.clone()),
                None => None,
            },
            enabled: self.enabled,
            config: self.config.deep_clone(),
        }
    }
}

/// The device kind a virtual device of this kind is exposed as.
pub open spec fn exposed_type(t: VirtualDeviceType) -> DeviceType {
    match t {
        VirtualDeviceType::LightGroup => DeviceType::VirtualLightGroup,
        VirtualDeviceType::LightGroupLinear => DeviceType::VirtualLightGroup,
        VirtualDeviceType::ButtonController => DeviceType::VirtualConditional,
        VirtualDeviceType::SceneController => DeviceType::VirtualScene,
        VirtualDeviceType::ConditionalDevice => DeviceType::VirtualConditional,
        VirtualDeviceType::TimerDevice => DeviceType::VirtualTimer,
    }
}

/// The capabilities a virtual device of this kind offers: light groups behave as dimmable,
/// colour lights; the others have none.
pub open spec fn capabilities_of(t: VirtualDeviceType) -> Seq<Capability> {
    match t {
        VirtualDeviceType::LightGroup | VirtualDeviceType::LightGroupLinear =>
            seq![Capability::OnOff, Capability::Brightness, Capability::ColorTemperature, Capability::RgbColor],
        _ => Seq::empty(),
    }
}

/// The capabilities a virtual device of this kind offers.
pub fn get_capabilities(t: VirtualDeviceType) -> (res: Vec<Capability>)
    ensures
        res@ == capabilities_of(t),
{
    match t {
        VirtualDeviceType::LightGroup | VirtualDeviceType::LightGroupLinear => {
            let v = vec![Capability::OnOff, Capability::Brightness, Capability::ColorTemperature, Capability::RgbColor];
            assert(v@ =~= capabilities_of(t));
            v
        },
        _ => {
            let v: Vec<Capability> = Vec::new();
            assert(v@ =~= capabilities_of(t));
            v
        },
    }
}

/// The device kind a virtual device of this kind is exposed as.
pub fn exposed_device_type(t: VirtualDeviceType) -> (res: DeviceType)
    ensures
        res == exposed_type(t),
{
    match t {
        VirtualDeviceType::LightGroup => DeviceType::VirtualLightGroup,
        VirtualDeviceType::LightGroupLinear => DeviceType::VirtualLightGroup,
        VirtualDeviceType::ButtonController => DeviceType::VirtualConditional,
        VirtualDeviceType::SceneController => DeviceType::VirtualScene,
        VirtualDeviceType::ConditionalDevice => DeviceType::VirtualConditional,
        VirtualDeviceType::TimerDevice => DeviceType::VirtualTimer,
    }
}

/// The information a virtual device exposes: its configured id and name, its exposed kind and
/// capabilities, the "virtual" group, the library as maker, reachable when enabled, seen at `now`.
pub open spec fn virtual_device_info(config: VirtualDeviceConfigView, t: VirtualDeviceType, now: Timestamp, info: DeviceInfoView) -> bool {
    &&& info.device_id == config.device_id
    &&& info.name == config.name
    &&& info.device_type == exposed_type(t)
    &&& info.capabilities == capabilities_of(t)
    &&& info.device_groups.len() == 1 && info.device_groups[0]@ == "virtual"@
    &&& info.manufacturer matches Some(m) && m@ == "v1bectl"@
    &&& info.model matches Some(m) && m@ == "Virtual Device"@
    &&& info.firmware_version matches Some(f) && f@ == "1.0.0"@
    &&& !info.battery_powered
    &&& info.reachable == config.enabled
    &&& info.last_seen == now
    &&& info.custom_attributes.len() == 0
}

/// The information a virtual device of kind `t` with configuration `config` exposes at time `now`.
pub fn device_info_for(config: &VirtualDeviceConfig, t: VirtualDeviceType, now: Timestamp) -> (res: DeviceInfo)
    ensures
        virtual_device_info(config@, t, now, res@),
{
    let mut groups: Vec<String> = Vec::new();
    groups.push(String::from_str("virtual"));
    let res = DeviceInfo {
        device_id: config.device_id.clone(),
        name: config.name.clone(),
        device_type: exposed_device_type(t),
        capabilities: get_capabilities(t),
        device_groups: groups,
        manufacturer: Some(String::from_str("v1bectl")),
        model: Some(String::from_str("Virtual Device")),
        firmware_version: Some(String::from_str("1.0.0")),
        battery_powered: false,
        reachable: config.enabled,
        last_seen: now,
        custom_attributes: Vec::new(),
    };
    res
}

} // verus!
