//! The configuration of virtual devices, as read from their configuration files.
use vstd::prelude::*;
use vstd::string::StringExecFns;
use crate::json::JsonValue;

verus! {

/// The configuration of one virtual device, by kind.
#[derive(Debug)]
pub enum VirtualDeviceTomlConfig {
    LightGroup(LightGroupConfig),
    LightGroupLinear(LightGroupLinearConfig),
    ButtonController(ButtonControllerConfig),
    SceneController(SceneControllerConfig),
}

/// A light group: its members (ids, or id prefixes ending in `*`), curves and settings.
#[derive(Debug)]
pub struct LightGroupConfig {
    pub device_id: String,
    pub name: String,
    pub members: Vec<String>,
    /// Curves by member id.
    pub brightness_curves: Vec<(String, BrightnessCurveConfig)>,
    pub settings: LightGroupSettings,
}

/// A brightness range of a member light.
#[derive(Clone, Copy, Debug, PartialEq, Eq, Structural)]
pub struct BrightnessCurveConfig {
    pub min: u8,
    pub max: u8,
}

/// A linear light group: members by name, and each member's `[min, max]` range.
#[derive(Debug)]
pub struct LightGroupLinearConfig {
    pub device_id: String,
    pub name: String,
    /// Member name to device id.
    pub members: Vec<(String, String)>,
    /// Member name to `[min, max]`.
    pub brightness: Vec<(String, [u8; 2])>,
    pub settings: LightGroupLinearSettings,
}

/// Settings of a linear light group.
#[derive(Clone, Copy, Debug, PartialEq, Eq, Structural)]
pub struct LightGroupLinearSettings {
    pub transition_time: u32,
}

impl Default for LightGroupLinearSettings {
    fn default() -> (res: Self)
        ensures
            res.transition_time == 500,
    {
        LightGroupLinearSettings { transition_time: default_transition_time() }
    }
}

/// A button controller: the button it listens to and the actions its presses run, each written
/// as `[command, device id, parameters...]`.
#[derive(Debug)]
pub struct ButtonControllerConfig {
    pub device_id: String,
    pub name: String,
    pub button: String,
    pub press_on: Vec<JsonValue>,
    pub press_off: Vec<JsonValue>,
    pub press_on_long: Option<Vec<JsonValue>>,
    pub press_off_long: Option<Vec<JsonValue>>,
}

/// Settings of a light group.
#[derive(Debug)]
pub struct LightGroupSettings {
    /// How member states combine: average, min, max or any.
    pub aggregation: String,
    pub transition_time: u32,
    /// Member ids, or id prefixes ending in `*`, to leave out.
    pub exclude: Vec<String>,
}

impl Default for LightGroupSettings {
    fn default() -> (res: Self)
        ensures
            res.aggregation@ == "average"@,
            res.transition_time == 500,
            res.exclude@.len() == 0,
    {
        LightGroupSettings { aggregation: default_aggregation(), transition_time: default_transition_time(), exclude: Vec::new() }
    }
}

/// The aggregation a light group uses unless configured otherwise.
pub fn default_aggregation() -> (res: String)
    ensures
        res@ == "average"@,
{
    String::from_str("average")
}

/// The transition time, in milliseconds, a light group uses unless configured otherwise.
pub fn default_transition_time() -> (res: u32)
    ensures
        res == 500,
{
    500
}

/// A scene controller: its scenes and settings.
#[derive(Debug)]
pub struct SceneControllerConfig {
    pub device_id: String,
    pub name: String,
    pub scenes: Vec<SceneConfig>,
    pub settings: SceneControllerSettings,
}

/// One scene: the states it gives its devices.
#[derive(Debug)]
pub struct SceneConfig {
    pub name: String,
    pub display_name: String,
    pub devices: Vec<SceneDeviceConfig>,
}

/// The state one device takes in a scene.
#[derive(Debug)]
pub struct SceneDeviceConfig {
    pub device_id: String,
    pub state: SceneDeviceState,
}

/// A device state in a scene.
#[derive(Clone, Copy, Debug, PartialEq, Eq, Structural)]
pub enum SceneDeviceState {
    Light { is_on: bool, brightness: Option<u8>, color_temp: Option<u16> },
    Outlet { is_on: bool },
}

/// Settings of a scene controller.
#[derive(Debug)]
pub struct SceneControllerSettings {
    /// Milliseconds.
    pub transition_duration: u32,
    pub default_scene: Option<String>,
}

impl Default for SceneControllerSettings {
    fn default() -> (res: Self)
        ensures
            res.transition_duration == 1000,
            res.default_scene is None,
    {
        SceneControllerSettings { transition_duration: default_transition_duration(), default_scene: None }
    }
}

/// The transition duration, in milliseconds, a scene controller uses unless configured otherwise.
pub fn default_transition_duration() -> (res: u32)
    ensures
        res == 1000,
{
    1000
}

} // verus!
