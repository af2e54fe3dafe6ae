//! The WebSocket API: its requests and responses, and what the server decides for each request.
use vstd::prelude::*;
use vstd::string::{StrSliceExecFns, StringExecFns};
use crate::gateway::{GatewayError, gateway_error_message, gateway_error_text, state_error_message, state_error_text};
use crate::light_group::LightGroup;
use crate::manager::{AnyVirtualDevice, SetStateOutcome, VirtualDeviceManager, missing_write};
use crate::scene_controller::{Scene, SceneController};
use crate::state::{DeviceEvent, DeviceInfo, DiscoverDevicesResponse, DeviceState, DeviceStateValue, DeviceStateView, DeviceType, EventType, LightState, OutletState, RgbColor, SceneState, Timestamp};
use crate::store::{StateStore, string_views, lemma_take_filter_step};
use crate::sync::{StateChangeNotice, SyncClock, SyncEngine};

use crate::virtual_device::{VirtualDeviceConfig, VirtualDeviceError, VirtualDeviceType};

verus! {

/// The kind of a message on the WebSocket API.
#[derive(Clone, Copy, Debug, PartialEq, Eq, Structural)]
pub enum ApiMessageType {
    Request,
    Response,
    Event,
    Error,
}

/// A message on the WebSocket API; the payload is an encoded request, response or event.
#[derive(Debug)]
pub struct ApiMessage {
    pub correlation_id: String,
    pub message_type: ApiMessageType,
    pub payload: Vec<u8>,
}

/// A request to the server.
#[derive(Debug)]
pub enum ApiRequest {
    DiscoverDevices,
    ListDevices { device_type: Option<String>, groups: Option<Vec<String>>, reachable_only: Option<bool> },
    GetDevice { device_id: String },
    GetDeviceState { device_id: String },
    SetLightState { device_id: String, is_on: Option<bool>, brightness: Option<u8>, color_temp: Option<u16>, rgb_color: Option<RgbColor> },
    SetOutletState { device_id: String, is_on: bool },
    CreateVirtualDevice { config: VirtualDeviceConfig },
    RemoveVirtualDevice { device_id: String },
    ActivateScene { device_id: String, scene_name: String },
    Subscribe { device_ids: Vec<String> },
    Ping,
}

/// A response from the server.
#[derive(Debug)]
pub enum ApiResponse {
    DeviceList { devices: Vec<DeviceState>, total_count: u32 },
    DeviceInfo { device: DeviceInfo },
    DeviceState { state: DeviceStateValue },
    LightUpdated { new_state: LightState },
    VirtualDeviceCreated { device_id: String },
    VirtualDeviceRemoved { device_id: String },
    SceneActivated { device_id: String, scene_name: String },
    SubscriptionStarted { subscriber_id: String },
    Pong,
    Error { code: String, message: String },
}

/// An error of the request handlers.
#[derive(Debug, Clone, Copy, PartialEq, Eq, Structural)]
pub enum ApiError {
    Internal,
}

impl ApiError {
    /// The error's message.
    pub fn to_display_string(&self) -> (res: String)
        ensures
            res@ == "Internal error"@,
    {
        String::from_str("Internal error")
    }
}

/// Answers a discovery request outside the WebSocket API: no devices, found at time zero in no
/// time.
pub fn handle_discover_devices() -> (res: Result<DiscoverDevicesResponse, ApiError>)
    ensures
        res matches Ok(r) && r.devices@.len() == 0 && r.total_count == 0 && r.discovery_timestamp == 0
            && r.gateway_scan_duration_ms == 0,
{
    Ok(DiscoverDevicesResponse { devices: Vec::new(), total_count: 0, discovery_timestamp: 0, gateway_scan_duration_ms: 0 })
}

/// The text `format!("{:?}", s)` gives for a string: quoted and escaped.
pub uninterp spec fn debug_text(s: Seq<char>) -> Seq<char>;

/// A string as its `Debug` form, quoted and escaped, by `format!("{:?}", s)`. What the escaping
/// does is left to the name [`debug_text`].
#[verifier::external_body]
fn debug_quoted(s: &str) -> (res: String)
    ensures
        res@ == debug_text(s@),
{
    format!("{:?}", s)
}

/// The Unicode lowercase of a string, as `str::to_lowercase` gives it.
pub uninterp spec fn lowercase(s: Seq<char>) -> Seq<char>;

/// `str::to_lowercase`: the string in Unicode lowercase. Which characters change, and into what,
/// is left to the name [`lowercase`].
#[verifier::external_body]
fn to_lowercase(s: &str) -> (res: String)
    ensures
        res@ == lowercase(s@),
{
    s.to_lowercase()
}

/// The `Debug` form of a device kind: its variant name, and an unknown kind's name quoted.
pub open spec fn device_type_debug(t: DeviceType) -> Seq<char> {
    match t {
        DeviceType::Light => "Light"@,
        DeviceType::Switch => "Switch"@,
        DeviceType::Sensor => "Sensor"@,
        DeviceType::Outlet => "Outlet"@,
        DeviceType::Blinds => "Blinds"@,
        DeviceType::Speaker => "Speaker"@,
        DeviceType::Gateway => "Gateway"@,
        DeviceType::MotionSensor => "MotionSensor"@,
        DeviceType::VirtualLightGroup => "VirtualLightGroup"@,
        DeviceType::VirtualScene => "VirtualScene"@,
        DeviceType::VirtualTimer => "VirtualTimer"@,
        DeviceType::VirtualConditional => "VirtualConditional"@,
        DeviceType::Unknown(s) => "Unknown("@ + debug_text(s@) + ")"@,
    }
}

/// The `Debug` form of a device kind.
pub fn device_type_debug_name(t: &DeviceType) -> (res: String)
    ensures
        res@ == device_type_debug(*t),
{
    match t {
        DeviceType::Light => String::from_str("Light"),
        DeviceType::Switch => String::from_str("Switch"),
        DeviceType::Sensor => String::from_str("Sensor"),
        DeviceType::Outlet => String::from_str("Outlet"),
        DeviceType::Blinds => String::from_str("Blinds"),
        DeviceType::Speaker => String::from_str("Speaker"),
        DeviceType::Gateway => String::from_str("Gateway"),
        DeviceType::MotionSensor => String::from_str("MotionSensor"),
        DeviceType::VirtualLightGroup => String::from_str("VirtualLightGroup"),
        DeviceType::VirtualScene => String::from_str("VirtualScene"),
        DeviceType::VirtualTimer => String::from_str("VirtualTimer"),
        DeviceType::VirtualConditional => String::from_str("VirtualConditional"),
        DeviceType::Unknown(s) => {
            let mut r = String::from_str("Unknown(");
            let q = debug_quoted(s.as_str());
            r.append(q.as_str());
            r.append(")");
            r
        },
    }
}

/// Whether `sub` occurs in `s`.
pub open spec fn contains_sub(s: Seq<char>, sub: Seq<char>) -> bool {
    exists|i: int| 0 <= i && i + sub.len() <= s.len() && #[trigger] s.subrange(i, i + sub.len()) == sub
}

/// Whether `sub` occurs in `s`.
pub fn str_contains(s: &str, sub: &str) -> (res: bool)
    ensures
        res == contains_sub(s@, sub@),
{
    let n = s.unicode_len();
    let m = sub.unicode_len();
    if m > n {
        proof {
            assert forall|i: int| 0 <= i && i + sub@.len() <= s@.len() implies #[trigger] s@.subrange(i, i + sub@.len()) != sub@ by {}
        }
        return false;
    }
    let mut i: usize = 0;
    while i <= n - m
        invariant
            n == s@.len(),
            m == sub@.len(),
            m <= n,
            i <= n - m + 1,
            forall|k: int| 0 <= k < i ==> #[trigger] s@.subrange(k, k + m) != sub@,
        decreases n - m + 1 - i,
    {
        let mut j: usize = 0;
        let mut same = true;
        while j < m
            invariant
                n == s@.len(),
                m == sub@.len(),
                i + m <= n,
                j <= m,
                same == forall|k: int| 0 <= k < j ==> s@[i + k] == sub@[k],
            decreases m - j,
        {
            if s.get_char(i + j) != sub.get_char(j) {
                same = false;
            }
            j = j + 1;
        }
        if same {
            assert(s@.subrange(i as int, i + m) =~= sub@);
            return true;
        }
        proof {
            assert(exists|k: int| 0 <= k < m && s@[i + k] != sub@[k]);
            let k = choose|k: int| 0 <= k < m && s@[i + k] != sub@[k];
            assert(s@.subrange(i as int, i + m)[k] != sub@[k]);
        }
        if i == n - m {
            proof {
                assert forall|k: int| 0 <= k && k + sub@.len() <= s@.len() implies #[trigger] s@.subrange(k, k + sub@.len()) != sub@ by {
                    assert(k <= i);
                }
            }
            return false;
        }
        i = i + 1;
    }
    false
}

/// Whether a device passes a listing's filters: its kind's `Debug` form contains the kind
/// filter, ignoring case; it is in one of the filter's groups; it is reachable when only
/// reachable devices are asked for.
pub open spec fn passes_filters(d: DeviceStateView, device_type: Option<Seq<char>>, groups: Option<Seq<Seq<char>>>,
    reachable_only: Option<bool>) -> bool {
    &&& type_passes(d, device_type)
    &&& group_passes(d, groups)
    &&& (reachable_only == Some(true) ==> d.device_info.reachable)
}

/// Whether a device's kind, in its `Debug` form, contains the kind filter, ignoring case.
pub open spec fn type_passes(d: DeviceStateView, device_type: Option<Seq<char>>) -> bool {
    match device_type {
        Some(f) => contains_sub(lowercase(device_type_debug(d.device_info.device_type)), lowercase(f)),
        None => true,
    }
}

/// Whether a device is in one of the filter's groups.
pub open spec fn group_passes(d: DeviceStateView, groups: Option<Seq<Seq<char>>>) -> bool {
    match groups {
        Some(gs) => in_some_group(d, gs),
        None => true,
    }
}

/// Whether one of a device's groups is among `gs`.
pub open spec fn in_some_group(d: DeviceStateView, gs: Seq<Seq<char>>) -> bool {
    exists|k: int| 0 <= k < d.device_info.device_groups.len() && #[trigger] gs.contains(d.device_info.device_groups[k]@)
}

fn group_match(groups: &Vec<String>, targets: &Vec<String>) -> (res: bool)
    ensures
        res == exists|k: int| 0 <= k < groups@.len() && #[trigger] string_views(targets@).contains(groups@[k]@),
{
    let mut k: usize = 0;
    while k < groups.len()
        invariant
            k <= groups@.len(),
            forall|j: int| 0 <= j < k ==> !#[trigger] string_views(targets@).contains(groups@[j]@),
        decreases groups@.len() - k,
    {
        if crate::light_group::contains_id(targets, groups[k].as_str()) {
            return true;
        }
        k = k + 1;
    }
    false
}

fn passes(d: &DeviceState, type_filter: &Option<String>, groups: &Option<Vec<String>>, reachable_only: Option<bool>) -> (res: bool)
    ensures
        res == passes_filters(d@, match type_filter { Some(f) => Some(f@), None => None },
            match groups { Some(g) => Some(string_views(g@)), None => None }, reachable_only),
{
    let type_ok = match type_filter {
        Some(f) => {
            let name = device_type_debug_name(&d.device_info.device_type);
            let lname = to_lowercase(name.as_str());
            let lf = to_lowercase(f.as_str());
            str_contains(lname.as_str(), lf.as_str())
        },
        None => true,
    };
    let group_ok = match groups {
        Some(g) => group_match(&d.device_info.device_groups, g),
        None => true,
    };
    let reach_ok = match reachable_only {
        Some(true) => d.device_info.reachable,
        _ => true,
    };
    assert(d@.device_info.device_groups == d.device_info.device_groups@);
    type_ok && group_ok && reach_ok
}

/// The devices of a listing with filters: the store's records, in order, that pass them all.
pub fn list_devices_filtered(store: &StateStore, device_type: &Option<String>, groups: &Option<Vec<String>>,
    reachable_only: Option<bool>) -> (res: Vec<DeviceState>)
    requires
        store.wf(),
    ensures
        res@.map_values(|d: DeviceState| d@) == store.entries().filter(|d: DeviceStateView| passes_filters(d,
            match device_type { Some(f) => Some(f@), None => None },
            match groups { Some(g) => Some(string_views(g@)), None => None }, reachable_only)),
{
    let all = store.list_devices();
    let ghost es = store.entries();
    let ghost pred = |d: DeviceStateView| passes_filters(d, match device_type { Some(f) => Some(f@), None => None },
        match groups { Some(g) => Some(string_views(g@)), None => None }, reachable_only);
    assert(all@.map_values(|d: DeviceState| d@) == es);
    let mut out: Vec<DeviceState> = Vec::new();
    let mut i: usize = 0;
    while i < all.len()
        invariant
            i <= all@.len(),
            all@.map_values(|d: DeviceState| d@) == es,
            pred == (|d: DeviceStateView| passes_filters(d, match device_type { Some(f) => Some(f@), None => None },
                match groups { Some(g) => Some(string_views(g@)), None => None }, reachable_only)),
            out@.map_values(|d: DeviceState| d@) == es.take(i as int).filter(pred),
        decreases all@.len() - i,
    {
        proof { lemma_take_filter_step(es, pred, i as int); }
        assert(es[i as int] == all@[i as int]@);
        let ghost before = out@.map_values(|d: DeviceState| d@);
        if passes(&all[i], device_type, groups, reachable_only) {
            out.push(all[i].clone_state());
            assert(out@.map_values(|d: DeviceState| d@) =~= before.push(es[i as int]));
        }
        i = i + 1;
    }
    assert(es.take(all@.len() as int) =~= es);
    out
}

/// A device count as the protocol carries it: modulo 2^32.
pub open spec fn count32(n: nat) -> u32 {
    (n % 0x1_0000_0000) as u32
}

fn count_of(n: usize) -> (res: u32)
    ensures
        res == count32(n as nat),
{
    ((n as u64) % 0x1_0000_0000) as u32
}

/// An error response.
pub fn error_response(code: &str, message: String) -> (res: ApiResponse)
    ensures
        res matches ApiResponse::Error { code: c, message: m } && c@ == code@ && m@ == message@,
{
    ApiResponse::Error { code: String::from_str(code), message }
}

/// The description of a virtual device error.
pub open spec fn virtual_error_text(e: VirtualDeviceError) -> Seq<char> {
    match e {
        VirtualDeviceError::InvalidStateType => "Invalid state type for this virtual device"@,
        VirtualDeviceError::DeviceNotFound(id) => "Device not found: "@ + id@,
        VirtualDeviceError::StateStore(s) => "State store error: "@ + state_error_text(s),
        VirtualDeviceError::Config(m) => "Configuration error: "@ + m@,
        VirtualDeviceError::Timer(m) => "Timer error: "@ + m@,
    }
}

/// Describes a virtual device error.
pub fn virtual_error_message(e: &VirtualDeviceError) -> (res: String)
    ensures
        res@ == virtual_error_text(*e),
{
    match e {
        VirtualDeviceError::InvalidStateType => String::from_str("Invalid state type for this virtual device"),
        VirtualDeviceError::DeviceNotFound(id) => String::from_str("Device not found: ").concat(id.as_str()),
        VirtualDeviceError::StateStore(s) => {
            let t = state_error_message(s);
            String::from_str("State store error: ").concat(t.as_str())
        },
        VirtualDeviceError::Config(m) => String::from_str("Configuration error: ").concat(m.as_str()),
        VirtualDeviceError::Timer(m) => String::from_str("Timer error: ").concat(m.as_str()),
    }
}

/// `prefix` followed by `rest`.
fn joined(prefix: &str, rest: &str) -> (res: String)
    ensures
        res@ == prefix@ + rest@,
{
    String::from_str(prefix).concat(rest)
}

/// A light state with the given fields changed and the others kept.
pub open spec fn merged_light(current: LightState, is_on: Option<bool>, brightness: Option<u8>, color_temp: Option<u16>,
    rgb: Option<RgbColor>) -> LightState {
    LightState {
        is_on: match is_on { Some(b) => b, None => current.is_on },
        brightness: match brightness { Some(b) => Some(b), None => current.brightness },
        color_temp: match color_temp { Some(c) => Some(c), None => current.color_temp },
        rgb_color: match rgb { Some(c) => Some(c), None => current.rgb_color },
    }
}

/// A light state with the given fields changed and the others kept.
pub fn merge_light(current: LightState, is_on: Option<bool>, brightness: Option<u8>, color_temp: Option<u16>,
    rgb: Option<RgbColor>) -> (res: LightState)
    ensures
        res == merged_light(current, is_on, brightness, color_temp, rgb),
{
    let mut l = current;
    match is_on { Some(b) => l.is_on = b, None => {} }
    match brightness { Some(b) => l.brightness = Some(b), None => {} }
    match color_temp { Some(c) => l.color_temp = Some(c), None => {} }
    match rgb { Some(c) => l.rgb_color = Some(c), None => {} }
    l
}

/// Whether a device belongs to the "virtual" group.
pub open spec fn is_virtual(d: DeviceStateView) -> bool {
    string_views(d.device_info.device_groups).contains("virtual"@)
}

/// What the server does next for a request.
#[derive(Debug)]
pub enum ApiStep {
    /// Answer, after publishing these changes.
    Reply { response: ApiResponse, notices: Vec<StateChangeNotice> },
    /// Write the state through the gateway, then hand the result to [`finish_gateway_write`].
    GatewayWrite { device_id: String, state: DeviceStateValue, reply_light: LightState },
    /// Bring about a scene by running the steps, then hand the result to [`finish_scene_activation`].
    RunScene { device_id: String, scene_name: String, scene_index: usize, steps: Vec<crate::scene_controller::SceneStep> },
    /// Read the scenes of a scene controller's configuration, then hand them to
    /// [`create_scene_controller`].
    ReadScenes { config: VirtualDeviceConfig },
}

/// The server's state as request handling sees it.
pub struct ApiServerState {
    pub store: StateStore,
    pub manager: VirtualDeviceManager,
    pub sync_engine: Option<SyncEngine>,
}

impl ApiServerState {
    /// Every part keeps its invariant.
    pub open spec fn wf(&self) -> bool {
        &&& self.store.wf()
        &&& self.manager.wf()
        &&& match self.sync_engine { Some(e) => e.wf(), None => true }
    }
}

fn reply(response: ApiResponse) -> (res: ApiStep)
    ensures
        res matches ApiStep::Reply { response: r, notices } && r == response && notices@.len() == 0,
{
    ApiStep::Reply { response, notices: Vec::new() }
}

/// The step for a light update on a device that is not virtual.
fn physical_light_step(st: &mut ApiServerState, device_id: &String, new_light: LightState, clock: SyncClock) -> (res: ApiStep)
    requires
        old(st).wf(),
    ensures
        final(st).wf(),
        match old(st).sync_engine {
            None => res matches ApiStep::GatewayWrite { device_id: d, state, reply_light } && d@ == device_id@
                && state == DeviceStateValue::Light(new_light) && reply_light == new_light
                && final(st).store.entries() == old(st).store.entries(),
            Some(_) => (res matches ApiStep::Reply { response: ApiResponse::LightUpdated { new_state }, .. } && new_state == new_light)
                || (res matches ApiStep::Reply { response: ApiResponse::Error { code, .. }, .. } && code@ == "OPTIMISTIC_UPDATE_FAILED"@),
        },
        old(st).store.device(device_id@) is Some ==> match old(st).sync_engine {
            Some(e) => res matches ApiStep::Reply { response: ApiResponse::LightUpdated { new_state }, .. } && new_state == new_light
                && final(st).store.entries() == synced_entries(e, old(st).store.entries(), device_id@,
                    DeviceStateValue::Light(new_light), clock.wall_ms),
            None => true,
        },
{
    match &mut st.sync_engine {
        Some(engine) => {
            match engine.apply_optimistic_update(&mut st.store, device_id, DeviceStateValue::Light(new_light), clock) {
                Ok(notice) => {
                    let mut notices: Vec<StateChangeNotice> = Vec::new();
                    match notice { Some(n) => notices.push(n), None => {} }
                    ApiStep::Reply { response: ApiResponse::LightUpdated { new_state: new_light }, notices }
                },
                Err(e) => {
                    let t = state_error_message(&e);
                    reply(error_response("OPTIMISTIC_UPDATE_FAILED", joined("Update failed: ", t.as_str())))
                },
            }
        },
        None => ApiStep::GatewayWrite { device_id: device_id.clone(), state: DeviceStateValue::Light(new_light), reply_light: new_light },
    }
}

/// What a light update gives: `NOT_FOUND` for an unknown device, `WRONG_TYPE` for one that is
/// not a light; otherwise the merged state goes to the virtual device manager, the sync engine or
/// (without one) out to the gateway.
pub open spec fn set_light_outcome(old_st: ApiServerState, new_st: ApiServerState, device_id: Seq<char>, is_on: Option<bool>,
    brightness: Option<u8>, color_temp: Option<u16>, rgb_color: Option<RgbColor>, now: Timestamp, res: ApiStep) -> bool {
    match old_st.store.device(device_id) {
        None => res matches ApiStep::Reply { response: ApiResponse::Error { code, message }, .. }
            && code@ == "NOT_FOUND"@ && message@ == "Device not found"@ && new_st == old_st && no_notices(res),
        Some(d) => match d.state {
            DeviceStateValue::Light(cur) => {
                let new_light = merged_light(cur, is_on, brightness, color_temp, rgb_color);
                if is_virtual(d) {
                    match virtual_light_failure(old_st.manager.device(device_id), old_st.store.entries(), device_id) {
                        Some(text) => res matches ApiStep::Reply { response: ApiResponse::Error { code, message }, .. }
                            && code@ == "VIRTUAL_UPDATE_FAILED"@ && message@ == "Virtual device update failed: "@ + text,
                        None => res matches ApiStep::Reply { response: ApiResponse::LightUpdated { new_state }, .. }
                            && new_state == new_light,
                    }
                } else {
                    match old_st.sync_engine {
                        None => res matches ApiStep::GatewayWrite { device_id: id, state, reply_light } && id@ == device_id
                            && state == DeviceStateValue::Light(new_light) && reply_light == new_light
                            && new_st.store.entries() == old_st.store.entries(),
                        Some(e) => res matches ApiStep::Reply { response: ApiResponse::LightUpdated { new_state }, .. }
                            && new_state == new_light
                            && new_st.store.entries() == synced_entries(e, old_st.store.entries(), device_id,
                                DeviceStateValue::Light(new_light), now),
                    }
                }
            },
            _ => res matches ApiStep::Reply { response: ApiResponse::Error { code, message }, .. }
                && code@ == "WRONG_TYPE"@ && message@ == "Device is not a light"@ && new_st == old_st && no_notices(res),
        },
    }
}

/// The store's records after the sync engine takes a client's new state for a recorded device:
/// with optimistic updates the record takes it at `now`; without, the records are unchanged and
/// the state waits in the engine's buffer.
pub open spec fn synced_entries(e: SyncEngine, entries: Seq<crate::state::DeviceStateView>, id: Seq<char>,
    state: DeviceStateValue, now: Timestamp) -> Seq<crate::state::DeviceStateView> {
    if e.config().optimistic_updates {
        crate::store::update_state_result(entries, id, state, now)
    } else {
        entries
    }
}

/// The step is a reply that carries no state-change notices.
pub open spec fn no_notices(res: ApiStep) -> bool {
    res matches ApiStep::Reply { notices, .. } && notices@.len() == 0
}

/// `r` reports a failed scene activation, for the reason `text`.
pub open spec fn scene_failure(r: ApiResponse, text: Seq<char>) -> bool {
    r matches ApiResponse::Error { code, message } && code@ == "SCENE_FAILED"@
        && message@ == "Failed to activate scene: "@ + text
}

/// What a request to activate scene `scene_name` of virtual device `device_id` gives: a scene
/// controller leaves its scene for "none" or "", hands the steps of a scene it has to the caller
/// to run, and refuses an unknown name; a button controller takes it without effect; light groups
/// refuse it. Recording the device's new state needs its record in the store.
pub open spec fn activate_scene_outcome(st: ApiServerState, device_id: Seq<char>, scene_name: Seq<char>, res: ApiStep) -> bool {
    let activated = res matches ApiStep::Reply { response: ApiResponse::SceneActivated { device_id: d, scene_name: n }, .. }
        && d@ == device_id && n@ == scene_name;
    let recorded_or_fail = if st.store.device(device_id) is Some {
        activated
    } else {
        res matches ApiStep::Reply { response: r, .. } && scene_failure(r, "State store error: "@ + ("Device not found: "@ + device_id))
    };
    match st.manager.device(device_id) {
        None => res matches ApiStep::Reply { response: r, .. } && scene_failure(r, "Device not found: "@ + device_id),
        Some(AnyVirtualDevice::SceneController(sc)) => if crate::scene_controller::means_no_scene(scene_name) {
            recorded_or_fail
        } else {
            match crate::keyed::first_index_of(sc.scenes(), scene_name) {
                Some(i) => res matches ApiStep::RunScene { device_id: d, scene_name: n, scene_index, steps }
                    && d@ == device_id && n@ == scene_name && scene_index == i
                    && crate::manager::outcome_steps(steps) == crate::scene_controller::activation_plan(
                        sc.scenes()[i].1.device_states@, sc.scenes()[i].1.transition_type),
                None => res matches ApiStep::Reply { response: r, .. }
                    && scene_failure(r, "Configuration error: "@ + ("Scene not found: "@ + scene_name)),
            }
        },
        Some(AnyVirtualDevice::ButtonController(_)) => recorded_or_fail,
        Some(_) => res matches ApiStep::Reply { response: r, .. } && scene_failure(r, "Invalid state type for this virtual device"@),
    }
}

/// Why a light update of virtual device `vd`, filed under `id`, fails on store records `entries`,
/// as the text of the error; `None` when it succeeds.
pub open spec fn virtual_light_failure(vd: Option<AnyVirtualDevice>, entries: Seq<crate::state::DeviceStateView>, id: Seq<char>)
    -> Option<Seq<char>> {
    match vd {
        None => Some("Device not found: "@ + id),
        Some(AnyVirtualDevice::SceneController(_)) => Some("Invalid state type for this virtual device"@),
        Some(d) => match missing_write(match d {
            AnyVirtualDevice::LightGroup(g) => g.lights(),
            AnyVirtualDevice::LightGroupLinear(g) => g.member_ids(),
            _ => Seq::empty(),
        }, entries, id) {
            Some(m) => Some("State store error: "@ + ("Device not found: "@ + m)),
            None => None,
        },
    }
}

/// What an outlet update gives: `NOT_FOUND` for an unknown device, `WRONG_TYPE` for one that is
/// not an outlet; otherwise the new state goes to the sync engine or (without one) out to the
/// gateway.
pub open spec fn set_outlet_outcome(old_st: ApiServerState, new_st: ApiServerState, device_id: Seq<char>, is_on: bool,
    now: Timestamp, res: ApiStep) -> bool {
    match old_st.store.device(device_id) {
        None => res matches ApiStep::Reply { response: ApiResponse::Error { code, message }, .. }
            && code@ == "NOT_FOUND"@ && message@ == "Device not found"@ && new_st == old_st && no_notices(res),
        Some(d) => match d.state {
            DeviceStateValue::Outlet(_) => match old_st.sync_engine {
                None => res matches ApiStep::GatewayWrite { device_id: id, state, reply_light } && id@ == device_id
                    && state == DeviceStateValue::Outlet(OutletState { is_on, power_consumption_bits: None, total_energy_bits: None })
                    && reply_light == (LightState { is_on, brightness: None, color_temp: None, rgb_color: None }),
                Some(e) => res matches ApiStep::Reply { response: ApiResponse::LightUpdated { new_state }, .. }
                    && new_state == (LightState { is_on, brightness: None, color_temp: None, rgb_color: None })
                    && new_st.store.entries() == synced_entries(e, old_st.store.entries(), device_id,
                        DeviceStateValue::Outlet(OutletState { is_on, power_consumption_bits: None, total_energy_bits: None }), now),
            },
            _ => res matches ApiStep::Reply { response: ApiResponse::Error { code, message }, .. }
                && code@ == "WRONG_TYPE"@ && message@ == "Device is not an outlet"@ && new_st == old_st && no_notices(res),
        },
    }
}

/// Handles a light update: merges the given fields into the device's light state, then routes it
/// through the virtual device manager for virtual devices, the sync engine when there is one, or
/// the gateway; refused for unknown devices and devices that are not lights.
pub fn handle_set_light(st: &mut ApiServerState, device_id: &String, is_on: Option<bool>, brightness: Option<u8>,
    color_temp: Option<u16>, rgb_color: Option<RgbColor>, clock: SyncClock) -> (res: ApiStep)
    requires
        old(st).wf(),
    ensures
        final(st).wf(),
        set_light_outcome(*old(st), *final(st), device_id@, is_on, brightness, color_temp, rgb_color, clock.wall_ms, res),
{
    let record = match st.store.get_device(device_id) {
        Some(r) => r,
        None => return reply(error_response("NOT_FOUND", String::from_str("Device not found"))),
    };
    let cur = match &record.state {
        DeviceStateValue::Light(l) => *l,
        _ => return reply(error_response("WRONG_TYPE", String::from_str("Device is not a light"))),
    };
    let new_light = merge_light(cur, is_on, brightness, color_temp, rgb_color);
    if crate::light_group::contains_id(&record.device_info.device_groups, "virtual") {
        let now = clock.wall_ms;
        match st.manager.set_virtual_device_state(device_id, DeviceStateValue::Light(new_light), &mut st.store, now) {
            Ok(_) => {
                let actual = match st.manager.get_virtual_device_state(device_id) {
                    Ok(DeviceStateValue::Light(a)) => a,
                    _ => new_light,
                };
                reply(ApiResponse::LightUpdated { new_state: actual })
            },
            Err(e) => {
                let t = virtual_error_message(&e);
                reply(error_response("VIRTUAL_UPDATE_FAILED", joined("Virtual device update failed: ", t.as_str())))
            },
        }
    } else {
        physical_light_step(st, device_id, new_light, clock)
    }
}

/// Finishes a gateway write: on success the store takes the state at `now` and the change is
/// broadcast; the answer is the light state or the failure.
pub fn finish_gateway_write(st: &mut ApiServerState, device_id: &String, state: DeviceStateValue, reply_light: LightState,
    gateway_result: Result<(), GatewayError>, now: Timestamp) -> (res: (ApiResponse, Option<DeviceEvent>))
    requires
        old(st).wf(),
    ensures
        final(st).wf(),
        match gateway_result {
            Err(e) => res.0 matches ApiResponse::Error { code, message } && code@ == "GATEWAY_FAILED"@
                && message@ == "Gateway update failed: "@ + gateway_error_text(e) && res.1 is None
                && final(st).store.entries() == old(st).store.entries(),
            Ok(()) => match old(st).store.device(device_id@) {
                Some(_) => res.0 matches ApiResponse::LightUpdated { new_state } && new_state == reply_light
                    && final(st).store.entries() == crate::store::update_state_result(old(st).store.entries(), device_id@, state, now)
                    && (res.1 matches Some(ev) && ev.device_id@ == device_id@ && ev.timestamp == now
                    && (ev.event_type matches EventType::StateChanged { old_state: None, new_state: Some(s) } && s == state)),
                None => res.0 matches ApiResponse::Error { code, .. } && code@ == "STORE_UPDATE_FAILED"@ && res.1 is None,
            },
        },
{
    match gateway_result {
        Err(e) => {
            let t = gateway_error_message(&e);
            (error_response("GATEWAY_FAILED", joined("Gateway update failed: ", t.as_str())), None)
        },
        Ok(()) => {
            let ev_state = state.clone();
            match st.store.update_device_state(device_id, state, now) {
                Ok(()) => {
                    let ev = DeviceEvent {
                        timestamp: now,
                        device_id: device_id.clone(),
                        event_type: EventType::StateChanged { old_state: None, new_state: Some(ev_state) },
                    };
                    (ApiResponse::LightUpdated { new_state: reply_light }, Some(ev))
                },
                Err(e) => {
                    let t = state_error_message(&e);
                    (error_response("STORE_UPDATE_FAILED", joined("Local state update failed: ", t.as_str())), None)
                },
            }
        },
    }
}

/// Handles an outlet update: the outlet's new state has no meter readings; it goes through the
/// sync engine when there is one, else through the gateway. Refused for unknown devices and
/// devices that are not outlets. The answer reports it as a light state with only on/off.
pub fn handle_set_outlet(st: &mut ApiServerState, device_id: &String, is_on: bool, clock: SyncClock) -> (res: ApiStep)
    requires
        old(st).wf(),
    ensures
        final(st).wf(),
        set_outlet_outcome(*old(st), *final(st), device_id@, is_on, clock.wall_ms, res),
{
    match st.store.get_state(device_id.as_str()) {
        None => reply(error_response("NOT_FOUND", String::from_str("Device not found"))),
        Some(DeviceStateValue::Outlet(_)) => {
            let new_state = DeviceStateValue::Outlet(OutletState { is_on, power_consumption_bits: None, total_energy_bits: None });
            let light = LightState { is_on, brightness: None, color_temp: None, rgb_color: None };
            match &mut st.sync_engine {
                Some(engine) => match engine.apply_optimistic_update(&mut st.store, device_id, new_state, clock) {
                    Ok(notice) => {
                        let mut notices: Vec<StateChangeNotice> = Vec::new();
                        match notice { Some(n) => notices.push(n), None => {} }
                        ApiStep::Reply { response: ApiResponse::LightUpdated { new_state: light }, notices }
                    },
                    Err(e) => {
                        let t = state_error_message(&e);
                        reply(error_response("OUTLET_UPDATE_FAILED", joined("Update failed: ", t.as_str())))
                    },
                },
                None => ApiStep::GatewayWrite { device_id: device_id.clone(), state: new_state, reply_light: light },
            }
        },
        Some(_) => reply(error_response("WRONG_TYPE", String::from_str("Device is not an outlet"))),
    }
}

/// Creates a scene controller from its configuration and its scenes, once they are read; the
/// answer names the new device, or says why it could not be made.
pub fn create_scene_controller(st: &mut ApiServerState, config: VirtualDeviceConfig,
    scenes: Result<(Vec<(String, Scene)>, u64), VirtualDeviceError>, now: Timestamp) -> (res: ApiResponse)
    requires
        old(st).wf(),
    ensures
        final(st).wf(),
        match scenes {
            Ok(_) => res matches ApiResponse::VirtualDeviceCreated { device_id } && device_id@ == config@.device_id@
                && final(st).manager.device(config@.device_id@) is Some,
            Err(e) => res matches ApiResponse::Error { code, message } && code@ == "CREATE_FAILED"@
                && message@ == "Failed to create scene controller: "@ + virtual_error_text(e),
        },
{
    match scenes {
        Ok((list, ms)) => {
            let id = config.device_id.clone();
            match SceneController::new(config, list, ms) {
                Ok(sc) => {
                    let _ = st.manager.add_virtual_device(AnyVirtualDevice::SceneController(sc), &mut st.store, now);
                    ApiResponse::VirtualDeviceCreated { device_id: id }
                },
                Err(e) => {
                    let t = virtual_error_message(&e);
                    error_response("CREATE_FAILED", joined("Failed to create scene controller: ", t.as_str()))
                },
            }
        },
        Err(e) => {
            let t = virtual_error_message(&e);
            error_response("CREATE_FAILED", joined("Failed to create scene controller: ", t.as_str()))
        },
    }
}

/// Finishes a scene activation run by the caller: the controller records the scene as active and
/// the answer names it; the controller's error otherwise.
pub fn finish_scene_activation(st: &mut ApiServerState, device_id: &String, scene_name: String, scene_index: usize,
    now: Timestamp) -> (res: ApiResponse)
    requires
        old(st).wf(),
    ensures
        final(st).wf(),
        match old(st).manager.device(device_id@) {
            None => scene_failure(res, "Device not found: "@ + device_id@),
            Some(AnyVirtualDevice::SceneController(sc)) => if scene_index < sc.scenes().len() {
                if old(st).store.device(device_id@) is Some {
                    res matches ApiResponse::SceneActivated { device_id: d, scene_name: n } && d@ == device_id@ && n@ == scene_name@
                } else {
                    scene_failure(res, "State store error: "@ + ("Device not found: "@ + device_id@))
                }
            } else {
                scene_failure(res, "Invalid state type for this virtual device"@)
            },
            Some(_) => scene_failure(res, "Invalid state type for this virtual device"@),
        },
{
    match st.manager.finish_scene_activation(device_id, scene_index, &mut st.store, now) {
        Ok(()) => ApiResponse::SceneActivated { device_id: device_id.clone(), scene_name },
        Err(e) => {
            let t = virtual_error_message(&e);
            error_response("SCENE_FAILED", joined("Failed to activate scene: ", t.as_str()))
        },
    }
}

/// Decides what the server does for a request: answers it from the store and the virtual device
/// manager, or hands back the outside work it needs. `subscriber_id` names a new subscription.
pub fn handle_api_request(st: &mut ApiServerState, request: ApiRequest, subscriber_id: String, clock: SyncClock) -> (res: ApiStep)
    requires
        old(st).wf(),
    ensures
        final(st).wf(),
        match request {
            ApiRequest::DiscoverDevices => res matches ApiStep::Reply { response: ApiResponse::DeviceList { devices, total_count }, .. }
                && devices@.map_values(|d: DeviceState| d@) == old(st).store.entries()
                && total_count == count32(old(st).store.entries().len()),
            ApiRequest::ListDevices { device_type, groups, reachable_only } =>
                res matches ApiStep::Reply { response: ApiResponse::DeviceList { devices, total_count }, .. }
                && devices@.map_values(|d: DeviceState| d@) == old(st).store.entries().filter(|d: DeviceStateView| passes_filters(d,
                    match device_type { Some(f) => Some(f@), None => None },
                    match groups { Some(g) => Some(string_views(g@)), None => None }, reachable_only))
                && total_count == count32(devices@.len()),
            ApiRequest::GetDevice { device_id } => match old(st).store.device(device_id@) {
                Some(d) => res matches ApiStep::Reply { response: ApiResponse::DeviceInfo { device }, .. } && device@ == d.device_info,
                None => res matches ApiStep::Reply { response: ApiResponse::Error { code, message }, .. }
                    && code@ == "NOT_FOUND"@ && message@ == "Device not found"@,
            },
            ApiRequest::GetDeviceState { device_id } => match old(st).store.device(device_id@) {
                Some(d) => res matches ApiStep::Reply { response: ApiResponse::DeviceState { state }, .. } && state == d.state,
                None => res matches ApiStep::Reply { response: ApiResponse::Error { code, message }, .. }
                    && code@ == "NOT_FOUND"@ && message@ == "Device not found"@,
            },
            ApiRequest::Subscribe { .. } => res matches ApiStep::Reply { response: ApiResponse::SubscriptionStarted { subscriber_id: s }, .. }
                && s@ == subscriber_id@,
            ApiRequest::Ping => res matches ApiStep::Reply { response: ApiResponse::Pong, .. },
            _ => true,
        },
        (request is DiscoverDevices || request is ListDevices || request is GetDevice || request is GetDeviceState
            || request is Subscribe || request is Ping) ==> *final(st) == *old(st) && no_notices(res),
        match request {
            ApiRequest::SetLightState { device_id, is_on, brightness, color_temp, rgb_color } =>
                set_light_outcome(*old(st), *final(st), device_id@, is_on, brightness, color_temp, rgb_color, clock.wall_ms, res),
            ApiRequest::SetOutletState { device_id, is_on } => set_outlet_outcome(*old(st), *final(st), device_id@, is_on,
                clock.wall_ms, res),
            ApiRequest::CreateVirtualDevice { config } => match config.device_type {
                VirtualDeviceType::LightGroup => match crate::light_group::config_error(config@.config) {
                    Some(m) => res matches ApiStep::Reply { response: ApiResponse::Error { code, message }, .. }
                        && code@ == "CREATE_FAILED"@ && message@ == "Failed to create light group: "@ + ("Configuration error: "@ + m)
                        && *final(st) == *old(st) && no_notices(res),
                    None => res matches ApiStep::Reply { response: ApiResponse::VirtualDeviceCreated { device_id }, .. }
                        && device_id@ == config@.device_id@
                        && (final(st).manager.device(config@.device_id@) matches Some(AnyVirtualDevice::LightGroup(g))
                        && g.config_view() == config@ && g.state() == crate::light_group::initial_group_state()),
                },
                VirtualDeviceType::SceneController => res matches ApiStep::ReadScenes { config: c } && c == config
                    && *final(st) == *old(st),
                _ => res matches ApiStep::Reply { response: ApiResponse::Error { code, message }, .. }
                    && code@ == "CREATE_FAILED"@ && message@ == "Virtual device type not yet implemented"@
                    && *final(st) == *old(st) && no_notices(res),
            },
            ApiRequest::ActivateScene { device_id, scene_name } =>
                activate_scene_outcome(*old(st), device_id@, scene_name@, res),
            ApiRequest::RemoveVirtualDevice { device_id } => final(st).manager.device(device_id@) is None
                && if old(st).manager.device(device_id@) is Some && old(st).store.device(device_id@) is None {
                    res matches ApiStep::Reply { response: ApiResponse::Error { code, message }, .. } && code@ == "REMOVE_FAILED"@
                        && message@ == "Failed to remove virtual device: "@ + ("State store error: "@ + ("Device not found: "@ + device_id@))
                } else {
                    res matches ApiStep::Reply { response: ApiResponse::VirtualDeviceRemoved { device_id: d }, .. } && d@ == device_id@
                },
            _ => true,
        },
{
    match request {
        ApiRequest::DiscoverDevices => {
            let devices = st.store.list_devices();
            let total = count_of(devices.len());
            reply(ApiResponse::DeviceList { devices, total_count: total })
        },
        ApiRequest::ListDevices { device_type, groups, reachable_only } => {
            let devices = list_devices_filtered(&st.store, &device_type, &groups, reachable_only);
            let total = count_of(devices.len());
            reply(ApiResponse::DeviceList { devices, total_count: total })
        },
        ApiRequest::GetDevice { device_id } => match st.store.get_device(&device_id) {
            Some(d) => reply(ApiResponse::DeviceInfo { device: d.device_info }),
            None => reply(error_response("NOT_FOUND", String::from_str("Device not found"))),
        },
        ApiRequest::GetDeviceState { device_id } => match st.store.get_device(&device_id) {
            Some(d) => reply(ApiResponse::DeviceState { state: d.state }),
            None => reply(error_response("NOT_FOUND", String::from_str("Device not found"))),
        },
        ApiRequest::SetLightState { device_id, is_on, brightness, color_temp, rgb_color } =>
            handle_set_light(st, &device_id, is_on, brightness, color_temp, rgb_color, clock),
        ApiRequest::SetOutletState { device_id, is_on } => handle_set_outlet(st, &device_id, is_on, clock),
        ApiRequest::CreateVirtualDevice { config } => {
            match config.device_type {
                VirtualDeviceType::LightGroup => {
                    let id = config.device_id.clone();
                    match LightGroup::new(config) {
                        Ok(g) => {
                            let _ = st.manager.add_virtual_device(AnyVirtualDevice::LightGroup(g), &mut st.store, clock.wall_ms);
                            reply(ApiResponse::VirtualDeviceCreated { device_id: id })
                        },
                        Err(e) => {
                            let t = virtual_error_message(&e);
                            reply(error_response("CREATE_FAILED", joined("Failed to create light group: ", t.as_str())))
                        },
                    }
                },
                VirtualDeviceType::SceneController => ApiStep::ReadScenes { config },
                _ => reply(error_response("CREATE_FAILED", String::from_str("Virtual device type not yet implemented"))),
            }
        },
        ApiRequest::RemoveVirtualDevice { device_id } => {
            match st.manager.remove_virtual_device(&device_id, &mut st.store) {
                Ok(()) => reply(ApiResponse::VirtualDeviceRemoved { device_id }),
                Err(e) => {
                    let t = virtual_error_message(&e);
                    reply(error_response("REMOVE_FAILED", joined("Failed to remove virtual device: ", t.as_str())))
                },
            }
        },
        ApiRequest::ActivateScene { device_id, scene_name } => {
            let scene_state = DeviceStateValue::Scene(SceneState { scene_name: scene_name.clone(), is_active: true });
            match st.manager.set_virtual_device_state(&device_id, scene_state, &mut st.store, clock.wall_ms) {
                Ok(SetStateOutcome::Done) => reply(ApiResponse::SceneActivated { device_id, scene_name }),
                Ok(SetStateOutcome::SceneSteps { scene_index, steps }) =>
                    ApiStep::RunScene { device_id, scene_name, scene_index, steps },
                Err(e) => {
                    let t = virtual_error_message(&e);
                    reply(error_response("SCENE_FAILED", joined("Failed to activate scene: ", t.as_str())))
                },
            }
        },
        ApiRequest::Subscribe { .. } => reply(ApiResponse::SubscriptionStarted { subscriber_id }),
        ApiRequest::Ping => reply(ApiResponse::Pong),
    }
}

} // verus!
