//! Button controllers: virtual devices that run a configured action on a light when a button is
//! pressed or released.
use vstd::prelude::*;
use vstd::string::{StrSliceExecFns, StringExecFns};
use crate::json::{JsonValue, JsonView, json_as_bool, json_as_str, json_as_u64, json_get, json_view};
use crate::light_group::contains_id;
use crate::state::{DeviceEvent, DeviceEventView, DeviceId, DeviceInfo, DeviceState, DeviceStateValue, EventTypeView, LightState,
    Timestamp};
use crate::store::{StateStore, string_views, update_state_result};
use crate::text::str_eq;
use crate::virtual_device::{VirtualDeviceConfig, VirtualDeviceConfigView, VirtualDeviceError, VirtualDeviceType, device_info_for,
    virtual_device_info};

verus! {

/// What an action does to its light.
#[derive(Clone, Copy, Debug, PartialEq, Eq, Structural)]
pub enum ButtonCommand {
    /// Raise the brightness.
    Inc,
    /// Lower the brightness.
    Dec,
    /// Set the brightness.
    SetValue,
    /// Switch on.
    On,
    /// Switch off.
    Off,
}

/// `c` with ASCII capitals made small.
pub open spec fn ascii_lower(c: char) -> char {
    if 'A' <= c && c <= 'Z' { ((c as u32) + 32) as char } else { c }
}

/// `s` with ASCII capitals made small.
pub open spec fn ascii_lowercase(s: Seq<char>) -> Seq<char> {
    s.map_values(|c: char| ascii_lower(c))
}

/// The command a name stands for, ignoring case.
pub open spec fn command_of(s: Seq<char>) -> Option<ButtonCommand> {
    let l = ascii_lowercase(s);
    if l == seq!['i', 'n', 'c'] {
        Some(ButtonCommand::Inc)
    } else if l == seq!['d', 'e', 'c'] {
        Some(ButtonCommand::Dec)
    } else if l == seq!['s', 'e', 't'] {
        Some(ButtonCommand::SetValue)
    } else if l == seq!['o', 'n'] {
        Some(ButtonCommand::On)
    } else if l == seq!['o', 'f', 'f'] {
        Some(ButtonCommand::Off)
    } else {
        None
    }
}

fn lower_eq(c: char, w: char) -> (res: bool)
    ensures
        res == (ascii_lower(c) == w),
{
    if 'A' <= c && c <= 'Z' {
        c as u32 + 32 == w as u32
    } else {
        c == w
    }
}

/// Whether `s`, ignoring ASCII case, spells `word` (given in small letters).
fn matches_word(s: &str, word: &str) -> (res: bool)
    ensures
        res == (ascii_lowercase(s@) == word@),
{
    let n = s.unicode_len();
    if n != word.unicode_len() {
        proof {
            if ascii_lowercase(s@) == word@ {
                assert(ascii_lowercase(s@).len() == s@.len());
            }
        }
        return false;
    }
    let mut i: usize = 0;
    while i < n
        invariant
            n == s@.len(),
            n == word@.len(),
            i <= n,
            forall|k: int| 0 <= k < i ==> ascii_lower(s@[k]) == word@[k],
        decreases n - i,
    {
        if !lower_eq(s.get_char(i), word.get_char(i)) {
            proof {
                assert(ascii_lowercase(s@)[i as int] != word@[i as int]);
            }
            return false;
        }
        i = i + 1;
    }
    assert(ascii_lowercase(s@) =~= word@);
    true
}

impl ButtonCommand {
    /// The command named `s`, ignoring case: `inc`, `dec`, `set`, `on` or `off`.
    pub fn from_str(s: &str) -> (res: Option<ButtonCommand>)
        ensures
            res == command_of(s@),
    {
        proof {
            reveal_strlit("inc");
            reveal_strlit("dec");
            reveal_strlit("set");
            reveal_strlit("on");
            reveal_strlit("off");
            assert("inc"@ =~= seq!['i', 'n', 'c']);
            assert("dec"@ =~= seq!['d', 'e', 'c']);
            assert("set"@ =~= seq!['s', 'e', 't']);
            assert("on"@ =~= seq!['o', 'n']);
            assert("off"@ =~= seq!['o', 'f', 'f']);
        }
        if matches_word(s, "inc") {
            Some(ButtonCommand::Inc)
        } else if matches_word(s, "dec") {
            Some(ButtonCommand::Dec)
        } else if matches_word(s, "set") {
            Some(ButtonCommand::SetValue)
        } else if matches_word(s, "on") {
            Some(ButtonCommand::On)
        } else if matches_word(s, "off") {
            Some(ButtonCommand::Off)
        } else {
            None
        }
    }
}

/// The views of a list of JSON values.
pub open spec fn json_list(v: Seq<JsonValue>) -> Seq<JsonView> {
    v.map_values(|x: JsonValue| json_view(x))
}

/// Why an action written as `[command, device id, parameters...]` cannot run, if it cannot.
pub open spec fn action_error(a: Seq<JsonView>) -> Option<Seq<char>> {
    if a.len() < 2 {
        Some("Invalid action format"@)
    } else if json_as_str(a[0]) is None {
        Some("Command must be string"@)
    } else if json_as_str(a[1]) is None {
        Some("Device ID must be string"@)
    } else if command_of(json_as_str(a[0])->0) is None {
        Some("Unknown command: "@ + json_as_str(a[0])->0)
    } else {
        None
    }
}

/// The command of a well-formed action.
pub open spec fn action_command(a: Seq<JsonView>) -> ButtonCommand {
    command_of(json_as_str(a[0])->0)->0
}

/// The device of a well-formed action.
pub open spec fn action_device(a: Seq<JsonView>) -> Seq<char> {
    json_as_str(a[1])->0
}

/// The action's parameter, taken modulo 256, or `default` when it has no non-negative integer
/// parameter.
pub open spec fn action_param(a: Seq<JsonView>, default: u8) -> u8 {
    match if a.len() > 2 { json_as_u64(a[2]) } else { None } {
        Some(n) => (n % 256) as u8,
        None => default,
    }
}

/// The light state after running a command with parameters from `a` on light state `l`.
pub open spec fn apply_command(cmd: ButtonCommand, l: LightState, a: Seq<JsonView>) -> LightState {
    match cmd {
        ButtonCommand::Inc => {
            let cur = match l.brightness { Some(b) => b, None => 0u8 };
            let sum = cur + action_param(a, 10);
            LightState { brightness: Some(if sum < 100 { sum as u8 } else { 100u8 }), is_on: true, ..l }
        },
        ButtonCommand::Dec => {
            let cur = match l.brightness { Some(b) => b, None => 100u8 };
            let dec = action_param(a, 10);
            let new = if cur >= dec { (cur - dec) as u8 } else { 0u8 };
            LightState { brightness: Some(new), is_on: if new == 0 { false } else { l.is_on }, ..l }
        },
        ButtonCommand::SetValue => {
            let b = set_level(a);
            LightState { brightness: Some(b), is_on: b > 0, ..l }
        },
        ButtonCommand::On => LightState {
            is_on: true,
            brightness: if match l.brightness { Some(b) => b, None => 0u8 } == 0 { Some(100u8) } else { l.brightness },
            ..l
        },
        ButtonCommand::Off => LightState { is_on: false, ..l },
    }
}

/// An increment whose sum does not fit a byte: the one input on which running an action fails.
pub open spec fn action_overflows(a: Seq<JsonView>, entries: Seq<crate::state::DeviceStateView>) -> bool {
    &&& action_error(a) is None
    &&& action_command(a) == ButtonCommand::Inc
    &&& crate::keyed::lookup(entries, crate::store::device_key(), action_device(a)) matches Some(d)
    &&& d.state matches DeviceStateValue::Light(l)
    &&& (match l.brightness { Some(b) => b, None => 0u8 }) + action_param(a, 10) > 255
}

/// The store's records after an action has run on them at `now`: the named light's state is
/// changed as the command says; records are unchanged when the action is malformed, names no
/// device in the store, or names a device that is not a light.
pub open spec fn action_effect(a: Seq<JsonView>, entries: Seq<crate::state::DeviceStateView>, now: Timestamp)
    -> Seq<crate::state::DeviceStateView>
{
    if action_error(a) is Some {
        entries
    } else {
        match crate::keyed::lookup(entries, crate::store::device_key(), action_device(a)) {
            Some(d) => match d.state {
                DeviceStateValue::Light(l) => update_state_result(entries, action_device(a),
                    DeviceStateValue::Light(apply_command(action_command(a), l, a)), now),
                _ => entries,
            },
            None => entries,
        }
    }
}

/// The brightness a `set` action asks for: its non-negative integer parameter, capped at 100,
/// or 50 without one.
pub open spec fn set_level(a: Seq<JsonView>) -> u8 {
    match if a.len() > 2 { json_as_u64(a[2]) } else { None } {
        Some(n) => if n < 100 { n as u8 } else { 100u8 },
        None => 50u8,
    }
}

/// Reads the brightness a `set` action asks for.
fn set_level_of(action: &Vec<JsonValue>) -> (res: u8)
    ensures
        res == set_level(json_list(action@)),
{
    if action.len() > 2 {
        match action[2].as_u64() {
            Some(n) => if n < 100 { n as u8 } else { 100 },
            None => 50,
        }
    } else {
        50
    }
}

/// Reads an action's parameter.
fn param_of(action: &Vec<JsonValue>, default: u8) -> (res: u8)
    ensures
        res == action_param(json_list(action@), default),
{
    if action.len() > 2 {
        match action[2].as_u64() {
            Some(n) => (n % 256) as u8,
            None => default,
        }
    } else {
        default
    }
}

/// Runs an action written as `[command, device id, parameters...]` on the store at time `now`:
/// the device's light state is changed as the command says; a device that is not a light is left
/// alone. Refused when the action is malformed or names no device in the store.
pub fn execute_action(action: &Vec<JsonValue>, store: &mut StateStore, now: Timestamp) -> (res: Result<(), VirtualDeviceError>)
    requires
        old(store).wf(),
        !action_overflows(json_list(action@), old(store).entries()),
    ensures
        final(store).wf(),
        final(store).groups() == old(store).groups(),
        ({
            let a = json_list(action@);
            match action_error(a) {
                Some(m) => res matches Err(VirtualDeviceError::Config(e)) && e@ == m
                    && final(store).entries() == old(store).entries(),
                None => match old(store).device(action_device(a)) {
                    None => res matches Err(VirtualDeviceError::DeviceNotFound(d)) && d@ == action_device(a)
                        && final(store).entries() == old(store).entries(),
                    Some(d) => res is Ok && match d.state {
                        DeviceStateValue::Light(l) => final(store).entries() == update_state_result(old(store).entries(),
                            action_device(a), DeviceStateValue::Light(apply_command(action_command(a), l, a)), now),
                        _ => final(store).entries() == old(store).entries(),
                    },
                },
            }
        }),
{
    let ghost a = json_list(action@);
    if action.len() < 2 {
        return Err(VirtualDeviceError::Config(String::from_str("Invalid action format")));
    }
    assert(a[0] == json_view(action@[0]) && a[1] == json_view(action@[1]));
    let cmd_str = match action[0].as_str() {
        Some(c) => c,
        None => return Err(VirtualDeviceError::Config(String::from_str("Command must be string"))),
    };
    let device_id = match action[1].as_str() {
        Some(d) => d,
        None => return Err(VirtualDeviceError::Config(String::from_str("Device ID must be string"))),
    };
    let cmd = match ButtonCommand::from_str(cmd_str.as_str()) {
        Some(c) => c,
        None => {
            let mut m = String::from_str("Unknown command: ");
            m.append(cmd_str.as_str());
            return Err(VirtualDeviceError::Config(m));
        },
    };
    let current = match store.get_state(device_id.as_str()) {
        Some(s) => s,
        None => return Err(VirtualDeviceError::DeviceNotFound(device_id.clone())),
    };
    match current {
        DeviceStateValue::Light(l) => {
            let mut light_state = l;
            match cmd {
                ButtonCommand::Inc => {
                    let increment = param_of(action, 10);
                    let cur: u8 = match light_state.brightness { Some(b) => b, None => 0 };
                    let sum: u8 = cur + increment;
                    light_state.brightness = Some(if sum < 100 { sum } else { 100 });
                    light_state.is_on = true;
                },
                ButtonCommand::Dec => {
                    let decrement = param_of(action, 10);
                    let cur: u8 = match light_state.brightness { Some(b) => b, None => 100 };
                    let new_brightness: u8 = cur.saturating_sub(decrement);
                    light_state.brightness = Some(new_brightness);
                    if new_brightness == 0 {
                        light_state.is_on = false;
                    }
                },
                ButtonCommand::SetValue => {
                    let brightness = set_level_of(action);
                    light_state.brightness = Some(brightness);
                    light_state.is_on = brightness > 0;
                },
                ButtonCommand::On => {
                    light_state.is_on = true;
                    if match light_state.brightness { Some(b) => b, None => 0 } == 0 {
                        light_state.brightness = Some(100);
                    }
                },
                ButtonCommand::Off => {
                    light_state.is_on = false;
                },
            }
            match store.update_device_state(device_id, DeviceStateValue::Light(light_state), now) {
                Ok(()) => Ok(()),
                Err(e) => Err(VirtualDeviceError::StateStore(e)),
            }
        },
        _ => Ok(()),
    }
}

/// Whether an action would overflow an increment when run on the store.
pub fn would_overflow(action: &Vec<JsonValue>, store: &StateStore) -> (res: bool)
    requires
        store.wf(),
    ensures
        res == action_overflows(json_list(action@), store.entries()),
{
    let ghost a = json_list(action@);
    if action.len() < 2 {
        return false;
    }
    assert(a[0] == json_view(action@[0]) && a[1] == json_view(action@[1]));
    let cmd_str = match action[0].as_str() {
        Some(c) => c,
        None => return false,
    };
    let device_id = match action[1].as_str() {
        Some(d) => d,
        None => return false,
    };
    match ButtonCommand::from_str(cmd_str.as_str()) {
        Some(ButtonCommand::Inc) => {},
        _ => return false,
    }
    match store.get_state(device_id.as_str()) {
        Some(DeviceStateValue::Light(l)) => {
            let cur: u8 = match l.brightness { Some(b) => b, None => 0 };
            let inc = param_of(action, 10);
            cur as u16 + inc as u16 > 255
        },
        _ => false,
    }
}

/// Whether an event reports button `button_id` as pressed (`Some(true)`) or released
/// (`Some(false)`): a `state` attribute change whose new value has a boolean `is_pressed`, an
/// `isOn` or `buttonState` attribute change to a boolean, or a state change to a switch state.
pub open spec fn press_of(button_id: Seq<char>, e: DeviceEventView) -> Option<bool> {
    if e.device_id != button_id {
        None
    } else {
        match e.event_type {
            EventTypeView::AttributeChanged { attribute, new_value, .. } => if attribute == "state"@ {
                match json_get(new_value, "is_pressed"@) {
                    Some(v) => json_as_bool(v),
                    None => None,
                }
            } else if attribute == "isOn"@ || attribute == "buttonState"@ {
                json_as_bool(new_value)
            } else {
                None
            },
            EventTypeView::StateChanged { new_state: Some(DeviceStateValue::Switch(s)), .. } => Some(s.is_pressed),
            _ => None,
        }
    }
}

/// The device named by an action, when its second element is a string.
pub open spec fn action_target(a: Seq<JsonView>) -> Option<Seq<char>> {
    if a.len() > 1 { json_as_str(a[1]) } else { None }
}

/// A button controller: runs its press action when its button is pressed and its release action
/// when it is released.
pub struct ButtonController {
    config: VirtualDeviceConfig,
    button_id: String,
    press_on_action: Vec<JsonValue>,
    press_off_action: Vec<JsonValue>,
    press_on_long_action: Option<Vec<JsonValue>>,
    press_off_long_action: Option<Vec<JsonValue>>,
}

impl ButtonController {
    /// The configuration the controller was made from.
    pub closed spec fn config_view(&self) -> VirtualDeviceConfigView {
        self.config@
    }

    /// The button the controller listens to.
    pub closed spec fn button(&self) -> Seq<char> {
        self.button_id@
    }

    /// The action a press runs.
    pub closed spec fn press_on(&self) -> Seq<JsonView> {
        json_list(self.press_on_action@)
    }

    /// The action a release runs.
    pub closed spec fn press_off(&self) -> Seq<JsonView> {
        json_list(self.press_off_action@)
    }

    /// The devices the actions name: the press action's, then the release action's when it
    /// differs.
    pub open spec fn action_targets(&self) -> Seq<Seq<char>> {
        match (action_target(self.press_on()), action_target(self.press_off())) {
            (Some(a), Some(b)) => if a == b { seq![a] } else { seq![a, b] },
            (Some(a), None) => seq![a],
            (None, Some(b)) => seq![b],
            (None, None) => Seq::empty(),
        }
    }

    /// Makes a controller for button `button_id` with its actions.
    pub fn new(config: VirtualDeviceConfig, button_id: String, press_on: Vec<JsonValue>, press_off: Vec<JsonValue>,
        press_on_long: Option<Vec<JsonValue>>, press_off_long: Option<Vec<JsonValue>>) -> (res: Result<ButtonController, VirtualDeviceError>)
        ensures
            res matches Ok(c) && c.config_view() == config@ && c.button() == button_id@
                && c.press_on() == json_list(press_on@) && c.press_off() == json_list(press_off@),
    {
        Ok(ButtonController {
            config,
            button_id,
            press_on_action: press_on,
            press_off_action: press_off,
            press_on_long_action: press_on_long,
            press_off_long_action: press_off_long,
        })
    }

    /// Whether an event reports this controller's button as pressed or released.
    pub fn press_from_event(&self, event: &DeviceEvent) -> (res: Option<bool>)
        ensures
            res == press_of(self.button(), event@),
    {
        if !str_eq(event.device_id.as_str(), self.button_id.as_str()) {
            return None;
        }
        match &event.event_type {
            crate::state::EventType::AttributeChanged { attribute, new_value, .. } => {
                if str_eq(attribute.as_str(), "state") {
                    match new_value.get("is_pressed") {
                        Some(v) => v.as_bool(),
                        None => None,
                    }
                } else if str_eq(attribute.as_str(), "isOn") || str_eq(attribute.as_str(), "buttonState") {
                    new_value.as_bool()
                } else {
                    None
                }
            },
            crate::state::EventType::StateChanged { new_state: Some(DeviceStateValue::Switch(s)), .. } => Some(s.is_pressed),
            _ => None,
        }
    }

    /// The action to run for an event: the press action when the event reports the button
    /// pressed, the release action when it reports it released, none otherwise.
    pub fn action_for_event(&self, event: &DeviceEvent) -> (res: Option<&Vec<JsonValue>>)
        ensures
            match press_of(self.button(), event@) {
                Some(true) => res matches Some(a) && json_list(a@) == self.press_on(),
                Some(false) => res matches Some(a) && json_list(a@) == self.press_off(),
                None => res is None,
            },
    {
        match self.press_from_event(event) {
            Some(true) => Some(&self.press_on_action),
            Some(false) => Some(&self.press_off_action),
            None => None,
        }
    }

    /// Handles an event at time `now`: runs the action it calls for on the store, and reports its
    /// outcome; `None` when the event calls for no action.
    pub fn handle_event_at(&self, event: &DeviceEvent, store: &mut StateStore, now: Timestamp)
        -> (res: Option<Result<(), VirtualDeviceError>>)
        requires
            old(store).wf(),
            match press_of(self.button(), event@) {
                Some(true) => !action_overflows(self.press_on(), old(store).entries()),
                Some(false) => !action_overflows(self.press_off(), old(store).entries()),
                None => true,
            },
        ensures
            final(store).wf(),
            final(store).groups() == old(store).groups(),
            final(store).entries() == match press_of(self.button(), event@) {
                Some(p) => action_effect(if p { self.press_on() } else { self.press_off() }, old(store).entries(), now),
                None => old(store).entries(),
            },
            match press_of(self.button(), event@) {
                None => res is None && final(store).entries() == old(store).entries(),
                Some(p) => res is Some && ({
                    let a = if p { self.press_on() } else { self.press_off() };
                    match action_error(a) {
                        Some(m) => res->0 matches Err(VirtualDeviceError::Config(e)) && e@ == m
                            && final(store).entries() == old(store).entries(),
                        None => match old(store).device(action_device(a)) {
                            None => res->0 matches Err(VirtualDeviceError::DeviceNotFound(d)) && d@ == action_device(a)
                                && final(store).entries() == old(store).entries(),
                            Some(d) => res->0 is Ok && match d.state {
                                DeviceStateValue::Light(l) => final(store).entries() == update_state_result(old(store).entries(),
                                    action_device(a), DeviceStateValue::Light(apply_command(action_command(a), l, a)), now),
                                _ => final(store).entries() == old(store).entries(),
                            },
                        },
                    }
                }),
            },
    {
        match self.action_for_event(event) {
            Some(action) => Some(execute_action(action, store, now)),
            None => None,
        }
    }

    /// The devices the controller's actions name: the press action's, then the release action's
    /// when it differs.
    pub fn output_devices(&self) -> (res: Vec<DeviceId>)
        ensures
            string_views(res@) == self.action_targets(),
    {
        let mut devices: Vec<DeviceId> = Vec::new();
        if self.press_on_action.len() > 1 {
            assert(self.press_on()[1] == json_view(self.press_on_action@[1]));
            match self.press_on_action[1].as_str() {
                Some(d) => devices.push(d.clone()),
                None => {},
            }
        }
        assert(string_views(devices@) =~= match action_target(self.press_on()) {
            Some(a) => seq![a],
            None => Seq::<Seq<char>>::empty(),
        });
        if self.press_off_action.len() > 1 {
            assert(self.press_off()[1] == json_view(self.press_off_action@[1]));
            match self.press_off_action[1].as_str() {
                Some(d) => {
                    proof {
                        if string_views(devices@).len() == 1 {
                            assert(string_views(devices@)[0] == string_views(devices@).last());
                        }
                    }
                    if !contains_id(&devices, d.as_str()) {
                        devices.push(d.clone());
                    }
                },
                None => {},
            }
        }
        proof {
            let v = string_views(devices@);
            match (action_target(self.press_on()), action_target(self.press_off())) {
                (Some(a), Some(b)) => {
                    if a == b {
                        assert(v =~= seq![a]);
                    } else {
                        assert(v =~= seq![a, b]);
                    }
                },
                (Some(a), None) => assert(v =~= seq![a]),
                (None, Some(b)) => assert(v =~= seq![b]),
                (None, None) => assert(v =~= Seq::<Seq<char>>::empty()),
            }
        }
        devices
    }

    /// The devices the controller listens to: its button.
    pub fn input_devices(&self) -> (res: Vec<DeviceId>)
        ensures
            string_views(res@) == seq![self.button()],
    {
        let v = vec![self.button_id.clone()];
        assert(string_views(v@) =~= seq![self.button()]);
        v
    }

    /// A controller has no state of its own.
    pub fn current_state(&self) -> (res: DeviceStateValue)
        ensures
            res == DeviceStateValue::Empty,
    {
        DeviceStateValue::Empty
    }

    /// A controller has no state to set: accepted and ignored.
    pub fn set_state(&mut self, new_state: DeviceStateValue) -> (res: Result<(), VirtualDeviceError>)
        ensures
            res is Ok,
            *final(self) == *old(self),
    {
        Ok(())
    }

    /// Device changes reach a controller through its events instead: accepted and ignored.
    pub fn on_input_changed(&mut self, device_id: &DeviceId, new_state: &DeviceState) -> (res: Result<(), VirtualDeviceError>)
        ensures
            res is Ok,
            *final(self) == *old(self),
    {
        Ok(())
    }

    /// The controller's id.
    pub fn device_id(&self) -> (res: &DeviceId)
        ensures
            res@ == self.config_view().device_id@,
    {
        &self.config.device_id
    }

    /// The kind of virtual device this is.
    pub fn device_type(&self) -> (res: VirtualDeviceType)
        ensures
            res == VirtualDeviceType::ButtonController,
    {
        VirtualDeviceType::ButtonController
    }

    /// The configuration the controller was made from.
    pub fn config(&self) -> (res: &VirtualDeviceConfig)
        ensures
            res@ == self.config_view(),
    {
        &self.config
    }

    /// The information the controller exposes at time `now`.
    pub fn device_info_at(&self, now: Timestamp) -> (res: DeviceInfo)
        ensures
            virtual_device_info(self.config_view(), VirtualDeviceType::ButtonController, now, res@),
    {
        device_info_for(&self.config, VirtualDeviceType::ButtonController, now)
    }
}

/// An increment turns the light on and never dims it: the new brightness is the old one (none
/// counting as 0) raised by the step, capped at 100, so at least the old one when that is at
/// most 100.
pub proof fn law_inc_turns_on(l: LightState, a: Seq<JsonView>)
    ensures
        apply_command(ButtonCommand::Inc, l, a).is_on,
        apply_command(ButtonCommand::Inc, l, a).brightness matches Some(b) && b <= 100
            && (match l.brightness { Some(old) => old <= 100 ==> old <= b, None => true }),
{
}

/// Turning on leaves the light on; turning off leaves it off, keeping its brightness.
pub proof fn law_on_off(l: LightState, a: Seq<JsonView>)
    ensures
        apply_command(ButtonCommand::On, l, a).is_on,
        !apply_command(ButtonCommand::Off, l, a).is_on,
        apply_command(ButtonCommand::Off, l, a).brightness == l.brightness,
{
}

/// A decrement never brightens: the new brightness is at most the old one (none counting as
/// 100); reaching 0 turns the light off, and otherwise the light stays as on or off as it was.
pub proof fn law_dec_dims(l: LightState, a: Seq<JsonView>)
    ensures
        apply_command(ButtonCommand::Dec, l, a).brightness matches Some(b)
            && b <= (match l.brightness { Some(old) => old, None => 100u8 })
            && (b == 0 ==> !apply_command(ButtonCommand::Dec, l, a).is_on)
            && (b > 0 ==> apply_command(ButtonCommand::Dec, l, a).is_on == l.is_on),
{
}

/// Setting a level gives a brightness of at most 100, and the light is on exactly when it is
/// positive.
pub proof fn law_set_level_in_range(l: LightState, a: Seq<JsonView>)
    ensures
        apply_command(ButtonCommand::SetValue, l, a).brightness matches Some(b)
            && b <= 100 && apply_command(ButtonCommand::SetValue, l, a).is_on == (b > 0),
{
}

/// Turning on always leaves a visible light: its brightness is set and positive.
pub proof fn law_on_is_visible(l: LightState, a: Seq<JsonView>)
    requires
        match l.brightness { Some(b) => b <= 100, None => true },
    ensures
        apply_command(ButtonCommand::On, l, a).brightness matches Some(b) && 0 < b <= 100,
{
}

/// No command touches the colour settings.
pub proof fn law_commands_keep_colour(cmd: ButtonCommand, l: LightState, a: Seq<JsonView>)
    ensures
        apply_command(cmd, l, a).color_temp == l.color_temp,
        apply_command(cmd, l, a).rgb_color == l.rgb_color,
{
}

} // verus!
