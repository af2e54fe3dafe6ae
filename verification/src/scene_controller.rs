//! Scene controllers: virtual devices that put several devices into a named scene.
use vstd::prelude::*;
use vstd::string::{StrSliceExecFns, StringExecFns};
use crate::keyed::{first_index_of, find_first};
use crate::light_group::contains_id;
use crate::state::{DeviceId, DeviceInfo, DeviceStateValue, LightState, SceneState, SensorState, SwitchState, Timestamp};
use crate::store::string_views;
use crate::virtual_device::{VirtualDeviceConfig, VirtualDeviceConfigView, VirtualDeviceError, VirtualDeviceType, device_info_for,
    virtual_device_info};

verus! {

/// How a scene's devices reach their states.
#[derive(Debug)]
pub enum TransitionType {
    /// All at once.
    Instant,
    /// In frames 100 ms apart over the given time.
    Fade { duration_ms: u64 },
    /// One after another, the `i`th after waiting `delays_ms[i]` (no wait when absent).
    Sequence { delays_ms: Vec<u64> },
}

/// A scene: the state each of its devices takes, and how.
#[derive(Debug)]
pub struct Scene {
    pub name: String,
    pub device_states: Vec<(DeviceId, DeviceStateValue)>,
    pub transition_type: TransitionType,
}

/// A scene controller's own state: the active scene, or "none".
#[derive(Debug)]
pub struct VirtualSceneState {
    pub scene_name: String,
    pub is_active: bool,
}

/// One step of bringing a scene about.
#[derive(Debug)]
pub enum SceneStep {
    /// Wait this many milliseconds.
    Sleep(u64),
    /// Give the device this state.
    Write(DeviceId, DeviceStateValue),
    /// Give the device the state `step / steps` of the way from its current state to the target.
    Blend { device_id: DeviceId, target: DeviceStateValue, step: u64, steps: u64 },
}

/// The content of a [`SceneStep`].
pub enum SceneStepView {
    Sleep(u64),
    Write(Seq<char>, DeviceStateValue),
    Blend { device_id: Seq<char>, target: DeviceStateValue, step: u64, steps: u64 },
}

impl View for SceneStep {
    type V = SceneStepView;

    open spec fn view(&self) -> SceneStepView {
        match *self {
            SceneStep::Sleep(ms) => SceneStepView::Sleep(ms),
            SceneStep::Write(id, s) => SceneStepView::Write(id@, s),
            SceneStep::Blend { device_id, target, step, steps } => SceneStepView::Blend { device_id: device_id@, target, step, steps },
        }
    }
}

/// The writes of a scene's device states, in order.
pub open spec fn write_steps(devices: Seq<(DeviceId, DeviceStateValue)>) -> Seq<SceneStepView> {
    devices.map_values(|d: (DeviceId, DeviceStateValue)| SceneStepView::Write(d.0@, d.1))
}

/// The steps of a sequence: each write preceded by its positive delay.
pub open spec fn sequence_steps(devices: Seq<(DeviceId, DeviceStateValue)>, delays: Seq<u64>, n: nat) -> Seq<SceneStepView>
    decreases n,
{
    if n == 0 || n > devices.len() {
        Seq::empty()
    } else {
        let i = n - 1;
        let pause = if i < delays.len() && delays[i] > 0 { seq![SceneStepView::Sleep(delays[i])] } else { Seq::empty() };
        sequence_steps(devices, delays, (n - 1) as nat) + pause + seq![SceneStepView::Write(devices[i].0@, devices[i].1)]
    }
}

/// The frames of a fade over `steps` 100 ms intervals: frames `0..=steps`, each blending every
/// device, with a 100 ms wait after every frame but the last.
pub open spec fn fade_steps(devices: Seq<(DeviceId, DeviceStateValue)>, steps: u64, n: nat) -> Seq<SceneStepView>
    decreases n,
{
    if n == 0 {
        Seq::empty()
    } else {
        let step = (n - 1) as u64;
        let frame = devices.map_values(|d: (DeviceId, DeviceStateValue)|
            SceneStepView::Blend { device_id: d.0@, target: d.1, step: step, steps: steps });
        let pause = if step < steps { seq![SceneStepView::Sleep(100)] } else { Seq::empty() };
        fade_steps(devices, steps, (n - 1) as nat) + frame + pause
    }
}

/// The steps that bring a scene about.
pub open spec fn activation_plan(devices: Seq<(DeviceId, DeviceStateValue)>, t: TransitionType) -> Seq<SceneStepView> {
    match t {
        TransitionType::Instant => write_steps(devices),
        TransitionType::Fade { duration_ms } => if duration_ms / 100 == 0 {
            write_steps(devices)
        } else {
            fade_steps(devices, duration_ms / 100, (duration_ms / 100 + 1) as nat)
        },
        TransitionType::Sequence { delays_ms } => sequence_steps(devices, delays_ms@, devices.len()),
    }
}

/// The state a device is assumed to start a fade from when the store has none: an unlit light,
/// a released switch, an empty sensor reading stamped `now`; otherwise the target itself.
pub open spec fn default_state_for(target: DeviceStateValue, now: Timestamp) -> DeviceStateValue {
    match target {
        DeviceStateValue::Light(_) => DeviceStateValue::Light(LightState { is_on: false, brightness: Some(0), color_temp: Some(2700), rgb_color: None }),
        DeviceStateValue::Switch(_) => DeviceStateValue::Switch(SwitchState { is_pressed: false, last_pressed: None, battery_level: None }),
        DeviceStateValue::Sensor(_) => DeviceStateValue::Sensor(SensorState { temperature_bits: None, humidity_bits: None, last_updated: now }),
        _ => target,
    }
}

/// `s` without repeats, each element kept where it first occurs.
pub open spec fn dedup(s: Seq<Seq<char>>) -> Seq<Seq<char>>
    decreases s.len(),
{
    if s.len() == 0 {
        Seq::empty()
    } else {
        let d = dedup(s.drop_last());
        if d.contains(s.last()) { d } else { d.push(s.last()) }
    }
}

/// The device ids the first `n` scenes set, scene by scene, in order.
pub open spec fn scene_device_ids(scenes: Seq<(String, Scene)>, n: nat) -> Seq<Seq<char>>
    decreases n,
{
    if n == 0 || n > scenes.len() {
        Seq::empty()
    } else {
        scene_device_ids(scenes, (n - 1) as nat)
            + scenes[n - 1].1.device_states@.map_values(|d: (DeviceId, DeviceStateValue)| d.0@)
    }
}

/// What a request to set a scene controller's state asks for.
#[derive(Debug, Clone, Copy, PartialEq, Eq, Structural)]
pub enum SceneRequest {
    /// Leave any scene.
    Deactivate,
    /// Bring about the scene at this position.
    Activate(usize),
}

/// A name that means "no scene".
pub open spec fn means_no_scene(name: Seq<char>) -> bool {
    name == "none"@ || name.len() == 0
}

/// The state a device is assumed to start a fade from when the store has none: a light off at
/// brightness 0 and 2700 K, a released switch, a sensor without readings at `now`, else the
/// target itself.
pub fn default_state_for_target(target: &DeviceStateValue, now: Timestamp) -> (res: DeviceStateValue)
    ensures
        res == default_state_for(*target, now),
{
    match target {
        DeviceStateValue::Light(_) => DeviceStateValue::Light(LightState { is_on: false, brightness: Some(0), color_temp: Some(2700), rgb_color: None }),
        DeviceStateValue::Switch(_) => DeviceStateValue::Switch(SwitchState { is_pressed: false, last_pressed: None, battery_level: None }),
        DeviceStateValue::Sensor(_) => DeviceStateValue::Sensor(SensorState { temperature_bits: None, humidity_bits: None, last_updated: now }),
        _ => target.clone(),
    }
}

/// A scene controller.
pub struct SceneController {
    config: VirtualDeviceConfig,
    scenes: Vec<(String, Scene)>,
    current_scene: Option<String>,
    transition_duration_ms: u64,
    current_state: VirtualSceneState,
}

impl SceneController {
    /// The configuration the controller was made from.
    pub closed spec fn config_view(&self) -> VirtualDeviceConfigView {
        self.config@
    }

    /// The scenes, by name.
    pub closed spec fn scenes(&self) -> Seq<(String, Scene)> {
        self.scenes@
    }

    /// The active scene, if any.
    pub closed spec fn current_scene(&self) -> Option<Seq<char>> {
        match self.current_scene {
            Some(s) => Some(s@),
            None => None,
        }
    }

    /// The controller's own state: (scene name, active).
    pub closed spec fn state(&self) -> (Seq<char>, bool) {
        (self.current_state.scene_name@, self.current_state.is_active)
    }

    /// Makes a controller with its scenes, by name, and its default transition time.
    pub fn new(config: VirtualDeviceConfig, scenes: Vec<(String, Scene)>, transition_duration_ms: u64)
        -> (res: Result<SceneController, VirtualDeviceError>)
        ensures
            res matches Ok(c) && c.config_view() == config@ && c.scenes() == scenes@ && c.current_scene() is None
                && c.state() == ("none"@, false),
    {
        Ok(SceneController {
            config,
            scenes,
            current_scene: None,
            transition_duration_ms,
            current_state: VirtualSceneState { scene_name: String::from_str("none"), is_active: false },
        })
    }

    /// What setting the controller to `new_state` asks for: leaving the scene for a scene state
    /// named "none" or "", the named scene otherwise; refused for other states, and for a name
    /// no scene has.
    pub fn scene_request(&self, new_state: &DeviceStateValue) -> (res: Result<SceneRequest, VirtualDeviceError>)
        ensures
            match new_state {
                DeviceStateValue::Scene(s) => if means_no_scene(s.scene_name@) {
                    res == Ok::<SceneRequest, VirtualDeviceError>(SceneRequest::Deactivate)
                } else {
                    match first_index_of(self.scenes(), s.scene_name@) {
                        Some(i) => res == Ok::<SceneRequest, VirtualDeviceError>(SceneRequest::Activate(i as usize)),
                        None => res matches Err(VirtualDeviceError::Config(m)) && m@ == "Scene not found: "@ + s.scene_name@,
                    }
                },
                _ => res matches Err(VirtualDeviceError::InvalidStateType),
            },
            res matches Ok(SceneRequest::Activate(i)) ==> i < self.scenes().len()
                && (*new_state matches DeviceStateValue::Scene(st) && first_index_of(self.scenes(), st.scene_name@) == Some(i as int)),
    {
        match new_state {
            DeviceStateValue::Scene(s) => {
                proof { reveal_strlit("none"); }
                if crate::text::str_eq(s.scene_name.as_str(), "none") || s.scene_name.as_str().unicode_len() == 0 {
                    return Ok(SceneRequest::Deactivate);
                }
                match find_first(&self.scenes, s.scene_name.as_str()) {
                    Some(i) => Ok(SceneRequest::Activate(i)),
                    None => {
                        let mut m = String::from_str("Scene not found: ");
                        m.append(s.scene_name.as_str());
                        Err(VirtualDeviceError::Config(m))
                    },
                }
            },
            _ => Err(VirtualDeviceError::InvalidStateType),
        }
    }

    /// How many scenes the controller has.
    pub fn scene_count(&self) -> (res: usize)
        ensures
            res == self.scenes().len(),
    {
        self.scenes.len()
    }

    /// Leaves any scene.
    pub fn deactivate(&mut self)
        ensures
            final(self).current_scene() is None,
            final(self).state() == ("none"@, false),
            final(self).scenes() == old(self).scenes(),
            final(self).config_view() == old(self).config_view(),
    {
        self.current_scene = None;
        self.current_state = VirtualSceneState { scene_name: String::from_str("none"), is_active: false };
    }

    /// Records the scene at position `i` as active, once it has been brought about.
    pub fn mark_active(&mut self, i: usize)
        requires
            i < old(self).scenes().len(),
        ensures
            final(self).current_scene() == Some(old(self).scenes()[i as int].0@),
            final(self).state() == (old(self).scenes()[i as int].0@, true),
            final(self).scenes() == old(self).scenes(),
            final(self).config_view() == old(self).config_view(),
    {
        let name = self.scenes[i].0.clone();
        self.current_scene = Some(name.clone());
        self.current_state = VirtualSceneState { scene_name: name, is_active: true };
    }

    /// The steps that bring about the scene at position `i`.
    pub fn activation_steps(&self, i: usize) -> (res: Vec<SceneStep>)
        requires
            i < self.scenes().len(),
        ensures
            res@.map_values(|s: SceneStep| s@) == activation_plan(self.scenes()[i as int].1.device_states@,
                self.scenes()[i as int].1.transition_type),
    {
        let scene = &self.scenes[i].1;
        match &scene.transition_type {
            TransitionType::Instant => write_step_list(&scene.device_states),
            TransitionType::Fade { duration_ms } => {
                let steps = *duration_ms / 100;
                if steps == 0 {
                    write_step_list(&scene.device_states)
                } else {
                    fade_step_list(&scene.device_states, steps)
                }
            },
            TransitionType::Sequence { delays_ms } => sequence_step_list(&scene.device_states, delays_ms),
        }
    }

    /// Every device some scene sets, each once, in order of first mention.
    pub fn get_all_scene_devices(&self) -> (res: Vec<DeviceId>)
        ensures
            string_views(res@) == dedup(scene_device_ids(self.scenes(), self.scenes().len())),
    {
        let mut out: Vec<DeviceId> = Vec::new();
        let mut i: usize = 0;
        while i < self.scenes.len()
            invariant
                i <= self.scenes@.len(),
                string_views(out@) == dedup(scene_device_ids(self.scenes@, i as nat)),
            decreases self.scenes@.len() - i,
        {
            let devices = &self.scenes[i].1.device_states;
            let ghost prefix = scene_device_ids(self.scenes@, i as nat);
            let ghost ids = devices@.map_values(|d: (DeviceId, DeviceStateValue)| d.0@);
            let mut j: usize = 0;
            while j < devices.len()
                invariant
                    i < self.scenes@.len(),
                    devices == &self.scenes@[i as int].1.device_states,
                    ids == devices@.map_values(|d: (DeviceId, DeviceStateValue)| d.0@),
                    j <= devices@.len(),
                    string_views(out@) == dedup(prefix + ids.take(j as int)),
                decreases devices@.len() - j,
            {
                let ghost before = out@;
                let ghost s2 = (prefix + ids.take(j as int)).push(devices@[j as int].0@);
                assert(prefix + ids.take(j as int + 1) =~= s2);
                assert(s2.drop_last() =~= prefix + ids.take(j as int));
                assert(s2.last() == devices@[j as int].0@);
                if !contains_id(&out, devices[j].0.as_str()) {
                    out.push(devices[j].0.clone());
                    assert(string_views(out@) =~= string_views(before).push(devices@[j as int].0@));
                }
                j = j + 1;
            }
            assert(ids.take(devices@.len() as int) =~= ids);
            assert(scene_device_ids(self.scenes@, i as nat + 1) == prefix + ids);
            i = i + 1;
        }
        out
    }

    /// The state a device is assumed to start a fade from when the store has none.
    pub fn get_default_state_for_target(&self, target: &DeviceStateValue, now: Timestamp) -> (res: DeviceStateValue)
        ensures
            res == default_state_for(*target, now),
    {
        default_state_for_target(target, now)
    }

    /// The controller's state as a device state.
    pub closed spec fn scene_state_value(&self) -> DeviceStateValue {
        DeviceStateValue::Scene(SceneState { scene_name: self.current_state.scene_name, is_active: self.current_state.is_active })
    }

    /// The controller's state as a device state carries its scene name and activity.
    pub proof fn lemma_state_value(&self)
        ensures
            self.scene_state_value() matches DeviceStateValue::Scene(s) && s.scene_name@ == self.state().0
                && s.is_active == self.state().1,
    {
    }

    /// The controller's state, as a device state.
    pub fn current_state(&self) -> (res: DeviceStateValue)
        ensures
            res == self.scene_state_value(),
            res matches DeviceStateValue::Scene(s) && s.scene_name@ == self.state().0 && s.is_active == self.state().1,
    {
        DeviceStateValue::Scene(SceneState { scene_name: self.current_state.scene_name.clone(), is_active: self.current_state.is_active })
    }

    /// The devices the controller drives: every device some scene sets, each once.
    pub fn output_devices(&self) -> (res: Vec<DeviceId>)
        ensures
            string_views(res@) == dedup(scene_device_ids(self.scenes(), self.scenes().len())),
    {
        self.get_all_scene_devices()
    }

    /// The controller's id.
    pub fn device_id(&self) -> (res: &DeviceId)
        ensures
            res@ == self.config_view().device_id@,
    {
        &self.config.device_id
    }

    /// The kind of virtual device this is.
    pub fn device_type(&self) -> (res: VirtualDeviceType)
        ensures
            res == VirtualDeviceType::SceneController,
    {
        VirtualDeviceType::SceneController
    }

    /// The configuration the controller was made from.
    pub fn config(&self) -> (res: &VirtualDeviceConfig)
        ensures
            res@ == self.config_view(),
    {
        &self.config
    }

    /// The information the controller exposes at time `now`.
    pub fn device_info_at(&self, now: Timestamp) -> (res: DeviceInfo)
        ensures
            virtual_device_info(self.config_view(), VirtualDeviceType::SceneController, now, res@),
    {
        device_info_for(&self.config, VirtualDeviceType::SceneController, now)
    }
}

fn clone_device_entry(d: &(DeviceId, DeviceStateValue)) -> (res: (DeviceId, DeviceStateValue))
    ensures
        res.0@ == d.0@,
        res.1 == d.1,
{
    (d.0.clone(), d.1.clone())
}

fn write_step_list(devices: &Vec<(DeviceId, DeviceStateValue)>) -> (res: Vec<SceneStep>)
    ensures
        res@.map_values(|s: SceneStep| s@) == write_steps(devices@),
{
    let mut out: Vec<SceneStep> = Vec::new();
    let mut i: usize = 0;
    while i < devices.len()
        invariant
            i <= devices@.len(),
            out@.map_values(|s: SceneStep| s@) == write_steps(devices@.take(i as int)),
        decreases devices@.len() - i,
    {
        let (id, st) = clone_device_entry(&devices[i]);
        out.push(SceneStep::Write(id, st));
        assert(write_steps(devices@.take(i as int + 1)) =~= write_steps(devices@.take(i as int)).push(
            SceneStepView::Write(devices@[i as int].0@, devices@[i as int].1)));
        assert(out@.map_values(|s: SceneStep| s@) =~= write_steps(devices@.take(i as int + 1)));
        i = i + 1;
    }
    assert(devices@.take(devices@.len() as int) =~= devices@);
    out
}

fn sequence_step_list(devices: &Vec<(DeviceId, DeviceStateValue)>, delays: &Vec<u64>) -> (res: Vec<SceneStep>)
    ensures
        res@.map_values(|s: SceneStep| s@) == sequence_steps(devices@, delays@, devices@.len()),
{
    let mut out: Vec<SceneStep> = Vec::new();
    let mut i: usize = 0;
    while i < devices.len()
        invariant
            i <= devices@.len(),
            out@.map_values(|s: SceneStep| s@) == sequence_steps(devices@, delays@, i as nat),
        decreases devices@.len() - i,
    {
        let ghost before = out@.map_values(|s: SceneStep| s@);
        if i < delays.len() && delays[i] > 0 {
            out.push(SceneStep::Sleep(delays[i]));
        }
        let (id, st) = clone_device_entry(&devices[i]);
        out.push(SceneStep::Write(id, st));
        proof {
            let pause = if i < delays@.len() && delays@[i as int] > 0 { seq![SceneStepView::Sleep(delays@[i as int])] } else { Seq::empty() };
            assert(out@.map_values(|s: SceneStep| s@) =~= before + pause + seq![SceneStepView::Write(devices@[i as int].0@, devices@[i as int].1)]);
        }
        i = i + 1;
    }
    out
}

fn fade_step_list(devices: &Vec<(DeviceId, DeviceStateValue)>, steps: u64) -> (res: Vec<SceneStep>)
    requires
        steps > 0,
        steps < u64::MAX,
    ensures
        res@.map_values(|s: SceneStep| s@) == fade_steps(devices@, steps, (steps + 1) as nat),
{
    let mut out: Vec<SceneStep> = Vec::new();
    let mut step: u64 = 0;
    while step <= steps
        invariant
            step <= steps + 1,
            steps < u64::MAX,
            out@.map_values(|s: SceneStep| s@) == fade_steps(devices@, steps, step as nat),
        decreases steps + 1 - step,
    {
        let ghost before = out@.map_values(|s: SceneStep| s@);
        let ghost frame = devices@.map_values(|d: (DeviceId, DeviceStateValue)|
            SceneStepView::Blend { device_id: d.0@, target: d.1, step: step, steps: steps });
        let mut i: usize = 0;
        while i < devices.len()
            invariant
                i <= devices@.len(),
                out@.map_values(|s: SceneStep| s@) == before + frame.take(i as int),
                frame == devices@.map_values(|d: (DeviceId, DeviceStateValue)|
                    SceneStepView::Blend { device_id: d.0@, target: d.1, step: step, steps: steps }),
            decreases devices@.len() - i,
        {
            let ghost inner = out@;
            let (id, st) = clone_device_entry(&devices[i]);
            out.push(SceneStep::Blend { device_id: id, target: st, step, steps });
            assert(out@ =~= inner.push(SceneStep::Blend { device_id: id, target: st, step, steps }));
            assert(frame[i as int] == SceneStepView::Blend { device_id: devices@[i as int].0@, target: devices@[i as int].1, step: step, steps: steps });
            assert(out@.map_values(|s: SceneStep| s@) =~= inner.map_values(|s: SceneStep| s@).push(frame[i as int]));
            assert(frame.take(i as int + 1) =~= frame.take(i as int).push(frame[i as int]));
            assert(out@.map_values(|s: SceneStep| s@) =~= before + frame.take(i as int + 1));
            i = i + 1;
        }
        assert(frame.take(devices@.len() as int) =~= frame);
        if step < steps {
            out.push(SceneStep::Sleep(100));
        }
        proof {
            let pause = if step < steps { seq![SceneStepView::Sleep(100)] } else { Seq::empty() };
            assert(out@.map_values(|s: SceneStep| s@) =~= before + frame + pause);
            assert(((step + 1) as nat - 1) as u64 == step);
        }
        step = step + 1;
    }
    out
}

/// The time the steps spend sleeping, in ms.
pub open spec fn slept(steps: Seq<SceneStepView>) -> nat
    decreases steps.len(),
{
    if steps.len() == 0 {
        0
    } else {
        slept(steps.drop_last()) + match steps.last() {
            SceneStepView::Sleep(ms) => ms as nat,
            _ => 0nat,
        }
    }
}

/// The steps with the sleeps left out, in order.
pub open spec fn without_sleeps(steps: Seq<SceneStepView>) -> Seq<SceneStepView>
    decreases steps.len(),
{
    if steps.len() == 0 {
        Seq::empty()
    } else {
        without_sleeps(steps.drop_last()) + if steps.last() is Sleep { Seq::empty() } else { seq![steps.last()] }
    }
}

/// The sum of the first `n` delays (fewer when there are fewer).
pub open spec fn delay_sum(delays: Seq<u64>, n: nat) -> nat
    decreases n,
{
    if n == 0 {
        0
    } else {
        delay_sum(delays, (n - 1) as nat) + if n - 1 < delays.len() { delays[n - 1] as nat } else { 0nat }
    }
}

proof fn lemma_slept_concat(a: Seq<SceneStepView>, b: Seq<SceneStepView>)
    ensures
        slept(a + b) == slept(a) + slept(b),
        without_sleeps(a + b) == without_sleeps(a) + without_sleeps(b),
    decreases b.len(),
{
    if b.len() == 0 {
        assert(a + b =~= a);
        assert(without_sleeps(a) + without_sleeps(b) =~= without_sleeps(a));
    } else {
        lemma_slept_concat(a, b.drop_last());
        assert((a + b).drop_last() =~= a + b.drop_last());
        assert((a + b).last() == b.last());
        assert(without_sleeps(a + b) =~= without_sleeps(a) + without_sleeps(b));
    }
}

proof fn lemma_single(x: SceneStepView)
    ensures
        slept(seq![x]) == match x { SceneStepView::Sleep(ms) => ms as nat, _ => 0nat },
        without_sleeps(seq![x]) == if x is Sleep { Seq::<SceneStepView>::empty() } else { seq![x] },
{
    let w = seq![x];
    assert(w.drop_last() =~= Seq::<SceneStepView>::empty());
    assert(w.last() == x);
    assert(slept(w.drop_last()) == 0);
    assert(without_sleeps(w.drop_last()) == Seq::<SceneStepView>::empty());
    assert(Seq::<SceneStepView>::empty() + seq![x] =~= seq![x]);
    assert(Seq::<SceneStepView>::empty() + Seq::<SceneStepView>::empty() =~= Seq::<SceneStepView>::empty());
}

proof fn lemma_sequence_shape(devices: Seq<(DeviceId, DeviceStateValue)>, delays: Seq<u64>, n: nat)
    requires
        n <= devices.len(),
    ensures
        slept(sequence_steps(devices, delays, n)) == delay_sum(delays, n),
        without_sleeps(sequence_steps(devices, delays, n))
            =~= Seq::new(n, |i: int| SceneStepView::Write(devices[i].0@, devices[i].1)),
        sequence_steps(devices, delays, n).len() >= n,
    decreases n,
{
    if n > 0 {
        let i = n - 1;
        lemma_sequence_shape(devices, delays, (n - 1) as nat);
        let prev = sequence_steps(devices, delays, (n - 1) as nat);
        let pause = if i < delays.len() && delays[i] > 0 { seq![SceneStepView::Sleep(delays[i])] } else { Seq::empty() };
        let w = seq![SceneStepView::Write(devices[i].0@, devices[i].1)];
        lemma_slept_concat(prev, pause);
        lemma_slept_concat(prev + pause, w);
        lemma_single(SceneStepView::Write(devices[i].0@, devices[i].1));
        if i < delays.len() && delays[i] > 0 {
            lemma_single(SceneStepView::Sleep(delays[i]));
        } else {
            assert(slept(pause) == 0);
            assert(without_sleeps(pause) == Seq::<SceneStepView>::empty());
        }
        assert(prev + pause + w == (prev + pause) + w);
    }
}

proof fn lemma_sequence_prefix(devices: Seq<(DeviceId, DeviceStateValue)>, delays: Seq<u64>, m: nat, n: nat)
    requires
        m <= n <= devices.len(),
    ensures
        sequence_steps(devices, delays, m).len() <= sequence_steps(devices, delays, n).len(),
        sequence_steps(devices, delays, n).take(sequence_steps(devices, delays, m).len() as int)
            == sequence_steps(devices, delays, m),
    decreases n,
{
    let sm = sequence_steps(devices, delays, m);
    if m == n {
        assert(sm.take(sm.len() as int) =~= sm);
    } else {
        lemma_sequence_prefix(devices, delays, m, (n - 1) as nat);
        let prev = sequence_steps(devices, delays, (n - 1) as nat);
        let sn = sequence_steps(devices, delays, n);
        let i = n - 1;
        let pause = if i < delays.len() && delays[i] > 0 { seq![SceneStepView::Sleep(delays[i])] } else { Seq::empty() };
        assert(sn == prev + pause + seq![SceneStepView::Write(devices[i].0@, devices[i].1)]);
        assert(sn.take(sm.len() as int) =~= prev.take(sm.len() as int));
    }
}

/// A sequence writes every device of the scene once, in the scene's order, with nothing but
/// sleeps between the writes.
pub proof fn law_sequence_writes_each_device_in_order(devices: Seq<(DeviceId, DeviceStateValue)>, delays_ms: Vec<u64>)
    ensures
        without_sleeps(activation_plan(devices, TransitionType::Sequence { delays_ms })) == write_steps(devices),
{
    lemma_sequence_shape(devices, delays_ms@, devices.len());
    assert(write_steps(devices) =~= Seq::new(devices.len(), |i: int| SceneStepView::Write(devices[i].0@, devices[i].1)));
}

/// A sequence keeps the configured delays: in all it sleeps the sum of the delays of the scene's
/// devices, and the `i`th device is written once exactly `delays[0] + ... + delays[i]` ms have
/// been slept (a missing delay counting as 0), so a positive delay comes right before its write.
pub proof fn law_sequence_keeps_delays(devices: Seq<(DeviceId, DeviceStateValue)>, delays_ms: Vec<u64>, i: int)
    requires
        0 <= i < devices.len(),
    ensures
        slept(activation_plan(devices, TransitionType::Sequence { delays_ms })) == delay_sum(delays_ms@, devices.len()),
        exists|j: int| #![trigger activation_plan(devices, TransitionType::Sequence { delays_ms })[j]]
            0 <= j < activation_plan(devices, TransitionType::Sequence { delays_ms }).len()
            && activation_plan(devices, TransitionType::Sequence { delays_ms })[j]
                == SceneStepView::Write(devices[i].0@, devices[i].1)
            && slept(activation_plan(devices, TransitionType::Sequence { delays_ms }).take(j))
                == delay_sum(delays_ms@, (i + 1) as nat)
            && (i < delays_ms@.len() && delays_ms@[i] > 0 ==> j > 0
                && activation_plan(devices, TransitionType::Sequence { delays_ms })[j - 1]
                    == SceneStepView::Sleep(delays_ms@[i])),
{
    let delays = delays_ms@;
    let n = devices.len();
    let steps = sequence_steps(devices, delays, n);
    lemma_sequence_shape(devices, delays, n);
    let k = (i + 1) as nat;
    lemma_sequence_prefix(devices, delays, k, n);
    lemma_sequence_shape(devices, delays, i as nat);
    let sk = sequence_steps(devices, delays, k);
    let prev = sequence_steps(devices, delays, i as nat);
    let pause = if i < delays.len() && delays[i] > 0 { seq![SceneStepView::Sleep(delays[i])] } else { Seq::empty() };
    let w = SceneStepView::Write(devices[i].0@, devices[i].1);
    assert(sk == prev + pause + seq![w]);
    let j = sk.len() - 1;
    assert(steps.take(sk.len() as int) == sk);
    assert(steps[j] == sk[j]);
    assert(sk[j] == w);
    assert(steps.take(j) =~= prev + pause) by {
        assert(steps.take(j) =~= sk.take(j));
    }
    lemma_slept_concat(prev, pause);
    if i < delays.len() && delays[i] > 0 {
        lemma_single(SceneStepView::Sleep(delays[i]));
        assert(steps[j - 1] == sk[j - 1]);
    } else {
        assert(slept(pause) == 0);
    }
    assert(slept(steps.take(j)) == delay_sum(delays, k));
}

} // verus!
