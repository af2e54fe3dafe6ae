//! The virtual device manager: holds the virtual devices and routes device changes to them.
use vstd::prelude::*;
use vstd::string::StringExecFns;
use crate::button_controller::{ButtonController, action_effect, action_overflows, press_of, would_overflow};
use crate::keyed::{keys_unique, pair_key, table_find, table_get, table_insert, table_insert_exec, table_remove, table_remove_exec, lemma_table_get_insert, lemma_table_get_remove, has_key, lookup, lemma_lookup_after_update, lemma_lookup_after_push, lemma_update_same_key, lemma_push_fresh_key, lemma_lookup_at, index_of_key};
use crate::light_group::LightGroup;
use crate::light_group_linear::LightGroupLinear;
use crate::scene_controller::{SceneController, SceneRequest, SceneStep, dedup, scene_device_ids};
use crate::state::{DeviceEvent, DeviceEventView, DeviceId, DeviceInfo, DeviceInfoView, DeviceState, DeviceStateValue, DeviceStateView, DeviceType, Timestamp, clone_strings};
use crate::store::{StateStore, StateError, add_device_result, device_key, law_remove_undoes_add_record, new_record, string_views, lemma_take_filter_step};
use crate::virtual_device::{VirtualDeviceConfig, VirtualDeviceConfigView, VirtualDeviceError, VirtualDeviceType, virtual_device_info};

verus! {

/// A virtual device of any kind.
pub enum AnyVirtualDevice {
    LightGroup(LightGroup),
    LightGroupLinear(LightGroupLinear),
    ButtonController(ButtonController),
    SceneController(SceneController),
}

impl AnyVirtualDevice {
    /// The configuration the device was made from.
    pub open spec fn config_view(&self) -> VirtualDeviceConfigView {
        match self {
            AnyVirtualDevice::LightGroup(g) => g.config_view(),
            AnyVirtualDevice::LightGroupLinear(g) => g.config_view(),
            AnyVirtualDevice::ButtonController(b) => b.config_view(),
            AnyVirtualDevice::SceneController(s) => s.config_view(),
        }
    }

    /// The device's id.
    pub open spec fn id(&self) -> Seq<char> {
        self.config_view().device_id@
    }

    /// The kind of the device.
    pub open spec fn kind(&self) -> VirtualDeviceType {
        match self {
            AnyVirtualDevice::LightGroup(_) => VirtualDeviceType::LightGroup,
            AnyVirtualDevice::LightGroupLinear(_) => VirtualDeviceType::LightGroupLinear,
            AnyVirtualDevice::ButtonController(_) => VirtualDeviceType::ButtonController,
            AnyVirtualDevice::SceneController(_) => VirtualDeviceType::SceneController,
        }
    }

    /// The devices whose changes this device follows.
    pub open spec fn inputs(&self) -> Seq<Seq<char>> {
        match self {
            AnyVirtualDevice::LightGroup(g) => g.lights(),
            AnyVirtualDevice::LightGroupLinear(g) => g.member_ids(),
            AnyVirtualDevice::ButtonController(b) => seq![b.button()],
            AnyVirtualDevice::SceneController(_) => Seq::empty(),
        }
    }

    /// The devices this device drives: a group's members, a controller's action targets, a scene
    /// controller's scene devices.
    pub open spec fn outputs(&self) -> Seq<Seq<char>> {
        match self {
            AnyVirtualDevice::LightGroup(g) => g.lights(),
            AnyVirtualDevice::LightGroupLinear(g) => g.member_ids(),
            AnyVirtualDevice::ButtonController(b) => b.action_targets(),
            AnyVirtualDevice::SceneController(s) => dedup(scene_device_ids(s.scenes(), s.scenes().len())),
        }
    }

    /// The device's own state.
    pub open spec fn state_value(&self) -> DeviceStateValue {
        match self {
            AnyVirtualDevice::LightGroup(g) => DeviceStateValue::Light(g.state()),
            AnyVirtualDevice::LightGroupLinear(g) => DeviceStateValue::Light(g.state()),
            AnyVirtualDevice::ButtonController(_) => DeviceStateValue::Empty,
            AnyVirtualDevice::SceneController(s) => s.scene_state_value(),
        }
    }

    /// The device's own invariant holds.
    pub open spec fn wf(&self) -> bool {
        match self {
            AnyVirtualDevice::LightGroup(g) => g.wf(),
            AnyVirtualDevice::LightGroupLinear(g) => g.wf(),
            _ => true,
        }
    }

    /// The device's id.
    pub fn device_id(&self) -> (res: &DeviceId)
        ensures
            res@ == self.id(),
    {
        match self {
            AnyVirtualDevice::LightGroup(g) => g.device_id(),
            AnyVirtualDevice::LightGroupLinear(g) => g.device_id(),
            AnyVirtualDevice::ButtonController(b) => b.device_id(),
            AnyVirtualDevice::SceneController(s) => s.device_id(),
        }
    }

    /// The kind of the device.
    pub fn device_type(&self) -> (res: VirtualDeviceType)
        ensures
            res == self.kind(),
    {
        match self {
            AnyVirtualDevice::LightGroup(g) => g.device_type(),
            AnyVirtualDevice::LightGroupLinear(g) => g.device_type(),
            AnyVirtualDevice::ButtonController(b) => b.device_type(),
            AnyVirtualDevice::SceneController(s) => s.device_type(),
        }
    }

    /// The configuration the device was made from.
    pub fn config(&self) -> (res: &VirtualDeviceConfig)
        ensures
            res@ == self.config_view(),
    {
        match self {
            AnyVirtualDevice::LightGroup(g) => g.config(),
            AnyVirtualDevice::LightGroupLinear(g) => g.config(),
            AnyVirtualDevice::ButtonController(b) => b.config(),
            AnyVirtualDevice::SceneController(s) => s.config(),
        }
    }

    /// The devices whose changes this device follows.
    pub fn input_devices(&self) -> (res: Vec<DeviceId>)
        ensures
            string_views(res@) == self.inputs(),
    {
        match self {
            AnyVirtualDevice::LightGroup(g) => g.input_devices(),
            AnyVirtualDevice::LightGroupLinear(g) => g.input_devices(),
            AnyVirtualDevice::ButtonController(b) => b.input_devices(),
            AnyVirtualDevice::SceneController(_) => {
                let v: Vec<DeviceId> = Vec::new();
                assert(string_views(v@) =~= Seq::<Seq<char>>::empty());
                v
            },
        }
    }

    /// The devices this device drives.
    pub fn output_devices(&self) -> (res: Vec<DeviceId>)
        ensures
            string_views(res@) == self.outputs(),
    {
        match self {
            AnyVirtualDevice::LightGroup(g) => g.output_devices(),
            AnyVirtualDevice::LightGroupLinear(g) => g.output_devices(),
            AnyVirtualDevice::ButtonController(b) => b.output_devices(),
            AnyVirtualDevice::SceneController(s) => s.output_devices(),
        }
    }

    /// The device's own state.
    pub fn current_state(&self) -> (res: DeviceStateValue)
        ensures
            res == self.state_value(),
    {
        match self {
            AnyVirtualDevice::LightGroup(g) => g.current_state(),
            AnyVirtualDevice::LightGroupLinear(g) => g.current_state(),
            AnyVirtualDevice::ButtonController(b) => b.current_state(),
            AnyVirtualDevice::SceneController(s) => s.current_state(),
        }
    }

    /// The information the device exposes at time `now`.
    pub fn device_info_at(&self, now: Timestamp) -> (res: DeviceInfo)
        ensures
            virtual_device_info(self.config_view(), self.kind(), now, res@),
    {
        match self {
            AnyVirtualDevice::LightGroup(g) => g.device_info_at(now),
            AnyVirtualDevice::LightGroupLinear(g) => g.device_info_at(now),
            AnyVirtualDevice::ButtonController(b) => b.device_info_at(now),
            AnyVirtualDevice::SceneController(s) => s.device_info_at(now),
        }
    }
}

/// The store's records and the number of actions run after the first `n` devices have had
/// event `e` at `now`: each button controller the event presses or releases runs its action,
/// unless that action would take a brightness past a byte; other devices do nothing.
pub open spec fn dispatch_outcome(devices: Seq<(String, AnyVirtualDevice)>, e: DeviceEventView,
    entries: Seq<DeviceStateView>, now: Timestamp, n: nat) -> (Seq<DeviceStateView>, nat)
    decreases n,
{
    if n == 0 || n > devices.len() {
        (entries, 0)
    } else {
        let (before, ran) = dispatch_outcome(devices, e, entries, now, (n - 1) as nat);
        match devices[n - 1].1 {
            AnyVirtualDevice::ButtonController(b) => match press_of(b.button(), e) {
                Some(p) => {
                    let a = if p { b.press_on() } else { b.press_off() };
                    if action_overflows(a, before) {
                        (before, ran)
                    } else {
                        (action_effect(a, before, now), ran + 1)
                    }
                },
                None => (before, ran),
            },
            _ => (before, ran),
        }
    }
}

/// The first device without a record when writing to devices `ids` and then to device `id`, in
/// that order, on records `entries`; `None` when every write finds its record.
pub open spec fn missing_write(ids: Seq<Seq<char>>, entries: Seq<DeviceStateView>, id: Seq<char>) -> Option<Seq<char>> {
    match crate::store::first_missing(entries, ids) {
        Some(k) => Some(ids[k]),
        None => if lookup(entries, device_key(), id) is Some { None } else { Some(id) },
    }
}

/// What setting virtual device `d`, filed under `id`, to light state `new_state` on records
/// `entries` gives, with `d2` the device afterwards: a light group takes the state, writes its
/// members and then its own record; a button controller keeps its state and writes its own record;
/// a scene controller refuses the state. A write that finds no record is reported as not found.
pub open spec fn light_set_outcome(d: AnyVirtualDevice, d2: AnyVirtualDevice, new_state: DeviceStateValue,
    entries: Seq<DeviceStateView>, id: Seq<char>, res: Result<SetStateOutcome, VirtualDeviceError>) -> bool {
    let writes = match d {
        AnyVirtualDevice::LightGroup(g) => g.lights(),
        AnyVirtualDevice::LightGroupLinear(g) => g.member_ids(),
        _ => Seq::empty(),
    };
    match d {
        AnyVirtualDevice::SceneController(_) => d2.state_value() == d.state_value()
            && res matches Err(VirtualDeviceError::InvalidStateType),
        _ => d2.state_value() == (if d is ButtonController { d.state_value() } else { new_state })
            && match missing_write(writes, entries, id) {
                Some(m) => res matches Err(VirtualDeviceError::StateStore(StateError::DeviceNotFound(x))) && x@ == m,
                None => res matches Ok(SetStateOutcome::Done),
            },
    }
}

/// What setting virtual device `d`, filed under `id`, to a scene state named `name` on records
/// `entries` gives, with `d2` the device afterwards: a scene controller leaves its scene for
/// "none" or "" and writes its own record, hands back the steps of a scene it has, and refuses an
/// unknown name; a button controller keeps its state and writes its own record; a light group
/// refuses the state.
pub open spec fn scene_set_outcome(d: AnyVirtualDevice, d2: AnyVirtualDevice, name: Seq<char>,
    entries: Seq<DeviceStateView>, id: Seq<char>, res: Result<SetStateOutcome, VirtualDeviceError>) -> bool {
    let own_write = if lookup(entries, device_key(), id) is Some {
        res matches Ok(SetStateOutcome::Done)
    } else {
        res matches Err(VirtualDeviceError::StateStore(StateError::DeviceNotFound(x))) && x@ == id
    };
    match d {
        AnyVirtualDevice::SceneController(sc) => if crate::scene_controller::means_no_scene(name) {
            own_write && (d2.state_value() matches DeviceStateValue::Scene(v) && v.scene_name@ == "none"@ && !v.is_active)
        } else {
            d2.state_value() == d.state_value() && match crate::keyed::first_index_of(sc.scenes(), name) {
                Some(i) => res matches Ok(SetStateOutcome::SceneSteps { scene_index, steps }) && scene_index == i
                    && outcome_steps(steps) == crate::scene_controller::activation_plan(
                        sc.scenes()[i].1.device_states@, sc.scenes()[i].1.transition_type),
                None => res matches Err(VirtualDeviceError::Config(m)) && m@ == "Scene not found: "@ + name,
            }
        },
        AnyVirtualDevice::ButtonController(_) => own_write && d2.state_value() == d.state_value(),
        _ => res matches Err(VirtualDeviceError::InvalidStateType) && d2.state_value() == d.state_value(),
    }
}

/// A result with its success value dropped.
pub open spec fn unit_result(res: Result<SetStateOutcome, VirtualDeviceError>) -> Result<(), VirtualDeviceError> {
    match res {
        Ok(_) => Ok(()),
        Err(e) => Err(e),
    }
}

/// The steps of a scene-activation outcome, read as step contents.
pub open spec fn outcome_steps(steps: Vec<SceneStep>) -> Seq<crate::scene_controller::SceneStepView> {
    steps@.map_values(|s: SceneStep| s@)
}

impl AnyVirtualDevice {
    /// Sets the device's state at time `now`, as its kind does: light groups take a light state
    /// and drive their members; button controllers accept anything and ignore it; scene
    /// controllers leave their scene, or hand back the steps of the requested scene.
    pub fn set_state_at(&mut self, new_state: DeviceStateValue, store: &mut StateStore, now: Timestamp)
        -> (res: Result<SetStateOutcome, VirtualDeviceError>)
        requires
            old(self).wf(),
            old(store).wf(),
        ensures
            final(self).wf(),
            final(store).wf(),
            final(store).groups() == old(store).groups(),
            final(self).config_view() == old(self).config_view(),
            final(self).kind() == old(self).kind(),
            final(self).inputs() == old(self).inputs(),
            match *old(self) {
                AnyVirtualDevice::LightGroup(g) => match new_state {
                    DeviceStateValue::Light(ls) => final(self).state_value() == DeviceStateValue::Light(ls)
                        && (res is Ok ==> res matches Ok(SetStateOutcome::Done))
                        && crate::light_group::writes_outcome(old(store).entries(), g.lights(), g.member_states(ls), now,
                            unit_result(res), final(store).entries()),
                    _ => res matches Err(VirtualDeviceError::InvalidStateType) && final(self).state_value() == old(self).state_value()
                        && final(store).entries() == old(store).entries(),
                },
                AnyVirtualDevice::LightGroupLinear(g) => match new_state {
                    DeviceStateValue::Light(ls) => final(self).state_value() == DeviceStateValue::Light(ls)
                        && (res is Ok ==> res matches Ok(SetStateOutcome::Done))
                        && crate::light_group::writes_outcome(old(store).entries(), g.member_ids(), g.member_states(ls), now,
                            unit_result(res), final(store).entries()),
                    _ => res matches Err(VirtualDeviceError::InvalidStateType) && final(self).state_value() == old(self).state_value()
                        && final(store).entries() == old(store).entries(),
                },
                AnyVirtualDevice::ButtonController(_) => res matches Ok(SetStateOutcome::Done)
                    && final(self).state_value() == old(self).state_value() && final(store).entries() == old(store).entries(),
                AnyVirtualDevice::SceneController(sc) => final(store).entries() == old(store).entries() && match new_state {
                    DeviceStateValue::Scene(st) => if crate::scene_controller::means_no_scene(st.scene_name@) {
                        res matches Ok(SetStateOutcome::Done) && final(self).state_value() matches DeviceStateValue::Scene(v)
                            && v.scene_name@ == "none"@ && !v.is_active
                    } else {
                        final(self).state_value() == old(self).state_value() && match crate::keyed::first_index_of(sc.scenes(), st.scene_name@) {
                            Some(i) => res matches Ok(SetStateOutcome::SceneSteps { scene_index, steps }) && scene_index == i
                                && outcome_steps(steps) == crate::scene_controller::activation_plan(
                                    sc.scenes()[i].1.device_states@, sc.scenes()[i].1.transition_type),
                            None => res matches Err(VirtualDeviceError::Config(m)) && m@ == "Scene not found: "@ + st.scene_name@,
                        }
                    },
                    _ => res matches Err(VirtualDeviceError::InvalidStateType) && final(self).state_value() == old(self).state_value(),
                },
            },
    {
        match self {
            AnyVirtualDevice::LightGroup(g) => match g.set_state(new_state, store, now) {
                Ok(()) => Ok(SetStateOutcome::Done),
                Err(e) => Err(e),
            },
            AnyVirtualDevice::LightGroupLinear(g) => match g.set_state(new_state, store, now) {
                Ok(()) => Ok(SetStateOutcome::Done),
                Err(e) => Err(e),
            },
            AnyVirtualDevice::ButtonController(b) => match b.set_state(new_state) {
                Ok(()) => Ok(SetStateOutcome::Done),
                Err(e) => Err(e),
            },
            AnyVirtualDevice::SceneController(sc) => {
                proof { sc.lemma_state_value(); }
                match sc.scene_request(&new_state) {
                    Ok(SceneRequest::Deactivate) => {
                        sc.deactivate();
                        proof { sc.lemma_state_value(); }
                        Ok(SetStateOutcome::Done)
                    },
                    Ok(SceneRequest::Activate(i)) => {
                        Ok(SetStateOutcome::SceneSteps { scene_index: i, steps: sc.activation_steps(i) })
                    },
                    Err(e) => Err(e),
                }
            },
        }
    }
}

impl AnyVirtualDevice {
    /// Lets the device react to a change of device `device_id`: light groups recompute their
    /// state from the store when it is a member; other kinds ignore it.
    pub fn on_input_changed(&mut self, device_id: &DeviceId, new_state: &DeviceState, store: &StateStore)
        -> (res: Result<(), VirtualDeviceError>)
        requires
            old(self).wf(),
            store.wf(),
        ensures
            res is Ok,
            final(self).wf(),
            final(self).config_view() == old(self).config_view(),
            final(self).kind() == old(self).kind(),
            final(self).inputs() == old(self).inputs(),
            match *old(self) {
                AnyVirtualDevice::LightGroup(g) => final(self).state_value() == DeviceStateValue::Light(
                    if g.lights().contains(device_id@) {
                        crate::light_group::aggregate_state(g.state(), store.entries(), g.lights())
                    } else {
                        g.state()
                    }),
                AnyVirtualDevice::LightGroupLinear(g) => final(self).state_value() == DeviceStateValue::Light(
                    if g.member_ids().contains(device_id@) {
                        crate::light_group::aggregate_state(g.state(), store.entries(), g.member_ids())
                    } else {
                        g.state()
                    }),
                _ => final(self).state_value() == old(self).state_value(),
            },
    {
        match self {
            AnyVirtualDevice::LightGroup(g) => g.on_input_changed(device_id, new_state, store),
            AnyVirtualDevice::LightGroupLinear(g) => g.on_input_changed(device_id, new_state, store),
            AnyVirtualDevice::ButtonController(b) => b.on_input_changed(device_id, new_state),
            AnyVirtualDevice::SceneController(_) => Ok(()),
        }
    }
}

/// A mapping from a device id to a list of device ids, read as sequences.
pub open spec fn mapping_get(m: Seq<(String, Vec<String>)>, k: Seq<char>) -> Option<Seq<Seq<char>>> {
    match table_get(m, k) {
        Some(v) => Some(string_views(v@)),
        None => None,
    }
}

/// The list under `q` after appending `id`, for each of the first `n` inputs equal to `q`.
pub open spec fn added_under(before: Option<Seq<Seq<char>>>, inputs: Seq<Seq<char>>, q: Seq<char>, id: Seq<char>, n: nat)
    -> Option<Seq<Seq<char>>>
    decreases n,
{
    if n == 0 || n > inputs.len() {
        before
    } else {
        let prev = added_under(before, inputs, q, id, (n - 1) as nat);
        if inputs[n - 1] == q {
            Some(match prev { Some(v) => v.push(id), None => seq![id] })
        } else {
            prev
        }
    }
}

/// The list under `q` after dropping `id` from it, when `q` is one of the first `n` inputs; an
/// emptied list is dropped.
pub open spec fn removed_under(before: Option<Seq<Seq<char>>>, inputs: Seq<Seq<char>>, q: Seq<char>, id: Seq<char>, n: nat)
    -> Option<Seq<Seq<char>>>
    decreases n,
{
    if n == 0 || n > inputs.len() {
        before
    } else {
        let prev = removed_under(before, inputs, q, id, (n - 1) as nat);
        if inputs[n - 1] == q {
            list_without(prev, id)
        } else {
            prev
        }
    }
}

/// The test that keeps the strings other than `id`.
pub open spec fn other_than(id: Seq<char>) -> spec_fn(Seq<char>) -> bool {
    |e: Seq<char>| e != id
}

/// Appends `id` to the list under `p`, making the list when there is none.
fn mapping_add(m: &mut Vec<(String, Vec<String>)>, p: &String, id: &String)
    requires
        keys_unique(old(m)@, pair_key::<Vec<String>>()),
    ensures
        keys_unique(final(m)@, pair_key::<Vec<String>>()),
        forall|q: Seq<char>| #[trigger] mapping_get(final(m)@, q) == if q == p@ {
            Some(match mapping_get(old(m)@, q) { Some(v) => v.push(id@), None => seq![id@] })
        } else {
            mapping_get(old(m)@, q)
        },
{
    let ghost before = m@;
    match table_find(m, p.as_str()) {
        Some(i) => {
            let mut list = clone_strings(&m[i].1);
            list.push(id.clone());
            let ghost kv = (m@[i as int].0, list);
            proof {
                lemma_update_same_key(before, pair_key::<Vec<String>>(), i as int, kv);
                lemma_lookup_after_update(before, pair_key::<Vec<String>>(), i as int, kv);
                lemma_lookup_at(before, pair_key::<Vec<String>>(), p@, i as int);
            }
            let key = m[i].0.clone();
            m.set(i, (key, list));
            proof {
                assert(m@ =~= before.update(i as int, kv));
                assert forall|q: Seq<char>| #[trigger] mapping_get(m@, q) == if q == p@ {
                    Some(match mapping_get(before, q) { Some(v) => v.push(id@), None => seq![id@] })
                } else {
                    mapping_get(before, q)
                } by {
                    assert(lookup(m@, pair_key::<Vec<String>>(), q) == if q == p@ { Some(kv) } else { lookup(before, pair_key::<Vec<String>>(), q) });
                    if q == p@ {
                        assert(string_views(kv.1@) =~= string_views(before[i as int].1@).push(id@));
                    }
                }
            }
        },
        None => {
            let list = vec![id.clone()];
            let kvv = (p.clone(), list);
            proof {
                lemma_push_fresh_key(before, pair_key::<Vec<String>>(), kvv);
                lemma_lookup_after_push(before, pair_key::<Vec<String>>(), kvv);
            }
            m.push(kvv);
            proof {
                assert forall|q: Seq<char>| #[trigger] mapping_get(m@, q) == if q == p@ {
                    Some(match mapping_get(before, q) { Some(v) => v.push(id@), None => seq![id@] })
                } else {
                    mapping_get(before, q)
                } by {
                    assert(lookup(m@, pair_key::<Vec<String>>(), q) == if q == p@ { Some(kvv) } else { lookup(before, pair_key::<Vec<String>>(), q) });
                    if q == p@ {
                        assert(string_views(kvv.1@) =~= seq![id@]);
                    }
                }
            }
        },
    }
}

/// `v` without the strings equal to `id`.
fn without(v: &Vec<String>, id: &str) -> (res: Vec<String>)
    ensures
        string_views(res@) == string_views(v@).filter(other_than(id@)),
{
    let ghost sv = string_views(v@);
    let ghost pred = other_than(id@);
    let mut out: Vec<String> = Vec::new();
    let mut i: usize = 0;
    while i < v.len()
        invariant
            i <= v@.len(),
            sv == string_views(v@),
            pred == (other_than(id@)),
            string_views(out@) == sv.take(i as int).filter(pred),
        decreases v@.len() - i,
    {
        proof { lemma_take_filter_step(sv, pred, i as int); }
        let ghost before = out@;
        if !crate::text::str_eq(v[i].as_str(), id) {
            out.push(v[i].clone());
            assert(string_views(out@) =~= string_views(before).push(sv[i as int]));
        }
        i = i + 1;
    }
    assert(sv.take(v@.len() as int) =~= sv);
    out
}

/// Drops `id` from the list under `p`, and the list when that empties it.
fn mapping_remove_from(m: &mut Vec<(String, Vec<String>)>, p: &str, id: &str)
    requires
        keys_unique(old(m)@, pair_key::<Vec<String>>()),
    ensures
        keys_unique(final(m)@, pair_key::<Vec<String>>()),
        forall|q: Seq<char>| #[trigger] mapping_get(final(m)@, q) == if q == p@ {
            match mapping_get(old(m)@, q) {
                Some(v) => {
                    let w = v.filter(other_than(id@));
                    if w.len() == 0 { None } else { Some(w) }
                },
                None => None,
            }
        } else {
            mapping_get(old(m)@, q)
        },
{
    let ghost before = m@;
    match table_find(m, p) {
        Some(i) => {
            let list = without(&m[i].1, id);
            proof { lemma_lookup_at(before, pair_key::<Vec<String>>(), p@, i as int); }
            if list.len() == 0 {
                let _ = table_remove_exec(m, p);
                proof {
                    assert forall|q: Seq<char>| #[trigger] mapping_get(m@, q) == if q == p@ {
                        match mapping_get(before, q) {
                            Some(v) => {
                                let w = v.filter(other_than(id@));
                                if w.len() == 0 { None } else { Some(w) }
                            },
                            None => None,
                        }
                    } else {
                        mapping_get(before, q)
                    } by {
                        lemma_table_get_remove(before, p@, q);
                    }
                }
            } else {
                let ghost kv = (m@[i as int].0, list);
                proof {
                    lemma_update_same_key(before, pair_key::<Vec<String>>(), i as int, kv);
                    lemma_lookup_after_update(before, pair_key::<Vec<String>>(), i as int, kv);
                }
                let key = m[i].0.clone();
                m.set(i, (key, list));
                proof {
                    assert(m@ =~= before.update(i as int, kv));
                    assert forall|q: Seq<char>| #[trigger] mapping_get(m@, q) == if q == p@ {
                        match mapping_get(before, q) {
                            Some(v) => {
                                let w = v.filter(other_than(id@));
                                if w.len() == 0 { None } else { Some(w) }
                            },
                            None => None,
                        }
                    } else {
                        mapping_get(before, q)
                    } by {
                        assert(lookup(m@, pair_key::<Vec<String>>(), q) == if q == p@ { Some(kv) } else { lookup(before, pair_key::<Vec<String>>(), q) });
                    }
                }
            }
        },
        None => {},
    }
}

/// How setting a virtual device's state went on, when it did not fail.
#[derive(Debug)]
pub enum SetStateOutcome {
    /// Done.
    Done,
    /// A scene is to be brought about: the caller runs the steps, then reports completion with
    /// [`VirtualDeviceManager::finish_scene_activation`].
    SceneSteps { scene_index: usize, steps: Vec<SceneStep> },
}

/// All virtual devices by id, which physical devices feed which virtual devices, and which
/// physical devices each virtual device drives.
pub struct VirtualDeviceManager {
    virtual_devices: Vec<(DeviceId, AnyVirtualDevice)>,
    input_mappings: Vec<(DeviceId, Vec<DeviceId>)>,
    output_mappings: Vec<(DeviceId, Vec<DeviceId>)>,
}

impl VirtualDeviceManager {
    /// The devices by id.
    pub closed spec fn devices(&self) -> Seq<(String, AnyVirtualDevice)> {
        self.virtual_devices@
    }

    /// The device with id `id`, if any.
    pub open spec fn device(&self, id: Seq<char>) -> Option<AnyVirtualDevice> {
        table_get(self.devices(), id)
    }

    /// The virtual devices that follow physical device `id`.
    pub closed spec fn followers(&self, id: Seq<char>) -> Option<Seq<Seq<char>>> {
        mapping_get(self.input_mappings@, id)
    }

    /// Virtual device `k` follows physical device `input`.
    pub open spec fn follows(&self, input: Seq<char>, k: Seq<char>) -> bool {
        match self.followers(input) {
            Some(f) => f.contains(k),
            None => false,
        }
    }

    /// The physical devices virtual device `id` drives.
    pub closed spec fn driven(&self, id: Seq<char>) -> Option<Seq<Seq<char>>> {
        mapping_get(self.output_mappings@, id)
    }

    /// Devices are filed under their own ids, once each, and each keeps its invariant.
    pub closed spec fn wf(&self) -> bool {
        &&& keys_unique(self.virtual_devices@, pair_key::<AnyVirtualDevice>())
        &&& keys_unique(self.input_mappings@, pair_key::<Vec<String>>())
        &&& keys_unique(self.output_mappings@, pair_key::<Vec<String>>())
        &&& forall|i: int| 0 <= i < self.virtual_devices@.len() ==> (#[trigger] self.virtual_devices@[i]).1.wf()
            && self.virtual_devices@[i].1.id() == self.virtual_devices@[i].0@
    }

    /// An empty manager.
    pub fn new() -> (res: VirtualDeviceManager)
        ensures
            res.wf(),
            forall|id: Seq<char>| #[trigger] res.device(id) is None,
            forall|id: Seq<char>| #[trigger] res.followers(id) is None,
            forall|id: Seq<char>| #[trigger] res.driven(id) is None,
    {
        VirtualDeviceManager { virtual_devices: Vec::new(), input_mappings: Vec::new(), output_mappings: Vec::new() }
    }

    /// Adds a virtual device, replacing one with the same id: files it as a follower of each of
    /// its inputs, records what it drives, and registers it in the store with its information and
    /// state at time `now`.
    #[verifier::loop_isolation(false)]
    pub fn add_virtual_device(&mut self, device: AnyVirtualDevice, store: &mut StateStore, now: Timestamp)
        -> (res: Result<(), VirtualDeviceError>)
        requires
            old(self).wf(),
            device.wf(),
            old(store).wf(),
        ensures
            res is Ok,
            final(self).wf(),
            final(store).wf(),
            final(store).groups() == old(store).groups(),
            add_outcome(*old(self), *old(store), device, now, *final(self), *final(store)),
    {
        let device_id = device.device_id().clone();
        let inputs = device.input_devices();
        let outputs = device.output_devices();
        let info = device.device_info_at(now);
        let initial_state = device.current_state();
        let ghost dev = device;
        proof { lemma_table_get_insert(self.virtual_devices@, device_id, device, device_id@); }
        table_insert_exec(&mut self.virtual_devices, device_id.clone(), device);
        proof {
            assert forall|k: Seq<char>| k != dev.id() implies #[trigger] table_get(self.virtual_devices@, k)
                == table_get(old(self).virtual_devices@, k) by {
                lemma_table_get_insert(old(self).virtual_devices@, device_id, dev, k);
            }
        }
        let ghost m0 = self.input_mappings@;
        let ghost vd = self.virtual_devices@;
        let ghost om = self.output_mappings@;
        let mut i: usize = 0;
        while i < inputs.len()
            invariant
                i <= inputs@.len(),
                self.virtual_devices@ == vd,
                self.output_mappings@ == om,
                keys_unique(self.input_mappings@, pair_key::<Vec<String>>()),
                string_views(inputs@) == dev.inputs(),
                device_id@ == dev.id(),
                forall|q: Seq<char>| #[trigger] mapping_get(self.input_mappings@, q)
                    == added_under(mapping_get(m0, q), dev.inputs(), q, dev.id(), i as nat),
            decreases inputs@.len() - i,
        {
            mapping_add(&mut self.input_mappings, &inputs[i], &device_id);
            proof {
                assert(dev.inputs()[i as int] == inputs@[i as int]@);
            }
            i = i + 1;
        }
        proof {
            lemma_table_get_insert(self.output_mappings@, device_id, outputs, device_id@);
            assert forall|k: Seq<char>| k != dev.id() implies #[trigger] mapping_get(table_insert(self.output_mappings@, device_id, outputs), k)
                == mapping_get(self.output_mappings@, k) by {
                lemma_table_get_insert(self.output_mappings@, device_id, outputs, k);
            }
        }
        table_insert_exec(&mut self.output_mappings, device_id.clone(), outputs);
        proof {
            assert forall|j: int| 0 <= j < self.virtual_devices@.len() implies (#[trigger] self.virtual_devices@[j]).1.wf()
                && self.virtual_devices@[j].1.id() == self.virtual_devices@[j].0@ by {
                let old_t = old(self).virtual_devices@;
                if has_key(old_t, pair_key::<AnyVirtualDevice>(), device_id@) {
                    let ix = index_of_key(old_t, pair_key::<AnyVirtualDevice>(), device_id@);
                    if j != ix {
                        assert(self.virtual_devices@[j] == old_t[j]);
                    }
                } else {
                    if j < old_t.len() {
                        assert(self.virtual_devices@[j] == old_t[j]);
                    }
                }
            }
        }
        store.add_device(info, initial_state, now);
        Ok(())
    }

    /// Removes virtual device `device_id`: drops it from the followers of each of its inputs and
    /// its record of driven devices, and removes it from the store. Nothing happens for an unknown
    /// id; refused when the store holds no record of it.
    #[verifier::loop_isolation(false)]
    pub fn remove_virtual_device(&mut self, device_id: &DeviceId, store: &mut StateStore) -> (res: Result<(), VirtualDeviceError>)
        requires
            old(self).wf(),
            old(store).wf(),
        ensures
            final(self).wf(),
            final(store).wf(),
            final(store).groups() == old(store).groups(),
            remove_outcome(*old(self), *old(store), device_id@, res, *final(self), *final(store)),
    {
        proof {
            assert forall|k: Seq<char>| #[trigger] table_get(table_remove(self.virtual_devices@, device_id@), k)
                == if k == device_id@ { None } else { table_get(self.virtual_devices@, k) } by {
                lemma_table_get_remove(self.virtual_devices@, device_id@, k);
            }
        }
        let ghost old_t = self.virtual_devices@;
        let removed = table_remove_exec(&mut self.virtual_devices, device_id.as_str());
        proof {
            if has_key(old_t, pair_key::<AnyVirtualDevice>(), device_id@) {
                let ix = index_of_key(old_t, pair_key::<AnyVirtualDevice>(), device_id@);
                assert forall|j: int| 0 <= j < self.virtual_devices@.len() implies (#[trigger] self.virtual_devices@[j]).1.wf()
                    && self.virtual_devices@[j].1.id() == self.virtual_devices@[j].0@ by {
                    if j < ix {
                        assert(self.virtual_devices@[j] == old_t[j]);
                    } else {
                        assert(self.virtual_devices@[j] == old_t[j + 1]);
                    }
                }
            }
        }
        match removed {
            Some(device) => {
                let inputs = device.input_devices();
                let ghost m0 = self.input_mappings@;
                let ghost vd = self.virtual_devices@;
                let ghost om = self.output_mappings@;
                let mut i: usize = 0;
                while i < inputs.len()
                    invariant
                        i <= inputs@.len(),
                        self.virtual_devices@ == vd,
                        self.output_mappings@ == om,
                        keys_unique(self.input_mappings@, pair_key::<Vec<String>>()),
                        string_views(inputs@) == device.inputs(),
                        forall|q: Seq<char>| #[trigger] mapping_get(self.input_mappings@, q)
                            == removed_under(mapping_get(m0, q), device.inputs(), q, device_id@, i as nat),
                    decreases inputs@.len() - i,
                {
                    mapping_remove_from(&mut self.input_mappings, inputs[i].as_str(), device_id.as_str());
                    proof {
                        assert(device.inputs()[i as int] == inputs@[i as int]@);
                    }
                    i = i + 1;
                }
                proof {
                    assert forall|k: Seq<char>| #[trigger] mapping_get(table_remove(self.output_mappings@, device_id@), k)
                        == if k == device_id@ { None } else { mapping_get(self.output_mappings@, k) } by {
                        lemma_table_get_remove(self.output_mappings@, device_id@, k);
                    }
                }
                let _ = table_remove_exec(&mut self.output_mappings, device_id.as_str());
                match store.remove_device(device_id) {
                    Ok(_) => Ok(()),
                    Err(e) => Err(VirtualDeviceError::StateStore(e)),
                }
            },
            None => Ok(()),
        }
    }

    /// The state of virtual device `device_id`; refused for an unknown id.
    pub fn get_virtual_device_state(&self, device_id: &DeviceId) -> (res: Result<DeviceStateValue, VirtualDeviceError>)
        requires
            self.wf(),
        ensures
            match self.device(device_id@) {
                Some(d) => res == Ok::<DeviceStateValue, VirtualDeviceError>(d.state_value()),
                None => res matches Err(VirtualDeviceError::DeviceNotFound(id)) && id@ == device_id@,
            },
    {
        match table_find(&self.virtual_devices, device_id.as_str()) {
            Some(i) => {
                proof { lemma_lookup_at(self.virtual_devices@, pair_key::<AnyVirtualDevice>(), device_id@, i as int); }
                Ok(self.virtual_devices[i].1.current_state())
            },
            None => Err(VirtualDeviceError::DeviceNotFound(device_id.clone())),
        }
    }

    /// A copy of the configuration of virtual device `device_id`; refused for an unknown id.
    pub fn get_virtual_device_config(&self, device_id: &DeviceId) -> (res: Result<VirtualDeviceConfig, VirtualDeviceError>)
        requires
            self.wf(),
        ensures
            match self.device(device_id@) {
                Some(d) => res matches Ok(c) && c@ == d.config_view(),
                None => res matches Err(VirtualDeviceError::DeviceNotFound(id)) && id@ == device_id@,
            },
    {
        match table_find(&self.virtual_devices, device_id.as_str()) {
            Some(i) => {
                proof { lemma_lookup_at(self.virtual_devices@, pair_key::<AnyVirtualDevice>(), device_id@, i as int); }
                Ok(self.virtual_devices[i].1.config().clone_config())
            },
            None => Err(VirtualDeviceError::DeviceNotFound(device_id.clone())),
        }
    }

    /// Sets the state of virtual device `device_id` at time `now` as its kind does, then records
    /// the device's new state in the store; a scene activation is handed back for the caller to run.
    /// Refused for an unknown id, and with the error of the device or the store.
    pub fn set_virtual_device_state(&mut self, device_id: &DeviceId, new_state: DeviceStateValue, store: &mut StateStore,
        now: Timestamp) -> (res: Result<SetStateOutcome, VirtualDeviceError>)
        requires
            old(self).wf(),
            old(store).wf(),
        ensures
            final(self).wf(),
            final(store).wf(),
            final(store).groups() == old(store).groups(),
            forall|k: Seq<char>| k != device_id@ ==> #[trigger] final(self).device(k) == old(self).device(k),
            forall|q: Seq<char>| #[trigger] final(self).followers(q) == old(self).followers(q),
            forall|q: Seq<char>| #[trigger] final(self).driven(q) == old(self).driven(q),
            match old(self).device(device_id@) {
                None => res matches Err(VirtualDeviceError::DeviceNotFound(id)) && id@ == device_id@
                    && final(self).device(device_id@) is None && final(store).entries() == old(store).entries(),
                Some(d) => final(self).device(device_id@) matches Some(d2) && d2.kind() == d.kind() && d2.inputs() == d.inputs()
                    && d2.config_view() == d.config_view()
                    && (res matches Ok(SetStateOutcome::Done) ==> final(store).device(device_id@) matches Some(r)
                        && r.state == d2.state_value() && r.last_updated == now)
                    && (res matches Ok(SetStateOutcome::SceneSteps { .. }) ==> d.kind() == VirtualDeviceType::SceneController
                        && d2.state_value() == d.state_value() && final(store).entries() == old(store).entries())
                    && (new_state is Light ==> light_set_outcome(d, d2, new_state, old(store).entries(), device_id@, res))
                    && (new_state matches DeviceStateValue::Scene(st) ==> scene_set_outcome(d, d2, st.scene_name@,
                        old(store).entries(), device_id@, res)),
            },
    {
        match table_find(&self.virtual_devices, device_id.as_str()) {
            None => Err(VirtualDeviceError::DeviceNotFound(device_id.clone())),
            Some(i) => {
                let ghost before = self.virtual_devices@;
                proof { lemma_lookup_at(before, pair_key::<AnyVirtualDevice>(), device_id@, i as int); }
                let (k, mut dev) = self.virtual_devices.remove(i);
                let ghost (d0, e0, ns) = (dev, store.entries(), new_state);
                let r = dev.set_state_at(new_state, store, now);
                proof {
                    if r is Ok {
                        match (d0, ns) {
                            (AnyVirtualDevice::LightGroup(g), DeviceStateValue::Light(ls)) =>
                                crate::store::lemma_updates_keep_keys(e0, g.lights(), g.member_states(ls), now, g.lights().len()),
                            (AnyVirtualDevice::LightGroupLinear(g), DeviceStateValue::Light(ls)) =>
                                crate::store::lemma_updates_keep_keys(e0, g.member_ids(), g.member_states(ls), now, g.member_ids().len()),
                            _ => {},
                        }
                    }
                }
                let cs = dev.current_state();
                let ghost entry = (k, dev);
                self.virtual_devices.insert(i, (k, dev));
                proof {
                    assert(self.virtual_devices@ =~= before.update(i as int, entry));
                    lemma_update_same_key(before, pair_key::<AnyVirtualDevice>(), i as int, entry);
                    lemma_lookup_after_update(before, pair_key::<AnyVirtualDevice>(), i as int, entry);
                    assert forall|j: int| 0 <= j < self.virtual_devices@.len() implies (#[trigger] self.virtual_devices@[j]).1.wf()
                        && self.virtual_devices@[j].1.id() == self.virtual_devices@[j].0@ by {
                        if j != i {
                            assert(self.virtual_devices@[j] == before[j]);
                        }
                    }
                    assert(lookup(self.virtual_devices@, pair_key::<AnyVirtualDevice>(), device_id@) == Some(entry));
                }
                match r {
                    Err(e) => Err(e),
                    Ok(SetStateOutcome::Done) => {
                        let ghost mid = store.entries();
                        match store.update_device_state(device_id, cs, now) {
                            Ok(()) => {
                                proof { crate::store::law_read_after_update(mid, device_id@, cs, now); }
                                Ok(SetStateOutcome::Done)
                            },
                            Err(e) => Err(VirtualDeviceError::StateStore(e)),
                        }
                    },
                    Ok(steps) => Ok(steps),
                }
            },
        }
    }

    /// Records that scene controller `device_id` has brought about its scene at `scene_index`:
    /// the controller becomes active in that scene and its state is recorded in the store at `now`.
    /// Refused for an unknown id, for a device that is no scene controller or has no such scene,
    /// and with the store's error.
    pub fn finish_scene_activation(&mut self, device_id: &DeviceId, scene_index: usize, store: &mut StateStore, now: Timestamp)
        -> (res: Result<(), VirtualDeviceError>)
        requires
            old(self).wf(),
            old(store).wf(),
        ensures
            final(self).wf(),
            final(store).wf(),
            final(store).groups() == old(store).groups(),
            forall|k: Seq<char>| k != device_id@ ==> #[trigger] final(self).device(k) == old(self).device(k),
            forall|q: Seq<char>| #[trigger] final(self).followers(q) == old(self).followers(q),
            forall|q: Seq<char>| #[trigger] final(self).driven(q) == old(self).driven(q),
            match old(self).device(device_id@) {
                None => res matches Err(VirtualDeviceError::DeviceNotFound(id)) && id@ == device_id@
                    && final(store).entries() == old(store).entries(),
                Some(AnyVirtualDevice::SceneController(sc)) => if scene_index < sc.scenes().len() {
                    final(self).device(device_id@) matches Some(AnyVirtualDevice::SceneController(sc2))
                        && sc2.state() == (sc.scenes()[scene_index as int].0@, true)
                        && sc2.current_scene() == Some(sc.scenes()[scene_index as int].0@)
                        && sc2.scenes() == sc.scenes()
                        && (res is Ok ==> (final(store).device(device_id@) matches Some(r)
                            && r.state == sc2.scene_state_value() && r.last_updated == now))
                        && (if old(store).device(device_id@) is Some { res is Ok } else {
                            res matches Err(VirtualDeviceError::StateStore(StateError::DeviceNotFound(x))) && x@ == device_id@
                        })
                } else {
                    res matches Err(VirtualDeviceError::InvalidStateType) && final(store).entries() == old(store).entries()
                },
                Some(_) => res matches Err(VirtualDeviceError::InvalidStateType) && final(store).entries() == old(store).entries(),
            },
    {
        match table_find(&self.virtual_devices, device_id.as_str()) {
            None => Err(VirtualDeviceError::DeviceNotFound(device_id.clone())),
            Some(i) => {
                let ghost before = self.virtual_devices@;
                proof { lemma_lookup_at(before, pair_key::<AnyVirtualDevice>(), device_id@, i as int); }
                let (k, mut dev) = self.virtual_devices.remove(i);
                let ok = match &mut dev {
                    AnyVirtualDevice::SceneController(sc) => {
                        if scene_index < sc.scene_count() {
                            sc.mark_active(scene_index);
                            true
                        } else {
                            false
                        }
                    },
                    _ => false,
                };
                let cs = dev.current_state();
                let ghost entry = (k, dev);
                self.virtual_devices.insert(i, (k, dev));
                proof {
                    assert(self.virtual_devices@ =~= before.update(i as int, entry));
                    lemma_update_same_key(before, pair_key::<AnyVirtualDevice>(), i as int, entry);
                    lemma_lookup_after_update(before, pair_key::<AnyVirtualDevice>(), i as int, entry);
                    assert forall|j: int| 0 <= j < self.virtual_devices@.len() implies (#[trigger] self.virtual_devices@[j]).1.wf()
                        && self.virtual_devices@[j].1.id() == self.virtual_devices@[j].0@ by {
                        if j != i {
                            assert(self.virtual_devices@[j] == before[j]);
                        }
                    }
                    assert(lookup(self.virtual_devices@, pair_key::<AnyVirtualDevice>(), device_id@) == Some(entry));
                }
                if !ok {
                    return Err(VirtualDeviceError::InvalidStateType);
                }
                let ghost mid = store.entries();
                match store.update_device_state(device_id, cs, now) {
                    Ok(()) => {
                        proof { crate::store::law_read_after_update(mid, device_id@, cs, now); }
                        Ok(())
                    },
                    Err(e) => Err(VirtualDeviceError::StateStore(e)),
                }
            },
        }
    }

    /// Routes a change of physical device `device_id` to the virtual devices that follow it, in
    /// the order they started following: each reacts, then its state is recorded in the store at
    /// `now` (a device the store lacks is skipped). Always succeeds.
    pub fn handle_device_state_change(&mut self, device_id: &DeviceId, new_state: &DeviceState, store: &mut StateStore,
        now: Timestamp) -> (res: Result<(), VirtualDeviceError>)
        requires
            old(self).wf(),
            old(store).wf(),
        ensures
            res is Ok,
            final(self).wf(),
            final(store).wf(),
            final(store).groups() == old(store).groups(),
            forall|q: Seq<char>| #[trigger] final(self).followers(q) == old(self).followers(q),
            forall|q: Seq<char>| #[trigger] final(self).driven(q) == old(self).driven(q),
            forall|k: Seq<char>| (#[trigger] old(self).device(k)) is Some <==> final(self).device(k) is Some,
            forall|k: Seq<char>| !old(self).follows(device_id@, k) ==> #[trigger] final(self).device(k) == old(self).device(k),
            forall|k: Seq<char>| #[trigger] old(self).device(k) matches Some(d) ==> (final(self).device(k) matches Some(d2)
                && d2.kind() == d.kind() && d2.config_view() == d.config_view() && d2.inputs() == d.inputs()
                && (d.kind() == VirtualDeviceType::ButtonController || d.kind() == VirtualDeviceType::SceneController
                    ==> d2.state_value() == d.state_value())),
            forall|k: Seq<char>| !old(self).follows(device_id@, k) ==> #[trigger] final(store).device(k) == old(store).device(k),
            forall|k: Seq<char>| #[trigger] final(store).device(k) is Some <==> old(store).device(k) is Some,
            forall|k: Seq<char>| old(self).follows(device_id@, k) && #[trigger] final(self).device(k) is Some
                && old(store).device(k) is Some ==> (final(store).device(k) matches Some(r)
                    && r.state == final(self).device(k)->0.state_value() && r.last_updated == now),
            old(self).followers(device_id@) is None ==> final(store).entries() == old(store).entries(),
    {
        let followers: Vec<DeviceId> = match table_find(&self.input_mappings, device_id.as_str()) {
            Some(i) => {
                proof { lemma_lookup_at(self.input_mappings@, pair_key::<Vec<String>>(), device_id@, i as int); }
                clone_strings(&self.input_mappings[i].1)
            },
            None => Vec::new(),
        };
        let ghost fs = string_views(followers@);
        assert(match old(self).followers(device_id@) { Some(f) => f == fs, None => fs.len() == 0 });
        let mut j: usize = 0;
        while j < followers.len()
            invariant
                j <= followers@.len(),
                fs == string_views(followers@),
                self.wf(),
                store.wf(),
                store.groups() == old(store).groups(),
                self.input_mappings@ == old(self).input_mappings@,
                self.output_mappings@ == old(self).output_mappings@,
                forall|k: Seq<char>| (#[trigger] old(self).device(k)) is Some <==> self.device(k) is Some,
                forall|k: Seq<char>| !fs.contains(k) ==> #[trigger] self.device(k) == old(self).device(k),
                forall|k: Seq<char>| #[trigger] old(self).device(k) matches Some(d) ==> (self.device(k) matches Some(d2)
                    && d2.kind() == d.kind() && d2.config_view() == d.config_view() && d2.inputs() == d.inputs()
                    && (d.kind() == VirtualDeviceType::ButtonController || d.kind() == VirtualDeviceType::SceneController
                        ==> d2.state_value() == d.state_value())),
                forall|k: Seq<char>| !fs.contains(k) ==> #[trigger] store.device(k) == old(store).device(k),
                forall|k: Seq<char>| #[trigger] store.device(k) is Some <==> old(store).device(k) is Some,
                forall|x: int| #![trigger fs[x]] 0 <= x < j && self.device(fs[x]) is Some && store.device(fs[x]) is Some
                    ==> (store.device(fs[x]) matches Some(r) && r.state == self.device(fs[x])->0.state_value()
                        && r.last_updated == now),
                fs.len() == 0 ==> store.entries() == old(store).entries(),
            decreases followers@.len() - j,
        {
            assert(fs[j as int] == followers@[j as int]@);
            match table_find(&self.virtual_devices, followers[j].as_str()) {
                Some(i) => {
                    let ghost before = self.virtual_devices@;
                    proof { lemma_lookup_at(before, pair_key::<AnyVirtualDevice>(), fs[j as int], i as int); }
                    let (k, mut dev) = self.virtual_devices.remove(i);
                    let _ = dev.on_input_changed(device_id, new_state, store);
                    let cs = dev.current_state();
                    let ghost entry = (k, dev);
                    self.virtual_devices.insert(i, (k, dev));
                    proof {
                        assert(self.virtual_devices@ =~= before.update(i as int, entry));
                        lemma_update_same_key(before, pair_key::<AnyVirtualDevice>(), i as int, entry);
                        lemma_lookup_after_update(before, pair_key::<AnyVirtualDevice>(), i as int, entry);
                        assert forall|x: int| 0 <= x < self.virtual_devices@.len() implies (#[trigger] self.virtual_devices@[x]).1.wf()
                            && self.virtual_devices@[x].1.id() == self.virtual_devices@[x].0@ by {
                            if x != i {
                                assert(self.virtual_devices@[x] == before[x]);
                            }
                        }
                        assert(fs.contains(fs[j as int]));
                    }
                    let ghost before_write = *store;
                    let _ = store.update_device_state(&followers[j], cs, now);
                    proof {
                        if before_write.device(fs[j as int]) is Some {
                            crate::store::law_read_after_update(before_write.entries(), fs[j as int], cs, now);
                        }
                        assert forall|k: Seq<char>| !fs.contains(k) implies #[trigger] store.device(k) == old(store).device(k) by {
                            assert(before_write.device(k) == old(store).device(k));
                        }
                    }
                },
                None => {},
            }
            j = j + 1;
        }
        proof {
            assert forall|k: Seq<char>| old(self).follows(device_id@, k) && #[trigger] self.device(k) is Some
                && old(store).device(k) is Some implies (store.device(k) matches Some(r)
                    && r.state == self.device(k)->0.state_value() && r.last_updated == now) by {
                let x = choose|x: int| 0 <= x < fs.len() && fs[x] == k;
                assert(fs[x] == k);
            }
        }
        Ok(())
    }

    /// Hands an event to every button controller, in the order they were added: each runs the
    /// action the event calls for on the store at `now`. A controller whose action would take a
    /// brightness past its range is passed over. Gives how many actions ran. When no controller
    /// listens to the event's device, the store is unchanged.
    pub fn dispatch_event(&self, event: &DeviceEvent, store: &mut StateStore, now: Timestamp) -> (res: usize)
        requires
            self.wf(),
            old(store).wf(),
        ensures
            final(store).wf(),
            final(store).groups() == old(store).groups(),
            (final(store).entries(), res as nat) == dispatch_outcome(self.devices(), event@, old(store).entries(), now,
                self.devices().len()),
            (forall|i: int| 0 <= i < self.devices().len() ==> !(#[trigger] self.devices()[i].1 matches
                AnyVirtualDevice::ButtonController(b) && press_of(b.button(), event@) is Some))
                ==> final(store).entries() == old(store).entries(),
    {
        let mut ran: usize = 0;
        let mut i: usize = 0;
        while i < self.virtual_devices.len()
            invariant
                i <= self.virtual_devices@.len(),
                ran <= i,
                store.wf(),
                store.groups() == old(store).groups(),
                (store.entries(), ran as nat) == dispatch_outcome(self.devices(), event@, old(store).entries(), now, i as nat),
                (forall|j: int| 0 <= j < self.devices().len() ==> !(#[trigger] self.devices()[j].1 matches
                    AnyVirtualDevice::ButtonController(b) && press_of(b.button(), event@) is Some))
                    ==> store.entries() == old(store).entries(),
            decreases self.virtual_devices@.len() - i,
        {
            match &self.virtual_devices[i].1 {
                AnyVirtualDevice::ButtonController(b) => {
                    let overflows = match b.action_for_event(event) {
                        Some(a) => would_overflow(a, store),
                        None => false,
                    };
                    if !overflows {
                        if b.handle_event_at(event, store, now).is_some() {
                            ran = ran + 1;
                        }
                    }
                },
                _ => {},
            }
            i = i + 1;
        }
        ran
    }

    /// The record a reported state change stands for when only the device and its new state
    /// are known: a reachable light named "Unknown" without capabilities or groups, seen,
    /// updated and synced at `ts`.
    pub fn record_for_change(device_id: String, state: DeviceStateValue, ts: Timestamp) -> (res: DeviceState)
        ensures
            res.device_id@ == device_id@,
            res.device_info.device_id@ == device_id@,
            res.device_info.name@ == "Unknown"@,
            res.device_info.device_type == DeviceType::Light,
            res.device_info.capabilities@.len() == 0,
            res.device_info.device_groups@.len() == 0,
            res.device_info.reachable,
            !res.device_info.battery_powered,
            res.device_info.last_seen == ts,
            res.state == state,
            res.last_updated == ts,
            res.last_synced_from_gateway == Some(ts),
            res.last_synced_to_gateway == Some(ts),
    {
        DeviceState {
            device_id: device_id.clone(),
            device_info: DeviceInfo {
                device_id,
                name: String::from_str("Unknown"),
                device_type: DeviceType::Light,
                capabilities: Vec::new(),
                device_groups: Vec::new(),
                manufacturer: None,
                model: None,
                firmware_version: None,
                battery_powered: false,
                reachable: true,
                last_seen: ts,
                custom_attributes: Vec::new(),
            },
            state,
            last_updated: ts,
            last_synced_from_gateway: Some(ts),
            last_synced_to_gateway: Some(ts),
        }
    }

    /// The information every virtual device exposes at time `now`, in the order they were added.
    pub fn list_virtual_devices(&self, now: Timestamp) -> (res: Vec<DeviceInfo>)
        ensures
            res@.len() == self.devices().len(),
            forall|i: int| 0 <= i < res@.len() ==> virtual_device_info(self.devices()[i].1.config_view(),
                self.devices()[i].1.kind(), now, #[trigger] res@[i]@),
    {
        let mut out: Vec<DeviceInfo> = Vec::new();
        let mut i: usize = 0;
        while i < self.virtual_devices.len()
            invariant
                i <= self.virtual_devices@.len(),
                out@.len() == i,
                forall|k: int| 0 <= k < i ==> virtual_device_info(self.virtual_devices@[k].1.config_view(),
                    self.virtual_devices@[k].1.kind(), now, #[trigger] out@[k]@),
            decreases self.virtual_devices@.len() - i,
        {
            out.push(self.virtual_devices[i].1.device_info_at(now));
            i = i + 1;
        }
        out
    }
}


/// Adding a virtual device makes it a follower of every one of its inputs.
/// Filtering out `id` keeps a list in which every element differs from `id`.
proof fn lemma_filter_keeps_others(w: Seq<Seq<char>>, id: Seq<char>)
    requires
        forall|i: int| 0 <= i < w.len() ==> w[i] != id,
    ensures
        w.filter(other_than(id)) == w,
    decreases w.len(),
{
    reveal(Seq::filter);
    if w.len() > 0 {
        lemma_filter_keeps_others(w.drop_last(), id);
        assert(w.drop_last().push(w.last()) =~= w);
    }
}

/// Filtering out `id` ignores an `id` appended at the end.
proof fn lemma_filter_push_id(v: Seq<Seq<char>>, id: Seq<char>)
    ensures
        v.push(id).filter(other_than(id)) == v.filter(other_than(id)),
{
    reveal_with_fuel(Seq::filter, 1);
    assert(v.push(id).drop_last() =~= v);
}

/// The list left after filtering out `id` holds no `id`.
proof fn lemma_filter_lacks(v: Seq<Seq<char>>, id: Seq<char>, w: Seq<Seq<char>>)
    requires
        w == v.filter(other_than(id)),
    ensures
        forall|i: int| 0 <= i < w.len() ==> w[i] != id,
{
    let p = other_than(id);
    assert forall|i: int| 0 <= i < w.len() implies w[i] != id by {
        v.lemma_filter_pred(p, i);
    }
}

/// The list (or none) before any `id` was appended.
pub open spec fn base_list(f: Option<Seq<Seq<char>>>) -> Seq<Seq<char>> {
    match f {
        Some(v) => v,
        None => Seq::empty(),
    }
}

/// What dropping `id` leaves of a list: the rest, or none when nothing is left.
pub open spec fn list_without(g: Option<Seq<Seq<char>>>, id: Seq<char>) -> Option<Seq<Seq<char>>> {
    match g {
        Some(v) => {
            let w = v.filter(other_than(id));
            if w.len() == 0 { None } else { Some(w) }
        },
        None => None,
    }
}

proof fn lemma_added_shape(f: Option<Seq<Seq<char>>>, inputs: Seq<Seq<char>>, q: Seq<char>, id: Seq<char>, n: nat)
    requires
        n <= inputs.len(),
    ensures
        (exists|k: int| 0 <= k < n && inputs[k] == q) ==> (added_under(f, inputs, q, id, n) matches Some(w)
            && w.filter(other_than(id)) == base_list(f).filter(other_than(id))),
        !(exists|k: int| 0 <= k < n && inputs[k] == q) ==> added_under(f, inputs, q, id, n) == f,
    decreases n,
{
    if n > 0 {
        lemma_added_shape(f, inputs, q, id, (n - 1) as nat);
        let prev = added_under(f, inputs, q, id, (n - 1) as nat);
        if inputs[n - 1] == q {
            match prev {
                Some(v) => lemma_filter_push_id(v, id),
                None => {
                    lemma_filter_push_id(Seq::empty(), id);
                    assert(Seq::<Seq<char>>::empty().push(id) =~= seq![id]);
                },
            }
            if !(exists|k: int| 0 <= k < n - 1 && inputs[k] == q) {
                assert(prev == f);
            }
        } else {
            if exists|k: int| 0 <= k < n && inputs[k] == q {
                let k = choose|k: int| 0 <= k < n && inputs[k] == q;
                assert(k < n - 1);
            } else {
                assert(!(exists|k: int| 0 <= k < n - 1 && inputs[k] == q));
            }
        }
    }
}

proof fn lemma_removed_shape(g: Option<Seq<Seq<char>>>, inputs: Seq<Seq<char>>, q: Seq<char>, id: Seq<char>, n: nat)
    requires
        n <= inputs.len(),
    ensures
        (exists|k: int| 0 <= k < n && inputs[k] == q) ==> removed_under(g, inputs, q, id, n) == list_without(g, id),
        !(exists|k: int| 0 <= k < n && inputs[k] == q) ==> removed_under(g, inputs, q, id, n) == g,
    decreases n,
{
    if n > 0 {
        lemma_removed_shape(g, inputs, q, id, (n - 1) as nat);
        let prev = removed_under(g, inputs, q, id, (n - 1) as nat);
        if inputs[n - 1] == q {
            if exists|k: int| 0 <= k < n - 1 && inputs[k] == q {
                assert(prev == list_without(g, id));
                match g {
                    Some(v) => {
                        let w = v.filter(other_than(id));
                        lemma_filter_lacks(v, id, w);
                        lemma_filter_keeps_others(w, id);
                        if w.len() == 0 {
                            assert(prev is None);
                        } else {
                            assert(prev == Some(w));
                            assert(w.filter(other_than(id)) == w);
                        }
                    },
                    None => {},
                }
                assert(removed_under(g, inputs, q, id, n) == list_without(g, id));
            } else {
                assert(prev == g);
                assert(removed_under(g, inputs, q, id, n) == list_without(g, id));
            }
        } else {
            if exists|k: int| 0 <= k < n && inputs[k] == q {
                let k = choose|k: int| 0 <= k < n && inputs[k] == q;
                assert(k < n - 1);
            } else {
                assert(!(exists|k: int| 0 <= k < n - 1 && inputs[k] == q));
            }
        }
    }
}

/// What adding virtual device `dev` at time `now` makes of manager `m` and store `st`: `dev` is
/// filed under its id, replacing any device with that id; it joins the followers of each of its
/// inputs; what it drives is recorded; the store gets its record, with its information and
/// state at `now`.
pub open spec fn add_outcome(m: VirtualDeviceManager, st: StateStore, dev: AnyVirtualDevice, now: Timestamp,
    m2: VirtualDeviceManager, st2: StateStore) -> bool
{
    &&& m2.device(dev.id()) == Some(dev)
    &&& forall|k: Seq<char>| k != dev.id() ==> #[trigger] m2.device(k) == m.device(k)
    &&& forall|q: Seq<char>| #[trigger] m2.followers(q)
        == added_under(m.followers(q), dev.inputs(), q, dev.id(), dev.inputs().len())
    &&& forall|k: Seq<char>| k != dev.id() ==> #[trigger] m2.driven(k) == m.driven(k)
    &&& m2.driven(dev.id()) is Some
    &&& exists|info: DeviceInfoView| virtual_device_info(dev.config_view(), dev.kind(), now, info)
        && st2.entries() == #[trigger] add_device_result(st.entries(), new_record(info, dev.state_value(), now))
}

/// What removing virtual device `id` makes of manager `m` and store `st`, and its result: the
/// device is gone and every other stays; an unknown id changes nothing else and succeeds; a known
/// one leaves the followers of each of its inputs and its record of driven devices, and its
/// record in the store, which is refused when the store lacks it.
pub open spec fn remove_outcome(m: VirtualDeviceManager, st: StateStore, id: Seq<char>,
    res: Result<(), VirtualDeviceError>, m2: VirtualDeviceManager, st2: StateStore) -> bool
{
    &&& m2.device(id) is None
    &&& forall|k: Seq<char>| k != id ==> #[trigger] m2.device(k) == m.device(k)
    &&& forall|k: Seq<char>| k != id ==> #[trigger] m2.driven(k) == m.driven(k)
    &&& match m.device(id) {
        None => res is Ok && st2.entries() == st.entries()
            && m2.driven(id) == m.driven(id)
            && forall|q: Seq<char>| #[trigger] m2.followers(q) == m.followers(q),
        Some(d) => (forall|q: Seq<char>| #[trigger] m2.followers(q)
                == removed_under(m.followers(q), d.inputs(), q, id, d.inputs().len()))
            && m2.driven(id) is None
            && match st.device(id) {
                Some(_) => res is Ok && st2.entries() == st.entries().remove(
                    index_of_key(st.entries(), device_key(), id)),
                None => res matches Err(VirtualDeviceError::StateStore(StateError::DeviceNotFound(e)))
                    && e@ == id && st2.entries() == st.entries(),
            },
    }
}

/// Removing a virtual device undoes adding it: when the manager held no device with its id, no
/// follower list named it and the store held no record of it, adding it and then removing it
/// succeeds and gives back every device, every follower list, every record of driven devices
/// but its own, which is gone, and the store's records as they were.
pub proof fn law_remove_undoes_add(m0: VirtualDeviceManager, st0: StateStore, dev: AnyVirtualDevice, now: Timestamp,
    m1: VirtualDeviceManager, st1: StateStore, res: Result<(), VirtualDeviceError>, m2: VirtualDeviceManager,
    st2: StateStore)
    requires
        st0.wf(),
        m0.device(dev.id()) is None,
        st0.device(dev.id()) is None,
        forall|q: Seq<char>| #[trigger] m0.followers(q) matches Some(v) ==> v.len() > 0 && !v.contains(dev.id()),
        add_outcome(m0, st0, dev, now, m1, st1),
        remove_outcome(m1, st1, dev.id(), res, m2, st2),
    ensures
        res is Ok,
        forall|k: Seq<char>| #[trigger] m2.device(k) == m0.device(k),
        forall|q: Seq<char>| #[trigger] m2.followers(q) == m0.followers(q),
        forall|k: Seq<char>| k != dev.id() ==> #[trigger] m2.driven(k) == m0.driven(k),
        m2.driven(dev.id()) is None,
        st2.entries() == st0.entries(),
{
    let id = dev.id();
    let info = choose|info: DeviceInfoView| virtual_device_info(dev.config_view(), dev.kind(), now, info)
        && st1.entries() == #[trigger] add_device_result(st0.entries(), new_record(info, dev.state_value(), now));
    let rec = new_record(info, dev.state_value(), now);
    assert(rec.device_id@ == id);
    assert(!has_key(st0.entries(), device_key(), id));
    law_remove_undoes_add_record(st0.entries(), rec);
    let t = st0.entries().push(rec);
    assert(st1.entries() == t);
    assert(device_key()(t[st0.entries().len() as int]) == id);
    assert(has_key(t, device_key(), id));
    assert(st1.device(id) is Some);
    assert forall|q: Seq<char>| #[trigger] m2.followers(q) == m0.followers(q) by {
        assert(m2.followers(q) == removed_under(m1.followers(q), dev.inputs(), q, id, dev.inputs().len()));
        law_remove_undoes_add_followers(m0.followers(q), dev.inputs(), q, id);
    }
    assert forall|k: Seq<char>| #[trigger] m2.device(k) == m0.device(k) by {
        if k != id {
            assert(m2.device(k) == m1.device(k));
        }
    }
}

/// Removing a virtual device undoes adding it to the follower lists: for any physical device
/// `q`, a list that did not name `id` (or no list) comes back as it was after `id` is added for
/// its inputs and then removed.
pub proof fn law_remove_undoes_add_followers(before: Option<Seq<Seq<char>>>, inputs: Seq<Seq<char>>, q: Seq<char>,
    id: Seq<char>)
    requires
        match before {
            Some(v) => v.len() > 0 && !v.contains(id),
            None => true,
        },
    ensures
        removed_under(added_under(before, inputs, q, id, inputs.len()), inputs, q, id, inputs.len()) == before,
{
    let n = inputs.len();
    lemma_added_shape(before, inputs, q, id, n);
    let g = added_under(before, inputs, q, id, n);
    lemma_removed_shape(g, inputs, q, id, n);
    if exists|k: int| 0 <= k < n && inputs[k] == q {
        let b = base_list(before);
        assert forall|i: int| 0 <= i < b.len() implies b[i] != id by {
            if b[i] == id {
                assert(before matches Some(v) && v.contains(id));
            }
        }
        lemma_filter_keeps_others(b, id);
    }
}

pub proof fn law_add_makes_follower(before: Option<Seq<Seq<char>>>, inputs: Seq<Seq<char>>, q: Seq<char>, id: Seq<char>)
    requires
        inputs.contains(q),
    ensures
        added_under(before, inputs, q, id, inputs.len()) matches Some(v) && v.contains(id),
{
    lemma_added_contains(before, inputs, q, id, inputs.len());
}

proof fn lemma_added_contains(before: Option<Seq<Seq<char>>>, inputs: Seq<Seq<char>>, q: Seq<char>, id: Seq<char>, n: nat)
    requires
        n <= inputs.len(),
        exists|k: int| 0 <= k < n && inputs[k] == q,
    ensures
        added_under(before, inputs, q, id, n) matches Some(v) && v.contains(id),
    decreases n,
{
    let prev = added_under(before, inputs, q, id, (n - 1) as nat);
    if inputs[n - 1] == q {
        let v = match prev { Some(v) => v.push(id), None => seq![id] };
        assert(v[v.len() - 1] == id);
    } else {
        let k = choose|k: int| 0 <= k < n && inputs[k] == q;
        assert(k < n - 1);
        lemma_added_contains(before, inputs, q, id, (n - 1) as nat);
        let w = prev->0;
        let c = choose|c: int| 0 <= c < w.len() && w[c] == id;
        assert(added_under(before, inputs, q, id, n) == prev);
    }
}

/// Removing a virtual device takes it off the followers of every one of its inputs.
pub proof fn law_remove_drops_follower(before: Option<Seq<Seq<char>>>, inputs: Seq<Seq<char>>, q: Seq<char>, id: Seq<char>)
    requires
        inputs.contains(q),
    ensures
        match removed_under(before, inputs, q, id, inputs.len()) {
            Some(v) => !v.contains(id),
            None => true,
        },
{
    lemma_removed_lacks(before, inputs, q, id, inputs.len());
}

proof fn lemma_removed_lacks(before: Option<Seq<Seq<char>>>, inputs: Seq<Seq<char>>, q: Seq<char>, id: Seq<char>, n: nat)
    requires
        n <= inputs.len(),
        exists|k: int| 0 <= k < n && inputs[k] == q,
    ensures
        match removed_under(before, inputs, q, id, n) {
            Some(v) => !v.contains(id),
            None => true,
        },
    decreases n,
{
    let prev = removed_under(before, inputs, q, id, (n - 1) as nat);
    if inputs[n - 1] == q {
        match prev {
            Some(v) => {
                let w = v.filter(other_than(id));
                if w.len() != 0 {
                    assert forall|c: int| 0 <= c < w.len() implies w[c] != id by {
                        v.lemma_filter_pred(other_than(id), c);
                        assert(other_than(id)(w[c]));
                    }
                }
            },
            None => {},
        }
    } else {
        let k = choose|k: int| 0 <= k < n && inputs[k] == q;
        assert(k < n - 1);
        lemma_removed_lacks(before, inputs, q, id, (n - 1) as nat);
    }
}

} // verus!
