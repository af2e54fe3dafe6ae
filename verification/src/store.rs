//! The in-memory device and group store.
use vstd::prelude::*;
use crate::keyed::{keys_unique, has_key, index_of_key, lookup, lemma_lookup_at, lemma_lookup_absent, lemma_update_same_key, lemma_push_fresh_key, lemma_remove_key, lemma_lookup_after_update, lemma_lookup_after_push};
use crate::state::{DeviceId, Timestamp, DeviceInfo, DeviceInfoView, DeviceState, DeviceStateView, DeviceStateValue, DeviceType, DeviceGroupInfo, DeviceGroupView, same_device_type};
use crate::text::str_eq;

verus! {

/// Why a store operation was refused.
#[derive(Debug)]
pub enum StateError {
    DeviceNotFound(DeviceId),
    GroupAlreadyExists(String),
    GroupNotFound(String),
}

/// The key of a device record.
pub open spec fn device_key() -> spec_fn(DeviceStateView) -> Seq<char> {
    |d: DeviceStateView| d.device_id@
}

/// The key of a device group.
pub open spec fn group_key() -> spec_fn(DeviceGroupView) -> Seq<char> {
    |g: DeviceGroupView| g.group_name@
}

/// The record the store keeps for a newly added device.
pub open spec fn new_record(info: DeviceInfoView, state: DeviceStateValue, now: Timestamp) -> DeviceStateView {
    DeviceStateView {
        device_id: info.device_id,
        device_info: info,
        state: state,
        last_updated: now,
        last_synced_to_gateway: None,
        last_synced_from_gateway: None,
    }
}

/// Device records, each keyed by its id, and device groups, each keyed by its name.
pub struct StateStore {
    devices: Vec<DeviceState>,
    device_groups: Vec<DeviceGroupInfo>,
}

impl StateStore {
    /// The device records in insertion order.
    pub closed spec fn entries(&self) -> Seq<DeviceStateView> {
        self.devices@.map_values(|d: DeviceState| d@)
    }

    /// The device groups in insertion order.
    pub closed spec fn groups(&self) -> Seq<DeviceGroupView> {
        self.device_groups@.map_values(|g: DeviceGroupInfo| g@)
    }

    /// The record of device `id`, if the store holds one.
    pub open spec fn device(&self, id: Seq<char>) -> Option<DeviceStateView> {
        lookup(self.entries(), device_key(), id)
    }

    /// The group named `name`, if the store holds one.
    pub open spec fn group(&self, name: Seq<char>) -> Option<DeviceGroupView> {
        lookup(self.groups(), group_key(), name)
    }

    /// Every device and group appears once, and every record is filed under the id of its information.
    pub open spec fn wf(&self) -> bool {
        &&& keys_unique(self.entries(), device_key())
        &&& keys_unique(self.groups(), group_key())
        &&& forall|i: int| 0 <= i < self.entries().len()
            ==> (#[trigger] self.entries()[i]).device_id@ == self.entries()[i].device_info.device_id@
    }

    /// An empty store.
    pub fn new() -> (res: StateStore)
        ensures
            res.wf(),
            res.entries() == Seq::<DeviceStateView>::empty(),
            res.groups() == Seq::<DeviceGroupView>::empty(),
    {
        let res = StateStore { devices: Vec::new(), device_groups: Vec::new() };
        assert(res.entries() =~= Seq::<DeviceStateView>::empty());
        assert(res.groups() =~= Seq::<DeviceGroupView>::empty());
        res
    }

    fn find_device(&self, id: &str) -> (res: Option<usize>)
        requires
            self.wf(),
        ensures
            match res {
                Some(i) => i < self.entries().len() && self.entries()[i as int].device_id@ == id@
                    && self.device(id@) == Some(self.entries()[i as int]),
                None => self.device(id@) is None,
            },
    {
        let mut i: usize = 0;
        while i < self.devices.len()
            invariant
                self.wf(),
                i <= self.devices@.len(),
                forall|k: int| 0 <= k < i ==> (#[trigger] self.entries()[k]).device_id@ != id@,
            decreases self.devices@.len() - i,
        {
            assert(self.entries()[i as int] == self.devices@[i as int]@);
            if str_eq(self.devices[i].device_id.as_str(), id) {
                proof { lemma_lookup_at(self.entries(), device_key(), id@, i as int); }
                return Some(i);
            }
            i = i + 1;
        }
        proof { lemma_lookup_absent(self.entries(), device_key(), id@); }
        None
    }

    fn find_group(&self, name: &str) -> (res: Option<usize>)
        requires
            self.wf(),
        ensures
            match res {
                Some(i) => i < self.groups().len() && self.groups()[i as int].group_name@ == name@
                    && self.group(name@) == Some(self.groups()[i as int]),
                None => self.group(name@) is None,
            },
    {
        let mut i: usize = 0;
        while i < self.device_groups.len()
            invariant
                self.wf(),
                i <= self.device_groups@.len(),
                forall|k: int| 0 <= k < i ==> (#[trigger] self.groups()[k]).group_name@ != name@,
            decreases self.device_groups@.len() - i,
        {
            assert(self.groups()[i as int] == self.device_groups@[i as int]@);
            if str_eq(self.device_groups[i].group_name.as_str(), name) {
                proof { lemma_lookup_at(self.groups(), group_key(), name@, i as int); }
                return Some(i);
            }
            i = i + 1;
        }
        proof { lemma_lookup_absent(self.groups(), group_key(), name@); }
        None
    }

    /// Adds a device with its initial state at time `now`; a device already held under the
    /// same id is replaced in place.
    pub fn add_device(&mut self, device_info: DeviceInfo, initial_state: DeviceStateValue, now: Timestamp)
        requires
            old(self).wf(),
        ensures
            final(self).wf(),
            final(self).entries() == add_device_result(old(self).entries(), new_record(device_info@, initial_state, now)),
            final(self).groups() == old(self).groups(),
    {
        let ghost rec = new_record(device_info@, initial_state, now);
        let device_id = device_info.device_id.clone();
        let record = DeviceState {
            device_id: device_id,
            device_info: device_info,
            state: initial_state,
            last_updated: now,
            last_synced_to_gateway: None,
            last_synced_from_gateway: None,
        };
        assert(record@ == rec);
        let found = self.find_device(record.device_id.as_str());
        match found {
            Some(i) => {
                let ghost before = self.entries();
                proof { lemma_update_same_key(before, device_key(), i as int, rec); }
                self.devices.set(i, record);
                assert(self.entries() =~= before.update(i as int, rec));
            },
            None => {
                let ghost before = self.entries();
                proof { lemma_push_fresh_key(before, device_key(), rec); }
                self.devices.push(record);
                assert(self.entries() =~= before.push(rec));
            },
        }
    }

    /// A copy of the record of device `device_id`.
    pub fn get_device(&self, device_id: &DeviceId) -> (res: Option<DeviceState>)
        requires
            self.wf(),
        ensures
            match self.device(device_id@) {
                Some(d) => res is Some && res->0@ == d,
                None => res is None,
            },
    {
        match self.find_device(device_id.as_str()) {
            Some(i) => Some(self.devices[i].clone_state()),
            None => None,
        }
    }

    /// The current state of device `device_id`.
    pub fn get_state(&self, device_id: &str) -> (res: Option<DeviceStateValue>)
        requires
            self.wf(),
        ensures
            match self.device(device_id@) {
                Some(d) => res == Some(d.state),
                None => res is None,
            },
    {
        match self.find_device(device_id) {
            Some(i) => Some(self.devices[i].state.clone()),
            None => None,
        }
    }

    /// Copies of all device records, in store order.
    pub fn list_devices(&self) -> (res: Vec<DeviceState>)
        requires
            self.wf(),
        ensures
            res@.map_values(|d: DeviceState| d@) == self.entries(),
    {
        let mut out: Vec<DeviceState> = Vec::new();
        let mut i: usize = 0;
        while i < self.devices.len()
            invariant
                i <= self.devices@.len(),
                out@.map_values(|d: DeviceState| d@) == self.entries().take(i as int),
            decreases self.devices@.len() - i,
        {
            let ghost before = out@;
            out.push(self.devices[i].clone_state());
            assert(out@.map_values(|d: DeviceState| d@) =~= before.map_values(|d: DeviceState| d@).push(self.entries()[i as int]));
            assert(self.entries().take(i + 1) =~= self.entries().take(i as int).push(self.entries()[i as int]));
            i = i + 1;
        }
        assert(self.entries().take(self.devices@.len() as int) =~= self.entries());
        out
    }

    /// Copies of the records of the devices of kind `device_type`, in store order.
    pub fn list_devices_by_type(&self, device_type: &DeviceType) -> (res: Vec<DeviceState>)
        requires
            self.wf(),
        ensures
            res@.map_values(|d: DeviceState| d@)
                == self.entries().filter(|d: DeviceStateView| same_device_type(d.device_info.device_type, *device_type)),
    {
        let ghost pred = |d: DeviceStateView| same_device_type(d.device_info.device_type, *device_type);
        let mut out: Vec<DeviceState> = Vec::new();
        let mut i: usize = 0;
        while i < self.devices.len()
            invariant
                i <= self.devices@.len(),
                pred == (|d: DeviceStateView| same_device_type(d.device_info.device_type, *device_type)),
                out@.map_values(|d: DeviceState| d@) == self.entries().take(i as int).filter(pred),
            decreases self.devices@.len() - i,
        {
            let ghost before = out@;
            proof { lemma_take_filter_step(self.entries(), pred, i as int); }
            assert(self.entries()[i as int] == self.devices@[i as int]@);
            if self.devices[i].device_info.device_type.same_as(device_type) {
                out.push(self.devices[i].clone_state());
                assert(out@.map_values(|d: DeviceState| d@) =~= before.map_values(|d: DeviceState| d@).push(self.entries()[i as int]));
            }
            i = i + 1;
        }
        assert(self.entries().take(self.devices@.len() as int) =~= self.entries());
        out
    }

    /// Copies of the records of the devices that belong to group `group_name`, in store order.
    pub fn list_devices_by_group(&self, group_name: &str) -> (res: Vec<DeviceState>)
        requires
            self.wf(),
        ensures
            res@.map_values(|d: DeviceState| d@)
                == self.entries().filter(|d: DeviceStateView| in_group(d.device_info.device_groups, group_name@)),
    {
        let ghost pred = |d: DeviceStateView| in_group(d.device_info.device_groups, group_name@);
        let mut out: Vec<DeviceState> = Vec::new();
        let mut i: usize = 0;
        while i < self.devices.len()
            invariant
                i <= self.devices@.len(),
                pred == (|d: DeviceStateView| in_group(d.device_info.device_groups, group_name@)),
                out@.map_values(|d: DeviceState| d@) == self.entries().take(i as int).filter(pred),
            decreases self.devices@.len() - i,
        {
            let ghost before = out@;
            proof { lemma_take_filter_step(self.entries(), pred, i as int); }
            assert(self.entries()[i as int] == self.devices@[i as int]@);
            if contains_string(&self.devices[i].device_info.device_groups, group_name) {
                out.push(self.devices[i].clone_state());
                assert(out@.map_values(|d: DeviceState| d@) =~= before.map_values(|d: DeviceState| d@).push(self.entries()[i as int]));
            }
            i = i + 1;
        }
        assert(self.entries().take(self.devices@.len() as int) =~= self.entries());
        out
    }

    /// Replaces the state of device `device_id` and stamps it with time `now`; refused when
    /// the store holds no such device.
    pub fn update_device_state(&mut self, device_id: &DeviceId, new_state: DeviceStateValue, now: Timestamp)
        -> (res: Result<(), StateError>)
        requires
            old(self).wf(),
        ensures
            final(self).wf(),
            final(self).groups() == old(self).groups(),
            match old(self).device(device_id@) {
                Some(d) => res is Ok
                    && final(self).entries() == update_state_result(old(self).entries(), device_id@, new_state, now),
                None => res matches Err(StateError::DeviceNotFound(id)) && id@ == device_id@
                    && final(self).entries() == old(self).entries(),
            },
    {
        match self.find_device(device_id.as_str()) {
            Some(i) => {
                let ghost before = self.entries();
                let ghost rec = DeviceStateView { state: new_state, last_updated: now, ..before[i as int] };
                proof {
                    lemma_update_same_key(before, device_key(), i as int, rec);
                    lemma_lookup_at(before, device_key(), device_id@, i as int);
                }
                let mut record = self.devices.remove(i);
                record.state = new_state;
                record.last_updated = now;
                self.devices.insert(i, record);
                assert(self.entries() =~= before.update(i as int, rec));
                Ok(())
            },
            None => Err(StateError::DeviceNotFound(device_id.clone())),
        }
    }

    /// Replaces, in order and with time stamp `now`, the state of each device `ids[k]` by
    /// `states[k]`; stops at the first id the store does not hold and reports it.
    pub fn update_device_states_at(&mut self, ids: &Vec<String>, states: &Vec<DeviceStateValue>, now: Timestamp)
        -> (res: Result<(), StateError>)
        requires
            old(self).wf(),
            ids@.len() == states@.len(),
        ensures
            final(self).wf(),
            final(self).groups() == old(self).groups(),
            match first_missing(old(self).entries(), string_views(ids@)) {
                None => res is Ok
                    && final(self).entries() == update_states_result(old(self).entries(), string_views(ids@), states@, now, ids@.len()),
                Some(k) => res matches Err(StateError::DeviceNotFound(id)) && id@ == ids@[k]@ && 0 <= k < ids@.len()
                    && final(self).entries() == update_states_result(old(self).entries(), string_views(ids@), states@, now, k as nat),
            },
    {
        let ghost start = self.entries();
        let ghost keys = string_views(ids@);
        let mut i: usize = 0;
        while i < ids.len()
            invariant
                self.wf(),
                self.groups() == old(self).groups(),
                start == old(self).entries(),
                keys == string_views(ids@),
                keys.len() == ids@.len(),
                ids@.len() == states@.len(),
                i <= ids@.len(),
                self.entries() == update_states_result(start, keys, states@, now, i as nat),
                forall|j: int| 0 <= j < i ==> has_key(start, device_key(), #[trigger] keys[j]),
                forall|k: Seq<char>| #[trigger] has_key(self.entries(), device_key(), k) == has_key(start, device_key(), k),
            decreases ids@.len() - i,
        {
            let ghost before = self.entries();
            let r = self.update_device_state(&ids[i], states[i].clone(), now);
            match r {
                Ok(()) => {
                    proof {
                        assert(keys[i as int] == ids@[i as int]@);
                        lemma_update_keeps_keys(before, ids@[i as int]@, states@[i as int], now);
                    }
                    i = i + 1;
                },
                Err(e) => {
                    proof {
                        assert(keys[i as int] == ids@[i as int]@);
                        lemma_first_missing_at(start, keys, i as int);
                    }
                    return Err(e);
                },
            }
        }
        proof {
            assert forall|j: int| 0 <= j < keys.len() implies has_key(start, device_key(), #[trigger] keys[j]) by {}
        }
        Ok(())
    }

    /// Removes device `device_id` and hands back its record; refused when the store holds no
    /// such device.
    pub fn remove_device(&mut self, device_id: &DeviceId) -> (res: Result<DeviceState, StateError>)
        requires
            old(self).wf(),
        ensures
            final(self).wf(),
            final(self).groups() == old(self).groups(),
            match old(self).device(device_id@) {
                Some(d) => res is Ok && res->Ok_0@ == d
                    && final(self).entries() == old(self).entries().remove(index_of_key(old(self).entries(), device_key(), device_id@)),
                None => res matches Err(StateError::DeviceNotFound(id)) && id@ == device_id@
                    && final(self).entries() == old(self).entries(),
            },
    {
        match self.find_device(device_id.as_str()) {
            Some(i) => {
                let ghost before = self.entries();
                proof {
                    lemma_lookup_at(before, device_key(), device_id@, i as int);
                    lemma_remove_key(before, device_key(), i as int);
                }
                let record = self.devices.remove(i);
                assert(self.entries() =~= before.remove(i as int));
                Ok(record)
            },
            None => Err(StateError::DeviceNotFound(device_id.clone())),
        }
    }

    /// Adds a device group; refused when a group of that name exists.
    pub fn create_device_group(&mut self, group_info: DeviceGroupInfo) -> (res: Result<(), StateError>)
        requires
            old(self).wf(),
        ensures
            final(self).wf(),
            final(self).entries() == old(self).entries(),
            match old(self).group(group_info.group_name@) {
                Some(_) => res matches Err(StateError::GroupAlreadyExists(n)) && n@ == group_info.group_name@
                    && final(self).groups() == old(self).groups(),
                None => res is Ok && final(self).groups() == old(self).groups().push(group_info@),
            },
    {
        match self.find_group(group_info.group_name.as_str()) {
            Some(_) => Err(StateError::GroupAlreadyExists(group_info.group_name)),
            None => {
                let ghost before = self.groups();
                proof { lemma_push_fresh_key(before, group_key(), group_info@); }
                self.device_groups.push(group_info);
                assert(self.groups() =~= before.push(group_info@));
                Ok(())
            },
        }
    }

    /// Copies of all groups, in store order.
    pub fn list_device_groups(&self) -> (res: Vec<DeviceGroupInfo>)
        requires
            self.wf(),
        ensures
            res@.map_values(|g: DeviceGroupInfo| g@) == self.groups(),
    {
        let mut out: Vec<DeviceGroupInfo> = Vec::new();
        let mut i: usize = 0;
        while i < self.device_groups.len()
            invariant
                i <= self.device_groups@.len(),
                out@.map_values(|g: DeviceGroupInfo| g@) == self.groups().take(i as int),
            decreases self.device_groups@.len() - i,
        {
            let ghost before = out@;
            out.push(self.device_groups[i].clone_group());
            assert(out@.map_values(|g: DeviceGroupInfo| g@) =~= before.map_values(|g: DeviceGroupInfo| g@).push(self.groups()[i as int]));
            assert(self.groups().take(i + 1) =~= self.groups().take(i as int).push(self.groups()[i as int]));
            i = i + 1;
        }
        assert(self.groups().take(self.device_groups@.len() as int) =~= self.groups());
        out
    }

    /// A copy of group `group_name`.
    pub fn get_device_group(&self, group_name: &str) -> (res: Option<DeviceGroupInfo>)
        requires
            self.wf(),
        ensures
            match self.group(group_name@) {
                Some(g) => res is Some && res->0@ == g,
                None => res is None,
            },
    {
        match self.find_group(group_name) {
            Some(i) => Some(self.device_groups[i].clone_group()),
            None => None,
        }
    }

    /// The number of devices held.
    pub fn device_count(&self) -> (res: usize)
        ensures
            res == self.entries().len(),
    {
        self.devices.len()
    }

    /// The number of devices marked reachable.
    pub fn reachable_device_count(&self) -> (res: usize)
        ensures
            res == self.entries().filter(|d: DeviceStateView| d.device_info.reachable).len(),
    {
        let ghost pred = |d: DeviceStateView| d.device_info.reachable;
        let mut n: usize = 0;
        let mut i: usize = 0;
        while i < self.devices.len()
            invariant
                i <= self.devices@.len(),
                pred == (|d: DeviceStateView| d.device_info.reachable),
                n == self.entries().take(i as int).filter(pred).len(),
                n <= i,
            decreases self.devices@.len() - i,
        {
            proof { lemma_take_filter_step(self.entries(), pred, i as int); }
            assert(self.entries()[i as int] == self.devices@[i as int]@);
            if self.devices[i].device_info.reachable {
                n = n + 1;
            }
            i = i + 1;
        }
        assert(self.entries().take(self.devices@.len() as int) =~= self.entries());
        n
    }
}

/// The records after adding `rec`: it replaces a record with the same id in place, or is appended.
pub open spec fn add_device_result(entries: Seq<DeviceStateView>, rec: DeviceStateView) -> Seq<DeviceStateView> {
    if has_key(entries, device_key(), rec.device_id@) {
        entries.update(index_of_key(entries, device_key(), rec.device_id@), rec)
    } else {
        entries.push(rec)
    }
}

/// The records after replacing the state of device `id` at time `now`.
pub open spec fn update_state_result(entries: Seq<DeviceStateView>, id: Seq<char>, state: DeviceStateValue, now: Timestamp)
    -> Seq<DeviceStateView>
{
    let i = index_of_key(entries, device_key(), id);
    entries.update(i, DeviceStateView { state: state, last_updated: now, ..entries[i] })
}

/// A list of group names contains `name`.
pub open spec fn in_group(groups: Seq<String>, name: Seq<char>) -> bool {
    exists|k: int| 0 <= k < groups.len() && groups[k]@ == name
}

/// Whether `v` holds a string equal to `s`.
pub fn contains_string(v: &Vec<String>, s: &str) -> (res: bool)
    ensures
        res == in_group(v@, s@),
{
    let mut i: usize = 0;
    while i < v.len()
        invariant
            i <= v@.len(),
            forall|k: int| 0 <= k < i ==> (#[trigger] v@[k])@ != s@,
        decreases v@.len() - i,
    {
        if str_eq(v[i].as_str(), s) {
            return true;
        }
        i = i + 1;
    }
    false
}

/// One step of filtering a growing prefix.
pub proof fn lemma_take_filter_step<T>(s: Seq<T>, pred: spec_fn(T) -> bool, i: int)
    requires
        0 <= i < s.len(),
    ensures
        s.take(i + 1).filter(pred) == if pred(s[i]) { s.take(i).filter(pred).push(s[i]) } else { s.take(i).filter(pred) },
{
    reveal(Seq::filter);
    assert(s.take(i + 1).drop_last() =~= s.take(i));
    assert(s.take(i + 1).last() == s[i]);
}


/// The string contents of a list of strings.
pub open spec fn string_views(v: Seq<String>) -> Seq<Seq<char>> {
    v.map_values(|s: String| s@)
}

/// The position of the first id that names no record, if any.
pub open spec fn first_missing(entries: Seq<DeviceStateView>, ids: Seq<Seq<char>>) -> Option<int> {
    if exists|k: int| 0 <= k < ids.len() && !has_key(entries, device_key(), ids[k]) {
        Some(choose|k: int| 0 <= k < ids.len() && !has_key(entries, device_key(), ids[k])
            && forall|j: int| 0 <= j < k ==> has_key(entries, device_key(), #[trigger] ids[j]))
    } else {
        None
    }
}

/// The records after replacing, in order and at time `now`, the state of the first `n` ids.
pub open spec fn update_states_result(entries: Seq<DeviceStateView>, ids: Seq<Seq<char>>, states: Seq<DeviceStateValue>,
    now: Timestamp, n: nat) -> Seq<DeviceStateView>
    decreases n,
{
    if n == 0 {
        entries
    } else {
        update_state_result(update_states_result(entries, ids, states, now, (n - 1) as nat), ids[n - 1], states[n - 1], now)
    }
}

proof fn lemma_first_missing_at(entries: Seq<DeviceStateView>, ids: Seq<Seq<char>>, k: int)
    requires
        0 <= k < ids.len(),
        !has_key(entries, device_key(), ids[k]),
        forall|j: int| 0 <= j < k ==> has_key(entries, device_key(), #[trigger] ids[j]),
    ensures
        first_missing(entries, ids) == Some(k),
{
    let c = choose|c: int| 0 <= c < ids.len() && !has_key(entries, device_key(), ids[c])
        && forall|j: int| 0 <= j < c ==> has_key(entries, device_key(), #[trigger] ids[j]);
    assert(0 <= c < ids.len() && !has_key(entries, device_key(), ids[c])
        && forall|j: int| 0 <= j < c ==> has_key(entries, device_key(), #[trigger] ids[j]));
    if c < k {
        assert(has_key(entries, device_key(), ids[c]));
    }
    if c > k {
        assert(has_key(entries, device_key(), ids[k]));
    }
}

/// Replacing a device's state keeps every key, and every other record.
pub proof fn lemma_update_keeps_keys(entries: Seq<DeviceStateView>, id: Seq<char>, state: DeviceStateValue, now: Timestamp)
    requires
        keys_unique(entries, device_key()),
        has_key(entries, device_key(), id),
    ensures
        forall|k: Seq<char>| #[trigger] has_key(update_state_result(entries, id, state, now), device_key(), k)
            == has_key(entries, device_key(), k),
        forall|k: Seq<char>| k != id ==> #[trigger] lookup(update_state_result(entries, id, state, now), device_key(), k)
            == lookup(entries, device_key(), k),
{
    let i = index_of_key(entries, device_key(), id);
    let rec = DeviceStateView { state: state, last_updated: now, ..entries[i] };
    lemma_lookup_after_update(entries, device_key(), i, rec);
    let t = entries.update(i, rec);
    assert forall|k: Seq<char>| #[trigger] has_key(t, device_key(), k) == has_key(entries, device_key(), k) by {
        if has_key(t, device_key(), k) {
            let j = choose|j: int| 0 <= j < t.len() && device_key()(t[j]) == k;
            assert(device_key()(entries[j]) == k);
        }
        if has_key(entries, device_key(), k) {
            let j = choose|j: int| 0 <= j < entries.len() && device_key()(entries[j]) == k;
            assert(device_key()(t[j]) == k);
        }
    }
}

/// Replacing the states of devices that all have records keeps every key, and keys stay unique.
pub proof fn lemma_updates_keep_keys(entries: Seq<DeviceStateView>, ids: Seq<Seq<char>>, states: Seq<DeviceStateValue>,
    now: Timestamp, n: nat)
    requires
        keys_unique(entries, device_key()),
        n <= ids.len(),
        forall|j: int| 0 <= j < n ==> has_key(entries, device_key(), #[trigger] ids[j]),
    ensures
        keys_unique(update_states_result(entries, ids, states, now, n), device_key()),
        forall|k: Seq<char>| #[trigger] has_key(update_states_result(entries, ids, states, now, n), device_key(), k)
            == has_key(entries, device_key(), k),
    decreases n,
{
    if n > 0 {
        let m = (n - 1) as nat;
        lemma_updates_keep_keys(entries, ids, states, now, m);
        let prev = update_states_result(entries, ids, states, now, m);
        assert(has_key(entries, device_key(), ids[m as int]));
        assert(has_key(prev, device_key(), ids[m as int]));
        lemma_update_keeps_keys(prev, ids[m as int], states[m as int], now);
        let i = index_of_key(prev, device_key(), ids[m as int]);
        lemma_update_same_key(prev, device_key(), i, DeviceStateView { state: states[m as int], last_updated: now, ..prev[i] });
    }
}

/// What is written is read back: after replacing a device's state, its record holds the new
/// state and time, and every other device reads as before.
pub proof fn law_read_after_update(entries: Seq<DeviceStateView>, id: Seq<char>, state: DeviceStateValue, now: Timestamp)
    requires
        keys_unique(entries, device_key()),
        has_key(entries, device_key(), id),
    ensures
        lookup(update_state_result(entries, id, state, now), device_key(), id) matches Some(r)
            && r.state == state && r.last_updated == now,
        forall|k: Seq<char>| k != id ==> #[trigger] lookup(update_state_result(entries, id, state, now), device_key(), k)
            == lookup(entries, device_key(), k),
{
    let i = index_of_key(entries, device_key(), id);
    let rec = DeviceStateView { state: state, last_updated: now, ..entries[i] };
    lemma_lookup_after_update(entries, device_key(), i, rec);
}

/// Removing what was added restores the records: adding a record for a device the store does
/// not hold, then removing that device's record, gives back the records as they were.
pub proof fn law_remove_undoes_add_record(entries: Seq<DeviceStateView>, rec: DeviceStateView)
    requires
        keys_unique(entries, device_key()),
        !has_key(entries, device_key(), rec.device_id@),
    ensures
        add_device_result(entries, rec).remove(index_of_key(add_device_result(entries, rec), device_key(), rec.device_id@))
            == entries,
{
    let t = entries.push(rec);
    assert(add_device_result(entries, rec) == t);
    crate::keyed::lemma_push_fresh_key(entries, device_key(), rec);
    lemma_lookup_at(t, device_key(), rec.device_id@, entries.len() as int);
    assert(t.remove(entries.len() as int) =~= entries);
}

/// What is added is read back: after adding a record, looking its id up gives that record.
pub proof fn law_read_after_add(entries: Seq<DeviceStateView>, rec: DeviceStateView)
    requires
        keys_unique(entries, device_key()),
    ensures
        lookup(add_device_result(entries, rec), device_key(), rec.device_id@) == Some(rec),
{
    if has_key(entries, device_key(), rec.device_id@) {
        let i = index_of_key(entries, device_key(), rec.device_id@);
        lemma_lookup_after_update(entries, device_key(), i, rec);
    } else {
        lemma_lookup_after_push(entries, device_key(), rec);
    }
}

} // verus!
