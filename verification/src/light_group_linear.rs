//! Light groups that map the group brightness linearly onto a per-member brightness range.
use vstd::prelude::*;
use vstd::string::StringExecFns;
use crate::keyed::{first_value, find_first, lemma_first_index_at};
use crate::light_group::{aggregate_from_store, aggregate_state, initial_group_state, writes_outcome};
use crate::binary32::{UNIT, clamp, lemma_nearest_whole, lemma_nearest_whole_quotient, mul_add, mul_add_exec, nearest, nearest_signed, ratio_exec, round_to_whole, round_to_whole_exec};
use crate::state::{DeviceId, DeviceInfo, DeviceState, DeviceStateValue, LightState, Timestamp};
use crate::store::{StateStore, string_views};
use crate::virtual_device::{VirtualDeviceConfig, VirtualDeviceConfigView, VirtualDeviceError, VirtualDeviceType, device_info_for, virtual_device_info};

verus! {

/// The member brightness for group brightness `g` with brightness range `range`: `g` itself
/// without a range; 0 for 0; otherwise `min + g / 100 * (max - min)` reckoned in single
/// precision (the quotient, the product and the sum each rounded to the nearest
/// single-precision number), rounded to a whole number, halves away from zero, and brought into
/// `0..=100`.
pub open spec fn linear_value(range: Option<(u8, u8)>, g: u8) -> int {
    match range {
        None => g as int,
        Some(r) => if g == 0 {
            0
        } else {
            let normalized = nearest((g * UNIT) as nat, 100) as int;
            clamp(round_to_whole(mul_add(r.0 as int, normalized, r.1 - r.0)), 0, 100)
        },
    }
}

/// The state of a member with brightness range `range` when its group is set to `group`: the
/// mapped group brightness (100 when unset) if the group is on, else 0; on exactly when that is
/// positive; the group's colour temperature and colour.
pub open spec fn linear_member_state(group: LightState, range: Option<(u8, u8)>) -> LightState {
    let b = if group.is_on {
        linear_value(range, match group.brightness { Some(b) => b, None => 100u8 })
    } else {
        0
    };
    LightState { is_on: b > 0, brightness: Some(b as u8), color_temp: group.color_temp, rgb_color: group.rgb_color }
}

/// The keys of a string-keyed table.
pub open spec fn table_keys<V>(t: Seq<(String, V)>) -> Seq<Seq<char>> {
    t.map_values(|e: (String, V)| e.0@)
}

/// The string values of a string-to-string table.
pub open spec fn table_string_values(t: Seq<(String, String)>) -> Seq<Seq<char>> {
    t.map_values(|e: (String, String)| e.1@)
}

/// The position of the first member name without a brightness range.
pub open spec fn first_member_without_range(names: Seq<Seq<char>>, ranges: Seq<(String, (u8, u8))>) -> Option<int> {
    if exists|k: int| 0 <= k < names.len() && first_value(ranges, names[k]) is None {
        Some(choose|k: int| 0 <= k < names.len() && first_value(ranges, names[k]) is None
            && forall|j: int| 0 <= j < k ==> first_value(ranges, #[trigger] names[j]) is Some)
    } else {
        None
    }
}

proof fn lemma_first_member_without_range_at(names: Seq<Seq<char>>, ranges: Seq<(String, (u8, u8))>, k: int)
    requires
        0 <= k < names.len(),
        first_value(ranges, names[k]) is None,
        forall|j: int| 0 <= j < k ==> first_value(ranges, #[trigger] names[j]) is Some,
    ensures
        first_member_without_range(names, ranges) == Some(k),
{
    let c = choose|c: int| 0 <= c < names.len() && first_value(ranges, names[c]) is None
        && forall|j: int| 0 <= j < c ==> first_value(ranges, #[trigger] names[j]) is Some;
    assert(0 <= c < names.len() && first_value(ranges, names[c]) is None
        && forall|j: int| 0 <= j < c ==> first_value(ranges, #[trigger] names[j]) is Some);
    if c < k {
        assert(first_value(ranges, names[c]) is Some);
    }
    if c > k {
        assert(first_value(ranges, names[k]) is Some);
    }
}

/// `find_first`'s answer, read as the first value.
proof fn lemma_found_value<V>(t: Seq<(String, V)>, k: Seq<char>, res: Option<usize>)
    requires
        match res {
            Some(i) => i < t.len() && t[i as int].0@ == k && forall|j: int| 0 <= j < i ==> (#[trigger] t[j]).0@ != k,
            None => forall|j: int| 0 <= j < t.len() ==> (#[trigger] t[j]).0@ != k,
        },
    ensures
        match res {
            Some(i) => first_value(t, k) == Some(t[i as int].1),
            None => first_value(t, k) is None,
        },
{
    match res {
        Some(i) => lemma_first_index_at(t, k, i as int),
        None => {},
    }
}

/// The member brightness for group brightness `g` with brightness range `range`.
pub fn linear_brightness(range: Option<(u8, u8)>, g: u8) -> (res: u8)
    ensures
        res == linear_value(range, g),
{
    match range {
        None => g,
        Some((mn, mx)) => {
            if g == 0 {
                return 0;
            }
            let normalized = ratio_exec(g as u64, 100);
            assert((g * UNIT) as nat / 100nat <= 0x3_0000_0000) by (nonlinear_arith)
                requires g <= 255;
            let diff: i64 = mx as i64 - mn as i64;
            let sum = mul_add_exec(mn, normalized, diff);
            let w = round_to_whole_exec(sum);
            if w < 0 {
                0
            } else if w > 100 {
                100
            } else {
                w as u8
            }
        },
    }
}

/// A light group whose members map the group brightness linearly onto their own ranges.
pub struct LightGroupLinear {
    config: VirtualDeviceConfig,
    members: Vec<(String, String)>,
    brightness_ranges: Vec<(String, (u8, u8))>,
    current_state: LightState,
}

impl LightGroupLinear {
    /// The configuration the group was made from.
    pub closed spec fn config_view(&self) -> VirtualDeviceConfigView {
        self.config@
    }

    /// The members as (name, device id) pairs.
    pub closed spec fn members(&self) -> Seq<(String, String)> {
        self.members@
    }

    /// The brightness ranges by member name.
    pub closed spec fn ranges(&self) -> Seq<(String, (u8, u8))> {
        self.brightness_ranges@
    }

    /// The group's own state.
    pub closed spec fn state(&self) -> LightState {
        self.current_state
    }

    /// The device ids of the members, in member order.
    pub open spec fn member_ids(&self) -> Seq<Seq<char>> {
        table_string_values(self.members())
    }

    /// Every member has a brightness range.
    pub open spec fn wf(&self) -> bool {
        forall|i: int| 0 <= i < self.members().len() ==> first_value(self.ranges(), #[trigger] self.members()[i].0@) is Some
    }

    /// The states the members take when the group is set to `group`, in member order.
    pub open spec fn member_states(&self, group: LightState) -> Seq<DeviceStateValue> {
        Seq::new(self.members().len(), |i: int| DeviceStateValue::Light(
            linear_member_state(group, first_value(self.ranges(), self.members()[i].0@))))
    }

    /// Makes a group from its configuration, its members as (name, device id) pairs and each
    /// member's brightness range; refused when a member has no range.
    pub fn new(config: VirtualDeviceConfig, members: Vec<(String, String)>, brightness_ranges: Vec<(String, (u8, u8))>)
        -> (res: Result<LightGroupLinear, VirtualDeviceError>)
        ensures
            match first_member_without_range(table_keys(members@), brightness_ranges@) {
                Some(k) => res matches Err(VirtualDeviceError::Config(m))
                    && m@ == "Missing brightness range for member: "@ + members@[k].0@,
                None => res matches Ok(g) && g.wf() && g.config_view() == config@ && g.members() == members@
                    && g.ranges() == brightness_ranges@ && g.state() == initial_group_state(),
            },
    {
        let ghost names = table_keys(members@);
        let mut i: usize = 0;
        while i < members.len()
            invariant
                i <= members@.len(),
                names == table_keys(members@),
                forall|j: int| 0 <= j < i ==> first_value(brightness_ranges@, #[trigger] names[j]) is Some,
            decreases members@.len() - i,
        {
            let found = find_first(&brightness_ranges, members[i].0.as_str());
            proof {
                assert(names[i as int] == members@[i as int].0@);
                lemma_found_value(brightness_ranges@, names[i as int], found);
            }
            if found.is_none() {
                proof { lemma_first_member_without_range_at(names, brightness_ranges@, i as int); }
                let mut m = String::from_str("Missing brightness range for member: ");
                m.append(members[i].0.as_str());
                return Err(VirtualDeviceError::Config(m));
            }
            i = i + 1;
        }
        proof {
            assert forall|k: int| 0 <= k < names.len() implies first_value(brightness_ranges@, #[trigger] names[k]) is Some by {}
            assert forall|k: int| 0 <= k < members@.len() implies first_value(brightness_ranges@, #[trigger] members@[k].0@) is Some by {
                assert(names[k] == members@[k].0@);
            }
        }
        Ok(LightGroupLinear {
            config,
            members,
            brightness_ranges,
            current_state: LightState { is_on: false, brightness: Some(0), color_temp: Some(2700), rgb_color: None },
        })
    }

    /// The brightness member `member_name` takes for group brightness `group_brightness`: mapped
    /// onto its range, or unchanged when it has none.
    pub fn map_brightness(&self, member_name: &str, group_brightness: u8) -> (res: u8)
        ensures
            res == linear_value(first_value(self.ranges(), member_name@), group_brightness),
    {
        let found = find_first(&self.brightness_ranges, member_name);
        proof { lemma_found_value(self.brightness_ranges@, member_name@, found); }
        match found {
            Some(i) => linear_brightness(Some(self.brightness_ranges[i].1), group_brightness),
            None => linear_brightness(None, group_brightness),
        }
    }

    /// The member device ids, in member order.
    fn member_id_list(&self) -> (res: Vec<String>)
        ensures
            string_views(res@) == self.member_ids(),
            res@.len() == self.members().len(),
    {
        let mut out: Vec<String> = Vec::new();
        let mut i: usize = 0;
        while i < self.members.len()
            invariant
                i <= self.members@.len(),
                out@.len() == i,
                forall|k: int| 0 <= k < i ==> (#[trigger] out@[k])@ == self.members@[k].1@,
            decreases self.members@.len() - i,
        {
            out.push(self.members[i].1.clone());
            i = i + 1;
        }
        assert(string_views(out@) =~= self.member_ids());
        out
    }

    /// The states the members take when the group is set to `group`.
    fn member_state_values(&self, group: LightState) -> (res: Vec<DeviceStateValue>)
        ensures
            res@ == self.member_states(group),
            res@.len() == self.members().len(),
    {
        let gb: u8 = match group.brightness { Some(b) => b, None => 100 };
        let mut out: Vec<DeviceStateValue> = Vec::new();
        let mut i: usize = 0;
        while i < self.members.len()
            invariant
                i <= self.members@.len(),
                gb == match group.brightness { Some(b) => b, None => 100u8 },
                out@.len() == i,
                forall|k: int| 0 <= k < i ==> #[trigger] out@[k] == self.member_states(group)[k],
            decreases self.members@.len() - i,
        {
            let b: u8 = if group.is_on { self.map_brightness(self.members[i].0.as_str(), gb) } else { 0 };
            out.push(DeviceStateValue::Light(LightState {
                is_on: b > 0,
                brightness: Some(b),
                color_temp: group.color_temp,
                rgb_color: group.rgb_color,
            }));
            i = i + 1;
        }
        assert(out@ =~= self.member_states(group));
        out
    }

    /// Sets the group to `new_state`, which must be a light state, and writes to each member, in
    /// member order and stamped `now`, the state its range gives; stops at the first member the
    /// store does not hold.
    pub fn set_state(&mut self, new_state: DeviceStateValue, store: &mut StateStore, now: Timestamp)
        -> (res: Result<(), VirtualDeviceError>)
        requires
            old(self).wf(),
            old(store).wf(),
        ensures
            final(self).wf(),
            final(store).wf(),
            final(self).config_view() == old(self).config_view(),
            final(self).members() == old(self).members(),
            final(self).ranges() == old(self).ranges(),
            final(store).groups() == old(store).groups(),
            match new_state {
                DeviceStateValue::Light(ls) => final(self).state() == ls
                    && writes_outcome(old(store).entries(), old(self).member_ids(), old(self).member_states(ls), now, res,
                        final(store).entries()),
                _ => res matches Err(VirtualDeviceError::InvalidStateType)
                    && final(self).state() == old(self).state()
                    && final(store).entries() == old(store).entries(),
            },
    {
        match new_state {
            DeviceStateValue::Light(ls) => {
                let states = self.member_state_values(ls);
                let ids = self.member_id_list();
                self.current_state = ls;
                match store.update_device_states_at(&ids, &states, now) {
                    Ok(()) => Ok(()),
                    Err(e) => Err(VirtualDeviceError::StateStore(e)),
                }
            },
            _ => Err(VirtualDeviceError::InvalidStateType),
        }
    }

    /// Recomputes the group state from its members as the store holds them.
    pub fn calculate_group_state(&mut self, store: &StateStore)
        requires
            old(self).wf(),
            store.wf(),
        ensures
            final(self).wf(),
            final(self).config_view() == old(self).config_view(),
            final(self).members() == old(self).members(),
            final(self).ranges() == old(self).ranges(),
            final(self).state() == aggregate_state(old(self).state(), store.entries(), old(self).member_ids()),
    {
        let ids = self.member_id_list();
        self.current_state = aggregate_from_store(self.current_state, store, &ids);
    }

    /// Reacts to a change of device `device_id`: recomputes the group state when it is a member.
    pub fn on_input_changed(&mut self, device_id: &DeviceId, new_state: &DeviceState, store: &StateStore)
        -> (res: Result<(), VirtualDeviceError>)
        requires
            old(self).wf(),
            store.wf(),
        ensures
            res is Ok,
            final(self).wf(),
            final(self).config_view() == old(self).config_view(),
            final(self).members() == old(self).members(),
            final(self).ranges() == old(self).ranges(),
            final(self).state() == if old(self).member_ids().contains(device_id@) {
                aggregate_state(old(self).state(), store.entries(), old(self).member_ids())
            } else {
                old(self).state()
            },
    {
        let ids = self.member_id_list();
        if crate::light_group::contains_id(&ids, device_id.as_str()) {
            self.calculate_group_state(store);
        }
        Ok(())
    }

    /// The group's state, as a device state.
    pub fn current_state(&self) -> (res: DeviceStateValue)
        ensures
            res == DeviceStateValue::Light(self.state()),
    {
        DeviceStateValue::Light(self.current_state)
    }

    /// The devices whose changes the group follows: its members.
    pub fn input_devices(&self) -> (res: Vec<DeviceId>)
        ensures
            string_views(res@) == self.member_ids(),
    {
        self.member_id_list()
    }

    /// The devices the group drives: its members.
    pub fn output_devices(&self) -> (res: Vec<DeviceId>)
        ensures
            string_views(res@) == self.member_ids(),
    {
        self.member_id_list()
    }

    /// The group's id.
    pub fn device_id(&self) -> (res: &DeviceId)
        ensures
            res@ == self.config_view().device_id@,
    {
        &self.config.device_id
    }

    /// The kind of virtual device this is.
    pub fn device_type(&self) -> (res: VirtualDeviceType)
        ensures
            res == VirtualDeviceType::LightGroupLinear,
    {
        VirtualDeviceType::LightGroupLinear
    }

    /// The configuration the group was made from.
    pub fn config(&self) -> (res: &VirtualDeviceConfig)
        ensures
            res@ == self.config_view(),
    {
        &self.config
    }

    /// The information the group exposes at time `now`.
    pub fn device_info_at(&self, now: Timestamp) -> (res: DeviceInfo)
        ensures
            virtual_device_info(self.config_view(), VirtualDeviceType::LightGroupLinear, now, res@),
    {
        device_info_for(&self.config, VirtualDeviceType::LightGroupLinear, now)
    }
}


/// Group brightness 0 maps every member with a range to 0: off is always off.
pub proof fn law_zero_maps_to_zero(range: (u8, u8))
    ensures
        linear_value(Some(range), 0) == 0,
{
}

/// A member with a range is always mapped into `0..=100`.
pub proof fn law_mapped_brightness_in_range(range: (u8, u8), g: u8)
    ensures
        0 <= linear_value(Some(range), g) <= 100,
{
}

/// Group brightness 100 maps a member onto the top of its range, when that lies within `0..=100`.
pub proof fn law_full_maps_to_max(range: (u8, u8))
    requires
        range.1 <= 100,
    ensures
        linear_value(Some(range), 100) == range.1,
{
    lemma_nearest_whole_quotient(1, 100);
    assert(100 * UNIT == 1 * UNIT * 100);
    let diff = range.1 - range.0;
    let ad: nat = if diff >= 0 { diff as nat } else { (-diff) as nat };
    lemma_nearest_whole(ad);
    assert(UNIT * diff == if diff >= 0 { ad * UNIT } else { -(ad * UNIT) });
    assert(nearest_signed(UNIT * diff) == UNIT * diff);
    lemma_nearest_whole(range.1 as nat);
    assert(range.0 * UNIT + UNIT * diff == range.1 * UNIT);
    assert(mul_add(range.0 as int, UNIT as int, diff) == range.1 * UNIT);
    assert(round_to_whole(range.1 * UNIT) == range.1);
}

} // verus!
