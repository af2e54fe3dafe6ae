//! Light groups: one virtual light that drives several member lights through brightness curves.
use vstd::prelude::*;
use vstd::string::StringExecFns;
use crate::json::{JsonNumber, JsonValue, JsonView, json_get, json_view, lemma_array_view, lemma_object_view};
use crate::keyed::find_first;
use crate::binary32::{EXACT_BELOW, UNIT, clamp, lemma_nearest_error, mul_add, mul_add_exec, nearest, nearest_signed, ratio_exec, round_to_whole, round_to_whole_exec};
use crate::state::{DeviceId, DeviceInfo, DeviceStateValue, LightState, Timestamp};
use crate::store::{StateStore, StateError, device_key, first_missing, string_views, update_states_result};
use crate::keyed::lookup;
use crate::virtual_device::{VirtualDeviceConfig, VirtualDeviceConfigView, VirtualDeviceError, VirtualDeviceType, device_info_for, virtual_device_info};

verus! {

/// A mapping from group brightness to the brightness of one member light, given by breakpoints.
#[derive(Debug)]
pub struct BrightnessCurve {
    /// (group brightness, device brightness) pairs, in any order.
    pub breakpoints: Vec<(u8, u8)>,
}

/// `s` with `p` placed after every trailing element whose group brightness is at most that of
/// `p`: one step of a stable insertion sort by group brightness.
pub open spec fn insert_by_group(s: Seq<(u8, u8)>, p: (u8, u8)) -> Seq<(u8, u8)>
    decreases s.len(),
{
    if s.len() == 0 {
        seq![p]
    } else if p.0 < s.last().0 {
        insert_by_group(s.drop_last(), p).push(s.last())
    } else {
        s.push(p)
    }
}

/// The breakpoints stably sorted by group brightness.
pub open spec fn sort_by_group(s: Seq<(u8, u8)>) -> Seq<(u8, u8)>
    decreases s.len(),
{
    if s.len() == 0 {
        Seq::empty()
    } else {
        insert_by_group(sort_by_group(s.drop_last()), s.last())
    }
}

/// The device brightness at group brightness `g` on the segment from breakpoint `a` to
/// breakpoint `b`, reckoned in single precision: the ratio `(g - a.0) / (b.0 - a.0)`, times
/// `b.1 - a.1`, plus `a.1`, each step rounded to the nearest single-precision number; then
/// rounded to a whole number, halves away from zero, and brought into `0..=255`. `a`'s device
/// brightness when both share their group brightness.
pub open spec fn segment_value(a: (u8, u8), b: (u8, u8), g: u8) -> int {
    let den = b.0 - a.0;
    let x = g - a.0;
    if den == 0 {
        a.1 as int
    } else {
        let ratio: int = if x <= 0 { 0 } else { nearest((x * UNIT) as nat, den as nat) as int };
        clamp(round_to_whole(mul_add(a.1 as int, ratio, b.1 - a.1)), 0, 255)
    }
}

/// The device brightness at group brightness `g` on the segment from `a` to `b`.
fn segment_brightness(a: (u8, u8), b: (u8, u8), g: u8) -> (res: u8)
    requires
        a.0 <= g <= b.0,
    ensures
        res == segment_value(a, b, g),
{
    if a.0 == b.0 {
        return a.1;
    }
    let x: u64 = (g - a.0) as u64;
    let den: u64 = (b.0 - a.0) as u64;
    let ratio: u64 = if x == 0 {
        0
    } else {
        let r = ratio_exec(x, den);
        assert((x * UNIT) as nat / den as nat <= UNIT) by (nonlinear_arith)
            requires 1 <= x <= den;
        r
    };
    let diff: i64 = b.1 as i64 - a.1 as i64;
    let sum = mul_add_exec(a.1, ratio, diff);
    let w = round_to_whole_exec(sum);
    if w < 0 {
        0
    } else if w > 255 {
        255
    } else {
        w as u8
    }
}

/// Group brightness `g` lies between the `i`th and the next breakpoint.
pub open spec fn in_window(p: Seq<(u8, u8)>, g: u8, i: int) -> bool {
    0 <= i && i + 1 < p.len() && p[i].0 <= g && g <= p[i + 1].0
}

/// The `i`th window is the first that holds `g`.
pub open spec fn first_window(p: Seq<(u8, u8)>, g: u8, i: int) -> bool {
    in_window(p, g, i) && forall|k: int| 0 <= k < i ==> !#[trigger] in_window(p, g, k)
}

/// The device brightness a curve gives for group brightness `g`: `g` itself without breakpoints;
/// the first (last) breakpoint's device brightness at or below (above) its group brightness;
/// otherwise the rounded value on the first segment of the sorted breakpoints that holds `g`.
pub open spec fn curve_value(breakpoints: Seq<(u8, u8)>, g: u8) -> int {
    let p = sort_by_group(breakpoints);
    if p.len() == 0 {
        g as int
    } else if g <= p[0].0 {
        p[0].1 as int
    } else if g >= p.last().0 {
        p.last().1 as int
    } else {
        let w = choose|w: int| first_window(p, g, w);
        segment_value(p[w], p[w + 1], g)
    }
}

proof fn lemma_insert_len(s: Seq<(u8, u8)>, p: (u8, u8))
    ensures
        insert_by_group(s, p).len() == s.len() + 1,
    decreases s.len(),
{
    if s.len() > 0 && p.0 < s.last().0 {
        lemma_insert_len(s.drop_last(), p);
    }
}

proof fn lemma_sort_len(s: Seq<(u8, u8)>)
    ensures
        sort_by_group(s).len() == s.len(),
    decreases s.len(),
{
    if s.len() > 0 {
        lemma_sort_len(s.drop_last());
        lemma_insert_len(sort_by_group(s.drop_last()), s.last());
    }
}

/// Inserting at the stop position of a backward scan is the insertion step of the sort.
proof fn lemma_insert_at(s: Seq<(u8, u8)>, p: (u8, u8), j: int)
    requires
        0 <= j <= s.len(),
        forall|k: int| j <= k < s.len() ==> p.0 < (#[trigger] s[k]).0,
        j == 0 || s[j - 1].0 <= p.0,
    ensures
        insert_by_group(s, p) == s.insert(j, p),
    decreases s.len(),
{
    if s.len() == 0 {
        assert(s.insert(j, p) =~= seq![p]);
    } else if j == s.len() {
        assert(s.insert(j, p) =~= s.push(p));
    } else {
        assert(p.0 < s[s.len() - 1].0);
        let t = s.drop_last();
        assert forall|k: int| j <= k < t.len() implies p.0 < (#[trigger] t[k]).0 by {
            assert(t[k] == s[k]);
        }
        lemma_insert_at(t, p, j);
        assert(t.insert(j, p).push(s.last()) =~= s.insert(j, p));
    }
}

/// Between its first and last breakpoint, every group brightness lies in some window.
proof fn lemma_window_exists(p: Seq<(u8, u8)>, g: u8)
    requires
        p.len() >= 2,
        p[0].0 <= g,
        g <= p[p.len() - 1].0,
    ensures
        exists|i: int| in_window(p, g, i),
    decreases p.len(),
{
    if p[1].0 >= g {
        assert(in_window(p, g, 0));
    } else {
        let q = p.drop_first();
        lemma_window_exists(q, g);
        let i = choose|i: int| in_window(q, g, i);
        assert(q[i] == p[i + 1] && q[i + 1] == p[i + 2]);
        assert(in_window(p, g, i + 1));
    }
}

/// Inserts `p` into `s` after the trailing elements whose group brightness is at most `p`'s.
fn insert_point(s: &mut Vec<(u8, u8)>, p: (u8, u8))
    ensures
        final(s)@ == insert_by_group(old(s)@, p),
{
    let mut j: usize = s.len();
    while j > 0 && s[j - 1].0 > p.0
        invariant
            j <= s@.len(),
            s@ == old(s)@,
            forall|k: int| j <= k < s@.len() ==> p.0 < (#[trigger] s@[k]).0,
        decreases j,
    {
        j = j - 1;
    }
    proof { lemma_insert_at(s@, p, j as int); }
    s.insert(j, p);
}

/// The breakpoints stably sorted by group brightness.
fn sorted_points(bp: &Vec<(u8, u8)>) -> (res: Vec<(u8, u8)>)
    ensures
        res@ == sort_by_group(bp@),
{
    let mut out: Vec<(u8, u8)> = Vec::new();
    let mut i: usize = 0;
    while i < bp.len()
        invariant
            i <= bp@.len(),
            out@ == sort_by_group(bp@.take(i as int)),
        decreases bp@.len() - i,
    {
        proof {
            assert(bp@.take(i as int + 1).drop_last() =~= bp@.take(i as int));
        }
        insert_point(&mut out, bp[i]);
        i = i + 1;
    }
    assert(bp@.take(bp@.len() as int) =~= bp@);
    out
}

impl BrightnessCurve {
    /// The device brightness this curve gives for group brightness `group_brightness`.
    pub fn interpolate(&self, group_brightness: u8) -> (res: u8)
        ensures
            res == curve_value(self.breakpoints@, group_brightness),
    {
        let g = group_brightness;
        if self.breakpoints.len() == 0 {
            return g;
        }
        let points = sorted_points(&self.breakpoints);
        let ghost p = points@;
        proof { lemma_sort_len(self.breakpoints@); }
        if g <= points[0].0 {
            return points[0].1;
        }
        let n = points.len();
        if g >= points[n - 1].0 {
            return points[n - 1].1;
        }
        let mut i: usize = 0;
        while i + 1 < n
            invariant
                n == points@.len(),
                p == points@,
                p == sort_by_group(self.breakpoints@),
                g == group_brightness,
                n >= 1,
                i < n,
                p[0].0 < g,
                g < p[n - 1].0,
                forall|k: int| 0 <= k < i ==> !#[trigger] in_window(p, g, k),
            decreases n - i,
        {
            let (gb1, db1) = points[i];
            let (gb2, db2) = points[i + 1];
            if gb1 <= g && g <= gb2 {
                proof {
                    assert(in_window(p, g, i as int));
                    assert(first_window(p, g, i as int));
                    let w = choose|w: int| first_window(p, g, w);
                    assert(first_window(p, g, w));
                    if w < i {
                        assert(!in_window(p, g, w));
                    }
                    if w > i {
                        assert(!in_window(p, g, i as int));
                    }
                    assert(w == i);
                }
                return segment_brightness((gb1, db1), (gb2, db2), g);
            }
            i = i + 1;
        }
        proof {
            lemma_window_exists(p, g);
            let w = choose|w: int| in_window(p, g, w);
            assert(!in_window(p, g, w));
        }
        g
    }
}


/// The strings of a JSON array that holds only strings.
#[verifier::opaque]
pub open spec fn json_string_list(v: JsonView) -> Option<Seq<Seq<char>>> {
    match v {
        JsonView::Array(a) => if forall|i: int| 0 <= i < a.len() ==> (#[trigger] a[i]) is Str {
            Some(a.map_values(|e: JsonView| match e { JsonView::Str(s) => s, _ => Seq::empty() }))
        } else {
            None
        },
        _ => None,
    }
}

/// A JSON integer in `0..=255`.
pub open spec fn json_u8(v: JsonView) -> Option<u8> {
    match v {
        JsonView::Number(JsonNumber::PosInt(n)) => if n <= 255 { Some(n as u8) } else { None },
        _ => None,
    }
}

/// A JSON array of exactly two integers in `0..=255`.
pub open spec fn json_u8_pair(v: JsonView) -> Option<(u8, u8)> {
    match v {
        JsonView::Array(a) => if a.len() == 2 && json_u8(a[0]) is Some && json_u8(a[1]) is Some {
            Some((json_u8(a[0])->0, json_u8(a[1])->0))
        } else {
            None
        },
        _ => None,
    }
}

/// The breakpoints of a curve written as an object whose `breakpoints` member is an array of pairs.
#[verifier::opaque]
pub open spec fn json_breakpoints(v: JsonView) -> Option<Seq<(u8, u8)>> {
    match json_get(v, "breakpoints"@) {
        Some(JsonView::Array(a)) => if forall|i: int| 0 <= i < a.len() ==> (#[trigger] json_u8_pair(a[i])) is Some {
            Some(a.map_values(|e: JsonView| json_u8_pair(e)->0))
        } else {
            None
        },
        _ => None,
    }
}

/// The curves of an object that maps light ids to curves, in member order.
#[verifier::opaque]
pub open spec fn json_curves(v: JsonView) -> Option<Seq<(Seq<char>, Seq<(u8, u8)>)>> {
    match v {
        JsonView::Object(m) => if forall|i: int| 0 <= i < m.len() ==> (#[trigger] json_breakpoints(m[i].1)) is Some {
            Some(m.map_values(|e: (Seq<char>, JsonView)| (e.0, json_breakpoints(e.1)->0)))
        } else {
            None
        },
        _ => None,
    }
}

/// A JSON member looked up by key, `null` when absent.
pub open spec fn member_or_null(v: JsonView, key: Seq<char>) -> JsonView {
    match json_get(v, key) {
        Some(m) => m,
        None => JsonView::Null,
    }
}

/// The first curve filed under `id` in a list of (id, curve) pairs.
#[verifier::opaque]
pub open spec fn curve_for(curves: Seq<(Seq<char>, Seq<(u8, u8)>)>, id: Seq<char>) -> Option<Seq<(u8, u8)>> {
    if exists|i: int| 0 <= i < curves.len() && curves[i].0 == id {
        let i = choose|i: int| 0 <= i < curves.len() && curves[i].0 == id && forall|j: int| 0 <= j < i ==> curves[j].0 != id;
        Some(curves[i].1)
    } else {
        None
    }
}

/// The state of a member light with curve `curve` when its group is set to `group`.
pub fn member_light_state(group: LightState, curve: &BrightnessCurve) -> (res: LightState)
    ensures
        res == member_state(group, curve.breakpoints@),
{
    let b: u8 = if group.is_on {
        curve.interpolate(match group.brightness { Some(b) => b, None => 100 })
    } else {
        0
    };
    LightState { is_on: b > 0, brightness: Some(b), color_temp: group.color_temp, rgb_color: group.rgb_color }
}

/// The outcome of writing `states[k]` to each device `ids[k]` in order at time `now`, taking
/// `entries` to `after`: all writes done and `Ok` when every id names a record; otherwise the writes
/// before the first unknown id done, and that id reported.
pub open spec fn writes_outcome(entries: Seq<crate::state::DeviceStateView>, ids: Seq<Seq<char>>, states: Seq<DeviceStateValue>,
    now: Timestamp, res: Result<(), VirtualDeviceError>, after: Seq<crate::state::DeviceStateView>) -> bool
{
    match first_missing(entries, ids) {
        None => res is Ok && after == update_states_result(entries, ids, states, now, ids.len()),
        Some(k) => res matches Err(VirtualDeviceError::StateStore(StateError::DeviceNotFound(id)))
            && id@ == ids[k]
            && after == update_states_result(entries, ids, states, now, k as nat),
    }
}

/// Whether `v` holds a string equal to `s`.
pub fn contains_id(v: &Vec<String>, s: &str) -> (res: bool)
    ensures
        res == string_views(v@).contains(s@),
{
    let mut i: usize = 0;
    while i < v.len()
        invariant
            i <= v@.len(),
            forall|k: int| 0 <= k < i ==> (#[trigger] v@[k])@ != s@,
        decreases v@.len() - i,
    {
        if crate::text::str_eq(v[i].as_str(), s) {
            proof { assert(string_views(v@)[i as int] == s@); }
            return true;
        }
        i = i + 1;
    }
    proof {
        assert forall|k: int| 0 <= k < string_views(v@).len() implies string_views(v@)[k] != s@ by {
            assert(string_views(v@)[k] == v@[k]@);
        }
    }
    false
}

impl LightGroup {
    /// The states the members take when the group is set to `group`, in member order.
    fn member_state_values(&self, group: LightState) -> (res: Vec<DeviceStateValue>)
        requires
            self.wf(),
        ensures
            res@ == self.member_states(group),
            res@.len() == self.lights@.len(),
    {
        let mut out: Vec<DeviceStateValue> = Vec::new();
        let mut i: usize = 0;
        while i < self.lights.len()
            invariant
                self.wf(),
                i <= self.lights@.len(),
                out@.len() == i,
                forall|k: int| 0 <= k < i ==> #[trigger] out@[k] == self.member_states(group)[k],
            decreases self.lights@.len() - i,
        {
            assert(self.lights()[i as int] == self.lights@[i as int]@);
            let found = find_first(&self.brightness_curves, self.lights[i].as_str());
            proof {
                match found {
                    Some(j) => lemma_curve_for_found(self.brightness_curves@, self.lights()[i as int], j as int),
                    None => lemma_curve_for_absent(self.brightness_curves@, self.lights()[i as int]),
                }
                assert(curve_for(self.curves(), self.lights()[i as int]) is Some);
            }
            match found {
                Some(j) => {
                    out.push(DeviceStateValue::Light(member_light_state(group, &self.brightness_curves[j].1)));
                },
                None => {},
            }
            i = i + 1;
        }
        assert(out@ =~= self.member_states(group));
        out
    }

    /// Sets the group to `new_state`, which must be a light state, and writes to each member
    /// light, in order and stamped `now`, the state its curve gives; stops at the first member the
    /// store does not hold.
    pub fn set_state(&mut self, new_state: DeviceStateValue, store: &mut StateStore, now: Timestamp)
        -> (res: Result<(), VirtualDeviceError>)
        requires
            old(self).wf(),
            old(store).wf(),
        ensures
            final(self).wf(),
            final(store).wf(),
            final(self).config_view() == old(self).config_view(),
            final(self).lights() == old(self).lights(),
            final(self).curves() == old(self).curves(),
            final(store).groups() == old(store).groups(),
            match new_state {
                DeviceStateValue::Light(ls) => final(self).state() == ls
                    && writes_outcome(old(store).entries(), old(self).lights(), old(self).member_states(ls), now, res, final(store).entries()),
                _ => res matches Err(VirtualDeviceError::InvalidStateType)
                    && final(self).state() == old(self).state()
                    && final(store).entries() == old(store).entries(),
            },
    {
        match new_state {
            DeviceStateValue::Light(ls) => {
                let states = self.member_state_values(ls);
                self.current_state = ls;
                match store.update_device_states_at(&self.lights, &states, now) {
                    Ok(()) => Ok(()),
                    Err(e) => Err(VirtualDeviceError::StateStore(e)),
                }
            },
            _ => Err(VirtualDeviceError::InvalidStateType),
        }
    }

    /// Recomputes the group state from its member lights as the store holds them.
    pub fn calculate_group_state(&mut self, store: &StateStore)
        requires
            old(self).wf(),
            store.wf(),
        ensures
            final(self).wf(),
            final(self).config_view() == old(self).config_view(),
            final(self).lights() == old(self).lights(),
            final(self).curves() == old(self).curves(),
            final(self).state() == aggregate_state(old(self).state(), store.entries(), old(self).lights()),
    {
        self.current_state = aggregate_from_store(self.current_state, store, &self.lights);
    }

    /// Reacts to a change of device `device_id`: recomputes the group state when it is a member.
    pub fn on_input_changed(&mut self, device_id: &DeviceId, new_state: &crate::state::DeviceState, store: &StateStore)
        -> (res: Result<(), VirtualDeviceError>)
        requires
            old(self).wf(),
            store.wf(),
        ensures
            res is Ok,
            final(self).wf(),
            final(self).config_view() == old(self).config_view(),
            final(self).lights() == old(self).lights(),
            final(self).curves() == old(self).curves(),
            final(self).state() == if old(self).lights().contains(device_id@) {
                aggregate_state(old(self).state(), store.entries(), old(self).lights())
            } else {
                old(self).state()
            },
    {
        if contains_id(&self.lights, device_id.as_str()) {
            self.calculate_group_state(store);
        }
        Ok(())
    }

    /// The group's state, as a device state.
    pub fn current_state(&self) -> (res: DeviceStateValue)
        ensures
            res == DeviceStateValue::Light(self.state()),
    {
        DeviceStateValue::Light(self.current_state)
    }

    /// The devices whose changes the group follows: its member lights.
    pub fn input_devices(&self) -> (res: Vec<DeviceId>)
        ensures
            string_views(res@) == self.lights(),
    {
        crate::state::clone_strings(&self.lights)
    }

    /// The devices the group drives: its member lights.
    pub fn output_devices(&self) -> (res: Vec<DeviceId>)
        ensures
            string_views(res@) == self.lights(),
    {
        crate::state::clone_strings(&self.lights)
    }

    /// The group's id.
    pub fn device_id(&self) -> (res: &DeviceId)
        ensures
            res@ == self.config_view().device_id@,
    {
        &self.config.device_id
    }

    /// The kind of virtual device this is.
    pub fn device_type(&self) -> (res: VirtualDeviceType)
        ensures
            res == VirtualDeviceType::LightGroup,
    {
        VirtualDeviceType::LightGroup
    }

    /// The configuration the group was made from.
    pub fn config(&self) -> (res: &VirtualDeviceConfig)
        ensures
            res@ == self.config_view(),
    {
        &self.config
    }

    /// The information the group exposes at time `now`.
    pub fn device_info_at(&self, now: Timestamp) -> (res: DeviceInfo)
        ensures
            virtual_device_info(self.config_view(), VirtualDeviceType::LightGroup, now, res@),
    {
        device_info_for(&self.config, VirtualDeviceType::LightGroup, now)
    }
}

/// Why a light group cannot be made from configuration `c`, if it cannot: its lights are not a
/// list of strings, its brightness curves are not a map of breakpoint lists, or a light has no curve.
pub open spec fn config_error(c: JsonView) -> Option<Seq<char>> {
    match json_string_list(member_or_null(c, "lights"@)) {
        None => Some("Invalid lights config"@),
        Some(l) => match json_curves(member_or_null(c, "brightness_curves"@)) {
            None => Some("Invalid brightness curves"@),
            Some(cs) => match first_light_without_curve(l, cs) {
                Some(k) => Some("Missing brightness curve for light: "@ + l[k]),
                None => None,
            },
        },
    }
}

/// The position of the first light without a curve.
#[verifier::opaque]
pub open spec fn first_light_without_curve(lights: Seq<Seq<char>>, curves: Seq<(Seq<char>, Seq<(u8, u8)>)>) -> Option<int> {
    if exists|k: int| 0 <= k < lights.len() && curve_for(curves, lights[k]) is None {
        Some(choose|k: int| 0 <= k < lights.len() && curve_for(curves, lights[k]) is None
            && forall|j: int| 0 <= j < k ==> curve_for(curves, #[trigger] lights[j]) is Some)
    } else {
        None
    }
}

/// The state a light group starts in: off, brightness 0, 2700 K, no colour.
pub open spec fn initial_group_state() -> LightState {
    LightState { is_on: false, brightness: Some(0), color_temp: Some(2700), rgb_color: None }
}

/// The state of a member light with curve `curve` when its group is set to `group`: the curve's
/// value for the group brightness (100 when unset) if the group is on, else 0; on exactly when
/// that value is positive; the group's colour temperature and colour.
pub open spec fn member_state(group: LightState, curve: Seq<(u8, u8)>) -> LightState {
    let b = if group.is_on {
        curve_value(curve, match group.brightness { Some(b) => b, None => 100u8 })
    } else {
        0
    };
    LightState { is_on: b > 0, brightness: Some(b as u8), color_temp: group.color_temp, rgb_color: group.rgb_color }
}

/// The brightness a device contributes to its group: its brightness (100 when unset) when it is
/// a light that is on; nothing otherwise.
pub open spec fn lit_brightness(entries: Seq<crate::state::DeviceStateView>, id: Seq<char>) -> Option<u8> {
    match lookup(entries, device_key(), id) {
        Some(d) => match d.state {
            DeviceStateValue::Light(l) => if l.is_on {
                Some(match l.brightness { Some(b) => b, None => 100u8 })
            } else {
                None
            },
            _ => None,
        },
        None => None,
    }
}

/// How many of the first `n` ids are lights that are on.
pub open spec fn lit_count(entries: Seq<crate::state::DeviceStateView>, ids: Seq<Seq<char>>, n: nat) -> nat
    decreases n,
{
    if n == 0 {
        0
    } else {
        lit_count(entries, ids, (n - 1) as nat) + if lit_brightness(entries, ids[n - 1]) is Some { 1nat } else { 0nat }
    }
}

/// The summed brightness of the lit lights among the first `n` ids.
pub open spec fn lit_total(entries: Seq<crate::state::DeviceStateView>, ids: Seq<Seq<char>>, n: nat) -> nat
    decreases n,
{
    if n == 0 {
        0
    } else {
        lit_total(entries, ids, (n - 1) as nat) + match lit_brightness(entries, ids[n - 1]) { Some(b) => b as nat, None => 0nat }
    }
}

/// The group state recomputed from its members: on exactly when some member light is on, with the
/// average brightness of the lit members (0 when none is lit); colour settings kept.
pub open spec fn aggregate_state(current: LightState, entries: Seq<crate::state::DeviceStateView>, ids: Seq<Seq<char>>) -> LightState {
    let count = lit_count(entries, ids, ids.len());
    let total = lit_total(entries, ids, ids.len());
    LightState {
        is_on: count > 0,
        brightness: Some(if count > 0 { (total / count) as u8 } else { 0u8 }),
        ..current
    }
}

proof fn lemma_lit_bounds(entries: Seq<crate::state::DeviceStateView>, ids: Seq<Seq<char>>, n: nat)
    requires
        n <= ids.len(),
    ensures
        lit_count(entries, ids, n) <= n,
        lit_total(entries, ids, n) <= 255 * lit_count(entries, ids, n),
    decreases n,
{
    if n > 0 {
        lemma_lit_bounds(entries, ids, (n - 1) as nat);
    }
}

/// Recomputes a group state from the member lights `ids` as the store holds them.
pub fn aggregate_from_store(current: LightState, store: &StateStore, ids: &Vec<String>) -> (res: LightState)
    requires
        store.wf(),
    ensures
        res == aggregate_state(current, store.entries(), string_views(ids@)),
{
    let ghost keys = string_views(ids@);
    let mut total: u128 = 0;
    let mut count: u64 = 0;
    let mut i: usize = 0;
    while i < ids.len()
        invariant
            store.wf(),
            keys == string_views(ids@),
            i <= ids@.len(),
            count == lit_count(store.entries(), keys, i as nat),
            total == lit_total(store.entries(), keys, i as nat),
            count <= i,
            total <= 255 * count,
        decreases ids@.len() - i,
    {
        proof {
            lemma_lit_bounds(store.entries(), keys, i as nat);
            assert(keys[i as int] == ids@[i as int]@);
        }
        match store.get_state(ids[i].as_str()) {
            Some(DeviceStateValue::Light(l)) => {
                if l.is_on {
                    count = count + 1;
                    total = total + match l.brightness { Some(b) => b as u128, None => 100u128 };
                }
            },
            _ => {},
        }
        i = i + 1;
    }
    proof {
        lemma_lit_bounds(store.entries(), keys, keys.len());
        assert(keys.len() == ids@.len());
    }
    let avg: u8 = if count > 0 {
        let c: u128 = count as u128;
        assert(total / c <= 255) by (nonlinear_arith)
            requires total <= 255 * c, c > 0;
        (total / c) as u8
    } else {
        0
    };
    LightState { is_on: count > 0, brightness: Some(avg), ..current }
}

/// Reads a JSON array of strings.
fn decode_string_list(v: &JsonValue) -> (res: Option<Vec<String>>)
    ensures
        match json_string_list(json_view(*v)) {
            Some(s) => res is Some && string_views(res->0@) == s,
            None => res is None,
        },
{
    reveal(json_string_list);
    match v {
        JsonValue::Array(a) => {
            proof { lemma_array_view(a@); }
            let ghost av = crate::json::json_array_view(a@, a@.len());
            assert(json_view(*v) == JsonView::Array(av));
            let mut out: Vec<String> = Vec::new();
            let mut i: usize = 0;
            while i < a.len()
                invariant
                    json_view(*v) == JsonView::Array(av),
                    i <= a@.len(),
                    av == crate::json::json_array_view(a@, a@.len()),
                    av.len() == a@.len(),
                    forall|k: int| 0 <= k < a@.len() ==> #[trigger] av[k] == json_view(a@[k]),
                    out@.len() == i,
                    forall|k: int| 0 <= k < i ==> (#[trigger] av[k]) is Str,
                    forall|k: int| 0 <= k < i ==> av[k] == JsonView::Str((#[trigger] out@[k])@),
                decreases a@.len() - i,
            {
                assert(av[i as int] == json_view(a@[i as int]));
                match &a[i] {
                    JsonValue::Str(s) => {
                        out.push(s.clone());
                    },
                    _ => {
                        proof {
                            reveal(json_string_list);
                            assert(json_view(*v) == JsonView::Array(av));
                            assert(!(av[i as int] is Str));
                        }
                        return None;
                    },
                }
                i = i + 1;
            }
            proof {
                assert(json_view(*v) == JsonView::Array(av));
                assert(string_views(out@) =~= av.map_values(|e: JsonView| match e { JsonView::Str(s) => s, _ => Seq::empty() }));
            }
            Some(out)
        },
        _ => None,
    }
}

/// Reads a JSON integer in `0..=255`.
fn decode_u8(v: &JsonValue) -> (res: Option<u8>)
    ensures
        res == json_u8(json_view(*v)),
{
    match v {
        JsonValue::Number(JsonNumber::PosInt(n)) => if *n <= 255 { Some(*n as u8) } else { None },
        _ => None,
    }
}

/// Reads a JSON array of two integers in `0..=255`.
fn decode_u8_pair(v: &JsonValue) -> (res: Option<(u8, u8)>)
    ensures
        res == json_u8_pair(json_view(*v)),
{
    match v {
        JsonValue::Array(a) => {
            proof { lemma_array_view(a@); }
            if a.len() != 2 {
                return None;
            }
            match (decode_u8(&a[0]), decode_u8(&a[1])) {
                (Some(x), Some(y)) => Some((x, y)),
                _ => None,
            }
        },
        _ => None,
    }
}

/// Reads a brightness curve written as `{"breakpoints": [[g, d], ...]}`.
fn decode_curve(v: &JsonValue) -> (res: Option<BrightnessCurve>)
    ensures
        match json_breakpoints(json_view(*v)) {
            Some(b) => res is Some && res->0.breakpoints@ == b,
            None => res is None,
        },
{
    reveal(json_breakpoints);
    match v.get("breakpoints") {
        Some(JsonValue::Array(a)) => {
            proof { lemma_array_view(a@); }
            let ghost av = crate::json::json_array_view(a@, a@.len());
            assert(json_get(json_view(*v), "breakpoints"@) == Some(JsonView::Array(av)));
            let mut out: Vec<(u8, u8)> = Vec::new();
            let mut i: usize = 0;
            while i < a.len()
                invariant
                    json_get(json_view(*v), "breakpoints"@) == Some(JsonView::Array(av)),
                    i <= a@.len(),
                    av == crate::json::json_array_view(a@, a@.len()),
                    av.len() == a@.len(),
                    forall|k: int| 0 <= k < a@.len() ==> #[trigger] av[k] == json_view(a@[k]),
                    out@.len() == i,
                    forall|k: int| 0 <= k < i ==> (#[trigger] json_u8_pair(av[k])) is Some,
                    forall|k: int| 0 <= k < i ==> json_u8_pair(av[k]) == Some(#[trigger] out@[k]),
                decreases a@.len() - i,
            {
                assert(av[i as int] == json_view(a@[i as int]));
                match decode_u8_pair(&a[i]) {
                    Some(p) => out.push(p),
                    None => {
                        proof {
                            reveal(json_breakpoints);
                            assert(json_get(json_view(*v), "breakpoints"@) == Some(JsonView::Array(av)));
                            assert(json_u8_pair(av[i as int]) is None);
                        }
                        return None;
                    },
                }
                i = i + 1;
            }
            proof {
                assert(out@ =~= av.map_values(|e: JsonView| json_u8_pair(e)->0));
            }
            Some(BrightnessCurve { breakpoints: out })
        },
        _ => None,
    }
}

/// Reads an object that maps light ids to brightness curves.
fn decode_curves(v: &JsonValue) -> (res: Option<Vec<(String, BrightnessCurve)>>)
    ensures
        match json_curves(json_view(*v)) {
            Some(c) => res is Some && curve_entries(res->0@) == c,
            None => res is None,
        },
{
    reveal(json_curves);
    reveal(json_breakpoints);
    match v {
        JsonValue::Object(m) => {
            proof { lemma_object_view(m@); }
            let ghost mv = crate::json::json_object_view(m@, m@.len());
            assert(json_view(*v) == JsonView::Object(mv));
            let mut out: Vec<(String, BrightnessCurve)> = Vec::new();
            let mut i: usize = 0;
            while i < m.len()
                invariant
                    json_view(*v) == JsonView::Object(mv),
                    i <= m@.len(),
                    mv == crate::json::json_object_view(m@, m@.len()),
                    mv.len() == m@.len(),
                    forall|k: int| 0 <= k < m@.len() ==> #[trigger] mv[k] == (m@[k].0@, json_view(m@[k].1)),
                    out@.len() == i,
                    forall|k: int| 0 <= k < i ==> (#[trigger] json_breakpoints(mv[k].1)) is Some,
                    forall|k: int| 0 <= k < i ==> (#[trigger] curve_entries(out@)[k]) == (mv[k].0, json_breakpoints(mv[k].1)->0),
                decreases m@.len() - i,
            {
                assert(mv[i as int] == (m@[i as int].0@, json_view(m@[i as int].1)));
                match decode_curve(&m[i].1) {
                    Some(c) => {
                        let ghost before = out@;
                        out.push((m[i].0.clone(), c));
                        proof {
                            assert forall|k: int| 0 <= k < i + 1 implies (#[trigger] curve_entries(out@)[k]) == (mv[k].0, json_breakpoints(mv[k].1)->0) by {
                                if k < i {
                                    assert(curve_entries(out@)[k] == curve_entries(before)[k]);
                                }
                            }
                        }
                    },
                    None => {
                        proof {
                            reveal(json_curves);
                            assert(json_view(*v) == JsonView::Object(mv));
                            assert(json_breakpoints(mv[i as int].1) is None);
                        }
                        return None;
                    },
                }
                i = i + 1;
            }
            proof {
                assert(curve_entries(out@) =~= mv.map_values(|e: (Seq<char>, JsonView)| (e.0, json_breakpoints(e.1)->0)));
            }
            Some(out)
        },
        _ => None,
    }
}

/// The (id, breakpoints) content of a list of curves.
pub open spec fn curve_entries(c: Seq<(String, BrightnessCurve)>) -> Seq<(Seq<char>, Seq<(u8, u8)>)> {
    c.map_values(|e: (String, BrightnessCurve)| (e.0@, e.1.breakpoints@))
}

/// A light group: a virtual light whose members follow it through per-light brightness curves.
pub struct LightGroup {
    config: VirtualDeviceConfig,
    lights: Vec<DeviceId>,
    brightness_curves: Vec<(DeviceId, BrightnessCurve)>,
    current_state: LightState,
}

impl LightGroup {
    /// The configuration the group was made from.
    pub closed spec fn config_view(&self) -> VirtualDeviceConfigView {
        self.config@
    }

    /// The member lights, in configuration order.
    pub closed spec fn lights(&self) -> Seq<Seq<char>> {
        string_views(self.lights@)
    }

    /// The curves, by light id, in configuration order.
    pub closed spec fn curves(&self) -> Seq<(Seq<char>, Seq<(u8, u8)>)> {
        curve_entries(self.brightness_curves@)
    }

    /// The group's own state.
    pub closed spec fn state(&self) -> LightState {
        self.current_state
    }

    /// Every member light has a curve.
    pub open spec fn wf(&self) -> bool {
        forall|i: int| 0 <= i < self.lights().len() ==> curve_for(self.curves(), #[trigger] self.lights()[i]) is Some
    }

    /// The states the members take when the group is set to `group`, in member order.
    pub open spec fn member_states(&self, group: LightState) -> Seq<DeviceStateValue> {
        Seq::new(self.lights().len(), |i: int| DeviceStateValue::Light(member_state(group, curve_for(self.curves(), self.lights()[i])->0)))
    }

    /// Makes a light group from its configuration, whose `lights` member lists the member light
    /// ids and whose `brightness_curves` member maps each of them to a curve. Refused when either
    /// member is missing or malformed, or when a light has no curve.
    pub fn new(config: VirtualDeviceConfig) -> (res: Result<LightGroup, VirtualDeviceError>)
        ensures
            match config_error(config@.config) {
                Some(m) => res matches Err(VirtualDeviceError::Config(e)) && e@ == m,
                None => res is Ok,
            },
            ({
                let c = config@.config;
                let lights = json_string_list(member_or_null(c, "lights"@));
                let curves = json_curves(member_or_null(c, "brightness_curves"@));
                match lights {
                    None => res matches Err(VirtualDeviceError::Config(m)) && m@ == "Invalid lights config"@,
                    Some(l) => match curves {
                        None => res matches Err(VirtualDeviceError::Config(m)) && m@ == "Invalid brightness curves"@,
                        Some(cs) => match first_light_without_curve(l, cs) {
                            Some(k) => res matches Err(VirtualDeviceError::Config(m))
                                && m@ == "Missing brightness curve for light: "@ + l[k],
                            None => res matches Ok(g) && g.wf() && g.config_view() == config@ && g.lights() == l
                                && g.curves() == cs && g.state() == initial_group_state(),
                        },
                    },
                }
            }),
    {
        let null = JsonValue::Null;
        let lights_value = match config.config.get("lights") {
            Some(v) => v,
            None => &null,
        };
        let lights = match decode_string_list(lights_value) {
            Some(l) => l,
            None => return Err(VirtualDeviceError::Config(String::from_str("Invalid lights config"))),
        };
        let curves_value = match config.config.get("brightness_curves") {
            Some(v) => v,
            None => &null,
        };
        let curves = match decode_curves(curves_value) {
            Some(c) => c,
            None => return Err(VirtualDeviceError::Config(String::from_str("Invalid brightness curves"))),
        };
        match first_uncovered(&lights, &curves) {
            Some(k) => {
                let mut m = String::from_str("Missing brightness curve for light: ");
                m.append(lights[k].as_str());
                Err(VirtualDeviceError::Config(m))
            },
            None =>         Ok(LightGroup { config, lights, brightness_curves: curves, current_state: LightState { is_on: false, brightness: Some(0), color_temp: Some(2700), rgb_color: None } }),
        }
    }
}

/// The position of the first light without a curve.
fn first_uncovered(lights: &Vec<String>, curves: &Vec<(String, BrightnessCurve)>) -> (res: Option<usize>)
    ensures
        match first_light_without_curve(string_views(lights@), curve_entries(curves@)) {
            Some(k) => res == Some(k as usize) && k < lights@.len(),
            None => res is None,
        },
        res matches Some(k) ==> k < lights@.len()
            && first_light_without_curve(string_views(lights@), curve_entries(curves@)) == Some(k as int),
        res is None ==> forall|k: int| 0 <= k < lights@.len()
            ==> curve_for(curve_entries(curves@), #[trigger] string_views(lights@)[k]) is Some,
{
    reveal(first_light_without_curve);
    let ghost l = string_views(lights@);
    let ghost cs = curve_entries(curves@);
    let mut i: usize = 0;
    while i < lights.len()
        invariant
            i <= lights@.len(),
            l == string_views(lights@),
            cs == curve_entries(curves@),
            forall|j: int| 0 <= j < i ==> curve_for(cs, #[trigger] l[j]) is Some,
        decreases lights@.len() - i,
    {
        let found = find_first(curves, lights[i].as_str());
        proof {
            assert(l[i as int] == lights@[i as int]@);
            match found {
                Some(j) => lemma_curve_for_found(curves@, l[i as int], j as int),
                None => lemma_curve_for_absent(curves@, l[i as int]),
            }
        }
        if found.is_none() {
            proof { lemma_first_without_curve_at(l, cs, i as int); }
            return Some(i);
        }
        i = i + 1;
    }
    proof {
        assert forall|k: int| 0 <= k < l.len() implies curve_for(cs, #[trigger] l[k]) is Some by {}
    }
    None
}

proof fn lemma_curve_for_found(c: Seq<(String, BrightnessCurve)>, id: Seq<char>, i: int)
    requires
        0 <= i < c.len(),
        c[i].0@ == id,
        forall|j: int| 0 <= j < i ==> (#[trigger] c[j]).0@ != id,
    ensures
        curve_for(curve_entries(c), id) == Some(c[i].1.breakpoints@),
{
    reveal(curve_for);
    let ce = curve_entries(c);
    assert(ce[i] == (c[i].0@, c[i].1.breakpoints@));
    assert(forall|j: int| 0 <= j < i ==> ce[j].0 != id) by {
        assert forall|j: int| 0 <= j < i implies ce[j].0 != id by {
            assert(ce[j].0 == c[j].0@);
        }
    }
    let w = choose|w: int| 0 <= w < ce.len() && ce[w].0 == id && forall|j: int| 0 <= j < w ==> ce[j].0 != id;
    assert(0 <= w < ce.len() && ce[w].0 == id && forall|j: int| 0 <= j < w ==> ce[j].0 != id);
    if w > i {
        assert(ce[i].0 != id);
    }
}

proof fn lemma_curve_for_absent(c: Seq<(String, BrightnessCurve)>, id: Seq<char>)
    requires
        forall|j: int| 0 <= j < c.len() ==> (#[trigger] c[j]).0@ != id,
    ensures
        curve_for(curve_entries(c), id) is None,
{
    reveal(curve_for);
    let ce = curve_entries(c);
    assert forall|i: int| 0 <= i < ce.len() implies ce[i].0 != id by {
        assert(ce[i].0 == c[i].0@);
    }
}

proof fn lemma_first_without_curve_at(l: Seq<Seq<char>>, cs: Seq<(Seq<char>, Seq<(u8, u8)>)>, k: int)
    requires
        0 <= k < l.len(),
        curve_for(cs, l[k]) is None,
        forall|j: int| 0 <= j < k ==> curve_for(cs, #[trigger] l[j]) is Some,
    ensures
        first_light_without_curve(l, cs) == Some(k),
{
    reveal(first_light_without_curve);
    let c = choose|c: int| 0 <= c < l.len() && curve_for(cs, l[c]) is None
        && forall|j: int| 0 <= j < c ==> curve_for(cs, #[trigger] l[j]) is Some;
    assert(0 <= c < l.len() && curve_for(cs, l[c]) is None
        && forall|j: int| 0 <= j < c ==> curve_for(cs, #[trigger] l[j]) is Some);
    if c < k {
        assert(curve_for(cs, l[c]) is Some);
    }
    if c > k {
        assert(curve_for(cs, l[k]) is Some);
    }
}


/// No two breakpoints share a group brightness.
pub open spec fn distinct_groups(s: Seq<(u8, u8)>) -> bool {
    forall|i: int, j: int| 0 <= i < j < s.len() ==> (#[trigger] s[i]).0 != (#[trigger] s[j]).0
}

/// Breakpoints in order of group brightness.
pub open spec fn sorted_by_group(s: Seq<(u8, u8)>) -> bool {
    forall|i: int, j: int| 0 <= i < j < s.len() ==> (#[trigger] s[i]).0 <= (#[trigger] s[j]).0
}

proof fn lemma_insert_contents(s: Seq<(u8, u8)>, p: (u8, u8))
    ensures
        forall|x: (u8, u8)| #[trigger] insert_by_group(s, p).contains(x) <==> (s.contains(x) || x == p),
        sorted_by_group(s) ==> sorted_by_group(insert_by_group(s, p)),
    decreases s.len(),
{
    lemma_insert_len(s, p);
    let t = insert_by_group(s, p);
    if s.len() == 0 {
        assert(t == seq![p]);
        assert forall|x: (u8, u8)| t.contains(x) <==> (s.contains(x) || x == p) by {
            if x == p {
                assert(t[0] == x);
            }
        }
    } else if p.0 < s.last().0 {
        let d = s.drop_last();
        lemma_insert_contents(d, p);
        lemma_insert_len(d, p);
        let u = insert_by_group(d, p);
        assert(t == u.push(s.last()));
        assert forall|x: (u8, u8)| t.contains(x) <==> (s.contains(x) || x == p) by {
            assert(u.contains(x) <==> (d.contains(x) || x == p));
            if t.contains(x) {
                let j = choose|j: int| 0 <= j < t.len() && t[j] == x;
                if j < u.len() {
                    assert(u[j] == x);
                    assert(u.contains(x));
                    if d.contains(x) {
                        let k = choose|k: int| 0 <= k < d.len() && d[k] == x;
                        assert(s[k] == x);
                    }
                } else {
                    assert(s[s.len() - 1] == x);
                }
            }
            if s.contains(x) {
                let k = choose|k: int| 0 <= k < s.len() && s[k] == x;
                if k < d.len() {
                    assert(d[k] == x);
                    assert(d.contains(x));
                    assert(u.contains(x));
                    let j = choose|j: int| 0 <= j < u.len() && u[j] == x;
                    assert(t[j] == x);
                } else {
                    assert(t[t.len() - 1] == x);
                }
            }
            if x == p {
                assert(u.contains(x));
                let j = choose|j: int| 0 <= j < u.len() && u[j] == x;
                assert(t[j] == x);
            }
        }
        if sorted_by_group(s) {
            assert(sorted_by_group(d));
            assert forall|i: int, j: int| 0 <= i < j < t.len() implies (#[trigger] t[i]).0 <= (#[trigger] t[j]).0 by {
                if j == t.len() - 1 && i < u.len() {
                    assert(t[i] == u[i]);
                    assert(u.contains(u[i]));
                    if d.contains(u[i]) {
                        let k = choose|k: int| 0 <= k < d.len() && d[k] == u[i];
                        assert(s[k] == d[k]);
                    }
                } else {
                    assert(t[i] == u[i] && t[j] == u[j]);
                }
            }
        }
    } else {
        assert(t == s.push(p));
        assert forall|x: (u8, u8)| t.contains(x) <==> (s.contains(x) || x == p) by {
            if t.contains(x) {
                let j = choose|j: int| 0 <= j < t.len() && t[j] == x;
                if j < s.len() {
                    assert(s[j] == x);
                }
            }
            if s.contains(x) {
                let k = choose|k: int| 0 <= k < s.len() && s[k] == x;
                assert(t[k] == x);
            }
            if x == p {
                assert(t[s.len() as int] == x);
            }
        }
        if sorted_by_group(s) {
            assert forall|i: int, j: int| 0 <= i < j < t.len() implies (#[trigger] t[i]).0 <= (#[trigger] t[j]).0 by {
                if j == s.len() {
                    assert(s[i].0 <= s[s.len() - 1].0 || i == s.len() - 1);
                } else {
                    assert(t[i] == s[i] && t[j] == s[j]);
                }
            }
        }
    }
}

proof fn lemma_sort_contents(s: Seq<(u8, u8)>)
    ensures
        forall|x: (u8, u8)| sort_by_group(s).contains(x) <==> s.contains(x),
        sorted_by_group(sort_by_group(s)),
        sort_by_group(s).len() == s.len(),
    decreases s.len(),
{
    lemma_sort_len(s);
    if s.len() > 0 {
        let d = s.drop_last();
        lemma_sort_contents(d);
        lemma_insert_contents(sort_by_group(d), s.last());
        assert forall|x: (u8, u8)| sort_by_group(s).contains(x) <==> s.contains(x) by {
            if d.contains(x) {
                let k = choose|k: int| 0 <= k < d.len() && d[k] == x;
                assert(s[k] == x);
            }
            if s.contains(x) {
                let k = choose|k: int| 0 <= k < s.len() && s[k] == x;
                if k < d.len() {
                    assert(d[k] == x);
                }
            }
        }
    }
}

/// A sorted list whose points have distinct group brightnesses increases strictly.
proof fn lemma_sorted_distinct_unique(a: Seq<(u8, u8)>, b: Seq<(u8, u8)>)
    requires
        sorted_by_group(a),
        sorted_by_group(b),
        distinct_groups(a),
        distinct_groups(b),
        forall|x: (u8, u8)| a.contains(x) <==> b.contains(x),
    ensures
        a == b,
    decreases a.len(),
{
    if a.len() == 0 {
        if b.len() > 0 {
            assert(b.contains(b[0]));
        }
        assert(a =~= b);
    } else if b.len() == 0 {
        assert(a.contains(a[0]));
    } else {
        assert(a.contains(a[0]) && b.contains(b[0]));
        let i = choose|i: int| 0 <= i < b.len() && b[i] == a[0];
        let j = choose|j: int| 0 <= j < a.len() && a[j] == b[0];
        if i > 0 {
            assert(b[0].0 < b[i].0);
            assert(a[0].0 <= a[j].0);
        }
        assert(i == 0);
        let a1 = a.drop_first();
        let b1 = b.drop_first();
        assert forall|x: (u8, u8)| a1.contains(x) <==> b1.contains(x) by {
            if a1.contains(x) {
                let k = choose|k: int| 0 <= k < a1.len() && a1[k] == x;
                assert(a[k + 1] == x);
                assert(a[0].0 < x.0);
                assert(b.contains(x));
                let m = choose|m: int| 0 <= m < b.len() && b[m] == x;
                assert(m != 0);
                assert(b1[m - 1] == x);
            }
            if b1.contains(x) {
                let k = choose|k: int| 0 <= k < b1.len() && b1[k] == x;
                assert(b[k + 1] == x);
                assert(b[0].0 < x.0);
                assert(a.contains(x));
                let m = choose|m: int| 0 <= m < a.len() && a[m] == x;
                assert(m != 0);
                assert(a1[m - 1] == x);
            }
        }
        assert(sorted_by_group(a1) && sorted_by_group(b1));
        assert(distinct_groups(a1) && distinct_groups(b1));
        lemma_sorted_distinct_unique(a1, b1);
        assert(a =~= seq![a[0]] + a1);
        assert(b =~= seq![b[0]] + b1);
    }
}

/// Sorting keeps group brightnesses distinct.
proof fn lemma_sort_distinct(s: Seq<(u8, u8)>)
    requires
        distinct_groups(s),
    ensures
        distinct_groups(sort_by_group(s)),
{
    lemma_sort_contents(s);
    lemma_sort_nodup(s);
    let t = sort_by_group(s);
    assert forall|i: int, j: int| 0 <= i < j < t.len() implies (#[trigger] t[i]).0 != (#[trigger] t[j]).0 by {
        assert(t.contains(t[i]) && t.contains(t[j]));
        assert(s.contains(t[i]) && s.contains(t[j]));
        assert(t[i] != t[j]);
        let a = choose|a: int| 0 <= a < s.len() && s[a] == t[i];
        let b = choose|b: int| 0 <= b < s.len() && s[b] == t[j];
        if t[i].0 == t[j].0 {
            assert(a != b);
            if a < b { assert(s[a].0 != s[b].0); } else { assert(s[b].0 != s[a].0); }
        }
    }
}

/// Sorting a list without repeats gives a list without repeats.
proof fn lemma_sort_nodup(s: Seq<(u8, u8)>)
    requires
        distinct_groups(s),
    ensures
        forall|i: int, j: int| 0 <= i < j < sort_by_group(s).len() ==> sort_by_group(s)[i] != sort_by_group(s)[j],
    decreases s.len(),
{
    lemma_sort_len(s);
    if s.len() > 0 {
        let d = s.drop_last();
        assert(distinct_groups(d));
        lemma_sort_nodup(d);
        lemma_sort_contents(d);
        let u = sort_by_group(d);
        let p = s.last();
        assert(!u.contains(p)) by {
            if u.contains(p) {
                assert(d.contains(p));
                let k = choose|k: int| 0 <= k < d.len() && d[k] == p;
                assert(s[k].0 != s[s.len() - 1].0);
            }
        }
        lemma_insert_nodup(u, p);
    }
}

proof fn lemma_insert_nodup(u: Seq<(u8, u8)>, p: (u8, u8))
    requires
        forall|i: int, j: int| 0 <= i < j < u.len() ==> u[i] != u[j],
        !u.contains(p),
    ensures
        forall|i: int, j: int| 0 <= i < j < insert_by_group(u, p).len() ==> insert_by_group(u, p)[i] != insert_by_group(u, p)[j],
    decreases u.len(),
{
    lemma_insert_len(u, p);
    let t = insert_by_group(u, p);
    if u.len() == 0 {
        assert(t == seq![p]);
    } else if p.0 < u.last().0 {
        let d = u.drop_last();
        assert(!d.contains(p)) by {
            if d.contains(p) {
                let k = choose|k: int| 0 <= k < d.len() && d[k] == p;
                assert(u[k] == p);
            }
        }
        lemma_insert_nodup(d, p);
        lemma_insert_contents(d, p);
        lemma_insert_len(d, p);
        let w = insert_by_group(d, p);
        assert(t == w.push(u.last()));
        assert forall|i: int, j: int| 0 <= i < j < t.len() implies t[i] != t[j] by {
            if j == t.len() - 1 {
                assert(t[i] == w[i]);
                assert(w.contains(w[i]));
                if w[i] == u.last() {
                    if d.contains(w[i]) {
                        let k = choose|k: int| 0 <= k < d.len() && d[k] == w[i];
                        assert(u[k] == u[u.len() - 1]);
                    } else {
                        assert(w[i] == p);
                        assert(u[u.len() - 1] == p);
                    }
                }
            } else {
                assert(t[i] == w[i] && t[j] == w[j]);
            }
        }
    } else {
        assert(t == u.push(p));
        assert forall|i: int, j: int| 0 <= i < j < t.len() implies t[i] != t[j] by {
            if j == u.len() {
                assert(t[i] == u[i]);
            } else {
                assert(t[i] == u[i] && t[j] == u[j]);
            }
        }
    }
}

/// The order in which breakpoints are given does not matter: two lists that hold the same
/// breakpoints, each group brightness once, give the same device brightness at every group
/// brightness.
pub proof fn law_breakpoint_order_irrelevant(p: Seq<(u8, u8)>, q: Seq<(u8, u8)>, g: u8)
    requires
        distinct_groups(p),
        distinct_groups(q),
        forall|x: (u8, u8)| p.contains(x) <==> q.contains(x),
    ensures
        sort_by_group(p) == sort_by_group(q),
        curve_value(p, g) == curve_value(q, g),
{
    lemma_sort_contents(p);
    lemma_sort_contents(q);
    lemma_sort_distinct(p);
    lemma_sort_distinct(q);
    assert forall|x: (u8, u8)| sort_by_group(p).contains(x) <==> sort_by_group(q).contains(x) by {
        assert(sort_by_group(p).contains(x) <==> p.contains(x));
        assert(sort_by_group(q).contains(x) <==> q.contains(x));
    }
    lemma_sorted_distinct_unique(sort_by_group(p), sort_by_group(q));
}

/// On the segment from `(0, 0)` to `(100, 100)`, single-precision rounding stays far below half a
/// step, so every group brightness strictly between maps to itself.
proof fn lemma_identity_segment(g: u8)
    requires
        0 < g < 100,
    ensures
        segment_value((0u8, 0u8), (100u8, 100u8), g) == g,
{
    let gu: nat = (g * UNIT) as nat;
    let r = nearest(gu, 100);
    assert(gu / 100 >= EXACT_BELOW) by (nonlinear_arith)
        requires gu == g * UNIT, 1 <= g;
    lemma_nearest_error(gu, 100);
    assert(0x100_0000 * (r * 100 - gu) <= gu);
    assert(0x100_0000 * (gu - r * 100) <= gu);
    assert(gu <= 100 * 0x1_0000_0000);
    let pr: nat = r * 100;
    assert(pr <= gu + 25600);
    assert(pr + 25600 >= gu);
    let p = nearest(pr, 1);
    lemma_nearest_error(pr, 1);
    assert(pr / 1 == pr);
    assert(0x100_0000 * (p - pr) <= pr && 0x100_0000 * (pr - p) <= pr);
    assert(p <= pr + 25601 && p + 25601 >= pr);
    assert(nearest_signed(r as int * 100) == p);
    let sv = nearest(p, 1);
    lemma_nearest_error(p, 1);
    assert(p / 1 == p);
    assert(sv <= p + 25602 && sv + 25602 >= p);
    assert(0 * UNIT + p == p);
    assert(mul_add(0, r as int, 100 - 0) == sv);
    assert(sv + 0x8000_0000 >= gu + 0x1000);
    assert(sv + 0x8000_0000 < gu + 0x1_0000_0000);
    assert(gu == g * 0x1_0000_0000);
    assert((sv + 0x8000_0000) / 0x1_0000_0000 == g);
    assert(round_to_whole(sv as int) == g);
}

/// The default curve `[(0, 0), (100, 100)]` maps every group brightness up to 100 to itself.
pub proof fn law_default_curve_is_identity(g: u8)
    requires
        g <= 100,
    ensures
        curve_value(seq![(0u8, 0u8), (100u8, 100u8)], g) == g,
{
    let bp = seq![(0u8, 0u8), (100u8, 100u8)];
    assert(bp.drop_last() =~= seq![(0u8, 0u8)]);
    assert(seq![(0u8, 0u8)].drop_last() =~= Seq::<(u8, u8)>::empty());
    let one = seq![(0u8, 0u8)];
    assert(sort_by_group(one.drop_last()) =~= Seq::<(u8, u8)>::empty());
    assert(insert_by_group(Seq::<(u8, u8)>::empty(), (0u8, 0u8)) =~= one);
    assert(one.last() == (0u8, 0u8));
    assert(sort_by_group(one) =~= one);
    assert(insert_by_group(one, (100u8, 100u8)) =~= bp);
    assert(sort_by_group(bp) =~= bp);
    if 0 < g && g < 100 {
        assert(first_window(bp, g, 0));
        let w = choose|w: int| first_window(bp, g, w);
        assert(w == 0);
        lemma_identity_segment(g);
    }
}

/// A group that is off turns every member off, at brightness 0.
pub proof fn law_group_off_turns_members_off(group: LightState, curve: Seq<(u8, u8)>)
    requires
        !group.is_on,
    ensures
        !member_state(group, curve).is_on,
        member_state(group, curve).brightness == Some(0u8),
{
}

/// A member is on exactly when its brightness is positive.
pub proof fn law_member_on_iff_lit(group: LightState, curve: Seq<(u8, u8)>)
    ensures
        member_state(group, curve).is_on <==> (member_state(group, curve).brightness matches Some(b) && b > 0),
{
    if group.is_on {
        lemma_curve_value_bounds(curve, match group.brightness { Some(b) => b, None => 100u8 });
    }
}

/// A curve's value is a brightness: between 0 and 255.
pub proof fn lemma_curve_value_bounds(bp: Seq<(u8, u8)>, g: u8)
    ensures
        0 <= curve_value(bp, g) <= 255,
{
    let p = sort_by_group(bp);
    if p.len() != 0 && !(g <= p[0].0) && !(g >= p.last().0) {
        let w = choose|w: int| first_window(p, g, w);
        lemma_sort_len(bp);
        lemma_window_exists(p, g);
        let i = choose|i: int| in_window(p, g, i);
        lemma_first_window_exists(p, g, i);
    }
}

/// Where some window holds `g`, a first one does.
proof fn lemma_first_window_exists(p: Seq<(u8, u8)>, g: u8, i: int)
    requires
        in_window(p, g, i),
    ensures
        exists|w: int| first_window(p, g, w),
    decreases i,
{
    if forall|k: int| 0 <= k < i ==> !#[trigger] in_window(p, g, k) {
        assert(first_window(p, g, i));
    } else {
        let k = choose|k: int| 0 <= k < i && in_window(p, g, k);
        lemma_first_window_exists(p, g, k);
    }
}

/// Member `id` is found in the records as a light that is on.
pub open spec fn member_on(entries: Seq<crate::state::DeviceStateView>, id: Seq<char>) -> bool {
    lookup(entries, device_key(), id) matches Some(d) && d.state matches DeviceStateValue::Light(l) && l.is_on
}

/// Every member found as a light that is on has brightness `b`.
pub open spec fn lit_members_at(entries: Seq<crate::state::DeviceStateView>, ids: Seq<Seq<char>>, b: u8) -> bool {
    forall|i: int| 0 <= i < ids.len() ==> match #[trigger] lookup(entries, device_key(), ids[i]) {
        Some(d) => match d.state {
            DeviceStateValue::Light(l) => l.is_on ==> l.brightness == Some(b),
            _ => true,
        },
        None => true,
    }
}

proof fn lemma_lit_uniform(entries: Seq<crate::state::DeviceStateView>, ids: Seq<Seq<char>>, b: u8, n: nat)
    requires
        n <= ids.len(),
        lit_members_at(entries, ids, b),
    ensures
        lit_total(entries, ids, n) == b * lit_count(entries, ids, n),
        lit_count(entries, ids, n) > 0 <==> exists|i: int| 0 <= i < n && member_on(entries, ids[i]),
    decreases n,
{
    if n > 0 {
        lemma_lit_uniform(entries, ids, b, (n - 1) as nat);
        let id = ids[n - 1];
        assert(match lookup(entries, device_key(), id) {
            Some(d) => match d.state {
                DeviceStateValue::Light(l) => l.is_on ==> l.brightness == Some(b),
                _ => true,
            },
            None => true,
        });
        let c = lit_count(entries, ids, (n - 1) as nat);
        if member_on(entries, id) {
            assert(lit_brightness(entries, id) == Some(b));
            assert(b * c + b == b * (c + 1)) by (nonlinear_arith);
        } else {
            assert(lit_brightness(entries, id) is None);
        }
        if exists|i: int| 0 <= i < n && member_on(entries, ids[i]) {
            let i = choose|i: int| 0 <= i < n && member_on(entries, ids[i]);
            if i < n - 1 {
                assert(exists|k: int| 0 <= k < n - 1 && member_on(entries, ids[k]));
            }
        }
    }
}

proof fn lemma_lit_count_on(entries: Seq<crate::state::DeviceStateView>, ids: Seq<Seq<char>>, n: nat)
    requires
        n <= ids.len(),
    ensures
        lit_count(entries, ids, n) > 0 <==> exists|i: int| 0 <= i < n && member_on(entries, ids[i]),
    decreases n,
{
    if n > 0 {
        lemma_lit_count_on(entries, ids, (n - 1) as nat);
        let id = ids[n - 1];
        assert(member_on(entries, id) <==> lit_brightness(entries, id) is Some);
        if exists|i: int| 0 <= i < n && member_on(entries, ids[i]) {
            let i = choose|i: int| 0 <= i < n && member_on(entries, ids[i]);
            if i < n - 1 {
                assert(exists|k: int| 0 <= k < n - 1 && member_on(entries, ids[k]));
            }
        }
    }
}

/// The group is on exactly when some member is a light that is on; with none on, its
/// brightness is 0.
pub proof fn law_group_on_iff_member_on(current: LightState, entries: Seq<crate::state::DeviceStateView>,
    ids: Seq<Seq<char>>)
    ensures
        aggregate_state(current, entries, ids).is_on <==> exists|i: int| 0 <= i < ids.len() && member_on(entries, ids[i]),
        !aggregate_state(current, entries, ids).is_on ==> aggregate_state(current, entries, ids).brightness == Some(0u8),
{
    lemma_lit_count_on(entries, ids, ids.len());
}

/// The group brightness is that of its lit members, not diluted by members that are off: when
/// some member is on and every member that is on has brightness `b`, the group is on at `b`,
/// however many members are off.
pub proof fn law_group_brightness_of_evenly_lit(current: LightState, entries: Seq<crate::state::DeviceStateView>,
    ids: Seq<Seq<char>>, b: u8)
    requires
        exists|i: int| 0 <= i < ids.len() && member_on(entries, ids[i]),
        lit_members_at(entries, ids, b),
    ensures
        aggregate_state(current, entries, ids).is_on,
        aggregate_state(current, entries, ids).brightness == Some(b),
{
    lemma_lit_uniform(entries, ids, b, ids.len());
    let c: int = lit_count(entries, ids, ids.len()) as int;
    let bi: int = b as int;
    assert((bi * c) / c == bi) by (nonlinear_arith)
        requires c > 0;
    assert(lit_total(entries, ids, ids.len()) as int == bi * c);
}

proof fn lemma_lit_push_off(entries: Seq<crate::state::DeviceStateView>, ids: Seq<Seq<char>>, id: Seq<char>, n: nat)
    requires
        n <= ids.len(),
    ensures
        lit_count(entries, ids.push(id), n) == lit_count(entries, ids, n),
        lit_total(entries, ids.push(id), n) == lit_total(entries, ids, n),
    decreases n,
{
    if n > 0 {
        lemma_lit_push_off(entries, ids, id, (n - 1) as nat);
        assert(ids.push(id)[n - 1] == ids[n - 1]);
    }
}

/// A member that is off (or is not a light, or is unknown) does not change the group state:
/// it neither dims the average nor turns the group on.
pub proof fn law_off_member_changes_nothing(current: LightState, entries: Seq<crate::state::DeviceStateView>,
    ids: Seq<Seq<char>>, id: Seq<char>)
    requires
        !member_on(entries, id),
    ensures
        aggregate_state(current, entries, ids.push(id)) == aggregate_state(current, entries, ids),
{
    lemma_lit_push_off(entries, ids, id, ids.len());
    let n = ids.len();
    let t = ids.push(id);
    assert(t[n as int] == id);
    assert(member_on(entries, id) <==> lit_brightness(entries, id) is Some);
    assert(lit_count(entries, t, n + 1) == lit_count(entries, t, n));
    assert(lit_total(entries, t, n + 1) == lit_total(entries, t, n));
}

/// Every member found as a light that is on has a brightness (none counting as full) within
/// `lo..=hi`.
pub open spec fn lit_members_within(entries: Seq<crate::state::DeviceStateView>, ids: Seq<Seq<char>>, lo: u8, hi: u8) -> bool {
    forall|i: int| 0 <= i < ids.len() ==> match #[trigger] lookup(entries, device_key(), ids[i]) {
        Some(d) => match d.state {
            DeviceStateValue::Light(l) => l.is_on ==> lo <= (match l.brightness { Some(b) => b, None => 100u8 }) <= hi,
            _ => true,
        },
        None => true,
    }
}

proof fn lemma_lit_within(entries: Seq<crate::state::DeviceStateView>, ids: Seq<Seq<char>>, lo: u8, hi: u8, n: nat)
    requires
        n <= ids.len(),
        lit_members_within(entries, ids, lo, hi),
    ensures
        lo * lit_count(entries, ids, n) <= lit_total(entries, ids, n) <= hi * lit_count(entries, ids, n),
    decreases n,
{
    if n > 0 {
        lemma_lit_within(entries, ids, lo, hi, (n - 1) as nat);
        let id = ids[n - 1];
        assert(match lookup(entries, device_key(), id) {
            Some(d) => match d.state {
                DeviceStateValue::Light(l) => l.is_on ==> lo <= (match l.brightness { Some(b) => b, None => 100u8 }) <= hi,
                _ => true,
            },
            None => true,
        });
        let c = lit_count(entries, ids, (n - 1) as nat);
        assert(lo * c + lo == lo * (c + 1) && hi * c + hi == hi * (c + 1)) by (nonlinear_arith);
    }
}

/// The group brightness lies between the dimmest and the brightest of its lit members.
pub proof fn law_group_brightness_within_lit(current: LightState, entries: Seq<crate::state::DeviceStateView>,
    ids: Seq<Seq<char>>, lo: u8, hi: u8)
    requires
        exists|i: int| 0 <= i < ids.len() && member_on(entries, ids[i]),
        lit_members_within(entries, ids, lo, hi),
    ensures
        aggregate_state(current, entries, ids).brightness matches Some(b) && lo <= b <= hi,
{
    lemma_lit_within(entries, ids, lo, hi, ids.len());
    lemma_lit_count_on(entries, ids, ids.len());
    let c: int = lit_count(entries, ids, ids.len()) as int;
    let t: int = lit_total(entries, ids, ids.len()) as int;
    assert(lo <= t / c <= hi) by (nonlinear_arith)
        requires c > 0, lo * c <= t <= hi * c;
}

} // verus!
