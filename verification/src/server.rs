//! How the server sets itself up: the devices it discovers and the virtual devices it builds
//! from their configuration files.
use vstd::prelude::*;
use vstd::string::{StrSliceExecFns, StringExecFns};
use crate::client::{has_prefix, starts_with};
use crate::config::{ButtonControllerConfig, LightGroupConfig, LightGroupLinearConfig};
use crate::button_controller::{ButtonController, json_list};
use crate::keyed::{keys_unique, pair_key, table_insert, table_insert_exec};
use crate::light_group_linear::{LightGroupLinear, first_member_without_range, table_keys};
use crate::gateway::GatewayError;
use crate::state::{DeviceEvent, DeviceInfo, DeviceStateValue, EventType, Timestamp};
use crate::store::{add_device_result, new_record};
use crate::api::{device_type_debug, device_type_debug_name};
use crate::json::{JsonNumber, JsonValue, JsonView, json_view, lemma_array_view, lemma_object_view};
use crate::light_group::{LightGroup, contains_id, curve_for, first_light_without_curve, json_breakpoints, json_curves,
    json_string_list, member_or_null};
use crate::json::{first_member_index, json_get};
use crate::virtual_device::VirtualDeviceError;
use crate::scene_controller::dedup;
use crate::state::{DeviceStateView, DeviceState};
use crate::store::{StateStore, string_views};
use crate::text::{decimal, push_decimal};
use crate::virtual_device::{VirtualDeviceConfig, VirtualDeviceConfigView, VirtualDeviceType};

verus! {

/// Whether a member pattern holds a `*`, which makes it a prefix.
pub open spec fn has_star(s: Seq<char>) -> bool {
    s.contains('*')
}

/// A pattern without its trailing `*`s.
pub open spec fn trim_stars(s: Seq<char>) -> Seq<char>
    decreases s.len(),
{
    if s.len() > 0 && s.last() == '*' {
        trim_stars(s.drop_last())
    } else {
        s
    }
}

/// Whether `id` answers to a pattern: to its prefix when the pattern holds a `*`, else to the
/// pattern itself.
pub open spec fn matches_pattern(id: Seq<char>, p: Seq<char>) -> bool {
    if has_star(p) {
        has_prefix(id, trim_stars(p))
    } else {
        id == p
    }
}

/// Whether `id` answers to one of the exclusion patterns.
pub open spec fn is_excluded(id: Seq<char>, excludes: Seq<Seq<char>>) -> bool {
    exists|k: int| 0 <= k < excludes.len() && #[trigger] matches_pattern(id, excludes[k])
}

/// What one member pattern stands for: a pattern with a `*` stands for every known id with its
/// prefix that no exclusion names, in the order the ids are known; another pattern stands for
/// itself, known or not.
pub open spec fn pattern_members(p: Seq<char>, ids: Seq<Seq<char>>, excludes: Seq<Seq<char>>) -> Seq<Seq<char>> {
    if has_star(p) {
        ids.filter(|id: Seq<char>| has_prefix(id, trim_stars(p)) && !is_excluded(id, excludes))
    } else {
        seq![p]
    }
}

/// The members a list of patterns stands for, pattern after pattern.
pub open spec fn resolved_members(patterns: Seq<Seq<char>>, ids: Seq<Seq<char>>, excludes: Seq<Seq<char>>) -> Seq<Seq<char>>
    decreases patterns.len(),
{
    if patterns.len() == 0 {
        Seq::empty()
    } else {
        resolved_members(patterns.drop_last(), ids, excludes) + pattern_members(patterns.last(), ids, excludes)
    }
}

/// The ids of the store's devices, in order.
pub open spec fn known_ids(entries: Seq<DeviceStateView>) -> Seq<Seq<char>> {
    entries.map_values(|d: DeviceStateView| d.device_info.device_id@)
}

/// Whether `s` holds a `*`.
pub fn contains_star(s: &str) -> (res: bool)
    ensures
        res == has_star(s@),
{
    let n = s.unicode_len();
    let mut i: usize = 0;
    while i < n
        invariant
            n == s@.len(),
            i <= n,
            forall|k: int| 0 <= k < i ==> s@[k] != '*',
        decreases n - i,
    {
        if s.get_char(i) == '*' {
            assert(s@[i as int] == '*');
            return true;
        }
        i = i + 1;
    }
    false
}

proof fn lemma_trim_stars(s: Seq<char>, n: int)
    requires
        0 <= n <= s.len(),
        forall|k: int| n <= k < s.len() ==> s[k] == '*',
        n == 0 || s[n - 1] != '*',
    ensures
        trim_stars(s) == s.take(n),
    decreases s.len(),
{
    if s.len() > 0 && s.last() == '*' {
        assert(n < s.len());
        lemma_trim_stars(s.drop_last(), n);
        assert(s.drop_last().take(n) =~= s.take(n));
    } else {
        assert(n == s.len());
        assert(s.take(n) =~= s);
    }
}

/// A pattern without its trailing `*`s.
pub fn trim_trailing_stars(s: &str) -> (res: String)
    ensures
        res@ == trim_stars(s@),
{
    let mut n = s.unicode_len();
    while n > 0 && s.get_char(n - 1) == '*'
        invariant
            n <= s@.len(),
            forall|k: int| n <= k < s@.len() ==> s@[k] == '*',
        decreases n,
    {
        n = n - 1;
    }
    proof { lemma_trim_stars(s@, n as int); }
    String::from_str(s.substring_char(0, n))
}

/// Whether `id` answers to pattern `p`.
pub fn pattern_matches(id: &str, p: &str) -> (res: bool)
    ensures
        res == matches_pattern(id@, p@),
{
    if contains_star(p) {
        let prefix = trim_trailing_stars(p);
        starts_with(id, prefix.as_str())
    } else {
        crate::text::str_eq(id, p)
    }
}

/// Whether `id` answers to one of the exclusion patterns.
pub fn excluded(id: &str, excludes: &Vec<String>) -> (res: bool)
    ensures
        res == is_excluded(id@, string_views(excludes@)),
{
    let ghost ex = string_views(excludes@);
    let mut k: usize = 0;
    while k < excludes.len()
        invariant
            k <= excludes@.len(),
            ex == string_views(excludes@),
            forall|j: int| 0 <= j < k ==> !#[trigger] matches_pattern(id@, ex[j]),
        decreases excludes@.len() - k,
    {
        if pattern_matches(id, excludes[k].as_str()) {
            assert(matches_pattern(id@, ex[k as int]));
            return true;
        }
        k = k + 1;
    }
    false
}

proof fn lemma_filter_step(ids: Seq<Seq<char>>, pred: spec_fn(Seq<char>) -> bool, i: int)
    requires
        0 <= i < ids.len(),
    ensures
        ids.take(i + 1).filter(pred) == if pred(ids[i]) {
            ids.take(i).filter(pred).push(ids[i])
        } else {
            ids.take(i).filter(pred)
        },
{
    crate::store::lemma_take_filter_step(ids, pred, i);
}

/// The known ids that a pattern with a `*` stands for.
fn wildcard_members(p: &str, devices: &Vec<DeviceState>, excludes: &Vec<String>, out: &mut Vec<String>)
    requires
        has_star(p@),
    ensures
        string_views(final(out)@) == string_views(old(out)@) + pattern_members(p@,
            known_ids(devices@.map_values(|d: DeviceState| d@)), string_views(excludes@)),
{
    let prefix = trim_trailing_stars(p);
    let ghost ids = known_ids(devices@.map_values(|d: DeviceState| d@));
    let ghost ex = string_views(excludes@);
    let ghost pred = |id: Seq<char>| has_prefix(id, trim_stars(p@)) && !is_excluded(id, ex);
    let ghost start = string_views(out@);
    let mut i: usize = 0;
    while i < devices.len()
        invariant
            i <= devices@.len(),
            ids == known_ids(devices@.map_values(|d: DeviceState| d@)),
            ex == string_views(excludes@),
            prefix@ == trim_stars(p@),
            pred == (|id: Seq<char>| has_prefix(id, trim_stars(p@)) && !is_excluded(id, ex)),
            string_views(out@) == start + ids.take(i as int).filter(pred),
        decreases devices@.len() - i,
    {
        proof { lemma_filter_step(ids, pred, i as int); }
        let id = &devices[i].device_info.device_id;
        assert(ids[i as int] == id@);
        let ghost before = out@;
        if starts_with(id.as_str(), prefix.as_str()) && !excluded(id.as_str(), excludes) {
            out.push(id.clone());
            assert(string_views(out@) =~= string_views(before).push(id@));
        }
        i = i + 1;
    }
    assert(ids.take(devices@.len() as int) =~= ids);
}

/// The members a light group's patterns stand for among the store's devices: each pattern with
/// a `*` gives the known ids with its prefix that no exclusion names; any other pattern is taken
/// as an id, known or not.
pub fn resolve_members(patterns: &Vec<String>, excludes: &Vec<String>, store: &StateStore) -> (res: Vec<String>)
    requires
        store.wf(),
    ensures
        string_views(res@) == resolved_members(string_views(patterns@), known_ids(store.entries()), string_views(excludes@)),
{
    let devices = store.list_devices();
    let ghost ids = known_ids(store.entries());
    let ghost ps = string_views(patterns@);
    let ghost ex = string_views(excludes@);
    let mut out: Vec<String> = Vec::new();
    let mut i: usize = 0;
    while i < patterns.len()
        invariant
            i <= patterns@.len(),
            devices@.map_values(|d: DeviceState| d@) == store.entries(),
            ids == known_ids(store.entries()),
            ps == string_views(patterns@),
            ex == string_views(excludes@),
            string_views(out@) == resolved_members(ps.take(i as int), ids, ex),
        decreases patterns@.len() - i,
    {
        let p = patterns[i].as_str();
        assert(ps.take(i + 1).drop_last() =~= ps.take(i as int));
        assert(ps.take(i + 1).last() == p@);
        let ghost before = out@;
        if contains_star(p) {
            wildcard_members(p, &devices, excludes, &mut out);
        } else {
            out.push(patterns[i].clone());
            assert(string_views(out@) =~= string_views(before) + seq![p@]);
        }
        i = i + 1;
    }
    assert(ps.take(patterns@.len() as int) =~= ps);
    out
}

proof fn lemma_filter_member(s: Seq<Seq<char>>, pred: spec_fn(Seq<char>) -> bool, x: Seq<char>)
    requires
        s.filter(pred).contains(x),
    ensures
        s.contains(x),
        pred(x),
    decreases s.len(),
{
    reveal(Seq::filter);
    if s.len() > 0 {
        let t = s.drop_last();
        if t.filter(pred).contains(x) {
            lemma_filter_member(t, pred, x);
            let k = choose|k: int| 0 <= k < t.len() && t[k] == x;
            assert(s[k] == x);
        } else {
            assert(pred(s.last()));
            lemma_push_contains(t.filter(pred), s.last(), x);
            assert(s[s.len() - 1] == x);
        }
    }
}

proof fn lemma_concat_contains(a: Seq<Seq<char>>, b: Seq<Seq<char>>, x: Seq<char>)
    requires
        (a + b).contains(x),
    ensures
        a.contains(x) || b.contains(x),
{
    let k = choose|k: int| 0 <= k < (a + b).len() && (a + b)[k] == x;
    if k < a.len() {
        assert(a[k] == x);
    } else {
        assert(b[k - a.len()] == x);
    }
}

/// Every member a light group's patterns resolve to was named outright by a pattern without a
/// `*`, or is a known device whose id has the prefix of a pattern with a `*` and answers to no
/// exclusion.
pub proof fn law_resolved_members_sound(patterns: Seq<Seq<char>>, ids: Seq<Seq<char>>, excludes: Seq<Seq<char>>, m: Seq<char>)
    requires
        resolved_members(patterns, ids, excludes).contains(m),
    ensures
        (exists|i: int| 0 <= i < patterns.len() && !has_star(#[trigger] patterns[i]) && patterns[i] == m)
            || (ids.contains(m) && !is_excluded(m, excludes)
                && exists|i: int| 0 <= i < patterns.len() && has_star(#[trigger] patterns[i]) && has_prefix(m, trim_stars(patterns[i]))),
    decreases patterns.len(),
{
    if patterns.len() > 0 {
        let init = patterns.drop_last();
        let p = patterns.last();
        lemma_concat_contains(resolved_members(init, ids, excludes), pattern_members(p, ids, excludes), m);
        if resolved_members(init, ids, excludes).contains(m) {
            law_resolved_members_sound(init, ids, excludes, m);
            if exists|i: int| 0 <= i < init.len() && !has_star(#[trigger] init[i]) && init[i] == m {
                let i = choose|i: int| 0 <= i < init.len() && !has_star(#[trigger] init[i]) && init[i] == m;
                assert(patterns[i] == init[i]);
            } else {
                let i = choose|i: int| 0 <= i < init.len() && has_star(#[trigger] init[i]) && has_prefix(m, trim_stars(init[i]));
                assert(patterns[i] == init[i]);
            }
        } else {
            let last = patterns.len() - 1;
            assert(patterns[last] == p);
            if has_star(p) {
                lemma_filter_member(ids, |id: Seq<char>| has_prefix(id, trim_stars(p)) && !is_excluded(id, excludes), m);
            } else {
                assert(seq![p].contains(m));
                assert(seq![p][0] == p);
            }
        }
    }
}

/// A JSON integer.
pub open spec fn num(n: u64) -> JsonView {
    JsonView::Number(JsonNumber::PosInt(n))
}

/// The curve each member of a configured light group gets: group brightness passed on 1:1,
/// written as breakpoints `[[0, 0], [100, 100]]`.
pub open spec fn identity_curve_json() -> JsonView {
    JsonView::Object(seq![("breakpoints"@, JsonView::Array(seq![
        JsonView::Array(seq![num(0), num(0)]),
        JsonView::Array(seq![num(100), num(100)]),
    ]))])
}

/// The configuration of a light group over `members`: the members as `lights`, the aggregation,
/// and the 1:1 curve for each distinct member under `brightness_curves`.
pub open spec fn light_group_json(members: Seq<Seq<char>>, aggregation: Seq<char>) -> JsonView {
    JsonView::Object(seq![
        ("lights"@, JsonView::Array(members.map_values(|m: Seq<char>| JsonView::Str(m)))),
        ("aggregation"@, JsonView::Str(aggregation)),
        ("brightness_curves"@, JsonView::Object(dedup(members).map_values(|m: Seq<char>| (m, identity_curve_json())))),
    ])
}

/// The virtual device configuration of a light group with its resolved members.
pub open spec fn light_group_device_config(cfg_id: Seq<char>, cfg_name: Seq<char>, members: Seq<Seq<char>>,
    aggregation: Seq<char>, c: VirtualDeviceConfigView) -> bool {
    &&& c.device_id@ == cfg_id
    &&& c.name@ == cfg_name
    &&& c.device_type == VirtualDeviceType::LightGroup
    &&& c.enabled
    &&& c.description matches Some(d) && d@ == "Light group with "@ + decimal(members.len()) + " members"@
    &&& c.config == light_group_json(members, aggregation)
}

fn json_num(n: u64) -> (res: JsonValue)
    ensures
        json_view(res) == num(n),
{
    JsonValue::Number(JsonNumber::PosInt(n))
}

fn json_pair(a: u64, b: u64) -> (res: JsonValue)
    ensures
        json_view(res) == JsonView::Array(seq![num(a), num(b)]),
{
    let v = vec![json_num(a), json_num(b)];
    proof {
        lemma_array_view(v@);
        assert(crate::json::json_array_view(v@, v@.len()) =~= seq![num(a), num(b)]);
    }
    JsonValue::Array(v)
}

/// The 1:1 curve of a member.
fn identity_curve() -> (res: JsonValue)
    ensures
        json_view(res) == identity_curve_json(),
{
    let pts = vec![json_pair(0, 0), json_pair(100, 100)];
    proof {
        lemma_array_view(pts@);
        assert(crate::json::json_array_view(pts@, pts@.len()) =~= seq![
            JsonView::Array(seq![num(0), num(0)]), JsonView::Array(seq![num(100), num(100)])]);
    }
    let members = vec![(String::from_str("breakpoints"), JsonValue::Array(pts))];
    proof {
        reveal_strlit("breakpoints");
        lemma_object_view(members@);
        assert(crate::json::json_object_view(members@, members@.len()) =~= identity_curve_json()->Object_0);
    }
    JsonValue::Object(members)
}

/// Builds the configuration a light group is made from: its members, its aggregation and a 1:1
/// curve for each distinct member, described by its member count.
pub fn light_group_config(cfg: &LightGroupConfig, members: &Vec<String>) -> (res: VirtualDeviceConfig)
    ensures
        light_group_device_config(cfg.device_id@, cfg.name@, string_views(members@), cfg.settings.aggregation@, res@),
{
    let ghost ms = string_views(members@);
    let mut lights: Vec<JsonValue> = Vec::new();
    let mut seen: Vec<String> = Vec::new();
    let mut curves: Vec<(String, JsonValue)> = Vec::new();
    let mut i: usize = 0;
    while i < members.len()
        invariant
            i <= members@.len(),
            ms == string_views(members@),
            lights@.len() == i,
            forall|k: int| 0 <= k < i ==> json_view(#[trigger] lights@[k]) == JsonView::Str(ms[k]),
            string_views(seen@) == dedup(ms.take(i as int)),
            curves@.len() == seen@.len(),
            forall|k: int| 0 <= k < curves@.len() ==> (#[trigger] curves@[k]).0@ == seen@[k]@
                && json_view(curves@[k].1) == identity_curve_json(),
        decreases members@.len() - i,
    {
        let m = &members[i];
        lights.push(JsonValue::Str(m.clone()));
        assert(ms.take(i + 1).drop_last() =~= ms.take(i as int));
        assert(ms.take(i + 1).last() == m@);
        if !contains_id(&seen, m.as_str()) {
            let ghost before = string_views(seen@);
            seen.push(m.clone());
            curves.push((m.clone(), identity_curve()));
            assert(string_views(seen@) =~= before.push(m@));
        }
        i = i + 1;
    }
    assert(ms.take(members@.len() as int) =~= ms);
    let lights_json = JsonValue::Array(lights);
    let curves_json = JsonValue::Object(curves);
    proof {
        lemma_array_view(lights@);
        assert(json_view(lights_json)->Array_0 =~= ms.map_values(|m: Seq<char>| JsonView::Str(m)));
        lemma_object_view(curves@);
        assert(json_view(curves_json)->Object_0 =~= dedup(ms).map_values(|m: Seq<char>| (m, identity_curve_json())));
    }
    let top = vec![
        (String::from_str("lights"), lights_json),
        (String::from_str("aggregation"), JsonValue::Str(cfg.settings.aggregation.clone())),
        (String::from_str("brightness_curves"), curves_json),
    ];
    proof {
        reveal_strlit("lights");
        reveal_strlit("aggregation");
        reveal_strlit("brightness_curves");
        lemma_object_view(top@);
        assert(json_view(JsonValue::Object(top))->Object_0 =~= light_group_json(ms, cfg.settings.aggregation@)->Object_0);
    }
    let mut description = String::from_str("Light group with ");
    push_decimal(&mut description, members.len() as u64);
    description.append(" members");
    VirtualDeviceConfig {
        device_id: cfg.device_id.clone(),
        device_type: VirtualDeviceType::LightGroup,
        name: cfg.name.clone(),
        description: Some(description),
        enabled: true,
        config: JsonValue::Object(top),
    }
}

/// A value is in `dedup(s)` exactly when it is in `s`.
pub proof fn lemma_dedup_contains(s: Seq<Seq<char>>, x: Seq<char>)
    ensures
        dedup(s).contains(x) <==> s.contains(x),
    decreases s.len(),
{
    if s.len() > 0 {
        let t = s.drop_last();
        let a = s.last();
        let d = dedup(t);
        lemma_dedup_contains(t, x);
        assert(s =~= t.push(a));
        lemma_push_contains(t, a, x);
        lemma_push_contains(d, a, x);
    }
}

proof fn lemma_push_contains(t: Seq<Seq<char>>, a: Seq<char>, x: Seq<char>)
    ensures
        t.push(a).contains(x) <==> (t.contains(x) || a == x),
{
    if t.contains(x) {
        let k = choose|k: int| 0 <= k < t.len() && t[k] == x;
        assert(t.push(a)[k] == x);
    }
    if a == x {
        assert(t.push(a)[t.len() as int] == x);
    }
    if t.push(a).contains(x) {
        let k = choose|k: int| 0 <= k < t.push(a).len() && t.push(a)[k] == x;
        if k < t.len() {
            assert(t[k] == x);
        }
    }
}

/// The breakpoints of the 1:1 curve.
pub open spec fn identity_breakpoints() -> Seq<(u8, u8)> {
    seq![(0u8, 0u8), (100u8, 100u8)]
}

proof fn lemma_first_member(members: Seq<(Seq<char>, JsonView)>, key: Seq<char>, i: int)
    requires
        0 <= i < members.len(),
        members[i].0 == key,
        forall|j: int| 0 <= j < i ==> members[j].0 != key,
    ensures
        first_member_index(members, key) == Some(i),
{
    let c = choose|c: int| 0 <= c < members.len() && members[c].0 == key
        && forall|j: int| 0 <= j < c ==> members[j].0 != key;
    if c < i {
        assert(members[c].0 != key);
    }
    if c > i {
        assert(members[i].0 != key);
    }
}

/// The curves a light group's configuration over `members` holds: the 1:1 curve for each
/// distinct member.
pub open spec fn identity_curves(members: Seq<Seq<char>>) -> Seq<(Seq<char>, Seq<(u8, u8)>)> {
    dedup(members).map_values(|m: Seq<char>| (m, identity_breakpoints()))
}

proof fn lemma_top_members(members: Seq<Seq<char>>, aggregation: Seq<char>)
    ensures
        member_or_null(light_group_json(members, aggregation), "lights"@)
            == JsonView::Array(members.map_values(|m: Seq<char>| JsonView::Str(m))),
        member_or_null(light_group_json(members, aggregation), "brightness_curves"@)
            == JsonView::Object(dedup(members).map_values(|m: Seq<char>| (m, identity_curve_json()))),
{
    let top = light_group_json(members, aggregation)->Object_0;
    reveal_strlit("lights");
    reveal_strlit("aggregation");
    reveal_strlit("brightness_curves");
    assert("lights"@.len() == 6);
    assert("aggregation"@.len() == 11);
    assert("brightness_curves"@.len() == 17);
    lemma_first_member(top, "lights"@, 0);
    assert(top[0].0 != "brightness_curves"@);
    assert(top[1].0 != "brightness_curves"@);
    lemma_first_member(top, "brightness_curves"@, 2);
}

proof fn lemma_identity_curve_decodes()
    ensures
        json_breakpoints(identity_curve_json()) == Some(identity_breakpoints()),
{
    reveal_strlit("breakpoints");
    reveal(json_breakpoints);
    let bp = identity_curve_json();
    lemma_first_member(bp->Object_0, "breakpoints"@, 0);
    let arr = json_get(bp, "breakpoints"@)->0->Array_0;
    assert(forall|i: int| 0 <= i < arr.len() ==> (#[trigger] crate::light_group::json_u8_pair(arr[i])) is Some);
    assert(arr.map_values(|e: JsonView| crate::light_group::json_u8_pair(e)->0) =~= identity_breakpoints());
}

proof fn lemma_curve_of_member(members: Seq<Seq<char>>, x: Seq<char>)
    requires
        members.contains(x),
    ensures
        curve_for(identity_curves(members), x) == Some(identity_breakpoints()),
{
    let cs = identity_curves(members);
    let d = dedup(members);
    lemma_dedup_contains(members, x);
    let k = choose|k: int| 0 <= k < d.len() && d[k] == x;
    assert(cs.len() == d.len());
    assert(cs[k].0 == x);
    assert(forall|i: int| 0 <= i < cs.len() ==> (#[trigger] cs[i]).1 == identity_breakpoints());
    lemma_curve_for_const(cs, x, identity_breakpoints(), k);
}

proof fn lemma_curve_for_const(cs: Seq<(Seq<char>, Seq<(u8, u8)>)>, x: Seq<char>, v: Seq<(u8, u8)>, k: int)
    requires
        0 <= k < cs.len(),
        cs[k].0 == x,
        forall|i: int| 0 <= i < cs.len() ==> (#[trigger] cs[i]).1 == v,
    ensures
        curve_for(cs, x) == Some(v),
{
    reveal(curve_for);
    lemma_has_first(cs, x, k);
    let i = choose|i: int| 0 <= i < cs.len() && cs[i].0 == x && forall|j: int| 0 <= j < i ==> cs[j].0 != x;
    assert(cs[i].1 == v);
}

proof fn lemma_has_first(cs: Seq<(Seq<char>, Seq<(u8, u8)>)>, x: Seq<char>, k: int)
    requires
        0 <= k < cs.len(),
        cs[k].0 == x,
    ensures
        exists|i: int| 0 <= i < cs.len() && cs[i].0 == x && forall|j: int| 0 <= j < i ==> cs[j].0 != x,
    decreases k,
{
    if exists|j: int| 0 <= j < k && cs[j].0 == x {
        let j = choose|j: int| 0 <= j < k && cs[j].0 == x;
        lemma_has_first(cs, x, j);
    } else {
        assert(forall|j: int| 0 <= j < k ==> cs[j].0 != x);
    }
}

proof fn lemma_curve_lookup(members: Seq<Seq<char>>)
    ensures
        first_light_without_curve(members, identity_curves(members)) is None,
        forall|i: int| 0 <= i < members.len() ==> curve_for(identity_curves(members), #[trigger] members[i])
            == Some(identity_breakpoints()),
{
    let cs = identity_curves(members);
    assert forall|i: int| 0 <= i < members.len() implies curve_for(cs, #[trigger] members[i]) == Some(identity_breakpoints()) by {
        assert(members.contains(members[i]));
        lemma_curve_of_member(members, members[i]);
    }
    reveal(first_light_without_curve);
}

/// A light group's configuration over `members` decodes to those members, each with the 1:1
/// curve.
pub proof fn lemma_light_group_json_decodes(members: Seq<Seq<char>>, aggregation: Seq<char>)
    ensures
        json_string_list(member_or_null(light_group_json(members, aggregation), "lights"@)) == Some(members),
        json_curves(member_or_null(light_group_json(members, aggregation), "brightness_curves"@))
            == Some(identity_curves(members)),
        first_light_without_curve(members, identity_curves(members)) is None,
        forall|i: int| 0 <= i < members.len() ==> curve_for(identity_curves(members), #[trigger] members[i])
            == Some(identity_breakpoints()),
{
    lemma_top_members(members, aggregation);
    let lights = JsonView::Array(members.map_values(|m: Seq<char>| JsonView::Str(m)));
    reveal(json_string_list);
    assert(lights->Array_0.map_values(|e: JsonView| match e { JsonView::Str(s) => s, _ => Seq::empty() }) =~= members);
    let obj = dedup(members).map_values(|m: Seq<char>| (m, identity_curve_json()));
    reveal(json_curves);
    lemma_identity_curve_decodes();
    assert(forall|i: int| 0 <= i < obj.len() ==> (#[trigger] json_breakpoints(obj[i].1)) is Some);
    assert(obj.map_values(|e: (Seq<char>, JsonView)| (e.0, json_breakpoints(e.1)->0)) =~= identity_curves(members));
    lemma_curve_lookup(members);
}

/// Makes a light group from its configuration file's settings: its member patterns resolved
/// among the store's devices, each member with the 1:1 curve. Gives the resolved members too.
pub fn create_light_group(cfg: &LightGroupConfig, store: &StateStore) -> (res: (Vec<String>, Result<LightGroup, VirtualDeviceError>))
    requires
        store.wf(),
    ensures
        ({
            let ms = resolved_members(string_views(cfg.members@), known_ids(store.entries()), string_views(cfg.settings.exclude@));
            &&& string_views(res.0@) == ms
            &&& res.1 matches Ok(g) && g.wf() && g.lights() == ms
                && light_group_device_config(cfg.device_id@, cfg.name@, ms, cfg.settings.aggregation@, g.config_view())
                && g.state() == crate::light_group::initial_group_state()
                && g.curves() == identity_curves(ms)
                && forall|i: int| 0 <= i < ms.len() ==> curve_for(g.curves(), #[trigger] ms[i]) == Some(identity_breakpoints())
        }),
{
    let members = resolve_members(&cfg.members, &cfg.settings.exclude, store);
    let config = light_group_config(cfg, &members);
    proof { lemma_light_group_json_decodes(string_views(members@), cfg.settings.aggregation@); }
    let group = LightGroup::new(config);
    (members, group)
}

/// The brightness ranges of a linear light group's configuration, read in order into a table
/// where a later entry for a member replaces an earlier one.
pub open spec fn ranges_table(b: Seq<(String, [u8; 2])>) -> Seq<(String, (u8, u8))>
    decreases b.len(),
{
    if b.len() == 0 {
        Seq::empty()
    } else {
        table_insert(ranges_table(b.drop_last()), b.last().0, (b.last().1@[0], b.last().1@[1]))
    }
}

/// The brightness ranges of a linear light group's configuration as (min, max) pairs by member.
pub fn linear_ranges(brightness: &Vec<(String, [u8; 2])>) -> (res: Vec<(String, (u8, u8))>)
    ensures
        res@ == ranges_table(brightness@),
        keys_unique(res@, pair_key::<(u8, u8)>()),
{
    let mut out: Vec<(String, (u8, u8))> = Vec::new();
    let mut i: usize = 0;
    while i < brightness.len()
        invariant
            i <= brightness@.len(),
            out@ == ranges_table(brightness@.take(i as int)),
            keys_unique(out@, pair_key::<(u8, u8)>()),
        decreases brightness@.len() - i,
    {
        let name = brightness[i].0.clone();
        let range = brightness[i].1;
        assert(brightness@.take(i + 1).drop_last() =~= brightness@.take(i as int));
        table_insert_exec(&mut out, name, (range[0], range[1]));
        i = i + 1;
    }
    assert(brightness@.take(brightness@.len() as int) =~= brightness@);
    out
}

/// The configuration of a linear light group: its members by name, and each member's range as
/// a `[min, max]` array.
pub open spec fn linear_group_json(members: Seq<(String, String)>, ranges: Seq<(String, (u8, u8))>) -> JsonView {
    JsonView::Object(seq![
        ("members"@, JsonView::Object(members.map_values(|m: (String, String)| (m.0@, JsonView::Str(m.1@))))),
        ("brightness_ranges"@, JsonView::Object(ranges.map_values(|r: (String, (u8, u8))|
            (r.0@, JsonView::Array(seq![num(r.1.0 as u64), num(r.1.1 as u64)]))))),
    ])
}

/// Builds the configuration a linear light group is made from, described by its member count.
pub fn linear_group_config(cfg: &LightGroupLinearConfig, ranges: &Vec<(String, (u8, u8))>) -> (res: VirtualDeviceConfig)
    ensures
        res@.device_id@ == cfg.device_id@,
        res@.name@ == cfg.name@,
        res@.device_type == VirtualDeviceType::LightGroupLinear,
        res@.enabled,
        res@.description matches Some(d) && d@ == "Linear light group with "@ + decimal(cfg.members@.len()) + " members"@,
        res@.config == linear_group_json(cfg.members@, ranges@),
{
    let mut members: Vec<(String, JsonValue)> = Vec::new();
    let mut i: usize = 0;
    while i < cfg.members.len()
        invariant
            i <= cfg.members@.len(),
            members@.len() == i,
            forall|k: int| 0 <= k < i ==> (#[trigger] members@[k]).0@ == cfg.members@[k].0@
                && json_view(members@[k].1) == JsonView::Str(cfg.members@[k].1@),
        decreases cfg.members@.len() - i,
    {
        members.push((cfg.members[i].0.clone(), JsonValue::Str(cfg.members[i].1.clone())));
        i = i + 1;
    }
    let mut rs: Vec<(String, JsonValue)> = Vec::new();
    let mut j: usize = 0;
    while j < ranges.len()
        invariant
            j <= ranges@.len(),
            rs@.len() == j,
            forall|k: int| 0 <= k < j ==> (#[trigger] rs@[k]).0@ == ranges@[k].0@
                && json_view(rs@[k].1) == JsonView::Array(seq![num(ranges@[k].1.0 as u64), num(ranges@[k].1.1 as u64)]),
        decreases ranges@.len() - j,
    {
        let (lo, hi) = ranges[j].1;
        rs.push((ranges[j].0.clone(), json_pair(lo as u64, hi as u64)));
        j = j + 1;
    }
    let members_json = JsonValue::Object(members);
    let ranges_json = JsonValue::Object(rs);
    proof {
        lemma_object_view(members@);
        assert(json_view(members_json)->Object_0 =~= linear_group_json(cfg.members@, ranges@)->Object_0[0].1->Object_0);
        lemma_object_view(rs@);
        assert(json_view(ranges_json)->Object_0 =~= linear_group_json(cfg.members@, ranges@)->Object_0[1].1->Object_0);
    }
    let top = vec![
        (String::from_str("members"), members_json),
        (String::from_str("brightness_ranges"), ranges_json),
    ];
    proof {
        reveal_strlit("members");
        reveal_strlit("brightness_ranges");
        lemma_object_view(top@);
        assert(json_view(JsonValue::Object(top))->Object_0 =~= linear_group_json(cfg.members@, ranges@)->Object_0);
    }
    let mut description = String::from_str("Linear light group with ");
    push_decimal(&mut description, cfg.members.len() as u64);
    description.append(" members");
    VirtualDeviceConfig {
        device_id: cfg.device_id.clone(),
        device_type: VirtualDeviceType::LightGroupLinear,
        name: cfg.name.clone(),
        description: Some(description),
        enabled: true,
        config: JsonValue::Object(top),
    }
}

fn clone_pairs(v: &Vec<(String, String)>) -> (res: Vec<(String, String)>)
    ensures
        res@ == v@,
{
    let mut out: Vec<(String, String)> = Vec::new();
    let mut i: usize = 0;
    while i < v.len()
        invariant
            i <= v@.len(),
            out@ == v@.take(i as int),
        decreases v@.len() - i,
    {
        out.push((v[i].0.clone(), v[i].1.clone()));
        assert(out@ =~= v@.take(i + 1));
        i = i + 1;
    }
    assert(v@.take(v@.len() as int) =~= v@);
    out
}

/// Makes a linear light group from its configuration file's settings: its members by name, and
/// its brightness ranges, where a later range for a member replaces an earlier one. Refused when
/// a member has no range.
pub fn create_linear_group(cfg: &LightGroupLinearConfig) -> (res: Result<LightGroupLinear, VirtualDeviceError>)
    ensures
        ({
            let ranges = ranges_table(cfg.brightness@);
            match first_member_without_range(table_keys(cfg.members@), ranges) {
                Some(k) => res matches Err(VirtualDeviceError::Config(m))
                    && m@ == "Missing brightness range for member: "@ + cfg.members@[k].0@,
                None => res matches Ok(g) && g.wf() && g.members() == cfg.members@ && g.ranges() == ranges
                    && g.config_view().config == linear_group_json(cfg.members@, ranges)
                    && g.config_view().device_id@ == cfg.device_id@ && g.config_view().name@ == cfg.name@
                    && g.config_view().device_type == VirtualDeviceType::LightGroupLinear
                    && g.state() == crate::light_group::initial_group_state(),
            }
        }),
{
    let ranges = linear_ranges(&cfg.brightness);
    let config = linear_group_config(cfg, &ranges);
    let members = clone_pairs(&cfg.members);
    LightGroupLinear::new(config, members, ranges)
}

fn clone_values(v: &Vec<JsonValue>) -> (res: Vec<JsonValue>)
    ensures
        json_list(res@) == json_list(v@),
        res@.len() == v@.len(),
{
    let mut out: Vec<JsonValue> = Vec::new();
    let mut i: usize = 0;
    while i < v.len()
        invariant
            i <= v@.len(),
            out@.len() == i,
            forall|k: int| 0 <= k < i ==> json_view(#[trigger] out@[k]) == json_view(v@[k]),
        decreases v@.len() - i,
    {
        out.push(v[i].deep_clone());
        i = i + 1;
    }
    assert(json_list(out@) =~= json_list(v@));
    out
}

fn action_json(v: &Vec<JsonValue>) -> (res: JsonValue)
    ensures
        json_view(res) == JsonView::Array(json_list(v@)),
{
    let c = clone_values(v);
    proof {
        lemma_array_view(c@);
        assert(crate::json::json_array_view(c@, c@.len()) =~= json_list(c@));
    }
    JsonValue::Array(c)
}

fn optional_action_json(v: &Option<Vec<JsonValue>>) -> (res: JsonValue)
    ensures
        json_view(res) == match v {
            Some(a) => JsonView::Array(json_list(a@)),
            None => JsonView::Null,
        },
{
    match v {
        Some(a) => action_json(a),
        None => JsonValue::Null,
    }
}

fn optional_actions(v: &Option<Vec<JsonValue>>) -> (res: Option<Vec<JsonValue>>)
    ensures
        match v {
            Some(a) => res matches Some(b) && json_list(b@) == json_list(a@),
            None => res is None,
        },
{
    match v {
        Some(a) => Some(clone_values(a)),
        None => None,
    }
}

/// The configuration of a button controller: its button and the actions of its presses, a
/// missing long-press action written as `null`.
pub open spec fn button_controller_json(button: Seq<char>, on: Seq<JsonView>, off: Seq<JsonView>,
    on_long: JsonView, off_long: JsonView) -> JsonView {
    JsonView::Object(seq![
        ("button"@, JsonView::Str(button)),
        ("press_on"@, JsonView::Array(on)),
        ("press_off"@, JsonView::Array(off)),
        ("press_on_long"@, on_long),
        ("press_off_long"@, off_long),
    ])
}

/// A long-press action as configuration: the action, or `null`.
pub open spec fn optional_action_view(v: Option<Vec<JsonValue>>) -> JsonView {
    match v {
        Some(a) => JsonView::Array(json_list(a@)),
        None => JsonView::Null,
    }
}

/// Makes a button controller from its configuration file's settings, its configuration
/// described by the button it listens to.
pub fn create_button_controller(cfg: &ButtonControllerConfig) -> (res: Result<ButtonController, VirtualDeviceError>)
    ensures
        res matches Ok(c) && c.button() == cfg.button@ && c.press_on() == json_list(cfg.press_on@)
            && c.press_off() == json_list(cfg.press_off@)
            && c.config_view().device_id@ == cfg.device_id@ && c.config_view().name@ == cfg.name@
            && c.config_view().device_type == VirtualDeviceType::ButtonController && c.config_view().enabled
            && (c.config_view().description matches Some(d) && d@ == "Button controller for "@ + cfg.button@)
            && c.config_view().config == button_controller_json(cfg.button@, json_list(cfg.press_on@),
                json_list(cfg.press_off@), optional_action_view(cfg.press_on_long), optional_action_view(cfg.press_off_long)),
{
    let top = vec![
        (String::from_str("button"), JsonValue::Str(cfg.button.clone())),
        (String::from_str("press_on"), action_json(&cfg.press_on)),
        (String::from_str("press_off"), action_json(&cfg.press_off)),
        (String::from_str("press_on_long"), optional_action_json(&cfg.press_on_long)),
        (String::from_str("press_off_long"), optional_action_json(&cfg.press_off_long)),
    ];
    proof {
        reveal_strlit("button");
        reveal_strlit("press_on");
        reveal_strlit("press_off");
        reveal_strlit("press_on_long");
        reveal_strlit("press_off_long");
        lemma_object_view(top@);
        assert(json_view(JsonValue::Object(top))->Object_0 =~= button_controller_json(cfg.button@, json_list(cfg.press_on@),
            json_list(cfg.press_off@), optional_action_view(cfg.press_on_long), optional_action_view(cfg.press_off_long))->Object_0);
    }
    let mut description = String::from_str("Button controller for ");
    description.append(cfg.button.as_str());
    let config = VirtualDeviceConfig {
        device_id: cfg.device_id.clone(),
        device_type: VirtualDeviceType::ButtonController,
        name: cfg.name.clone(),
        description: Some(description),
        enabled: true,
        config: JsonValue::Object(top),
    };
    let on = clone_values(&cfg.press_on);
    let off = clone_values(&cfg.press_off);
    let on_long = optional_actions(&cfg.press_on_long);
    let off_long = optional_actions(&cfg.press_off_long);
    ButtonController::new(config, cfg.button.clone(), on, off, on_long, off_long)
}

/// Takes in one discovered device: with its initial state it joins the store at `now` and its
/// arrival is announced, with its kind in `Debug` form; without one (the gateway could not give
/// it) nothing changes.
pub fn add_discovered_device(store: &mut StateStore, info: DeviceInfo, initial: Result<DeviceStateValue, GatewayError>,
    now: Timestamp) -> (res: Option<DeviceEvent>)
    requires
        old(store).wf(),
    ensures
        final(store).wf(),
        match initial {
            Ok(state) => final(store).entries() == add_device_result(old(store).entries(), new_record(info@, state, now))
                && (res matches Some(e) && e.timestamp == now && e.device_id@ == info.device_id@
                && (e.event_type matches EventType::DeviceAdded { device_type } && device_type@ == device_type_debug(info.device_type))),
            Err(_) => final(store).entries() == old(store).entries() && res is None,
        },
{
    match initial {
        Ok(state) => {
            let id = info.device_id.clone();
            let kind = device_type_debug_name(&info.device_type);
            store.add_device(info, state, now);
            Some(DeviceEvent { timestamp: now, device_id: id, event_type: EventType::DeviceAdded { device_type: kind } })
        },
        Err(_) => None,
    }
}

} // verus!
