//! The IKEA Dirigera hub: which hosts to try, how its devices, states and events read in the
//! library's terms, and what a state change sends to it.
use vstd::prelude::*;
use vstd::string::{StrSliceExecFns, StringExecFns};
use crate::gateway::GatewayError;
use crate::json::{JsonValue, JsonView, json_as_bool, json_as_str, json_get, json_view};
use crate::light_group::contains_id;
use crate::scene_controller::dedup;
use crate::state::{ButtonPressType, Capability, DeviceEvent, DeviceEventView, DeviceInfo, DeviceInfoView, DeviceStateValue,
    DeviceType, EventType, EventTypeView, LightState, SensorState, SwitchState, Timestamp};
use crate::store::string_views;
use crate::text::{decimal, push_decimal, str_eq};

verus! {

/// The value of a sequence of decimal digits.
pub open spec fn digits_value(d: Seq<char>) -> nat
    decreases d.len(),
{
    if d.len() == 0 {
        0
    } else {
        digits_value(d.drop_last()) * 10 + ((d.last() as u32) - ('0' as u32)) as nat
    }
}

/// Whether every character is an ASCII digit.
pub open spec fn all_digits(d: Seq<char>) -> bool {
    forall|i: int| 0 <= i < d.len() ==> '0' <= #[trigger] d[i] && d[i] <= '9'
}

/// Whether `s` reads as a `u32`: an optional `+`, then one or more digits, of value at most
/// `u32::MAX`.
pub open spec fn is_u32_text(s: Seq<char>) -> bool {
    let d = if s.len() > 0 && s[0] == '+' { s.drop_first() } else { s };
    d.len() > 0 && all_digits(d) && digits_value(d) <= u32::MAX
}

proof fn lemma_digits_prefix(d: Seq<char>, k: int)
    requires
        all_digits(d),
        0 <= k <= d.len(),
    ensures
        digits_value(d.take(k)) <= digits_value(d),
    decreases d.len(),
{
    if k < d.len() {
        assert(d.drop_last().take(k) =~= d.take(k));
        lemma_digits_prefix(d.drop_last(), k);
    } else {
        assert(d.take(k) =~= d);
    }
}

/// Whether `s` reads as a `u32`.
pub fn parses_as_u32(s: &Vec<char>) -> (res: bool)
    ensures
        res == is_u32_text(s@),
{
    let start: usize = if s.len() > 0 && s[0] == '+' { 1 } else { 0 };
    let ghost d = if s@.len() > 0 && s@[0] == '+' { s@.drop_first() } else { s@ };
    assert(d =~= s@.skip(start as int));
    if start >= s.len() {
        return false;
    }
    let mut acc: u64 = 0;
    let mut i: usize = start;
    while i < s.len()
        invariant
            start <= i <= s@.len(),
            start == (if s@.len() > 0 && s@[0] == '+' { 1usize } else { 0usize }),
            d == (if s@.len() > 0 && s@[0] == '+' { s@.drop_first() } else { s@ }),
            d =~= s@.skip(start as int),
            all_digits(d.take(i - start)),
            acc == digits_value(d.take(i - start)),
            acc <= u32::MAX,
        decreases s@.len() - i,
    {
        let c = s[i];
        if !('0' <= c && c <= '9') {
            proof { assert(!('0' <= d[i - start] && d[i - start] <= '9')); }
            return false;
        }
        let v: u64 = acc * 10 + (c as u32 - '0' as u32) as u64;
        proof {
            assert(d.take(i - start + 1).drop_last() =~= d.take(i - start));
            assert(d.take(i - start + 1).last() == c);
            assert forall|j: int| 0 <= j < i - start + 1 implies '0' <= #[trigger] d.take(i - start + 1)[j]
                && d.take(i - start + 1)[j] <= '9' by {
                if j < i - start {
                    assert(d.take(i - start + 1)[j] == d.take(i - start)[j]);
                }
            }
        }
        if v > 4294967295 {
            proof {
                if all_digits(d) {
                    lemma_digits_prefix(d, i - start + 1);
                }
            }
            return false;
        }
        acc = v;
        i = i + 1;
    }
    assert(d.take(s@.len() - start) =~= d);
    true
}

/// Whether `s` ends with `suf`.
pub open spec fn has_suffix(s: Seq<char>, suf: Seq<char>) -> bool {
    suf.len() <= s.len() && s.skip(s.len() - suf.len()) == suf
}

/// The last position of `c` in `s`.
pub open spec fn last_index_of(s: Seq<char>, c: char) -> Option<int> {
    if exists|i: int| 0 <= i < s.len() && s[i] == c {
        Some(choose|i: int| 0 <= i < s.len() && s[i] == c && forall|j: int| i < j < s.len() ==> s[j] != c)
    } else {
        None
    }
}

/// The base name of an mDNS stem: without a trailing `-N` collision suffix, when the part
/// before it is not empty and `N` reads as a `u32`.
pub open spec fn mdns_base(stem: Seq<char>) -> Seq<char> {
    match last_index_of(stem, '-') {
        Some(i) => if i > 0 && is_u32_text(stem.skip(i + 1)) { stem.take(i) } else { stem },
        None => stem,
    }
}

/// The collision variants `base-N.local` for `N` from 2 to `max_suffix`.
pub open spec fn collision_variants(base: Seq<char>, max_suffix: u32) -> Seq<Seq<char>> {
    Seq::new(if max_suffix >= 2 { (max_suffix - 1) as nat } else { 0 }, |i: int| base + "-"@ + decimal((i + 2) as nat) + ".local"@)
}

/// The hosts to try for a hub configured as `host`: a host outside `.local` alone; otherwise the
/// configured host, the base name, and its collision variants, each once, in that order.
pub open spec fn host_candidates_of(host: Seq<char>, max_suffix: u32) -> Seq<Seq<char>> {
    if !has_suffix(host, ".local"@) {
        seq![host]
    } else {
        let base = mdns_base(host.take(host.len() - 6));
        dedup(seq![host, base + ".local"@] + collision_variants(base, max_suffix))
    }
}

fn chars_of(s: &str) -> (res: Vec<char>)
    ensures
        res@ == s@,
{
    let n = s.unicode_len();
    let mut out: Vec<char> = Vec::new();
    let mut i: usize = 0;
    while i < n
        invariant
            n == s@.len(),
            i <= n,
            out@ == s@.take(i as int),
        decreases n - i,
    {
        out.push(s.get_char(i));
        assert(s@.take(i as int + 1) =~= s@.take(i as int).push(s@[i as int]));
        i = i + 1;
    }
    assert(s@.take(n as int) =~= s@);
    out
}

fn string_of(c: &Vec<char>, from: usize, to: usize) -> (res: String)
    requires
        from <= to <= c@.len(),
    ensures
        res@ == c@.subrange(from as int, to as int),
{
    let mut s = String::new();
    let mut i: usize = from;
    while i < to
        invariant
            from <= i <= to,
            to <= c@.len(),
            s@ == c@.subrange(from as int, i as int),
        decreases to - i,
    {
        s.push(c[i]);
        assert(c@.subrange(from as int, i as int + 1) =~= c@.subrange(from as int, i as int).push(c@[i as int]));
        i = i + 1;
    }
    s
}

fn vec_range(c: &Vec<char>, from: usize, to: usize) -> (res: Vec<char>)
    requires
        from <= to <= c@.len(),
    ensures
        res@ == c@.subrange(from as int, to as int),
{
    let mut v: Vec<char> = Vec::new();
    let mut i: usize = from;
    while i < to
        invariant
            from <= i <= to,
            to <= c@.len(),
            v@ == c@.subrange(from as int, i as int),
        decreases to - i,
    {
        v.push(c[i]);
        assert(c@.subrange(from as int, i as int + 1) =~= c@.subrange(from as int, i as int).push(c@[i as int]));
        i = i + 1;
    }
    v
}

proof fn lemma_last_index_at(s: Seq<char>, c: char, i: int)
    requires
        0 <= i < s.len(),
        s[i] == c,
        forall|j: int| i < j < s.len() ==> s[j] != c,
    ensures
        last_index_of(s, c) == Some(i),
{
    let w = choose|w: int| 0 <= w < s.len() && s[w] == c && forall|j: int| w < j < s.len() ==> s[j] != c;
    assert(0 <= w < s.len() && s[w] == c && forall|j: int| w < j < s.len() ==> s[j] != c);
    if w < i {
        assert(s[i] != c);
    }
    if w > i {
        assert(s[w] != c);
    }
}

/// The base name of an mDNS stem.
fn mdns_base_exec(stem: &Vec<char>) -> (res: Vec<char>)
    ensures
        res@ == mdns_base(stem@),
{
    let mut i: usize = stem.len();
    while i > 0 && stem[i - 1] != '-'
        invariant
            i <= stem@.len(),
            forall|j: int| i <= j < stem@.len() ==> stem@[j] != '-',
        decreases i,
    {
        i = i - 1;
    }
    if i == 0 {
        return vec_range(stem, 0, stem.len());
    }
    let k = i - 1;
    proof { lemma_last_index_at(stem@, '-', k as int); }
    let rest = vec_range(stem, k + 1, stem.len());
    assert(rest@ =~= stem@.skip(k + 1));
    if k > 0 && parses_as_u32(&rest) {
        let v = vec_range(stem, 0, k);
        assert(v@ =~= stem@.take(k as int));
        v
    } else {
        let v = vec_range(stem, 0, stem.len());
        assert(v@ =~= stem@);
        v
    }
}

fn push_unique(out: &mut Vec<String>, h: String)
    ensures
        string_views(final(out)@) == if string_views(old(out)@).contains(h@) {
            string_views(old(out)@)
        } else {
            string_views(old(out)@).push(h@)
        },
{
    if !contains_id(out, h.as_str()) {
        let ghost before = string_views(out@);
        out.push(h);
        assert(string_views(out@) =~= before.push(h@));
    }
}

/// Whether `h` ends with `.local`.
fn ends_with_local(h: &Vec<char>) -> (res: bool)
    ensures
        res == has_suffix(h@, ".local"@),
{
    proof { reveal_strlit(".local"); }
    let n = h.len();
    if n < 6 {
        return false;
    }
    let r = h[n - 6] == '.' && h[n - 5] == 'l' && h[n - 4] == 'o' && h[n - 3] == 'c' && h[n - 2] == 'a' && h[n - 1] == 'l';
    proof {
        let t = h@.skip(n - 6);
        if r {
            assert(t =~= ".local"@);
        } else if t == ".local"@ {
            assert(t[0] == h@[n - 6] && t[1] == h@[n - 5] && t[2] == h@[n - 4]);
            assert(t[3] == h@[n - 3] && t[4] == h@[n - 2] && t[5] == h@[n - 1]);
        }
    }
    r
}

/// Appends the collision variants of `base` for 2 to `max_suffix`, each once.
fn push_variants(candidates: &mut Vec<String>, base: &String, max_suffix: u32, Ghost(init): Ghost<Seq<Seq<char>>>)
    requires
        string_views(old(candidates)@) == dedup(init),
    ensures
        string_views(final(candidates)@) == dedup(init + collision_variants(base@, max_suffix)),
{
    let ghost variants = collision_variants(base@, max_suffix);
    assert(init + variants.take(0) =~= init);
    let mut k: u32 = 2;
    while k <= max_suffix
        invariant
            2 <= k,
            k <= max_suffix + 1 || max_suffix < 2,
            max_suffix < 2 ==> k == 2,
            variants == collision_variants(base@, max_suffix),
            string_views(candidates@) == dedup(init + variants.take(k - 2)),
        decreases max_suffix + 1 - k,
    {
        let mut name = base.clone();
        name.append("-");
        push_decimal(&mut name, k as u64);
        name.append(".local");
        proof {
            let before = init + variants.take(k - 2);
            assert(variants[k - 2] == base@ + "-"@ + decimal(k as nat) + ".local"@);
            assert((init + variants.take(k - 1)).drop_last() =~= before);
            assert((init + variants.take(k - 1)).last() == name@);
        }
        push_unique(candidates, name);
        if k == u32::MAX {
            proof { assert(variants.take(k - 1) =~= variants); }
            return;
        }
        k = k + 1;
    }
    proof { assert(variants.take(k - 2) =~= variants); }
}

/// The highest collision suffix tried for a hub's mDNS name.
pub const MAX_MDNS_COLLISION_SUFFIX: u32 = 5;

/// A connection to an IKEA Dirigera hub: where its REST and WebSocket APIs are, the access
/// token, and the request timeout in milliseconds.
#[derive(Debug)]
pub struct DirigeraGateway {
    pub base_url: String,
    pub ws_url: String,
    pub access_token: String,
    pub timeout_ms: u64,
}

impl DirigeraGateway {
    /// A gateway for the hub at `host`.
    pub fn new(host: &str, access_token: &str, timeout_ms: u64) -> (res: DirigeraGateway)
        ensures
            res.base_url@ == "https://"@ + host@ + ":8443/v1"@,
            res.ws_url@ == "wss://"@ + host@ + ":8443/v1"@,
            res.access_token@ == access_token@,
            res.timeout_ms == timeout_ms,
    {
        let (base_url, ws_url) = dirigera_urls(host);
        DirigeraGateway { base_url, ws_url, access_token: String::from_str(access_token), timeout_ms }
    }

    /// The hosts to try for a hub configured as `host`: `host` itself, then, for an mDNS name,
    /// its base name and its collision variants up to `max_suffix`, without repeats.
    pub fn host_candidates(host: &str, max_suffix: u32) -> (res: Vec<String>)
        ensures
            string_views(res@) == host_candidates_of(host@, max_suffix),
    {
        host_candidates(host, max_suffix)
    }
}

/// The hosts to try for a hub configured as `host`.
fn host_candidates(host: &str, max_suffix: u32) -> (res: Vec<String>)
    ensures
        string_views(res@) == host_candidates_of(host@, max_suffix),
{
    let h = chars_of(host);
    let n = h.len();
    proof { reveal_strlit(".local"); }
    if !ends_with_local(&h) {
        let v = vec![String::from_str(host)];
        assert(string_views(v@) =~= seq![host@]);
        return v;
    }
    let stem = vec_range(&h, 0, n - 6);
    assert(stem@ =~= host@.take(host@.len() - 6));
    let base_chars = mdns_base_exec(&stem);
    let base = string_of(&base_chars, 0, base_chars.len());
    assert(base@ =~= base_chars@);
    let mut candidates: Vec<String> = Vec::new();
    candidates.push(String::from_str(host));
    let mut first = base.clone();
    first.append(".local");
    let ghost init = seq![host@, base@ + ".local"@];
    proof {
        assert(seq![host@].drop_last() =~= Seq::<Seq<char>>::empty());
        assert(dedup(Seq::<Seq<char>>::empty()) == Seq::<Seq<char>>::empty());
        assert(seq![host@].last() == host@);
        assert(!Seq::<Seq<char>>::empty().contains(host@));
        assert(dedup(seq![host@]) =~= seq![host@]);
        assert(string_views(candidates@) =~= seq![host@]);
        assert(init.drop_last() =~= seq![host@]);
    }
    push_unique(&mut candidates, first);
    push_variants(&mut candidates, &base, max_suffix, Ghost(init));
    candidates
}

/// Capabilities as the hub reports them: what a device can receive and send.
#[derive(Debug)]
pub struct DirigeraCapabilities {
    pub can_receive: Vec<String>,
    pub can_send: Vec<String>,
}

/// The attributes the hub reports for a device. Readings are bit patterns of IEEE-754 singles.
#[derive(Debug)]
pub struct DirigeraAttributes {
    pub custom_name: Option<String>,
    pub is_on: Option<bool>,
    pub light_level: Option<u8>,
    pub color_temperature: Option<u16>,
    pub color_hue_bits: Option<u32>,
    pub color_saturation_bits: Option<u32>,
    pub battery_percentage: Option<u8>,
    pub is_pressed: Option<bool>,
    pub current_temperature_bits: Option<u32>,
    pub current_humidity_bits: Option<u32>,
}

/// A room of the hub.
#[derive(Debug)]
pub struct DirigeraRoom {
    pub id: String,
    pub name: String,
}

/// A device as the hub reports it.
#[derive(Debug)]
pub struct DirigeraDevice {
    pub id: String,
    pub device_type: String,
    pub device_category: String,
    pub attributes: DirigeraAttributes,
    pub is_reachable: bool,
    pub room: Option<DirigeraRoom>,
    pub capabilities: Option<DirigeraCapabilities>,
}

/// The library's kind for a hub device type: lights and outlets are lights, blinds and
/// controllers switches, sensors sensors, anything else a light.
pub open spec fn device_type_of(t: Seq<char>) -> DeviceType {
    if t == "light"@ || t == "outlet"@ {
        DeviceType::Light
    } else if t == "blinds"@ || t == "controller"@ {
        DeviceType::Switch
    } else if t == "sensor"@ {
        DeviceType::Sensor
    } else {
        DeviceType::Light
    }
}

/// The capability list after reading one receivable attribute.
pub open spec fn receive_step(caps: Seq<Capability>, cap: Seq<char>, is_outlet: bool) -> Seq<Capability> {
    if cap == "isOn"@ {
        caps.push(Capability::OnOff)
    } else if cap == "lightLevel"@ {
        if !is_outlet { caps.push(Capability::Brightness) } else { caps }
    } else if cap == "colorTemperature"@ {
        caps.push(Capability::ColorTemperature)
    } else if (cap == "colorHue"@ || cap == "colorSaturation"@) && !caps.contains(Capability::RgbColor) {
        caps.push(Capability::RgbColor)
    } else {
        caps
    }
}

/// The capability list after reading one sendable attribute.
pub open spec fn send_step(caps: Seq<Capability>, cap: Seq<char>) -> Seq<Capability> {
    if (cap == "isOn"@ || cap == "lightLevel"@ || cap == "singlePress"@ || cap == "doublePress"@ || cap == "longPress"@)
        && !caps.contains(Capability::OnOff) {
        caps.push(Capability::OnOff)
    } else {
        caps
    }
}

/// The capabilities after reading the first `n` receivable attributes.
pub open spec fn receive_caps(recv: Seq<Seq<char>>, is_outlet: bool, n: nat) -> Seq<Capability>
    decreases n,
{
    if n == 0 || n > recv.len() {
        Seq::empty()
    } else {
        receive_step(receive_caps(recv, is_outlet, (n - 1) as nat), recv[n - 1], is_outlet)
    }
}

/// The capabilities after reading the first `n` sendable attributes on top of `start`.
pub open spec fn send_caps(start: Seq<Capability>, send: Seq<Seq<char>>, n: nat) -> Seq<Capability>
    decreases n,
{
    if n == 0 || n > send.len() {
        start
    } else {
        send_step(send_caps(start, send, (n - 1) as nat), send[n - 1])
    }
}

/// The capabilities of a hub device: read from what it can receive and send (with readings in
/// its attributes standing in for a sensor that names none), or a default for its type when it
/// reports none.
pub open spec fn capabilities_of_device(d: DirigeraDevice) -> Seq<Capability> {
    let t = d.device_type@;
    match d.capabilities {
        Some(c) => {
            let r = receive_caps(string_views(c.can_receive@), t == "outlet"@, c.can_receive@.len());
            let s = send_caps(r, string_views(c.can_send@), c.can_send@.len());
            if s.len() == 0 && t == "sensor"@ {
                let a = if d.attributes.current_temperature_bits is Some { seq![Capability::Temperature] } else { Seq::empty() };
                if d.attributes.current_humidity_bits is Some { a.push(Capability::Humidity) } else { a }
            } else {
                s
            }
        },
        None => if t == "sensor"@ { seq![Capability::Temperature, Capability::Humidity] } else { seq![Capability::OnOff] },
    }
}

/// The information the library keeps for a hub device seen at `now`.
pub open spec fn device_info_of(d: DirigeraDevice, now: Timestamp, info: DeviceInfoView) -> bool {
    &&& info.device_id@ == d.id@
    &&& info.name@ == match d.attributes.custom_name { Some(n) => n@, None => d.device_category@ + " "@ + d.id@ }
    &&& info.device_type == device_type_of(d.device_type@)
    &&& info.capabilities == capabilities_of_device(d)
    &&& string_views(info.device_groups) == seq![match d.room { Some(r) => r.name@, None => "ungrouped"@ }]
    &&& info.manufacturer matches Some(m) && m@ == "IKEA"@
    &&& info.model matches Some(m) && m@ == d.device_category@
    &&& info.firmware_version is None
    &&& info.battery_powered == d.attributes.battery_percentage is Some
    &&& info.reachable == d.is_reachable
    &&& info.last_seen == now
    &&& info.custom_attributes.len() == 0
}

fn receive_caps_exec(recv: &Vec<String>, is_outlet: bool) -> (res: Vec<Capability>)
    ensures
        res@ == receive_caps(string_views(recv@), is_outlet, recv@.len()),
{
    let ghost rv = string_views(recv@);
    let mut caps: Vec<Capability> = Vec::new();
    let mut i: usize = 0;
    while i < recv.len()
        invariant
            i <= recv@.len(),
            rv == string_views(recv@),
            caps@ == receive_caps(rv, is_outlet, i as nat),
        decreases recv@.len() - i,
    {
        let c = recv[i].as_str();
        assert(rv[i as int] == c@);
        if str_eq(c, "isOn") {
            caps.push(Capability::OnOff);
        } else if str_eq(c, "lightLevel") {
            if !is_outlet {
                caps.push(Capability::Brightness);
            }
        } else if str_eq(c, "colorTemperature") {
            caps.push(Capability::ColorTemperature);
        } else if (str_eq(c, "colorHue") || str_eq(c, "colorSaturation")) && !contains_cap(&caps, Capability::RgbColor) {
            caps.push(Capability::RgbColor);
        }
        i = i + 1;
    }
    caps
}

fn send_caps_exec(caps: &mut Vec<Capability>, send: &Vec<String>)
    ensures
        final(caps)@ == send_caps(old(caps)@, string_views(send@), send@.len()),
{
    let ghost sv = string_views(send@);
    let mut i: usize = 0;
    while i < send.len()
        invariant
            i <= send@.len(),
            sv == string_views(send@),
            caps@ == send_caps(old(caps)@, sv, i as nat),
        decreases send@.len() - i,
    {
        let c = send[i].as_str();
        assert(sv[i as int] == c@);
        if (str_eq(c, "isOn") || str_eq(c, "lightLevel") || str_eq(c, "singlePress") || str_eq(c, "doublePress")
            || str_eq(c, "longPress")) && !contains_cap(caps, Capability::OnOff) {
            caps.push(Capability::OnOff);
        }
        i = i + 1;
    }
}

fn contains_cap(caps: &Vec<Capability>, c: Capability) -> (res: bool)
    ensures
        res == caps@.contains(c),
{
    let mut i: usize = 0;
    while i < caps.len()
        invariant
            i <= caps@.len(),
            forall|j: int| 0 <= j < i ==> caps@[j] != c,
        decreases caps@.len() - i,
    {
        if caps[i] == c {
            return true;
        }
        i = i + 1;
    }
    false
}

/// The library's kind for a hub device type.
pub fn convert_device_type(t: &str) -> (res: DeviceType)
    ensures
        res == device_type_of(t@),
{
    if str_eq(t, "light") || str_eq(t, "outlet") {
        DeviceType::Light
    } else if str_eq(t, "blinds") || str_eq(t, "controller") {
        DeviceType::Switch
    } else if str_eq(t, "sensor") {
        DeviceType::Sensor
    } else {
        DeviceType::Light
    }
}

/// The capabilities of a hub device.
pub fn device_capabilities(device: &DirigeraDevice) -> (res: Vec<Capability>)
    ensures
        res@ == capabilities_of_device(*device),
{
    let t = device.device_type.as_str();
    match &device.capabilities {
        Some(c) => {
            let mut caps = receive_caps_exec(&c.can_receive, str_eq(t, "outlet"));
            send_caps_exec(&mut caps, &c.can_send);
            if caps.len() == 0 && str_eq(t, "sensor") {
                if device.attributes.current_temperature_bits.is_some() {
                    caps.push(Capability::Temperature);
                }
                if device.attributes.current_humidity_bits.is_some() {
                    caps.push(Capability::Humidity);
                }
                proof {
                    let a = if device.attributes.current_temperature_bits is Some { seq![Capability::Temperature] } else { Seq::empty() };
                    let b = if device.attributes.current_humidity_bits is Some { a.push(Capability::Humidity) } else { a };
                    assert(caps@ =~= b);
                }
            }
            caps
        },
        None => {
            if str_eq(t, "sensor") {
                let v = vec![Capability::Temperature, Capability::Humidity];
                assert(v@ =~= seq![Capability::Temperature, Capability::Humidity]);
                v
            } else {
                let v = vec![Capability::OnOff];
                assert(v@ =~= seq![Capability::OnOff]);
                v
            }
        },
    }
}

/// Reads a hub device, seen at `now`, as the library's device information. Never refused.
pub fn convert_dirigera_device(device: DirigeraDevice, now: Timestamp) -> (res: Result<DeviceInfo, GatewayError>)
    ensures
        res matches Ok(info) && device_info_of(device, now, info@),
{
    let capabilities = device_capabilities(&device);
    let device_type = convert_device_type(device.device_type.as_str());
    let group = match &device.room {
        Some(r) => r.name.clone(),
        None => String::from_str("ungrouped"),
    };
    let groups = vec![group];
    let name = match &device.attributes.custom_name {
        Some(n) => n.clone(),
        None => {
            let mut s = device.device_category.clone();
            s.append(" ");
            s.append(device.id.as_str());
            s
        },
    };
    let info = DeviceInfo {
        device_id: device.id.clone(),
        name,
        device_type,
        capabilities,
        device_groups: groups,
        manufacturer: Some(String::from_str("IKEA")),
        model: Some(device.device_category.clone()),
        firmware_version: None,
        battery_powered: device.attributes.battery_percentage.is_some(),
        reachable: device.is_reachable,
        last_seen: now,
        custom_attributes: Vec::new(),
    };
    assert(string_views(info.device_groups@) =~= seq![match device.room { Some(r) => r.name@, None => "ungrouped"@ }]);
    Ok(info)
}

/// The state the library keeps for a hub device read at `now`: outlets as lights that are only
/// on or off, lights with their level and temperature, sensors with their readings, controllers
/// as switches; anything else as a light.
pub open spec fn device_state_of(d: DirigeraDevice, now: Timestamp) -> DeviceStateValue {
    let t = d.device_type@;
    let a = d.attributes;
    let on = match a.is_on { Some(b) => b, None => false };
    if t == "outlet"@ {
        DeviceStateValue::Light(LightState { is_on: on, brightness: None, color_temp: None, rgb_color: None })
    } else if t == "sensor"@ {
        DeviceStateValue::Sensor(SensorState { temperature_bits: a.current_temperature_bits, humidity_bits: a.current_humidity_bits,
            last_updated: now })
    } else if t == "controller"@ {
        DeviceStateValue::Switch(SwitchState { is_pressed: match a.is_pressed { Some(b) => b, None => false }, last_pressed: None,
            battery_level: a.battery_percentage })
    } else {
        DeviceStateValue::Light(LightState { is_on: on, brightness: a.light_level, color_temp: a.color_temperature, rgb_color: None })
    }
}

/// Reads a hub device's state, at `now`, as the library's state.
pub fn convert_dirigera_state(device: &DirigeraDevice, now: Timestamp) -> (res: DeviceStateValue)
    ensures
        res == device_state_of(*device, now),
{
    let t = device.device_type.as_str();
    let a = &device.attributes;
    let on = match a.is_on { Some(b) => b, None => false };
    if str_eq(t, "outlet") {
        DeviceStateValue::Light(LightState { is_on: on, brightness: None, color_temp: None, rgb_color: None })
    } else if str_eq(t, "sensor") {
        DeviceStateValue::Sensor(SensorState { temperature_bits: a.current_temperature_bits, humidity_bits: a.current_humidity_bits,
            last_updated: now })
    } else if str_eq(t, "controller") {
        DeviceStateValue::Switch(SwitchState { is_pressed: match a.is_pressed { Some(b) => b, None => false }, last_pressed: None,
            battery_level: a.battery_percentage })
    } else {
        DeviceStateValue::Light(LightState { is_on: on, brightness: a.light_level, color_temp: a.color_temperature, rgb_color: None })
    }
}

/// The attributes a state change sends to the hub; absent ones are left out.
#[derive(Clone, Copy, Debug, PartialEq, Eq, Structural)]
pub struct DirigeraUpdateAttributes {
    pub is_on: Option<bool>,
    pub light_level: Option<u8>,
    pub color_temperature: Option<u16>,
    /// Milliseconds.
    pub transition_time: Option<u32>,
}

/// What setting a device of hub type `device_type`, on or off now as `currently_on` says, to
/// `state` sends: an outlet only its on/off; a light its level, temperature and on/off, leaving
/// on/off out when it is on and stays on while the level changes, and with a 500 ms transition
/// when the level changes. Only light states can be sent.
pub open spec fn update_for(state: DeviceStateValue, device_type: Seq<char>, currently_on: bool) -> Option<DirigeraUpdateAttributes> {
    match state {
        DeviceStateValue::Light(l) => Some(if device_type == "outlet"@ {
            DirigeraUpdateAttributes { is_on: Some(l.is_on), light_level: None, color_temperature: None, transition_time: None }
        } else {
            DirigeraUpdateAttributes {
                is_on: if l.brightness is Some {
                    if !currently_on && l.is_on { Some(true) } else if currently_on && l.is_on { None } else { Some(l.is_on) }
                } else {
                    Some(l.is_on)
                },
                light_level: l.brightness,
                color_temperature: l.color_temp,
                transition_time: if l.brightness is Some { Some(500u32) } else { None },
            }
        }),
        _ => None,
    }
}

/// The attributes setting a device to `state` sends to the hub; refused for states other than
/// light states.
pub fn plan_update(state: &DeviceStateValue, device_type: &str, currently_on: bool) -> (res: Result<DirigeraUpdateAttributes, GatewayError>)
    ensures
        match update_for(*state, device_type@, currently_on) {
            Some(u) => res == Ok::<DirigeraUpdateAttributes, GatewayError>(u),
            None => res matches Err(GatewayError::InvalidStateType),
        },
{
    match state {
        DeviceStateValue::Light(l) => {
            if str_eq(device_type, "outlet") {
                Ok(DirigeraUpdateAttributes { is_on: Some(l.is_on), light_level: None, color_temperature: None, transition_time: None })
            } else {
                let is_on = if l.brightness.is_some() {
                    if !currently_on && l.is_on { Some(true) } else if currently_on && l.is_on { None } else { Some(l.is_on) }
                } else {
                    Some(l.is_on)
                };
                Ok(DirigeraUpdateAttributes {
                    is_on,
                    light_level: l.brightness,
                    color_temperature: l.color_temp,
                    transition_time: if l.brightness.is_some() { Some(500) } else { None },
                })
            }
        },
        _ => Err(GatewayError::InvalidStateType),
    }
}

/// Whether the light state the hub last reported is on.
pub fn is_light_on(state: &Option<DeviceStateValue>) -> (res: bool)
    ensures
        res == (*state matches Some(DeviceStateValue::Light(l)) && l.is_on),
{
    match state {
        Some(DeviceStateValue::Light(l)) => l.is_on,
        _ => false,
    }
}

/// How the hub's answer to a state change reads: 404 means no such device; any success code is
/// done; other codes fail with the status and the answer's text.
pub fn patch_outcome(device_id: &String, status: u16, status_text: &str, body: &str) -> (res: Result<(), GatewayError>)
    ensures
        status == 404 ==> (res matches Err(GatewayError::DeviceNotFound(id)) && id@ == device_id@),
        status != 404 && 200 <= status <= 299 ==> res is Ok,
        status != 404 && !(200 <= status <= 299) ==> (res matches Err(GatewayError::InternalError(m))
            && m@ == "HTTP "@ + status_text@ + ": "@ + body@),
{
    if status == 404 {
        Err(GatewayError::DeviceNotFound(device_id.clone()))
    } else if 200 <= status && status <= 299 {
        Ok(())
    } else {
        let mut m = String::from_str("HTTP ");
        m.append(status_text);
        m.append(": ");
        m.append(body);
        Err(GatewayError::InternalError(m))
    }
}

/// The hub's REST and WebSocket base URLs for `host`.
pub fn dirigera_urls(host: &str) -> (res: (String, String))
    ensures
        res.0@ == "https://"@ + host@ + ":8443/v1"@,
        res.1@ == "wss://"@ + host@ + ":8443/v1"@,
{
    let mut base = String::from_str("https://");
    base.append(host);
    base.append(":8443/v1");
    let mut ws = String::from_str("wss://");
    ws.append(host);
    ws.append(":8443/v1");
    (base, ws)
}

/// An event as the hub's WebSocket sends it.
#[derive(Debug)]
pub struct DirigeraWsEvent {
    pub event_type: String,
    pub id: String,
    pub time: String,
    pub device_id: Option<String>,
    pub data: Option<JsonValue>,
}

/// A member's string value, when the member is a string.
pub open spec fn member_str(data: JsonView, key: Seq<char>) -> Option<Seq<char>> {
    match json_get(data, key) {
        Some(v) => json_as_str(v),
        None => None,
    }
}

/// A member's boolean value, when the member is a boolean.
pub open spec fn member_bool(data: JsonView, key: Seq<char>) -> Option<bool> {
    match json_get(data, key) {
        Some(v) => json_as_bool(v),
        None => None,
    }
}

/// The press kind a click pattern names; a single press otherwise.
pub open spec fn press_type_of(pattern: Option<Seq<char>>) -> ButtonPressType {
    match pattern {
        Some(p) => if p == "doublePress"@ { ButtonPressType::DoublePress } else if p == "longPress"@ { ButtonPressType::LongPress }
            else { ButtonPressType::SinglePress },
        None => ButtonPressType::SinglePress,
    }
}

/// The library's event kind for a hub event of type `t` with data `data`: a state change is a
/// button press when its data names a button event or click pattern, otherwise a change of the
/// `state` attribute to the data; additions, removals, reachability changes and scene triggers
/// map to their kinds; any other type is a change of the attribute named by the type.
pub open spec fn ws_event_type(t: Seq<char>, data: Option<JsonView>) -> EventTypeView {
    if t == "deviceStateChanged"@ {
        match data {
            Some(d) => if json_get(d, "buttonEvent"@) is Some || json_get(d, "clickPattern"@) is Some {
                EventTypeView::ButtonPressed {
                    button_id: match member_str(d, "buttonId"@) { Some(b) => b, None => "main"@ },
                    press_type: press_type_of(member_str(d, "clickPattern"@)),
                }
            } else {
                EventTypeView::AttributeChanged { attribute: "state"@, old_value: JsonView::Null, new_value: d }
            },
            None => EventTypeView::AttributeChanged { attribute: "state"@, old_value: JsonView::Null, new_value: JsonView::Null },
        }
    } else if t == "deviceDiscovered"@ || t == "deviceAdded"@ {
        EventTypeView::DeviceAdded { device_type: "unknown"@ }
    } else if t == "deviceRemoved"@ {
        EventTypeView::DeviceRemoved
    } else if t == "deviceReachabilityChanged"@ {
        EventTypeView::DeviceReachabilityChanged {
            reachable: match data { Some(d) => match member_bool(d, "isReachable"@) { Some(b) => b, None => true }, None => true },
        }
    } else if t == "sceneUpdated"@ || t == "sceneTriggered"@ {
        EventTypeView::SceneActivated {
            scene_id: match data {
                Some(d) => match json_get(d, "sceneId"@) {
                    Some(v) => match json_as_str(v) { Some(s) => s, None => "unknown"@ },
                    None => match member_str(d, "id"@) { Some(s) => s, None => "unknown"@ },
                },
                None => "unknown"@,
            },
        }
    } else {
        EventTypeView::AttributeChanged {
            attribute: t,
            old_value: JsonView::Null,
            new_value: match data { Some(d) => d, None => JsonView::Null },
        }
    }
}

fn str_member_or(data: &JsonValue, key: &str, default: &str) -> (res: String)
    ensures
        res@ == match member_str(json_view(*data), key@) { Some(s) => s, None => default@ },
{
    match data.get(key) {
        Some(v) => match v.as_str() {
            Some(s) => s.clone(),
            None => String::from_str(default),
        },
        None => String::from_str(default),
    }
}

/// The library's event kind for a hub event.
pub fn convert_ws_event_type(event_type: &str, data: &Option<JsonValue>) -> (res: EventType)
    ensures
        res@ == ws_event_type(event_type@, match data { Some(d) => Some(json_view(*d)), None => None }),
{
    if str_eq(event_type, "deviceStateChanged") {
        match data {
            Some(d) => {
                if d.get("buttonEvent").is_some() || d.get("clickPattern").is_some() {
                    let button_id = str_member_or(d, "buttonId", "main");
                    let press_type = match d.get("clickPattern") {
                        Some(v) => match v.as_str() {
                            Some(p) => if str_eq(p.as_str(), "doublePress") { ButtonPressType::DoublePress }
                                else if str_eq(p.as_str(), "longPress") { ButtonPressType::LongPress }
                                else { ButtonPressType::SinglePress },
                            None => ButtonPressType::SinglePress,
                        },
                        None => ButtonPressType::SinglePress,
                    };
                    EventType::ButtonPressed { button_id, press_type }
                } else {
                    EventType::AttributeChanged { attribute: String::from_str("state"), old_value: JsonValue::Null, new_value: d.deep_clone() }
                }
            },
            None => EventType::AttributeChanged { attribute: String::from_str("state"), old_value: JsonValue::Null, new_value: JsonValue::Null },
        }
    } else if str_eq(event_type, "deviceDiscovered") || str_eq(event_type, "deviceAdded") {
        EventType::DeviceAdded { device_type: String::from_str("unknown") }
    } else if str_eq(event_type, "deviceRemoved") {
        EventType::DeviceRemoved
    } else if str_eq(event_type, "deviceReachabilityChanged") {
        let reachable = match data {
            Some(d) => match d.get("isReachable") {
                Some(v) => match v.as_bool() { Some(b) => b, None => true },
                None => true,
            },
            None => true,
        };
        EventType::DeviceReachabilityChanged { reachable }
    } else if str_eq(event_type, "sceneUpdated") || str_eq(event_type, "sceneTriggered") {
        let scene_id = match data {
            Some(d) => match d.get("sceneId") {
                Some(v) => match v.as_str() {
                    Some(s) => s.clone(),
                    None => String::from_str("unknown"),
                },
                None => str_member_or(d, "id", "unknown"),
            },
            None => String::from_str("unknown"),
        };
        EventType::SceneActivated { scene_id }
    } else {
        EventType::AttributeChanged {
            attribute: String::from_str(event_type),
            old_value: JsonValue::Null,
            new_value: match data { Some(d) => d.deep_clone(), None => JsonValue::Null },
        }
    }
}

/// A hub event, received at `now`, as the library's event; none when it names no device.
pub fn convert_ws_event(event: &DirigeraWsEvent, now: Timestamp) -> (res: Option<DeviceEvent>)
    ensures
        match event.device_id {
            Some(id) => res matches Some(e) && e@ == (DeviceEventView {
                timestamp: now,
                device_id: id@,
                event_type: ws_event_type(event.event_type@, match event.data { Some(d) => Some(json_view(d)), None => None }),
            }),
            None => res is None,
        },
{
    match &event.device_id {
        Some(id) => Some(DeviceEvent {
            timestamp: now,
            device_id: id.clone(),
            event_type: convert_ws_event_type(event.event_type.as_str(), &event.data),
        }),
        None => None,
    }
}

/// A light state sent to a light sends its brightness as the level and its colour temperature
/// as the temperature, with a transition exactly when a level is sent; and the light ends in the
/// requested on/off state: an on/off value sent is the requested one, and none is sent only when
/// the light is on and is to stay on.
pub proof fn law_light_update_sends_requested(l: LightState, device_type: Seq<char>, currently_on: bool)
    requires
        device_type != "outlet"@,
    ensures
        update_for(DeviceStateValue::Light(l), device_type, currently_on) matches Some(u)
            && u.light_level == l.brightness
            && u.color_temperature == l.color_temp
            && (u.transition_time is Some <==> l.brightness is Some)
            && (match u.is_on { Some(b) => b == l.is_on, None => currently_on && l.is_on }),
{
}

/// An outlet is only switched: it gets the requested on/off and nothing else.
pub proof fn law_outlet_update_switches_only(l: LightState, currently_on: bool)
    ensures
        update_for(DeviceStateValue::Light(l), "outlet"@, currently_on) matches Some(u)
            && u.is_on == Some(l.is_on) && u.light_level is None && u.color_temperature is None
            && u.transition_time is None,
{
}

/// Only light states can be sent: any other state plans no update.
pub proof fn law_only_lights_are_sent(state: DeviceStateValue, device_type: Seq<char>, currently_on: bool)
    requires
        !(state is Light),
    ensures
        update_for(state, device_type, currently_on) is None,
{
}

} // verus!
