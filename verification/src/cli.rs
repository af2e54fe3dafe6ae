//! The command-line client's decisions: how a light command merges into the light's current
//! state, the rows of the device listing, and the lines that describe a device's state.
use vstd::prelude::*;
use vstd::string::StringExecFns;
use crate::api::{device_type_debug, device_type_debug_name};
use crate::state::{ButtonPressType, DeviceEvent, DeviceEventView, DeviceState, DeviceStateValue, DeviceStateView, EventType, EventTypeView, LightState};
use crate::store::string_views;
use crate::text::{decimal, push_decimal};

verus! {

/// The light state the `light` command sends: the current state with the given fields
/// replaced. Switching off without a brightness also clears the brightness.
pub fn cli_light_update(current: LightState, on: Option<bool>, brightness: Option<u8>, color_temp: Option<u16>)
    -> (res: LightState)
    ensures
        res.is_on == (match on { Some(b) => b, None => current.is_on }),
        res.brightness == (match brightness {
            Some(b) => Some(b),
            None => if on == Some(false) { None } else { current.brightness },
        }),
        res.color_temp == (match color_temp { Some(t) => Some(t), None => current.color_temp }),
        res.rgb_color == current.rgb_color,
{
    let mut light = current;
    match on {
        Some(o) => {
            light.is_on = o;
            if !o && brightness.is_none() {
                light.brightness = None;
            }
        },
        None => {},
    }
    match brightness {
        Some(b) => light.brightness = Some(b),
        None => {},
    }
    match color_temp {
        Some(t) => light.color_temp = Some(t),
        None => {},
    }
    light
}

/// The texts `parts` joined with `sep` between neighbours.
pub open spec fn joined(parts: Seq<Seq<char>>, sep: Seq<char>) -> Seq<char>
    decreases parts.len(),
{
    if parts.len() == 0 {
        Seq::empty()
    } else if parts.len() == 1 {
        parts[0]
    } else {
        joined(parts.drop_last(), sep) + sep + parts.last()
    }
}

/// The strings of `parts` joined with `sep` between neighbours.
pub fn join_strings(parts: &Vec<String>, sep: &str) -> (res: String)
    ensures
        res@ == joined(string_views(parts@), sep@),
{
    let ghost ps = string_views(parts@);
    let mut out = String::new();
    let mut i: usize = 0;
    while i < parts.len()
        invariant
            ps == string_views(parts@),
            i <= parts@.len(),
            out@ == joined(ps.take(i as int), sep@),
        decreases parts@.len() - i,
    {
        if i > 0 {
            out.append(sep);
        }
        out.append(parts[i].as_str());
        proof {
            let t = ps.take(i as int + 1);
            assert(t.drop_last() =~= ps.take(i as int));
            assert(t.last() == parts@[i as int]@);
            if i == 0 {
                assert(ps.take(0) =~= Seq::<Seq<char>>::empty());
            }
        }
        i = i + 1;
    }
    assert(ps.take(parts@.len() as int) =~= ps);
    out
}

/// A row of the device listing: id, name, kind as `Debug` writes it, groups joined by commas,
/// and a tick or a cross for reachability.
#[derive(Debug)]
pub struct DeviceRow {
    pub id: String,
    pub name: String,
    pub device_type: String,
    pub groups: String,
    pub reachable: String,
}

/// The texts of a listing row.
pub open spec fn row_view(r: DeviceRow) -> (Seq<char>, Seq<char>, Seq<char>, Seq<char>, Seq<char>) {
    (r.id@, r.name@, r.device_type@, r.groups@, r.reachable@)
}

/// The listing row of a device record.
pub open spec fn row_of(d: DeviceStateView) -> (Seq<char>, Seq<char>, Seq<char>, Seq<char>, Seq<char>) {
    (d.device_info.device_id@, d.device_info.name@, device_type_debug(d.device_info.device_type),
        joined(string_views(d.device_info.device_groups), ", "@), if d.device_info.reachable { "✓"@ } else { "✗"@ })
}

/// The rows of the device listing, one per device, in order.
pub fn device_rows(devices: &Vec<DeviceState>) -> (res: Vec<DeviceRow>)
    ensures
        res@.len() == devices@.len(),
        forall|i: int| 0 <= i < res@.len() ==> row_view(#[trigger] res@[i]) == row_of(devices@[i]@),
{
    let mut rows: Vec<DeviceRow> = Vec::new();
    let mut i: usize = 0;
    while i < devices.len()
        invariant
            i <= devices@.len(),
            rows@.len() == i,
            forall|k: int| 0 <= k < i ==> row_view(#[trigger] rows@[k]) == row_of(devices@[k]@),
        decreases devices@.len() - i,
    {
        let info = &devices[i].device_info;
        let row = DeviceRow {
            id: info.device_id.clone(),
            name: info.name.clone(),
            device_type: device_type_debug_name(&info.device_type),
            groups: join_strings(&info.device_groups, ", "),
            reachable: if info.reachable { String::from_str("✓") } else { String::from_str("✗") },
        };
        rows.push(row);
        i = i + 1;
    }
    rows
}

/// A line of the `get` command's description of a state.
#[derive(Debug)]
pub enum StateLine {
    /// Printed as it is.
    Text(String),
    /// "Temperature: " and a reading, the bits of a 32-bit float in °C, with one decimal.
    Temperature(u32),
    /// "Humidity: " and a reading, the bits of a 32-bit float, with one decimal and "%".
    Humidity(u32),
    /// "State: " and the state as `Debug` writes it.
    Raw,
}

/// The content of a [`StateLine`].
pub enum StateLineView {
    Text(Seq<char>),
    Temperature(u32),
    Humidity(u32),
    Raw,
}

/// The content of a state line.
pub open spec fn state_line_view(l: StateLine) -> StateLineView {
    match l {
        StateLine::Text(t) => StateLineView::Text(t@),
        StateLine::Temperature(t) => StateLineView::Temperature(t),
        StateLine::Humidity(h) => StateLineView::Humidity(h),
        StateLine::Raw => StateLineView::Raw,
    }
}

/// A text line.
pub open spec fn text(t: Seq<char>) -> Seq<StateLineView> {
    seq![StateLineView::Text(t)]
}

/// A text line when `o` holds a value, nothing otherwise.
pub open spec fn optional_line<T>(o: Option<T>, f: spec_fn(T) -> Seq<char>) -> Seq<StateLineView> {
    match o {
        Some(v) => text(f(v)),
        None => Seq::empty(),
    }
}

/// "true" or "false".
pub open spec fn bool_text(b: bool) -> Seq<char> {
    if b { "true"@ } else { "false"@ }
}

/// How the `get` command describes a state: a light's kind, power, and the brightness, colour
/// temperature and colour it has; a switch's kind, whether it is pressed and its battery; a
/// sensor's kind and readings; a device without state as a virtual controller; anything else as
/// its `Debug` form.
pub open spec fn describe_spec(state: DeviceStateValue) -> Seq<StateLineView> {
    match state {
        DeviceStateValue::Light(l) => text("Type: Light"@) + text("State: "@ + if l.is_on { "ON"@ } else { "OFF"@ })
            + optional_line(l.brightness, |b: u8| "Brightness: "@ + decimal(b as nat) + "%"@)
            + optional_line(l.color_temp, |t: u16| "Color Temperature: "@ + decimal(t as nat) + "K"@)
            + optional_line(l.rgb_color, |c: crate::state::RgbColor| "RGB Color: ("@ + decimal(c.r as nat) + ", "@
                + decimal(c.g as nat) + ", "@ + decimal(c.b as nat) + ")"@),
        DeviceStateValue::Switch(w) => text("Type: Switch"@) + text("Pressed: "@ + bool_text(w.is_pressed))
            + optional_line(w.battery_level, |b: u8| "Battery: "@ + decimal(b as nat) + "%"@),
        DeviceStateValue::Sensor(c) => text("Type: Sensor"@)
            + match c.temperature_bits { Some(t) => seq![StateLineView::Temperature(t)], None => Seq::empty() }
            + match c.humidity_bits { Some(h) => seq![StateLineView::Humidity(h)], None => Seq::empty() },
        DeviceStateValue::Empty => text("Type: Virtual Controller (no state)"@),
        _ => seq![StateLineView::Raw],
    }
}

/// A text line from a prefix, a number and a suffix.
fn number_line(prefix: &str, n: u64, suffix: &str) -> (res: StateLine)
    ensures
        state_line_view(res) == StateLineView::Text(prefix@ + decimal(n as nat) + suffix@),
{
    let mut s = String::from_str(prefix);
    push_decimal(&mut s, n);
    s.append(suffix);
    StateLine::Text(s)
}

/// The lines the `get` command prints for a state.
pub fn describe_state(state: &DeviceStateValue) -> (res: Vec<StateLine>)
    ensures
        res@.map_values(|l: StateLine| state_line_view(l)) == describe_spec(*state),
{
    let mut lines: Vec<StateLine> = Vec::new();
    match state {
        DeviceStateValue::Light(l) => {
            lines.push(StateLine::Text(String::from_str("Type: Light")));
            lines.push(StateLine::Text(if l.is_on { String::from_str("State: ON") } else { String::from_str("State: OFF") }));
            proof {
                reveal_strlit("State: ON");
                reveal_strlit("State: OFF");
                reveal_strlit("State: ");
                reveal_strlit("ON");
                reveal_strlit("OFF");
                assert("State: ON"@ =~= "State: "@ + "ON"@);
                assert("State: OFF"@ =~= "State: "@ + "OFF"@);
            }
            match l.brightness {
                Some(b) => lines.push(number_line("Brightness: ", b as u64, "%")),
                None => {},
            }
            match l.color_temp {
                Some(t) => lines.push(number_line("Color Temperature: ", t as u64, "K")),
                None => {},
            }
            match l.rgb_color {
                Some(c) => {
                    let mut s = String::from_str("RGB Color: (");
                    push_decimal(&mut s, c.r as u64);
                    s.append(", ");
                    push_decimal(&mut s, c.g as u64);
                    s.append(", ");
                    push_decimal(&mut s, c.b as u64);
                    s.append(")");
                    lines.push(StateLine::Text(s));
                },
                None => {},
            }
        },
        DeviceStateValue::Switch(w) => {
            lines.push(StateLine::Text(String::from_str("Type: Switch")));
            let mut p = String::from_str("Pressed: ");
            p.append(if w.is_pressed { "true" } else { "false" });
            lines.push(StateLine::Text(p));
            match w.battery_level {
                Some(b) => lines.push(number_line("Battery: ", b as u64, "%")),
                None => {},
            }
        },
        DeviceStateValue::Sensor(c) => {
            lines.push(StateLine::Text(String::from_str("Type: Sensor")));
            match c.temperature_bits {
                Some(t) => lines.push(StateLine::Temperature(t)),
                None => {},
            }
            match c.humidity_bits {
                Some(h) => lines.push(StateLine::Humidity(h)),
                None => {},
            }
        },
        DeviceStateValue::Empty => lines.push(StateLine::Text(String::from_str("Type: Virtual Controller (no state)"))),
        _ => lines.push(StateLine::Raw),
    }
    assert(lines@.map_values(|l: StateLine| state_line_view(l)) =~= describe_spec(*state));
    lines
}

/// The lines the `light` command prints for a light's new state: power, then the brightness and
/// colour temperature it has.
pub open spec fn new_state_spec(l: LightState) -> Seq<Seq<char>> {
    seq!["  On: "@ + bool_text(l.is_on)]
        + match l.brightness { Some(b) => seq!["  Brightness: "@ + decimal(b as nat) + "%"@], None => Seq::empty() }
        + match l.color_temp { Some(t) => seq!["  Color temp: "@ + decimal(t as nat) + "K"@], None => Seq::empty() }
}

/// The lines printed for a light's new state after the `light` command.
pub fn new_state_lines(l: &LightState) -> (res: Vec<String>)
    ensures
        string_views(res@) == new_state_spec(*l),
{
    let mut lines: Vec<String> = Vec::new();
    let mut on = String::from_str("  On: ");
    on.append(if l.is_on { "true" } else { "false" });
    lines.push(on);
    match l.brightness {
        Some(b) => {
            let mut s = String::from_str("  Brightness: ");
            push_decimal(&mut s, b as u64);
            s.append("%");
            lines.push(s);
        },
        None => {},
    }
    match l.color_temp {
        Some(t) => {
            let mut s = String::from_str("  Color temp: ");
            push_decimal(&mut s, t as u64);
            s.append("K");
            lines.push(s);
        },
        None => {},
    }
    assert(string_views(lines@) =~= new_state_spec(*l));
    lines
}

/// The line announcing a subscription: to every device when no id is given, else to the ids.
pub open spec fn subscribe_banner_spec(ids: Seq<Seq<char>>) -> Seq<char> {
    if ids.len() == 0 {
        "📡 Subscribing to ALL device events"@
    } else {
        "📡 Subscribing to devices: "@ + joined(ids, ", "@)
    }
}

/// The line announcing a subscription.
pub fn subscribe_banner(device_ids: &Vec<String>) -> (res: String)
    ensures
        res@ == subscribe_banner_spec(string_views(device_ids@)),
{
    if device_ids.len() == 0 {
        String::from_str("📡 Subscribing to ALL device events")
    } else {
        let mut s = String::from_str("📡 Subscribing to devices: ");
        let j = join_strings(device_ids, ", ");
        s.append(j.as_str());
        s
    }
}

/// A press kind in its `Debug` form.
pub open spec fn press_type_name(p: ButtonPressType) -> Seq<char> {
    match p {
        ButtonPressType::SinglePress => "SinglePress"@,
        ButtonPressType::DoublePress => "DoublePress"@,
        ButtonPressType::LongPress => "LongPress"@,
    }
}

/// A press kind in its `Debug` form.
pub fn press_type_text(p: ButtonPressType) -> (res: &'static str)
    ensures
        res@ == press_type_name(p),
{
    match p {
        ButtonPressType::SinglePress => "SinglePress",
        ButtonPressType::DoublePress => "DoublePress",
        ButtonPressType::LongPress => "LongPress",
    }
}

/// What an event line says happened to device `id`. `value_text` is the new value of a changed
/// attribute as JSON text and `other_text` the kind of an event without a line of its own in its
/// `Debug` form; the caller writes both.
pub open spec fn event_summary_spec(id: Seq<char>, e: EventTypeView, value_text: Seq<char>, other_text: Seq<char>)
    -> Seq<char>
{
    match e {
        EventTypeView::AttributeChanged { attribute, .. } =>
            "🔄 ATTRIBUTE CHANGED - "@ + id + " "@ + attribute + ": "@ + value_text,
        EventTypeView::DeviceAdded { device_type } => "➕ DEVICE ADDED - "@ + id + " ("@ + device_type + ")"@,
        EventTypeView::DeviceRemoved => "➖ DEVICE REMOVED - "@ + id,
        EventTypeView::DeviceReachabilityChanged { reachable } =>
            "📶 CONNECTIVITY - "@ + id + " is now "@ + (if reachable { "ONLINE"@ } else { "OFFLINE"@ }),
        EventTypeView::ButtonPressed { button_id, press_type } =>
            "🔘 BUTTON PRESS - "@ + id + " "@ + button_id + " ("@ + press_type_name(press_type) + ")"@,
        EventTypeView::SceneActivated { scene_id } => "🎬 SCENE ACTIVATED - "@ + id + " ("@ + scene_id + ")"@,
        EventTypeView::BatteryLevelChanged { new_level, .. } =>
            "🔋 BATTERY - "@ + id + " at "@ + decimal(new_level as nat) + "%"@,
        EventTypeView::StateChanged { .. } => "📨 "@ + other_text + " - "@ + id,
    }
}

/// The line the client prints for an event: `⚡ [time] ` and what happened.
pub open spec fn event_print_spec(time_text: Seq<char>, e: DeviceEventView, value_text: Seq<char>, other_text: Seq<char>)
    -> Seq<char>
{
    "⚡ ["@ + time_text + "] "@ + event_summary_spec(e.device_id, e.event_type, value_text, other_text)
}

/// The line the client prints for an event, given its time of day, the changed value as JSON
/// text and the event's kind in its `Debug` form.
pub fn event_print_line(event: &DeviceEvent, time_text: &str, value_text: &str, other_text: &str) -> (res: String)
    ensures
        res@ == event_print_spec(time_text@, event@, value_text@, other_text@),
{
    let mut s = String::from_str("⚡ [");
    s.append(time_text);
    s.append("] ");
    let ghost head = s@;
    let id = event.device_id.as_str();
    match &event.event_type {
        EventType::AttributeChanged { attribute, .. } => {
            s.append("🔄 ATTRIBUTE CHANGED - ");
            s.append(id);
            s.append(" ");
            s.append(attribute.as_str());
            s.append(": ");
            s.append(value_text);
        },
        EventType::DeviceAdded { device_type } => {
            s.append("➕ DEVICE ADDED - ");
            s.append(id);
            s.append(" (");
            s.append(device_type.as_str());
            s.append(")");
        },
        EventType::DeviceRemoved => {
            s.append("➖ DEVICE REMOVED - ");
            s.append(id);
        },
        EventType::DeviceReachabilityChanged { reachable } => {
            s.append("📶 CONNECTIVITY - ");
            s.append(id);
            s.append(" is now ");
            s.append(if *reachable { "ONLINE" } else { "OFFLINE" });
        },
        EventType::ButtonPressed { button_id, press_type } => {
            s.append("🔘 BUTTON PRESS - ");
            s.append(id);
            s.append(" ");
            s.append(button_id.as_str());
            s.append(" (");
            s.append(press_type_text(*press_type));
            s.append(")");
        },
        EventType::SceneActivated { scene_id } => {
            s.append("🎬 SCENE ACTIVATED - ");
            s.append(id);
            s.append(" (");
            s.append(scene_id.as_str());
            s.append(")");
        },
        EventType::BatteryLevelChanged { new_level, .. } => {
            s.append("🔋 BATTERY - ");
            s.append(id);
            s.append(" at ");
            push_decimal(&mut s, *new_level as u64);
            s.append("%");
        },
        EventType::StateChanged { .. } => {
            s.append("📨 ");
            s.append(other_text);
            s.append(" - ");
            s.append(id);
        },
    }
    assert(s@ =~= event_print_spec(time_text@, event@, value_text@, other_text@));
    s
}

} // verus!
