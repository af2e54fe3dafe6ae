//! The terminal client's state and decisions: device and tab navigation, favorites, the event
//! log, key handling, and the small renderings of brightness.
use vstd::prelude::*;
use vstd::string::{StrSliceExecFns, StringExecFns, StringSliceAdditionalSpecFns};
use vstd::utf8::encode_utf8;
use crate::client::ClientRequest;
use crate::light_group::contains_id;
use crate::state::{DeviceInfo, DeviceStateValue, DeviceType, Timestamp};
use crate::store::string_views;
use crate::text::{decimal, push_decimal, str_eq};

verus! {

/// The colour a brightness is drawn in.
#[derive(Clone, Copy, Debug, PartialEq, Eq, Structural)]
pub enum BarColor {
    Red,
    Yellow,
    Green,
    Cyan,
    White,
}

/// The colour of a brightness: red up to 20, yellow to 40, green to 70, cyan to 90, white above.
pub open spec fn color_of_brightness(b: u8) -> BarColor {
    if b <= 20 {
        BarColor::Red
    } else if b <= 40 {
        BarColor::Yellow
    } else if b <= 70 {
        BarColor::Green
    } else if b <= 90 {
        BarColor::Cyan
    } else {
        BarColor::White
    }
}

/// The colour a brightness is drawn in.
pub fn brightness_color(brightness: u8) -> (res: BarColor)
    ensures
        res == color_of_brightness(brightness),
{
    if brightness <= 20 {
        BarColor::Red
    } else if brightness <= 40 {
        BarColor::Yellow
    } else if brightness <= 70 {
        BarColor::Green
    } else if brightness <= 90 {
        BarColor::Cyan
    } else {
        BarColor::White
    }
}

/// How many of the ten cells of a brightness bar are filled: the brightness in tenths, rounded
/// to the nearest, halves up.
pub open spec fn filled_cells(brightness: u8) -> int {
    (brightness + 5) / 10
}

/// A ten-cell bar: filled cells first, then empty ones.
pub open spec fn mini_bar(brightness: u8) -> Seq<char> {
    Seq::new(10, |i: int| if i < filled_cells(brightness) { '█' } else { '░' })
}

/// A ten-cell bar showing a brightness.
pub fn create_mini_brightness_bar(brightness: u8) -> (res: String)
    ensures
        res@ == mini_bar(brightness),
{
    let filled: u16 = (brightness as u16 + 5) / 10;
    let mut bar = String::new();
    let mut i: u16 = 0;
    while i < 10
        invariant
            i <= 10,
            filled == filled_cells(brightness),
            bar@ == mini_bar(brightness).take(i as int),
        decreases 10 - i,
    {
        if i < filled {
            bar.push('█');
        } else {
            bar.push('░');
        }
        assert(mini_bar(brightness).take(i as int + 1) =~= mini_bar(brightness).take(i as int).push(mini_bar(brightness)[i as int]));
        i = i + 1;
    }
    assert(mini_bar(brightness).take(10) =~= mini_bar(brightness));
    bar
}

/// The colour of a device card's border.
#[derive(Clone, Copy, Debug, PartialEq, Eq, Structural)]
pub enum CardBorder {
    Yellow,
    Cyan,
    Green,
    DarkGray,
}

/// A card's border: yellow when selected or for a light that is on, cyan for a climate sensor,
/// green for an outlet that is on, dark grey otherwise.
pub open spec fn card_border_spec(state: DeviceStateValue, selected: bool) -> CardBorder {
    if selected {
        CardBorder::Yellow
    } else {
        match state {
            DeviceStateValue::Light(l) => if l.is_on { CardBorder::Yellow } else { CardBorder::DarkGray },
            DeviceStateValue::Sensor(_) => CardBorder::Cyan,
            DeviceStateValue::Outlet(o) => if o.is_on { CardBorder::Green } else { CardBorder::DarkGray },
            _ => CardBorder::DarkGray,
        }
    }
}

/// The border colour of a device's card.
pub fn card_border(state: &DeviceStateValue, selected: bool) -> (res: CardBorder)
    ensures
        res == card_border_spec(*state, selected),
{
    if selected {
        return CardBorder::Yellow;
    }
    match state {
        DeviceStateValue::Light(l) => if l.is_on { CardBorder::Yellow } else { CardBorder::DarkGray },
        DeviceStateValue::Sensor(_) => CardBorder::Cyan,
        DeviceStateValue::Outlet(o) => if o.is_on { CardBorder::Green } else { CardBorder::DarkGray },
        _ => CardBorder::DarkGray,
    }
}

/// The icon of a device kind: a bulb for lights, a thermometer for sensors, a button for
/// switches, a plug for outlets, a question mark for anything else.
pub open spec fn device_icon_spec(t: DeviceType) -> Seq<char> {
    match t {
        DeviceType::Light => "💡"@,
        DeviceType::Sensor => "🌡️"@,
        DeviceType::Switch => "🔘"@,
        DeviceType::Outlet => "🔌"@,
        _ => "❓"@,
    }
}

/// The icon a device card shows for the device's kind.
pub fn device_icon(t: &DeviceType) -> (res: String)
    ensures
        res@ == device_icon_spec(*t),
{
    match t {
        DeviceType::Light => String::from_str("💡"),
        DeviceType::Sensor => String::from_str("🌡️"),
        DeviceType::Switch => String::from_str("🔘"),
        DeviceType::Outlet => String::from_str("🔌"),
        _ => String::from_str("❓"),
    }
}

/// The icon a device card shows for reachability: green when reachable, red otherwise.
pub fn reachability_icon(reachable: bool) -> (res: String)
    ensures
        res@ == if reachable { "🟢"@ } else { "🔴"@ },
{
    if reachable { String::from_str("🟢") } else { String::from_str("🔴") }
}

/// The value half of a line of a device's status card.
#[derive(Debug)]
pub enum StatusValue {
    /// Shown as it is.
    Text(String),
    /// A brightness: its bar, then a space, the percentage and "%", drawn in the brightness's colour.
    Brightness { bar: String, percent: String, color: BarColor },
    /// A temperature reading, the bits of a 32-bit float in degrees Celsius, shown with one decimal.
    Celsius(u32),
    /// A humidity reading, the bits of a 32-bit float, shown as a percentage.
    Humidity(u32),
}

/// A line of a device's status card: a label and a value, highlighted (`lit`) or dimmed.
#[derive(Debug)]
pub struct StatusLine {
    pub label: String,
    pub value: StatusValue,
    pub lit: bool,
}

/// The content of a [`StatusValue`].
pub enum StatusValueView {
    Text(Seq<char>),
    Brightness(Seq<char>, Seq<char>, BarColor),
    Celsius(u32),
    Humidity(u32),
}

/// The content of a status value.
pub open spec fn status_value_view(v: StatusValue) -> StatusValueView {
    match v {
        StatusValue::Text(t) => StatusValueView::Text(t@),
        StatusValue::Brightness { bar, percent, color } => StatusValueView::Brightness(bar@, percent@, color),
        StatusValue::Celsius(t) => StatusValueView::Celsius(t),
        StatusValue::Humidity(h) => StatusValueView::Humidity(h),
    }
}

/// The content of a status line: label, value, highlighted.
pub open spec fn status_line_view(l: StatusLine) -> (Seq<char>, StatusValueView, bool) {
    (l.label@, status_value_view(l.value), l.lit)
}

/// A line with a fixed text value.
pub open spec fn text_line(label: Seq<char>, text: Seq<char>, lit: bool) -> (Seq<char>, StatusValueView, bool) {
    (label, StatusValueView::Text(text), lit)
}

/// The two lines of a device's status card. A light shows its power ("⚡ ON" or "OFF") and its
/// brightness as a bar and percentage ("N/A" without one); a climate sensor its temperature and
/// humidity ("--" for a missing reading); an outlet its power ("🔌 ON" or "OFF") and status
/// ("POWERED" or "IDLE"); a switch whether it is pressed ("🔘 PRESSED" or "○ IDLE") over an empty
/// line; anything else two empty lines. Present values are highlighted, absent or off ones dimmed.
pub open spec fn device_status_spec(state: DeviceStateValue) -> Seq<(Seq<char>, StatusValueView, bool)> {
    match state {
        DeviceStateValue::Light(l) => seq![
            if l.is_on { text_line("POWER: "@, "⚡ ON"@, true) } else { text_line("POWER: "@, "OFF"@, false) },
            match l.brightness {
                Some(b) => ("DIM: "@, StatusValueView::Brightness(mini_bar(b), " "@ + crate::text::decimal(b as nat) + "%"@,
                    color_of_brightness(b)), true),
                None => text_line("DIM: "@, "N/A"@, false),
            }],
        DeviceStateValue::Sensor(c) => seq![
            match c.temperature_bits {
                Some(t) => ("TEMP: "@, StatusValueView::Celsius(t), true),
                None => text_line("TEMP: "@, "--"@, false),
            },
            match c.humidity_bits {
                Some(h) => ("HUM: "@, StatusValueView::Humidity(h), true),
                None => text_line("HUM: "@, "--"@, false),
            }],
        DeviceStateValue::Outlet(o) => if o.is_on {
            seq![text_line("OUTLET: "@, "🔌 ON"@, true), text_line("STATUS: "@, "POWERED"@, true)]
        } else {
            seq![text_line("OUTLET: "@, "OFF"@, false), text_line("STATUS: "@, "IDLE"@, false)]
        },
        DeviceStateValue::Switch(w) => seq![
            if w.is_pressed { text_line("SWITCH: "@, "🔘 PRESSED"@, true) } else { text_line("SWITCH: "@, "○ IDLE"@, false) },
            text_line(""@, ""@, false)],
        _ => seq![text_line(""@, ""@, false), text_line(""@, ""@, false)],
    }
}

fn text_status(label: &str, text: &str, lit: bool) -> (res: StatusLine)
    ensures
        status_line_view(res) == text_line(label@, text@, lit),
{
    StatusLine { label: String::from_str(label), value: StatusValue::Text(String::from_str(text)), lit }
}

/// The two lines of a device's status card.
pub fn device_status(state: &DeviceStateValue) -> (res: Vec<StatusLine>)
    ensures
        res@.map_values(|l: StatusLine| status_line_view(l)) == device_status_spec(*state),
{
    let mut lines: Vec<StatusLine> = Vec::new();
    match state {
        DeviceStateValue::Light(l) => {
            lines.push(if l.is_on { text_status("POWER: ", "⚡ ON", true) } else { text_status("POWER: ", "OFF", false) });
            lines.push(match l.brightness {
                Some(b) => {
                    let mut percent = String::from_str(" ");
                    push_decimal(&mut percent, b as u64);
                    percent.append("%");
                    StatusLine {
                        label: String::from_str("DIM: "),
                        value: StatusValue::Brightness { bar: create_mini_brightness_bar(b), percent, color: brightness_color(b) },
                        lit: true,
                    }
                },
                None => text_status("DIM: ", "N/A", false),
            });
        },
        DeviceStateValue::Sensor(c) => {
            lines.push(match c.temperature_bits {
                Some(t) => StatusLine { label: String::from_str("TEMP: "), value: StatusValue::Celsius(t), lit: true },
                None => text_status("TEMP: ", "--", false),
            });
            lines.push(match c.humidity_bits {
                Some(h) => StatusLine { label: String::from_str("HUM: "), value: StatusValue::Humidity(h), lit: true },
                None => text_status("HUM: ", "--", false),
            });
        },
        DeviceStateValue::Outlet(o) => {
            if o.is_on {
                lines.push(text_status("OUTLET: ", "🔌 ON", true));
                lines.push(text_status("STATUS: ", "POWERED", true));
            } else {
                lines.push(text_status("OUTLET: ", "OFF", false));
                lines.push(text_status("STATUS: ", "IDLE", false));
            }
        },
        DeviceStateValue::Switch(w) => {
            lines.push(if w.is_pressed { text_status("SWITCH: ", "🔘 PRESSED", true) } else { text_status("SWITCH: ", "○ IDLE", false) });
            lines.push(text_status("", "", false));
        },
        _ => {
            lines.push(text_status("", "", false));
            lines.push(text_status("", "", false));
        },
    }
    assert(lines@.map_values(|l: StatusLine| status_line_view(l)) =~= device_status_spec(*state));
    lines
}

/// A string whose UTF-8 encoding is at most `max_len` bytes stays; a longer one keeps its first
/// `max_len - 1` bytes and gains an ellipsis.
pub open spec fn truncated(s: &str, max_len: usize) -> Seq<u8> {
    if s.len() <= max_len {
        s.spec_bytes()
    } else {
        s.spec_bytes().take(max_len - 1) + encode_utf8(seq!['…'])
    }
}

/// Shortens `s` to fit `max_len` bytes, marking a cut with an ellipsis. A cut must fall between
/// characters.
pub fn truncate_string(s: &str, max_len: usize) -> (res: String)
    requires
        s.len() > max_len ==> max_len >= 1
            && vstd::utf8::is_char_boundary(s.spec_bytes(), max_len - 1),
    ensures
        encode_utf8(res@) == truncated(s, max_len),
{
    if s.len() <= max_len {
        let r = String::from_str(s);
        assert(encode_utf8(r@) == s.spec_bytes());
        r
    } else {
        let (head, _) = s.split_at(max_len - 1);
        let mut r = String::from_str(head);
        r.append("…");
        proof {
            reveal_strlit("…");
            assert("…"@ =~= seq!['…']);
            lemma_encode_concat(head@, "…"@);
            assert(head.spec_bytes() == encode_utf8(head@));
            assert(s.spec_bytes().take(max_len - 1) =~= s.spec_bytes().subrange(0, max_len - 1));
            assert(encode_utf8(r@) == encode_utf8(head@) + encode_utf8(seq!['…']));
        }
        r
    }
}

/// Encoding a concatenation encodes each part.
proof fn lemma_encode_concat(a: Seq<char>, b: Seq<char>)
    ensures
        encode_utf8(a + b) == encode_utf8(a) + encode_utf8(b),
    decreases a.len(),
{
    if a.len() == 0 {
        assert(a + b =~= b);
        assert(encode_utf8(a) + encode_utf8(b) =~= encode_utf8(b));
    } else {
        assert((a + b)[0] == a[0]);
        assert((a + b).drop_first() =~= a.drop_first() + b);
        lemma_encode_concat(a.drop_first(), b);
        assert(encode_utf8(a + b) =~= vstd::utf8::encode_scalar(a[0] as u32) + (encode_utf8(a.drop_first()) + encode_utf8(b)));
    }
}

/// A device as the terminal client holds it.
#[derive(Debug)]
pub struct AppDevice {
    pub info: DeviceInfo,
    pub state: DeviceStateValue,
    /// When the client last heard of it, in milliseconds.
    pub last_updated: Timestamp,
}

/// How many tabs the client has.
pub open spec fn tab_count() -> usize {
    5
}

/// The oldest event is dropped once the log holds more than this many.
pub open spec fn event_log_limit() -> nat {
    50
}

/// The terminal client's state.
pub struct TuiApp {
    pub devices: Vec<AppDevice>,
    pub selected_device: usize,
    pub current_tab: usize,
    pub server_url: String,
    pub status_message: String,
    pub show_help: bool,
    /// Favorite device ids, in display order.
    pub favorites: Vec<String>,
    pub events: Vec<String>,
    pub scroll_offset: usize,
    pub should_quit: bool,
}

/// The ids of a device list.
pub open spec fn device_ids(d: Seq<AppDevice>) -> Seq<Seq<char>> {
    d.map_values(|a: AppDevice| a.info.device_id@)
}

/// The first position of `id` in `ids`.
pub open spec fn position_of(ids: Seq<Seq<char>>, id: Seq<char>) -> Option<int> {
    if exists|i: int| 0 <= i < ids.len() && ids[i] == id {
        Some(choose|i: int| 0 <= i < ids.len() && ids[i] == id && forall|j: int| 0 <= j < i ==> ids[j] != id)
    } else {
        None
    }
}

proof fn lemma_position_at(ids: Seq<Seq<char>>, id: Seq<char>, i: int)
    requires
        0 <= i < ids.len(),
        ids[i] == id,
        forall|j: int| 0 <= j < i ==> ids[j] != id,
    ensures
        position_of(ids, id) == Some(i),
{
    let c = choose|c: int| 0 <= c < ids.len() && ids[c] == id && forall|j: int| 0 <= j < c ==> ids[j] != id;
    assert(0 <= c < ids.len() && ids[c] == id && forall|j: int| 0 <= j < c ==> ids[j] != id);
    if c < i {
        assert(ids[c] != id);
    }
    if c > i {
        assert(ids[i] != id);
    }
}

/// The first position of `id` among `v`'s strings.
fn find_string(v: &Vec<String>, id: &str) -> (res: Option<usize>)
    ensures
        match position_of(string_views(v@), id@) {
            Some(i) => res == Some(i as usize),
            None => res is None,
        },
        res matches Some(i) ==> i < v@.len() && string_views(v@)[i as int] == id@
            && forall|j: int| 0 <= j < i ==> string_views(v@)[j] != id@,
        res is None ==> forall|j: int| 0 <= j < v@.len() ==> string_views(v@)[j] != id@,
{
    let mut i: usize = 0;
    while i < v.len()
        invariant
            i <= v@.len(),
            forall|j: int| 0 <= j < i ==> string_views(v@)[j] != id@,
        decreases v@.len() - i,
    {
        assert(string_views(v@)[i as int] == v@[i as int]@);
        if str_eq(v[i].as_str(), id) {
            proof { lemma_position_at(string_views(v@), id@, i as int); }
            return Some(i);
        }
        i = i + 1;
    }
    None
}

/// The first position of device `id` in a device list.
fn find_device(d: &Vec<AppDevice>, id: &str) -> (res: Option<usize>)
    ensures
        match position_of(device_ids(d@), id@) {
            Some(i) => res == Some(i as usize),
            None => res is None,
        },
        res matches Some(i) ==> i < d@.len() && device_ids(d@)[i as int] == id@
            && forall|j: int| 0 <= j < i ==> device_ids(d@)[j] != id@,
        res is None ==> forall|j: int| 0 <= j < d@.len() ==> device_ids(d@)[j] != id@,
{
    let mut i: usize = 0;
    while i < d.len()
        invariant
            i <= d@.len(),
            forall|j: int| 0 <= j < i ==> device_ids(d@)[j] != id@,
        decreases d@.len() - i,
    {
        assert(device_ids(d@)[i as int] == d@[i as int].info.device_id@);
        if str_eq(d[i].info.device_id.as_str(), id) {
            proof { lemma_position_at(device_ids(d@), id@, i as int); }
            return Some(i);
        }
        i = i + 1;
    }
    None
}

/// The selection after moving to favorite position `k`: that favorite's first device, or the
/// selection unchanged when no device has its id.
pub open spec fn select_favorite(devices: Seq<AppDevice>, favorites: Seq<Seq<char>>, k: int, selected: usize) -> usize {
    match position_of(device_ids(devices), favorites[k]) {
        Some(i) => i as usize,
        None => selected,
    }
}

/// The selection after moving down: in the dashboard, the device of the next favorite (wrapping,
/// counting from the first favorite when the selected device is none); elsewhere the next device,
/// wrapping.
pub open spec fn next_selection(a: TuiApp) -> usize {
    let favs = string_views(a.favorites@);
    if a.current_tab == 0 {
        if favs.len() == 0 || a.selected_device >= a.devices@.len() {
            a.selected_device
        } else {
            let cur = match position_of(favs, a.devices@[a.selected_device as int].info.device_id@) { Some(p) => p, None => 0 };
            select_favorite(a.devices@, favs, (cur + 1) % (favs.len() as int), a.selected_device)
        }
    } else if a.devices@.len() == 0 {
        a.selected_device
    } else {
        ((a.selected_device + 1) % (a.devices@.len() as int)) as usize
    }
}

/// The selection after moving up: as [`next_selection`], the other way.
pub open spec fn previous_selection(a: TuiApp) -> usize {
    let favs = string_views(a.favorites@);
    if a.current_tab == 0 {
        if favs.len() == 0 || a.selected_device >= a.devices@.len() {
            a.selected_device
        } else {
            let cur = match position_of(favs, a.devices@[a.selected_device as int].info.device_id@) { Some(p) => p, None => 0 };
            select_favorite(a.devices@, favs, if cur == 0 { favs.len() - 1 } else { cur - 1 }, a.selected_device)
        }
    } else if a.devices@.len() == 0 {
        a.selected_device
    } else if a.selected_device == 0 {
        (a.devices@.len() - 1) as usize
    } else {
        (a.selected_device - 1) as usize
    }
}

/// The event log after adding `line`: the oldest line dropped when it grows past the limit.
pub open spec fn log_after(events: Seq<Seq<char>>, line: Seq<char>) -> Seq<Seq<char>> {
    let e = events.push(line);
    if e.len() > event_log_limit() { e.drop_first() } else { e }
}

/// An event line: the time stamp, a colon and a space, the text.
pub open spec fn event_line(stamp: Seq<char>, text: Seq<char>) -> Seq<char> {
    stamp + ": "@ + text
}

impl TuiApp {
    /// A client for `server_url` with the favorites it remembered: first tab, first device, no
    /// devices yet.
    pub fn new(server_url: String, favorites: Vec<String>) -> (res: TuiApp)
        ensures
            res.devices@.len() == 0,
            res.selected_device == 0,
            res.current_tab == 0,
            res.server_url@ == server_url@,
            string_views(res.favorites@) == string_views(favorites@),
            res.events@.len() == 0,
            res.scroll_offset == 0,
            !res.show_help,
            !res.should_quit,
    {
        TuiApp {
            devices: Vec::new(),
            selected_device: 0,
            current_tab: 0,
            server_url,
            status_message: String::from_str("🔥 VIBEC0RE TUI Starting..."),
            show_help: false,
            favorites,
            events: Vec::new(),
            scroll_offset: 0,
            should_quit: false,
        }
    }

    /// Adds an event line stamped `stamp`, dropping the oldest once there are more than fifty.
    pub fn add_event(&mut self, stamp: &str, text: &str)
        ensures
            string_views(final(self).events@) == log_after(string_views(old(self).events@), event_line(stamp@, text@)),
            final(self).devices@ == old(self).devices@,
            final(self).favorites@ == old(self).favorites@,
            final(self).selected_device == old(self).selected_device,
            final(self).current_tab == old(self).current_tab,
            final(self).scroll_offset == old(self).scroll_offset,
            final(self).show_help == old(self).show_help,
    {
        let mut line = String::from_str(stamp);
        line.append(": ");
        line.append(text);
        let ghost before = string_views(self.events@);
        self.events.push(line);
        assert(string_views(self.events@) =~= before.push(event_line(stamp@, text@)));
        if self.events.len() > 50 {
            let ghost full = string_views(self.events@);
            self.events.remove(0);
            assert(string_views(self.events@) =~= full.drop_first());
        }
    }

    /// Moves to the next tab, wrapping, and scrolls to the top.
    pub fn next_tab(&mut self)
        requires
            old(self).current_tab < tab_count(),
        ensures
            final(self).current_tab == (old(self).current_tab + 1) % (tab_count() as int),
            final(self).scroll_offset == 0,
            final(self).devices@ == old(self).devices@,
            final(self).selected_device == old(self).selected_device,
            final(self).favorites@ == old(self).favorites@,
            final(self).events@ == old(self).events@,
    {
        self.current_tab = (self.current_tab + 1) % 5;
        self.scroll_offset = 0;
    }

    /// Moves to the previous tab, wrapping, and scrolls to the top.
    pub fn previous_tab(&mut self)
        requires
            old(self).current_tab < tab_count(),
        ensures
            final(self).current_tab == if old(self).current_tab == 0 { tab_count() - 1 } else { old(self).current_tab - 1 },
            final(self).scroll_offset == 0,
            final(self).devices@ == old(self).devices@,
            final(self).selected_device == old(self).selected_device,
            final(self).favorites@ == old(self).favorites@,
            final(self).events@ == old(self).events@,
    {
        self.current_tab = if self.current_tab == 0 { 4 } else { self.current_tab - 1 };
        self.scroll_offset = 0;
    }

    /// Moves the selection down.
    pub fn next_device(&mut self)
        requires
            old(self).selected_device < usize::MAX,
        ensures
            final(self).selected_device == next_selection(*old(self)),
            final(self).devices@ == old(self).devices@,
            final(self).current_tab == old(self).current_tab,
            final(self).favorites@ == old(self).favorites@,
            final(self).events@ == old(self).events@,
            final(self).scroll_offset == old(self).scroll_offset,
    {
        if self.current_tab == 0 {
            if self.favorites.len() == 0 || self.selected_device >= self.devices.len() {
                return;
            }
            let cur = match find_string(&self.favorites, self.devices[self.selected_device].info.device_id.as_str()) {
                Some(p) => p,
                None => 0,
            };
            let k = (cur + 1) % self.favorites.len();
            proof { assert(string_views(self.favorites@)[k as int] == self.favorites@[k as int]@); }
            match find_device(&self.devices, self.favorites[k].as_str()) {
                Some(i) => self.selected_device = i,
                None => {},
            }
        } else if self.devices.len() > 0 {
            self.selected_device = (self.selected_device + 1) % self.devices.len();
        }
    }

    /// Moves the selection up.
    pub fn previous_device(&mut self)
        ensures
            final(self).selected_device == previous_selection(*old(self)),
            final(self).devices@ == old(self).devices@,
            final(self).current_tab == old(self).current_tab,
            final(self).favorites@ == old(self).favorites@,
            final(self).events@ == old(self).events@,
            final(self).scroll_offset == old(self).scroll_offset,
    {
        if self.current_tab == 0 {
            if self.favorites.len() == 0 || self.selected_device >= self.devices.len() {
                return;
            }
            let cur = match find_string(&self.favorites, self.devices[self.selected_device].info.device_id.as_str()) {
                Some(p) => p,
                None => 0,
            };
            let k = if cur == 0 { self.favorites.len() - 1 } else { cur - 1 };
            proof { assert(string_views(self.favorites@)[k as int] == self.favorites@[k as int]@); }
            match find_device(&self.devices, self.favorites[k].as_str()) {
                Some(i) => self.selected_device = i,
                None => {},
            }
        } else if self.devices.len() > 0 {
            self.selected_device = if self.selected_device == 0 { self.devices.len() - 1 } else { self.selected_device - 1 };
        }
    }

    /// Adds device `device_id` to the favorites, at the end, or removes it when it is one;
    /// logs which, stamped `stamp`. True when it was added.
    pub fn toggle_favorite(&mut self, device_id: &str, stamp: &str) -> (added: bool)
        ensures
            added == !string_views(old(self).favorites@).contains(device_id@),
            string_views(final(self).favorites@) == match position_of(string_views(old(self).favorites@), device_id@) {
                Some(p) => string_views(old(self).favorites@).remove(p),
                None => string_views(old(self).favorites@).push(device_id@),
            },
            string_views(final(self).events@) == log_after(string_views(old(self).events@), event_line(stamp@,
                if added { "💖 Added "@ + device_id@ + " to favorites"@ } else { "💔 Removed "@ + device_id@ + " from favorites"@ })),
            final(self).devices@ == old(self).devices@,
            final(self).selected_device == old(self).selected_device,
            final(self).current_tab == old(self).current_tab,
    {
        let ghost favs = string_views(self.favorites@);
        match find_string(&self.favorites, device_id) {
            Some(pos) => {
                self.favorites.remove(pos);
                assert(string_views(self.favorites@) =~= favs.remove(pos as int));
                let mut m = String::from_str("💔 Removed ");
                m.append(device_id);
                m.append(" from favorites");
                proof { assert(favs[pos as int] == device_id@); }
                self.add_event(stamp, m.as_str());
                false
            },
            None => {
                self.favorites.push(String::from_str(device_id));
                assert(string_views(self.favorites@) =~= favs.push(device_id@));
                let mut m = String::from_str("💖 Added ");
                m.append(device_id);
                m.append(" to favorites");
                proof {
                    assert forall|j: int| 0 <= j < favs.len() implies favs[j] != device_id@ by {}
                }
                self.add_event(stamp, m.as_str());
                true
            },
        }
    }

    /// In the dashboard, swaps the selected device's favorite with the one before it and logs the
    /// move by the device's name; scrolls to the top. True when something moved.
    pub fn move_favorite_up(&mut self, stamp: &str) -> (moved: bool)
        ensures
            moved ==> old(self).current_tab == 0 && old(self).selected_device < old(self).devices@.len(),
            moved == (old(self).current_tab == 0 && old(self).selected_device < old(self).devices@.len()
                && (position_of(string_views(old(self).favorites@),
                    old(self).devices@[old(self).selected_device as int].info.device_id@) matches Some(p) && p > 0)),
            moved ==> ({
                let favs = string_views(old(self).favorites@);
                let p = position_of(favs, old(self).devices@[old(self).selected_device as int].info.device_id@)->0;
                &&& string_views(final(self).favorites@) == favs.update(p, favs[p - 1]).update(p - 1, favs[p])
                &&& final(self).scroll_offset == 0
                &&& string_views(final(self).events@) == log_after(string_views(old(self).events@),
                    event_line(stamp@, "⬆️ Moved "@ + old(self).devices@[old(self).selected_device as int].info.name@ + " up"@))
            }),
            !moved ==> final(self).favorites@ == old(self).favorites@ && final(self).events@ == old(self).events@
                && final(self).scroll_offset == old(self).scroll_offset,
            final(self).devices@ == old(self).devices@,
            final(self).selected_device == old(self).selected_device,
            final(self).current_tab == old(self).current_tab,
    {
        if self.current_tab != 0 || self.selected_device >= self.devices.len() {
            return false;
        }
        let ghost favs = string_views(self.favorites@);
        let id = self.devices[self.selected_device].info.device_id.clone();
        let name = self.devices[self.selected_device].info.name.clone();
        match find_string(&self.favorites, id.as_str()) {
            Some(pos) => {
                if pos > 0 {
                    let a = self.favorites[pos].clone();
                    let b = self.favorites[pos - 1].clone();
                    self.favorites.set(pos, b);
                    self.favorites.set(pos - 1, a);
                    assert(string_views(self.favorites@) =~= favs.update(pos as int, favs[pos - 1]).update(pos - 1, favs[pos as int]));
                    let mut m = String::from_str("⬆️ Moved ");
                    m.append(name.as_str());
                    m.append(" up");
                    self.add_event(stamp, m.as_str());
                    self.scroll_offset = 0;
                    true
                } else {
                    false
                }
            },
            None => false,
        }
    }

    /// In the dashboard, swaps the selected device's favorite with the one after it and logs the
    /// move by the device's name; scrolls to the top. True when something moved.
    pub fn move_favorite_down(&mut self, stamp: &str) -> (moved: bool)
        ensures
            moved == (old(self).current_tab == 0 && old(self).selected_device < old(self).devices@.len()
                && (position_of(string_views(old(self).favorites@),
                    old(self).devices@[old(self).selected_device as int].info.device_id@) matches Some(p)
                && p + 1 < old(self).favorites@.len())),
            moved ==> ({
                let favs = string_views(old(self).favorites@);
                let p = position_of(favs, old(self).devices@[old(self).selected_device as int].info.device_id@)->0;
                &&& string_views(final(self).favorites@) == favs.update(p, favs[p + 1]).update(p + 1, favs[p])
                &&& final(self).scroll_offset == 0
                &&& string_views(final(self).events@) == log_after(string_views(old(self).events@),
                    event_line(stamp@, "⬇️ Moved "@ + old(self).devices@[old(self).selected_device as int].info.name@ + " down"@))
            }),
            !moved ==> final(self).favorites@ == old(self).favorites@ && final(self).events@ == old(self).events@
                && final(self).scroll_offset == old(self).scroll_offset,
            final(self).devices@ == old(self).devices@,
            final(self).selected_device == old(self).selected_device,
            final(self).current_tab == old(self).current_tab,
    {
        if self.current_tab != 0 || self.selected_device >= self.devices.len() {
            return false;
        }
        let ghost favs = string_views(self.favorites@);
        let id = self.devices[self.selected_device].info.device_id.clone();
        let name = self.devices[self.selected_device].info.name.clone();
        match find_string(&self.favorites, id.as_str()) {
            Some(pos) => {
                if pos < self.favorites.len() - 1 {
                    let a = self.favorites[pos].clone();
                    let b = self.favorites[pos + 1].clone();
                    self.favorites.set(pos, b);
                    self.favorites.set(pos + 1, a);
                    assert(string_views(self.favorites@) =~= favs.update(pos as int, favs[pos + 1]).update(pos + 1, favs[pos as int]));
                    let mut m = String::from_str("⬇️ Moved ");
                    m.append(name.as_str());
                    m.append(" down");
                    self.add_event(stamp, m.as_str());
                    self.scroll_offset = 0;
                    true
                } else {
                    false
                }
            },
            None => false,
        }
    }

    /// Records a new state for device `device_id`, heard at `now`: its first entry takes it.
    pub fn update_device_state(&mut self, device_id: &str, new_state: DeviceStateValue, now: Timestamp)
        ensures
            final(self).devices@.len() == old(self).devices@.len(),
            match position_of(device_ids(old(self).devices@), device_id@) {
                Some(i) => final(self).devices@[i].state == new_state && final(self).devices@[i].last_updated == now
                    && final(self).devices@[i].info == old(self).devices@[i].info
                    && forall|j: int| 0 <= j < old(self).devices@.len() && j != i ==> #[trigger] final(self).devices@[j] == old(self).devices@[j],
                None => final(self).devices@ == old(self).devices@,
            },
            final(self).selected_device == old(self).selected_device,
            final(self).favorites@ == old(self).favorites@,
            final(self).events@ == old(self).events@,
    {
        match find_device(&self.devices, device_id) {
            Some(i) => {
                let mut d = self.devices.remove(i);
                d.state = new_state;
                d.last_updated = now;
                self.devices.insert(i, d);
            },
            None => {},
        }
    }

    /// The selected device, if the selection names one.
    pub fn get_selected_device(&self) -> (res: Option<&AppDevice>)
        ensures
            match res {
                Some(d) => self.selected_device < self.devices@.len() && *d == self.devices@[self.selected_device as int],
                None => self.selected_device >= self.devices@.len(),
            },
    {
        if self.selected_device < self.devices.len() { Some(&self.devices[self.selected_device]) } else { None }
    }
}

/// A key as the terminal client sees it.
#[derive(Clone, Copy, Debug, PartialEq, Eq, Structural)]
pub enum TuiKey {
    Char(char),
    Up,
    Down,
    Left,
    Right,
    Tab,
    BackTab,
    Enter,
    Esc,
    Other,
}

/// What a key press asks of the client besides changing its state: to quit, to send a request
/// (and, once it is sent, to log a line), or to save the favorites.
#[derive(Debug)]
pub struct KeyOutcome {
    pub quit: bool,
    pub request: Option<ClientRequest>,
    pub event_text: Option<String>,
    pub save_favorites: bool,
}

/// The brightness of a light state, 0 when unset or not a light.
pub open spec fn brightness_or_zero(s: DeviceStateValue) -> u8 {
    match s {
        DeviceStateValue::Light(l) => match l.brightness { Some(b) => b, None => 0u8 },
        _ => 0u8,
    }
}

/// A key that would raise a light's brightness past what a byte holds: the one input the key
/// handler cannot take.
pub open spec fn key_overflows(a: TuiApp, key: TuiKey, shift: bool) -> bool {
    &&& !a.show_help
    &&& (key == TuiKey::Right || key == TuiKey::Char('+'))
    &&& a.selected_device < a.devices@.len()
    &&& a.devices@[a.selected_device as int].info.device_type is Light
    &&& brightness_or_zero(a.devices@[a.selected_device as int].state) > 245
}

/// A request that sets only some fields of light `id`.
pub open spec fn is_light_request(r: Option<ClientRequest>, id: Seq<char>, is_on: Option<bool>, brightness: Option<u8>,
    color_temp: Option<u16>) -> bool {
    r matches Some(ClientRequest::SetLightState { device_id, is_on: o, brightness: b, color_temp: c, rgb_color: rgb })
        && device_id@ == id && o == is_on && b == brightness && c == color_temp && rgb is None
}

/// The brightness a preset key asks for.
pub open spec fn preset_of(c: char) -> Option<u8> {
    if c == '1' { Some(10u8) } else if c == '2' { Some(25u8) } else if c == '5' { Some(50u8) } else if c == '7' { Some(75u8) }
    else if c == '0' { Some(100u8) } else { None }
}

/// The line a key press asks to log once its request is sent, for the device selected in `app`:
/// toggling a light or an outlet, stepping brightness, choosing a white or a brightness preset.
/// Keys that send nothing log nothing.
pub open spec fn key_event_text(app: TuiApp, key: TuiKey) -> Option<Seq<char>> {
    if app.selected_device < app.devices@.len() {
        let d = app.devices@[app.selected_device as int];
        let light = d.info.device_type is Light;
        let outlet = d.info.device_type is Outlet;
        let b = brightness_or_zero(d.state);
        match key {
            TuiKey::Enter | TuiKey::Char(' ') => if light {
                Some("💡 Toggled "@ + d.info.name@)
            } else if outlet {
                Some("🔌 Toggled "@ + d.info.name@)
            } else {
                None
            },
            TuiKey::Right | TuiKey::Char('+') => if light {
                Some("🔆 Brightness up: "@ + decimal((if b + 10 < 100 { b + 10 } else { 100 }) as nat) + "%"@)
            } else {
                None
            },
            TuiKey::Left | TuiKey::Char('-') => if light {
                Some("🔅 Brightness down: "@ + decimal((if b >= 10 { b - 10 } else { 0 }) as nat) + "%"@)
            } else {
                None
            },
            TuiKey::Char('w') => if light { Some("🔵 Cool white (6500K)"@) } else { None },
            TuiKey::Char('r') => if light { Some("🟡 Warm white (2700K)"@) } else { None },
            TuiKey::Char(c) => if light && preset_of(c) is Some {
                if preset_of(c)->0 == 100 {
                    Some("💡 100% FULL BRIGHTNESS!"@)
                } else {
                    Some("💡 "@ + decimal(preset_of(c)->0 as nat) + "% brightness"@)
                }
            } else {
                None
            },
            _ => None,
        }
    } else {
        None
    }
}

/// Whether shift+Up (`up`) or shift+Down moves the selected device among the favourites: on the
/// favourites tab, with a selected device that is a favourite with a neighbour on that side.
pub open spec fn can_move_favorite(app: TuiApp, up: bool) -> bool {
    app.current_tab == 0 && app.selected_device < app.devices@.len()
        && (position_of(string_views(app.favorites@), app.devices@[app.selected_device as int].info.device_id@)
            matches Some(p) && if up { p > 0 } else { p + 1 < app.favorites@.len() })
}

/// The favourites after swapping the selected device with its neighbour above (`up`) or below.
pub open spec fn moved_favorites(app: TuiApp, up: bool) -> Seq<Seq<char>> {
    let favs = string_views(app.favorites@);
    let p = position_of(favs, app.devices@[app.selected_device as int].info.device_id@)->0;
    let q = if up { p - 1 } else { p + 1 };
    favs.update(p, favs[q]).update(q, favs[p])
}

/// The line logged when the selected device moves up (`up`) or down among the favourites.
pub open spec fn moved_line(app: TuiApp, up: bool) -> Seq<char> {
    let name = app.devices@[app.selected_device as int].info.name@;
    if up {
        "⬆️ Moved "@ + name + " up"@
    } else {
        "⬇️ Moved "@ + name + " down"@
    }
}

/// The favorites after toggling `id`: removed where it stands, or added at the end.
pub open spec fn toggled(favs: Seq<Seq<char>>, id: Seq<char>) -> Seq<Seq<char>> {
    match position_of(favs, id) {
        Some(p) => favs.remove(p),
        None => favs.push(id),
    }
}

/// The log line toggling favorite `id` adds.
pub open spec fn toggle_line(favs: Seq<Seq<char>>, id: Seq<char>) -> Seq<char> {
    if !favs.contains(id) { "💖 Added "@ + id + " to favorites"@ } else { "💔 Removed "@ + id + " from favorites"@ }
}

impl TuiApp {
    fn light_request(device_id: &String, is_on: Option<bool>, brightness: Option<u8>, color_temp: Option<u16>) -> (res: Option<ClientRequest>)
        ensures
            is_light_request(res, device_id@, is_on, brightness, color_temp),
    {
        Some(ClientRequest::SetLightState { device_id: device_id.clone(), is_on, brightness, color_temp, rgb_color: None })
    }

    /// Handles a key press, with the shift key held or not, at time stamp `stamp`.
    pub fn handle_key(&mut self, key: TuiKey, shift: bool, stamp: &str) -> (res: KeyOutcome)
        requires
            old(self).current_tab < tab_count(),
            old(self).selected_device < usize::MAX,
            !key_overflows(*old(self), key, shift),
        ensures
            final(self).current_tab < tab_count(),
            final(self).devices@ == old(self).devices@,
            res.quit == (!old(self).show_help && !(shift && (key == TuiKey::Up || key == TuiKey::Down)) && key == TuiKey::Char('q')),
            old(self).show_help ==> {
                &&& final(self).show_help == !(key == TuiKey::Esc || key == TuiKey::Char('h'))
                &&& res.request is None && !res.save_favorites && res.event_text is None
                &&& final(self).favorites@ == old(self).favorites@ && final(self).events@ == old(self).events@
                &&& final(self).selected_device == old(self).selected_device
                &&& final(self).current_tab == old(self).current_tab
            },
            !old(self).show_help && shift && (key == TuiKey::Up || key == TuiKey::Down) ==> {
                &&& res.request is None && res.event_text is None
                &&& final(self).selected_device == old(self).selected_device
                &&& final(self).current_tab == old(self).current_tab
                &&& res.save_favorites == can_move_favorite(*old(self), key == TuiKey::Up)
                &&& res.save_favorites ==> {
                    &&& string_views(final(self).favorites@) == moved_favorites(*old(self), key == TuiKey::Up)
                    &&& string_views(final(self).events@) == log_after(string_views(old(self).events@),
                        event_line(stamp@, moved_line(*old(self), key == TuiKey::Up)))
                }
                &&& !res.save_favorites ==> final(self).favorites@ == old(self).favorites@
                    && final(self).events@ == old(self).events@
            },
            !old(self).show_help && !(shift && (key == TuiKey::Up || key == TuiKey::Down)) ==> {
                &&& key == TuiKey::Char('h') ==> final(self).show_help
                &&& key == TuiKey::Tab ==> final(self).current_tab == (old(self).current_tab + 1) % (tab_count() as int)
                &&& key == TuiKey::BackTab ==> final(self).current_tab
                    == if old(self).current_tab == 0 { tab_count() - 1 } else { old(self).current_tab - 1 }
                &&& (key == TuiKey::Up || key == TuiKey::Char('k')) ==> final(self).selected_device == previous_selection(*old(self))
                &&& (key == TuiKey::Down || key == TuiKey::Char('j')) ==> final(self).selected_device == next_selection(*old(self))
                &&& (key == TuiKey::Char('f')) ==> res.save_favorites == (old(self).selected_device < old(self).devices@.len())
                &&& (key == TuiKey::Char('f') && old(self).selected_device < old(self).devices@.len()) ==> ({
                    let id = old(self).devices@[old(self).selected_device as int].info.device_id@;
                    let favs = string_views(old(self).favorites@);
                    &&& string_views(final(self).favorites@) == toggled(favs, id)
                    &&& string_views(final(self).events@) == log_after(string_views(old(self).events@),
                        event_line(stamp@, toggle_line(favs, id)))
                })
                &&& !(key == TuiKey::Char('f') && old(self).selected_device < old(self).devices@.len()) ==>
                    final(self).favorites@ == old(self).favorites@ && final(self).events@ == old(self).events@
                &&& (match res.event_text { Some(t) => Some(t@), None => None }) == key_event_text(*old(self), key)
                &&& (old(self).selected_device < old(self).devices@.len() ==> ({
                    let d = old(self).devices@[old(self).selected_device as int];
                    &&& (key == TuiKey::Enter || key == TuiKey::Char(' ')) && d.info.device_type is Light ==>
                        is_light_request(res.request, d.info.device_id@,
                            Some(match d.state { DeviceStateValue::Light(l) => !l.is_on, _ => true }), None, None)
                    &&& (key == TuiKey::Enter || key == TuiKey::Char(' ')) && d.info.device_type is Outlet ==>
                        (res.request matches Some(ClientRequest::SetOutletState { device_id, is_on })
                            && device_id@ == d.info.device_id@
                            && is_on == match d.state { DeviceStateValue::Outlet(o) => !o.is_on, _ => true })
                    &&& (key == TuiKey::Right || key == TuiKey::Char('+')) && d.info.device_type is Light ==>
                        is_light_request(res.request, d.info.device_id@, None,
                            Some(if brightness_or_zero(d.state) + 10 < 100 { (brightness_or_zero(d.state) + 10) as u8 } else { 100u8 }), None)
                    &&& (key == TuiKey::Left || key == TuiKey::Char('-')) && d.info.device_type is Light ==>
                        is_light_request(res.request, d.info.device_id@, None,
                            Some(if brightness_or_zero(d.state) >= 10 { (brightness_or_zero(d.state) - 10) as u8 } else { 0u8 }), None)
                    &&& key == TuiKey::Char('w') && d.info.device_type is Light ==>
                        is_light_request(res.request, d.info.device_id@, None, None, Some(6500u16))
                    &&& key == TuiKey::Char('r') && d.info.device_type is Light ==>
                        is_light_request(res.request, d.info.device_id@, None, None, Some(2700u16))
                    &&& (key matches TuiKey::Char(c) && preset_of(c) is Some) && d.info.device_type is Light ==>
                        is_light_request(res.request, d.info.device_id@, None, preset_of(key->Char_0), None)
                }))
            },
    {
        let mut out = KeyOutcome { quit: false, request: None, event_text: None, save_favorites: false };
        if self.show_help {
            match key {
                TuiKey::Esc | TuiKey::Char('h') => self.show_help = false,
                _ => {},
            }
            return out;
        }
        if shift {
            match key {
                TuiKey::Up => {
                    out.save_favorites = self.move_favorite_up(stamp);
                    return out;
                },
                TuiKey::Down => {
                    out.save_favorites = self.move_favorite_down(stamp);
                    return out;
                },
                _ => {},
            }
        }
        match key {
            TuiKey::Char('q') => {
                out.quit = true;
            },
            TuiKey::Char('h') => self.show_help = true,
            TuiKey::Tab => self.next_tab(),
            TuiKey::BackTab => self.previous_tab(),
            TuiKey::Up | TuiKey::Char('k') => self.previous_device(),
            TuiKey::Down | TuiKey::Char('j') => self.next_device(),
            TuiKey::Char('f') => {
                if self.selected_device < self.devices.len() {
                    let id = self.devices[self.selected_device].info.device_id.clone();
                    self.toggle_favorite(id.as_str(), stamp);
                    out.save_favorites = true;
                }
            },
            _ => {
                if self.selected_device < self.devices.len() {
                    let d = &self.devices[self.selected_device];
                    let is_light = match d.info.device_type { DeviceType::Light => true, _ => false };
                    let is_outlet = match d.info.device_type { DeviceType::Outlet => true, _ => false };
                    match key {
                        TuiKey::Enter | TuiKey::Char(' ') => {
                            if is_light {
                                let on = match &d.state { DeviceStateValue::Light(l) => !l.is_on, _ => true };
                                out.request = Self::light_request(&d.info.device_id, Some(on), None, None);
                                let mut m = String::from_str("💡 Toggled ");
                                m.append(d.info.name.as_str());
                                out.event_text = Some(m);
                            } else if is_outlet {
                                let on = match &d.state { DeviceStateValue::Outlet(o) => !o.is_on, _ => true };
                                out.request = Some(ClientRequest::SetOutletState { device_id: d.info.device_id.clone(), is_on: on });
                                let mut m = String::from_str("🔌 Toggled ");
                                m.append(d.info.name.as_str());
                                out.event_text = Some(m);
                            }
                        },
                        TuiKey::Right | TuiKey::Char('+') => {
                            if is_light {
                                let cur: u8 = match &d.state { DeviceStateValue::Light(l) => match l.brightness { Some(b) => b, None => 0 }, _ => 0 };
                                let up: u8 = cur + 10;
                                let nb: u8 = if up < 100 { up } else { 100 };
                                out.request = Self::light_request(&d.info.device_id, None, Some(nb), None);
                                let mut m = String::from_str("🔆 Brightness up: ");
                                push_decimal(&mut m, nb as u64);
                                m.append("%");
                                out.event_text = Some(m);
                            }
                        },
                        TuiKey::Left | TuiKey::Char('-') => {
                            if is_light {
                                let cur: u8 = match &d.state { DeviceStateValue::Light(l) => match l.brightness { Some(b) => b, None => 0 }, _ => 0 };
                                let nb: u8 = cur.saturating_sub(10);
                                out.request = Self::light_request(&d.info.device_id, None, Some(nb), None);
                                let mut m = String::from_str("🔅 Brightness down: ");
                                push_decimal(&mut m, nb as u64);
                                m.append("%");
                                out.event_text = Some(m);
                            }
                        },
                        TuiKey::Char('w') => {
                            if is_light {
                                out.request = Self::light_request(&d.info.device_id, None, None, Some(6500));
                                out.event_text = Some(String::from_str("🔵 Cool white (6500K)"));
                            }
                        },
                        TuiKey::Char('r') => {
                            if is_light {
                                out.request = Self::light_request(&d.info.device_id, None, None, Some(2700));
                                out.event_text = Some(String::from_str("🟡 Warm white (2700K)"));
                            }
                        },
                        TuiKey::Char(c) => {
                            if is_light {
                                let preset: Option<u8> = if c == '1' { Some(10) } else if c == '2' { Some(25) } else if c == '5' { Some(50) }
                                    else if c == '7' { Some(75) } else if c == '0' { Some(100) } else { None };
                                match preset {
                                    Some(b) => {
                                        out.request = Self::light_request(&d.info.device_id, None, Some(b), None);
                                        out.event_text = Some(if b == 100 {
                                            String::from_str("💡 100% FULL BRIGHTNESS!")
                                        } else {
                                            let mut m = String::from_str("💡 ");
                                            push_decimal(&mut m, b as u64);
                                            m.append("% brightness");
                                            m
                                        });
                                    },
                                    None => {},
                                }
                            }
                        },
                        _ => {},
                    }
                }
            },
        }
        out
    }
}

/// Moving to the next tab and back returns to the same tab.
pub proof fn law_tab_round_trip(tab: usize)
    requires
        tab < tab_count(),
    ensures
        ({
            let n = ((tab + 1) % (tab_count() as int)) as usize;
            (if n == 0 { tab_count() - 1 } else { n - 1 }) == tab
        }),
{
}

/// In the device list, moving down and then up returns to the same device.
pub proof fn law_device_round_trip(selected: usize, count: usize)
    requires
        count > 0,
        selected < count,
    ensures
        ({
            let n = ((selected + 1) % (count as int)) as usize;
            (if n == 0 { count - 1 } else { n - 1 }) == selected
        }),
{
    if selected + 1 < count {
        vstd::arithmetic::div_mod::lemma_small_mod((selected + 1) as nat, count as nat);
    } else {
        vstd::arithmetic::div_mod::lemma_mod_self_0(count as int);
    }
}

/// The event log never holds more than fifty lines once it holds at most fifty.
pub proof fn law_event_log_bounded(events: Seq<Seq<char>>, line: Seq<char>)
    requires
        events.len() <= event_log_limit(),
    ensures
        log_after(events, line).len() <= event_log_limit(),
{
}

/// The devices shown on the dashboard: for each favorite in order, the position of the first
/// device with its id; favorites without a device are left out.
pub open spec fn favorite_positions(devices: Seq<AppDevice>, favorites: Seq<Seq<char>>) -> Seq<int>
    decreases favorites.len(),
{
    if favorites.len() == 0 {
        Seq::empty()
    } else {
        let rest = favorite_positions(devices, favorites.drop_last());
        match position_of(device_ids(devices), favorites.last()) {
            Some(i) => rest.push(i),
            None => rest,
        }
    }
}

/// The first card showing device `selected`, or the first card when none does.
pub open spec fn card_of(cards: Seq<int>, selected: int) -> int {
    if exists|k: int| 0 <= k < cards.len() && cards[k] == selected {
        choose|k: int| 0 <= k < cards.len() && cards[k] == selected && forall|j: int| 0 <= j < k ==> cards[j] != selected
    } else {
        0
    }
}

/// The dashboard's scroll offset for `n` cards of which `visible` fit, keeping card `sel` in
/// view: none when all fit; up to the card when it is above; so that it is the last visible
/// when it is below; unchanged otherwise.
pub open spec fn scroll_for(n: int, visible: int, sel: int, offset: int) -> int {
    if n <= visible {
        0
    } else if sel < offset {
        sel
    } else if sel >= offset + visible {
        if sel - (visible - 1) < 0 { 0 } else { sel - (visible - 1) }
    } else {
        offset
    }
}

/// What the dashboard shows: the positions of the devices on its visible cards, in order.
pub open spec fn visible_cards(cards: Seq<int>, offset: int, visible: int) -> Seq<int> {
    let start = if offset < cards.len() { offset } else { cards.len() as int };
    let end = if start + visible < cards.len() { start + visible } else { cards.len() as int };
    cards.subrange(start, end)
}

proof fn lemma_card_at(cards: Seq<int>, selected: int, k: int)
    requires
        0 <= k < cards.len(),
        cards[k] == selected,
        forall|j: int| 0 <= j < k ==> cards[j] != selected,
    ensures
        card_of(cards, selected) == k,
{
    let c = choose|c: int| 0 <= c < cards.len() && cards[c] == selected && forall|j: int| 0 <= j < c ==> cards[j] != selected;
    assert(0 <= c < cards.len() && cards[c] == selected && forall|j: int| 0 <= j < c ==> cards[j] != selected);
    if c < k {
        assert(cards[c] != selected);
    }
    if c > k {
        assert(cards[k] != selected);
    }
}

/// The first card showing device `selected`, or the first card when none does.
fn card_index(cards: &Vec<usize>, selected: usize) -> (res: usize)
    ensures
        res as int == card_of(cards@.map_values(|i: usize| i as int), selected as int),
{
    let ghost cs = cards@.map_values(|i: usize| i as int);
    let mut k: usize = 0;
    while k < cards.len()
        invariant
            k <= cards@.len(),
            cs == cards@.map_values(|i: usize| i as int),
            forall|j: int| 0 <= j < k ==> cs[j] != selected as int,
        decreases cards@.len() - k,
    {
        assert(cs[k as int] == cards@[k as int] as int);
        if cards[k] == selected {
            proof { lemma_card_at(cs, selected as int, k as int); }
            return k;
        }
        k = k + 1;
    }
    assert(!exists|j: int| 0 <= j < cs.len() && cs[j] == selected as int);
    0
}

/// The dashboard's scroll offset keeping card `sel` in view.
fn scroll_offset_for(n: usize, visible: usize, sel: usize, offset: usize) -> (res: usize)
    requires
        visible >= 1,
    ensures
        res as int == scroll_for(n as int, visible as int, sel as int, offset as int),
{
    if n <= visible {
        0
    } else if sel < offset {
        sel
    } else if sel - offset >= visible {
        if sel >= visible - 1 { sel - (visible - 1) } else { 0 }
    } else {
        offset
    }
}

/// The cards in view from `offset`.
fn cards_in_view(cards: &Vec<usize>, offset: usize, visible: usize) -> (res: Vec<usize>)
    ensures
        res@.map_values(|i: usize| i as int) == visible_cards(cards@.map_values(|i: usize| i as int), offset as int, visible as int),
{
    let ghost cs = cards@.map_values(|i: usize| i as int);
    let n = cards.len();
    let start = if offset < n { offset } else { n };
    let end = if visible <= n - start { start + visible } else { n };
    let mut out: Vec<usize> = Vec::new();
    let mut i: usize = start;
    while i < end
        invariant
            start <= i <= end,
            end <= n,
            n == cards@.len(),
            cs == cards@.map_values(|i: usize| i as int),
            out@.map_values(|i: usize| i as int) == cs.subrange(start as int, i as int),
        decreases end - i,
    {
        let ghost before = out@.map_values(|i: usize| i as int);
        assert(cs[i as int] == cards@[i as int] as int);
        out.push(cards[i]);
        assert(out@.map_values(|i: usize| i as int) =~= before.push(cs[i as int]));
        assert(cs.subrange(start as int, i + 1) =~= cs.subrange(start as int, i as int).push(cs[i as int]));
        i = i + 1;
    }
    out
}

impl TuiApp {
    /// The positions of the devices the dashboard shows, favorite by favorite.
    pub fn favorite_devices(&self) -> (res: Vec<usize>)
        ensures
            res@.map_values(|i: usize| i as int) == favorite_positions(self.devices@, string_views(self.favorites@)),
            forall|k: int| 0 <= k < res@.len() ==> res@[k] < self.devices@.len(),
    {
        let ghost favs = string_views(self.favorites@);
        let mut out: Vec<usize> = Vec::new();
        let mut k: usize = 0;
        while k < self.favorites.len()
            invariant
                k <= self.favorites@.len(),
                favs == string_views(self.favorites@),
                out@.map_values(|i: usize| i as int) == favorite_positions(self.devices@, favs.take(k as int)),
                forall|j: int| 0 <= j < out@.len() ==> out@[j] < self.devices@.len(),
            decreases self.favorites@.len() - k,
        {
            assert(favs.take(k + 1).drop_last() =~= favs.take(k as int));
            assert(favs.take(k + 1).last() == self.favorites@[k as int]@);
            let ghost before = out@;
            match find_device(&self.devices, self.favorites[k].as_str()) {
                Some(i) => {
                    out.push(i);
                    assert(out@.map_values(|i: usize| i as int) =~= before.map_values(|i: usize| i as int).push(i as int));
                },
                None => {},
            }
            k = k + 1;
        }
        assert(favs.take(self.favorites@.len() as int) =~= favs);
        out
    }

    /// Lays the dashboard out for `visible` cards: keeps the selected device's card in view by
    /// moving the scroll offset, and gives the positions of the devices on the visible cards.
    pub fn layout_dashboard(&mut self, visible: usize) -> (res: Vec<usize>)
        requires
            visible >= 1,
        ensures
            ({
                let cards = favorite_positions(old(self).devices@, string_views(old(self).favorites@));
                let sel = if cards.len() > 0 && old(self).selected_device < old(self).devices@.len() {
                    card_of(cards, old(self).selected_device as int)
                } else {
                    0
                };
                &&& final(self).scroll_offset == scroll_for(cards.len() as int, visible as int, sel, old(self).scroll_offset as int)
                &&& res@.map_values(|i: usize| i as int) == visible_cards(cards, final(self).scroll_offset as int, visible as int)
            }),
            final(self).devices@ == old(self).devices@,
            final(self).favorites@ == old(self).favorites@,
            final(self).selected_device == old(self).selected_device,
            final(self).current_tab == old(self).current_tab,
            final(self).events@ == old(self).events@,
    {
        let cards = self.favorite_devices();
        let ghost cs = cards@.map_values(|i: usize| i as int);
        let n = cards.len();
        let sel: usize = if n > 0 && self.selected_device < self.devices.len() {
            card_index(&cards, self.selected_device)
        } else {
            0
        };
        let offset = scroll_offset_for(n, visible, sel, self.scroll_offset);
        self.scroll_offset = offset;
        cards_in_view(&cards, offset, visible)
    }
}

/// The figures of the statistics tab.
#[derive(Clone, Copy, Debug, PartialEq, Eq, Structural)]
pub struct TuiStats {
    pub total_devices: usize,
    pub online_devices: usize,
    pub favorites: usize,
    /// Favorite lights that are on.
    pub favorite_lights_on: usize,
    pub lights: usize,
    pub sensors: usize,
    pub switches: usize,
    pub outlets: usize,
}

/// The newest `n` lines of an event log, newest first (all of them when there are fewer).
pub open spec fn newest_first(events: Seq<Seq<char>>, n: nat) -> Seq<Seq<char>> {
    let k = if n < events.len() { n } else { events.len() };
    Seq::new(k, |i: int| events[events.len() - 1 - i])
}

impl TuiApp {
    /// The events the statistics tab lists in a bordered box `rows` lines high: the newest first,
    /// as many as the inside holds.
    pub fn recent_events(&self, rows: usize) -> (res: Vec<String>)
        requires
            rows >= 2,
        ensures
            string_views(res@) == newest_first(string_views(self.events@), (rows - 2) as nat),
    {
        let ghost ev = string_views(self.events@);
        let fit = rows - 2;
        let mut out: Vec<String> = Vec::new();
        let mut i: usize = 0;
        while i < fit && i < self.events.len()
            invariant
                ev == string_views(self.events@),
                fit == rows - 2,
                i <= fit,
                i <= ev.len(),
                string_views(out@) == newest_first(ev, i as nat),
            decreases fit - i,
        {
            let line = self.events[self.events.len() - 1 - i].clone();
            assert(line@ == ev[ev.len() - 1 - i]);
            let ghost before = out@;
            out.push(line);
            assert(string_views(out@) =~= string_views(before).push(line@));
            assert(string_views(out@) =~= newest_first(ev, (i + 1) as nat));
            i = i + 1;
        }
        assert(string_views(out@) =~= newest_first(ev, fit as nat));
        out
    }
}

/// How many devices satisfy `p`.
pub open spec fn count_devices(d: Seq<AppDevice>, p: spec_fn(AppDevice) -> bool) -> nat {
    d.filter(p).len()
}

/// Whether a device is a light that is on.
pub open spec fn light_on(a: AppDevice) -> bool {
    match a.state {
        DeviceStateValue::Light(l) => l.is_on,
        _ => false,
    }
}

impl TuiApp {
    /// The statistics tab's figures: devices online out of all, favorites, favorite lights that
    /// are on, and devices by kind.
    pub fn stats(&self) -> (res: TuiStats)
        ensures
            res.total_devices == self.devices@.len(),
            res.online_devices == count_devices(self.devices@, |a: AppDevice| a.info.reachable),
            res.favorites == self.favorites@.len(),
            res.favorite_lights_on == count_devices(self.devices@, |a: AppDevice|
                string_views(self.favorites@).contains(a.info.device_id@) && light_on(a)),
            res.lights == count_devices(self.devices@, |a: AppDevice| a.info.device_type is Light),
            res.sensors == count_devices(self.devices@, |a: AppDevice| a.info.device_type is Sensor),
            res.switches == count_devices(self.devices@, |a: AppDevice| a.info.device_type is Switch),
            res.outlets == count_devices(self.devices@, |a: AppDevice| a.info.device_type is Outlet),
    {
        let ghost d = self.devices@;
        let ghost favs = string_views(self.favorites@);
        let ghost p_online = |a: AppDevice| a.info.reachable;
        let ghost p_fav = |a: AppDevice| favs.contains(a.info.device_id@) && light_on(a);
        let ghost p_light = |a: AppDevice| a.info.device_type is Light;
        let ghost p_sensor = |a: AppDevice| a.info.device_type is Sensor;
        let ghost p_switch = |a: AppDevice| a.info.device_type is Switch;
        let ghost p_outlet = |a: AppDevice| a.info.device_type is Outlet;
        let mut online: usize = 0;
        let mut fav_on: usize = 0;
        let mut lights: usize = 0;
        let mut sensors: usize = 0;
        let mut switches: usize = 0;
        let mut outlets: usize = 0;
        let mut i: usize = 0;
        while i < self.devices.len()
            invariant
                i <= d.len(),
                d == self.devices@,
                favs == string_views(self.favorites@),
                online == d.take(i as int).filter(p_online).len(),
                fav_on == d.take(i as int).filter(p_fav).len(),
                lights == d.take(i as int).filter(p_light).len(),
                sensors == d.take(i as int).filter(p_sensor).len(),
                switches == d.take(i as int).filter(p_switch).len(),
                outlets == d.take(i as int).filter(p_outlet).len(),
                p_online == (|a: AppDevice| a.info.reachable),
                p_fav == (|a: AppDevice| favs.contains(a.info.device_id@) && light_on(a)),
                p_light == (|a: AppDevice| a.info.device_type is Light),
                p_sensor == (|a: AppDevice| a.info.device_type is Sensor),
                p_switch == (|a: AppDevice| a.info.device_type is Switch),
                p_outlet == (|a: AppDevice| a.info.device_type is Outlet),
            decreases d.len() - i,
        {
            proof {
                crate::store::lemma_take_filter_step(d, p_online, i as int);
                crate::store::lemma_take_filter_step(d, p_fav, i as int);
                crate::store::lemma_take_filter_step(d, p_light, i as int);
                crate::store::lemma_take_filter_step(d, p_sensor, i as int);
                crate::store::lemma_take_filter_step(d, p_switch, i as int);
                crate::store::lemma_take_filter_step(d, p_outlet, i as int);
                d.take(i as int).lemma_filter_len(p_online);
                d.take(i as int).lemma_filter_len(p_fav);
                d.take(i as int).lemma_filter_len(p_light);
                d.take(i as int).lemma_filter_len(p_sensor);
                d.take(i as int).lemma_filter_len(p_switch);
                d.take(i as int).lemma_filter_len(p_outlet);
            }
            let dev = &self.devices[i];
            if dev.info.reachable {
                online = online + 1;
            }
            let is_on = match &dev.state {
                DeviceStateValue::Light(l) => l.is_on,
                _ => false,
            };
            if is_on && contains_id(&self.favorites, dev.info.device_id.as_str()) {
                fav_on = fav_on + 1;
            }
            match &dev.info.device_type {
                DeviceType::Light => { lights = lights + 1; },
                DeviceType::Sensor => { sensors = sensors + 1; },
                DeviceType::Switch => { switches = switches + 1; },
                DeviceType::Outlet => { outlets = outlets + 1; },
                _ => {},
            }
            i = i + 1;
        }
        assert(d.take(d.len() as int) =~= d);
        TuiStats {
            total_devices: self.devices.len(),
            online_devices: online,
            favorites: self.favorites.len(),
            favorite_lights_on: fav_on,
            lights,
            sensors,
            switches,
            outlets,
        }
    }
}

/// The dashboard keeps the selected card in view: after laying out `n` cards of which
/// `visible` fit, the card at `sel` is among those shown.
pub proof fn law_selected_card_in_view(n: int, visible: int, sel: int, offset: int)
    requires
        visible >= 1,
        0 <= sel < n,
        offset >= 0,
    ensures
        scroll_for(n, visible, sel, offset) <= sel < scroll_for(n, visible, sel, offset) + visible,
{
}

} // verus!
