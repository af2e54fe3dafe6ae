//! The clients' own logic: server addresses, connection status, reconnect timing, commands from
//! the user interface, request framing and the tray icon.
use vstd::prelude::*;
use vstd::string::{StrSliceExecFns, StringExecFns};
use crate::state::{DeviceEvent, DeviceEventView, DeviceStateValue, EventType, EventTypeView, LightState, RgbColor};
use crate::json::{JsonValue, json_view};
use crate::text::{decimal, push_decimal};

verus! {

/// Whether `s` begins with `prefix`.
pub open spec fn has_prefix(s: Seq<char>, prefix: Seq<char>) -> bool {
    prefix.len() <= s.len() && s.take(prefix.len() as int) == prefix
}

/// Whether `s` begins with `prefix`.
pub fn starts_with(s: &str, prefix: &str) -> (res: bool)
    ensures
        res == has_prefix(s@, prefix@),
{
    let n = s.unicode_len();
    let m = prefix.unicode_len();
    if m > n {
        return false;
    }
    let mut i: usize = 0;
    while i < m
        invariant
            n == s@.len(),
            m == prefix@.len(),
            m <= n,
            i <= m,
            forall|k: int| 0 <= k < i ==> s@[k] == prefix@[k],
        decreases m - i,
    {
        if s.get_char(i) != prefix.get_char(i) {
            proof { assert(s@.take(m as int)[i as int] != prefix@[i as int]); }
            return false;
        }
        i = i + 1;
    }
    assert(s@.take(m as int) =~= prefix@);
    true
}

/// `prefix` followed by `s`.
fn prefixed(prefix: &str, s: &str) -> (res: String)
    ensures
        res@ == prefix@ + s@,
{
    let mut r = String::from_str(prefix);
    r.append(s);
    r
}

/// A placeholder server that only records its port.
pub struct ApiServer {
    port: u16,
}

impl ApiServer {
    /// The port the server was made for.
    pub closed spec fn port_view(&self) -> u16 {
        self.port
    }

    /// A server for `port`.
    pub fn new(port: u16) -> (res: ApiServer)
        ensures
            res.port_view() == port,
    {
        ApiServer { port }
    }
}

/// A client of the binary TCP protocol.
pub struct ApiClient {
    server_addr: String,
}

impl ApiClient {
    /// The address the client talks to.
    pub closed spec fn addr(&self) -> Seq<char> {
        self.server_addr@
    }

    /// A client of the server at `server_addr`.
    pub fn new(server_addr: String) -> (res: ApiClient)
        ensures
            res.addr() == server_addr@,
    {
        ApiClient { server_addr }
    }

    /// The server address.
    pub fn server_addr(&self) -> (res: &str)
        ensures
            res@ == self.addr(),
    {
        self.server_addr.as_str()
    }
}

/// A request payload: its kind byte followed by its data.
pub open spec fn request_payload(request_type: u8, data: Seq<u8>) -> Seq<u8> {
    seq![request_type] + data
}

/// Frames a request: its kind byte followed by its data.
pub fn build_request_payload(request_type: u8, data: &Vec<u8>) -> (res: Vec<u8>)
    ensures
        res@ == request_payload(request_type, data@),
{
    let mut payload: Vec<u8> = vec![request_type];
    let mut i: usize = 0;
    while i < data.len()
        invariant
            i <= data@.len(),
            payload@ == seq![request_type] + data@.take(i as int),
        decreases data@.len() - i,
    {
        payload.push(data[i]);
        assert(data@.take(i as int + 1) =~= data@.take(i as int).push(data@[i as int]));
        i = i + 1;
    }
    assert(data@.take(data@.len() as int) =~= data@);
    payload
}

/// The data of a set-light request: the id's length as a byte, the id's bytes, the encoded state.
pub open spec fn set_light_data(id_bytes: Seq<u8>, state_bytes: Seq<u8>) -> Seq<u8> {
    seq![(id_bytes.len() % 256) as u8] + id_bytes + state_bytes
}

/// Frames the data of a set-light request; the length byte keeps the low eight bits of the
/// id's length.
pub fn build_set_light_data(id_bytes: &Vec<u8>, state_bytes: &Vec<u8>) -> (res: Vec<u8>)
    ensures
        res@ == set_light_data(id_bytes@, state_bytes@),
{
    let len_byte: u8 = (id_bytes.len() % 256) as u8;
    let mut data: Vec<u8> = vec![len_byte];
    let mut i: usize = 0;
    while i < id_bytes.len()
        invariant
            i <= id_bytes@.len(),
            data@ == seq![len_byte] + id_bytes@.take(i as int),
        decreases id_bytes@.len() - i,
    {
        data.push(id_bytes[i]);
        assert(id_bytes@.take(i as int + 1) =~= id_bytes@.take(i as int).push(id_bytes@[i as int]));
        i = i + 1;
    }
    assert(id_bytes@.take(id_bytes@.len() as int) =~= id_bytes@);
    let mut j: usize = 0;
    while j < state_bytes.len()
        invariant
            j <= state_bytes@.len(),
            data@ == seq![len_byte] + id_bytes@ + state_bytes@.take(j as int),
        decreases state_bytes@.len() - j,
    {
        data.push(state_bytes[j]);
        assert(state_bytes@.take(j as int + 1) =~= state_bytes@.take(j as int).push(state_bytes@[j as int]));
        j = j + 1;
    }
    assert(state_bytes@.take(state_bytes@.len() as int) =~= state_bytes@);
    data
}

/// A client of the WebSocket API.
pub struct WebSocketClient {
    server_url: String,
}

/// A server address as a WebSocket URL: kept when it already names the `ws` or `wss` scheme,
/// otherwise prefixed with `ws://`.
pub open spec fn websocket_url(addr: Seq<char>) -> Seq<char> {
    if has_prefix(addr, "ws://"@) || has_prefix(addr, "wss://"@) { addr } else { "ws://"@ + addr }
}

impl WebSocketClient {
    /// The URL the client connects to.
    pub closed spec fn url(&self) -> Seq<char> {
        self.server_url@
    }

    /// A client of the server at `server_addr`, as a WebSocket URL.
    pub fn new(server_addr: String) -> (res: WebSocketClient)
        ensures
            res.url() == websocket_url(server_addr@),
    {
        let server_url = if starts_with(server_addr.as_str(), "ws://") || starts_with(server_addr.as_str(), "wss://") {
            server_addr
        } else {
            prefixed("ws://", server_addr.as_str())
        };
        WebSocketClient { server_url }
    }

    /// The URL the client connects to.
    pub fn server_url(&self) -> (res: &str)
        ensures
            res@ == self.url(),
    {
        self.server_url.as_str()
    }
}

/// A server address as an HTTP base URL: kept when it starts with `http`, otherwise prefixed
/// with `http://`.
pub open spec fn http_base_url(addr: Seq<char>) -> Seq<char> {
    if has_prefix(addr, "http"@) { addr } else { "http://"@ + addr }
}

/// The base URL of the HTTP client for the server at `server_addr`.
pub fn http_base_url_of(server_addr: String) -> (res: String)
    ensures
        res@ == http_base_url(server_addr@),
{
    if starts_with(server_addr.as_str(), "http") {
        server_addr
    } else {
        prefixed("http://", server_addr.as_str())
    }
}

/// The state of the connection to the server.
#[derive(Clone, Copy, Debug, PartialEq, Eq, Structural)]
pub enum ConnectionState {
    /// Trying to connect.
    Connecting,
    /// Connected and receiving events.
    Connected,
    /// Not connected.
    Disconnected,
    /// Reconnecting after an error, with the attempt number.
    Reconnecting(u32),
}

/// How a connection state is shown.
pub open spec fn connection_text(s: ConnectionState) -> Seq<char> {
    match s {
        ConnectionState::Connecting => "Connecting..."@,
        ConnectionState::Connected => "Connected"@,
        ConnectionState::Disconnected => "Disconnected"@,
        ConnectionState::Reconnecting(n) => "Reconnecting... (attempt "@ + decimal(n as nat) + ")"@,
    }
}

impl ConnectionState {
    /// The text shown for this state.
    pub fn to_display_string(&self) -> (res: String)
        ensures
            res@ == connection_text(*self),
    {
        match self {
            ConnectionState::Connecting => String::from_str("Connecting..."),
            ConnectionState::Connected => String::from_str("Connected"),
            ConnectionState::Disconnected => String::from_str("Disconnected"),
            ConnectionState::Reconnecting(n) => {
                let mut s = String::from_str("Reconnecting... (attempt ");
                push_decimal(&mut s, *n as u64);
                s.append(")");
                s
            },
        }
    }
}

/// The wait, in seconds, before reconnecting after `attempt` failures: two to the power of the
/// attempt, capped at 30 (1, 2, 4, 8, 16, then 30 from the fifth on).
pub open spec fn reconnect_delay(attempt: u32) -> u64 {
    let p = vstd::arithmetic::power2::pow2(attempt as nat);
    if p < 30 { p as u64 } else { 30 }
}

/// The wait, in seconds, before reconnecting after `attempt` failures.
pub fn reconnect_delay_secs(attempt: u32) -> (res: u64)
    ensures
        res == reconnect_delay(attempt),
{
    proof { vstd::arithmetic::power2::lemma2_to64(); }
    if attempt >= 5 {
        proof { if attempt > 5 { vstd::arithmetic::power2::lemma_pow2_strictly_increases(5, attempt as nat); } }
        return 30;
    }
    let d: u64 = 1u64 << attempt;
    assert(attempt < 5 ==> 1u64 << attempt == (if attempt == 0 { 1u64 } else if attempt == 1 { 2u64 } else if attempt == 2 { 4u64 }
        else if attempt == 3 { 8u64 } else { 16u64 })) by (bit_vector);
    d
}

/// A command from the user interface to the server connection.
#[derive(Clone, Debug)]
pub enum ServerCmd {
    SetLightState { device_id: String, is_on: Option<bool>, brightness: Option<u8>, color_temp: Option<u16> },
    SetOutletState { device_id: String, is_on: bool },
    Rediscover,
}

/// A request of the WebSocket API.
#[derive(Debug)]
pub enum ClientRequest {
    DiscoverDevices,
    GetDeviceState { device_id: String },
    SetLightState { device_id: String, is_on: Option<bool>, brightness: Option<u8>, color_temp: Option<u16>, rgb_color: Option<RgbColor> },
    SetOutletState { device_id: String, is_on: bool },
    Subscribe { device_ids: Vec<String> },
}

/// The request a command is sent as: light and outlet commands as their requests (a light
/// command sets no colour), a rediscovery as a discovery.
pub open spec fn request_for(cmd: ServerCmd, req: ClientRequest) -> bool {
    match cmd {
        ServerCmd::SetLightState { device_id, is_on, brightness, color_temp } =>
            req matches ClientRequest::SetLightState { device_id: d, is_on: o, brightness: b, color_temp: c, rgb_color: r }
                && d@ == device_id@ && o == is_on && b == brightness && c == color_temp && r is None,
        ServerCmd::SetOutletState { device_id, is_on } =>
            req matches ClientRequest::SetOutletState { device_id: d, is_on: o } && d@ == device_id@ && o == is_on,
        ServerCmd::Rediscover => req is DiscoverDevices,
    }
}

/// The request a command is sent as.
pub fn command_request(cmd: ServerCmd) -> (res: ClientRequest)
    ensures
        request_for(cmd, res),
{
    match cmd {
        ServerCmd::SetLightState { device_id, is_on, brightness, color_temp } =>
            ClientRequest::SetLightState { device_id, is_on, brightness, color_temp, rgb_color: None },
        ServerCmd::SetOutletState { device_id, is_on } => ClientRequest::SetOutletState { device_id, is_on },
        ServerCmd::Rediscover => ClientRequest::DiscoverDevices,
    }
}

/// The request that subscribes to every device's events.
pub fn subscribe_all_request() -> (res: ClientRequest)
    ensures
        res matches ClientRequest::Subscribe { device_ids } && device_ids@.len() == 1 && device_ids@[0]@ == "*"@,
{
    ClientRequest::Subscribe { device_ids: vec![String::from_str("*")] }
}

/// The light-state request for setting a light to `state`: every field given.
pub fn set_light_request(device_id: String, state: LightState) -> (res: ClientRequest)
    ensures
        res matches ClientRequest::SetLightState { device_id: d, is_on: o, brightness: b, color_temp: c, rgb_color: r }
            && d@ == device_id@ && o == Some(state.is_on) && b == state.brightness && c == state.color_temp && r == state.rgb_color,
{
    ClientRequest::SetLightState {
        device_id,
        is_on: Some(state.is_on),
        brightness: state.brightness,
        color_temp: state.color_temp,
        rgb_color: state.rgb_color,
    }
}

/// The tray icon, which tracks whether the window is shown.
pub struct V1bectlTray {
    pub visible: bool,
}

impl V1bectlTray {
    /// A tray for a shown window.
    pub fn new() -> (res: V1bectlTray)
        ensures
            res.visible,
    {
        V1bectlTray { visible: true }
    }

    /// The tray's id.
    pub fn id(&self) -> (res: String)
        ensures
            res@ == "v1bectl"@,
    {
        String::from_str("v1bectl")
    }

    /// The tray's icon.
    pub fn icon_name(&self) -> (res: String)
        ensures
            res@ == "network-server-symbolic"@,
    {
        String::from_str("network-server-symbolic")
    }

    /// The tray's title.
    pub fn title(&self) -> (res: String)
        ensures
            res@ == "v1bectl"@,
    {
        String::from_str("v1bectl")
    }

    /// The label of the menu entry that toggles the window: "Hide" while it is shown, "Show"
    /// while it is hidden.
    pub fn toggle_label(&self) -> (res: String)
        ensures
            res@ == if self.visible { "Hide"@ } else { "Show"@ },
    {
        if self.visible { String::from_str("Hide") } else { String::from_str("Show") }
    }

    /// A click on the icon toggles the window.
    pub fn activate(&mut self, x: i32, y: i32)
        ensures
            final(self).visible == !old(self).visible,
    {
        self.visible = !self.visible;
    }
}

/// What an incoming event means for the desktop client's view of a device.
#[derive(Debug)]
pub enum IncomingUpdate {
    /// The device is now in this state.
    State { device_id: String, new_state: DeviceStateValue },
    /// The device's new state comes written as JSON, still to be read.
    StateJson { device_id: String, new_value: JsonValue },
    /// Nothing to show.
    Ignore,
}

/// The update an event carries: a state change with a new state gives it; an attribute change
/// of `state` gives its new value to read; anything else is ignored.
pub open spec fn incoming_update_spec(e: DeviceEventView, u: IncomingUpdate) -> bool {
    match e.event_type {
        EventTypeView::StateChanged { new_state: Some(s), .. } =>
            u matches IncomingUpdate::State { device_id, new_state } && device_id@ == e.device_id && new_state == s,
        EventTypeView::AttributeChanged { attribute, new_value, .. } => if attribute == "state"@ {
            u matches IncomingUpdate::StateJson { device_id, new_value: v } && device_id@ == e.device_id && json_view(v) == new_value
        } else {
            u is Ignore
        },
        _ => u is Ignore,
    }
}

/// The update an incoming event carries for the desktop client.
pub fn incoming_update(event: DeviceEvent) -> (res: IncomingUpdate)
    ensures
        incoming_update_spec(event@, res),
{
    match event.event_type {
        EventType::StateChanged { new_state: Some(s), .. } => IncomingUpdate::State { device_id: event.device_id, new_state: s },
        EventType::AttributeChanged { attribute, new_value, .. } => {
            if crate::text::str_eq(attribute.as_str(), "state") {
                IncomingUpdate::StateJson { device_id: event.device_id, new_value }
            } else {
                IncomingUpdate::Ignore
            }
        },
        _ => IncomingUpdate::Ignore,
    }
}

} // verus!
