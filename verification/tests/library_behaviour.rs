use v1bectl::api::{device_type_debug_name, list_devices_filtered, merge_light, str_contains};
use v1bectl::client::{build_request_payload, build_set_light_data, http_base_url_of, reconnect_delay_secs,
    incoming_update, IncomingUpdate, ApiClient, WebSocketClient};
use v1bectl::dummy::DummyGateway;
use v1bectl::event_producer::{ambient_kind, basic_home_kind, battery_drain, press_of_roll, simulated_event,
    AmbientKind, BasicHomeKind, SimulatedChange};
use v1bectl::events::EventBus;
use v1bectl::json::{JsonNumber, JsonValue};
use v1bectl::state::{ButtonPressType, DeviceEvent, DeviceStateValue, DeviceType, EventType, LightState, RgbColor};
use v1bectl::store::StateStore;
use v1bectl::tcp::{parse_tcp_request, TcpRequest};
use v1bectl::tui::{create_mini_brightness_bar, truncate_string, TuiApp};
use v1bectl::button_controller::ButtonCommand;

fn basic_store() -> StateStore {
    let gw = DummyGateway::new("basic_home", 1_000);
    let mut store = StateStore::new();
    for info in gw.discover_devices().unwrap() {
        let state = gw.get_device_state(&info.device_id).unwrap();
        store.add_device(info, state, 1_000);
    }
    store
}

#[test]
fn read_after_update_gives_new_state() {
    let mut store = basic_store();
    let s = LightState { is_on: true, brightness: Some(9), color_temp: None, rgb_color: None };
    store.update_device_state(&"light_bedroom".to_string(), DeviceStateValue::Light(s), 7_000).unwrap();
    let d = store.get_device(&"light_bedroom".to_string()).unwrap();
    assert!(matches!(d.state, DeviceStateValue::Light(l) if l == s));
    assert_eq!(d.last_updated, 7_000);
}

#[test]
fn update_of_unknown_device_is_refused() {
    let mut store = basic_store();
    let r = store.update_device_state(&"nope".to_string(), DeviceStateValue::Empty, 1);
    assert!(r.is_err());
}

#[test]
fn adding_twice_keeps_one_record() {
    let gw = DummyGateway::new("basic_home", 1);
    let mut store = StateStore::new();
    let info = gw.discover_devices().unwrap().into_iter().next().unwrap();
    let info2 = info.clone_info();
    store.add_device(info, DeviceStateValue::Empty, 1);
    store.add_device(info2, DeviceStateValue::Empty, 2);
    assert_eq!(store.device_count(), 1);
}

#[test]
fn add_device_stamps_the_given_time() {
    let gw = DummyGateway::new("basic_home", 1);
    let mut store = StateStore::new();
    let info = gw.discover_devices().unwrap().into_iter().next().unwrap();
    let id = info.device_id.clone();
    store.add_device(info, DeviceStateValue::Empty, 1_700_000_000_000);
    assert_eq!(store.get_device(&id).unwrap().last_updated, 1_700_000_000_000);
}

#[test]
fn event_history_is_bounded() {
    let mut bus = EventBus::new(3);
    for i in 0..10u64 {
        bus.publish(DeviceEvent { timestamp: i, device_id: "d".to_string(), event_type: EventType::DeviceRemoved });
    }
    assert_eq!(bus.history_len(), 3);
    let recent = bus.get_recent_events(Some(2));
    assert_eq!(recent.len(), 2);
    assert_eq!(recent[0].timestamp, 9);
    assert_eq!(recent[1].timestamp, 8);
}

#[test]
fn unknown_kind_debug_name_is_quoted() {
    assert_eq!(device_type_debug_name(&DeviceType::Light), "Light");
    assert_eq!(device_type_debug_name(&DeviceType::Unknown("a\"b".to_string())), "Unknown(\"a\\\"b\")");
}

#[test]
fn substring_search() {
    assert!(str_contains("motion_hallway", "hall"));
    assert!(!str_contains("motion", "motions"));
    assert!(str_contains("x", ""));
}

#[test]
fn listing_filters_by_kind_ignoring_case() {
    let store = basic_store();
    let lights = list_devices_filtered(&store, &Some("LIGHT".to_string()), &None, None);
    assert_eq!(lights.len(), 3);
    let motion = list_devices_filtered(&store, &Some("motion".to_string()), &None, Some(true));
    assert_eq!(motion.len(), 2);
    let in_group = list_devices_filtered(&store, &None, &Some(vec!["Kitchen".to_string()]), None);
    assert_eq!(in_group.len(), 0);
    let living = list_devices_filtered(&store, &None, &Some(vec!["Living Room".to_string()]), None);
    assert_eq!(living.len(), 8);
}

#[test]
fn merged_light_keeps_unset_fields() {
    let cur = LightState { is_on: false, brightness: Some(10), color_temp: Some(3000), rgb_color: None };
    let m = merge_light(cur, Some(true), None, Some(4000), Some(RgbColor { r: 1, g: 2, b: 3 }));
    assert!(m.is_on);
    assert_eq!(m.brightness, Some(10));
    assert_eq!(m.color_temp, Some(4000));
    assert_eq!(m.rgb_color, Some(RgbColor { r: 1, g: 2, b: 3 }));
}

#[test]
fn tcp_set_light_frame_round_trip() {
    let data = build_set_light_data(&b"lamp".to_vec(), &vec![9, 8]);
    let payload = build_request_payload(3, &data);
    match parse_tcp_request(&payload).unwrap() {
        TcpRequest::SetLightState { device_id, state_bytes } => {
            assert_eq!(device_id, "lamp");
            assert_eq!(state_bytes, vec![9, 8]);
        }
        other => panic!("unexpected {other:?}"),
    }
}

#[test]
fn tcp_errors() {
    assert_eq!(parse_tcp_request(&vec![]).unwrap_err(), "Empty payload");
    assert_eq!(parse_tcp_request(&vec![2]).unwrap_err(), "Missing device ID");
    assert_eq!(parse_tcp_request(&vec![2, 0xff]).unwrap_err(), "Invalid device ID");
    assert_eq!(parse_tcp_request(&vec![3, 1]).unwrap_err(), "Invalid payload");
    assert_eq!(parse_tcp_request(&vec![3, 9, 1]).unwrap_err(), "Invalid device ID length");
    assert_eq!(parse_tcp_request(&vec![7]).unwrap_err(), "Unknown request type");
    assert!(matches!(parse_tcp_request(&vec![1]).unwrap(), TcpRequest::DiscoverDevices));
    assert!(matches!(parse_tcp_request(&vec![2, b'a']).unwrap(), TcpRequest::GetDeviceState { device_id } if device_id == "a"));
}

#[test]
fn reconnect_delay_doubles_up_to_thirty() {
    assert_eq!(reconnect_delay_secs(0), 1);
    assert_eq!(reconnect_delay_secs(1), 2);
    assert_eq!(reconnect_delay_secs(3), 8);
    assert_eq!(reconnect_delay_secs(4), 16);
    assert_eq!(reconnect_delay_secs(5), 30);
    assert_eq!(reconnect_delay_secs(100), 30);
}

#[test]
fn server_addresses_gain_schemes() {
    assert_eq!(http_base_url_of("localhost:1".to_string()), "http://localhost:1");
    assert_eq!(http_base_url_of("https://h".to_string()), "https://h");
    let c = ApiClient::new("127.0.0.1:31337".to_string());
    assert_eq!(c.server_addr(), "127.0.0.1:31337");
    let _ = WebSocketClient::new("localhost:31337".to_string());
}

#[test]
fn incoming_state_change_is_forwarded() {
    let s = LightState { is_on: true, brightness: None, color_temp: None, rgb_color: None };
    let e = DeviceEvent { timestamp: 1, device_id: "l".to_string(),
        event_type: EventType::StateChanged { old_state: None, new_state: Some(DeviceStateValue::Light(s)) } };
    assert!(matches!(incoming_update(e), IncomingUpdate::State { device_id, .. } if device_id == "l"));
    let e2 = DeviceEvent { timestamp: 1, device_id: "l".to_string(),
        event_type: EventType::AttributeChanged { attribute: "state".to_string(), old_value: JsonValue::Null, new_value: JsonValue::Bool(true) } };
    assert!(matches!(incoming_update(e2), IncomingUpdate::StateJson { .. }));
    let e3 = DeviceEvent { timestamp: 1, device_id: "l".to_string(),
        event_type: EventType::AttributeChanged { attribute: "on".to_string(), old_value: JsonValue::Null, new_value: JsonValue::Bool(true) } };
    assert!(matches!(incoming_update(e3), IncomingUpdate::Ignore));
}

#[test]
fn mini_bar_rounds_to_tenths() {
    assert_eq!(create_mini_brightness_bar(0), "░░░░░░░░░░");
    assert_eq!(create_mini_brightness_bar(45), "█████░░░░░");
    assert_eq!(create_mini_brightness_bar(100), "██████████");
}

#[test]
fn truncation_marks_the_cut() {
    assert_eq!(truncate_string("short", 10), "short");
    assert_eq!(truncate_string("abcdefgh", 5), "abcd…");
}

#[test]
fn tui_tabs_wrap_around() {
    let mut app = TuiApp::new("ws://x".to_string(), vec![]);
    app.previous_tab();
    let last = app.current_tab;
    app.next_tab();
    assert_eq!(app.current_tab, 0);
    assert!(last > 0);
}

#[test]
fn event_log_keeps_fifty_lines() {
    let mut app = TuiApp::new("ws://x".to_string(), vec![]);
    for _ in 0..60 {
        app.add_event("12:00:00", "tick");
    }
    assert_eq!(app.events.len(), 50);
    assert_eq!(app.events[0], "12:00:00: tick");
}

#[test]
fn button_commands_ignore_case() {
    assert!(matches!(ButtonCommand::from_str("ON"), Some(ButtonCommand::On)));
    assert!(matches!(ButtonCommand::from_str("Inc"), Some(ButtonCommand::Inc)));
    assert!(matches!(ButtonCommand::from_str("set"), Some(ButtonCommand::SetValue)));
    assert!(ButtonCommand::from_str("toggle").is_none());
}

#[test]
fn simulated_kinds_follow_device_names() {
    assert_eq!(basic_home_kind("light_x", 0), BasicHomeKind::On);
    assert_eq!(basic_home_kind("light_x", 2), BasicHomeKind::Reachability);
    assert_eq!(basic_home_kind("switch_x", 2), BasicHomeKind::Button);
    assert_eq!(basic_home_kind("motion_x", 3), BasicHomeKind::Motion);
    assert_eq!(basic_home_kind("temperature_x", 4), BasicHomeKind::Temperature);
    assert_eq!(ambient_kind("light_motion"), AmbientKind::Light);
    assert_eq!(ambient_kind("outlet_tv"), AmbientKind::Outlet);
    assert_eq!(ambient_kind("blinds"), AmbientKind::Quiet);
    assert_eq!(press_of_roll(1), ButtonPressType::DoublePress);
    assert_eq!(press_of_roll(2), ButtonPressType::LongPress);
}

#[test]
fn simulated_events_carry_their_values() {
    let e = simulated_event("light_x".to_string(), SimulatedChange::Brightness { old: 3, new: 90 }, 11);
    match e.event_type {
        EventType::AttributeChanged { attribute, old_value, new_value } => {
            assert_eq!(attribute, "brightness");
            assert!(matches!(old_value, JsonValue::Number(JsonNumber::PosInt(3))));
            assert!(matches!(new_value, JsonValue::Number(JsonNumber::PosInt(90))));
        }
        other => panic!("unexpected {other:?}"),
    }
    let b = battery_drain("switch_x".to_string(), 80, 3, 5).unwrap();
    assert!(matches!(b.event_type, EventType::BatteryLevelChanged { old_level: 80, new_level: 77 }));
    assert!(battery_drain("light_x".to_string(), 80, 3, 5).is_none());
}

fn app_with_devices(n: usize, favorites: Vec<String>) -> TuiApp {
    let gw = DummyGateway::new("large_home", 1);
    let mut app = TuiApp::new("ws://x".to_string(), favorites);
    for info in gw.discover_devices().unwrap().into_iter().take(n) {
        let state = gw.get_device_state(&info.device_id).unwrap();
        app.devices.push(v1bectl::tui::AppDevice { info, state, last_updated: 1 });
    }
    app
}

#[test]
fn dashboard_shows_favorites_in_order() {
    let mut app = app_with_devices(8, vec!["outlet_tv".to_string(), "missing".to_string(), "light_kitchen".to_string()]);
    let favs = app.favorite_devices();
    assert_eq!(favs.len(), 2);
    assert_eq!(app.devices[favs[0]].info.device_id, "outlet_tv");
    assert_eq!(app.devices[favs[1]].info.device_id, "light_kitchen");
    let shown = app.layout_dashboard(5);
    assert_eq!(shown, favs);
    assert_eq!(app.scroll_offset, 0);
}

#[test]
fn dashboard_scrolls_to_selected_card() {
    let ids: Vec<String> = ["light_living_room", "light_kitchen", "light_bedroom", "switch_hallway", "motion_hallway"]
        .iter().map(|s| s.to_string()).collect();
    let mut app = app_with_devices(8, ids);
    app.selected_device = 4;
    let shown = app.layout_dashboard(2);
    assert_eq!(app.scroll_offset, 3);
    assert_eq!(shown.len(), 2);
    assert_eq!(app.devices[shown[1]].info.device_id, "motion_hallway");
}

#[test]
fn stats_count_devices_by_kind() {
    let app = app_with_devices(8, vec!["light_kitchen".to_string(), "light_bedroom".to_string()]);
    let s = app.stats();
    assert_eq!(s.total_devices, 8);
    assert_eq!(s.online_devices, 8);
    assert_eq!(s.favorites, 2);
    assert_eq!(s.favorite_lights_on, 1);
    assert_eq!(s.lights, 3);
    assert_eq!(s.sensors, 1);
    assert_eq!(s.switches, 1);
    assert_eq!(s.outlets, 1);
}
