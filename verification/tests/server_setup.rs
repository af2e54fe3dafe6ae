use v1bectl::api::{handle_api_request, ApiRequest, ApiResponse, ApiServerState, ApiStep};
use v1bectl::config::{ButtonControllerConfig, LightGroupConfig, LightGroupLinearConfig, LightGroupLinearSettings, LightGroupSettings};
use v1bectl::dummy::DummyGateway;
use v1bectl::gateway::GatewayError;
use v1bectl::json::{JsonNumber, JsonValue};
use v1bectl::manager::{AnyVirtualDevice, VirtualDeviceManager};
use v1bectl::server::{add_discovered_device, create_button_controller, create_light_group, create_linear_group,
    linear_ranges, resolve_members, trim_trailing_stars, pattern_matches};
use v1bectl::state::{DeviceStateValue, EventType, LightState};
use v1bectl::store::StateStore;
use v1bectl::sync::SyncClock;
use v1bectl::virtual_device::{VirtualDeviceError, VirtualDeviceType};

fn basic_store() -> StateStore {
    let gw = DummyGateway::new("basic_home", 1_000);
    let mut store = StateStore::new();
    for info in gw.discover_devices().unwrap() {
        let state = gw.get_device_state(&info.device_id);
        let _ = add_discovered_device(&mut store, info, state, 1_000);
    }
    store
}

fn strings(v: &[&str]) -> Vec<String> {
    v.iter().map(|s| s.to_string()).collect()
}

#[test]
fn discovered_devices_join_the_store() {
    let store = basic_store();
    assert_eq!(store.device_count(), 8);
    assert_eq!(store.reachable_device_count(), 8);
}

#[test]
fn discovered_device_is_announced_with_its_kind() {
    let gw = DummyGateway::new("basic_home", 5);
    let mut store = StateStore::new();
    let info = gw.discover_devices().unwrap().into_iter().next().unwrap();
    let id = info.device_id.clone();
    let state = gw.get_device_state(&id);
    let ev = add_discovered_device(&mut store, info, state, 42).unwrap();
    assert_eq!(ev.device_id, id);
    assert_eq!(ev.timestamp, 42);
    assert!(matches!(ev.event_type, EventType::DeviceAdded { ref device_type } if device_type == "Light"));
}

#[test]
fn device_without_state_is_left_out() {
    let gw = DummyGateway::new("basic_home", 5);
    let mut store = StateStore::new();
    let info = gw.discover_devices().unwrap().into_iter().next().unwrap();
    let ev = add_discovered_device(&mut store, info, Err(GatewayError::Timeout), 42);
    assert!(ev.is_none());
    assert_eq!(store.device_count(), 0);
}

#[test]
fn trailing_stars_are_trimmed() {
    assert_eq!(trim_trailing_stars("light_*"), "light_");
    assert_eq!(trim_trailing_stars("a**"), "a");
    assert_eq!(trim_trailing_stars("a*b"), "a*b");
    assert_eq!(trim_trailing_stars("***"), "");
}

#[test]
fn patterns_match_prefixes_or_exact_ids() {
    assert!(pattern_matches("light_kitchen", "light_*"));
    assert!(!pattern_matches("switch_hallway", "light_*"));
    assert!(pattern_matches("light_kitchen", "light_kitchen"));
    assert!(!pattern_matches("light_kitchen2", "light_kitchen"));
}

#[test]
fn wildcard_members_follow_store_order_without_exclusions() {
    let store = basic_store();
    let members = resolve_members(&strings(&["light_*", "outlet_tv", "lamp_x"]), &strings(&["light_bed*"]), &store);
    assert_eq!(members, strings(&["light_living_room", "light_kitchen", "outlet_tv", "lamp_x"]));
}

#[test]
fn exact_exclusion_removes_one_member() {
    let store = basic_store();
    let members = resolve_members(&strings(&["motion_*"]), &strings(&["motion_kitchen"]), &store);
    assert_eq!(members, strings(&["motion_hallway"]));
}

#[test]
fn light_group_from_config_uses_identity_curves() {
    let store = basic_store();
    let cfg = LightGroupConfig {
        device_id: "group_lights".to_string(),
        name: "All lights".to_string(),
        members: strings(&["light_*"]),
        brightness_curves: vec![],
        settings: LightGroupSettings::default(),
    };
    let (members, group) = create_light_group(&cfg, &store);
    assert_eq!(members, strings(&["light_living_room", "light_kitchen", "light_bedroom"]));
    let group = group.unwrap();
    let config = group.config();
    assert_eq!(config.description.as_deref(), Some("Light group with 3 members"));
    assert_eq!(config.device_type, VirtualDeviceType::LightGroup);
    assert_eq!(group.output_devices(), members);
}

#[test]
fn light_group_drives_members_one_to_one() {
    let mut store = basic_store();
    let cfg = LightGroupConfig {
        device_id: "group_lights".to_string(),
        name: "All lights".to_string(),
        members: strings(&["light_kitchen", "light_living_room"]),
        brightness_curves: vec![],
        settings: LightGroupSettings::default(),
    };
    let (_, group) = create_light_group(&cfg, &store);
    let mut group = group.unwrap();
    let on = LightState { is_on: true, brightness: Some(40), color_temp: None, rgb_color: None };
    group.set_state(DeviceStateValue::Light(on), &mut store, 2_000).unwrap();
    for id in ["light_kitchen", "light_living_room"] {
        match store.get_state(id) {
            Some(DeviceStateValue::Light(l)) => {
                assert!(l.is_on);
                assert_eq!(l.brightness, Some(40));
            }
            other => panic!("unexpected state {other:?}"),
        }
    }
}

#[test]
fn linear_group_later_range_wins() {
    let ranges = linear_ranges(&vec![("a".to_string(), [0, 50]), ("b".to_string(), [10, 20]), ("a".to_string(), [5, 100])]);
    assert_eq!(ranges, vec![("a".to_string(), (5, 100)), ("b".to_string(), (10, 20))]);
}

#[test]
fn linear_group_needs_a_range_per_member() {
    let cfg = LightGroupLinearConfig {
        device_id: "lin".to_string(),
        name: "Linear".to_string(),
        members: vec![("top".to_string(), "light_kitchen".to_string()), ("low".to_string(), "light_bedroom".to_string())],
        brightness: vec![("top".to_string(), [0, 100])],
        settings: LightGroupLinearSettings::default(),
    };
    match create_linear_group(&cfg) {
        Err(VirtualDeviceError::Config(m)) => assert_eq!(m, "Missing brightness range for member: low"),
        Err(e) => panic!("unexpected {e:?}"),
        Ok(_) => panic!("expected a refusal"),
    }
}

#[test]
fn linear_group_maps_onto_ranges() {
    let cfg = LightGroupLinearConfig {
        device_id: "lin".to_string(),
        name: "Linear".to_string(),
        members: vec![("top".to_string(), "light_kitchen".to_string())],
        brightness: vec![("top".to_string(), [20, 60])],
        settings: LightGroupLinearSettings::default(),
    };
    let g = create_linear_group(&cfg).unwrap();
    assert_eq!(g.config().description.as_deref(), Some("Linear light group with 1 members"));
    assert_eq!(g.map_brightness("top", 0), 0);
    assert_eq!(g.map_brightness("top", 100), 60);
    assert_eq!(g.map_brightness("top", 50), 40);
}

#[test]
fn button_controller_from_config() {
    let cfg = ButtonControllerConfig {
        device_id: "btn".to_string(),
        name: "Button".to_string(),
        button: "switch_hallway".to_string(),
        press_on: vec![JsonValue::Str("on".to_string()), JsonValue::Str("light_kitchen".to_string())],
        press_off: vec![JsonValue::Str("off".to_string()), JsonValue::Str("light_kitchen".to_string())],
        press_on_long: None,
        press_off_long: Some(vec![JsonValue::Str("set".to_string()), JsonValue::Str("light_kitchen".to_string()),
            JsonValue::Number(JsonNumber::PosInt(10))]),
    };
    let c = create_button_controller(&cfg).unwrap();
    assert_eq!(c.config().description.as_deref(), Some("Button controller for switch_hallway"));
    assert_eq!(c.input_devices(), strings(&["switch_hallway"]));
}

#[test]
fn registered_group_is_listed_and_answers_requests() {
    let mut store = basic_store();
    let cfg = LightGroupConfig {
        device_id: "group_lights".to_string(),
        name: "All lights".to_string(),
        members: strings(&["light_*"]),
        brightness_curves: vec![],
        settings: LightGroupSettings::default(),
    };
    let (_, group) = create_light_group(&cfg, &store);
    let mut manager = VirtualDeviceManager::new();
    manager.add_virtual_device(AnyVirtualDevice::LightGroup(group.unwrap()), &mut store, 3_000).unwrap();
    assert_eq!(manager.list_virtual_devices(3_000).len(), 1);
    let mut st = ApiServerState { store, manager, sync_engine: None };
    let clock = SyncClock { wall_ms: 4_000, mono_ms: 10 };
    let step = handle_api_request(&mut st, ApiRequest::GetDeviceState { device_id: "group_lights".to_string() },
        "sub".to_string(), clock);
    assert!(matches!(step, ApiStep::Reply { response: ApiResponse::DeviceState { .. }, .. }));
}
