use v1bectl::api::{handle_api_request, ApiRequest, ApiResponse, ApiServerState, ApiStep};
use v1bectl::config::{LightGroupConfig, LightGroupSettings};
use v1bectl::dummy::DummyGateway;
use v1bectl::json::JsonValue;
use v1bectl::manager::{AnyVirtualDevice, VirtualDeviceManager};
use v1bectl::server::{add_discovered_device, create_light_group};
use v1bectl::state::{DeviceStateValue, LightState};
use v1bectl::store::StateStore;
use v1bectl::sync::SyncClock;
use v1bectl::virtual_device::{VirtualDeviceConfig, VirtualDeviceType};

fn store_of(scenario: &str) -> StateStore {
    let gw = DummyGateway::new(scenario, 1_000);
    let mut store = StateStore::new();
    for info in gw.discover_devices().unwrap() {
        let state = gw.get_device_state(&info.device_id);
        let _ = add_discovered_device(&mut store, info, state, 1_000);
    }
    store
}

fn clock() -> SyncClock {
    SyncClock { wall_ms: 4_000, mono_ms: 10 }
}

fn server_with_group(members: &[&str]) -> ApiServerState {
    let mut store = store_of("basic_home");
    let cfg = LightGroupConfig {
        device_id: "group_lights".to_string(),
        name: "Lights".to_string(),
        members: members.iter().map(|s| s.to_string()).collect(),
        brightness_curves: vec![],
        settings: LightGroupSettings::default(),
    };
    let (_, group) = create_light_group(&cfg, &store);
    let mut manager = VirtualDeviceManager::new();
    manager.add_virtual_device(AnyVirtualDevice::LightGroup(group.unwrap()), &mut store, 3_000).unwrap();
    ApiServerState { store, manager, sync_engine: None }
}

fn error_of(step: ApiStep) -> (String, String) {
    match step {
        ApiStep::Reply { response: ApiResponse::Error { code, message }, .. } => (code, message),
        other => panic!("expected an error, got {:?}", other),
    }
}

fn light_of(gw: &DummyGateway, id: &str) -> LightState {
    match gw.get_device_state(&id.to_string()).unwrap() {
        DeviceStateValue::Light(l) => l,
        other => panic!("expected a light, got {:?}", other),
    }
}

fn set_group_light(st: &mut ApiServerState, brightness: u8) -> ApiStep {
    handle_api_request(st, ApiRequest::SetLightState { device_id: "group_lights".to_string(), is_on: Some(true),
        brightness: Some(brightness), color_temp: None, rgb_color: None }, "sub".to_string(), clock())
}

#[test]
fn basic_home_devices_come_in_order() {
    let gw = DummyGateway::new("basic_home", 5);
    let ids: Vec<String> = gw.discover_devices().unwrap().into_iter().map(|d| d.device_id).collect();
    assert_eq!(ids, vec!["light_living_room", "light_kitchen", "light_bedroom", "switch_hallway", "motion_hallway",
        "motion_kitchen", "temperature_living_room", "outlet_tv"]);
    assert_eq!(light_of(&gw, "light_kitchen"), LightState { is_on: true, brightness: Some(75), color_temp: None, rgb_color: None });
}

#[test]
fn large_home_adds_rooms_and_zones() {
    let gw = DummyGateway::new("large_home", 5);
    let ids: Vec<String> = gw.discover_devices().unwrap().into_iter().map(|d| d.device_id).collect();
    assert_eq!(ids.len(), 38);
    assert_eq!(ids[8], "light_room_1");
    assert_eq!(ids[27], "light_room_20");
    assert_eq!(ids[28], "sensor_zone_1");
    assert_eq!(ids[37], "sensor_zone_10");
    assert_eq!(light_of(&gw, "light_room_3"), LightState { is_on: true, brightness: Some(15), color_temp: None, rgb_color: None });
    assert_eq!(light_of(&gw, "light_room_20"), LightState { is_on: false, brightness: Some(0), color_temp: None, rgb_color: None });
    match gw.get_device_state(&"sensor_zone_4".to_string()).unwrap() {
        DeviceStateValue::Sensor(s) => assert_eq!(f32::from_bits(s.temperature_bits.unwrap()), 22.0),
        other => panic!("expected a sensor, got {:?}", other),
    }
}

#[test]
fn group_light_update_answers_with_the_group_state() {
    let mut st = server_with_group(&["light_kitchen", "light_bedroom"]);
    match set_group_light(&mut st, 40) {
        ApiStep::Reply { response: ApiResponse::LightUpdated { new_state }, .. } => {
            assert!(new_state.is_on);
            assert_eq!(new_state.brightness, Some(40));
        },
        other => panic!("expected an update, got {:?}", other),
    }
    match st.store.get_state("light_kitchen") {
        Some(DeviceStateValue::Light(l)) => assert_eq!(l.brightness, Some(40)),
        other => panic!("expected a light, got {:?}", other),
    }
}

#[test]
fn group_with_unknown_member_reports_it() {
    let mut st = server_with_group(&["light_kitchen", "ghost_light"]);
    let (code, message) = error_of(set_group_light(&mut st, 40));
    assert_eq!(code, "VIRTUAL_UPDATE_FAILED");
    assert_eq!(message, "Virtual device update failed: State store error: Device not found: ghost_light");
}

#[test]
fn scene_request_to_a_light_group_is_refused() {
    let mut st = server_with_group(&["light_kitchen"]);
    let step = handle_api_request(&mut st, ApiRequest::ActivateScene { device_id: "group_lights".to_string(),
        scene_name: "movie".to_string() }, "sub".to_string(), clock());
    let (code, message) = error_of(step);
    assert_eq!(code, "SCENE_FAILED");
    assert_eq!(message, "Failed to activate scene: Invalid state type for this virtual device");
}

#[test]
fn scene_request_to_unknown_device_is_refused() {
    let mut st = server_with_group(&["light_kitchen"]);
    let step = handle_api_request(&mut st, ApiRequest::ActivateScene { device_id: "nope".to_string(),
        scene_name: "movie".to_string() }, "sub".to_string(), clock());
    let (code, message) = error_of(step);
    assert_eq!(code, "SCENE_FAILED");
    assert_eq!(message, "Failed to activate scene: Device not found: nope");
}

#[test]
fn removing_unknown_virtual_device_succeeds() {
    let mut st = server_with_group(&["light_kitchen"]);
    let step = handle_api_request(&mut st, ApiRequest::RemoveVirtualDevice { device_id: "nope".to_string() },
        "sub".to_string(), clock());
    assert!(matches!(step, ApiStep::Reply { response: ApiResponse::VirtualDeviceRemoved { ref device_id }, .. }
        if device_id == "nope"));
}

#[test]
fn light_group_with_bad_config_is_not_created() {
    let mut st = server_with_group(&["light_kitchen"]);
    let config = VirtualDeviceConfig {
        device_id: "g2".to_string(),
        device_type: VirtualDeviceType::LightGroup,
        name: "G2".to_string(),
        description: None,
        enabled: true,
        config: JsonValue::Null,
    };
    let (code, message) = error_of(handle_api_request(&mut st, ApiRequest::CreateVirtualDevice { config },
        "sub".to_string(), clock()));
    assert_eq!(code, "CREATE_FAILED");
    assert_eq!(message, "Failed to create light group: Configuration error: Invalid lights config");
}

#[test]
fn placeholder_discovery_is_empty() {
    let r = v1bectl::api::handle_discover_devices().unwrap();
    assert!(r.devices.is_empty());
    assert_eq!(r.total_count, 0);
    assert_eq!(v1bectl::api::ApiError::Internal.to_display_string(), "Internal error");
}
