use v1bectl::config::{LightGroupConfig, LightGroupSettings};
use v1bectl::dummy::DummyGateway;
use v1bectl::events::EventBus;
use v1bectl::light_group::BrightnessCurve;
use v1bectl::manager::{AnyVirtualDevice, VirtualDeviceManager};
use v1bectl::screen_config::parse_config;
use v1bectl::screens::preprocess_kdl_v1_compat;
use v1bectl::server::{add_discovered_device, create_light_group};
use v1bectl::state::{DeviceEvent, EventType};
use v1bectl::store::StateStore;
use v1bectl::virtual_device::VirtualDeviceError;

#[test]
fn breakpoint_order_does_not_change_the_curve() {
    let sorted = BrightnessCurve { breakpoints: vec![(0, 0), (25, 50), (75, 75), (100, 100)] };
    let shuffled = BrightnessCurve { breakpoints: vec![(75, 75), (0, 0), (100, 100), (25, 50)] };
    for g in 0..=255u8 {
        assert_eq!(sorted.interpolate(g), shuffled.interpolate(g), "at {}", g);
    }
    assert_eq!(shuffled.interpolate(50), 63);
}

#[test]
fn kdl_rewrite_applied_twice_changes_nothing_more() {
    let content = "screen \"a\" {\n    show true\n    hide false;\n    label \"true\"\n    x null}\n";
    let once = preprocess_kdl_v1_compat(content);
    let twice = preprocess_kdl_v1_compat(&once);
    assert_eq!(once, twice);
    assert!(once.contains("show #true"));
    assert!(once.contains("hide #false;"));
    assert!(once.contains("label \"true\""));
    assert!(once.contains("x #null}"));
}

#[test]
fn a_series_of_publishes_keeps_the_latest_newest_first() {
    let mut bus = EventBus::new(3);
    for i in 1..=5u64 {
        bus.publish(DeviceEvent { timestamp: i, device_id: format!("d{}", i), event_type: EventType::DeviceRemoved });
    }
    let all: Vec<u64> = bus.get_recent_events(None).iter().map(|e| e.timestamp).collect();
    assert_eq!(all, vec![5, 4, 3]);
    let two: Vec<u64> = bus.get_recent_events(Some(2)).iter().map(|e| e.timestamp).collect();
    assert_eq!(two, vec![5, 4]);
    let many: Vec<u64> = bus.get_recent_events(Some(10)).iter().map(|e| e.timestamp).collect();
    assert_eq!(many, vec![5, 4, 3]);
}

#[test]
fn removing_a_virtual_device_undoes_adding_it() {
    let gw = DummyGateway::new("basic_home", 1_000);
    let mut store = StateStore::new();
    for info in gw.discover_devices().unwrap() {
        let state = gw.get_device_state(&info.device_id);
        let _ = add_discovered_device(&mut store, info, state, 1_000);
    }
    let before = store.device_count();
    let cfg = LightGroupConfig {
        device_id: "group_lights".to_string(),
        name: "Lights".to_string(),
        members: vec!["light_living_room".to_string(), "light_kitchen".to_string()],
        brightness_curves: vec![],
        settings: LightGroupSettings::default(),
    };
    let (_, group) = create_light_group(&cfg, &store);
    let mut manager = VirtualDeviceManager::new();
    manager.add_virtual_device(AnyVirtualDevice::LightGroup(group.unwrap()), &mut store, 3_000).unwrap();
    let id = "group_lights".to_string();
    assert!(store.get_device(&id).is_some());
    assert!(manager.get_virtual_device_state(&id).is_ok());

    assert!(manager.remove_virtual_device(&id, &mut store).is_ok());
    assert!(store.get_device(&id).is_none());
    assert_eq!(store.device_count(), before);
    assert!(matches!(manager.get_virtual_device_state(&id), Err(VirtualDeviceError::DeviceNotFound(d)) if d == "group_lights"));
    assert!(manager.list_virtual_devices(4_000).is_empty());

    assert!(manager.remove_virtual_device(&id, &mut store).is_ok());
    assert_eq!(store.device_count(), before);
}

#[test]
fn a_broken_document_reports_the_parser_message() {
    let res = parse_config("screen \"a\" {");
    assert_eq!(res.err(), Some("KDL parse error: Failed to parse KDL document".to_string()));
}
