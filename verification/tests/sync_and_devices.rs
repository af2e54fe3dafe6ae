use v1bectl::dummy::DummyGateway;
use v1bectl::event_producer::{event_scenario_of, EventScenario};
use v1bectl::json::{JsonNumber, JsonValue};
use v1bectl::manager::{AnyVirtualDevice, VirtualDeviceManager};
use v1bectl::screen_config::resolve_device_ref;
use v1bectl::screens::DeviceRef;
use v1bectl::server::create_button_controller;
use v1bectl::config::ButtonControllerConfig;
use v1bectl::state::{ButtonPressType, DeviceEvent, DeviceStateValue, DeviceType, EventType, LightState, SwitchState};
use v1bectl::store::StateStore;
use v1bectl::sync::{states_equal, GatewayChangeOutcome, SyncClock, SyncEngine, SyncStatus, SyncTask, SyncTaskType, SyncPriority};

fn basic_store() -> StateStore {
    let gw = DummyGateway::new("basic_home", 1_000);
    let mut store = StateStore::new();
    for info in gw.discover_devices().unwrap() {
        let state = gw.get_device_state(&info.device_id).unwrap();
        store.add_device(info, state, 1_000);
    }
    store
}

fn light(on: bool, b: u8) -> DeviceStateValue {
    DeviceStateValue::Light(LightState { is_on: on, brightness: Some(b), color_temp: None, rgb_color: None })
}

#[test]
fn optimistic_update_applies_at_once_and_buffers_a_push() {
    let mut store = basic_store();
    let mut engine = SyncEngine::new(None);
    let clock = SyncClock { wall_ms: 10_000, mono_ms: 5 };
    let id = "light_kitchen".to_string();
    let notice = engine.apply_optimistic_update(&mut store, &id, light(true, 42), clock).unwrap();
    assert!(notice.is_some());
    assert!(matches!(store.get_state(&id), Some(DeviceStateValue::Light(l)) if l.brightness == Some(42)));
    assert!(engine.was_optimistic(&id));
    assert!(matches!(engine.get_sync_status(&id), Some(SyncStatus::PendingSync { queued_at: 10_000 })));
    let buffered = engine.drain_sync_buffer();
    assert_eq!(buffered.len(), 1);
    assert_eq!(buffered[0].0, id);
}

#[test]
fn optimistic_update_of_unknown_device_is_refused() {
    let mut store = basic_store();
    let mut engine = SyncEngine::new(None);
    let clock = SyncClock { wall_ms: 10_000, mono_ms: 5 };
    assert!(engine.apply_optimistic_update(&mut store, &"ghost".to_string(), light(true, 1), clock).is_err());
}

#[test]
fn confirmed_push_is_not_overridden_by_stale_reading() {
    let mut store = basic_store();
    let mut engine = SyncEngine::new(None);
    let id = "light_kitchen".to_string();
    let clock = SyncClock { wall_ms: 10_000, mono_ms: 100 };
    engine.apply_optimistic_update(&mut store, &id, light(true, 42), clock).unwrap();
    let (dev, entry) = engine.drain_sync_buffer().into_iter().next().unwrap();
    let _task = engine.prepare_buffered_task(dev, entry, clock);
    let later = SyncClock { wall_ms: 11_000, mono_ms: 1_100 };
    let outcome = engine.handle_gateway_state_change(&mut store, &id, light(true, 75), later, 1, 1);
    assert!(matches!(outcome, GatewayChangeOutcome::Ignored));
    assert!(matches!(store.get_state(&id), Some(DeviceStateValue::Light(l)) if l.brightness == Some(42)));
    let outcome = engine.handle_gateway_state_change(&mut store, &id, light(true, 42), later, 1, 1);
    assert!(matches!(outcome, GatewayChangeOutcome::Confirmed(_)));
}

#[test]
fn gateway_wins_a_conflict_by_default() {
    let mut store = basic_store();
    let mut engine = SyncEngine::new(None);
    let id = "light_kitchen".to_string();
    let clock = SyncClock { wall_ms: 10_000, mono_ms: 100 };
    let outcome = engine.handle_gateway_state_change(&mut store, &id, light(false, 3), clock, 1, 1);
    assert!(matches!(outcome, GatewayChangeOutcome::AdoptedGatewayState(_)));
    assert!(matches!(store.get_state(&id), Some(DeviceStateValue::Light(l)) if !l.is_on && l.brightness == Some(3)));
    let again = engine.handle_gateway_state_change(&mut store, &id, light(false, 3), clock, 1, 1);
    assert!(matches!(again, GatewayChangeOutcome::AlreadyInSync));
}

#[test]
fn failed_tasks_back_off() {
    let mut engine = SyncEngine::new(None);
    let task = SyncTask { device_id: "d".to_string(), task_type: SyncTaskType::PullFromGateway, created_at: 0, priority: SyncPriority::Normal };
    let clock = SyncClock { wall_ms: 1, mono_ms: 1_000 };
    assert!(engine.retry_fits(&task.device_id, clock));
    engine.queue_retry(&task, "boom".to_string(), clock);
    assert_eq!(engine.ready_retries(SyncClock { wall_ms: 1, mono_ms: 1_499 }).len(), 0);
    assert_eq!(engine.ready_retries(SyncClock { wall_ms: 1, mono_ms: 1_500 }).len(), 1);
    engine.queue_retry(&task, "boom".to_string(), clock);
    assert_eq!(engine.ready_retries(SyncClock { wall_ms: 1, mono_ms: 1_999 }).len(), 0);
    assert_eq!(engine.ready_retries(SyncClock { wall_ms: 1, mono_ms: 2_000 }).len(), 1);
    assert_eq!(engine.get_sync_stats().retry_queue_size, 1);
}

#[test]
fn float_readings_compare_as_floats() {
    let a = DeviceStateValue::Sensor(v1bectl::state::SensorState { temperature_bits: Some(0.0f32.to_bits()), humidity_bits: None, last_updated: 1 });
    let b = DeviceStateValue::Sensor(v1bectl::state::SensorState { temperature_bits: Some((-0.0f32).to_bits()), humidity_bits: None, last_updated: 2 });
    assert!(states_equal(&a, &b));
    let n = DeviceStateValue::Sensor(v1bectl::state::SensorState { temperature_bits: Some(f32::NAN.to_bits()), humidity_bits: None, last_updated: 2 });
    assert!(!states_equal(&n, &n));
}

#[test]
fn device_refs_resolve_by_id_or_name() {
    let store = basic_store();
    let devices = store.list_devices();
    assert_eq!(resolve_device_ref(&DeviceRef::ById("x".to_string()), &devices), Some("x".to_string()));
    assert_eq!(resolve_device_ref(&DeviceRef::ByName("TV Outlet".to_string()), &devices), Some("outlet_tv".to_string()));
    assert_eq!(resolve_device_ref(&DeviceRef::ByName("Nobody".to_string()), &devices), None);
}

#[test]
fn scenario_names_choose_activity() {
    assert_eq!(event_scenario_of("ambient"), EventScenario::AmbientActivity);
    assert_eq!(event_scenario_of("basic_home"), EventScenario::BasicHome);
    assert_eq!(event_scenario_of("large_home"), EventScenario::BasicHome);
}

#[test]
fn record_for_change_is_a_placeholder_light() {
    let r = VirtualDeviceManager::record_for_change("abc".to_string(), DeviceStateValue::Empty, 77);
    assert_eq!(r.device_info.name, "Unknown");
    assert!(matches!(r.device_info.device_type, DeviceType::Light));
    assert_eq!(r.last_synced_to_gateway, Some(77));
}

#[test]
fn button_press_runs_its_action() {
    let mut store = basic_store();
    let cfg = ButtonControllerConfig {
        device_id: "btn".to_string(),
        name: "Button".to_string(),
        button: "switch_hallway".to_string(),
        press_on: vec![JsonValue::Str("set".to_string()), JsonValue::Str("light_bedroom".to_string()),
            JsonValue::Number(JsonNumber::PosInt(30))],
        press_off: vec![JsonValue::Str("off".to_string()), JsonValue::Str("light_bedroom".to_string())],
        press_on_long: None,
        press_off_long: None,
    };
    let c = create_button_controller(&cfg).unwrap();
    let mut manager = VirtualDeviceManager::new();
    manager.add_virtual_device(AnyVirtualDevice::ButtonController(c), &mut store, 5).unwrap();
    let press = DeviceEvent {
        timestamp: 6,
        device_id: "switch_hallway".to_string(),
        event_type: EventType::StateChanged {
            old_state: None,
            new_state: Some(DeviceStateValue::Switch(SwitchState { is_pressed: true, last_pressed: None, battery_level: None })),
        },
    };
    let ran = manager.dispatch_event(&press, &mut store, 7);
    assert_eq!(ran, 1);
    assert!(matches!(store.get_state("light_bedroom"), Some(DeviceStateValue::Light(l)) if l.brightness == Some(30)));
    let other = DeviceEvent { timestamp: 8, device_id: "light_kitchen".to_string(),
        event_type: EventType::ButtonPressed { button_id: "main".to_string(), press_type: ButtonPressType::SinglePress } };
    assert_eq!(manager.dispatch_event(&other, &mut store, 9), 0);
}
