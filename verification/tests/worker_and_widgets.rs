use v1bectl::dummy::DummyGateway;
use v1bectl::screen_config::{widget_plan, WidgetPlan};
use v1bectl::screens::{DeviceRef, Element};
use v1bectl::server::add_discovered_device;
use v1bectl::state::{DeviceState, DeviceStateValue, LightState};
use v1bectl::store::StateStore;
use v1bectl::sync::{task_call, SyncClock, SyncEngine, SyncPriority, SyncStatus, SyncTask, SyncTaskType, TaskCall};

fn known_devices() -> Vec<DeviceState> {
    let gw = DummyGateway::new("basic_home", 1_000);
    let mut store = StateStore::new();
    for info in gw.discover_devices().unwrap() {
        let state = gw.get_device_state(&info.device_id);
        let _ = add_discovered_device(&mut store, info, state, 1_000);
    }
    store.list_devices()
}

fn task(task_type: SyncTaskType) -> SyncTask {
    SyncTask { device_id: "light_kitchen".to_string(), task_type, created_at: 0, priority: SyncPriority::Normal }
}

#[test]
fn each_task_kind_makes_its_gateway_call() {
    let on = DeviceStateValue::Light(LightState { is_on: true, brightness: Some(40), color_temp: None, rgb_color: None });
    assert!(matches!(task_call(&task(SyncTaskType::PushToGateway { new_state: on })),
        TaskCall::Push(DeviceStateValue::Light(l)) if l.is_on && l.brightness == Some(40)));
    assert!(matches!(task_call(&task(SyncTaskType::PullFromGateway)), TaskCall::PullAndReconcile));
    assert!(matches!(task_call(&task(SyncTaskType::ForceRefresh)), TaskCall::ReadAndOverwrite));
}

#[test]
fn finishing_a_task_records_success_or_the_error() {
    let mut engine = SyncEngine::new(None);
    let id = "light_kitchen".to_string();
    let t = task(SyncTaskType::PullFromGateway);
    engine.finish_sync_task(&t, Err("timeout".to_string()), SyncClock { wall_ms: 7, mono_ms: 1 });
    assert!(matches!(engine.get_sync_status(&id), Some(SyncStatus::Failed { error, failed_at: 7 }) if error == "timeout"));
    engine.finish_sync_task(&t, Ok(()), SyncClock { wall_ms: 9, mono_ms: 2 });
    assert!(matches!(engine.get_sync_status(&id), Some(SyncStatus::InSync { last_synced: 9 })));
}

#[test]
fn a_light_element_on_an_outlet_becomes_an_outlet_row() {
    let devices = known_devices();
    let light_on_outlet = Element::Light {
        name: "TV".to_string(),
        device_ref: DeviceRef::ById("outlet_tv".to_string()),
        show_switch: true,
        show_slider: true,
    };
    assert!(matches!(widget_plan(&light_on_outlet, &devices), Some(WidgetPlan::OutletRow { device_id }) if device_id == "outlet_tv"));

    let real_light = Element::Light {
        name: "Kitchen".to_string(),
        device_ref: DeviceRef::ByName("Kitchen Light".to_string()),
        show_switch: false,
        show_slider: true,
    };
    match widget_plan(&real_light, &devices) {
        Some(WidgetPlan::LightRow { device_id, show_switch, show_slider }) => {
            assert_eq!(device_id, "light_kitchen");
            assert!(!show_switch);
            assert!(show_slider);
        }
        other => panic!("expected a light row, got {:?}", other),
    }

    let unknown = Element::Light {
        name: "Ghost".to_string(),
        device_ref: DeviceRef::ByName("No such lamp".to_string()),
        show_switch: true,
        show_slider: false,
    };
    assert!(matches!(widget_plan(&unknown, &devices), Some(WidgetPlan::LightRow { device_id, .. }) if device_id.is_empty()));

    let sensor = Element::Sensor { device_ref: DeviceRef::ById("x".to_string()), show_temp: true, show_humidity: false };
    assert!(matches!(widget_plan(&sensor, &devices),
        Some(WidgetPlan::SensorRow { device_id, show_temp: true, show_humidity: false }) if device_id == "x"));
    assert!(widget_plan(&Element::Text { template: "hi".to_string() }, &devices).is_none());
}
