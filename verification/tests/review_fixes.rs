use v1bectl::button_controller::execute_action;
use v1bectl::json::{JsonNumber, JsonValue};
use v1bectl::screens::preprocess_kdl_v1_compat;
use v1bectl::state::{DeviceInfo, DeviceStateValue, DeviceType, LightState};
use v1bectl::store::StateStore;
use v1bectl::sync::{GatewayChangeOutcome, SyncClock, SyncEngine};
use v1bectl::tui::{AppDevice, TuiApp, TuiKey};

fn light_info(id: &str) -> DeviceInfo {
    DeviceInfo {
        device_id: id.to_string(),
        name: id.to_string(),
        device_type: DeviceType::Light,
        capabilities: vec![],
        device_groups: vec![],
        manufacturer: None,
        model: None,
        firmware_version: None,
        battery_powered: false,
        reachable: true,
        last_seen: 0,
        custom_attributes: vec![],
    }
}

fn off() -> DeviceStateValue {
    DeviceStateValue::Light(LightState { is_on: false, brightness: Some(0), color_temp: None, rgb_color: None })
}

#[test]
fn only_whole_keywords_are_rewritten() {
    assert_eq!(preprocess_kdl_v1_compat("mode truecolor\nvalue nullable"), "mode truecolor\nvalue nullable\n");
    assert_eq!(preprocess_kdl_v1_compat("show true\nhide false;\nx null"), "show #true\nhide #false;\nx #null\n");
    assert_eq!(preprocess_kdl_v1_compat("title \"a true\""), "title \"a true\"\n");
}

#[test]
fn set_brightness_is_capped_at_full() {
    let mut store = StateStore::new();
    store.add_device(light_info("l1"), off(), 1);
    let action = vec![JsonValue::Str("set".to_string()), JsonValue::Str("l1".to_string()), JsonValue::Number(JsonNumber::PosInt(150))];
    execute_action(&action, &mut store, 2).unwrap();
    assert!(matches!(store.get_state("l1"), Some(DeviceStateValue::Light(l)) if l.brightness == Some(100) && l.is_on));
}

#[test]
fn conflict_on_an_unknown_device_reports_the_store_error() {
    let mut store = StateStore::new();
    let mut engine = SyncEngine::new(None);
    let clock = SyncClock { wall_ms: 10, mono_ms: 10 };
    let outcome = engine.resolve_conflict(&mut store, &"ghost".to_string(), off(),
        DeviceStateValue::Light(LightState { is_on: true, brightness: Some(5), color_temp: None, rgb_color: None }), clock, 0, 1);
    assert!(matches!(outcome, GatewayChangeOutcome::StoreUpdateFailed(ref m) if m == "Device not found: ghost"));
}

#[test]
fn favourite_key_toggles_the_selected_device() {
    let mut app = TuiApp::new("ws://h".to_string(), vec![]);
    app.devices.push(AppDevice { info: light_info("l1"), state: off(), last_updated: 0 });
    let out = app.handle_key(TuiKey::Char('f'), false, "12:00");
    assert!(out.save_favorites);
    assert_eq!(app.favorites, vec!["l1".to_string()]);
    assert!(app.events.last().unwrap().contains("Added l1 to favorites"));
    app.handle_key(TuiKey::Char('f'), false, "12:01");
    assert!(app.favorites.is_empty());
    let before = app.events.len();
    let out = app.handle_key(TuiKey::Char('w'), false, "12:02");
    assert_eq!(out.event_text.as_deref(), Some("🔵 Cool white (6500K)"));
    assert_eq!(app.events.len(), before);
}

#[test]
fn shift_arrows_move_the_selected_favourite() {
    let mut app = TuiApp::new("ws://h".to_string(), vec!["l1".to_string(), "l2".to_string()]);
    app.devices.push(AppDevice { info: light_info("l1"), state: off(), last_updated: 0 });
    app.devices.push(AppDevice { info: light_info("l2"), state: off(), last_updated: 0 });
    app.selected_device = 1;
    let out = app.handle_key(TuiKey::Up, true, "12:00");
    assert!(out.save_favorites);
    assert!(out.request.is_none());
    assert_eq!(app.favorites, vec!["l2".to_string(), "l1".to_string()]);
    assert!(app.events.last().unwrap().contains("Moved l2 up"));
    assert_eq!(app.selected_device, 1);
    let events = app.events.len();
    let out = app.handle_key(TuiKey::Up, true, "12:01");
    assert!(!out.save_favorites);
    assert_eq!(app.events.len(), events);
}
