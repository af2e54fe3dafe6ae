use v1bectl::cli::{cli_light_update, describe_state, device_rows, event_print_line, join_strings, new_state_lines, subscribe_banner, StateLine};
use v1bectl::json::JsonValue;
use v1bectl::dummy::DummyGateway;
use v1bectl::server::add_discovered_device;
use v1bectl::state::{ButtonPressType, DeviceEvent, DeviceStateValue, EventType, LightState, RgbColor, SwitchState};
use v1bectl::store::StateStore;

fn light(on: bool, b: Option<u8>, t: Option<u16>) -> LightState {
    LightState { is_on: on, brightness: b, color_temp: t, rgb_color: Some(RgbColor { r: 1, g: 2, b: 3 }) }
}

#[test]
fn light_update_replaces_given_fields() {
    let l = cli_light_update(light(false, Some(20), None), Some(true), Some(80), Some(3000));
    assert_eq!(l, LightState { is_on: true, brightness: Some(80), color_temp: Some(3000), rgb_color: Some(RgbColor { r: 1, g: 2, b: 3 }) });
}

#[test]
fn switching_off_clears_brightness_unless_given() {
    assert_eq!(cli_light_update(light(true, Some(60), Some(2700)), Some(false), None, None).brightness, None);
    assert_eq!(cli_light_update(light(true, Some(60), None), Some(false), Some(10), None).brightness, Some(10));
    assert_eq!(cli_light_update(light(true, Some(60), None), None, None, None).brightness, Some(60));
}

#[test]
fn listing_rows_follow_the_store() {
    let gw = DummyGateway::new("basic_home", 1);
    let mut store = StateStore::new();
    for info in gw.discover_devices().unwrap() {
        let state = gw.get_device_state(&info.device_id);
        let _ = add_discovered_device(&mut store, info, state, 1);
    }
    let rows = device_rows(&store.list_devices());
    assert_eq!(rows.len(), 8);
    assert_eq!(rows[0].id, "light_living_room");
    assert_eq!(rows[0].name, "Living Room Light");
    assert_eq!(rows[0].device_type, "Light");
    assert_eq!(rows[0].groups, "Living Room");
    assert_eq!(rows[0].reachable, "✓");
    assert_eq!(rows[4].device_type, "MotionSensor");
}

#[test]
fn strings_join_with_separator() {
    let parts = vec!["a".to_string(), "b".to_string(), "c".to_string()];
    assert_eq!(join_strings(&parts, ", "), "a, b, c");
    assert_eq!(join_strings(&vec![], ", "), "");
    assert_eq!(subscribe_banner(&vec![]), "📡 Subscribing to ALL device events");
    assert_eq!(subscribe_banner(&parts), "📡 Subscribing to devices: a, b, c");
}

#[test]
fn states_are_described_line_by_line() {
    let lines = describe_state(&DeviceStateValue::Light(light(true, Some(40), None)));
    let texts: Vec<String> = lines.into_iter().map(|l| match l { StateLine::Text(t) => t, other => panic!("{:?}", other) }).collect();
    assert_eq!(texts, vec!["Type: Light", "State: ON", "Brightness: 40%", "RGB Color: (1, 2, 3)"]);
    let sw = describe_state(&DeviceStateValue::Switch(SwitchState { is_pressed: true, last_pressed: None, battery_level: None }));
    assert!(matches!(&sw[1], StateLine::Text(t) if t == "Pressed: true"));
    assert!(matches!(describe_state(&DeviceStateValue::Empty)[0], StateLine::Text(ref t) if t == "Type: Virtual Controller (no state)"));
    assert_eq!(new_state_lines(&light(false, None, Some(2700))), vec!["  On: false", "  Color temp: 2700K"]);
}

#[test]
fn event_lines_name_what_happened() {
    let ev = |event_type| DeviceEvent { timestamp: 0, device_id: "lamp".to_string(), event_type };
    assert_eq!(
        event_print_line(&ev(EventType::BatteryLevelChanged { old_level: 80, new_level: 79 }), "12:00:00.000", "", ""),
        "⚡ [12:00:00.000] 🔋 BATTERY - lamp at 79%"
    );
    assert_eq!(
        event_print_line(&ev(EventType::ButtonPressed { button_id: "main".to_string(), press_type: ButtonPressType::LongPress }), "t", "", ""),
        "⚡ [t] 🔘 BUTTON PRESS - lamp main (LongPress)"
    );
    assert_eq!(
        event_print_line(&ev(EventType::DeviceReachabilityChanged { reachable: false }), "t", "", ""),
        "⚡ [t] 📶 CONNECTIVITY - lamp is now OFFLINE"
    );
    assert_eq!(
        event_print_line(&ev(EventType::AttributeChanged { attribute: "state".to_string(), old_value: JsonValue::Null, new_value: JsonValue::Bool(true) }), "t", "true", ""),
        "⚡ [t] 🔄 ATTRIBUTE CHANGED - lamp state: true"
    );
    assert_eq!(
        event_print_line(&ev(EventType::StateChanged { old_state: None, new_state: None }), "t", "", "StateChanged { .. }"),
        "⚡ [t] 📨 StateChanged { .. } - lamp"
    );
}
