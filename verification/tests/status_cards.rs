use v1bectl::state::{DeviceStateValue, DeviceType, LightState, OutletState, SensorState, SwitchState};
use v1bectl::tui::{card_border, device_icon, device_status, reachability_icon, BarColor, CardBorder, StatusLine, StatusValue};

fn text_of(line: &StatusLine) -> &str {
    match &line.value {
        StatusValue::Text(t) => t.as_str(),
        other => panic!("expected text, got {:?}", other),
    }
}

#[test]
fn light_on_shows_power_and_brightness() {
    let lines = device_status(&DeviceStateValue::Light(LightState { is_on: true, brightness: Some(64), color_temp: None,
        rgb_color: None }));
    assert_eq!(lines.len(), 2);
    assert_eq!(lines[0].label, "POWER: ");
    assert_eq!(text_of(&lines[0]), "⚡ ON");
    assert!(lines[0].lit);
    assert_eq!(lines[1].label, "DIM: ");
    match &lines[1].value {
        StatusValue::Brightness { bar, percent, color } => {
            assert_eq!(bar, "██████░░░░");
            assert_eq!(percent, " 64%");
            assert_eq!(*color, BarColor::Green);
        },
        other => panic!("expected a brightness, got {:?}", other),
    }
}

#[test]
fn light_off_without_brightness_is_dimmed() {
    let lines = device_status(&DeviceStateValue::Light(LightState { is_on: false, brightness: None, color_temp: None,
        rgb_color: None }));
    assert_eq!(text_of(&lines[0]), "OFF");
    assert!(!lines[0].lit);
    assert_eq!(text_of(&lines[1]), "N/A");
    assert!(!lines[1].lit);
}

#[test]
fn sensor_shows_readings_or_dashes() {
    let lines = device_status(&DeviceStateValue::Sensor(SensorState { temperature_bits: Some(21.5f32.to_bits()),
        humidity_bits: None, last_updated: 0 }));
    assert_eq!(lines[0].label, "TEMP: ");
    match lines[0].value {
        StatusValue::Celsius(t) => assert_eq!(f32::from_bits(t), 21.5),
        ref other => panic!("expected a temperature, got {:?}", other),
    }
    assert_eq!(lines[1].label, "HUM: ");
    assert_eq!(text_of(&lines[1]), "--");
}

#[test]
fn outlet_and_switch_cards() {
    let on = device_status(&DeviceStateValue::Outlet(OutletState { is_on: true, power_consumption_bits: None,
        total_energy_bits: None }));
    assert_eq!(text_of(&on[0]), "🔌 ON");
    assert_eq!(text_of(&on[1]), "POWERED");
    let idle = device_status(&DeviceStateValue::Switch(SwitchState { is_pressed: false, last_pressed: None,
        battery_level: None }));
    assert_eq!(idle[0].label, "SWITCH: ");
    assert_eq!(text_of(&idle[0]), "○ IDLE");
    assert_eq!(text_of(&idle[1]), "");
    let empty = device_status(&DeviceStateValue::Empty);
    assert_eq!(empty.len(), 2);
    assert_eq!(empty[0].label, "");
}

#[test]
fn stats_events_newest_first_as_many_as_fit() {
    let mut app = v1bectl::tui::TuiApp::new("ws://h".to_string(), vec![]);
    app.add_event("1", "a");
    app.add_event("2", "b");
    app.add_event("3", "c");
    let shown = app.recent_events(4);
    assert_eq!(shown.len(), 2);
    assert!(shown[0].contains('c'));
    assert!(shown[1].contains('b'));
    assert_eq!(app.recent_events(2).len(), 0);
    assert_eq!(app.recent_events(10).len(), 3);
}

#[test]
fn card_borders_and_icons() {
    let on = DeviceStateValue::Light(LightState { is_on: true, brightness: None, color_temp: None, rgb_color: None });
    let off = DeviceStateValue::Outlet(OutletState { is_on: false, power_consumption_bits: None, total_energy_bits: None });
    assert_eq!(card_border(&on, false), CardBorder::Yellow);
    assert_eq!(card_border(&off, false), CardBorder::DarkGray);
    assert_eq!(card_border(&off, true), CardBorder::Yellow);
    assert_eq!(card_border(&DeviceStateValue::Empty, false), CardBorder::DarkGray);
    assert_eq!(device_icon(&DeviceType::Outlet), "🔌");
    assert_eq!(device_icon(&DeviceType::Blinds), "❓");
    assert_eq!(reachability_icon(false), "🔴");
}
