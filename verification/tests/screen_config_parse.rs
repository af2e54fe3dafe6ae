use v1bectl::screen_config::parse_config;
use v1bectl::screens::{DeviceRef, Element};

#[test]
fn test_parse_server_config() {
    let kdl = r#"server "myhost.local" port=31337"#;
    let config = parse_config(kdl).unwrap();
    assert_eq!(config.server.host, "myhost.local");
    assert_eq!(config.server.port, 31337);
}

#[test]
fn test_parse_server_default_port() {
    let kdl = r#"server "myhost.local""#;
    let config = parse_config(kdl).unwrap();
    assert_eq!(config.server.host, "myhost.local");
    assert_eq!(config.server.port, 31337);
}

#[test]
fn test_parse_no_server_defaults_to_localhost() {
    let kdl = r#"// no server node"#;
    let config = parse_config(kdl).unwrap();
    assert_eq!(config.server.host, "127.0.0.1");
    assert_eq!(config.server.port, 31337);
}

#[test]
fn test_parse_screen_with_title() {
    let kdl = r#"
screen "living-room" {
    title "Living Room"
}
"#;
    let config = parse_config(kdl).unwrap();
    assert_eq!(config.screens.len(), 1);
    assert_eq!(config.screens[0].name, "living-room");
    assert_eq!(config.screens[0].title, "Living Room");
}

#[test]
fn test_parse_screen_title_defaults_to_name() {
    let kdl = r#"
screen "bedroom" {
}
"#;
    let config = parse_config(kdl).unwrap();
    assert_eq!(config.screens[0].title, "bedroom");
}

#[test]
fn test_parse_light_by_name() {
    let kdl = r#"
screen "s" {
    group {
        light "Ceiling" {
            device "MyLight"
            switch #true
            slider #false
        }
    }
}
"#;
    let config = parse_config(kdl).unwrap();
    let el = &config.screens[0].groups[0].elements[0];
    assert!(matches!(
        el,
        Element::Light {
            name,
            device_ref: DeviceRef::ByName(n),
            show_switch: true,
            show_slider: false,
        } if name == "Ceiling" && n == "MyLight"
    ));
}

#[test]
fn test_parse_light_by_id() {
    let kdl = r#"
screen "s" {
    group {
        light {
            device-id "abc123_1"
        }
    }
}
"#;
    let config = parse_config(kdl).unwrap();
    let el = &config.screens[0].groups[0].elements[0];
    assert!(matches!(
        el,
        Element::Light {
            name,
            device_ref: DeviceRef::ById(id),
            show_switch: true,
            show_slider: true,
        } if name == "Light" && id == "abc123_1"
    ));
}

#[test]
fn test_parse_sensor() {
    let kdl = r#"
screen "s" {
    group {
        sensor {
            device "TempSensor"
            show-temp #true
            show-humidity #false
        }
    }
}
"#;
    let config = parse_config(kdl).unwrap();
    let el = &config.screens[0].groups[0].elements[0];
    assert!(matches!(
        el,
        Element::Sensor {
            device_ref: DeviceRef::ByName(n),
            show_temp: true,
            show_humidity: false,
        } if n == "TempSensor"
    ));
}

#[test]
fn test_parse_outlet() {
    let kdl = r#"
screen "s" {
    group {
        outlet "Lamp" {
            device-id "outlet_abc_1"
        }
    }
}
"#;
    let config = parse_config(kdl).unwrap();
    let el = &config.screens[0].groups[0].elements[0];
    assert!(matches!(
        el,
        Element::Outlet {
            name,
            device_ref: DeviceRef::ById(id),
        } if name == "Lamp" && id == "outlet_abc_1"
    ));
}

#[test]
fn test_parse_block() {
    let kdl = r#"
screen "s" {
    group {
        block {
            light "A" {
                device "LightA"
            }
            light "B" {
                device "LightB"
            }
        }
    }
}
"#;
    let config = parse_config(kdl).unwrap();
    let el = &config.screens[0].groups[0].elements[0];
    if let Element::Block { elements } = el {
        assert_eq!(elements.len(), 2);
        assert!(matches!(&elements[0], Element::Light { name, .. } if name == "A"));
        assert!(matches!(&elements[1], Element::Light { name, .. } if name == "B"));
    } else {
        panic!("Expected Block element, got: {el:?}");
    }
}

#[test]
fn test_parse_full_config() {
    let kdl = r#"
server "hub.local" port=31337

screen "main" {
    title "Main Floor"
    group {
        sensor {
            device "HallwaySensor"
        }
        block {
            light "Hall" {
                device "HallLight"
                switch #true
                slider #true
            }
        }
        light "Porch" {
            device-id "porch_1"
        }
    }
}
"#;
    let config = parse_config(kdl).unwrap();
    assert_eq!(config.server.host, "hub.local");
    assert_eq!(config.server.port, 31337);
    assert_eq!(config.screens.len(), 1);
    assert_eq!(config.screens[0].title, "Main Floor");
    assert_eq!(config.screens[0].groups[0].elements.len(), 3);
    assert!(matches!(
        &config.screens[0].groups[0].elements[0],
        Element::Sensor { device_ref: DeviceRef::ByName(n), .. } if n == "HallwaySensor"
    ));
    assert!(matches!(
        &config.screens[0].groups[0].elements[1],
        Element::Block { .. }
    ));
    assert!(matches!(
        &config.screens[0].groups[0].elements[2],
        Element::Light { device_ref: DeviceRef::ById(id), .. } if id == "porch_1"
    ));
}

#[test]
fn test_parse_multiple_screens() {
    let kdl = r#"
screen "floor1" {
    title "Ground Floor"
}
screen "floor2" {
    title "Upper Floor"
}
"#;
    let config = parse_config(kdl).unwrap();
    assert_eq!(config.screens.len(), 2);
    assert_eq!(config.screens[0].name, "floor1");
    assert_eq!(config.screens[0].title, "Ground Floor");
    assert_eq!(config.screens[1].name, "floor2");
    assert_eq!(config.screens[1].title, "Upper Floor");
}

#[test]
fn test_parse_v1_style_booleans() {
    let kdl = r#"
screen "s" {
    group {
        light "Accent" {
            device "Accent"
            switch true
            slider false
        }
        sensor {
            device "Living Room"
            show-temp true
            show-humidity true
        }
    }
}
"#;
    let config = parse_config(kdl).unwrap();
    let el = &config.screens[0].groups[0].elements[0];
    match el {
        Element::Light {
            show_switch,
            show_slider,
            ..
        } => {
            assert!(*show_switch);
            assert!(!(*show_slider));
        }
        _ => panic!("expected Light"),
    }
}

#[test]
fn config_test_parse_full_config() {
    let kdl = r#"
server "localhost" port=31337

screen "living_room" {
    title "Living Room"
    group {
        sensor {
            device "Living Room"
            show-temp true
            show-humidity true
        }
        block {
            light "Accent" {
                device "Accent"
                switch true
                slider false
            }
            light "ACC" {
                device "Accent Light"
                switch true
                slider false
            }
        }
        light "MAIN" {
            device "Shelf Light"
            switch true
            slider true
        }
    }
}
"#;
    let config = parse_config(kdl).unwrap();
    assert_eq!(config.server.host, "localhost");
    assert_eq!(config.screens[0].groups[0].elements.len(), 3);
}

#[test]
fn test_parse_window_config() {
    let kdl = r#"window width=500 height=1000"#;
    let config = parse_config(kdl).unwrap();
    assert_eq!(config.window.width, 500);
    assert_eq!(config.window.height, 1000);
}

#[test]
fn test_parse_window_defaults() {
    let kdl = r#"// no window node"#;
    let config = parse_config(kdl).unwrap();
    assert_eq!(config.window.width, 420);
    assert_eq!(config.window.height, 900);
}

#[test]
fn unknown_element_is_refused() {
    let kdl = r#"
screen "s" {
    group {
        slider "x"
    }
}
"#;
    let err = parse_config(kdl).unwrap_err();
    assert_eq!(err, "Unknown element type: slider");
}

#[test]
fn element_without_device_is_refused() {
    let kdl = r#"
screen "s" {
    group {
        light "x"
    }
}
"#;
    let err = parse_config(kdl).unwrap_err();
    assert_eq!(err, "Element requires a device or device-id child node");
}

#[test]
fn server_without_host_is_refused() {
    let err = parse_config("server port=1").unwrap_err();
    assert_eq!(err, "server node requires a host string argument");
}

#[test]
fn screen_without_name_is_refused() {
    let err = parse_config("screen {\n}\n").unwrap_err();
    assert_eq!(err, "screen node requires a name string argument");
}

#[test]
fn text_without_template_is_refused() {
    let kdl = "screen \"s\" {\n    group {\n        text\n    }\n}\n";
    let err = parse_config(kdl).unwrap_err();
    assert_eq!(err, "text node requires a template string argument");
}

#[test]
fn device_id_without_string_is_refused() {
    let kdl = "screen \"s\" {\n    group {\n        outlet {\n            device-id 5\n        }\n    }\n}\n";
    let err = parse_config(kdl).unwrap_err();
    assert_eq!(err, "device-id requires a string argument");
}

#[test]
fn malformed_kdl_is_reported() {
    let err = parse_config("screen \"s\" {").unwrap_err();
    assert!(err.starts_with("KDL parse error: "));
}

#[test]
fn later_port_property_wins() {
    let config = parse_config(r#"server "h" port=1 port=2"#).unwrap();
    assert_eq!(config.server.port, 2);
}

#[test]
fn text_element_keeps_template() {
    let kdl = "screen \"s\" {\n    group {\n        text \"Hello {name}\"\n    }\n}\n";
    let config = parse_config(kdl).unwrap();
    assert!(matches!(&config.screens[0].groups[0].elements[0], Element::Text { template } if template == "Hello {name}"));
}
