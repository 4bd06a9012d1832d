use std::collections::HashMap;

use crosspoint_service::config::{describe_channel, ConfigurationError, ServiceConfiguration};

#[test]
fn configuration_error_says_what_it_was_given() {
    let error = ConfigurationError::new("Invalid JSON");
    assert_eq!(error.to_string(), "Invalid JSON");
    assert_eq!(error, ConfigurationError::new("Invalid JSON"));
    assert_ne!(error, ConfigurationError::new("invalid json"));
    assert_eq!(ConfigurationError::new("").to_string(), "");
}

#[test]
fn configuration_with_everything() {
    let config = ServiceConfiguration::load(
        r#"{
            "serial-port": "virtual",
            "http_root": "/srv/site/",
            "binding": "0.0.0.0:8080",
            "inputs": [
                {"channel": 1, "description": "Camera"},
                {"channel": 2, "description": "Laptop"},
                {"channel": 1, "description": "Camera, again"},
                {"channel": -1, "description": "Below"}
            ],
            "outputs": [{"channel": 8, "description": "Projector"}]
        }"#,
    )
    .ok()
    .unwrap();
    assert_eq!(config.serial_port.as_deref(), Some("virtual"));
    assert_eq!(config.http_root.as_deref(), Some("/srv/site/"));
    assert_eq!(config.binding.as_deref(), Some("0.0.0.0:8080"));
    assert_eq!(config.inputs.len(), 3);
    assert_eq!(config.inputs.get(&1).map(String::as_str), Some("Camera, again"));
    assert_eq!(config.inputs.get(&2).map(String::as_str), Some("Laptop"));
    assert_eq!(config.inputs.get(&-1).map(String::as_str), Some("Below"));
    assert_eq!(config.outputs.len(), 1);
    assert_eq!(config.outputs.get(&8).map(String::as_str), Some("Projector"));
}

#[test]
fn configuration_with_nothing() {
    for text in ["{}", "null", "[]", "7", r#""text""#] {
        let config = ServiceConfiguration::load(text).ok().unwrap();
        assert_eq!(config.serial_port, None);
        assert_eq!(config.http_root, None);
        assert_eq!(config.binding, None);
        assert!(config.inputs.is_empty());
        assert!(config.outputs.is_empty());
    }
}

#[test]
fn configuration_leaves_out_what_is_of_the_wrong_kind() {
    let config = ServiceConfiguration::load(
        r#"{
            "serial-port": 3,
            "serial_port": "COM3",
            "http_root": null,
            "binding": ["127.0.0.1:1872"],
            "inputs": {"channel": 1, "description": "no list"},
            "outputs": [
                {"channel": "8", "description": "text for a number"},
                {"channel": 8},
                {"description": "no channel"},
                {"channel": 8.5, "description": "a fraction"},
                {"channel": 2147483648, "description": "too large"},
                {"channel": 9, "description": 9},
                null,
                {"channel": 2147483647, "description": "the largest"}
            ]
        }"#,
    )
    .ok()
    .unwrap();
    assert_eq!(config.serial_port, None);
    assert_eq!(config.http_root, None);
    assert_eq!(config.binding, None);
    assert!(config.inputs.is_empty());
    assert_eq!(config.outputs.len(), 1);
    assert_eq!(config.outputs.get(&i32::MAX).map(String::as_str), Some("the largest"));
}

#[test]
fn configuration_that_is_no_json_is_refused() {
    for text in ["", "{", "serial-port: virtual", "{\"a\": }"] {
        let error = ServiceConfiguration::load(text).err().unwrap();
        assert_eq!(error.to_string(), "Config file is not in JSON format");
    }
}

#[test]
fn channel_is_described_where_both_parts_are_given() {
    let mut channels: HashMap<i32, String> = HashMap::new();
    describe_channel(&mut channels, Some("Camera"), Some(1));
    describe_channel(&mut channels, None, Some(2));
    describe_channel(&mut channels, Some("Nowhere"), None);
    describe_channel(&mut channels, None, None);
    describe_channel(&mut channels, Some("Below"), Some(i32::MIN));
    assert_eq!(channels.len(), 2);
    assert_eq!(channels.get(&1).map(String::as_str), Some("Camera"));
    assert_eq!(channels.get(&i32::MIN).map(String::as_str), Some("Below"));
    describe_channel(&mut channels, Some("Camera, again"), Some(1));
    assert_eq!(channels.len(), 2);
    assert_eq!(channels.get(&1).map(String::as_str), Some("Camera, again"));
}
