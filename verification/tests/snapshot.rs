use crosspoint_service::crosspoint::{CrossPointIO, CrossPointTie};
use crosspoint_service::transport::DeviceTransport;
use crosspoint_service::vextron::VirtualCrosspoint;

fn identify(device: &mut VirtualCrosspoint) -> String {
    device.info();
    let mut buffer = [0u8; 64];
    let count = device.read(&mut buffer).unwrap();
    String::from_utf8(buffer[..count].to_vec()).unwrap()
}

fn name_of(device: &mut VirtualCrosspoint, n: usize) -> String {
    device.preset_name(n);
    let mut buffer = [0u8; 64];
    let count = device.read(&mut buffer).unwrap();
    String::from_utf8(buffer[..count].to_vec()).unwrap()
}

#[test]
fn no_snapshot_gives_the_factory_state() {
    assert_eq!(VirtualCrosspoint::load_or_new(None), VirtualCrosspoint::new());
}

#[test]
fn malformed_snapshot_gives_the_factory_state() {
    assert_eq!(VirtualCrosspoint::load_or_new(Some("{not json")), VirtualCrosspoint::new());
    assert_eq!(VirtualCrosspoint::load_or_new(Some("")), VirtualCrosspoint::new());
    assert_eq!(
        VirtualCrosspoint::load_or_new(Some(r#"{"input_channels": 17}"#)),
        VirtualCrosspoint::new()
    );
}

#[test]
fn usable_snapshot_is_loaded() {
    let text = r#"{"input_channels": 8, "output_channels": 8, "audio_support": true}"#;
    let mut device = VirtualCrosspoint::load_or_new(Some(text));
    assert_eq!(device, VirtualCrosspoint::parse_json(text).unwrap());
    assert_eq!(identify(&mut device), "V08X08 A08X08\r\n");
}

#[test]
fn text_that_is_not_json_is_refused() {
    let error = VirtualCrosspoint::parse_json("[1, 2").unwrap_err();
    assert_eq!(error.to_string(), "Invalid JSON");
}

#[test]
fn text_with_an_endless_number_is_refused() {
    let text = format!(r#"{{"input_channels": 0.{}}}"#, "0".repeat(40000));
    let error = VirtualCrosspoint::parse_json(&text).unwrap_err();
    assert_eq!(error.to_string(), "Invalid JSON");
}

#[test]
fn too_many_inputs_are_refused() {
    let error = VirtualCrosspoint::parse_json(r#"{"input_channels": 17, "output_channels": 99}"#)
        .unwrap_err();
    assert_eq!(error.to_string(), "Invalid input port count");
}

#[test]
fn too_many_outputs_are_refused() {
    let error = VirtualCrosspoint::parse_json(r#"{"input_channels": 16, "output_channels": 17}"#)
        .unwrap_err();
    assert_eq!(error.to_string(), "Invalid output port count");
}

#[test]
fn preset_number_outside_the_table_is_refused() {
    for number in ["0", "33", "4000000000"] {
        let text = format!(
            r#"{{"presets": [{{"number": {}, "name": "x", "ties": [{{"in": 1, "out": 1}}]}}]}}"#,
            number
        );
        let error = VirtualCrosspoint::parse_json(&text).unwrap_err();
        assert_eq!(error.to_string(), "Invalid preset number");
        assert_eq!(VirtualCrosspoint::load_or_new(Some(&text)), VirtualCrosspoint::new());
    }
}

#[test]
fn preset_number_outside_the_table_without_ties_is_passed_over() {
    let text = r#"{"presets": [{"number": 33, "name": "x", "ties": []}, {"number": 0}]}"#;
    assert_eq!(
        VirtualCrosspoint::parse_json(text),
        VirtualCrosspoint::parse_json("{}")
    );
}

#[test]
fn missing_properties_take_their_defaults() {
    let mut device = VirtualCrosspoint::parse_json("{}").unwrap();
    assert_eq!(identify(&mut device), "V16X16 A00X00\r\n");
    let mut device = VirtualCrosspoint::parse_json("null").unwrap();
    assert_eq!(identify(&mut device), "V16X16 A00X00\r\n");
    let mut device = VirtualCrosspoint::parse_json(r#"{"audio_support": true}"#).unwrap();
    assert_eq!(identify(&mut device), "V16X16 A16X16\r\n");
}

#[test]
fn properties_of_the_wrong_kind_take_their_defaults() {
    let text = r#"{"input_channels": "4", "output_channels": -2, "audio_support": 1,
                   "current_ties": {"in": 1, "out": 2}, "presets": {"number": 1}}"#;
    assert_eq!(VirtualCrosspoint::parse_json(text), VirtualCrosspoint::parse_json("{}"));
    let text = r#"{"input_channels": 4.5, "output_channels": 1e1}"#;
    let mut device = VirtualCrosspoint::parse_json(text).unwrap();
    assert_eq!(identify(&mut device), "V16X16 A00X00\r\n");
}

#[test]
fn zero_channels_are_accepted() {
    let mut device =
        VirtualCrosspoint::parse_json(r#"{"input_channels": 0, "output_channels": 0}"#).unwrap();
    assert_eq!(identify(&mut device), "V00X00 A00X00\r\n");
}

#[test]
fn later_preset_replaces_an_earlier_one_of_the_same_number() {
    let text = r#"{"presets": [
        {"number": 1, "name": "first", "ties": [{"in": 1, "out": 1}]},
        {"number": 1, "name": "second", "ties": [{"in": 1, "out": 1}]},
        {"number": 1, "name": "third", "ties": []}
    ]}"#;
    let mut device = VirtualCrosspoint::parse_json(text).unwrap();
    assert_eq!(name_of(&mut device, 1), "second");
}

#[test]
fn ties_that_state_no_tie_are_passed_over() {
    let with_noise = r#"{"current_ties": [{}, null, 0, "", {"in": 1}, {"out": 2},
        {"in": 256, "out": 1}, {"in": 1, "out": -1}, {"in": 3, "out": 4}, [1, 2]],
        "presets": [{"number": 2, "name": "kept", "ties": [{"in": "1", "out": 1}, {"in": 255, "out": 0}]},
                    {"number": 3, "name": "not kept", "ties": [{"in": 1.5, "out": 1}]}]}"#;
    let clean = r#"{"current_ties": [{"in": 3, "out": 4}],
        "presets": [{"number": 2, "name": "kept", "ties": [{"in": 255, "out": 0}]}]}"#;
    assert_eq!(
        VirtualCrosspoint::parse_json(with_noise),
        VirtualCrosspoint::parse_json(clean)
    );
    assert_ne!(
        VirtualCrosspoint::parse_json(clean),
        VirtualCrosspoint::parse_json(r#"{"current_ties": [{"in": 4, "out": 3}],
        "presets": [{"number": 2, "name": "kept", "ties": [{"in": 255, "out": 0}]}]}"#)
    );
}

#[test]
fn get_ties_reads_a_list_and_nothing_else() {
    let list = json::parse(r#"[{"in": 1, "out": 2}, {"in": 3, "out": 4, "extra": true}]"#).unwrap();
    let ties = VirtualCrosspoint::get_ties(&list).unwrap();
    assert_eq!(ties.len(), 2);
    assert_eq!((ties[0].input_channel, ties[0].output_channels.clone()), (1, vec![2]));
    assert_eq!((ties[1].input_channel, ties[1].output_channels.clone()), (3, vec![4]));
    let object = json::parse(r#"{"in": 1, "out": 2}"#).unwrap();
    assert_eq!(VirtualCrosspoint::get_ties(&object).unwrap().len(), 0);
}

#[test]
fn configured_device_from_plain_values() {
    let mut device = VirtualCrosspoint::configured(Some(2), None, Some(true), vec![]).unwrap();
    assert_eq!(identify(&mut device), "V02X16 A02X16\r\n");
    assert_eq!(
        VirtualCrosspoint::configured(Some(17), Some(17), None, vec![]).unwrap_err().to_string(),
        "Invalid input port count"
    );
    assert_eq!(
        VirtualCrosspoint::configured(None, Some(17), None, vec![]).unwrap_err().to_string(),
        "Invalid output port count"
    );
}

#[test]
fn keep_preset_from_plain_values() {
    let tie = || CrossPointTie { input_channel: 1, output_channels: vec![2], io_type: CrossPointIO::All };
    let mut device = VirtualCrosspoint::new();
    assert_eq!(device.keep_preset(32, "last", vec![tie()]), Ok(()));
    assert_eq!(name_of(&mut device, 32), "last");
    assert_eq!(device.keep_preset(5, "empty", vec![]), Ok(()));
    assert_eq!(name_of(&mut device, 5), "[unassigned]");
    let before = device.clone();
    assert_eq!(
        device.keep_preset(33, "beyond", vec![tie()]).unwrap_err().to_string(),
        "Invalid preset number"
    );
    assert_eq!(device.keep_preset(0, "beyond", vec![]), Ok(()));
    assert_eq!(device, before);
}
