use crosspoint_service::transport::DeviceTransport;
use crosspoint_service::vextron::VirtualCrosspoint;

fn drain(device: &mut VirtualCrosspoint) -> Vec<u8> {
    let mut all = Vec::new();
    let mut buffer = [0u8; 5];
    loop {
        let count = device.read(&mut buffer).unwrap();
        if count == 0 {
            return all;
        }
        all.extend_from_slice(&buffer[..count]);
    }
}

const SNAPSHOT: &str = r#"{
    "input_channels": 4,
    "output_channels": 2,
    "audio_support": false,
    "current_ties": [{"in": 1, "out": 2}],
    "presets": [
        {"number": 3, "name": "Studio A", "ties": [{"in": 1, "out": 1}]},
        {"number": 32, "name": "Späti", "ties": [{"in": 2, "out": 2}, {"in": 300, "out": 1}]},
        {"number": 7, "name": "No ties", "ties": []},
        {"name": "No number", "ties": [{"in": 1, "out": 1}]},
        {"number": 10, "ties": [{"in": 1, "out": 1}]}
    ]
}"#;

#[test]
fn read_on_an_empty_queue_returns_zero() {
    let mut device = VirtualCrosspoint::new();
    let before = device.clone();
    let mut buffer = [7u8; 8];
    assert_eq!(device.read(&mut buffer), Ok(0));
    assert_eq!(buffer, [7u8; 8]);
    assert_eq!(device, before);
    assert_eq!(device.read(&mut []), Ok(0));
}

#[test]
fn factory_device_identifies_itself() {
    let mut device = VirtualCrosspoint::new();
    assert_eq!(device.write(b"I\r\n"), Ok(3));
    assert_eq!(device.bytes_to_read(), 15);
    assert_eq!(drain(&mut device), b"V12X08 A12X08\r\n".to_vec());
    assert_eq!(device.bytes_to_read(), 0);
}

#[test]
fn identify_looks_at_the_first_byte_only() {
    let mut device = VirtualCrosspoint::new();
    assert_eq!(device.write(b"I"), Ok(1));
    assert_eq!(device.write(b"Ignored rest"), Ok(12));
    assert_eq!(drain(&mut device), b"V12X08 A12X08\r\nV12X08 A12X08\r\n".to_vec());
}

#[test]
fn device_without_audio_zeroes_the_audio_fields() {
    let mut device = VirtualCrosspoint::parse_json(SNAPSHOT).unwrap();
    device.info();
    assert_eq!(drain(&mut device), b"V04X02 A00X00\r\n".to_vec());
}

#[test]
fn read_takes_the_oldest_bytes_first() {
    let mut device = VirtualCrosspoint::new();
    device.info();
    let mut buffer = [0u8; 6];
    assert_eq!(device.read(&mut buffer), Ok(6));
    assert_eq!(&buffer, b"V12X08");
    let mut rest = [b'#'; 20];
    assert_eq!(device.read(&mut rest), Ok(9));
    assert_eq!(&rest[..9], b" A12X08\r\n");
    assert_eq!(&rest[9..], &[b'#'; 11]);
    assert_eq!(device.read(&mut rest), Ok(0));
}

#[test]
fn flush_changes_nothing() {
    let mut device = VirtualCrosspoint::new();
    device.info();
    let before = device.clone();
    assert_eq!(device.flush(), Ok(()));
    assert_eq!(device, before);
}

#[test]
fn name_of_a_stored_preset() {
    let mut device = VirtualCrosspoint::parse_json(SNAPSHOT).unwrap();
    assert_eq!(device.write(b"\x1b3NG\r"), Ok(5));
    assert_eq!(drain(&mut device), b"Studio A".to_vec());
    device.write(b"\x1b32NG\r").unwrap();
    assert_eq!(drain(&mut device), "Späti".as_bytes().to_vec());
}

#[test]
fn name_of_an_empty_preset() {
    let mut device = VirtualCrosspoint::new();
    device.write(b"\x1b5NG\r").unwrap();
    assert_eq!(drain(&mut device), b"[unassigned]".to_vec());
    device.write(b"\x1b05NG\r").unwrap();
    assert_eq!(drain(&mut device), b"[unassigned]".to_vec());
}

#[test]
fn preset_without_a_name_is_unassigned_by_name() {
    let mut device = VirtualCrosspoint::parse_json(SNAPSHOT).unwrap();
    device.preset_name(10);
    assert_eq!(drain(&mut device), b"[unassigned]".to_vec());
}

#[test]
fn presets_without_ties_or_number_are_not_kept() {
    let mut device = VirtualCrosspoint::parse_json(SNAPSHOT).unwrap();
    let fresh = VirtualCrosspoint::parse_json(
        r#"{"input_channels": 4, "output_channels": 2, "current_ties": [{"in": 1, "out": 2}],
            "presets": [
                {"number": 3, "name": "Studio A", "ties": [{"in": 1, "out": 1}]},
                {"number": 32, "name": "Späti", "ties": [{"in": 2, "out": 2}]},
                {"number": 10, "name": "[unassigned]", "ties": [{"in": 1, "out": 1}]}
            ]}"#,
    )
    .unwrap();
    assert_eq!(device, fresh);
    device.preset_name(7);
    assert_eq!(drain(&mut device), b"[unassigned]".to_vec());
}

#[test]
fn commands_that_are_not_recognised_produce_nothing() {
    let frames: [&[u8]; 14] = [
        b"",
        b"\x1b",
        b"\x1b3",
        b"\x1b3N",
        b"\x1b3NX\r",
        b"\x1b0NG\r",
        b"\x1b00NG\r",
        b"\x1b33NG\r",
        b"\x1b99NG\r",
        b"\x1b+5NG\r",
        b"\x1b+5P0*!\r",
        b"5,\r\n",
        b"5.\r\n",
        b"\x1b+5P1*2!\r",
    ];
    for frame in frames {
        let mut device = VirtualCrosspoint::parse_json(SNAPSHOT).unwrap();
        let before = device.clone();
        assert_eq!(device.write(frame), Ok(frame.len()));
        assert_eq!(device, before);
        assert_eq!(device.bytes_to_read(), 0);
    }
}

#[test]
fn preset_number_may_take_a_third_digit_for_a_letter() {
    let mut device = VirtualCrosspoint::new();
    device.escape_commands(b"123NG");
    assert_eq!(device.bytes_to_read(), 0);
    device.escape_commands(b"12NGtrailing");
    assert_eq!(drain(&mut device), b"[unassigned]".to_vec());
}

#[test]
fn preset_name_outside_the_table_produces_nothing() {
    let mut device = VirtualCrosspoint::new();
    device.preset_name(0);
    device.preset_name(33);
    device.preset_name(usize::MAX);
    assert_eq!(device.bytes_to_read(), 0);
    device.preset_name(32);
    assert_eq!(device.bytes_to_read(), 12);
}

#[test]
fn evaluate_command_is_what_write_does() {
    let mut written = VirtualCrosspoint::new();
    let mut evaluated = VirtualCrosspoint::new();
    written.write(b"\x1b8NG\r").unwrap();
    evaluated.evaluate_command(b"\x1b8NG\r");
    assert_eq!(written, evaluated);
}

#[test]
fn clearing_twice_is_clearing_once() {
    let mut once = VirtualCrosspoint::parse_json(SNAPSHOT).unwrap();
    let mut twice = once.clone();
    once.write(b"\x1b+3P0*!\r").unwrap();
    twice.write(b"\x1b+3P0*!\r").unwrap();
    twice.write(b"\x1b+3P0*!\r").unwrap();
    assert_eq!(once, twice);
}
