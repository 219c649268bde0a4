use synth_dsl::osc::builder::MessageBuilder;
use synth_dsl::osc::codec::{parse_bundle, parse_message, serialize_bundle, serialize_message, try_parse_message, try_parse_bundle};
use synth_dsl::osc::types::{default_config, OpenSoundArgument, OpenSoundBundle, OpenSoundError, OpenSoundMessage, DEFAULT_BUFFER_SIZE, DEFAULT_SAMPLE_RATE};

#[test]
fn test_message_builder() {
    let message = MessageBuilder::new("/test")
        .arg_i32(42)
        .arg_f32_bits(3.14f32.to_bits())
        .arg_string("hello")
        .build();

    assert_eq!(message.address_pattern, "/test");
    assert_eq!(message.arguments.len(), 3);
}

#[test]
fn test_serialize_deserialize_message() {
    let message = OpenSoundMessage {
        address_pattern: "/test".to_string(),
        arguments: vec![
            OpenSoundArgument::Int32(42),
            OpenSoundArgument::Float32(3.14f32.to_bits()),
            OpenSoundArgument::String("hello".to_string()),
        ],
    };

    let serialized = serialize_message(&message).unwrap();
    let deserialized = parse_message(&serialized).unwrap();

    assert_eq!(message.address_pattern, deserialized.address_pattern);
    assert_eq!(message.arguments.len(), deserialized.arguments.len());
}

#[test]
fn test_default_config() {
    let config = default_config();
    assert_eq!(config.sample_rate, DEFAULT_SAMPLE_RATE);
    assert_eq!(config.buffer_size, DEFAULT_BUFFER_SIZE);
}

#[test]
fn default_config_addresses() {
    let config = default_config();
    assert_eq!(config.tcp_address.as_deref(), Some("127.0.0.1:8000"));
    assert_eq!(config.udp_address.as_deref(), Some("127.0.0.1:8001"));
}

#[test]
fn serialized_message_bytes() {
    let m = MessageBuilder::new("/ab").arg_i32(-2).arg_string("hey").arg_true().arg_blob(vec![1, 2, 3]).build();
    let bytes = serialize_message(&m).unwrap();
    let expected: Vec<u8> = vec![
        b'/', b'a', b'b', 0, // address
        b',', b'i', b's', b'T', b'b', 0, 0, 0, // tags
        0xff, 0xff, 0xff, 0xfe, // -2
        b'h', b'e', b'y', 0, // "hey"
        0, 0, 0, 3, 1, 2, 3, 0, // blob
    ];
    assert_eq!(bytes, expected);
}

#[test]
fn roundtrip_keeps_every_argument() {
    let m = MessageBuilder::new("/x/yz")
        .arg_i32(i32::MIN)
        .arg_f32_bits(0x7fc0_0001)
        .arg_string("héllo")
        .arg_blob(vec![9, 8, 7, 6, 5])
        .arg_false()
        .arg_null()
        .arg_impulse()
        .build();
    let bytes = serialize_message(&m).unwrap();
    let back = parse_message(&bytes).unwrap();
    assert_eq!(back.address_pattern, "/x/yz");
    assert_eq!(format!("{:?}", back.arguments), format!("{:?}", m.arguments));
}

#[test]
fn bundle_roundtrip() {
    let b = OpenSoundBundle {
        timestamp: 0x0102_0304_0506_0708,
        messages: vec![
            MessageBuilder::new("/a").arg_i32(1).build(),
            MessageBuilder::new("/b").arg_string("s").build(),
        ],
    };
    let bytes = serialize_bundle(&b).unwrap();
    assert_eq!(&bytes[0..8], b"#bundle\0");
    let back = parse_bundle(&bytes).unwrap();
    assert_eq!(back.timestamp, b.timestamp);
    assert_eq!(back.messages.len(), 2);
    assert_eq!(back.messages[1].address_pattern, "/b");
}

fn parse_error(r: Result<OpenSoundMessage, OpenSoundError>) -> String {
    match r {
        Err(OpenSoundError::ParseError(s)) => s,
        other => panic!("unexpected {:?}", other),
    }
}

#[test]
fn parse_errors() {
    assert_eq!(parse_error(parse_message(&[])), "No data remaining for string");
    assert_eq!(parse_error(parse_message(b"/ab")), "String not null-terminated");
    assert_eq!(parse_error(parse_message(b"/a\0\x07")), "Invalid string padding: expected 0, got 7");
    assert_eq!(parse_error(parse_message(b"/ab\0i\0\0\0")), "Type tag string must start with ',' but got 'i'");
    assert_eq!(parse_error(parse_message(b"/ab\0,x\0\0")), "Unknown type tag: x");
    assert_eq!(parse_error(parse_message(b"/ab\0,b\0\0\0\0")), "Insufficient data for blob size");
    assert_eq!(parse_error(parse_message(b"/ab\0,b\0\0\0\0\0\x09ab")), "Blob size exceeds remaining data");
    assert_eq!(parse_error(parse_message(b"/ab\0,b\0\0\0\0\0\x01a\x01")), "Invalid blob padding");
    assert!(parse_error(parse_message(b"\xff\0\0\0")).starts_with("Invalid UTF-8: "));
}

#[test]
fn truncated_numbers_are_reported_as_none() {
    assert!(try_parse_message(b"/ab\0,i\0\0\0\0").is_none());
    assert!(try_parse_message(b"/ab\0,f\0\0").is_none());
    assert!(try_parse_bundle(b"#bundle\0\0\0").is_none());
    assert!(try_parse_message(b"/ab\0,i\0\0\0\0\0\x05").unwrap().is_ok());
}
