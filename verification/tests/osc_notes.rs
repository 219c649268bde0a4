use synth_dsl::osc::builder::{create_oscillator_message, create_play_message, create_sample_message};
use synth_dsl::osc::codec::{parse_bundle, parse_message, serialize_message};
use synth_dsl::osc::notes::{
    note_request, play_note_args, select_route, NoteArgsError, NoteRequest, NumericArg, PlayNoteArgs,
};
use synth_dsl::osc::types::{OpenSoundArgument, OpenSoundError, OpenSoundMessage};
use synth_dsl::osc::utils::{create_osc_bundle_bytes_mixed, create_osc_message_bytes_mixed, OscArg};
use synth_dsl::oscillator::Waveform;

#[test]
fn test_create_oscillator_message() {
    let message = create_oscillator_message(
        440.0f32.to_bits(),
        0.5f32.to_bits(),
        0.0f32.to_bits(),
        1000.0f32.to_bits(),
        "sine",
    );

    assert_eq!(message.address_pattern, "/note/oscillator");
    assert_eq!(message.arguments.len(), 5);
}

#[test]
fn sample_and_play_messages() {
    let sample = create_sample_message("kick.wav", 1.0f32.to_bits(), 0.0f32.to_bits(), 250.0f32.to_bits());
    assert_eq!(sample.address_pattern, "/note/sample");
    assert_eq!(sample.arguments.len(), 4);
    assert!(matches!(&sample.arguments[0], OpenSoundArgument::String(s) if s == "kick.wav"));

    let play = create_play_message(
        "oscillator",
        220.0f32.to_bits(),
        0.25f32.to_bits(),
        10.0f32.to_bits(),
        20.0f32.to_bits(),
        "saw",
    );
    assert_eq!(play.address_pattern, "/note/play");
    assert_eq!(play.arguments.len(), 6);
    assert!(matches!(play.arguments[1], OpenSoundArgument::Float32(b) if b == 220.0f32.to_bits()));
}

#[test]
fn oscillator_message_is_accepted() {
    let message = create_oscillator_message(
        440.0f32.to_bits(),
        0.5f32.to_bits(),
        0.0f32.to_bits(),
        1000.0f32.to_bits(),
        " Sine, tri ,NOISE",
    );
    match note_request(&message) {
        Ok(NoteRequest::Oscillator(a)) => {
            assert_eq!(a.frequency, NumericArg::Float32(440.0f32.to_bits()));
            assert_eq!(a.duration_ms, NumericArg::Float32(1000.0f32.to_bits()));
            assert_eq!(a.waveforms, vec![Waveform::Sine, Waveform::Triangle, Waveform::GaussianNoise]);
        },
        other => panic!("unexpected {:?}", other.err()),
    }
}

#[test]
fn integer_arguments_count_as_numbers() {
    let message = OpenSoundMessage {
        address_pattern: "/note/sample".to_string(),
        arguments: vec![
            OpenSoundArgument::String("a.wav".to_string()),
            OpenSoundArgument::Int32(1),
            OpenSoundArgument::Int32(0),
            OpenSoundArgument::Float32(5.0f32.to_bits()),
        ],
    };
    match note_request(&message) {
        Ok(NoteRequest::Sample(a)) => {
            assert_eq!(a.file_path, "a.wav");
            assert_eq!(a.volume, NumericArg::Int32(1));
            assert_eq!(a.start_time_ms, NumericArg::Int32(0));
        },
        other => panic!("unexpected {:?}", other.err()),
    }
}

#[test]
fn note_request_errors() {
    let short = OpenSoundMessage {
        address_pattern: "/note/oscillator".to_string(),
        arguments: vec![OpenSoundArgument::Int32(1)],
    };
    assert!(matches!(
        note_request(&short),
        Err(NoteArgsError::Report(OpenSoundError::InvalidArgumentCount { expected: 5, actual: 1 }))
    ));

    let wrong = OpenSoundMessage {
        address_pattern: "/note/oscillator".to_string(),
        arguments: vec![
            OpenSoundArgument::Int32(1),
            OpenSoundArgument::Int32(1),
            OpenSoundArgument::True,
            OpenSoundArgument::Int32(1),
            OpenSoundArgument::String("sine".to_string()),
        ],
    };
    assert!(matches!(
        note_request(&wrong),
        Err(NoteArgsError::WrongType { ref expected, index: 2 }) if expected == "f32"
    ));

    let bad_wave = create_oscillator_message(1, 1, 1, 1, "sine,square,chirp");
    assert!(matches!(
        note_request(&bad_wave),
        Err(NoteArgsError::Report(OpenSoundError::InvalidArgumentType { ref expected, ref actual }))
            if expected == "valid waveform" && actual == "chirp"
    ));

    let unknown = OpenSoundMessage { address_pattern: "/other".to_string(), arguments: vec![] };
    assert!(matches!(
        note_request(&unknown),
        Err(NoteArgsError::Report(OpenSoundError::InvalidAddressPattern(ref a))) if a == "/other"
    ));

    let sample_not_string = OpenSoundMessage {
        address_pattern: "/note/sample".to_string(),
        arguments: vec![
            OpenSoundArgument::Null,
            OpenSoundArgument::Int32(1),
            OpenSoundArgument::Int32(1),
            OpenSoundArgument::Int32(1),
        ],
    };
    assert!(matches!(
        note_request(&sample_not_string),
        Err(NoteArgsError::WrongType { ref expected, index: 0 }) if expected == "string"
    ));
}

#[test]
fn play_message_outcomes() {
    let play = create_play_message("oscillator", 1, 2, 3, 4, "square");
    match note_request(&play) {
        Ok(NoteRequest::Play(PlayNoteArgs::Oscillator(a))) => {
            assert_eq!(a.frequency, NumericArg::Float32(1));
            assert_eq!(a.volume, NumericArg::Float32(2));
            assert_eq!(a.waveforms, vec![Waveform::Square]);
        },
        other => panic!("unexpected {:?}", other.err()),
    }

    let as_sample = create_play_message("sample", 1, 2, 3, 4, "square");
    assert!(matches!(
        note_request(&as_sample),
        Err(NoteArgsError::WrongType { ref expected, index: 1 }) if expected == "string"
    ));

    let unknown = create_play_message("drum", 1, 2, 3, 4, "sine");
    assert!(matches!(
        note_request(&unknown),
        Err(NoteArgsError::Report(OpenSoundError::UnsupportedMessageType(ref t))) if t == "drum"
    ));

    assert!(matches!(
        play_note_args(&vec![]),
        Err(NoteArgsError::Report(OpenSoundError::MissingArgument(ref n))) if n == "note_type"
    ));
    assert!(matches!(
        play_note_args(&vec![OpenSoundArgument::String("oscillator".to_string())]),
        Err(NoteArgsError::Report(OpenSoundError::InvalidArgumentCount { expected: 5, actual: 0 }))
    ));
}

#[test]
fn routes_prefer_exact_patterns() {
    let patterns = vec!["/note/*".to_string(), "/note/play".to_string(), "/synth".to_string()];
    assert_eq!(select_route(&patterns, "/note/play"), Some(1));
    assert_eq!(select_route(&patterns, "/note/sample"), Some(0));
    assert_eq!(select_route(&patterns, "/synth"), Some(2));
    assert_eq!(select_route(&patterns, "/synth/x"), None);
    assert_eq!(select_route(&patterns, "/notes"), Some(0));
    assert_eq!(select_route(&vec![], "/note"), None);
}

#[test]
fn mixed_message_bytes() {
    let bytes = create_osc_message_bytes_mixed(
        "/a",
        &[OscArg::Int(1), OscArg::Float(0x3f80_0000), OscArg::String("hi".to_string())],
    );
    let expected: Vec<u8> = vec![
        b'/', b'a', 0, 0, b',', b'i', b'f', b's', 0, 0, 0, 0, 0, 0, 0, 1, 0x3f, 0x80, 0, 0, b'h', b'i', 0, 0,
    ];
    assert_eq!(bytes, expected);

    let message = OpenSoundMessage {
        address_pattern: "/a".to_string(),
        arguments: vec![
            OpenSoundArgument::Int32(1),
            OpenSoundArgument::Float32(0x3f80_0000),
            OpenSoundArgument::String("hi".to_string()),
        ],
    };
    assert_eq!(serialize_message(&message).unwrap(), bytes);
    let parsed = parse_message(&bytes).unwrap();
    assert_eq!(parsed.address_pattern, "/a");
    assert!(matches!(parsed.arguments[1], OpenSoundArgument::Float32(0x3f80_0000)));
}

#[test]
fn mixed_bundle_bytes() {
    let first = [OscArg::Int(-1)];
    let second: [OscArg; 0] = [];
    let bytes = create_osc_bundle_bytes_mixed(&[("/x", &first[..]), ("/yz", &second[..])]);
    let mut expected: Vec<u8> = b"#bundle\0".to_vec();
    expected.extend_from_slice(&[0, 0, 0, 0, 0, 0, 0, 1]);
    expected.extend_from_slice(&[0, 0, 0, 12]);
    expected.extend_from_slice(&[b'/', b'x', 0, 0, b',', b'i', 0, 0, 0xff, 0xff, 0xff, 0xff]);
    expected.extend_from_slice(&[0, 0, 0, 8]);
    expected.extend_from_slice(&[b'/', b'y', b'z', 0, b',', 0, 0, 0]);
    assert_eq!(bytes, expected);

    let bundle = parse_bundle(&bytes).unwrap();
    assert_eq!(bundle.timestamp, 1);
    assert_eq!(bundle.messages.len(), 2);
    assert_eq!(bundle.messages[1].address_pattern, "/yz");
}
