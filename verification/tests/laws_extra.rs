use synth_dsl::dsl::ast::DslDurationType;
use synth_dsl::dsl::checks::{parse_dsl_for_tracks, script_lfos_accepted};
use synth_dsl::dsl::parser::parse_dsl;
use synth_dsl::midi::{MidiEvent, MidiEventKind};
use synth_dsl::midi_file::{events_to_midi_bytes, SmfFormat};
use synth_dsl::osc::codec::{serialize_bundle, serialize_message};
use synth_dsl::osc::types::{OpenSoundArgument, OpenSoundBundle, OpenSoundMessage};

#[test]
fn duration_names_and_fractions_give_the_same_factor() {
    let names = ["Whole", "Half", "Quarter", "Eighth", "Sixteenth", "ThirtySecond", "SixtyFourth"];
    let fractions = ["1", "1/2", "1/4", "1/8", "1/16", "1/32", "1/64"];
    for k in 0..7 {
        let a = DslDurationType::from_str(names[k]).unwrap().factor_denominator();
        let b = DslDurationType::from_str(fractions[k]).unwrap().factor_denominator();
        assert_eq!(a, b);
        assert_eq!(a as u32, 1u32 << k);
        assert_eq!(1.0f32 / a as f32, 1.0f32 / (1u32 << k) as f32);
    }
}

#[test]
fn encoded_packets_fill_whole_words() {
    let m = OpenSoundMessage {
        address_pattern: "/a".to_string(),
        arguments: vec![
            OpenSoundArgument::String("xyz12".to_string()),
            OpenSoundArgument::Blob(vec![1, 2, 3]),
            OpenSoundArgument::Int32(7),
            OpenSoundArgument::True,
        ],
    };
    let bytes = serialize_message(&m).unwrap();
    assert_eq!(bytes.len() % 4, 0);
    let b = OpenSoundBundle { timestamp: 5, messages: vec![m] };
    assert_eq!(serialize_bundle(&b).unwrap().len() % 4, 0);
}

#[test]
fn square_lfo_is_refused_before_tracks_are_built() {
    let square = "FixedTimeNoteSequence dur Quarter tempo 120 num_steps 16\nlfo freq 2.5 amp 0.3 waveforms square";
    let script = parse_dsl(square).unwrap();
    assert!(!script_lfos_accepted(&script));
    assert!(parse_dsl_for_tracks(square).is_none());
    let sqr = "FixedTimeNoteSequence dur Quarter tempo 120 num_steps 16\nlfo freq 2.5 amp 0.3 waveforms sine,sqr";
    assert!(parse_dsl_for_tracks(sqr).is_none());
    let sine = "FixedTimeNoteSequence dur Quarter tempo 120 num_steps 16\nlfo freq 2.5 amp 0.3 waveforms sine,triangle";
    let parsed = parse_dsl_for_tracks(sine).unwrap().unwrap();
    assert!(script_lfos_accepted(&parsed));
    assert!(parse_dsl_for_tracks("nonsense").unwrap().is_err());
}

#[test]
fn events_the_library_does_not_write_are_refused() {
    let other = vec![vec![MidiEvent { delta: 0, kind: MidiEventKind::Other }]];
    assert!(events_to_midi_bytes(SmfFormat::Parallel, 480, &other).is_none());
    let program = vec![vec![MidiEvent { delta: 0, kind: MidiEventKind::OtherChannelMessage { channel: 1 } }]];
    assert!(events_to_midi_bytes(SmfFormat::Parallel, 480, &program).is_none());
    let end = vec![vec![MidiEvent { delta: 0, kind: MidiEventKind::EndOfTrack }]];
    assert!(events_to_midi_bytes(SmfFormat::Parallel, 480, &end).is_some());
}
