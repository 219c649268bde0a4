use synth_dsl::dsl::ast::{EffectDef, NoteDeclaration, NoteFrequency, WaveformType, WesternPitchType, DslDurationType};
use synth_dsl::dsl::parser::{parse_dsl, Parser};

#[test]
fn test_parse_simple_script() {
    let input = r#"
            FixedTimeNoteSequence dur Quarter tempo 120 num_steps 16
            a 0.1,0.8 d 0.3,0.6 s 0.8,0.4 r 1.0,0.0
            delay mix 0.5 decay 0.7 interval_ms 100.0 duration_ms 50.0 num_repeats 3 num_predelay_samples 10 num_concurrent_delays 2
            osc:sine:440.0:0.5:0
            osc:square:880.0:0.3:4
        "#;

    let result = parse_dsl(input);
    if let Err(e) = &result {
        println!("Parse error: {}", e);
    }
    assert!(result.is_ok());

    let script = result.unwrap();
    assert_eq!(script.outer_blocks.len(), 1);

    let block = &script.outer_blocks[0];
    assert_eq!(block.envelope_defs.len(), 1);
    let delays = block.effect_defs.iter().filter(|e| matches!(e, EffectDef::Delay(_))).count();
    assert_eq!(delays, 1);
}

#[test]
fn test_parse_multiple_blocks() {
    let input = r#"
            FixedTimeNoteSequence dur Eighth tempo 140 num_steps 8
            a 0.05,0.9 d 0.2,0.7 s 0.9,0.5 r 1.0,0.0
            osc:sine:220.0:0.4:0
            
            FixedTimeNoteSequence dur Quarter tempo 120 num_steps 16
            flanger window_size 8 mix 0.3
            samp:/path/to/sample.wav:0.6:2
        "#;

    let result = parse_dsl(input);
    assert!(result.is_ok());

    let script = result.unwrap();
    assert_eq!(script.outer_blocks.len(), 2);
}

#[test]
fn test_parse_western_pitch() {
    let input = r#"
            FixedTimeNoteSequence dur Quarter tempo 120 num_steps 16
            osc:sine:C:0.5:0
            osc:triangle:F#:0.3:4
        "#;

    let result = parse_dsl(input);
    assert!(result.is_ok());
}

#[test]
fn test_parse_octave_western_pitch() {
    let input = r#"
            FixedTimeNoteSequence dur Quarter tempo 120 num_steps 16
            osc:sine:4,C:0.5:0
            osc:triangle:5,F#:0.3:4
            osc:square:3,A:0.7:8
        "#;

    let result = parse_dsl(input);
    assert!(result.is_ok());
}

#[test]
fn test_parse_complex_effects() {
    let input = r#"
            FixedTimeNoteSequence dur Half tempo 100 num_steps 32
            a 0.1,0.9 d 0.4,0.6 s 0.8,0.3 r 1.0,0.0
            delay mix 0.8 decay 0.6 interval_ms 80.0 duration_ms 40.0 num_repeats 5 num_predelay_samples 15 num_concurrent_delays 3
            flanger window_size 12 mix 0.4
            lfo freq 2.5 amp 0.3 waveforms sine,triangle
            osc:sine,square:440.0:0.7:0
        "#;

    let result = parse_dsl(input);
    assert!(result.is_ok());

    let script = result.unwrap();
    let block = &script.outer_blocks[0];
    let count = |f: fn(&EffectDef) -> bool| block.effect_defs.iter().filter(|e| f(e)).count();
    assert_eq!(block.envelope_defs.len(), 1);
    assert_eq!(count(|e| matches!(e, EffectDef::Delay(_))), 1);
    assert_eq!(count(|e| matches!(e, EffectDef::Flanger(_))), 1);
    assert_eq!(count(|e| matches!(e, EffectDef::LFO(_))), 1);
}

#[test]
fn tokenize_splits_on_separators_and_keeps_colons_and_commas() {
    let toks = Parser::tokenize("osc:sine,square:440.0:0.7:0\n  a 1,2");
    assert_eq!(
        toks,
        vec!["osc", ":", "sine", ",", "square", ":", "440.0", ":", "0.7", ":", "0", "a", "1", ",", "2"]
    );
}

#[test]
fn tokenize_reads_a_file_path_after_samp_space_colon() {
    // After `samp`, a character and a `:`, everything up to the next `:` is one token.
    let toks = Parser::tokenize("samp :/my dir/x.wav:0.6:2");
    assert_eq!(toks, vec!["samp", ":", "/my dir/x.wav", ":", "0.6", ":", "2"]);
}

#[test]
fn tokenize_never_starts_a_comment() {
    let toks = Parser::tokenize("# hello\nx");
    assert_eq!(toks, vec!["#", "hello", "x"]);
}

#[test]
fn parse_reports_expected_keyword() {
    let r = parse_dsl("FixedTimeNoteSequence dur Quarter tempo 120 steps 16");
    assert_eq!(r.unwrap_err(), "Expected 'num_steps', got 'steps'");
}

#[test]
fn parse_reports_each_number_error() {
    assert_eq!(
        parse_dsl("FixedTimeNoteSequence dur Quarter tempo 256 num_steps 16").unwrap_err(),
        "Invalid u8: 256"
    );
    assert_eq!(
        parse_dsl("FixedTimeNoteSequence dur Quarter tempo 12 num_steps -1").unwrap_err(),
        "Invalid usize: -1"
    );
    assert_eq!(
        parse_dsl("FixedTimeNoteSequence dur Quarter tempo 12 num_steps 1 a x,1 d 1,1 s 1,1 r 1,1").unwrap_err(),
        "Invalid float: x"
    );
    assert_eq!(
        parse_dsl("FixedTimeNoteSequence dur Quaver tempo 12 num_steps 1").unwrap_err(),
        "Unknown duration type: Quaver"
    );
}

#[test]
fn parse_reports_note_errors() {
    let head = "FixedTimeNoteSequence dur 1/4 tempo 90 num_steps 4 ";
    assert_eq!(parse_dsl(&format!("{}osc:buzz:C:0.5:0", head)).unwrap_err(), "Unknown waveform: buzz");
    assert_eq!(parse_dsl(&format!("{}osc:sine:4,H:0.5:0", head)).unwrap_err(), "Invalid western pitch: H");
    assert_eq!(parse_dsl(&format!("{}osc:sine:Hz:0.5:0", head)).unwrap_err(), "Invalid note frequency: Hz");
    assert_eq!(parse_dsl(&format!("{}samp: :0.5:0", head)).unwrap_err(), "Empty file path");
}

#[test]
fn parse_reads_note_frequencies_and_waveform_names() {
    let s = parse_dsl("FixedTimeNoteSequence dur 1/16 tempo 90 num_steps 4 osc:SAW,Noise:5,Bb:0.5:3 osc:tri:Eb:0.2:1 osc:sin:1e3:1:2")
        .unwrap();
    let b = &s.outer_blocks[0];
    assert_eq!(b.sequence_def.dur, DslDurationType::Fraction(16));
    assert_eq!(b.sequence_def.tempo, 90);
    match &b.note_declarations[0] {
        NoteDeclaration::Oscillator { waveforms, note_freq, step_index, .. } => {
            assert_eq!(waveforms, &vec![WaveformType::Sawtooth, WaveformType::GaussianNoise]);
            assert!(matches!(note_freq, NoteFrequency::Pitch { octave: 5, pitch: WesternPitchType::BFlat }));
            assert_eq!(*step_index, 3);
        }
        _ => panic!("expected an oscillator note"),
    }
    match &b.note_declarations[1] {
        NoteDeclaration::Oscillator { note_freq, .. } => {
            assert!(matches!(note_freq, NoteFrequency::Pitch { octave: 4, pitch: WesternPitchType::EFlat }));
        }
        _ => panic!("expected an oscillator note"),
    }
    match &b.note_declarations[2] {
        NoteDeclaration::Oscillator { note_freq: NoteFrequency::Hz(f), volume, .. } => {
            assert_eq!(f.text, "1e3");
            assert_eq!(volume.text, "1");
        }
        _ => panic!("expected a frequency in Hz"),
    }
}

#[test]
fn parse_of_empty_script_has_no_blocks() {
    assert_eq!(parse_dsl("  \n\n").unwrap().outer_blocks.len(), 0);
}
