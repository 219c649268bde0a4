use synth_dsl::dsl::ast::{DslDurationType, WaveformType, WesternPitchType};
use synth_dsl::meter::DurationType;
use synth_dsl::note_pool::{BuilderWrapper, NotePool};
use synth_dsl::oscillator::{get_waveforms, get_waveforms_from_arg, Waveform};
use synth_dsl::scales::{ArabicScale, Interval, WesternPitch, WesternScale};
use synth_dsl::sample_buffer::SampleBuffer;
use synth_dsl::sequence::Sequence;

#[test]
fn sequence_cursor() {
    let mut s: Sequence<u32> = Sequence::new();
    assert_eq!(s.len(), 0);
    assert!(s.at_end());
    s.add_note(10);
    s.add_note(20);
    assert!(!s.at_end());
    assert_eq!(s.get_note(), 10);
    assert_eq!(s.get_note_and_advance(), 10);
    assert_eq!(s.get_index(), 1);
    assert_eq!(s.get_note_and_advance(), 20);
    assert!(s.at_end());
    s.reset_index();
    assert_eq!(s.get_index(), 0);
    assert_eq!(s.get_note(), 10);
    s.advance();
    s.advance();
    s.advance();
    assert!(s.at_end());
    assert_eq!(s.len(), 2);
}

#[test]
fn scale_intervals() {
    assert_eq!(
        WesternScale::Major.intervals(),
        vec![
            Interval::Ratio(1, 1),
            Interval::Ratio(9, 8),
            Interval::Ratio(5, 4),
            Interval::Ratio(4, 3),
            Interval::Ratio(3, 2),
            Interval::Ratio(5, 3),
            Interval::Ratio(15, 8)
        ]
    );
    assert_eq!(WesternScale::Pentatonic.intervals().len(), 5);
    assert_eq!(WesternScale::Blues.intervals()[3], Interval::Ratio(7, 6));
    let chromatic = WesternScale::Chromatic.intervals();
    assert_eq!(chromatic.len(), 12);
    assert_eq!(chromatic[7], Interval::Semitones(7));
    assert_eq!(ArabicScale::Hijaz.intervals(), ArabicScale::Bayati.intervals());
    assert_eq!(ArabicScale::Rast.intervals(), WesternScale::Major.intervals());
    assert_eq!(ArabicScale::Saba.intervals(), WesternScale::Minor.intervals());
    assert_eq!(ArabicScale::Hijaz.intervals()[1], Interval::Ratio(16, 15));
}

#[test]
fn pitch_indexes() {
    assert_eq!(WesternPitch::C.get_pitch_index(), 0);
    assert_eq!(WesternPitch::CSharp.get_pitch_index(), WesternPitch::DFlat.get_pitch_index());
    assert_eq!(WesternPitch::A.get_pitch_index(), 9);
    assert_eq!(WesternPitch::B.get_pitch_index(), 11);
    assert_eq!(WesternPitch::A.table_index(4), 57);
    assert_eq!(WesternPitch::B.table_index(20), 251);
}

#[test]
fn duration_mappings() {
    assert_eq!(DslDurationType::Eighth.meter_duration_type(), DurationType::Eighth);
    assert_eq!(DslDurationType::Fraction(8).meter_duration_type(), DurationType::Quarter);
    assert_eq!(DslDurationType::Whole.factor_denominator(), 1);
    assert_eq!(DslDurationType::SixtyFourth.factor_denominator(), 64);
    assert_eq!(DslDurationType::Fraction(16).factor_denominator(), 16);
    assert_eq!(DurationType::Quarter.factor_denominator(), 4);
    assert_eq!(DurationType::ThirtySecond.factor_denominator(), 32);
}

#[test]
fn command_line_waveforms() {
    assert_eq!(get_waveforms("sine,saw"), vec![Waveform::Sine, Waveform::Saw]);
    assert_eq!(get_waveforms("gaussian_noise,bogus"), vec![Waveform::GaussianNoise, Waveform::Sine]);
    assert_eq!(get_waveforms(""), vec![Waveform::Sine]);
    assert_eq!(get_waveforms_from_arg("triangle,square"), vec![Waveform::Triangle, Waveform::Square]);
}

struct Counter;

impl BuilderWrapper<u8> for Counter {
    fn new() -> u8 {
        7
    }
}

#[test]
fn note_pool_bounds() {
    let mut pool: NotePool<u8> = NotePool::new::<Counter>(2);
    assert_eq!(pool.acquire(), Some(7));
    assert_eq!(pool.acquire(), Some(7));
    assert_eq!(pool.acquire(), None);
    pool.release(1);
    pool.release(2);
    pool.release(3);
    assert_eq!(pool.acquire(), Some(1));
    assert_eq!(pool.acquire(), Some(2));
    assert_eq!(pool.acquire(), None);
}

#[test]
fn sample_buffer_reads_and_chops() {
    let mut b = SampleBuffer::new();
    for s in 1..=7u32 {
        b.append_sample(s);
    }
    assert_eq!(b.buf_size, 7);
    assert_eq!(b.get_sample_at(3), 4);
    assert_eq!(b.next_sample(), 1);
    assert_eq!(b.next_sample(), 2);

    let parts = b.chopped(3);
    assert_eq!(parts.len(), 3);
    assert_eq!(parts[0].sample_buf, vec![1, 2]);
    assert_eq!(parts[1].sample_buf, vec![3, 4]);
    assert_eq!(parts[2].sample_buf, vec![5, 6]);
    assert_eq!(parts[2].buf_size, 2);

    b.reverse();
    assert_eq!(b.sample_buf, vec![7, 6, 5, 4, 3, 2, 1]);
    b.set_sample_buf(&[9, 8], 5);
    assert_eq!(b.sample_buf, vec![9, 8]);
    assert_eq!(b.buf_size, 5);
    assert_eq!(b.next_sample(), 9);
}

#[test]
fn name_errors_have_messages() {
    assert_eq!(WesternPitchType::from_str("H").unwrap_err().message(), "Unknown western pitch: H");
    assert_eq!(WaveformType::from_str("buzz").unwrap_err().message(), "Unknown waveform: buzz");
    assert_eq!(DslDurationType::from_str("1/3").unwrap_err().message(), "Unknown duration type: 1/3");
    assert_eq!(WesternPitchType::from_str("Bb").unwrap().to_western_pitch(), WesternPitch::BFlat);
    assert_eq!(WaveformType::from_str("noise").unwrap().to_waveform(), Waveform::GaussianNoise);
}
