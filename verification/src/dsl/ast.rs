//! The syntax tree of a composition script, with a mathematical model of
//! each node in which every piece of text is a `Seq<char>`.
use vstd::prelude::*;
use vstd::string::StringExecFns;

verus! {

/// The length of one sequence step, as a named note value or as a
/// fraction `1/n` of a whole note.
#[derive(Clone, Copy, Debug, PartialEq, Eq, Structural)]
pub enum DslDurationType {
    Whole,
    Half,
    Quarter,
    Eighth,
    Sixteenth,
    ThirtySecond,
    SixtyFourth,
    /// The fraction `1/n` of a whole note, for the `n` given.
    Fraction(u8),
}

/// A waveform name of the DSL; the short names are aliases of the long ones.
#[derive(Clone, Copy, Debug, PartialEq, Eq, Structural)]
pub enum WaveformType {
    Sine,
    Sin,
    Square,
    Sqr,
    Triangle,
    Tri,
    Sawtooth,
    Saw,
    GaussianNoise,
    Noise,
}

/// A pitch name of the DSL.
#[derive(Clone, Copy, Debug, PartialEq, Eq, Structural)]
pub enum WesternPitchType {
    C,
    CSharp,
    DFlat,
    D,
    DSharp,
    EFlat,
    E,
    F,
    FSharp,
    GFlat,
    G,
    GSharp,
    AFlat,
    A,
    ASharp,
    BFlat,
    B,
}

/// A decimal number of the script, kept as the text that was written: a
/// literal that std's `FromStr` for `f32` accepts.
#[derive(Debug)]
pub struct FloatLiteral {
    pub text: String,
}

impl View for FloatLiteral {
    type V = Seq<char>;

    open spec fn view(&self) -> Seq<char> {
        self.text@
    }
}

#[derive(Debug)]
pub struct DelayDef {
    pub mix: FloatLiteral,
    pub decay: FloatLiteral,
    pub interval_ms: FloatLiteral,
    pub duration_ms: FloatLiteral,
    pub num_repeats: usize,
    pub num_predelay_samples: usize,
    pub num_concurrent_delays: usize,
}

pub struct DelayDefModel {
    pub mix: Seq<char>,
    pub decay: Seq<char>,
    pub interval_ms: Seq<char>,
    pub duration_ms: Seq<char>,
    pub num_repeats: usize,
    pub num_predelay_samples: usize,
    pub num_concurrent_delays: usize,
}

impl View for DelayDef {
    type V = DelayDefModel;

    open spec fn view(&self) -> DelayDefModel {
        DelayDefModel {
            mix: self.mix@,
            decay: self.decay@,
            interval_ms: self.interval_ms@,
            duration_ms: self.duration_ms@,
            num_repeats: self.num_repeats,
            num_predelay_samples: self.num_predelay_samples,
            num_concurrent_delays: self.num_concurrent_delays,
        }
    }
}

#[derive(Debug)]
pub struct FlangerDef {
    pub window_size: usize,
    pub mix: FloatLiteral,
}

pub struct FlangerDefModel {
    pub window_size: usize,
    pub mix: Seq<char>,
}

impl View for FlangerDef {
    type V = FlangerDefModel;

    open spec fn view(&self) -> FlangerDefModel {
        FlangerDefModel { window_size: self.window_size, mix: self.mix@ }
    }
}

#[derive(Debug)]
pub struct LFODef {
    pub freq: FloatLiteral,
    pub amp: FloatLiteral,
    pub waveforms: Vec<WaveformType>,
}

pub struct LFODefModel {
    pub freq: Seq<char>,
    pub amp: Seq<char>,
    pub waveforms: Seq<WaveformType>,
}

impl View for LFODef {
    type V = LFODefModel;

    open spec fn view(&self) -> LFODefModel {
        LFODefModel { freq: self.freq@, amp: self.amp@, waveforms: self.waveforms@ }
    }
}

#[derive(Debug)]
pub enum EffectDef {
    Delay(DelayDef),
    Flanger(FlangerDef),
    LFO(LFODef),
}

pub enum EffectDefModel {
    Delay(DelayDefModel),
    Flanger(FlangerDefModel),
    LFO(LFODefModel),
}

impl View for EffectDef {
    type V = EffectDefModel;

    open spec fn view(&self) -> EffectDefModel {
        match self {
            EffectDef::Delay(d) => EffectDefModel::Delay(d@),
            EffectDef::Flanger(f) => EffectDefModel::Flanger(f@),
            EffectDef::LFO(l) => EffectDefModel::LFO(l@),
        }
    }
}

/// Attack, decay, sustain and release, each as a pair of numbers.
#[derive(Debug)]
pub struct EnvelopeDef {
    pub attack: (FloatLiteral, FloatLiteral),
    pub decay: (FloatLiteral, FloatLiteral),
    pub sustain: (FloatLiteral, FloatLiteral),
    pub release: (FloatLiteral, FloatLiteral),
}

pub struct EnvelopeDefModel {
    pub attack: (Seq<char>, Seq<char>),
    pub decay: (Seq<char>, Seq<char>),
    pub sustain: (Seq<char>, Seq<char>),
    pub release: (Seq<char>, Seq<char>),
}

impl View for EnvelopeDef {
    type V = EnvelopeDefModel;

    open spec fn view(&self) -> EnvelopeDefModel {
        EnvelopeDefModel {
            attack: (self.attack.0@, self.attack.1@),
            decay: (self.decay.0@, self.decay.1@),
            sustain: (self.sustain.0@, self.sustain.1@),
            release: (self.release.0@, self.release.1@),
        }
    }
}

#[derive(Clone, Copy, Debug, PartialEq, Eq, Structural)]
pub struct SequenceDef {
    pub dur: DslDurationType,
    pub tempo: u8,
    pub num_steps: usize,
}

/// The pitch of an oscillator note: a named pitch in an octave, whose
/// frequency is the pitch table's entry, or a frequency in Hz.
#[derive(Debug)]
pub enum NoteFrequency {
    Pitch { octave: u8, pitch: WesternPitchType },
    Hz(FloatLiteral),
}

pub enum NoteFrequencyModel {
    Pitch { octave: u8, pitch: WesternPitchType },
    Hz(Seq<char>),
}

impl View for NoteFrequency {
    type V = NoteFrequencyModel;

    open spec fn view(&self) -> NoteFrequencyModel {
        match self {
            NoteFrequency::Pitch { octave, pitch } => NoteFrequencyModel::Pitch {
                octave: *octave,
                pitch: *pitch,
            },
            NoteFrequency::Hz(f) => NoteFrequencyModel::Hz(f@),
        }
    }
}

#[derive(Debug)]
pub enum NoteDeclaration {
    Oscillator {
        waveforms: Vec<WaveformType>,
        note_freq: NoteFrequency,
        volume: FloatLiteral,
        step_index: usize,
    },
    Sample { file_path: String, volume: FloatLiteral, step_index: usize },
}

pub enum NoteDeclarationModel {
    Oscillator {
        waveforms: Seq<WaveformType>,
        note_freq: NoteFrequencyModel,
        volume: Seq<char>,
        step_index: usize,
    },
    Sample { file_path: Seq<char>, volume: Seq<char>, step_index: usize },
}

impl View for NoteDeclaration {
    type V = NoteDeclarationModel;

    open spec fn view(&self) -> NoteDeclarationModel {
        match self {
            NoteDeclaration::Oscillator { waveforms, note_freq, volume, step_index } =>
                NoteDeclarationModel::Oscillator {
                waveforms: waveforms@,
                note_freq: note_freq@,
                volume: volume@,
                step_index: *step_index,
            },
            NoteDeclaration::Sample { file_path, volume, step_index } =>
                NoteDeclarationModel::Sample {
                file_path: file_path@,
                volume: volume@,
                step_index: *step_index,
            },
        }
    }
}

pub open spec fn note_step_index(n: NoteDeclarationModel) -> usize {
    match n {
        NoteDeclarationModel::Oscillator { step_index, .. } => step_index,
        NoteDeclarationModel::Sample { step_index, .. } => step_index,
    }
}

impl NoteDeclaration {
    /// The sequence step at which the note starts.
    pub fn get_step_index(&self) -> (r: usize)
        ensures
            r == note_step_index(self@),
    {
        match self {
            NoteDeclaration::Oscillator { step_index, .. } => *step_index,
            NoteDeclaration::Sample { step_index, .. } => *step_index,
        }
    }
}

/// One track of a script: its sequence, envelopes, effects and notes.
#[derive(Debug)]
pub struct OuterBlock {
    pub sequence_def: SequenceDef,
    pub envelope_defs: Vec<EnvelopeDef>,
    pub effect_defs: Vec<EffectDef>,
    pub note_declarations: Vec<NoteDeclaration>,
}

pub struct OuterBlockModel {
    pub sequence_def: SequenceDef,
    pub envelope_defs: Seq<EnvelopeDefModel>,
    pub effect_defs: Seq<EffectDefModel>,
    pub note_declarations: Seq<NoteDeclarationModel>,
}

impl View for OuterBlock {
    type V = OuterBlockModel;

    open spec fn view(&self) -> OuterBlockModel {
        OuterBlockModel {
            sequence_def: self.sequence_def,
            envelope_defs: self.envelope_defs@.map_values(|e: EnvelopeDef| e@),
            effect_defs: self.effect_defs@.map_values(|e: EffectDef| e@),
            note_declarations: self.note_declarations@.map_values(|n: NoteDeclaration| n@),
        }
    }
}

#[derive(Debug)]
pub struct Script {
    pub outer_blocks: Vec<OuterBlock>,
}

impl View for Script {
    type V = Seq<OuterBlockModel>;

    open spec fn view(&self) -> Seq<OuterBlockModel> {
        self.outer_blocks@.map_values(|b: OuterBlock| b@)
    }
}

/// Why a script was refused; `message` gives the text of each.
#[derive(Debug)]
pub enum DslError {
    UnknownDurationType(String),
    UnknownWaveform(String),
    UnknownWesternPitch(String),
    UnknownEffectType(String),
    UnknownNoteType(String),
    InvalidWesternPitch(String),
    InvalidNoteFrequency(String),
    EmptyFilePath,
    Expected { expected: String, got: String },
    InvalidFloat(String),
    InvalidU8(String),
    InvalidUsize(String),
}

pub enum DslErrorModel {
    UnknownDurationType(Seq<char>),
    UnknownWaveform(Seq<char>),
    UnknownWesternPitch(Seq<char>),
    UnknownEffectType(Seq<char>),
    UnknownNoteType(Seq<char>),
    InvalidWesternPitch(Seq<char>),
    InvalidNoteFrequency(Seq<char>),
    EmptyFilePath,
    Expected { expected: Seq<char>, got: Seq<char> },
    InvalidFloat(Seq<char>),
    InvalidU8(Seq<char>),
    InvalidUsize(Seq<char>),
}

impl View for DslError {
    type V = DslErrorModel;

    open spec fn view(&self) -> DslErrorModel {
        match self {
            DslError::UnknownDurationType(s) => DslErrorModel::UnknownDurationType(s@),
            DslError::UnknownWaveform(s) => DslErrorModel::UnknownWaveform(s@),
            DslError::UnknownWesternPitch(s) => DslErrorModel::UnknownWesternPitch(s@),
            DslError::UnknownEffectType(s) => DslErrorModel::UnknownEffectType(s@),
            DslError::UnknownNoteType(s) => DslErrorModel::UnknownNoteType(s@),
            DslError::InvalidWesternPitch(s) => DslErrorModel::InvalidWesternPitch(s@),
            DslError::InvalidNoteFrequency(s) => DslErrorModel::InvalidNoteFrequency(s@),
            DslError::EmptyFilePath => DslErrorModel::EmptyFilePath,
            DslError::Expected { expected, got } => DslErrorModel::Expected {
                expected: expected@,
                got: got@,
            },
            DslError::InvalidFloat(s) => DslErrorModel::InvalidFloat(s@),
            DslError::InvalidU8(s) => DslErrorModel::InvalidU8(s@),
            DslError::InvalidUsize(s) => DslErrorModel::InvalidUsize(s@),
        }
    }
}

/// The text of each error.
pub open spec fn error_message(e: DslErrorModel) -> Seq<char> {
    match e {
        DslErrorModel::UnknownDurationType(s) => "Unknown duration type: "@ + s,
        DslErrorModel::UnknownWaveform(s) => "Unknown waveform: "@ + s,
        DslErrorModel::UnknownWesternPitch(s) => "Unknown western pitch: "@ + s,
        DslErrorModel::UnknownEffectType(s) => "Unknown effect type: "@ + s,
        DslErrorModel::UnknownNoteType(s) => "Unknown note type: "@ + s,
        DslErrorModel::InvalidWesternPitch(s) => "Invalid western pitch: "@ + s,
        DslErrorModel::InvalidNoteFrequency(s) => "Invalid note frequency: "@ + s,
        DslErrorModel::EmptyFilePath => "Empty file path"@,
        DslErrorModel::Expected { expected, got } => "Expected '"@ + expected + "', got '"@
            + got + "'"@,
        DslErrorModel::InvalidFloat(s) => "Invalid float: "@ + s,
        DslErrorModel::InvalidU8(s) => "Invalid u8: "@ + s,
        DslErrorModel::InvalidUsize(s) => "Invalid usize: "@ + s,
    }
}

fn prefixed(prefix: &str, s: &String) -> (r: String)
    ensures
        r@ == prefix@ + s@,
{
    let mut r = prefix.to_owned();
    r.append(s.as_str());
    r
}

impl DslError {
    /// The human-readable text of the error.
    pub fn message(&self) -> (r: String)
        ensures
            r@ == error_message(self@),
    {
        match self {
            DslError::UnknownDurationType(s) => prefixed("Unknown duration type: ", s),
            DslError::UnknownWaveform(s) => prefixed("Unknown waveform: ", s),
            DslError::UnknownWesternPitch(s) => prefixed("Unknown western pitch: ", s),
            DslError::UnknownEffectType(s) => prefixed("Unknown effect type: ", s),
            DslError::UnknownNoteType(s) => prefixed("Unknown note type: ", s),
            DslError::InvalidWesternPitch(s) => prefixed("Invalid western pitch: ", s),
            DslError::InvalidNoteFrequency(s) => prefixed("Invalid note frequency: ", s),
            DslError::EmptyFilePath => "Empty file path".to_owned(),
            DslError::Expected { expected, got } => {
                let mut r = prefixed("Expected '", expected);
                r.append("', got '");
                r.append(got.as_str());
                r.append("'");
                r
            },
            DslError::InvalidFloat(s) => prefixed("Invalid float: ", s),
            DslError::InvalidU8(s) => prefixed("Invalid u8: ", s),
            DslError::InvalidUsize(s) => prefixed("Invalid usize: ", s),
        }
    }
}

} // verus!
