//! The names of durations, waveforms and pitches in the DSL.
use vstd::prelude::*;
use vstd::arithmetic::power2::{lemma2_to64, pow2};
use crate::dsl::ast::{DslDurationType, DslError, DslErrorModel, WaveformType, WesternPitchType};
use crate::meter::DurationType;
use crate::oscillator::Waveform;
use crate::scales::WesternPitch;
use crate::text::{str_eq, str_to_lowercase, lowercase_of};

verus! {

/// The duration named by `s`, if any.
pub open spec fn duration_from_name(s: Seq<char>) -> Option<DslDurationType> {
    if s == "Whole"@ {
        Some(DslDurationType::Whole)
    } else if s == "Half"@ {
        Some(DslDurationType::Half)
    } else if s == "Quarter"@ {
        Some(DslDurationType::Quarter)
    } else if s == "Eighth"@ {
        Some(DslDurationType::Eighth)
    } else if s == "Sixteenth"@ {
        Some(DslDurationType::Sixteenth)
    } else if s == "ThirtySecond"@ {
        Some(DslDurationType::ThirtySecond)
    } else if s == "SixtyFourth"@ {
        Some(DslDurationType::SixtyFourth)
    } else if s == "1"@ {
        Some(DslDurationType::Fraction(1))
    } else if s == "1/2"@ {
        Some(DslDurationType::Fraction(2))
    } else if s == "1/4"@ {
        Some(DslDurationType::Fraction(4))
    } else if s == "1/8"@ {
        Some(DslDurationType::Fraction(8))
    } else if s == "1/16"@ {
        Some(DslDurationType::Fraction(16))
    } else if s == "1/32"@ {
        Some(DslDurationType::Fraction(32))
    } else if s == "1/64"@ {
        Some(DslDurationType::Fraction(64))
    } else {
        None
    }
}

/// No duration is named by the empty string.
pub(crate) proof fn lemma_no_empty_duration_name()
    ensures
        duration_from_name(Seq::<char>::empty()) is None,
{
    reveal_strlit("Whole");
    reveal_strlit("Half");
    reveal_strlit("Quarter");
    reveal_strlit("Eighth");
    reveal_strlit("Sixteenth");
    reveal_strlit("ThirtySecond");
    reveal_strlit("SixtyFourth");
    reveal_strlit("1");
    reveal_strlit("1/2");
    reveal_strlit("1/4");
    reveal_strlit("1/8");
    reveal_strlit("1/16");
    reveal_strlit("1/32");
    reveal_strlit("1/64");
    assert("Whole"@.len() > 0);
    assert("Half"@.len() > 0);
    assert("Quarter"@.len() > 0);
    assert("Eighth"@.len() > 0);
    assert("Sixteenth"@.len() > 0);
    assert("ThirtySecond"@.len() > 0);
    assert("SixtyFourth"@.len() > 0);
    assert("1"@.len() > 0);
    assert("1/2"@.len() > 0);
    assert("1/4"@.len() > 0);
    assert("1/8"@.len() > 0);
    assert("1/16"@.len() > 0);
    assert("1/32"@.len() > 0);
    assert("1/64"@.len() > 0);
}

pub open spec fn duration_parse(s: Seq<char>) -> Result<DslDurationType, DslErrorModel> {
    match duration_from_name(s) {
        Some(d) => Ok(d),
        None => Err(DslErrorModel::UnknownDurationType(s)),
    }
}

/// The waveform named by an already lowercased name, if any.
pub open spec fn waveform_from_lowercase(l: Seq<char>) -> Option<WaveformType> {
    if l == "sine"@ || l == "sin"@ {
        Some(WaveformType::Sine)
    } else if l == "square"@ || l == "sqr"@ {
        Some(WaveformType::Square)
    } else if l == "triangle"@ || l == "tri"@ {
        Some(WaveformType::Triangle)
    } else if l == "sawtooth"@ || l == "saw"@ {
        Some(WaveformType::Sawtooth)
    } else if l == "gaussiannoise"@ || l == "noise"@ {
        Some(WaveformType::GaussianNoise)
    } else {
        None
    }
}

/// The waveform each lowercase name stands for: every waveform by its full
/// name, then by its short name.
pub open spec fn waveform_name_table() -> Seq<(Seq<char>, Waveform)> {
    seq![
        ("sine"@, Waveform::Sine),
        ("sin"@, Waveform::Sine),
        ("square"@, Waveform::Square),
        ("sqr"@, Waveform::Square),
        ("triangle"@, Waveform::Triangle),
        ("tri"@, Waveform::Triangle),
        ("sawtooth"@, Waveform::Saw),
        ("saw"@, Waveform::Saw),
        ("gaussiannoise"@, Waveform::GaussianNoise),
        ("noise"@, Waveform::GaussianNoise),
    ]
}

/// Each name of the table reads as a waveform type that sounds the
/// table's waveform: a full name and its short name give the same
/// waveform, and the five full names give five different ones.
pub proof fn lemma_waveform_names(i: int)
    requires
        0 <= i < waveform_name_table().len(),
    ensures
        waveform_from_lowercase(waveform_name_table()[i].0) matches Some(w) && waveform_of(w)
            == waveform_name_table()[i].1,
        forall|j: int|
            0 <= j < waveform_name_table().len() && i % 2 == 0 && j % 2 == 0 && i != j
                ==> waveform_name_table()[i].1 != waveform_name_table()[j].1,
{
    reveal_strlit("sine");
    reveal_strlit("sin");
    reveal_strlit("square");
    reveal_strlit("sqr");
    reveal_strlit("triangle");
    reveal_strlit("tri");
    reveal_strlit("sawtooth");
    reveal_strlit("saw");
    reveal_strlit("gaussiannoise");
    reveal_strlit("noise");
    let n = waveform_name_table()[i].0;
    if i == 0 {
        assert(n == "sine"@);
    } else if i == 1 {
        assert(n == "sin"@);
        assert(n.len() != "sine"@.len());
    } else if i == 2 {
        assert(n == "square"@);
        assert(n.len() != "sine"@.len());
        assert(n.len() != "sin"@.len());
    } else if i == 3 {
        assert(n == "sqr"@);
        assert(n.len() != "sine"@.len());
        assert(n[1] != "sin"@[1]);
        assert(n.len() != "square"@.len());
    } else if i == 4 {
        assert(n == "triangle"@);
        assert(n.len() != "sine"@.len());
        assert(n.len() != "sin"@.len());
        assert(n.len() != "square"@.len());
        assert(n.len() != "sqr"@.len());
    } else if i == 5 {
        assert(n == "tri"@);
        assert(n.len() != "sine"@.len());
        assert(n[0] != "sin"@[0]);
        assert(n.len() != "square"@.len());
        assert(n[0] != "sqr"@[0]);
        assert(n.len() != "triangle"@.len());
    } else if i == 6 {
        assert(n == "sawtooth"@);
        assert(n.len() != "sine"@.len());
        assert(n.len() != "sin"@.len());
        assert(n.len() != "square"@.len());
        assert(n.len() != "sqr"@.len());
        assert(n[0] != "triangle"@[0]);
        assert(n.len() != "tri"@.len());
    } else if i == 7 {
        assert(n == "saw"@);
        assert(n.len() != "sine"@.len());
        assert(n[1] != "sin"@[1]);
        assert(n.len() != "square"@.len());
        assert(n[1] != "sqr"@[1]);
        assert(n.len() != "triangle"@.len());
        assert(n[0] != "tri"@[0]);
        assert(n.len() != "sawtooth"@.len());
    } else if i == 8 {
        assert(n == "gaussiannoise"@);
        assert(n.len() != "sine"@.len());
        assert(n.len() != "sin"@.len());
        assert(n.len() != "square"@.len());
        assert(n.len() != "sqr"@.len());
        assert(n.len() != "triangle"@.len());
        assert(n.len() != "tri"@.len());
        assert(n.len() != "sawtooth"@.len());
        assert(n.len() != "saw"@.len());
    } else {
        assert(n == "noise"@);
        assert(n.len() != "sine"@.len());
        assert(n.len() != "sin"@.len());
        assert(n.len() != "square"@.len());
        assert(n.len() != "sqr"@.len());
        assert(n.len() != "triangle"@.len());
        assert(n.len() != "tri"@.len());
        assert(n.len() != "sawtooth"@.len());
        assert(n.len() != "saw"@.len());
        assert(n.len() != "gaussiannoise"@.len());
    }
}

/// Waveform names are matched after lowercasing.
pub open spec fn waveform_parse(s: Seq<char>) -> Result<WaveformType, DslErrorModel> {
    match waveform_from_lowercase(lowercase_of(s)) {
        Some(w) => Ok(w),
        None => Err(DslErrorModel::UnknownWaveform(s)),
    }
}

/// The pitch named by `s` (case matters), if any.
pub open spec fn pitch_from_name(s: Seq<char>) -> Option<WesternPitchType> {
    if s == "C"@ {
        Some(WesternPitchType::C)
    } else if s == "CSharp"@ || s == "C#"@ {
        Some(WesternPitchType::CSharp)
    } else if s == "DFlat"@ || s == "Db"@ {
        Some(WesternPitchType::DFlat)
    } else if s == "D"@ {
        Some(WesternPitchType::D)
    } else if s == "DSharp"@ || s == "D#"@ {
        Some(WesternPitchType::DSharp)
    } else if s == "EFlat"@ || s == "Eb"@ {
        Some(WesternPitchType::EFlat)
    } else if s == "E"@ {
        Some(WesternPitchType::E)
    } else if s == "F"@ {
        Some(WesternPitchType::F)
    } else if s == "FSharp"@ || s == "F#"@ {
        Some(WesternPitchType::FSharp)
    } else if s == "GFlat"@ || s == "Gb"@ {
        Some(WesternPitchType::GFlat)
    } else if s == "G"@ {
        Some(WesternPitchType::G)
    } else if s == "GSharp"@ || s == "G#"@ {
        Some(WesternPitchType::GSharp)
    } else if s == "AFlat"@ || s == "Ab"@ {
        Some(WesternPitchType::AFlat)
    } else if s == "A"@ {
        Some(WesternPitchType::A)
    } else if s == "ASharp"@ || s == "A#"@ {
        Some(WesternPitchType::ASharp)
    } else if s == "BFlat"@ || s == "Bb"@ {
        Some(WesternPitchType::BFlat)
    } else if s == "B"@ {
        Some(WesternPitchType::B)
    } else {
        None
    }
}

pub open spec fn pitch_parse(s: Seq<char>) -> Result<WesternPitchType, DslErrorModel> {
    match pitch_from_name(s) {
        Some(p) => Ok(p),
        None => Err(DslErrorModel::UnknownWesternPitch(s)),
    }
}

pub open spec fn result_view<T>(r: Result<T, DslError>) -> Result<T, DslErrorModel> {
    match r {
        Ok(t) => Ok(t),
        Err(e) => Err(e@),
    }
}

impl DslDurationType {
    /// Reads a duration name: `Whole`, `Half`, `Quarter`, `Eighth`,
    /// `Sixteenth`, `ThirtySecond`, `SixtyFourth`, or the fractions `1`,
    /// `1/2`, ... `1/64`.
    pub fn from_str(s: &str) -> (r: Result<DslDurationType, DslError>)
        ensures
            result_view(r) == duration_parse(s@),
    {
        if str_eq(s, "Whole") {
            Ok(DslDurationType::Whole)
        } else if str_eq(s, "Half") {
            Ok(DslDurationType::Half)
        } else if str_eq(s, "Quarter") {
            Ok(DslDurationType::Quarter)
        } else if str_eq(s, "Eighth") {
            Ok(DslDurationType::Eighth)
        } else if str_eq(s, "Sixteenth") {
            Ok(DslDurationType::Sixteenth)
        } else if str_eq(s, "ThirtySecond") {
            Ok(DslDurationType::ThirtySecond)
        } else if str_eq(s, "SixtyFourth") {
            Ok(DslDurationType::SixtyFourth)
        } else if str_eq(s, "1") {
            Ok(DslDurationType::Fraction(1))
        } else if str_eq(s, "1/2") {
            Ok(DslDurationType::Fraction(2))
        } else if str_eq(s, "1/4") {
            Ok(DslDurationType::Fraction(4))
        } else if str_eq(s, "1/8") {
            Ok(DslDurationType::Fraction(8))
        } else if str_eq(s, "1/16") {
            Ok(DslDurationType::Fraction(16))
        } else if str_eq(s, "1/32") {
            Ok(DslDurationType::Fraction(32))
        } else if str_eq(s, "1/64") {
            Ok(DslDurationType::Fraction(64))
        } else {
            Err(DslError::UnknownDurationType(s.to_owned()))
        }
    }

    /// The fraction of a whole note that one step lasts is `1 / d` for
    /// the `d` returned.
    pub fn factor_denominator(&self) -> (r: u8)
        ensures
            r == duration_denominator(*self),
    {
        match self {
            DslDurationType::Whole => 1,
            DslDurationType::Half => 2,
            DslDurationType::Quarter => 4,
            DslDurationType::Eighth => 8,
            DslDurationType::Sixteenth => 16,
            DslDurationType::ThirtySecond => 32,
            DslDurationType::SixtyFourth => 64,
            DslDurationType::Fraction(d) => *d,
        }
    }

    /// The note value a sequence with this step length counts in; a
    /// fraction counts in quarters.
    pub fn meter_duration_type(&self) -> (r: DurationType)
        ensures
            r == meter_duration_of(*self),
    {
        match self {
            DslDurationType::Whole => DurationType::Whole,
            DslDurationType::Half => DurationType::Half,
            DslDurationType::Quarter => DurationType::Quarter,
            DslDurationType::Eighth => DurationType::Eighth,
            DslDurationType::Sixteenth => DurationType::Sixteenth,
            DslDurationType::ThirtySecond => DurationType::ThirtySecond,
            DslDurationType::SixtyFourth => DurationType::SixtyFourth,
            DslDurationType::Fraction(_) => DurationType::Quarter,
        }
    }
}

pub open spec fn duration_denominator(d: DslDurationType) -> u8 {
    match d {
        DslDurationType::Whole => 1,
        DslDurationType::Half => 2,
        DslDurationType::Quarter => 4,
        DslDurationType::Eighth => 8,
        DslDurationType::Sixteenth => 16,
        DslDurationType::ThirtySecond => 32,
        DslDurationType::SixtyFourth => 64,
        DslDurationType::Fraction(n) => n,
    }
}

/// The names of the durations, from a whole note down.
pub open spec fn duration_names() -> Seq<Seq<char>> {
    seq![
        "Whole"@,
        "Half"@,
        "Quarter"@,
        "Eighth"@,
        "Sixteenth"@,
        "ThirtySecond"@,
        "SixtyFourth"@,
    ]
}

/// The fraction spellings of the same durations.
pub open spec fn duration_fractions() -> Seq<Seq<char>> {
    seq!["1"@, "1/2"@, "1/4"@, "1/8"@, "1/16"@, "1/32"@, "1/64"@]
}

/// A duration's name and its fraction spelling give the same factor: for
/// the `k`-th duration from a whole note down, both are read as durations
/// whose factor is `1 / 2^k`.
pub proof fn lemma_duration_spellings_agree(k: int)
    requires
        0 <= k < 7,
    ensures
        duration_from_name(duration_names()[k]) matches Some(a) && duration_denominator(a) == pow2(
            k as nat,
        ),
        duration_from_name(duration_fractions()[k]) matches Some(b) && duration_denominator(b)
            == pow2(k as nat),
{
    reveal_strlit("Whole");
    reveal_strlit("Half");
    reveal_strlit("Quarter");
    reveal_strlit("Eighth");
    reveal_strlit("Sixteenth");
    reveal_strlit("ThirtySecond");
    reveal_strlit("SixtyFourth");
    reveal_strlit("1");
    reveal_strlit("1/2");
    reveal_strlit("1/4");
    reveal_strlit("1/8");
    reveal_strlit("1/16");
    reveal_strlit("1/32");
    reveal_strlit("1/64");
    lemma2_to64();
    let n = duration_names()[k];
    let f = duration_fractions()[k];
    if k == 0 {
        assert(n == "Whole"@ && f == "1"@);

        assert(f.len() != "Whole"@.len());
        assert(f.len() != "Half"@.len());
        assert(f.len() != "Quarter"@.len());
        assert(f.len() != "Eighth"@.len());
        assert(f.len() != "Sixteenth"@.len());
        assert(f.len() != "ThirtySecond"@.len());
        assert(f.len() != "SixtyFourth"@.len());
    } else if k == 1 {
        assert(n == "Half"@ && f == "1/2"@);
        assert(n.len() != "Whole"@.len());
        assert(f.len() != "Whole"@.len());
        assert(f.len() != "Half"@.len());
        assert(f.len() != "Quarter"@.len());
        assert(f.len() != "Eighth"@.len());
        assert(f.len() != "Sixteenth"@.len());
        assert(f.len() != "ThirtySecond"@.len());
        assert(f.len() != "SixtyFourth"@.len());
        assert(f.len() != "1"@.len());
    } else if k == 2 {
        assert(n == "Quarter"@ && f == "1/4"@);
        assert(n.len() != "Whole"@.len());
        assert(n.len() != "Half"@.len());
        assert(f.len() != "Whole"@.len());
        assert(f.len() != "Half"@.len());
        assert(f.len() != "Quarter"@.len());
        assert(f.len() != "Eighth"@.len());
        assert(f.len() != "Sixteenth"@.len());
        assert(f.len() != "ThirtySecond"@.len());
        assert(f.len() != "SixtyFourth"@.len());
        assert(f.len() != "1"@.len());
        assert(f[2] != "1/2"@[2]);
    } else if k == 3 {
        assert(n == "Eighth"@ && f == "1/8"@);
        assert(n.len() != "Whole"@.len());
        assert(n.len() != "Half"@.len());
        assert(n.len() != "Quarter"@.len());
        assert(f.len() != "Whole"@.len());
        assert(f.len() != "Half"@.len());
        assert(f.len() != "Quarter"@.len());
        assert(f.len() != "Eighth"@.len());
        assert(f.len() != "Sixteenth"@.len());
        assert(f.len() != "ThirtySecond"@.len());
        assert(f.len() != "SixtyFourth"@.len());
        assert(f.len() != "1"@.len());
        assert(f[2] != "1/2"@[2]);
        assert(f[2] != "1/4"@[2]);
    } else if k == 4 {
        assert(n == "Sixteenth"@ && f == "1/16"@);
        assert(n.len() != "Whole"@.len());
        assert(n.len() != "Half"@.len());
        assert(n.len() != "Quarter"@.len());
        assert(n.len() != "Eighth"@.len());
        assert(f.len() != "Whole"@.len());
        assert(f[0] != "Half"@[0]);
        assert(f.len() != "Quarter"@.len());
        assert(f.len() != "Eighth"@.len());
        assert(f.len() != "Sixteenth"@.len());
        assert(f.len() != "ThirtySecond"@.len());
        assert(f.len() != "SixtyFourth"@.len());
        assert(f.len() != "1"@.len());
        assert(f.len() != "1/2"@.len());
        assert(f.len() != "1/4"@.len());
        assert(f.len() != "1/8"@.len());
    } else if k == 5 {
        assert(n == "ThirtySecond"@ && f == "1/32"@);
        assert(n.len() != "Whole"@.len());
        assert(n.len() != "Half"@.len());
        assert(n.len() != "Quarter"@.len());
        assert(n.len() != "Eighth"@.len());
        assert(n.len() != "Sixteenth"@.len());
        assert(f.len() != "Whole"@.len());
        assert(f[0] != "Half"@[0]);
        assert(f.len() != "Quarter"@.len());
        assert(f.len() != "Eighth"@.len());
        assert(f.len() != "Sixteenth"@.len());
        assert(f.len() != "ThirtySecond"@.len());
        assert(f.len() != "SixtyFourth"@.len());
        assert(f.len() != "1"@.len());
        assert(f.len() != "1/2"@.len());
        assert(f.len() != "1/4"@.len());
        assert(f.len() != "1/8"@.len());
        assert(f[2] != "1/16"@[2]);
    } else {
        assert(n == "SixtyFourth"@ && f == "1/64"@);
        assert(n.len() != "Whole"@.len());
        assert(n.len() != "Half"@.len());
        assert(n.len() != "Quarter"@.len());
        assert(n.len() != "Eighth"@.len());
        assert(n.len() != "Sixteenth"@.len());
        assert(n.len() != "ThirtySecond"@.len());
        assert(f.len() != "Whole"@.len());
        assert(f[0] != "Half"@[0]);
        assert(f.len() != "Quarter"@.len());
        assert(f.len() != "Eighth"@.len());
        assert(f.len() != "Sixteenth"@.len());
        assert(f.len() != "ThirtySecond"@.len());
        assert(f.len() != "SixtyFourth"@.len());
        assert(f.len() != "1"@.len());
        assert(f.len() != "1/2"@.len());
        assert(f.len() != "1/4"@.len());
        assert(f.len() != "1/8"@.len());
        assert(f[2] != "1/16"@[2]);
        assert(f[2] != "1/32"@[2]);
    }
}

pub open spec fn meter_duration_of(d: DslDurationType) -> DurationType {
    match d {
        DslDurationType::Whole => DurationType::Whole,
        DslDurationType::Half => DurationType::Half,
        DslDurationType::Quarter => DurationType::Quarter,
        DslDurationType::Eighth => DurationType::Eighth,
        DslDurationType::Sixteenth => DurationType::Sixteenth,
        DslDurationType::ThirtySecond => DurationType::ThirtySecond,
        DslDurationType::SixtyFourth => DurationType::SixtyFourth,
        DslDurationType::Fraction(_) => DurationType::Quarter,
    }
}

impl WaveformType {
    /// The waveform named by an already lowercased name, if any.
    pub fn from_lowercase_name(l: &str) -> (r: Option<WaveformType>)
        ensures
            r == waveform_from_lowercase(l@),
    {
        if str_eq(l, "sine") || str_eq(l, "sin") {
            Some(WaveformType::Sine)
        } else if str_eq(l, "square") || str_eq(l, "sqr") {
            Some(WaveformType::Square)
        } else if str_eq(l, "triangle") || str_eq(l, "tri") {
            Some(WaveformType::Triangle)
        } else if str_eq(l, "sawtooth") || str_eq(l, "saw") {
            Some(WaveformType::Sawtooth)
        } else if str_eq(l, "gaussiannoise") || str_eq(l, "noise") {
            Some(WaveformType::GaussianNoise)
        } else {
            None
        }
    }

    /// Reads a waveform name, without regard to case.
    pub fn from_str(s: &str) -> (r: Result<WaveformType, DslError>)
        ensures
            result_view(r) == waveform_parse(s@),
    {
        let lower = str_to_lowercase(s);
        match WaveformType::from_lowercase_name(lower.as_str()) {
            Some(w) => Ok(w),
            None => Err(DslError::UnknownWaveform(s.to_owned())),
        }
    }

    /// The oscillator waveform of this name.
    pub fn to_waveform(&self) -> (r: Waveform)
        ensures
            r == waveform_of(*self),
    {
        match self {
            WaveformType::Sine | WaveformType::Sin => Waveform::Sine,
            WaveformType::Square | WaveformType::Sqr => Waveform::Square,
            WaveformType::Triangle | WaveformType::Tri => Waveform::Triangle,
            WaveformType::Sawtooth | WaveformType::Saw => Waveform::Saw,
            WaveformType::GaussianNoise | WaveformType::Noise => Waveform::GaussianNoise,
        }
    }
}

pub open spec fn waveform_of(w: WaveformType) -> Waveform {
    match w {
        WaveformType::Sine | WaveformType::Sin => Waveform::Sine,
        WaveformType::Square | WaveformType::Sqr => Waveform::Square,
        WaveformType::Triangle | WaveformType::Tri => Waveform::Triangle,
        WaveformType::Sawtooth | WaveformType::Saw => Waveform::Saw,
        WaveformType::GaussianNoise | WaveformType::Noise => Waveform::GaussianNoise,
    }
}

pub open spec fn western_pitch_of(p: WesternPitchType) -> WesternPitch {
    match p {
        WesternPitchType::C => WesternPitch::C,
        WesternPitchType::CSharp => WesternPitch::CSharp,
        WesternPitchType::DFlat => WesternPitch::DFlat,
        WesternPitchType::D => WesternPitch::D,
        WesternPitchType::DSharp => WesternPitch::DSharp,
        WesternPitchType::EFlat => WesternPitch::EFlat,
        WesternPitchType::E => WesternPitch::E,
        WesternPitchType::F => WesternPitch::F,
        WesternPitchType::FSharp => WesternPitch::FSharp,
        WesternPitchType::GFlat => WesternPitch::GFlat,
        WesternPitchType::G => WesternPitch::G,
        WesternPitchType::GSharp => WesternPitch::GSharp,
        WesternPitchType::AFlat => WesternPitch::AFlat,
        WesternPitchType::A => WesternPitch::A,
        WesternPitchType::ASharp => WesternPitch::ASharp,
        WesternPitchType::BFlat => WesternPitch::BFlat,
        WesternPitchType::B => WesternPitch::B,
    }
}

impl WesternPitchType {
    /// Reads a pitch name: a letter, a letter with `Sharp`/`#` or a letter
    /// with `Flat`/`b`. Case matters.
    pub fn from_str(s: &str) -> (r: Result<WesternPitchType, DslError>)
        ensures
            result_view(r) == pitch_parse(s@),
    {
        if str_eq(s, "C") {
            Ok(WesternPitchType::C)
        } else if str_eq(s, "CSharp") || str_eq(s, "C#") {
            Ok(WesternPitchType::CSharp)
        } else if str_eq(s, "DFlat") || str_eq(s, "Db") {
            Ok(WesternPitchType::DFlat)
        } else if str_eq(s, "D") {
            Ok(WesternPitchType::D)
        } else if str_eq(s, "DSharp") || str_eq(s, "D#") {
            Ok(WesternPitchType::DSharp)
        } else if str_eq(s, "EFlat") || str_eq(s, "Eb") {
            Ok(WesternPitchType::EFlat)
        } else if str_eq(s, "E") {
            Ok(WesternPitchType::E)
        } else if str_eq(s, "F") {
            Ok(WesternPitchType::F)
        } else if str_eq(s, "FSharp") || str_eq(s, "F#") {
            Ok(WesternPitchType::FSharp)
        } else if str_eq(s, "GFlat") || str_eq(s, "Gb") {
            Ok(WesternPitchType::GFlat)
        } else if str_eq(s, "G") {
            Ok(WesternPitchType::G)
        } else if str_eq(s, "GSharp") || str_eq(s, "G#") {
            Ok(WesternPitchType::GSharp)
        } else if str_eq(s, "AFlat") || str_eq(s, "Ab") {
            Ok(WesternPitchType::AFlat)
        } else if str_eq(s, "A") {
            Ok(WesternPitchType::A)
        } else if str_eq(s, "ASharp") || str_eq(s, "A#") {
            Ok(WesternPitchType::ASharp)
        } else if str_eq(s, "BFlat") || str_eq(s, "Bb") {
            Ok(WesternPitchType::BFlat)
        } else if str_eq(s, "B") {
            Ok(WesternPitchType::B)
        } else {
            Err(DslError::UnknownWesternPitch(s.to_owned()))
        }
    }

    /// The pitch class of this name.
    pub fn to_western_pitch(&self) -> (r: WesternPitch)
        ensures
            r == western_pitch_of(*self),
    {
        match self {
            WesternPitchType::C => WesternPitch::C,
            WesternPitchType::CSharp => WesternPitch::CSharp,
            WesternPitchType::DFlat => WesternPitch::DFlat,
            WesternPitchType::D => WesternPitch::D,
            WesternPitchType::DSharp => WesternPitch::DSharp,
            WesternPitchType::EFlat => WesternPitch::EFlat,
            WesternPitchType::E => WesternPitch::E,
            WesternPitchType::F => WesternPitch::F,
            WesternPitchType::FSharp => WesternPitch::FSharp,
            WesternPitchType::GFlat => WesternPitch::GFlat,
            WesternPitchType::G => WesternPitch::G,
            WesternPitchType::GSharp => WesternPitch::GSharp,
            WesternPitchType::AFlat => WesternPitch::AFlat,
            WesternPitchType::A => WesternPitch::A,
            WesternPitchType::ASharp => WesternPitch::ASharp,
            WesternPitchType::BFlat => WesternPitch::BFlat,
            WesternPitchType::B => WesternPitch::B,
        }
    }
}

} // verus!
