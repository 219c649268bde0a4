//! Note durations and musical meters.
use vstd::prelude::*;

verus! {

/// The standard note values.
#[derive(Clone, Copy, Debug, PartialEq, Eq, Hash, Structural)]
pub enum DurationType {
    Whole,
    Half,
    Quarter,
    Eighth,
    Sixteenth,
    ThirtySecond,
    SixtyFourth,
}

/// The note value's fraction of a whole note is `1 / d` for the `d`
/// given: 1, 2, 4, ... 64.
pub open spec fn note_value_denominator(d: DurationType) -> u8 {
    match d {
        DurationType::Whole => 1,
        DurationType::Half => 2,
        DurationType::Quarter => 4,
        DurationType::Eighth => 8,
        DurationType::Sixteenth => 16,
        DurationType::ThirtySecond => 32,
        DurationType::SixtyFourth => 64,
    }
}

impl DurationType {
    /// The denominator of the note value (see `note_value_denominator`).
    pub fn factor_denominator(&self) -> (r: u8)
        ensures
            r == note_value_denominator(*self),
    {
        match self {
            DurationType::Whole => 1,
            DurationType::Half => 2,
            DurationType::Quarter => 4,
            DurationType::Eighth => 8,
            DurationType::Sixteenth => 16,
            DurationType::ThirtySecond => 32,
            DurationType::SixtyFourth => 64,
        }
    }
}

/// A musical meter: beats per measure, the note value of one beat, and the
/// tempo in beats per minute.
#[derive(Clone, Copy, Debug, PartialEq, Eq, Structural)]
pub struct Meter {
    pub beats_per_measure: u8,
    pub beat_unit: DurationType,
    pub tempo: u8,
}

/// Builds a `Meter`, checking that its values are sensible.
#[derive(Clone, Copy, Debug)]
pub struct MeterBuilder {
    pub beats_per_measure: Option<u8>,
    pub beat_unit: Option<DurationType>,
    pub tempo: Option<u8>,
}

/// The outcome of validating a builder's fields: the meter, or the error's
/// text.
pub open spec fn meter_validation(
    beats_per_measure: Option<u8>,
    beat_unit: Option<DurationType>,
    tempo: Option<u8>,
) -> Result<Meter, Seq<char>> {
    if beats_per_measure is None {
        Err("Beats per measure is required"@)
    } else if beat_unit is None {
        Err("Beat unit is required"@)
    } else if tempo is None {
        Err("Tempo is required"@)
    } else if beats_per_measure->0 == 0 {
        Err("Meter: beats_per_measure must be greater than 0"@)
    } else if tempo->0 == 0 {
        Err("Meter: tempo must be greater than 0"@)
    } else if beats_per_measure->0 > 32 {
        Err("Meter: beats_per_measure should not exceed 32"@)
    } else {
        Ok(
            Meter {
                beats_per_measure: beats_per_measure->0,
                beat_unit: beat_unit->0,
                tempo: tempo->0,
            },
        )
    }
}

pub open spec fn string_result_view<T>(r: Result<T, String>) -> Result<T, Seq<char>> {
    match r {
        Ok(t) => Ok(t),
        Err(s) => Err(s@),
    }
}

impl Default for MeterBuilder {
    /// A builder with no field set.
    fn default() -> (r: Self)
        ensures
            r.beats_per_measure is None && r.beat_unit is None && r.tempo is None,
    {
        MeterBuilder { beats_per_measure: None, beat_unit: None, tempo: None }
    }
}

impl MeterBuilder {
    pub fn beats_per_measure(self, value: u8) -> (r: Self)
        ensures
            r == (MeterBuilder { beats_per_measure: Some(value), ..self }),
    {
        MeterBuilder { beats_per_measure: Some(value), ..self }
    }

    pub fn beat_unit(self, value: DurationType) -> (r: Self)
        ensures
            r == (MeterBuilder { beat_unit: Some(value), ..self }),
    {
        MeterBuilder { beat_unit: Some(value), ..self }
    }

    pub fn tempo(self, value: u8) -> (r: Self)
        ensures
            r == (MeterBuilder { tempo: Some(value), ..self }),
    {
        MeterBuilder { tempo: Some(value), ..self }
    }

    /// Checks the fields: all three are required, the beats per measure must
    /// be from 1 to 32 and the tempo must not be 0.
    pub fn validate(&self) -> (r: Result<Meter, String>)
        ensures
            string_result_view(r) == meter_validation(
                self.beats_per_measure,
                self.beat_unit,
                self.tempo,
            ),
    {
        let beats_per_measure = match self.beats_per_measure {
            Some(v) => v,
            None => return Err("Beats per measure is required".to_owned()),
        };
        let beat_unit = match self.beat_unit {
            Some(v) => v,
            None => return Err("Beat unit is required".to_owned()),
        };
        let tempo = match self.tempo {
            Some(v) => v,
            None => return Err("Tempo is required".to_owned()),
        };
        if beats_per_measure == 0 {
            return Err("Meter: beats_per_measure must be greater than 0".to_owned());
        }
        if tempo == 0 {
            return Err("Meter: tempo must be greater than 0".to_owned());
        }
        // Common time signatures validation - beats_per_measure should be reasonable
        if beats_per_measure > 32 {
            return Err("Meter: beats_per_measure should not exceed 32".to_owned());
        }
        Ok(Meter { beats_per_measure, beat_unit, tempo })
    }

    /// The meter, once the fields validate.
    pub fn build(&self) -> (r: Result<Meter, String>)
        ensures
            string_result_view(r) == meter_validation(
                self.beats_per_measure,
                self.beat_unit,
                self.tempo,
            ),
    {
        self.validate()
    }
}

impl Meter {
    pub fn new(beats_per_measure: u8, beat_unit: DurationType, tempo: u8) -> (r: Self)
        ensures
            r == (Meter { beats_per_measure, beat_unit, tempo }),
    {
        Self { beats_per_measure, beat_unit, tempo }
    }
}

/// A meter built from a builder satisfies the bounds that validation checks.
pub proof fn lemma_built_meter_is_valid(b: MeterBuilder)
    ensures
        meter_validation(b.beats_per_measure, b.beat_unit, b.tempo) matches Ok(m) ==> 1
            <= m.beats_per_measure <= 32 && m.tempo >= 1,
{
}

} // verus!
