use synth_dsl::meter::{DurationType, Meter, MeterBuilder};

#[test]
fn test_meter_builder_success() {
    let meter = MeterBuilder::default()
        .beats_per_measure(4)
        .beat_unit(DurationType::Quarter)
        .tempo(120)
        .build()
        .unwrap();

    assert_eq!(meter.beats_per_measure, 4);
    assert_eq!(meter.beat_unit, DurationType::Quarter);
    assert_eq!(meter.tempo, 120);
}

#[test]
fn test_meter_builder_common_time_signatures() {
    let meter_4_4 = MeterBuilder::default()
        .beats_per_measure(4)
        .beat_unit(DurationType::Quarter)
        .tempo(120)
        .build()
        .unwrap();

    let meter_3_4 = MeterBuilder::default()
        .beats_per_measure(3)
        .beat_unit(DurationType::Quarter)
        .tempo(180)
        .build()
        .unwrap();

    let meter_6_8 = MeterBuilder::default()
        .beats_per_measure(6)
        .beat_unit(DurationType::Eighth)
        .tempo(90)
        .build()
        .unwrap();

    assert_eq!(meter_4_4.beats_per_measure, 4);
    assert_eq!(meter_3_4.beats_per_measure, 3);
    assert_eq!(meter_6_8.beats_per_measure, 6);
    assert_eq!(meter_6_8.beat_unit, DurationType::Eighth);
}

#[test]
fn test_meter_builder_validation_zero_beats_per_measure() {
    let result = MeterBuilder::default()
        .beats_per_measure(0)
        .beat_unit(DurationType::Quarter)
        .tempo(120)
        .build();

    assert!(result.is_err());
    assert!(result.unwrap_err().to_string().contains("beats_per_measure must be greater than 0"));
}

#[test]
fn test_meter_builder_validation_zero_tempo() {
    let result = MeterBuilder::default()
        .beats_per_measure(4)
        .beat_unit(DurationType::Quarter)
        .tempo(0)
        .build();

    assert!(result.is_err());
    assert!(result.unwrap_err().to_string().contains("tempo must be greater than 0"));
}

#[test]
fn test_meter_builder_validation_excessive_beats_per_measure() {
    let result = MeterBuilder::default()
        .beats_per_measure(50)
        .beat_unit(DurationType::Quarter)
        .tempo(120)
        .build();

    assert!(result.is_err());
    assert!(result.unwrap_err().to_string().contains("beats_per_measure should not exceed 32"));
}

#[test]
fn test_meter_builder_missing_beats_per_measure() {
    let result = MeterBuilder::default()
        .beat_unit(DurationType::Quarter)
        .tempo(120)
        .build();

    assert!(result.is_err());
    assert!(result.unwrap_err().to_string().contains("Beats per measure is required"));
}

#[test]
fn test_meter_builder_missing_beat_unit() {
    let result = MeterBuilder::default().beats_per_measure(4).tempo(120).build();

    assert!(result.is_err());
    assert!(result.unwrap_err().to_string().contains("Beat unit is required"));
}

#[test]
fn test_meter_builder_missing_tempo() {
    let result = MeterBuilder::default()
        .beats_per_measure(4)
        .beat_unit(DurationType::Quarter)
        .build();

    assert!(result.is_err());
    assert!(result.unwrap_err().to_string().contains("Tempo is required"));
}

#[test]
fn test_meter_equality() {
    let meter1 = MeterBuilder::default()
        .beats_per_measure(4)
        .beat_unit(DurationType::Quarter)
        .tempo(120)
        .build()
        .unwrap();

    let meter2 = MeterBuilder::default()
        .beats_per_measure(4)
        .beat_unit(DurationType::Quarter)
        .tempo(120)
        .build()
        .unwrap();

    assert_eq!(meter1, meter2);
}

#[test]
fn test_meter_backward_compatibility_with_new() {
    let meter_new = Meter::new(4, DurationType::Quarter, 120);

    let meter_builder = MeterBuilder::default()
        .beats_per_measure(4)
        .beat_unit(DurationType::Quarter)
        .tempo(120)
        .build()
        .unwrap();

    assert_eq!(meter_new, meter_builder);
}

#[test]
fn meter_validation_checks_missing_fields_before_bounds() {
    // A missing tempo is reported even when the beats are out of range.
    let result = MeterBuilder::default()
        .beats_per_measure(0)
        .beat_unit(DurationType::Half)
        .build();
    assert_eq!(result.unwrap_err(), "Tempo is required");
}

#[test]
fn meter_validation_accepts_the_bounds() {
    let low = MeterBuilder::default()
        .beats_per_measure(1)
        .beat_unit(DurationType::Whole)
        .tempo(1)
        .build()
        .unwrap();
    assert_eq!(low, Meter::new(1, DurationType::Whole, 1));
    let high = MeterBuilder::default()
        .beats_per_measure(32)
        .beat_unit(DurationType::SixtyFourth)
        .tempo(255)
        .build()
        .unwrap();
    assert_eq!(high.beats_per_measure, 32);
    let over = MeterBuilder::default()
        .beats_per_measure(33)
        .beat_unit(DurationType::Whole)
        .tempo(1)
        .build();
    assert_eq!(over.unwrap_err(), "Meter: beats_per_measure should not exceed 32");
}

#[test]
fn meter_validate_matches_build() {
    let b = MeterBuilder::default().beats_per_measure(7).beat_unit(DurationType::Eighth).tempo(0);
    assert_eq!(b.validate(), b.build());
    assert_eq!(b.build().unwrap_err(), "Meter: tempo must be greater than 0");
}

fn to_factor(d: DurationType) -> f32 {
    1.0f32 / d.factor_denominator() as f32
}

#[test]
fn test_duration_type_to_factor() {
    assert_eq!(to_factor(DurationType::Whole), 1.0);
    assert_eq!(to_factor(DurationType::Half), 0.5);
    assert_eq!(to_factor(DurationType::Quarter), 0.25);
    assert_eq!(to_factor(DurationType::Eighth), 0.125);
    assert_eq!(to_factor(DurationType::Sixteenth), 0.0625);
    assert_eq!(to_factor(DurationType::ThirtySecond), 0.03125);
    assert_eq!(to_factor(DurationType::SixtyFourth), 0.015625);
}
