use synth_dsl::effect::{build_delay_windows, lfo_accepts_waveforms};
use synth_dsl::flanger::FlangerWindow;
use synth_dsl::oscillator::Waveform;
use synth_dsl::sample_manager::{SampleManager, SampleManagerRegistry, PREDELAY_BUFFER_SIZE};

fn bits(k: u32) -> u32 {
    (k as f32).to_bits()
}

#[test]
fn delay_windows_pattern() {
    let w = build_delay_windows(3, 2, 2);
    assert_eq!(w, vec![true, true, true, false, false, true, true, true, false]);
    let single = build_delay_windows(1, 1, 1);
    assert_eq!(single, vec![true]);
    let no_window = build_delay_windows(0, 2, 2);
    assert_eq!(no_window, vec![true, true, true]);
}

#[test]
fn lfo_rejects_square() {
    assert!(lfo_accepts_waveforms(&vec![Waveform::Sine, Waveform::Saw]));
    assert!(!lfo_accepts_waveforms(&vec![Waveform::Sine, Waveform::Square]));
    assert!(lfo_accepts_waveforms(&vec![]));
}

fn small_manager() -> SampleManager {
    SampleManager::new(0, 25, build_delay_windows(3, 2, 2), 2, 2, 0, 0, 0, 0, 0)
}

#[test]
fn manager_plays_back_its_recording() {
    let mut m = small_manager();
    let mut played = Vec::new();
    for k in 1..=28u32 {
        played.push(m.next_sample(bits(k)));
    }
    let mut expected = vec![0u32; PREDELAY_BUFFER_SIZE];
    expected.extend_from_slice(&[bits(1), bits(2), bits(3), 0, 0, bits(4), bits(5), 0]);
    assert_eq!(played, expected);
}

#[test]
fn manager_dump_lines() {
    let m = small_manager();
    let lines = m.dump_print_lines();
    assert_eq!(lines.len(), 17);
    assert_eq!(lines[0], "--------------------------------");
    assert_eq!(lines[1], "id: 0");
    assert_eq!(lines[2], "sample_buffer_size: 25");
    assert_eq!(lines[6], "num_predelay_samples: 2");
    assert_eq!(lines[11], "is_active: true");
    assert_eq!(lines[10], "is_full: false");
    assert_eq!(lines[16], "--------------------------------");
}

#[test]
fn manager_reset_starts_the_pre_delay_again() {
    let mut m = small_manager();
    for k in 1..=21u32 {
        m.next_sample(bits(k));
    }
    m.reset();
    for k in 1..=20u32 {
        assert_eq!(m.next_sample(bits(100 + k)), 0);
    }
    assert_eq!(m.next_sample(bits(7)), bits(101));
}

#[test]
fn registry_ids_and_spawns() {
    let mut reg = SampleManagerRegistry::new();
    let windows = build_delay_windows(3, 2, 2);
    assert_eq!(reg.num_managers(7), 0);
    let first = reg.next_sample_manager_id();
    assert_eq!(first, 0);
    reg.add_sample_manager(7, first, 25, windows.clone(), 2, 2, 0, 0, 0, 0, 0);
    assert_eq!(reg.num_managers(7), 1);

    for k in 1..=22u32 {
        let out = reg.delay_step(7, bits(k), 25, &windows, 2, 2);
        assert_eq!(out.len(), 1);
    }
    assert_eq!(reg.num_managers(7), 1);
    // The 23rd sample fills the recording: the manager spawns a second one.
    let out = reg.delay_step(7, bits(23), 25, &windows, 2, 2);
    assert_eq!(out, vec![(bits(3), 1)]);
    assert_eq!(reg.num_managers(7), 2);

    for k in 24..=200u32 {
        reg.delay_step(7, bits(k), 25, &windows, 2, 2);
    }
    // Ids 0, 1 and 2 were admitted; id 3 brought the counter to the limit.
    assert_eq!(reg.num_managers(7), 3);
    assert_eq!(reg.next_sample_manager_id(), 4);
    assert_eq!(reg.num_managers(8), 0);
}

#[test]
fn registry_refuses_at_the_limit() {
    let mut reg = SampleManagerRegistry::new();
    for _ in 0..4 {
        let id = reg.next_sample_manager_id();
        reg.add_sample_manager(1, id, 25, vec![true], 1, 0, 0, 0, 0, 0, 0);
    }
    assert_eq!(reg.num_managers(1), 3);
    let out = reg.delay_step(2, bits(1), 25, &vec![true], 1, 0);
    assert!(out.is_empty());
}

#[test]
fn flanger_window_delays_by_its_size() {
    let mut filled = FlangerWindow::filled(Some(3));
    let out: Vec<u32> = (1..=5u32).map(|k| filled.next_sample(bits(k))).collect();
    assert_eq!(out, vec![0, 0, bits(1), bits(2), bits(3)]);

    let mut empty = FlangerWindow::new(3);
    let out: Vec<u32> = (1..=5u32).map(|k| empty.next_sample(bits(k))).collect();
    assert_eq!(out, vec![bits(1), bits(1), bits(1), bits(2), bits(3)]);

    assert_eq!(FlangerWindow::filled(None).window_size(), 12);
}
