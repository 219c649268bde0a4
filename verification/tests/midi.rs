use synth_dsl::midi::{
    get_beats_per_minute, midi_events_to_notes, midi_note_offs_matched, track_channel, track_to_midi_track,
    tracks_to_midi_tracks, MidiEvent, MidiEventKind, MidiNote, TickNote, DEFAULT_BPM,
};

fn ev(delta: u32, kind: MidiEventKind) -> MidiEvent {
    MidiEvent { delta, kind }
}

fn on(delta: u32, channel: u8, key: u8, vel: u8) -> MidiEvent {
    ev(delta, MidiEventKind::NoteOn { channel, key, vel })
}

fn off(delta: u32, channel: u8, key: u8) -> MidiEvent {
    ev(delta, MidiEventKind::NoteOff { channel, key, vel: 64 })
}

#[test]
fn beats_per_minute_from_first_tempo() {
    assert_eq!(get_beats_per_minute(&vec![]), DEFAULT_BPM);
    let tracks = vec![
        vec![on(0, 0, 60, 100)],
        vec![ev(0, MidiEventKind::Other), ev(0, MidiEventKind::Tempo(500_000)), ev(0, MidiEventKind::Tempo(1_000_000))],
    ];
    assert_eq!(get_beats_per_minute(&tracks), 120);
    assert_eq!(get_beats_per_minute(&vec![vec![ev(0, MidiEventKind::Tempo(1_000_000))]]), 60);
    // 300 beats per minute does not fit in eight bits.
    assert_eq!(get_beats_per_minute(&vec![vec![ev(0, MidiEventKind::Tempo(200_000))]]), 44);
    // A tempo of 0 counts as 1 microsecond per beat.
    assert_eq!(get_beats_per_minute(&vec![vec![ev(0, MidiEventKind::Tempo(0))]]), (60_000_000u32 % 256) as u8);
}

#[test]
fn notes_are_read_by_channel() {
    let tracks = vec![vec![
        on(0, 1, 60, 100),
        on(10, 0, 64, 90),
        ev(5, MidiEventKind::OtherChannelMessage { channel: 0 }),
        off(5, 1, 60),
        on(0, 1, 60, 0),
        on(20, 0, 64, 0),
        ev(0, MidiEventKind::EndOfTrack),
    ]];
    assert!(midi_note_offs_matched(&tracks));
    let channels = midi_events_to_notes(&tracks);
    assert_eq!(channels.len(), 2);
    assert_eq!(channels[0].channel, 1);
    assert_eq!(channels[0].notes, vec![MidiNote { key: 60, vel: 100, start_ticks: 0, end_ticks: 20 }]);
    assert_eq!(channels[1].channel, 0);
    assert_eq!(channels[1].notes, vec![MidiNote { key: 64, vel: 90, start_ticks: 10, end_ticks: 40 }]);
}

#[test]
fn repeated_note_on_keeps_the_first_start() {
    let tracks = vec![vec![on(0, 0, 60, 100), on(7, 0, 60, 50), off(3, 0, 60)]];
    let channels = midi_events_to_notes(&tracks);
    assert_eq!(channels[0].notes, vec![MidiNote { key: 60, vel: 100, start_ticks: 0, end_ticks: 10 }]);
}

#[test]
fn ticks_run_on_across_tracks() {
    let tracks = vec![vec![ev(100, MidiEventKind::Other)], vec![on(5, 2, 1, 1), off(5, 2, 1)]];
    let channels = midi_events_to_notes(&tracks);
    assert_eq!(channels[0].notes, vec![MidiNote { key: 1, vel: 1, start_ticks: 105, end_ticks: 110 }]);
}

#[test]
fn unmatched_note_off_is_detected() {
    assert!(!midi_note_offs_matched(&vec![vec![off(0, 0, 60)]]));
    assert!(!midi_note_offs_matched(&vec![vec![on(0, 0, 60, 1), off(0, 0, 61)]]));
    // A note-on without velocity for a key that is not open is ignored.
    assert!(midi_note_offs_matched(&vec![vec![on(0, 0, 60, 0)]]));
}

#[test]
fn track_events_of_notes() {
    let notes = vec![
        TickNote { start_ticks: 0, end_ticks: 480, key: 60, vel: 100 },
        TickNote { start_ticks: 960, end_ticks: 1200, key: 62, vel: 90 },
        TickNote { start_ticks: 1000, end_ticks: 1100, key: 64, vel: 80 },
    ];
    let events = track_to_midi_track(&notes, 3);
    assert_eq!(
        events,
        vec![
            on(0, 3, 60, 100),
            off(480, 3, 60),
            on(480, 3, 62, 90),
            off(240, 3, 62),
            on(0, 3, 64, 80),
            off(100, 3, 64),
            ev(0, MidiEventKind::EndOfTrack),
        ]
    );
}

#[test]
fn written_track_reads_back() {
    let notes = vec![
        TickNote { start_ticks: 0, end_ticks: 480, key: 60, vel: 100 },
        TickNote { start_ticks: 480, end_ticks: 960, key: 62, vel: 90 },
        TickNote { start_ticks: 1000, end_ticks: 1500, key: 60, vel: 80 },
    ];
    let tracks = tracks_to_midi_tracks(120, &vec![notes.clone()]);
    assert_eq!(tracks.len(), 2);
    assert_eq!(tracks[0], vec![ev(0, MidiEventKind::Tempo(500_000)), ev(0, MidiEventKind::EndOfTrack)]);
    let channels = midi_events_to_notes(&tracks);
    assert_eq!(channels.len(), 1);
    assert_eq!(channels[0].channel, 0);
    let read: Vec<TickNote> = channels[0]
        .notes
        .iter()
        .map(|n| TickNote { start_ticks: n.start_ticks, end_ticks: n.end_ticks, key: n.key, vel: n.vel })
        .collect();
    assert_eq!(read, notes);
}

#[test]
fn track_channels_and_tempo() {
    assert_eq!(track_channel(0), 0);
    assert_eq!(track_channel(14), 14);
    assert_eq!(track_channel(20), 15);
    assert_eq!(track_channel(256), 0);
    assert_eq!(track_channel(257), 1);
    let tracks = tracks_to_midi_tracks(1, &vec![]);
    // 60,000,000 microseconds do not fit in 24 bits.
    assert_eq!(tracks[0][0], ev(0, MidiEventKind::Tempo(60_000_000 % 0x100_0000)));
    let tracks = tracks_to_midi_tracks(100, &vec![vec![], vec![]]);
    assert_eq!(tracks.len(), 3);
    assert_eq!(tracks[2], vec![ev(0, MidiEventKind::EndOfTrack)]);
}
