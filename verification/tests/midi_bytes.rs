use synth_dsl::midi::{ChannelNotes, MidiEvent, MidiEventKind, MidiNote, TickNote};
use synth_dsl::midi_file::{
    events_to_midi_bytes, midi_file_notes, read_midi_bytes, tracks_to_midi_bytes, SmfFormat,
    MIDI_TICKS_PER_BEAT,
};

fn ev(delta: u32, kind: MidiEventKind) -> MidiEvent {
    MidiEvent { delta, kind }
}

fn notes_of(c: &ChannelNotes) -> (u8, Vec<MidiNote>) {
    (c.channel, c.notes.clone())
}

#[test]
fn file_notes_of_plain_events() {
    let tracks = vec![
        vec![ev(0, MidiEventKind::Tempo(1_000_000)), ev(0, MidiEventKind::EndOfTrack)],
        vec![
            ev(0, MidiEventKind::NoteOn { channel: 2, key: 67, vel: 80 }),
            ev(240, MidiEventKind::NoteOff { channel: 2, key: 67, vel: 64 }),
        ],
    ];
    let file = midi_file_notes(Some(96), &tracks).unwrap();
    assert_eq!(file.ticks_per_beat, 96);
    assert_eq!(file.bpm, 60);
    assert_eq!(file.channels.len(), 1);
    assert_eq!(
        notes_of(&file.channels[0]),
        (2, vec![MidiNote { key: 67, vel: 80, start_ticks: 0, end_ticks: 240 }])
    );
}

#[test]
fn file_notes_need_metrical_timing_and_matched_note_offs() {
    let tracks = vec![vec![ev(0, MidiEventKind::NoteOn { channel: 0, key: 60, vel: 90 })]];
    assert!(midi_file_notes(None, &tracks).is_none());
    let unmatched = vec![vec![ev(0, MidiEventKind::NoteOff { channel: 0, key: 60, vel: 0 })]];
    assert!(midi_file_notes(Some(480), &unmatched).is_none());
}

#[test]
fn garbage_is_not_a_midi_file() {
    assert!(read_midi_bytes(&[]).is_none());
    assert!(read_midi_bytes(b"not a midi file at all").is_none());
}

#[test]
fn written_file_has_a_header_chunk() {
    let bytes = events_to_midi_bytes(SmfFormat::Parallel, 480, &vec![vec![ev(0, MidiEventKind::EndOfTrack)]]).unwrap();
    assert_eq!(&bytes[0..4], b"MThd");
    // Format 1 (parallel), one track, 480 ticks per beat.
    assert_eq!(&bytes[8..14], &[0, 1, 0, 1, 0x01, 0xE0]);
    assert_eq!(&bytes[14..18], b"MTrk");
}

#[test]
fn written_notes_read_back_from_bytes() {
    let tracks = vec![
        vec![
            TickNote { start_ticks: 0, end_ticks: 480, key: 60, vel: 100 },
            TickNote { start_ticks: 480, end_ticks: 960, key: 64, vel: 90 },
        ],
        vec![TickNote { start_ticks: 240, end_ticks: 720, key: 48, vel: 70 }],
    ];
    let bytes = tracks_to_midi_bytes(120, &tracks).unwrap();
    let file = read_midi_bytes(&bytes).unwrap();
    assert_eq!(file.ticks_per_beat, MIDI_TICKS_PER_BEAT);
    assert_eq!(file.bpm, 120);
    assert_eq!(file.channels.len(), 2);
    assert_eq!(
        notes_of(&file.channels[0]),
        (
            0,
            vec![
                MidiNote { key: 60, vel: 100, start_ticks: 0, end_ticks: 480 },
                MidiNote { key: 64, vel: 90, start_ticks: 480, end_ticks: 960 },
            ]
        )
    );
    // The second track's ticks run on from the end of the first track.
    assert_eq!(
        notes_of(&file.channels[1]),
        (1, vec![MidiNote { key: 48, vel: 70, start_ticks: 1200, end_ticks: 1680 }])
    );
}

#[test]
fn stored_values_keep_their_midi_width() {
    let tracks = vec![vec![
        ev(0, MidiEventKind::NoteOn { channel: 17, key: 200, vel: 130 }),
        ev(10, MidiEventKind::NoteOff { channel: 17, key: 200, vel: 0 }),
        ev(0, MidiEventKind::EndOfTrack),
    ]];
    let bytes = events_to_midi_bytes(SmfFormat::SingleTrack, 96, &tracks).unwrap();
    let file = read_midi_bytes(&bytes).unwrap();
    assert_eq!(file.ticks_per_beat, 96);
    assert_eq!(notes_of(&file.channels[0]), (1, vec![MidiNote { key: 72, vel: 2, start_ticks: 0, end_ticks: 10 }]));
}
