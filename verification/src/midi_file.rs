//! Standard MIDI Files as bytes: reading the notes of a file, and encoding
//! tracks of notes as a file. midly does the byte work; which notes a file
//! holds, and which events a track writes, is decided in `midi`.
use vstd::prelude::*;
use nodi::midly;
use nodi::midly::num::{u15, u24, u28, u4, u7};
use nodi::midly::{MetaMessage, MidiMessage};
use nodi::midly::TrackEventKind::{Meta, Midi};
use crate::midi::{
    MidiEvent, MidiEventKind, MidiNote, ChannelNotes, TickNote, TICKS_MODULUS, tracks_view,
    tracks_in_range, event_in_range, midi_read, read_output, beats_per_minute,
    get_beats_per_minute, midi_note_offs_matched, midi_events_to_notes, file_tracks,
    tick_tracks_view, notes_ordered, tracks_to_midi_tracks, track_events, note_events_from,
    track_channel_spec,
};

verus! {

/// The resolution of written files, in ticks per beat.
pub const MIDI_TICKS_PER_BEAT: u16 = 480;

/// How the tracks of a file are laid out.
#[derive(Clone, Copy, Debug, PartialEq, Eq, Structural)]
pub enum SmfFormat {
    /// A single track.
    SingleTrack,
    /// Tracks played at the same time.
    Parallel,
    /// Tracks played one after another.
    Sequential,
}

/// midly's Standard MIDI File: a header and tracks of events.
#[verifier::external_type_specification]
#[verifier::external_body]
pub struct ExSmf<'a>(midly::Smf<'a>);

/// The events of a file, track by track, each taken as a plain event.
pub uninterp spec fn smf_events(smf: midly::Smf) -> Seq<Seq<MidiEvent>>;

/// The ticks per beat of a file with metrical timing; `None` for timecode.
pub uninterp spec fn smf_timing(smf: midly::Smf) -> Option<u16>;

/// The layout of a file's tracks.
pub uninterp spec fn smf_format(smf: midly::Smf) -> SmfFormat;

/// What `midly::Smf::parse` makes of bytes: `None` where it fails, else the
/// file's timing and events.
pub uninterp spec fn smf_parse_result(bytes: Seq<u8>) -> Option<(Option<u16>, Seq<Seq<MidiEvent>>)>;

/// What `midly::Smf::write` makes of a file with this layout, timing and
/// events: `None` where it fails, else the bytes.
pub uninterp spec fn smf_encoding(format: SmfFormat, timing: Option<u16>, events: Seq<Seq<MidiEvent>>) -> Option<Seq<u8>>;

/// The values of a kind of event lie in their MIDI ranges.
pub open spec fn kind_in_range(k: MidiEventKind) -> bool {
    event_in_range(MidiEvent { delta: 0, kind: k })
}

/// The kinds of event that the library writes: a note-on, a note-off, a
/// tempo or the end of a track.
pub open spec fn kind_writable(k: MidiEventKind) -> bool {
    match k {
        MidiEventKind::NoteOn { .. } => true,
        MidiEventKind::NoteOff { .. } => true,
        MidiEventKind::Tempo(_) => true,
        MidiEventKind::EndOfTrack => true,
        _ => false,
    }
}

/// Tracks whose events are all of the kinds that the library writes.
pub open spec fn kinds_writable(tracks: Seq<Seq<MidiEvent>>) -> bool {
    forall|t: int, i: int|
        0 <= t < tracks.len() && 0 <= i < tracks[t].len() ==> kind_writable(#[trigger] tracks[t][i].kind)
}

/// An event that a file holds exactly as its plain value says: one of the
/// kinds the library writes, within MIDI's ranges.
pub open spec fn event_writable(e: MidiEvent) -> bool {
    &&& event_in_range(e)
    &&& kind_writable(e.kind)
}

pub open spec fn events_writable(tracks: Seq<Seq<MidiEvent>>) -> bool {
    forall|t: int, i: int|
        0 <= t < tracks.len() && 0 <= i < tracks[t].len() ==> event_writable(#[trigger] tracks[t][i])
}

/// An event as a file stores it: each value kept to its MIDI width (4 bits
/// of channel, 7 of key and velocity, 24 of tempo, 28 of delta).
/// Events of other kinds are never stored.
pub open spec fn stored_event(e: MidiEvent) -> MidiEvent {
    MidiEvent {
        delta: (e.delta % TICKS_MODULUS) as u32,
        kind: match e.kind {
            MidiEventKind::NoteOn { channel, key, vel } => MidiEventKind::NoteOn {
                channel: (channel % 16) as u8,
                key: (key % 128) as u8,
                vel: (vel % 128) as u8,
            },
            MidiEventKind::NoteOff { channel, key, vel } => MidiEventKind::NoteOff {
                channel: (channel % 16) as u8,
                key: (key % 128) as u8,
                vel: (vel % 128) as u8,
            },
            MidiEventKind::Tempo(t) => MidiEventKind::Tempo((t % 0x100_0000) as u32),
            k => k,
        },
    }
}

/// Calls `midly::Smf::parse` on the bytes. Claims that it succeeds exactly
/// where the named result is `Some`, and that the file then holds that
/// timing and those events.
#[verifier::external_body]
fn parse_smf(bytes: &[u8]) -> (r: Option<midly::Smf<'_>>)
    ensures
        match r {
            Some(smf) => smf_parse_result(bytes@) == Some((smf_timing(smf), smf_events(smf))),
            None => smf_parse_result(bytes@) is None,
        },
{
    midly::Smf::parse(bytes).ok()
}

/// The number of tracks of a file (`tracks.len()`).
#[verifier::external_body]
fn smf_track_count(smf: &midly::Smf) -> (r: usize)
    ensures
        r == smf_events(*smf).len(),
{
    smf.tracks.len()
}

/// The number of events of a track (`tracks[t].len()`).
#[verifier::external_body]
fn smf_track_len(smf: &midly::Smf, t: usize) -> (r: usize)
    requires
        t < smf_events(*smf).len(),
    ensures
        r == smf_events(*smf)[t as int].len(),
{
    smf.tracks[t].len()
}

/// The delta time of an event, which midly holds in 28 bits.
#[verifier::external_body]
fn smf_event_delta(smf: &midly::Smf, t: usize, i: usize) -> (r: u32)
    requires
        t < smf_events(*smf).len(),
        i < smf_events(*smf)[t as int].len(),
    ensures
        r == smf_events(*smf)[t as int][i as int].delta,
        r < TICKS_MODULUS,
{
    smf.tracks[t][i].delta.as_int()
}

/// What an event carries, by midly's variants: note-on, note-off, any other
/// channel message (with its channel), tempo, end of track, anything else.
/// midly holds channels in 4 bits, keys and velocities in 7, tempos in 24.
#[verifier::external_body]
fn smf_event_kind(smf: &midly::Smf, t: usize, i: usize) -> (r: MidiEventKind)
    requires
        t < smf_events(*smf).len(),
        i < smf_events(*smf)[t as int].len(),
    ensures
        r == smf_events(*smf)[t as int][i as int].kind,
        kind_in_range(r),
{
    match smf.tracks[t][i].kind {
        Midi { channel: c, message: MidiMessage::NoteOn { key, vel } } =>
            MidiEventKind::NoteOn { channel: c.as_int(), key: key.as_int(), vel: vel.as_int() },
        Midi { channel: c, message: MidiMessage::NoteOff { key, vel } } =>
            MidiEventKind::NoteOff { channel: c.as_int(), key: key.as_int(), vel: vel.as_int() },
        Midi { channel: c, .. } => MidiEventKind::OtherChannelMessage { channel: c.as_int() },
        Meta(MetaMessage::Tempo(tempo)) => MidiEventKind::Tempo(tempo.as_int()),
        Meta(MetaMessage::EndOfTrack) => MidiEventKind::EndOfTrack,
        _ => MidiEventKind::Other,
    }
}

/// The ticks per beat of a file with metrical timing (`header.timing`).
#[verifier::external_body]
fn smf_ticks_per_beat(smf: &midly::Smf) -> (r: Option<u16>)
    ensures
        r == smf_timing(*smf),
{
    match smf.header.timing {
        midly::Timing::Metrical(ticks) => Some(ticks.as_int()),
        midly::Timing::Timecode(..) => None,
    }
}

/// A file without tracks (`midly::Smf::new`), with the layout and the
/// metrical timing given; midly holds ticks per beat in 15 bits.
#[verifier::external_body]
fn smf_new(format: SmfFormat, ticks_per_beat: u16) -> (r: midly::Smf<'static>)
    requires
        ticks_per_beat < 0x8000,
    ensures
        smf_events(r) == Seq::<Seq<MidiEvent>>::empty(),
        smf_timing(r) == Some(ticks_per_beat),
        smf_format(r) == format,
{
    let format = match format {
        SmfFormat::SingleTrack => midly::Format::SingleTrack,
        SmfFormat::Parallel => midly::Format::Parallel,
        SmfFormat::Sequential => midly::Format::Sequential,
    };
    midly::Smf::new(midly::Header::new(format, midly::Timing::Metrical(u15::from(ticks_per_beat))))
}

/// Adds an empty track at the end of a file (`tracks.push`).
#[verifier::external_body]
fn smf_push_track(smf: &mut midly::Smf<'static>)
    ensures
        smf_events(*final(smf)) == smf_events(*old(smf)).push(Seq::empty()),
        smf_timing(*final(smf)) == smf_timing(*old(smf)),
        smf_format(*final(smf)) == smf_format(*old(smf)),
{
    smf.tracks.push(Vec::new());
}

/// Adds a note-on at the end of a track (`tracks[t].push` of a
/// `MidiMessage::NoteOn`); midly keeps each value to its width (`from`
/// masks).
#[verifier::external_body]
fn smf_push_note_on(smf: &mut midly::Smf<'static>, t: usize, delta: u32, channel: u8, key: u8, vel: u8)
    requires
        t < smf_events(*old(smf)).len(),
    ensures
        smf_events(*final(smf)) == smf_events(*old(smf)).update(
            t as int,
            smf_events(*old(smf))[t as int].push(stored_event(MidiEvent { delta, kind: MidiEventKind::NoteOn { channel, key, vel } })),
        ),
        smf_timing(*final(smf)) == smf_timing(*old(smf)),
        smf_format(*final(smf)) == smf_format(*old(smf)),
{
    smf.tracks[t].push(midly::TrackEvent { delta: u28::from(delta), kind: Midi {
        channel: u4::from(channel),
        message: MidiMessage::NoteOn { key: u7::from(key), vel: u7::from(vel) },
    } });
}

/// Adds a note-off at the end of a track (`tracks[t].push` of a
/// `MidiMessage::NoteOff`); midly keeps each value to its width (`from`
/// masks).
#[verifier::external_body]
fn smf_push_note_off(smf: &mut midly::Smf<'static>, t: usize, delta: u32, channel: u8, key: u8, vel: u8)
    requires
        t < smf_events(*old(smf)).len(),
    ensures
        smf_events(*final(smf)) == smf_events(*old(smf)).update(
            t as int,
            smf_events(*old(smf))[t as int].push(stored_event(MidiEvent { delta, kind: MidiEventKind::NoteOff { channel, key, vel } })),
        ),
        smf_timing(*final(smf)) == smf_timing(*old(smf)),
        smf_format(*final(smf)) == smf_format(*old(smf)),
{
    smf.tracks[t].push(midly::TrackEvent { delta: u28::from(delta), kind: Midi {
        channel: u4::from(channel),
        message: MidiMessage::NoteOff { key: u7::from(key), vel: u7::from(vel) },
    } });
}

/// Adds a tempo at the end of a track (`tracks[t].push` of a
/// `MetaMessage::Tempo`); midly keeps the tempo to 24 bits (`from` masks).
#[verifier::external_body]
fn smf_push_tempo(smf: &mut midly::Smf<'static>, t: usize, delta: u32, tempo: u32)
    requires
        t < smf_events(*old(smf)).len(),
    ensures
        smf_events(*final(smf)) == smf_events(*old(smf)).update(
            t as int,
            smf_events(*old(smf))[t as int].push(stored_event(MidiEvent { delta, kind: MidiEventKind::Tempo(tempo) })),
        ),
        smf_timing(*final(smf)) == smf_timing(*old(smf)),
        smf_format(*final(smf)) == smf_format(*old(smf)),
{
    smf.tracks[t].push(midly::TrackEvent { delta: u28::from(delta), kind: Meta(MetaMessage::Tempo(u24::from(tempo))) });
}

/// Adds an end of track at the end of a track (`tracks[t].push` of
/// `MetaMessage::EndOfTrack`).
#[verifier::external_body]
fn smf_push_end_of_track(smf: &mut midly::Smf<'static>, t: usize, delta: u32)
    requires
        t < smf_events(*old(smf)).len(),
    ensures
        smf_events(*final(smf)) == smf_events(*old(smf)).update(
            t as int,
            smf_events(*old(smf))[t as int].push(stored_event(MidiEvent { delta, kind: MidiEventKind::EndOfTrack })),
        ),
        smf_timing(*final(smf)) == smf_timing(*old(smf)),
        smf_format(*final(smf)) == smf_format(*old(smf)),
{
    smf.tracks[t].push(midly::TrackEvent { delta: u28::from(delta), kind: Meta(MetaMessage::EndOfTrack) });
}

/// Encodes a file into bytes (`midly::Smf::write` into a `Vec<u8>`). The
/// timing must be metrical and every event one that the file holds exactly
/// as its plain value says, so that the named encoding is a function of the
/// plain values.
#[verifier::external_body]
fn smf_write(smf: &midly::Smf) -> (r: Option<Vec<u8>>)
    requires
        smf_timing(*smf) is Some,
        events_writable(smf_events(*smf)),
    ensures
        match r {
            Some(b) => smf_encoding(smf_format(*smf), smf_timing(*smf), smf_events(*smf)) == Some(b@),
            None => smf_encoding(smf_format(*smf), smf_timing(*smf), smf_events(*smf)) is None,
        },
{
    let mut out: Vec<u8> = Vec::new();
    match smf.write(&mut out) {
        Ok(()) => Some(out),
        Err(_) => None,
    }
}

/// The notes of a MIDI file: its ticks per beat, its tempo in beats per
/// minute, and its notes by channel.
#[derive(Debug)]
pub struct MidiFileNotes {
    pub ticks_per_beat: u16,
    pub bpm: u8,
    pub channels: Vec<ChannelNotes>,
}

impl View for MidiFileNotes {
    type V = (u16, u8, Seq<(u8, Seq<MidiNote>)>);

    open spec fn view(&self) -> (u16, u8, Seq<(u8, Seq<MidiNote>)>) {
        (self.ticks_per_beat, self.bpm, self.channels@.map_values(|c: ChannelNotes| c@))
    }
}

/// The notes of a file with this timing and these events: `None` without
/// metrical timing, or where a note-off ends no open note; else the ticks
/// per beat, the tempo (see `beats_per_minute`) and the notes read (see
/// `read_output`).
pub open spec fn file_notes(timing: Option<u16>, tracks: Seq<Seq<MidiEvent>>) -> Option<(u16, u8, Seq<(u8, Seq<MidiNote>)>)> {
    match timing {
        Some(ticks_per_beat) => if midi_read(tracks).failed {
            None
        } else {
            Some((ticks_per_beat, beats_per_minute(tracks), read_output(midi_read(tracks))))
        },
        None => None,
    }
}

/// The notes of a file given by its timing and events (see `file_notes`).
pub fn midi_file_notes(timing: Option<u16>, tracks: &Vec<Vec<MidiEvent>>) -> (r: Option<MidiFileNotes>)
    requires
        tracks_in_range(tracks_view(tracks@)),
    ensures
        match r {
            Some(f) => file_notes(timing, tracks_view(tracks@)) == Some(f@),
            None => file_notes(timing, tracks_view(tracks@)) is None,
        },
{
    match timing {
        Some(ticks_per_beat) => {
            if !midi_note_offs_matched(tracks) {
                return None;
            }
            let bpm = get_beats_per_minute(tracks);
            let channels = midi_events_to_notes(tracks);
            Some(MidiFileNotes { ticks_per_beat, bpm, channels })
        },
        None => None,
    }
}

/// The events of a file, track by track.
pub fn smf_to_events(smf: &midly::Smf) -> (r: Vec<Vec<MidiEvent>>)
    ensures
        tracks_view(r@) == smf_events(*smf),
        tracks_in_range(tracks_view(r@)),
{
    let ghost ev = smf_events(*smf);
    let n = smf_track_count(smf);
    let mut out: Vec<Vec<MidiEvent>> = Vec::new();
    for t in 0..n
        invariant
            n == ev.len(),
            ev == smf_events(*smf),
            out.len() == t,
            forall|k: int| 0 <= k < t ==> #[trigger] out@[k]@ == ev[k],
            tracks_in_range(tracks_view(out@)),
    {
        let m = smf_track_len(smf, t);
        let mut track: Vec<MidiEvent> = Vec::new();
        for i in 0..m
            invariant
                n == ev.len(),
                ev == smf_events(*smf),
                t < n,
                m == ev[t as int].len(),
                track.len() == i,
                forall|k: int| 0 <= k < i ==> #[trigger] track@[k] == ev[t as int][k],
                forall|k: int| 0 <= k < i ==> event_in_range(#[trigger] track@[k]),
        {
            let delta = smf_event_delta(smf, t, i);
            let kind = smf_event_kind(smf, t, i);
            track.push(MidiEvent { delta, kind });
        }
        let ghost before = out@;
        out.push(track);
        assert forall|a: int, e: int|
            0 <= a < tracks_view(out@).len() && 0 <= e < tracks_view(out@)[a].len()
            implies event_in_range(#[trigger] tracks_view(out@)[a][e]) by {
            if a < t {
                assert(out@[a] == before[a]);
                assert(tracks_view(before)[a][e] == tracks_view(out@)[a][e]);
            }
        }
    }
    assert(tracks_view(out@) =~= ev);
    out
}

/// The notes of the file that the bytes encode (see `file_notes`); `None`
/// where midly cannot parse them.
pub fn read_midi_bytes(bytes: &[u8]) -> (r: Option<MidiFileNotes>)
    ensures
        match smf_parse_result(bytes@) {
            Some((timing, tracks)) => match r {
                Some(f) => file_notes(timing, tracks) == Some(f@),
                None => file_notes(timing, tracks) is None,
            },
            None => r is None,
        },
{
    match parse_smf(bytes) {
        Some(smf) => {
            let tracks = smf_to_events(&smf);
            let timing = smf_ticks_per_beat(&smf);
            midi_file_notes(timing, &tracks)
        },
        None => None,
    }
}

/// Tracks of events as a file stores them (see `stored_event`).
pub open spec fn stored_tracks(tracks: Seq<Seq<MidiEvent>>) -> Seq<Seq<MidiEvent>> {
    tracks.map_values(|t: Seq<MidiEvent>| t.map_values(|e: MidiEvent| stored_event(e)))
}

/// Adds an event at the end of a track when it is of a kind the library
/// writes, answering whether it was.
fn push_event(smf: &mut midly::Smf<'static>, t: usize, e: MidiEvent) -> (r: bool)
    requires
        t < smf_events(*old(smf)).len(),
    ensures
        r == kind_writable(e.kind),
        r ==> smf_events(*final(smf)) == smf_events(*old(smf)).update(
            t as int,
            smf_events(*old(smf))[t as int].push(stored_event(e)),
        ),
        !r ==> smf_events(*final(smf)) == smf_events(*old(smf)),
        smf_timing(*final(smf)) == smf_timing(*old(smf)),
        smf_format(*final(smf)) == smf_format(*old(smf)),
{
    match e.kind {
        MidiEventKind::NoteOn { channel, key, vel } => {
            smf_push_note_on(smf, t, e.delta, channel, key, vel);
            true
        },
        MidiEventKind::NoteOff { channel, key, vel } => {
            smf_push_note_off(smf, t, e.delta, channel, key, vel);
            true
        },
        MidiEventKind::Tempo(tempo) => {
            smf_push_tempo(smf, t, e.delta, tempo);
            true
        },
        MidiEventKind::EndOfTrack => {
            smf_push_end_of_track(smf, t, e.delta);
            true
        },
        MidiEventKind::OtherChannelMessage { .. } => false,
        MidiEventKind::Other => false,
    }
}

/// Encodes tracks of events as a file with the layout and metrical timing
/// given (see `smf_encoding` and `stored_tracks`): `None` where an event is
/// not of a kind the library writes (see `kind_writable`), or where midly
/// cannot write them.
pub fn events_to_midi_bytes(format: SmfFormat, ticks_per_beat: u16, tracks: &Vec<Vec<MidiEvent>>) -> (r: Option<Vec<u8>>)
    requires
        ticks_per_beat < 0x8000,
    ensures
        if kinds_writable(tracks_view(tracks@)) {
            match r {
                Some(b) => smf_encoding(format, Some(ticks_per_beat), stored_tracks(tracks_view(tracks@))) == Some(b@),
                None => smf_encoding(format, Some(ticks_per_beat), stored_tracks(tracks_view(tracks@))) is None,
            }
        } else {
            r is None
        },
{
    let ghost want = stored_tracks(tracks_view(tracks@));
    let mut smf = smf_new(format, ticks_per_beat);
    let n = tracks.len();
    for t in 0..n
        invariant
            n == tracks.len(),
            want == stored_tracks(tracks_view(tracks@)),
            smf_events(smf) == want.take(t as int),
            smf_timing(smf) == Some(ticks_per_beat),
            smf_format(smf) == format,
            forall|c: int, j: int|
                0 <= c < t && 0 <= j < tracks@[c]@.len() ==> kind_writable(#[trigger] tracks@[c]@[j].kind),
    {
        smf_push_track(&mut smf);
        let m = tracks[t].len();
        for i in 0..m
            invariant
                n == tracks.len(),
                t < n,
                m == tracks@[t as int].len(),
                want == stored_tracks(tracks_view(tracks@)),
                smf_events(smf).len() == t + 1,
                smf_events(smf).take(t as int) == want.take(t as int),
                smf_events(smf)[t as int] == want[t as int].take(i as int),
                smf_timing(smf) == Some(ticks_per_beat),
                smf_format(smf) == format,
                forall|c: int, j: int|
                    0 <= c < t && 0 <= j < tracks@[c]@.len() ==> kind_writable(#[trigger] tracks@[c]@[j].kind),
                forall|j: int| 0 <= j < i ==> kind_writable(#[trigger] tracks@[t as int]@[j].kind),
        {
            let ghost before = smf_events(smf);
            if !push_event(&mut smf, t, tracks[t][i]) {
                assert(tracks_view(tracks@)[t as int][i as int] == tracks@[t as int]@[i as int]);
                return None;
            }
            assert(smf_events(smf).take(t as int) =~= before.take(t as int));
            assert(want[t as int].take(i + 1) =~= want[t as int].take(i as int).push(stored_event(tracks@[t as int]@[i as int])));
        }
        assert(want[t as int].take(m as int) =~= want[t as int]);
        assert(smf_events(smf) =~= want.take(t + 1));
    }
    assert(want.take(n as int) =~= want);
    assert(kinds_writable(tracks_view(tracks@))) by {
        assert forall|c: int, j: int|
            0 <= c < tracks_view(tracks@).len() && 0 <= j < tracks_view(tracks@)[c].len()
            implies kind_writable(#[trigger] tracks_view(tracks@)[c][j].kind) by {
            assert(tracks_view(tracks@)[c] == tracks@[c]@);
        }
    }
    assert(events_writable(smf_events(smf))) by {
        assert forall|c: int, j: int|
            0 <= c < smf_events(smf).len() && 0 <= j < smf_events(smf)[c].len()
            implies event_writable(#[trigger] smf_events(smf)[c][j]) by {
            assert(tracks_view(tracks@)[c] == tracks@[c]@);
            assert(smf_events(smf)[c][j] == stored_event(tracks@[c]@[j]));
            assert(kind_writable(tracks@[c]@[j].kind));
        }
    }
    smf_write(&smf)
}

proof fn lemma_note_events_writable(notes: Seq<TickNote>, current: u32, channel: u8)
    ensures
        forall|i: int|
            0 <= i < note_events_from(notes, current, channel).len() ==> kind_writable(
                #[trigger] note_events_from(notes, current, channel)[i].kind,
            ),
    decreases notes.len(),
{
    if notes.len() > 0 {
        let n = notes[0];
        lemma_note_events_writable(notes.drop_first(), n.end_ticks, channel);
        let rest = note_events_from(notes.drop_first(), n.end_ticks, channel);
        let all = note_events_from(notes, current, channel);
        assert forall|i: int| 0 <= i < all.len() implies kind_writable(#[trigger] all[i].kind) by {
            if i >= 2 {
                assert(all[i] == rest[i - 2]);
            }
        }
    }
}

/// The tracks a file is written from hold only the kinds the library writes.
proof fn lemma_file_tracks_writable(bpm: u8, tracks: Seq<Seq<TickNote>>)
    ensures
        kinds_writable(file_tracks(bpm, tracks)),
{
    let f = file_tracks(bpm, tracks);
    assert forall|t: int, i: int| 0 <= t < f.len() && 0 <= i < f[t].len() implies kind_writable(
        #[trigger] f[t][i].kind,
    ) by {
        if t > 0 {
            let ch = track_channel_spec((t - 1) as usize);
            assert(f[t] == track_events(tracks[t - 1], ch));
            lemma_note_events_writable(tracks[t - 1], 0, ch);
            if i < note_events_from(tracks[t - 1], 0, ch).len() {
                assert(f[t][i] == note_events_from(tracks[t - 1], 0, ch)[i]);
            }
        }
    }
}

/// Encodes tracks of notes as a file at a tempo: the events of
/// `tracks_to_midi_tracks`, tracks played together, `MIDI_TICKS_PER_BEAT`
/// ticks per beat; `None` where midly cannot write them.
pub fn tracks_to_midi_bytes(bpm: u8, tracks: &Vec<Vec<TickNote>>) -> (r: Option<Vec<u8>>)
    requires
        bpm > 0,
        forall|i: int| 0 <= i < tracks.len() ==> notes_ordered(#[trigger] tracks@[i]@),
        tracks.len() < usize::MAX,
    ensures
        match r {
            Some(b) => smf_encoding(
                SmfFormat::Parallel,
                Some(MIDI_TICKS_PER_BEAT),
                stored_tracks(file_tracks(bpm, tick_tracks_view(tracks@))),
            ) == Some(b@),
            None => smf_encoding(
                SmfFormat::Parallel,
                Some(MIDI_TICKS_PER_BEAT),
                stored_tracks(file_tracks(bpm, tick_tracks_view(tracks@))),
            ) is None,
        },
{
    let events = tracks_to_midi_tracks(bpm, tracks);
    proof {
        lemma_file_tracks_writable(bpm, tick_tracks_view(tracks@));
    }
    events_to_midi_bytes(SmfFormat::Parallel, MIDI_TICKS_PER_BEAT, &events)
}

} // verus!
