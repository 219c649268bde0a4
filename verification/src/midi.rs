//! MIDI: reading notes from the events of a file, and writing the events
//! of a track of notes.
//!
//! Events are given as plain values: the delta time in ticks (a 28-bit
//! number), and for channel messages the channel (4 bits), key and velocity
//! (7 bits each). Times are counted in ticks from the start of the file.
use vstd::prelude::*;

verus! {

/// The tempo assumed when a file gives none.
pub const DEFAULT_BPM: u8 = 120;

/// The number of 28-bit tick values.
pub const TICKS_MODULUS: u32 = 0x1000_0000;

/// What a MIDI event carries.
#[derive(Clone, Copy, Debug, PartialEq, Eq, Structural)]
pub enum MidiEventKind {
    NoteOn { channel: u8, key: u8, vel: u8 },
    NoteOff { channel: u8, key: u8, vel: u8 },
    /// Any other channel message.
    OtherChannelMessage { channel: u8 },
    /// The tempo meta event, in microseconds per beat (24 bits).
    Tempo(u32),
    EndOfTrack,
    /// Any other meta event, or a system-exclusive or escape event.
    Other,
}

/// A MIDI event: the ticks since the previous event, and what it carries.
#[derive(Clone, Copy, Debug, PartialEq, Eq, Structural)]
pub struct MidiEvent {
    pub delta: u32,
    pub kind: MidiEventKind,
}

/// The values of an event lie in their MIDI ranges.
pub open spec fn event_in_range(e: MidiEvent) -> bool {
    &&& e.delta < TICKS_MODULUS
    &&& match e.kind {
        MidiEventKind::NoteOn { channel, key, vel } => channel < 16 && key < 128 && vel < 128,
        MidiEventKind::NoteOff { channel, key, vel } => channel < 16 && key < 128 && vel < 128,
        MidiEventKind::OtherChannelMessage { channel } => channel < 16,
        MidiEventKind::Tempo(t) => t < 0x100_0000,
        _ => true,
    }
}

pub open spec fn tracks_in_range(tracks: Seq<Seq<MidiEvent>>) -> bool {
    forall|t: int, e: int|
        0 <= t < tracks.len() && 0 <= e < tracks[t].len() ==> event_in_range(#[trigger] tracks[t][e])
}

/// The first tempo of a track, if it has one.
pub open spec fn track_tempo(events: Seq<MidiEvent>) -> Option<u32>
    decreases events.len(),
{
    if events.len() == 0 {
        None
    } else {
        match events[0].kind {
            MidiEventKind::Tempo(t) => Some(t),
            _ => track_tempo(events.drop_first()),
        }
    }
}

/// The first tempo of the file, searching the tracks in order.
pub open spec fn file_tempo(tracks: Seq<Seq<MidiEvent>>) -> Option<u32>
    decreases tracks.len(),
{
    if tracks.len() == 0 {
        None
    } else {
        match track_tempo(tracks[0]) {
            Some(t) => Some(t),
            None => file_tempo(tracks.drop_first()),
        }
    }
}

/// Beats per minute from the first tempo (a tempo of 0 counts as 1),
/// truncated to eight bits; `DEFAULT_BPM` without a tempo.
pub open spec fn beats_per_minute(tracks: Seq<Seq<MidiEvent>>) -> u8 {
    match file_tempo(tracks) {
        Some(t) => (#[verifier::truncate] ((60_000_000u32 / (if t > 0 {
            t
        } else {
            1
        })) as u8)),
        None => DEFAULT_BPM,
    }
}

pub open spec fn tracks_view(tracks: Seq<Vec<MidiEvent>>) -> Seq<Seq<MidiEvent>> {
    tracks.map_values(|t: Vec<MidiEvent>| t@)
}

fn track_tempo_exec(events: &Vec<MidiEvent>) -> (r: Option<u32>)
    ensures
        r == track_tempo(events@),
{
    let n = events.len();
    assert(events@.skip(0) =~= events@);
    for i in 0..n
        invariant
            n == events.len(),
            track_tempo(events@) == track_tempo(events@.skip(i as int)),
    {
        assert(events@.skip(i as int).drop_first() =~= events@.skip(i + 1));
        assert(events@.skip(i as int)[0] == events@[i as int]);
        match events[i].kind {
            MidiEventKind::Tempo(t) => {
                return Some(t);
            },
            _ => {},
        }
    }
    assert(events@.skip(n as int) =~= Seq::<MidiEvent>::empty());
    None
}

/// The tempo of a file in beats per minute (see `beats_per_minute`).
pub fn get_beats_per_minute(tracks: &Vec<Vec<MidiEvent>>) -> (r: u8)
    ensures
        r == beats_per_minute(tracks_view(tracks@)),
{
    let ghost ts = tracks_view(tracks@);
    let n = tracks.len();
    assert(ts.skip(0) =~= ts);
    for i in 0..n
        invariant
            n == tracks.len(),
            ts == tracks_view(tracks@),
            file_tempo(ts) == file_tempo(ts.skip(i as int)),
    {
        assert(ts.skip(i as int).drop_first() =~= ts.skip(i + 1));
        assert(ts.skip(i as int)[0] == tracks@[i as int]@);
        match track_tempo_exec(&tracks[i]) {
            Some(t) => {
                let normalized_tempo = if t > 0 {
                    t
                } else {
                    1
                };
                return (#[verifier::truncate] ((60_000_000u32 / normalized_tempo) as u8));
            },
            None => {},
        }
    }
    assert(ts.skip(n as int) =~= Seq::<Seq<MidiEvent>>::empty());
    DEFAULT_BPM
}

/// A note read from a file: its key and velocity, and the ticks from the
/// start of the file at which it began and ended.
#[derive(Clone, Copy, Debug, PartialEq, Eq, Structural)]
pub struct MidiNote {
    pub key: u8,
    pub vel: u8,
    pub start_ticks: u32,
    pub end_ticks: u32,
}

/// The notes of a channel, in the order in which they ended.
#[derive(Debug)]
pub struct ChannelNotes {
    pub channel: u8,
    pub notes: Vec<MidiNote>,
}

impl View for ChannelNotes {
    type V = (u8, Seq<MidiNote>);

    open spec fn view(&self) -> (u8, Seq<MidiNote>) {
        (self.channel, self.notes@)
    }
}

/// The state of reading a file's events: the ticks so far (28 bits,
/// wrapping), the open note of each channel and key (velocity and start),
/// the notes each channel has ended, the channels that have begun a note,
/// in that order, and whether an event ended a note that was not open,
/// which stops the reading.
pub struct MidiReadModel {
    pub ticks: u32,
    pub open: Seq<Option<(u8, u32)>>,
    pub notes: Seq<Seq<MidiNote>>,
    pub seen: Seq<bool>,
    pub order: Seq<u8>,
    pub failed: bool,
}

/// The place of a channel's key among the open notes.
pub open spec fn slot(channel: u8, key: u8) -> int {
    channel * 128 + key
}

pub open spec fn initial_read() -> MidiReadModel {
    MidiReadModel {
        ticks: 0,
        open: Seq::new(2048, |i: int| None),
        notes: Seq::new(16, |i: int| Seq::<MidiNote>::empty()),
        seen: Seq::new(16, |i: int| false),
        order: Seq::empty(),
        failed: false,
    }
}

/// Ends the open note of a channel's key: it joins the channel's notes,
/// ending at the current ticks.
pub open spec fn end_note(s: MidiReadModel, channel: u8, key: u8) -> MidiReadModel {
    let (vel, start) = s.open[slot(channel, key)]->0;
    MidiReadModel {
        notes: s.notes.update(
            channel as int,
            s.notes[channel as int].push(
                MidiNote { key, vel, start_ticks: start, end_ticks: s.ticks },
            ),
        ),
        open: s.open.update(slot(channel, key), None),
        ..s
    }
}

/// One event read. Its delta moves the ticks on. A note-on with a velocity
/// opens the key unless it is open already, and makes the channel known; a
/// note-on without velocity ends the key's open note, if the channel is
/// known and the key open; a note-off ends the key's open note, and stops
/// the reading if there is none. Other events change nothing more.
pub open spec fn read_step(s: MidiReadModel, e: MidiEvent) -> MidiReadModel {
    if s.failed {
        s
    } else {
        let t = ((s.ticks + e.delta) % (TICKS_MODULUS as int)) as u32;
        let s1 = MidiReadModel { ticks: t, ..s };
        match e.kind {
            MidiEventKind::NoteOn { channel, key, vel } => if vel > 0 {
                let s2 = if !s1.seen[channel as int] {
                    MidiReadModel {
                        seen: s1.seen.update(channel as int, true),
                        order: s1.order.push(channel),
                        ..s1
                    }
                } else {
                    s1
                };
                if s2.open[slot(channel, key)] is None {
                    MidiReadModel { open: s2.open.update(slot(channel, key), Some((vel, t))), ..s2 }
                } else {
                    s2
                }
            } else if s1.seen[channel as int] && s1.open[slot(channel, key)] is Some {
                end_note(s1, channel, key)
            } else {
                s1
            },
            MidiEventKind::NoteOff { channel, key, vel } => if s1.open[slot(channel, key)] is Some
                && s1.seen[channel as int] {
                end_note(s1, channel, key)
            } else {
                MidiReadModel { failed: true, ..s1 }
            },
            _ => s1,
        }
    }
}

pub open spec fn read_events(s: MidiReadModel, events: Seq<MidiEvent>) -> MidiReadModel
    decreases events.len(),
{
    if events.len() == 0 {
        s
    } else {
        read_step(read_events(s, events.drop_last()), events.last())
    }
}

pub open spec fn read_tracks(s: MidiReadModel, tracks: Seq<Seq<MidiEvent>>) -> MidiReadModel
    decreases tracks.len(),
{
    if tracks.len() == 0 {
        s
    } else {
        read_events(read_tracks(s, tracks.drop_last()), tracks.last())
    }
}

/// Reading all events of a file, track after track.
pub open spec fn midi_read(tracks: Seq<Seq<MidiEvent>>) -> MidiReadModel {
    read_tracks(initial_read(), tracks)
}

/// The notes read, by channel, in the order in which the channels began
/// their first note.
pub open spec fn read_output(s: MidiReadModel) -> Seq<(u8, Seq<MidiNote>)> {
    s.order.map_values(|c: u8| (c, s.notes[c as int]))
}

pub open spec fn notes_view(v: Seq<Vec<MidiNote>>) -> Seq<Seq<MidiNote>> {
    v.map_values(|n: Vec<MidiNote>| n@)
}

struct MidiReader {
    ticks: u32,
    open: Vec<Option<(u8, u32)>>,
    notes: Vec<Vec<MidiNote>>,
    seen: Vec<bool>,
    order: Vec<u8>,
    failed: bool,
}

impl View for MidiReader {
    type V = MidiReadModel;

    closed spec fn view(&self) -> MidiReadModel {
        MidiReadModel {
            ticks: self.ticks,
            open: self.open@,
            notes: notes_view(self.notes@),
            seen: self.seen@,
            order: self.order@,
            failed: self.failed,
        }
    }
}

impl MidiReader {
    closed spec fn wf(&self) -> bool {
        &&& self.open.len() == 2048
        &&& self.notes.len() == 16
        &&& self.seen.len() == 16
        &&& self.ticks < TICKS_MODULUS
    }

    fn new() -> (r: Self)
        ensures
            r.wf(),
            r@ == initial_read(),
    {
        let mut open: Vec<Option<(u8, u32)>> = Vec::new();
        for i in 0..2048usize
            invariant
                open@ == Seq::new(i as nat, |j: int| None::<(u8, u32)>),
        {
            open.push(None);
            assert(open@ =~= Seq::new((i + 1) as nat, |j: int| None::<(u8, u32)>));
        }
        let mut notes: Vec<Vec<MidiNote>> = Vec::new();
        let mut seen: Vec<bool> = Vec::new();
        for i in 0..16usize
            invariant
                notes_view(notes@) == Seq::new(
                    i as nat,
                    |j: int| Seq::<MidiNote>::empty(),
                ),
                notes.len() == i,
                seen@ == Seq::new(i as nat, |j: int| false),
        {
            let fresh: Vec<MidiNote> = Vec::new();
            let ghost before = notes@;
            notes.push(fresh);
            seen.push(false);
            assert(notes@[i as int]@ == Seq::<MidiNote>::empty());
            assert forall|j: int| 0 <= j < i + 1 implies #[trigger] notes_view(notes@)[j] == Seq::<MidiNote>::empty() by {
                if j < i {
                    assert(notes@[j] == before[j]);
                    assert(notes_view(before)[j] == before[j]@);
                }
            }
            assert(notes_view(notes@) =~= Seq::new(
                (i + 1) as nat,
                |j: int| Seq::<MidiNote>::empty(),
            ));
            assert(seen@ =~= Seq::new((i + 1) as nat, |j: int| false));
        }
        let r = MidiReader { ticks: 0, open, notes, seen, order: Vec::new(), failed: false };
        assert(r@.notes =~= initial_read().notes);
        assert(r@.order =~= Seq::<u8>::empty());
        r
    }

    fn end_note_exec(&mut self, channel: u8, key: u8)
        requires
            old(self).wf(),
            channel < 16,
            key < 128,
            old(self)@.open[slot(channel, key)] is Some,
        ensures
            final(self).wf(),
            final(self)@ == end_note(old(self)@, channel, key),
    {
        let k = channel as usize * 128 + key as usize;
        let (vel, start) = match self.open[k] {
            Some(p) => p,
            None => (0, 0),
        };
        let note = MidiNote { key, vel, start_ticks: start, end_ticks: self.ticks };
        let ghost before = self.notes@;
        self.notes[channel as usize].push(note);
        self.open.set(k, None);
        assert(self@.notes =~= end_note(old(self)@, channel, key).notes);
        assert(self@.open =~= end_note(old(self)@, channel, key).open);
    }

    fn step(&mut self, e: MidiEvent)
        requires
            old(self).wf(),
            event_in_range(e),
        ensures
            final(self).wf(),
            final(self)@ == read_step(old(self)@, e),
    {
        if self.failed {
            return ;
        }
        self.ticks = (self.ticks + e.delta) % TICKS_MODULUS;
        match e.kind {
            MidiEventKind::NoteOn { channel, key, vel } => {
                let k = channel as usize * 128 + key as usize;
                if vel > 0 {
                    if !self.seen[channel as usize] {
                        self.seen.set(channel as usize, true);
                        self.order.push(channel);
                    }
                    if self.open[k].is_none() {
                        self.open.set(k, Some((vel, self.ticks)));
                    }
                } else if self.seen[channel as usize] && self.open[k].is_some() {
                    self.end_note_exec(channel, key);
                }
            },
            MidiEventKind::NoteOff { channel, key, vel } => {
                let k = channel as usize * 128 + key as usize;
                if self.open[k].is_some() && self.seen[channel as usize] {
                    self.end_note_exec(channel, key);
                } else {
                    self.failed = true;
                }
            },
            _ => {},
        }
    }

    fn read_all(tracks: &Vec<Vec<MidiEvent>>) -> (r: Self)
        requires
            tracks_in_range(tracks_view(tracks@)),
        ensures
            r.wf(),
            r@ == midi_read(tracks_view(tracks@)),
    {
        let ghost ts = tracks_view(tracks@);
        let mut reader = MidiReader::new();
        let n = tracks.len();
        for t in 0..n
            invariant
                n == tracks.len(),
                ts == tracks_view(tracks@),
                tracks_in_range(ts),
                reader.wf(),
                reader@ == read_tracks(initial_read(), ts.take(t as int)),
        {
            let track = &tracks[t];
            let m = track.len();
            assert(ts[t as int] == track@);
            assert(track@.take(0) =~= Seq::<MidiEvent>::empty());
            for e in 0..m
                invariant
                    n == tracks.len(),
                    m == track.len(),
                    ts == tracks_view(tracks@),
                    tracks_in_range(ts),
                    ts[t as int] == track@,
                    t < n,
                    reader.wf(),
                    reader@ == read_events(
                        read_tracks(initial_read(), ts.take(t as int)),
                        track@.take(e as int),
                    ),
            {
                assert(event_in_range(ts[t as int][e as int]));
                reader.step(track[e]);
                assert(track@.take(e + 1).drop_last() =~= track@.take(e as int));
            }
            assert(track@.take(m as int) =~= track@);
            assert(ts.take(t + 1).drop_last() =~= ts.take(t as int));
        }
        assert(ts.take(n as int) =~= ts);
        reader
    }

    fn output(&self) -> (r: Vec<ChannelNotes>)
        requires
            self.wf(),
            forall|i: int| 0 <= i < self@.order.len() ==> self@.order[i] < 16,
        ensures
            r@.map_values(|c: ChannelNotes| c@) == read_output(self@),
    {
        let mut out: Vec<ChannelNotes> = Vec::new();
        let n = self.order.len();
        for i in 0..n
            invariant
                n == self.order.len(),
                self.wf(),
                forall|j: int| 0 <= j < self@.order.len() ==> self@.order[j] < 16,
                out.len() == i,
                out@.map_values(|c: ChannelNotes| c@) == read_output(self@).take(i as int),
        {
            let channel = self.order[i];
            let src = &self.notes[channel as usize];
            let mut copy: Vec<MidiNote> = Vec::new();
            let m = src.len();
            for j in 0..m
                invariant
                    m == src.len(),
                    copy@ == src@.take(j as int),
            {
                copy.push(src[j]);
                assert(copy@ =~= src@.take(j + 1));
            }
            assert(copy@ =~= src@);
            let ghost before = out@;
            out.push(ChannelNotes { channel, notes: copy });
            assert(self@.notes[channel as int] == src@);
            assert(read_output(self@)[i as int] == (channel, src@));
            assert(out@[i as int]@ == (channel, src@));
            assert forall|j: int| 0 <= j < i implies #[trigger] out@[j]@ == before[j]@ by {
                assert(out@[j] == before[j]);
            }
            assert(out@.map_values(|c: ChannelNotes| c@) =~= read_output(self@).take(i + 1));
        }
        assert(read_output(self@).take(n as int) =~= read_output(self@));
        out
    }
}

pub open spec fn order_in_range(s: MidiReadModel) -> bool {
    forall|i: int| 0 <= i < s.order.len() ==> s.order[i] < 16
}

proof fn lemma_events_order_in_range(s: MidiReadModel, events: Seq<MidiEvent>)
    requires
        order_in_range(s),
        forall|e: int| 0 <= e < events.len() ==> event_in_range(#[trigger] events[e]),
    ensures
        order_in_range(read_events(s, events)),
    decreases events.len(),
{
    if events.len() > 0 {
        lemma_events_order_in_range(s, events.drop_last());
        assert(event_in_range(events[events.len() - 1]));
    }
}

proof fn lemma_read_order_in_range(tracks: Seq<Seq<MidiEvent>>)
    requires
        tracks_in_range(tracks),
    ensures
        order_in_range(midi_read(tracks)),
    decreases tracks.len(),
{
    lemma_tracks_order_in_range(initial_read(), tracks);
}

proof fn lemma_tracks_order_in_range(s: MidiReadModel, tracks: Seq<Seq<MidiEvent>>)
    requires
        order_in_range(s),
        tracks_in_range(tracks),
    ensures
        order_in_range(read_tracks(s, tracks)),
    decreases tracks.len(),
{
    if tracks.len() > 0 {
        let init = tracks.drop_last();
        assert(tracks_in_range(init)) by {
            assert forall|t: int, e: int| 0 <= t < init.len() && 0 <= e < init[t].len() implies event_in_range(#[trigger] init[t][e]) by {
                assert(init[t] == tracks[t]);
            }
        }
        lemma_tracks_order_in_range(s, init);
        let last = tracks.last();
        assert forall|e: int| 0 <= e < last.len() implies event_in_range(#[trigger] last[e]) by {
            assert(tracks[tracks.len() - 1][e] == last[e]);
        }
        lemma_events_order_in_range(read_tracks(s, init), last);
    }
}

/// Whether every note-off of a file ends an open note, so that its notes
/// can be read.
pub fn midi_note_offs_matched(tracks: &Vec<Vec<MidiEvent>>) -> (r: bool)
    requires
        tracks_in_range(tracks_view(tracks@)),
    ensures
        r == !midi_read(tracks_view(tracks@)).failed,
{
    let reader = MidiReader::read_all(tracks);
    !reader.failed
}

/// The notes of a file's events, by channel (see `read_step` and
/// `read_output`). Every note-off must end an open note.
pub fn midi_events_to_notes(tracks: &Vec<Vec<MidiEvent>>) -> (r: Vec<ChannelNotes>)
    requires
        tracks_in_range(tracks_view(tracks@)),
        !midi_read(tracks_view(tracks@)).failed,
    ensures
        r@.map_values(|c: ChannelNotes| c@) == read_output(midi_read(tracks_view(tracks@))),
{
    let reader = MidiReader::read_all(tracks);
    proof {
        lemma_read_order_in_range(tracks_view(tracks@));
    }
    reader.output()
}

/// A note to write: its start and end in ticks, key and velocity.
#[derive(Clone, Copy, Debug, PartialEq, Eq, Structural)]
pub struct TickNote {
    pub start_ticks: u32,
    pub end_ticks: u32,
    pub key: u8,
    pub vel: u8,
}

/// A number kept to its low 28 bits, as a delta time is.
pub open spec fn ticks28(x: int) -> u32 {
    (x % (TICKS_MODULUS as int)) as u32
}

/// The note-on and note-off events of notes sorted by start, from the
/// time `current` on: each note-on comes after the time since the previous
/// event (none if the note starts earlier), each note-off after the note's
/// length, with the release velocity 64.
pub open spec fn note_events_from(notes: Seq<TickNote>, current: u32, channel: u8) -> Seq<MidiEvent>
    decreases notes.len(),
{
    if notes.len() == 0 {
        Seq::empty()
    } else {
        let n = notes[0];
        let on_delta = if n.start_ticks >= current {
            n.start_ticks - current
        } else {
            0
        };
        seq![
            MidiEvent {
                delta: ticks28(on_delta),
                kind: MidiEventKind::NoteOn { channel, key: n.key, vel: n.vel },
            },
            MidiEvent {
                delta: ticks28(n.end_ticks - n.start_ticks),
                kind: MidiEventKind::NoteOff { channel, key: n.key, vel: 64 },
            },
        ] + note_events_from(notes.drop_first(), n.end_ticks, channel)
    }
}

pub open spec fn end_of_track() -> MidiEvent {
    MidiEvent { delta: 0, kind: MidiEventKind::EndOfTrack }
}

/// The events of a track of notes: the notes' events from time 0, then
/// the end of the track.
pub open spec fn track_events(notes: Seq<TickNote>, channel: u8) -> Seq<MidiEvent> {
    note_events_from(notes, 0, channel).push(end_of_track())
}

/// Notes that end no earlier than they start.
pub open spec fn notes_ordered(notes: Seq<TickNote>) -> bool {
    forall|i: int| 0 <= i < notes.len() ==> (#[trigger] notes[i]).start_ticks <= notes[i].end_ticks
}

/// The events of a track of notes sorted by start (see `track_events`).
pub fn track_to_midi_track(notes: &Vec<TickNote>, channel: u8) -> (r: Vec<MidiEvent>)
    requires
        notes_ordered(notes@),
    ensures
        r@ == track_events(notes@, channel),
{
    let mut events: Vec<MidiEvent> = Vec::new();
    let mut current: u32 = 0;
    let n = notes.len();
    assert(notes@.skip(0) =~= notes@);
    for i in 0..n
        invariant
            n == notes.len(),
            notes_ordered(notes@),
            events@ + note_events_from(notes@.skip(i as int), current, channel)
                == note_events_from(notes@, 0, channel),
    {
        let note = notes[i];
        assert(notes@.skip(i as int)[0] == note);
        assert(notes@.skip(i as int).drop_first() =~= notes@.skip(i + 1));
        let ghost prev = current;
        let note_on_delta = if note.start_ticks >= current {
            note.start_ticks - current
        } else {
            0
        };
        let ghost before = events@;
        events.push(
            MidiEvent {
                delta: note_on_delta % TICKS_MODULUS,
                kind: MidiEventKind::NoteOn { channel, key: note.key, vel: note.vel },
            },
        );
        current = note.start_ticks;
        let note_off_delta = note.end_ticks - current;
        events.push(
            MidiEvent {
                delta: note_off_delta % TICKS_MODULUS,
                kind: MidiEventKind::NoteOff { channel, key: note.key, vel: 64 },
            },
        );
        current = note.end_ticks;
        proof {
            let rest = notes@.skip(i as int);
            let head = seq![
                MidiEvent {
                    delta: ticks28(note_on_delta as int),
                    kind: MidiEventKind::NoteOn { channel, key: note.key, vel: note.vel },
                },
                MidiEvent {
                    delta: ticks28(note.end_ticks - note.start_ticks),
                    kind: MidiEventKind::NoteOff { channel, key: note.key, vel: 64 },
                },
            ];
            assert(events@ =~= before + head);
            assert(note_events_from(rest, prev, channel) == head + note_events_from(
                notes@.skip(i + 1),
                current,
                channel,
            ));
            assert((events@ + note_events_from(notes@.skip(i + 1), current, channel)) =~= (before
                + (head + note_events_from(notes@.skip(i + 1), current, channel))));
        }
    }
    assert(notes@.skip(n as int) =~= Seq::<TickNote>::empty());
    events.push(MidiEvent { delta: 0, kind: MidiEventKind::EndOfTrack });
    events
}

/// The channel of the track at an index: the index truncated to eight
/// bits, at most 15.
pub open spec fn track_channel_spec(index: usize) -> u8 {
    let b = index % 256;
    if b < 15 {
        b as u8
    } else {
        15
    }
}

pub fn track_channel(index: usize) -> (r: u8)
    ensures
        r == track_channel_spec(index),
{
    let b = (index % 256) as u8;
    if b < 15 {
        b
    } else {
        15
    }
}

/// The tempo event's value for a tempo in beats per minute: microseconds
/// per beat, kept to 24 bits.
pub open spec fn tempo_micros(bpm: u8) -> u32 {
    ((60_000_000u32 / (bpm as u32)) % 0x100_0000) as u32
}

/// The first track of a written file: the tempo, then the end of track.
pub open spec fn header_track(bpm: u8) -> Seq<MidiEvent> {
    seq![MidiEvent { delta: 0, kind: MidiEventKind::Tempo(tempo_micros(bpm)) }, end_of_track()]
}

/// The tracks of a written file: the header track, then one track per
/// track of notes, on the channel of its index.
pub open spec fn file_tracks(bpm: u8, tracks: Seq<Seq<TickNote>>) -> Seq<Seq<MidiEvent>> {
    seq![header_track(bpm)] + Seq::new(
        tracks.len(),
        |i: int| track_events(tracks[i], track_channel_spec(i as usize)),
    )
}

pub open spec fn tick_tracks_view(tracks: Seq<Vec<TickNote>>) -> Seq<Seq<TickNote>> {
    tracks.map_values(|t: Vec<TickNote>| t@)
}

/// The event tracks of a file written from tracks of notes sorted by start
/// (see `file_tracks`). The tempo must not be 0.
pub fn tracks_to_midi_tracks(bpm: u8, tracks: &Vec<Vec<TickNote>>) -> (r: Vec<Vec<MidiEvent>>)
    requires
        bpm > 0,
        forall|i: int| 0 <= i < tracks.len() ==> notes_ordered(#[trigger] tracks@[i]@),
        tracks.len() < usize::MAX,
    ensures
        tracks_view(r@) == file_tracks(bpm, tick_tracks_view(tracks@)),
{
    let mut out: Vec<Vec<MidiEvent>> = Vec::new();
    let tempo_value = 60_000_000u32 / (bpm as u32);
    let mut header: Vec<MidiEvent> = Vec::new();
    header.push(MidiEvent { delta: 0, kind: MidiEventKind::Tempo(tempo_value % 0x100_0000) });
    header.push(MidiEvent { delta: 0, kind: MidiEventKind::EndOfTrack });
    assert(header@ =~= header_track(bpm));
    out.push(header);
    let ghost ts = tick_tracks_view(tracks@);
    let n = tracks.len();
    for i in 0..n
        invariant
            n == tracks.len(),
            ts == tick_tracks_view(tracks@),
            forall|j: int| 0 <= j < tracks.len() ==> notes_ordered(#[trigger] tracks@[j]@),
            out.len() == i + 1,
            tracks_view(out@) == file_tracks(bpm, ts).take(i + 1),
    {
        let channel = track_channel(i);
        let events = track_to_midi_track(&tracks[i], channel);
        let ghost before = out@;
        out.push(events);
        assert(file_tracks(bpm, ts)[i + 1] == track_events(ts[i as int], channel));
        assert(ts[i as int] == tracks@[i as int]@);
        assert forall|j: int| 0 <= j <= i implies #[trigger] out@[j]@ == before[j]@ by {
            assert(out@[j] == before[j]);
        }
        assert(tracks_view(out@) =~= file_tracks(bpm, ts).take(i + 2));
    }
    assert(file_tracks(bpm, ts).take(n + 1) =~= file_tracks(bpm, ts));
    out
}

/// The note a written note is read back as.
pub open spec fn as_midi_note(n: TickNote) -> MidiNote {
    MidiNote { key: n.key, vel: n.vel, start_ticks: n.start_ticks, end_ticks: n.end_ticks }
}

/// Notes that can be written and read back: sorted by start, none starting
/// before the previous one ends, each ending no earlier than it starts,
/// within 28 bits of ticks, with a key and a velocity in MIDI's range and a
/// velocity that is not 0.
pub open spec fn notes_writable(notes: Seq<TickNote>) -> bool {
    &&& forall|i: int|
        0 <= i < notes.len() ==> {
            &&& (#[trigger] notes[i]).start_ticks <= notes[i].end_ticks
            &&& notes[i].end_ticks < TICKS_MODULUS
            &&& notes[i].key < 128
            &&& 0 < notes[i].vel < 128
        }
    &&& forall|i: int| 0 < i < notes.len() ==> notes[i - 1].end_ticks <= #[trigger] notes[i].start_ticks
}

pub open spec fn events_of_note(n: TickNote, current: u32, channel: u8) -> Seq<MidiEvent> {
    let on_delta = if n.start_ticks >= current {
        n.start_ticks - current
    } else {
        0
    };
    seq![
        MidiEvent {
            delta: ticks28(on_delta),
            kind: MidiEventKind::NoteOn { channel, key: n.key, vel: n.vel },
        },
        MidiEvent {
            delta: ticks28(n.end_ticks - n.start_ticks),
            kind: MidiEventKind::NoteOff { channel, key: n.key, vel: 64 },
        },
    ]
}

proof fn lemma_read_events_append(s: MidiReadModel, a: Seq<MidiEvent>, b: Seq<MidiEvent>)
    ensures
        read_events(s, a + b) == read_events(read_events(s, a), b),
    decreases b.len(),
{
    if b.len() == 0 {
        assert(a + b =~= a);
    } else {
        lemma_read_events_append(s, a, b.drop_last());
        assert((a + b).drop_last() =~= a + b.drop_last());
        assert((a + b).last() == b.last());
    }
}

proof fn lemma_read_two(s: MidiReadModel, e0: MidiEvent, e1: MidiEvent)
    ensures
        read_events(s, seq![e0, e1]) == read_step(read_step(s, e0), e1),
{
    assert(seq![e0, e1].drop_last() =~= seq![e0]);
    assert(seq![e0].drop_last() =~= Seq::<MidiEvent>::empty());
    assert(read_events(s, Seq::<MidiEvent>::empty()) == s);
    assert(seq![e0].last() == e0);
    assert(read_events(s, seq![e0]) == read_step(s, e0));
    assert(seq![e0, e1].last() == e1);
}

/// The state of reading a written track on `channel` once the notes `done`
/// are read and the ticks stand at `ticks`.
pub open spec fn reading_state(channel: u8, ticks: u32, done: Seq<MidiNote>) -> MidiReadModel {
    MidiReadModel {
        ticks,
        open: Seq::new(2048, |i: int| None),
        notes: Seq::new(
            16,
            |c: int|
                if c == channel {
                    done
                } else {
                    Seq::<MidiNote>::empty()
                },
        ),
        seen: Seq::new(16, |c: int| c == channel && done.len() > 0),
        order: if done.len() > 0 {
            seq![channel]
        } else {
            Seq::empty()
        },
        failed: false,
    }
}

proof fn lemma_read_one_note(channel: u8, cur: u32, done: Seq<MidiNote>, n: TickNote)
    requires
        channel < 16,
        cur <= n.start_ticks <= n.end_ticks < TICKS_MODULUS,
        n.key < 128,
        0 < n.vel < 128,
    ensures
        read_events(reading_state(channel, cur, done), events_of_note(n, cur, channel))
            == reading_state(channel, n.end_ticks, done.push(as_midi_note(n))),
{
    let s0 = reading_state(channel, cur, done);
    let ev = events_of_note(n, cur, channel);
    lemma_read_two(s0, ev[0], ev[1]);
    assert(ev =~= seq![ev[0], ev[1]]);
    let s1 = read_step(s0, ev[0]);
    assert(s1.ticks == n.start_ticks);
    let sl = slot(channel, n.key);
    assert(0 <= sl < 2048);
    assert(s1.open[sl] == Some((n.vel, n.start_ticks)));
    assert(s1.seen[channel as int]);
    let s2 = read_step(s1, ev[1]);
    let target = reading_state(channel, n.end_ticks, done.push(as_midi_note(n)));
    assert(s2.ticks == n.end_ticks);
    assert(s2.open =~= target.open);
    assert(s2.notes =~= target.notes);
    assert(s2.seen =~= target.seen);
    assert(s2.order =~= target.order);
}

proof fn lemma_read_written_notes(channel: u8, cur: u32, done: Seq<MidiNote>, notes: Seq<TickNote>)
    requires
        notes_writable(notes),
        channel < 16,
        notes.len() > 0 ==> cur <= notes[0].start_ticks,
        cur < TICKS_MODULUS,
    ensures
        read_events(reading_state(channel, cur, done), note_events_from(notes, cur, channel))
            == reading_state(
            channel,
            if notes.len() > 0 {
                notes.last().end_ticks
            } else {
                cur
            },
            done + notes.map_values(|t: TickNote| as_midi_note(t)),
        ),
    decreases notes.len(),
{
    if notes.len() == 0 {
        assert(done + notes.map_values(|t: TickNote| as_midi_note(t)) =~= done);
    } else {
        let n = notes[0];
        let rest = notes.drop_first();
        assert(notes_writable(rest)) by {
            assert forall|i: int| 0 < i < rest.len() implies rest[i - 1].end_ticks
                <= #[trigger] rest[i].start_ticks by {
                assert(notes[i].end_ticks <= notes[i + 1].start_ticks);
            }
            assert forall|i: int| 0 <= i < rest.len() implies (#[trigger] rest[i]).start_ticks
                <= rest[i].end_ticks by {
                assert(rest[i] == notes[i + 1]);
            }
        }
        if rest.len() > 0 {
            assert(notes[0].end_ticks <= notes[1].start_ticks);
        }
        lemma_read_events_append(
            reading_state(channel, cur, done),
            events_of_note(n, cur, channel),
            note_events_from(rest, n.end_ticks, channel),
        );
        assert(note_events_from(notes, cur, channel) == events_of_note(n, cur, channel)
            + note_events_from(rest, n.end_ticks, channel));
        lemma_read_one_note(channel, cur, done, n);
        lemma_read_written_notes(channel, n.end_ticks, done.push(as_midi_note(n)), rest);
        assert(done.push(as_midi_note(n)) + rest.map_values(|t: TickNote| as_midi_note(t))
            =~= done + notes.map_values(|t: TickNote| as_midi_note(t)));
        if rest.len() > 0 {
            assert(rest.last() == notes.last());
        }
    }
}

/// Reading back a written track gives its notes: for notes sorted by start,
/// none starting before the previous one ends, written as the only track
/// after the header track, the file reads as the one channel of the track
/// with the same notes, in order.
pub proof fn lemma_written_track_reads_back(bpm: u8, notes: Seq<TickNote>)
    requires
        notes_writable(notes),
        notes.len() > 0,
    ensures
        read_output(midi_read(seq![header_track(bpm), track_events(notes, 0)])) == seq![
            (0u8, notes.map_values(|n: TickNote| as_midi_note(n))),
        ],
{
    let h = header_track(bpm);
    let t = track_events(notes, 0);
    let tracks = seq![h, t];
    let init = initial_read();
    assert(tracks.drop_last() =~= seq![h]);
    assert(seq![h].drop_last() =~= Seq::<Seq<MidiEvent>>::empty());
    assert(read_tracks(init, Seq::<Seq<MidiEvent>>::empty()) == init);
    assert(read_tracks(init, seq![h]) == read_events(init, h));
    lemma_read_two(init, h[0], h[1]);
    assert(h =~= seq![h[0], h[1]]);
    let empty = Seq::<MidiNote>::empty();
    assert(init == reading_state(0, 0, empty)) by {
        assert(init.notes =~= reading_state(0, 0, empty).notes);
        assert(init.seen =~= reading_state(0, 0, empty).seen);
    }
    assert(read_events(init, h) == init);
    lemma_read_written_notes(0, 0, empty, notes);
    let body = note_events_from(notes, 0, 0);
    assert(t.drop_last() =~= body);
    let s_b = read_events(init, body);
    assert(read_events(init, t) == read_step(s_b, end_of_track()));
    assert(read_step(s_b, end_of_track()) == s_b);
    assert(empty + notes.map_values(|n: TickNote| as_midi_note(n)) =~= notes.map_values(
        |n: TickNote| as_midi_note(n),
    ));
    assert(read_output(s_b) =~= seq![(0u8, notes.map_values(|n: TickNote| as_midi_note(n)))]);
}

} // verus!
