//! What a note message asks for: the route it takes and the arguments it
//! carries, checked in the order in which the note handler reads them.
//!
//! Routes: `/note/oscillator` carries frequency, volume, start time,
//! duration and a waveform list; `/note/sample` carries a file path,
//! volume, start time and duration; `/note/play` carries a note type
//! (`oscillator` or `sample`) followed by the arguments of that route.
use vstd::prelude::*;
use crate::oscillator::Waveform;
use crate::osc::types::{ArgModel, MessageModel, OpenSoundArgument, OpenSoundError, OpenSoundMessage, args_view};
use crate::osc::routing::{matches_pattern, message_waveforms, parse_waveforms, pattern_matches};
use crate::osc::builder::{oscillator_message, play_message, sample_message};
use crate::text::str_eq;

verus! {

/// A numeric note argument: an `f32` (by its bits), or an `i32`, which is
/// read as a float.
#[derive(Clone, Copy, Debug, PartialEq, Eq, Structural)]
pub enum NumericArg {
    Float32(u32),
    Int32(i32),
}

/// The number an argument gives, if it is numeric.
pub open spec fn numeric_of(a: ArgModel) -> Option<NumericArg> {
    match a {
        ArgModel::Float32(b) => Some(NumericArg::Float32(b)),
        ArgModel::Int32(i) => Some(NumericArg::Int32(i)),
        _ => None,
    }
}

/// The number an argument gives: floats and integers give one, other
/// arguments none.
pub fn numeric_arg(arg: &OpenSoundArgument) -> (r: Option<NumericArg>)
    ensures
        r == numeric_of(arg@),
{
    match arg {
        OpenSoundArgument::Float32(b) => Some(NumericArg::Float32(*b)),
        OpenSoundArgument::Int32(i) => Some(NumericArg::Int32(*i)),
        _ => None,
    }
}

/// The arguments of an oscillator note.
pub struct OscillatorNoteArgs {
    pub frequency: NumericArg,
    pub volume: NumericArg,
    pub start_time_ms: NumericArg,
    pub duration_ms: NumericArg,
    pub waveforms: Vec<Waveform>,
}

pub struct OscillatorNoteModel {
    pub frequency: NumericArg,
    pub volume: NumericArg,
    pub start_time_ms: NumericArg,
    pub duration_ms: NumericArg,
    pub waveforms: Seq<Waveform>,
}

impl View for OscillatorNoteArgs {
    type V = OscillatorNoteModel;

    open spec fn view(&self) -> OscillatorNoteModel {
        OscillatorNoteModel {
            frequency: self.frequency,
            volume: self.volume,
            start_time_ms: self.start_time_ms,
            duration_ms: self.duration_ms,
            waveforms: self.waveforms@,
        }
    }
}

/// The arguments of a sampled note.
pub struct SampleNoteArgs {
    pub file_path: String,
    pub volume: NumericArg,
    pub start_time_ms: NumericArg,
    pub duration_ms: NumericArg,
}

pub struct SampleNoteModel {
    pub file_path: Seq<char>,
    pub volume: NumericArg,
    pub start_time_ms: NumericArg,
    pub duration_ms: NumericArg,
}

impl View for SampleNoteArgs {
    type V = SampleNoteModel;

    open spec fn view(&self) -> SampleNoteModel {
        SampleNoteModel {
            file_path: self.file_path@,
            volume: self.volume,
            start_time_ms: self.start_time_ms,
            duration_ms: self.duration_ms,
        }
    }
}

/// The note that a `/note/play` message asks to play at once.
pub enum PlayNoteArgs {
    Oscillator(OscillatorNoteArgs),
    Sample(SampleNoteArgs),
}

pub enum PlayNoteModel {
    Oscillator(OscillatorNoteModel),
    Sample(SampleNoteModel),
}

impl View for PlayNoteArgs {
    type V = PlayNoteModel;

    open spec fn view(&self) -> PlayNoteModel {
        match self {
            PlayNoteArgs::Oscillator(a) => PlayNoteModel::Oscillator(a@),
            PlayNoteArgs::Sample(a) => PlayNoteModel::Sample(a@),
        }
    }
}

/// What a note message asks for, by route.
pub enum NoteRequest {
    Oscillator(OscillatorNoteArgs),
    Sample(SampleNoteArgs),
    Play(PlayNoteArgs),
}

pub enum NoteRequestModel {
    Oscillator(OscillatorNoteModel),
    Sample(SampleNoteModel),
    Play(PlayNoteModel),
}

impl View for NoteRequest {
    type V = NoteRequestModel;

    open spec fn view(&self) -> NoteRequestModel {
        match self {
            NoteRequest::Oscillator(a) => NoteRequestModel::Oscillator(a@),
            NoteRequest::Sample(a) => NoteRequestModel::Sample(a@),
            NoteRequest::Play(a) => NoteRequestModel::Play(a@),
        }
    }
}

/// Why a note message is refused.
pub enum NoteIssue {
    /// Fewer arguments than the route needs.
    Count { expected: nat, actual: nat },
    /// The argument at `index` of the message is not of the expected type.
    WrongType { expected: Seq<char>, index: nat },
    /// A field of the waveform list names no waveform.
    Waveform(Seq<char>),
    /// A required argument is missing.
    Missing(Seq<char>),
    /// The note type of a play message is unknown.
    Unsupported(Seq<char>),
    /// The address is not a note route.
    Address(Seq<char>),
}

/// A refused note message: an error to report as it is, or an argument of
/// the wrong type, which is reported as `InvalidArgumentType` with the
/// argument's debug text (`{:?}`).
#[derive(Debug)]
pub enum NoteArgsError {
    Report(OpenSoundError),
    WrongType { expected: String, index: usize },
}

/// Whether an error reports an issue.
pub open spec fn reports(e: NoteArgsError, issue: NoteIssue) -> bool {
    match issue {
        NoteIssue::Count { expected, actual } => e matches NoteArgsError::Report(
            OpenSoundError::InvalidArgumentCount { expected: x, actual: y },
        ) && x == expected && y == actual,
        NoteIssue::WrongType { expected, index } => e matches NoteArgsError::WrongType {
            expected: x,
            index: i,
        } && x@ == expected && i == index,
        NoteIssue::Waveform(field) => e matches NoteArgsError::Report(
            OpenSoundError::InvalidArgumentType { expected: x, actual: y },
        ) && x@ == "valid waveform"@ && y@ == field,
        NoteIssue::Missing(name) => e matches NoteArgsError::Report(
            OpenSoundError::MissingArgument(x),
        ) && x@ == name,
        NoteIssue::Unsupported(t) => e matches NoteArgsError::Report(
            OpenSoundError::UnsupportedMessageType(x),
        ) && x@ == t,
        NoteIssue::Address(a) => e matches NoteArgsError::Report(
            OpenSoundError::InvalidAddressPattern(x),
        ) && x@ == a,
    }
}

/// Whether a result is the outcome that a check describes.
pub open spec fn checked<T: View>(r: Result<T, NoteArgsError>, c: Result<T::V, NoteIssue>) -> bool {
    match c {
        Ok(v) => r matches Ok(t) && t@ == v,
        Err(issue) => r matches Err(e) && reports(e, issue),
    }
}

/// The oscillator note that the arguments from `start` on describe: five
/// are needed; the first four must be numeric, the fifth a string that
/// lists waveforms. Indexes count from the start of `args`.
pub open spec fn oscillator_check(args: Seq<ArgModel>, start: int) -> Result<
    OscillatorNoteModel,
    NoteIssue,
> {
    if args.len() < start + 5 {
        Err(NoteIssue::Count { expected: 5, actual: (args.len() - start) as nat })
    } else if numeric_of(args[start]) is None {
        Err(NoteIssue::WrongType { expected: "f32"@, index: start as nat })
    } else if numeric_of(args[start + 1]) is None {
        Err(NoteIssue::WrongType { expected: "f32"@, index: (start + 1) as nat })
    } else if numeric_of(args[start + 2]) is None {
        Err(NoteIssue::WrongType { expected: "f32"@, index: (start + 2) as nat })
    } else if numeric_of(args[start + 3]) is None {
        Err(NoteIssue::WrongType { expected: "f32"@, index: (start + 3) as nat })
    } else {
        match args[start + 4] {
            ArgModel::Str(list) => match message_waveforms(list) {
                Ok(ws) => Ok(
                    OscillatorNoteModel {
                        frequency: numeric_of(args[start])->0,
                        volume: numeric_of(args[start + 1])->0,
                        start_time_ms: numeric_of(args[start + 2])->0,
                        duration_ms: numeric_of(args[start + 3])->0,
                        waveforms: ws,
                    },
                ),
                Err(field) => Err(NoteIssue::Waveform(field)),
            },
            _ => Err(NoteIssue::WrongType { expected: "string"@, index: (start + 4) as nat }),
        }
    }
}

/// The sampled note that the arguments from `start` on describe: four are
/// needed; the first a string, the file path, and the other three numeric.
pub open spec fn sample_check(args: Seq<ArgModel>, start: int) -> Result<SampleNoteModel, NoteIssue> {
    if args.len() < start + 4 {
        Err(NoteIssue::Count { expected: 4, actual: (args.len() - start) as nat })
    } else {
        match args[start] {
            ArgModel::Str(path) => if numeric_of(args[start + 1]) is None {
                Err(NoteIssue::WrongType { expected: "f32"@, index: (start + 1) as nat })
            } else if numeric_of(args[start + 2]) is None {
                Err(NoteIssue::WrongType { expected: "f32"@, index: (start + 2) as nat })
            } else if numeric_of(args[start + 3]) is None {
                Err(NoteIssue::WrongType { expected: "f32"@, index: (start + 3) as nat })
            } else {
                Ok(
                    SampleNoteModel {
                        file_path: path,
                        volume: numeric_of(args[start + 1])->0,
                        start_time_ms: numeric_of(args[start + 2])->0,
                        duration_ms: numeric_of(args[start + 3])->0,
                    },
                )
            },
            _ => Err(NoteIssue::WrongType { expected: "string"@, index: start as nat }),
        }
    }
}

/// The note a play message asks for: its first argument names the note
/// type, and the rest are that route's arguments.
pub open spec fn play_check(args: Seq<ArgModel>) -> Result<PlayNoteModel, NoteIssue> {
    if args.len() == 0 {
        Err(NoteIssue::Missing("note_type"@))
    } else {
        match args[0] {
            ArgModel::Str(t) => if t == "oscillator"@ {
                match oscillator_check(args, 1) {
                    Ok(m) => Ok(PlayNoteModel::Oscillator(m)),
                    Err(i) => Err(i),
                }
            } else if t == "sample"@ {
                match sample_check(args, 1) {
                    Ok(m) => Ok(PlayNoteModel::Sample(m)),
                    Err(i) => Err(i),
                }
            } else {
                Err(NoteIssue::Unsupported(t))
            },
            _ => Err(NoteIssue::WrongType { expected: "string"@, index: 0 }),
        }
    }
}

/// What a message asks of the note handler, by its address.
pub open spec fn note_request_check(m: MessageModel) -> Result<NoteRequestModel, NoteIssue> {
    if m.address == "/note/oscillator"@ {
        match oscillator_check(m.args, 0) {
            Ok(a) => Ok(NoteRequestModel::Oscillator(a)),
            Err(i) => Err(i),
        }
    } else if m.address == "/note/sample"@ {
        match sample_check(m.args, 0) {
            Ok(a) => Ok(NoteRequestModel::Sample(a)),
            Err(i) => Err(i),
        }
    } else if m.address == "/note/play"@ {
        match play_check(m.args) {
            Ok(a) => Ok(NoteRequestModel::Play(a)),
            Err(i) => Err(i),
        }
    } else {
        Err(NoteIssue::Address(m.address))
    }
}

fn numeric_at(args: &Vec<OpenSoundArgument>, i: usize) -> (r: Result<NumericArg, NoteArgsError>)
    requires
        i < args.len(),
    ensures
        match numeric_of(args@[i as int]@) {
            Some(v) => r == Ok::<NumericArg, NoteArgsError>(v),
            None => r matches Err(e) && reports(
                e,
                NoteIssue::WrongType { expected: "f32"@, index: i as nat },
            ),
        },
{
    match numeric_arg(&args[i]) {
        Some(v) => Ok(v),
        None => Err(NoteArgsError::WrongType { expected: "f32".to_owned(), index: i }),
    }
}

/// Reads the arguments of an oscillator note from `start` on (see
/// `oscillator_check`).
pub fn oscillator_note_args(args: &Vec<OpenSoundArgument>, start: usize) -> (r: Result<
    OscillatorNoteArgs,
    NoteArgsError,
>)
    requires
        start <= args.len(),
    ensures
        checked(r, oscillator_check(args_view(args@), start as int)),
{
    let ghost m = args_view(args@);
    if args.len() - start < 5 {
        return Err(
            NoteArgsError::Report(
                OpenSoundError::InvalidArgumentCount { expected: 5, actual: args.len() - start },
            ),
        );
    }
    assert(m[start as int] == args@[start as int]@);
    assert(m[start + 1] == args@[start + 1]@);
    assert(m[start + 2] == args@[start + 2]@);
    assert(m[start + 3] == args@[start + 3]@);
    assert(m[start + 4] == args@[start + 4]@);
    let frequency = match numeric_at(args, start) {
        Ok(v) => v,
        Err(e) => return Err(e),
    };
    let volume = match numeric_at(args, start + 1) {
        Ok(v) => v,
        Err(e) => return Err(e),
    };
    let start_time_ms = match numeric_at(args, start + 2) {
        Ok(v) => v,
        Err(e) => return Err(e),
    };
    let duration_ms = match numeric_at(args, start + 3) {
        Ok(v) => v,
        Err(e) => return Err(e),
    };
    let list = match &args[start + 4] {
        OpenSoundArgument::String(s) => s,
        _ => {
            return Err(NoteArgsError::WrongType { expected: "string".to_owned(), index: start + 4 })
        },
    };
    let waveforms = match parse_waveforms(list.as_str()) {
        Ok(w) => w,
        Err(e) => return Err(NoteArgsError::Report(e)),
    };
    Ok(OscillatorNoteArgs { frequency, volume, start_time_ms, duration_ms, waveforms })
}

/// Reads the arguments of a sampled note from `start` on (see
/// `sample_check`).
pub fn sample_note_args(args: &Vec<OpenSoundArgument>, start: usize) -> (r: Result<
    SampleNoteArgs,
    NoteArgsError,
>)
    requires
        start <= args.len(),
    ensures
        checked(r, sample_check(args_view(args@), start as int)),
{
    let ghost m = args_view(args@);
    if args.len() - start < 4 {
        return Err(
            NoteArgsError::Report(
                OpenSoundError::InvalidArgumentCount { expected: 4, actual: args.len() - start },
            ),
        );
    }
    assert(m[start as int] == args@[start as int]@);
    assert(m[start + 1] == args@[start + 1]@);
    assert(m[start + 2] == args@[start + 2]@);
    assert(m[start + 3] == args@[start + 3]@);
    let file_path = match &args[start] {
        OpenSoundArgument::String(s) => s.clone(),
        _ => {
            return Err(NoteArgsError::WrongType { expected: "string".to_owned(), index: start })
        },
    };
    let volume = match numeric_at(args, start + 1) {
        Ok(v) => v,
        Err(e) => return Err(e),
    };
    let start_time_ms = match numeric_at(args, start + 2) {
        Ok(v) => v,
        Err(e) => return Err(e),
    };
    let duration_ms = match numeric_at(args, start + 3) {
        Ok(v) => v,
        Err(e) => return Err(e),
    };
    Ok(SampleNoteArgs { file_path, volume, start_time_ms, duration_ms })
}

/// Reads what a play message asks for (see `play_check`).
pub fn play_note_args(args: &Vec<OpenSoundArgument>) -> (r: Result<PlayNoteArgs, NoteArgsError>)
    ensures
        checked(r, play_check(args_view(args@))),
{
    let ghost m = args_view(args@);
    if args.len() == 0 {
        return Err(NoteArgsError::Report(OpenSoundError::MissingArgument("note_type".to_owned())));
    }
    assert(m[0] == args@[0]@);
    let note_type = match &args[0] {
        OpenSoundArgument::String(s) => s,
        _ => return Err(NoteArgsError::WrongType { expected: "string".to_owned(), index: 0 }),
    };
    if str_eq(note_type.as_str(), "oscillator") {
        match oscillator_note_args(args, 1) {
            Ok(a) => Ok(PlayNoteArgs::Oscillator(a)),
            Err(e) => Err(e),
        }
    } else if str_eq(note_type.as_str(), "sample") {
        match sample_note_args(args, 1) {
            Ok(a) => Ok(PlayNoteArgs::Sample(a)),
            Err(e) => Err(e),
        }
    } else {
        Err(NoteArgsError::Report(OpenSoundError::UnsupportedMessageType(note_type.clone())))
    }
}

/// Reads what a message asks of the note handler (see
/// `note_request_check`).
pub fn note_request(message: &OpenSoundMessage) -> (r: Result<NoteRequest, NoteArgsError>)
    ensures
        checked(r, note_request_check(message@)),
{
    let address = message.address_pattern.as_str();
    if str_eq(address, "/note/oscillator") {
        match oscillator_note_args(&message.arguments, 0) {
            Ok(a) => Ok(NoteRequest::Oscillator(a)),
            Err(e) => Err(e),
        }
    } else if str_eq(address, "/note/sample") {
        match sample_note_args(&message.arguments, 0) {
            Ok(a) => Ok(NoteRequest::Sample(a)),
            Err(e) => Err(e),
        }
    } else if str_eq(address, "/note/play") {
        match play_note_args(&message.arguments) {
            Ok(a) => Ok(NoteRequest::Play(a)),
            Err(e) => Err(e),
        }
    } else {
        Err(
            NoteArgsError::Report(
                OpenSoundError::InvalidAddressPattern(message.address_pattern.clone()),
            ),
        )
    }
}

/// Whether `r` is the route that an address takes among patterns walked in
/// the given order: a pattern equal to the address wins; otherwise the
/// first pattern that matches it; otherwise none.
pub open spec fn route_choice(patterns: Seq<Seq<char>>, address: Seq<char>, r: Option<usize>) -> bool {
    if exists|i: int| 0 <= i < patterns.len() && #[trigger] patterns[i] == address {
        r matches Some(k) && k < patterns.len() && patterns[k as int] == address
    } else {
        match r {
            Some(k) => k < patterns.len() && pattern_matches(patterns[k as int], address) && forall|
                j: int,
            |
                0 <= j < k ==> !pattern_matches(#[trigger] patterns[j], address),
            None => forall|j: int|
                0 <= j < patterns.len() ==> !pattern_matches(#[trigger] patterns[j], address),
        }
    }
}

pub open spec fn strings_view(v: Seq<String>) -> Seq<Seq<char>> {
    v.map_values(|s: String| s@)
}

/// The route an address takes among the patterns of a route table, given
/// in the order in which the table is walked (see `route_choice`).
pub fn select_route(patterns: &Vec<String>, address: &str) -> (r: Option<usize>)
    ensures
        route_choice(strings_view(patterns@), address@, r),
{
    let ghost ps = strings_view(patterns@);
    let n = patterns.len();
    for i in 0..n
        invariant
            n == patterns.len(),
            ps == strings_view(patterns@),
            forall|j: int| 0 <= j < i ==> ps[j] != address@,
    {
        if str_eq(patterns[i].as_str(), address) {
            assert(ps[i as int] == address@);
            return Some(i);
        }
    }
    for i in 0..n
        invariant
            n == patterns.len(),
            ps == strings_view(patterns@),
            forall|j: int| 0 <= j < n ==> ps[j] != address@,
            forall|j: int| 0 <= j < i ==> !pattern_matches(#[trigger] ps[j], address@),
    {
        if matches_pattern(patterns[i].as_str(), address) {
            return Some(i);
        }
    }
    None
}

/// Where the handler finds a note's values, as the protocol lays them out:
/// an accepted `/note/oscillator` message carries the frequency, volume,
/// start time and duration as its arguments 0 to 3 and the waveform list as
/// argument 4; an accepted `/note/sample` message carries the file path,
/// volume, start time and duration as arguments 0 to 3; an accepted
/// `/note/play` message names the note type first, and the note's
/// arguments follow from argument 1 on, in the same order.
pub proof fn lemma_note_argument_positions(m: MessageModel)
    ensures
        note_request_check(m) matches Ok(NoteRequestModel::Oscillator(o)) ==> {
            &&& m.address == "/note/oscillator"@
            &&& m.args.len() >= 5
            &&& o.frequency == numeric_of(m.args[0])->0
            &&& o.volume == numeric_of(m.args[1])->0
            &&& o.start_time_ms == numeric_of(m.args[2])->0
            &&& o.duration_ms == numeric_of(m.args[3])->0
            &&& m.args[4] matches ArgModel::Str(list) && message_waveforms(list) == Ok::<
                Seq<Waveform>,
                Seq<char>,
            >(o.waveforms)
        },
        note_request_check(m) matches Ok(NoteRequestModel::Sample(o)) ==> {
            &&& m.address == "/note/sample"@
            &&& m.args.len() >= 4
            &&& m.args[0] == ArgModel::Str(o.file_path)
            &&& o.volume == numeric_of(m.args[1])->0
            &&& o.start_time_ms == numeric_of(m.args[2])->0
            &&& o.duration_ms == numeric_of(m.args[3])->0
        },
        note_request_check(m) matches Ok(NoteRequestModel::Play(PlayNoteModel::Oscillator(o))) ==> {
            &&& m.address == "/note/play"@
            &&& m.args.len() >= 6
            &&& m.args[0] == ArgModel::Str("oscillator"@)
            &&& o.frequency == numeric_of(m.args[1])->0
            &&& o.volume == numeric_of(m.args[2])->0
            &&& o.start_time_ms == numeric_of(m.args[3])->0
            &&& o.duration_ms == numeric_of(m.args[4])->0
        },
        note_request_check(m) matches Ok(NoteRequestModel::Play(PlayNoteModel::Sample(o))) ==> {
            &&& m.address == "/note/play"@
            &&& m.args.len() >= 5
            &&& m.args[0] == ArgModel::Str("sample"@)
            &&& m.args[1] == ArgModel::Str(o.file_path)
            &&& o.volume == numeric_of(m.args[2])->0
            &&& o.start_time_ms == numeric_of(m.args[3])->0
            &&& o.duration_ms == numeric_of(m.args[4])->0
        },
{
}

/// The oscillator note the client asks for is the one the handler reads:
/// the message `create_oscillator_message` makes is accepted with the same
/// numbers and the waveforms its list names, or refused for the first
/// field of the list that names none.
pub proof fn lemma_oscillator_message_accepted(
    frequency: u32,
    volume: u32,
    start_time_ms: u32,
    duration_ms: u32,
    waveforms: Seq<char>,
)
    ensures
        note_request_check(
            oscillator_message(frequency, volume, start_time_ms, duration_ms, waveforms),
        ) == match message_waveforms(waveforms) {
            Ok(ws) => Ok::<NoteRequestModel, NoteIssue>(
                NoteRequestModel::Oscillator(
                    OscillatorNoteModel {
                        frequency: NumericArg::Float32(frequency),
                        volume: NumericArg::Float32(volume),
                        start_time_ms: NumericArg::Float32(start_time_ms),
                        duration_ms: NumericArg::Float32(duration_ms),
                        waveforms: ws,
                    },
                ),
            ),
            Err(field) => Err(NoteIssue::Waveform(field)),
        },
{
    reveal_strlit("/note/oscillator");
    reveal_strlit("/note/sample");
    reveal_strlit("/note/play");
}

/// The sampled note the client asks for is always accepted, with the same
/// file path and numbers.
pub proof fn lemma_sample_message_accepted(
    file_path: Seq<char>,
    volume: u32,
    start_time_ms: u32,
    duration_ms: u32,
)
    ensures
        note_request_check(sample_message(file_path, volume, start_time_ms, duration_ms)) == Ok::<
            NoteRequestModel,
            NoteIssue,
        >(
            NoteRequestModel::Sample(
                SampleNoteModel {
                    file_path,
                    volume: NumericArg::Float32(volume),
                    start_time_ms: NumericArg::Float32(start_time_ms),
                    duration_ms: NumericArg::Float32(duration_ms),
                },
            ),
        ),
{
    reveal_strlit("/note/oscillator");
    reveal_strlit("/note/sample");
    reveal_strlit("/note/play");
    let m = sample_message(file_path, volume, start_time_ms, duration_ms);
    assert(m.address != "/note/oscillator"@) by {
        assert(m.address[6] != "/note/oscillator"@[6]);
    }
    assert(m.address == "/note/sample"@);
}

/// What the handler makes of the play message `create_play_message`
/// builds: with the note type `oscillator`, the oscillator note it
/// carries; with `sample`, a refusal, since the argument after the note
/// type is a float where a file path is read; with any other type, a
/// refusal of that type.
pub proof fn lemma_play_message_outcome(
    note_type: Seq<char>,
    frequency: u32,
    volume: u32,
    start_time_ms: u32,
    duration_ms: u32,
    waveforms: Seq<char>,
)
    ensures
        note_request_check(
            play_message(note_type, frequency, volume, start_time_ms, duration_ms, waveforms),
        ) == if note_type == "oscillator"@ {
            match message_waveforms(waveforms) {
                Ok(ws) => Ok::<NoteRequestModel, NoteIssue>(
                    NoteRequestModel::Play(
                        PlayNoteModel::Oscillator(
                            OscillatorNoteModel {
                                frequency: NumericArg::Float32(frequency),
                                volume: NumericArg::Float32(volume),
                                start_time_ms: NumericArg::Float32(start_time_ms),
                                duration_ms: NumericArg::Float32(duration_ms),
                                waveforms: ws,
                            },
                        ),
                    ),
                ),
                Err(field) => Err(NoteIssue::Waveform(field)),
            }
        } else if note_type == "sample"@ {
            Err(NoteIssue::WrongType { expected: "string"@, index: 1 })
        } else {
            Err(NoteIssue::Unsupported(note_type))
        },
{
    reveal_strlit("/note/oscillator");
    reveal_strlit("/note/sample");
    reveal_strlit("/note/play");
    reveal_strlit("oscillator");
    reveal_strlit("sample");
    let m = play_message(note_type, frequency, volume, start_time_ms, duration_ms, waveforms);
    assert(m.address != "/note/oscillator"@) by {
        assert(m.address[6] != "/note/oscillator"@[6]);
    }
    assert(m.address != "/note/sample"@) by {
        assert(m.address[6] != "/note/sample"@[6]);
    }
    assert(m.args[0] == ArgModel::Str(note_type));
    if note_type == "sample"@ {
        assert(note_type != "oscillator"@) by {
            assert(note_type.len() != "oscillator"@.len());
        }
        assert(numeric_of(m.args[1]) is Some);
    }
}

} // verus!
