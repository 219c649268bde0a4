//! A builder for OSC messages.
use vstd::prelude::*;
use crate::osc::types::{ArgModel, MessageModel, OpenSoundArgument, OpenSoundMessage, args_view};

verus! {

/// Builds a message one argument at a time, in order.
pub struct MessageBuilder {
    address_pattern: String,
    arguments: Vec<OpenSoundArgument>,
}

impl View for MessageBuilder {
    type V = MessageModel;

    closed spec fn view(&self) -> MessageModel {
        MessageModel { address: self.address_pattern@, args: args_view(self.arguments@) }
    }
}

impl MessageBuilder {
    /// A builder for a message to `address_pattern`, with no arguments yet.
    pub fn new(address_pattern: &str) -> (r: Self)
        ensures
            r@.address == address_pattern@,
            r@.args == Seq::<ArgModel>::empty(),
    {
        let r = Self { address_pattern: address_pattern.to_owned(), arguments: Vec::new() };
        assert(args_view(r.arguments@) =~= Seq::<ArgModel>::empty());
        r
    }

    fn push(self, arg: OpenSoundArgument) -> (r: Self)
        ensures
            r@.address == self@.address,
            r@.args == self@.args.push(arg@),
    {
        let ghost before = self@.args;
        let ghost a = arg@;
        let mut b = self;
        b.arguments.push(arg);
        assert(args_view(b.arguments@) =~= before.push(a));
        b
    }

    /// Appends a 32-bit integer.
    pub fn arg_i32(self, value: i32) -> (r: Self)
        ensures
            r@.address == self@.address,
            r@.args == self@.args.push(ArgModel::Int32(value)),
    {
        self.push(OpenSoundArgument::Int32(value))
    }

    /// Appends a 32-bit float given by its bits (`f32::to_bits`).
    pub fn arg_f32_bits(self, bits: u32) -> (r: Self)
        ensures
            r@.address == self@.address,
            r@.args == self@.args.push(ArgModel::Float32(bits)),
    {
        self.push(OpenSoundArgument::Float32(bits))
    }

    /// Appends a string.
    pub fn arg_string(self, value: &str) -> (r: Self)
        ensures
            r@.address == self@.address,
            r@.args == self@.args.push(ArgModel::Str(value@)),
    {
        self.push(OpenSoundArgument::String(value.to_owned()))
    }

    /// Appends a blob.
    pub fn arg_blob(self, value: Vec<u8>) -> (r: Self)
        ensures
            r@.address == self@.address,
            r@.args == self@.args.push(ArgModel::Blob(value@)),
    {
        self.push(OpenSoundArgument::Blob(value))
    }

    /// Appends a `True`.
    pub fn arg_true(self) -> (r: Self)
        ensures
            r@.address == self@.address,
            r@.args == self@.args.push(ArgModel::True),
    {
        self.push(OpenSoundArgument::True)
    }

    /// Appends a `False`.
    pub fn arg_false(self) -> (r: Self)
        ensures
            r@.address == self@.address,
            r@.args == self@.args.push(ArgModel::False),
    {
        self.push(OpenSoundArgument::False)
    }

    /// Appends a `Null`.
    pub fn arg_null(self) -> (r: Self)
        ensures
            r@.address == self@.address,
            r@.args == self@.args.push(ArgModel::Null),
    {
        self.push(OpenSoundArgument::Null)
    }

    /// Appends an `Impulse`.
    pub fn arg_impulse(self) -> (r: Self)
        ensures
            r@.address == self@.address,
            r@.args == self@.args.push(ArgModel::Impulse),
    {
        self.push(OpenSoundArgument::Impulse)
    }

    /// The message built so far.
    pub fn build(self) -> (r: OpenSoundMessage)
        ensures
            r@ == self@,
    {
        OpenSoundMessage { address_pattern: self.address_pattern, arguments: self.arguments }
    }
}

/// `/note/oscillator` with the frequency, volume, start time and duration
/// (as `f32` bits) and the waveform list.
pub open spec fn oscillator_message(
    frequency: u32,
    volume: u32,
    start_time_ms: u32,
    duration_ms: u32,
    waveforms: Seq<char>,
) -> MessageModel {
    MessageModel {
        address: "/note/oscillator"@,
        args: seq![
            ArgModel::Float32(frequency),
            ArgModel::Float32(volume),
            ArgModel::Float32(start_time_ms),
            ArgModel::Float32(duration_ms),
            ArgModel::Str(waveforms),
        ],
    }
}

/// `/note/sample` with the file path and the volume, start time and
/// duration (as `f32` bits).
pub open spec fn sample_message(
    file_path: Seq<char>,
    volume: u32,
    start_time_ms: u32,
    duration_ms: u32,
) -> MessageModel {
    MessageModel {
        address: "/note/sample"@,
        args: seq![
            ArgModel::Str(file_path),
            ArgModel::Float32(volume),
            ArgModel::Float32(start_time_ms),
            ArgModel::Float32(duration_ms),
        ],
    }
}

/// `/note/play` with the note type, the frequency, volume, start time and
/// duration (as `f32` bits) and the waveform list.
pub open spec fn play_message(
    note_type: Seq<char>,
    frequency: u32,
    volume: u32,
    start_time_ms: u32,
    duration_ms: u32,
    waveforms: Seq<char>,
) -> MessageModel {
    MessageModel {
        address: "/note/play"@,
        args: seq![
            ArgModel::Str(note_type),
            ArgModel::Float32(frequency),
            ArgModel::Float32(volume),
            ArgModel::Float32(start_time_ms),
            ArgModel::Float32(duration_ms),
            ArgModel::Str(waveforms),
        ],
    }
}

/// The message that asks for an oscillator note: `/note/oscillator` with the
/// frequency, volume, start time and duration (as `f32` bits) and the
/// waveform list.
pub fn create_oscillator_message(
    frequency: u32,
    volume: u32,
    start_time_ms: u32,
    duration_ms: u32,
    waveforms: &str,
) -> (r: OpenSoundMessage)
    ensures
        r@ == oscillator_message(frequency, volume, start_time_ms, duration_ms, waveforms@),
{
    let r = MessageBuilder::new("/note/oscillator")
        .arg_f32_bits(frequency)
        .arg_f32_bits(volume)
        .arg_f32_bits(start_time_ms)
        .arg_f32_bits(duration_ms)
        .arg_string(waveforms)
        .build();
    assert(r@.args =~= oscillator_message(
        frequency,
        volume,
        start_time_ms,
        duration_ms,
        waveforms@,
    ).args);
    r
}

/// The message that asks for a sampled note: `/note/sample` with the file
/// path and the volume, start time and duration (as `f32` bits).
pub fn create_sample_message(
    file_path: &str,
    volume: u32,
    start_time_ms: u32,
    duration_ms: u32,
) -> (r: OpenSoundMessage)
    ensures
        r@ == sample_message(file_path@, volume, start_time_ms, duration_ms),
{
    let r = MessageBuilder::new("/note/sample")
        .arg_string(file_path)
        .arg_f32_bits(volume)
        .arg_f32_bits(start_time_ms)
        .arg_f32_bits(duration_ms)
        .build();
    assert(r@.args =~= sample_message(file_path@, volume, start_time_ms, duration_ms).args);
    r
}

/// The message that asks for a note to be played at once: `/note/play`
/// with the note type, the frequency, volume, start time and duration (as
/// `f32` bits) and the waveform list.
pub fn create_play_message(
    note_type: &str,
    frequency: u32,
    volume: u32,
    start_time_ms: u32,
    duration_ms: u32,
    waveforms: &str,
) -> (r: OpenSoundMessage)
    ensures
        r@ == play_message(
            note_type@,
            frequency,
            volume,
            start_time_ms,
            duration_ms,
            waveforms@,
        ),
{
    let r = MessageBuilder::new("/note/play")
        .arg_string(note_type)
        .arg_f32_bits(frequency)
        .arg_f32_bits(volume)
        .arg_f32_bits(start_time_ms)
        .arg_f32_bits(duration_ms)
        .arg_string(waveforms)
        .build();
    assert(r@.args =~= play_message(
        note_type@,
        frequency,
        volume,
        start_time_ms,
        duration_ms,
        waveforms@,
    ).args);
    r
}

} // verus!
