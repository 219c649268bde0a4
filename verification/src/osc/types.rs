//! OpenSound Control values: messages, bundles, arguments, configuration
//! and errors.
use vstd::prelude::*;
use crate::text::decimal_string;
use vstd::string::StringExecFns;

verus! {

/// An OSC argument. A 32-bit float is held as its IEEE-754 bit pattern,
/// which is what travels on the wire.
#[derive(Debug)]
pub enum OpenSoundArgument {
    Int32(i32),
    /// The bits of an `f32` (`f32::to_bits`).
    Float32(u32),
    String(String),
    Blob(Vec<u8>),
    True,
    False,
    Null,
    Impulse,
}

pub enum ArgModel {
    Int32(i32),
    Float32(u32),
    Str(Seq<char>),
    Blob(Seq<u8>),
    True,
    False,
    Null,
    Impulse,
}

impl View for OpenSoundArgument {
    type V = ArgModel;

    open spec fn view(&self) -> ArgModel {
        match self {
            OpenSoundArgument::Int32(i) => ArgModel::Int32(*i),
            OpenSoundArgument::Float32(b) => ArgModel::Float32(*b),
            OpenSoundArgument::String(s) => ArgModel::Str(s@),
            OpenSoundArgument::Blob(b) => ArgModel::Blob(b@),
            OpenSoundArgument::True => ArgModel::True,
            OpenSoundArgument::False => ArgModel::False,
            OpenSoundArgument::Null => ArgModel::Null,
            OpenSoundArgument::Impulse => ArgModel::Impulse,
        }
    }
}

/// An OSC message: an address pattern and its arguments.
#[derive(Debug)]
pub struct OpenSoundMessage {
    pub address_pattern: String,
    pub arguments: Vec<OpenSoundArgument>,
}

pub struct MessageModel {
    pub address: Seq<char>,
    pub args: Seq<ArgModel>,
}

pub open spec fn args_view(v: Seq<OpenSoundArgument>) -> Seq<ArgModel> {
    v.map_values(|a: OpenSoundArgument| a@)
}

impl View for OpenSoundMessage {
    type V = MessageModel;

    open spec fn view(&self) -> MessageModel {
        MessageModel { address: self.address_pattern@, args: args_view(self.arguments@) }
    }
}

/// An OSC bundle: a time tag and the messages it holds.
#[derive(Debug)]
pub struct OpenSoundBundle {
    pub timestamp: u64,
    pub messages: Vec<OpenSoundMessage>,
}

pub struct BundleModel {
    pub timestamp: u64,
    pub messages: Seq<MessageModel>,
}

pub open spec fn messages_view(v: Seq<OpenSoundMessage>) -> Seq<MessageModel> {
    v.map_values(|m: OpenSoundMessage| m@)
}

impl View for OpenSoundBundle {
    type V = BundleModel;

    open spec fn view(&self) -> BundleModel {
        BundleModel { timestamp: self.timestamp, messages: messages_view(self.messages@) }
    }
}

impl OpenSoundArgument {
    /// The text of a string argument.
    pub fn as_string(&self) -> (r: Option<String>)
        ensures
            match self@ {
                ArgModel::Str(s) => r is Some && r->0@ == s,
                _ => r is None,
            },
    {
        match self {
            OpenSoundArgument::String(s) => Some(s.clone()),
            _ => None,
        }
    }
}

/// `std::io::Error`, carried by network errors.
#[verifier::external_type_specification]
#[verifier::external_body]
pub struct ExIoError(std::io::Error);

/// The errors of the OSC layer.
#[derive(Debug)]
#[allow(inconsistent_fields)]
pub enum OpenSoundError {
    Network(std::io::Error),
    ParseError(String),
    InvalidArgumentType { expected: String, actual: String },
    AudioError(String),
    InvalidAddressPattern(String),
    MissingArgument(String),
    InvalidArgumentCount { expected: usize, actual: usize },
    UnsupportedMessageType(String),
    ConnectionError(String),
    SerializationError(String),
    DeserializationError(String),
}

/// Configuration of an OSC server or client.
#[derive(Debug)]
pub struct OpenSoundConfig {
    pub tcp_address: Option<String>,
    pub udp_address: Option<String>,
    pub sample_rate: u32,
    pub buffer_size: usize,
}

/// Default TCP port.
pub const DEFAULT_TCP_PORT: u16 = 8000;

/// Default UDP port.
pub const DEFAULT_UDP_PORT: u16 = 8001;

/// Default sample rate.
pub const DEFAULT_SAMPLE_RATE: u32 = 44100;

/// Default buffer size.
pub const DEFAULT_BUFFER_SIZE: usize = 1024;

/// `127.0.0.1:` followed by the port in decimal.
pub open spec fn local_address(port: u16) -> Seq<char> {
    "127.0.0.1:"@ + crate::text::decimal_digits(port as nat)
}

fn local_address_string(port: u16) -> (r: String)
    ensures
        r@ == local_address(port),
{
    let mut r = "127.0.0.1:".to_owned();
    let digits = decimal_string(port as u64);
    r.append(digits.as_str());
    r
}

/// The default configuration: TCP on local port 8000, UDP on local port
/// 8001, 44100 Hz and 1024-sample buffers.
pub fn default_config() -> (r: OpenSoundConfig)
    ensures
        r.tcp_address is Some && r.tcp_address->0@ == local_address(DEFAULT_TCP_PORT),
        r.udp_address is Some && r.udp_address->0@ == local_address(DEFAULT_UDP_PORT),
        r.sample_rate == DEFAULT_SAMPLE_RATE,
        r.buffer_size == DEFAULT_BUFFER_SIZE,
{
    OpenSoundConfig {
        tcp_address: Some(local_address_string(DEFAULT_TCP_PORT)),
        udp_address: Some(local_address_string(DEFAULT_UDP_PORT)),
        sample_rate: DEFAULT_SAMPLE_RATE,
        buffer_size: DEFAULT_BUFFER_SIZE,
    }
}

impl Default for OpenSoundConfig {
    fn default() -> (r: Self)
        ensures
            r.tcp_address is Some && r.tcp_address->0@ == local_address(DEFAULT_TCP_PORT),
            r.udp_address is Some && r.udp_address->0@ == local_address(DEFAULT_UDP_PORT),
            r.sample_rate == DEFAULT_SAMPLE_RATE,
            r.buffer_size == DEFAULT_BUFFER_SIZE,
    {
        default_config()
    }
}

} // verus!
