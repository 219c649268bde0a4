//! OSC packets written straight from integer, float and string arguments.
use vstd::prelude::*;
use crate::osc::types::{ArgModel, BundleModel, MessageModel};
use crate::osc::wire::{
    be_u32, bundle_tag, encode_arg, encode_args, encode_bundle, encode_bundle_element,
    encode_bundle_elements, encode_message, type_tag, type_tags,
};
use crate::osc::codec::{
    lemma_encode_args_take, lemma_encode_bundle_elements_take, write_bytes, write_string,
    write_u32, write_u64,
};
use crate::osc::laws::{arg_encodable, lemma_message_roundtrip, message_encodable, no_nul};
use crate::osc::wire::{Dec, dec_message};
use crate::text::string_from_chars;

verus! {

/// An argument of a hand-written packet: an integer, a float given by its
/// bits (`f32::to_bits`), or a string.
#[derive(Debug)]
pub enum OscArg {
    Int(i32),
    Float(u32),
    String(String),
}

impl View for OscArg {
    type V = ArgModel;

    open spec fn view(&self) -> ArgModel {
        match self {
            OscArg::Int(i) => ArgModel::Int32(*i),
            OscArg::Float(b) => ArgModel::Float32(*b),
            OscArg::String(s) => ArgModel::Str(s@),
        }
    }
}

pub open spec fn osc_args_view(args: Seq<OscArg>) -> Seq<ArgModel> {
    args.map_values(|a: OscArg| a@)
}

/// The message that an address and hand-written arguments stand for.
pub open spec fn mixed_message(address: Seq<char>, args: Seq<OscArg>) -> MessageModel {
    MessageModel { address, args: osc_args_view(args) }
}

pub open spec fn mixed_messages_view(ms: Seq<(&str, &[OscArg])>) -> Seq<MessageModel> {
    ms.map_values(|m: (&str, &[OscArg])| mixed_message(m.0@, m.1@))
}

fn osc_arg_tag(arg: &OscArg) -> (c: char)
    ensures
        c == type_tag(arg@),
{
    match arg {
        OscArg::Int(_) => 'i',
        OscArg::Float(_) => 'f',
        OscArg::String(_) => 's',
    }
}

fn write_osc_arg(buffer: &mut Vec<u8>, arg: &OscArg)
    ensures
        final(buffer)@ == old(buffer)@ + encode_arg(arg@),
{
    match arg {
        OscArg::Int(i) => write_u32(buffer, *i as u32),
        OscArg::Float(b) => write_u32(buffer, *b),
        OscArg::String(s) => write_string(buffer, s.as_str()),
    }
}

/// The bytes of a message to `address` with the given arguments: exactly
/// the encoding of that message.
pub fn create_osc_message_bytes_mixed(address: &str, args: &[OscArg]) -> (r: Vec<u8>)
    ensures
        r@ == encode_message(mixed_message(address@, args@)),
{
    let mut buffer: Vec<u8> = Vec::new();
    write_string(&mut buffer, address);
    let ghost model = osc_args_view(args@);
    let n = args.len();
    let mut tags: Vec<char> = Vec::new();
    tags.push(',');
    for i in 0..n
        invariant
            n == args.len(),
            model == osc_args_view(args@),
            tags@ == seq![','] + model.take(i as int).map_values(|a: ArgModel| type_tag(a)),
    {
        let c = osc_arg_tag(&args[i]);
        tags.push(c);
        assert(model.take(i + 1).map_values(|a: ArgModel| type_tag(a)) =~= model.take(
            i as int,
        ).map_values(|a: ArgModel| type_tag(a)).push(c));
        assert(tags@ =~= seq![','] + model.take(i + 1).map_values(|a: ArgModel| type_tag(a)));
    }
    assert(model.take(n as int) =~= model);
    assert(tags@ == type_tags(model));
    let tag_string = string_from_chars(&tags);
    write_string(&mut buffer, tag_string.as_str());
    let ghost head = buffer@;
    for i in 0..n
        invariant
            n == args.len(),
            model == osc_args_view(args@),
            buffer@ == head + encode_args(model.take(i as int)),
    {
        proof {
            lemma_encode_args_take(model, i as int);
        }
        write_osc_arg(&mut buffer, &args[i]);
        assert(buffer@ =~= head + encode_args(model.take(i + 1)));
    }
    assert(model.take(n as int) =~= model);
    buffer
}

/// The bytes of a bundle with the immediate time tag (1) holding one
/// message per address and argument list, in order; each message comes
/// after its length in four big-endian bytes.
pub fn create_osc_bundle_bytes_mixed(messages: &[(&str, &[OscArg])]) -> (r: Vec<u8>)
    ensures
        r@ == encode_bundle(BundleModel { timestamp: 1, messages: mixed_messages_view(messages@) }),
{
    let mut buffer: Vec<u8> = Vec::new();
    let tag = vec!['#', 'b', 'u', 'n', 'd', 'l', 'e'];
    assert(tag@ == bundle_tag());
    let tag_string = string_from_chars(&tag);
    write_string(&mut buffer, tag_string.as_str());
    write_u64(&mut buffer, 1);
    let ghost head = buffer@;
    let ghost ms = mixed_messages_view(messages@);
    let n = messages.len();
    for i in 0..n
        invariant
            n == messages.len(),
            ms == mixed_messages_view(messages@),
            buffer@ == head + encode_bundle_elements(ms.take(i as int)),
    {
        proof {
            lemma_encode_bundle_elements_take(ms, i as int);
        }
        let (address, args) = messages[i];
        let message_bytes = create_osc_message_bytes_mixed(address, args);
        assert(message_bytes@ == encode_message(ms[i as int]));
        write_u32(&mut buffer, message_bytes.len() as u32);
        write_bytes(&mut buffer, message_bytes.as_slice());
        assert(buffer@ =~= head + encode_bundle_elements(ms.take(i + 1)));
    }
    assert(ms.take(n as int) =~= ms);
    buffer
}

/// A packet written from hand-written arguments reads back as the message
/// it stands for, whenever the address and the strings hold no NUL.
pub proof fn lemma_mixed_message_roundtrip(address: Seq<char>, args: Seq<OscArg>)
    requires
        no_nul(address),
        forall|i: int| 0 <= i < args.len() ==> arg_encodable(#[trigger] args[i]@),
    ensures
        dec_message(encode_message(mixed_message(address, args))) == Dec::Value(
            mixed_message(address, args),
            encode_message(mixed_message(address, args)).len() as int,
        ),
{
    let m = mixed_message(address, args);
    assert forall|i: int| 0 <= i < m.args.len() implies arg_encodable(#[trigger] m.args[i]) by {
        assert(m.args[i] == args[i]@);
    }
    assert(message_encodable(m));
    lemma_message_roundtrip(m);
}

} // verus!
