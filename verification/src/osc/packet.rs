//! What a server makes of a received packet: the messages of a bundle, or
//! else the one message it holds.
use vstd::prelude::*;
use crate::osc::codec::{try_parse_bundle, try_parse_message};
use crate::osc::laws::{
    bundle_encodable, lemma_bundle_roundtrip, lemma_dec_string, lemma_message_roundtrip,
    message_encodable,
};
use crate::osc::types::{BundleModel, MessageModel, OpenSoundError, OpenSoundMessage, messages_view};
use crate::osc::wire::{
    Dec, bundle_tag, dec_bundle, dec_message, encode_bundle, encode_message, encode_string,
};

verus! {

/// The decoding of a packet: its messages, an error, or `Short` where a
/// fixed-size field runs past the end of the data.
pub enum PacketModel {
    Messages(Seq<MessageModel>),
    Fail(Seq<char>),
    Short,
}

/// A packet is first read as a bundle; if that fails it is read as a
/// message, and that message's error is the packet's.
pub open spec fn packet_decode(d: Seq<u8>) -> PacketModel {
    match dec_bundle(d) {
        Dec::Value(b, _) => PacketModel::Messages(b.messages),
        Dec::Fail(_) => match dec_message(d) {
            Dec::Value(m, _) => PacketModel::Messages(seq![m]),
            Dec::Fail(e) => PacketModel::Fail(e),
            Dec::Short => PacketModel::Short,
        },
        Dec::Short => PacketModel::Short,
    }
}

/// The messages of a received packet (see `packet_decode`), or `None`
/// where a fixed-size field runs past the end of the data.
pub fn decode_packet(data: &[u8]) -> (r: Option<Result<Vec<OpenSoundMessage>, OpenSoundError>>)
    ensures
        match packet_decode(data@) {
            PacketModel::Messages(ms) => r matches Some(Ok(v)) && messages_view(v@) == ms,
            PacketModel::Fail(e) => r matches Some(Err(OpenSoundError::ParseError(s))) && s@ == e,
            PacketModel::Short => r is None,
        },
{
    match try_parse_bundle(data) {
        Some(Ok(bundle)) => Some(Ok(bundle.messages)),
        Some(Err(_)) => match try_parse_message(data) {
            Some(Ok(message)) => {
                let ghost m = message@;
                let v = vec![message];
                assert(messages_view(v@) =~= seq![m]);
                Some(Ok(v))
            },
            Some(Err(e)) => Some(Err(e)),
            None => None,
        },
        None => None,
    }
}

/// A sent bundle arrives as its messages: the packet of an encodable
/// bundle decodes to the bundle's messages.
pub proof fn lemma_bundle_packet(b: BundleModel)
    requires
        bundle_encodable(b),
    ensures
        packet_decode(encode_bundle(b)) == PacketModel::Messages(b.messages),
{
    lemma_bundle_roundtrip(b);
}

/// A sent message arrives as itself: the packet of an encodable message
/// whose address is not `#bundle` decodes to that one message.
pub proof fn lemma_message_packet(m: MessageModel)
    requires
        message_encodable(m),
        m.address != bundle_tag(),
    ensures
        packet_decode(encode_message(m)) == PacketModel::Messages(seq![m]),
{
    lemma_message_roundtrip(m);
    let d = encode_message(m);
    assert(d.subrange(0, encode_string(m.address).len() as int) =~= encode_string(m.address));
    lemma_dec_string(d, 0, m.address);
}

} // verus!
