//! Encoding and decoding of OSC messages and bundles.
use vstd::prelude::*;
use vstd::utf8::{decode_utf8, valid_utf8};
use crate::osc::types::{
    ArgModel, BundleModel, MessageModel, OpenSoundArgument, OpenSoundBundle, OpenSoundError,
    OpenSoundMessage, args_view, messages_view,
};
use crate::osc::wire::{
    Dec, be_u32, be_u64, bundle_tag, dec_arg, dec_args, dec_blob, dec_bundle,
    dec_bundle_element, dec_bundle_elements, dec_message, dec_string, encode_arg, encode_args, encode_bundle,
    encode_bundle_element, encode_bundle_elements, encode_message, encode_string,
    first_nonzero_in, first_zero_from, min_int, pad_len, read_be_u32, read_be_u64, type_tag,
    type_tags, utf8_error_text, zeros,
};
use crate::text::{chars_of, decimal_string, str_eq, string_from_chars};
use vstd::string::{StringExecFns, StringSliceAdditionalSpecFns};

use crate::osc::laws::{lemma_bundle_aligned, lemma_message_aligned};

verus! {

/// `String::from_utf8`. Claimed: it succeeds exactly on the byte sequences
/// that are valid UTF-8 (`vstd::utf8::valid_utf8`), giving back the
/// characters they encode; on other bytes the error's `Display` text, named
/// `utf8_error_text`, comes back.
#[verifier::external_body]
fn string_from_utf8(bytes: Vec<u8>) -> (r: Result<String, String>)
    ensures
        match r {
            Ok(s) => valid_utf8(bytes@) && s@ == decode_utf8(bytes@),
            Err(m) => !valid_utf8(bytes@) && m@ == utf8_error_text(bytes@),
        },
{
    match String::from_utf8(bytes) {
        Ok(s) => Ok(s),
        Err(e) => Err(e.to_string()),
    }
}

/// The outcome of decoding at a position.
pub enum Decoded<T> {
    Value(T, usize),
    Fail(String),
    Short,
}

pub open spec fn dview<T: View>(r: Decoded<T>) -> Dec<T::V> {
    match r {
        Decoded::Value(t, q) => Dec::Value(t@, q as int),
        Decoded::Fail(m) => Dec::Fail(m@),
        Decoded::Short => Dec::Short,
    }
}

pub open spec fn value_pos_ok<T>(r: Decoded<T>, len: int) -> bool {
    match r {
        Decoded::Value(_, q) => q <= len,
        _ => true,
    }
}

fn find_zero(d: &[u8], p: usize) -> (z: usize)
    requires
        p <= d.len(),
    ensures
        z == first_zero_from(d@, p as int),
        p <= z <= d.len(),
{
    let mut i = p;
    while i < d.len() && d[i] != 0
        invariant
            p <= i <= d.len(),
            first_zero_from(d@, p as int) == first_zero_from(d@, i as int),
        decreases d.len() - i,
    {
        i = i + 1;
    }
    i
}

fn find_nonzero(d: &[u8], lo: usize, hi: usize) -> (nz: usize)
    requires
        lo <= hi <= d.len(),
    ensures
        nz == first_nonzero_in(d@, lo as int, hi as int),
        lo <= nz <= hi,
{
    let mut i = lo;
    while i < hi && d[i] == 0
        invariant
            lo <= i <= hi,
            hi <= d.len(),
            first_nonzero_in(d@, lo as int, hi as int) == first_nonzero_in(
                d@,
                i as int,
                hi as int,
            ),
        decreases hi - i,
    {
        i = i + 1;
    }
    i
}

fn read_u32_at(d: &[u8], p: usize) -> (r: u32)
    requires
        p + 4 <= d.len(),
    ensures
        r == read_be_u32(d@, p as int),
{
    ((d[p] as u32) << 24u32) | ((d[p + 1] as u32) << 16u32) | ((d[p + 2] as u32) << 8u32) | (d[p
        + 3] as u32)
}

fn copy_range(d: &[u8], lo: usize, hi: usize) -> (r: Vec<u8>)
    requires
        lo <= hi <= d.len(),
    ensures
        r@ == d@.subrange(lo as int, hi as int),
{
    let mut r: Vec<u8> = Vec::new();
    let mut i = lo;
    while i < hi
        invariant
            lo <= i <= hi <= d.len(),
            r@ == d@.subrange(lo as int, i as int),
        decreases hi - i,
    {
        r.push(d[i]);
        assert(r@ =~= d@.subrange(lo as int, i + 1));
        i = i + 1;
    }
    r
}

pub(crate) fn pad_len_exec(n: usize) -> (r: usize)
    ensures
        r == pad_len(n as int),
        r < 4,
{
    (4 - n % 4) % 4
}

fn min_usize(a: usize, b: usize) -> (r: usize)
    ensures
        r == min_int(a as int, b as int),
{
    if a <= b {
        a
    } else {
        b
    }
}

/// Decodes a padded, zero-ended string at `p`.
fn parse_string(d: &[u8], p: usize) -> (r: Decoded<String>)
    requires
        p <= d.len(),
    ensures
        dview(r) == dec_string(d@, p as int),
        value_pos_ok(r, d@.len() as int),
{
    if p >= d.len() {
        return Decoded::Fail("No data remaining for string".to_owned());
    }
    let z = find_zero(d, p);
    if z >= d.len() {
        return Decoded::Fail("String not null-terminated".to_owned());
    }
    let string_bytes = copy_range(d, p, z);
    let q = z + 1;
    // Pad to a 4-byte boundary, as far as the data goes.
    let pad = pad_len_exec(string_bytes.len() + 1);
    let hi = if pad <= d.len() - q { q + pad } else { d.len() };
    assert(hi == min_int(q + pad_len(string_bytes@.len() + 1int), d@.len() as int));
    let nz = find_nonzero(d, q, hi);
    if nz < hi {
        let mut m = "Invalid string padding: expected 0, got ".to_owned();
        let digits = decimal_string(d[nz] as u64);
        m.append(digits.as_str());
        return Decoded::Fail(m);
    }
    match string_from_utf8(string_bytes) {
        Ok(s) => Decoded::Value(s, hi),
        Err(e) => {
            let mut m = "Invalid UTF-8: ".to_owned();
            m.append(e.as_str());
            Decoded::Fail(m)
        },
    }
}

fn parse_blob(d: &[u8], p: usize) -> (r: Decoded<OpenSoundArgument>)
    requires
        p <= d.len(),
    ensures
        dview(r) == dec_blob(d@, p as int),
        value_pos_ok(r, d@.len() as int),
{
    if d.len() - p < 4 {
        return Decoded::Fail("Insufficient data for blob size".to_owned());
    }
    let size = read_u32_at(d, p) as usize;
    let q = p + 4;
    if size > d.len() - q {
        return Decoded::Fail("Blob size exceeds remaining data".to_owned());
    }
    let blob_data = copy_range(d, q, q + size);
    let r = q + size;
    let pad = pad_len_exec(size);
    let hi = if pad <= d.len() - r { r + pad } else { d.len() };
    if find_nonzero(d, r, hi) < hi {
        return Decoded::Fail("Invalid blob padding".to_owned());
    }
    Decoded::Value(OpenSoundArgument::Blob(blob_data), hi)
}

fn parse_argument(d: &[u8], p: usize, tag: char) -> (r: Decoded<OpenSoundArgument>)
    requires
        p <= d.len(),
    ensures
        dview(r) == dec_arg(d@, p as int, tag),
        value_pos_ok(r, d@.len() as int),
{
    if tag == 'i' {
        if d.len() - p < 4 {
            return Decoded::Short;
        }
        Decoded::Value(OpenSoundArgument::Int32(read_u32_at(d, p) as i32), p + 4)
    } else if tag == 'f' {
        if d.len() - p < 4 {
            return Decoded::Short;
        }
        Decoded::Value(OpenSoundArgument::Float32(read_u32_at(d, p)), p + 4)
    } else if tag == 's' {
        match parse_string(d, p) {
            Decoded::Value(s, q) => Decoded::Value(OpenSoundArgument::String(s), q),
            Decoded::Fail(m) => Decoded::Fail(m),
            Decoded::Short => Decoded::Short,
        }
    } else if tag == 'b' {
        parse_blob(d, p)
    } else if tag == 'T' {
        Decoded::Value(OpenSoundArgument::True, p)
    } else if tag == 'F' {
        Decoded::Value(OpenSoundArgument::False, p)
    } else if tag == 'N' {
        Decoded::Value(OpenSoundArgument::Null, p)
    } else if tag == 'I' {
        Decoded::Value(OpenSoundArgument::Impulse, p)
    } else {
        let mut m = "Unknown type tag: ".to_owned();
        let mut tv: Vec<char> = Vec::new();
        tv.push(tag);
        let ts = string_from_chars(&tv);
        m.append(ts.as_str());
        assert(tv@ =~= seq![tag]);
        Decoded::Fail(m)
    }
}

/// Decodes a message from the start of `d`.
#[verifier::loop_isolation(false)]
fn decode_message(d: &[u8]) -> (r: Decoded<OpenSoundMessage>)
    ensures
        dview(r) == dec_message(d@),
{
    let (address_pattern, p1) = match parse_string(d, 0) {
        Decoded::Value(s, q) => (s, q),
        Decoded::Fail(m) => return Decoded::Fail(m),
        Decoded::Short => return Decoded::Short,
    };
    let (type_tags_s, p2) = match parse_string(d, p1) {
        Decoded::Value(s, q) => (s, q),
        Decoded::Fail(m) => return Decoded::Fail(m),
        Decoded::Short => return Decoded::Short,
    };
    let tags = chars_of(type_tags_s.as_str());
    if tags.len() == 0 || tags[0] != ',' {
        let mut m = "Type tag string must start with ',' but got '".to_owned();
        m.append(type_tags_s.as_str());
        m.append("'");
        return Decoded::Fail(m);
    }
    let ghost t = type_tags_s@;
    let mut arguments: Vec<OpenSoundArgument> = Vec::new();
    let mut p = p2;
    let mut i: usize = 1;
    assert(t.drop_first().skip(0) =~= t.drop_first());
    assert(args_view(arguments@) =~= Seq::<ArgModel>::empty());
    while i < tags.len()
        invariant
            1 <= i <= tags.len(),
            tags@ == t,
            p <= d.len(),
            dec_args(d@, p2 as int, t.drop_first(), Seq::empty()) == dec_args(
                d@,
                p as int,
                t.drop_first().skip(i - 1),
                args_view(arguments@),
            ),
        decreases tags.len() - i,
    {
        let ghost acc = args_view(arguments@);
        let ghost rest = t.drop_first().skip(i - 1);
        assert(rest[0] == tags@[i as int]);
        assert(rest.drop_first() =~= t.drop_first().skip(i as int));
        match parse_argument(d, p, tags[i]) {
            Decoded::Value(a, q) => {
                let ghost am = a@;
                arguments.push(a);
                assert(args_view(arguments@) =~= acc.push(am));
                p = q;
            },
            Decoded::Fail(m) => return Decoded::Fail(m),
            Decoded::Short => return Decoded::Short,
        }
        i = i + 1;
    }
    assert(t.drop_first().skip(i - 1) =~= Seq::<char>::empty());
    Decoded::Value(OpenSoundMessage { address_pattern, arguments }, p)
}

/// Decodes an OSC message whose `i` and `f` arguments lie within the data
/// (`try_parse_message` takes any data).
pub fn parse_message(data: &[u8]) -> (r: Result<OpenSoundMessage, OpenSoundError>)
    requires
        !(dec_message(data@) is Short),
    ensures
        match dec_message(data@) {
            Dec::Value(m, _) => r matches Ok(msg) && msg@ == m,
            Dec::Fail(e) => r matches Err(OpenSoundError::ParseError(s)) && s@ == e,
            Dec::Short => false,
        },
{
    match decode_message(data) {
        Decoded::Value(m, _) => Ok(m),
        Decoded::Fail(e) => Err(OpenSoundError::ParseError(e)),
        Decoded::Short => Err(OpenSoundError::ParseError(String::new())),
    }
}

/// Decodes an OSC message, or gives `None` where a fixed-size argument runs
/// past the end of the data.
pub fn try_parse_message(data: &[u8]) -> (r: Option<Result<OpenSoundMessage, OpenSoundError>>)
    ensures
        match dec_message(data@) {
            Dec::Value(m, _) => r matches Some(Ok(msg)) && msg@ == m,
            Dec::Fail(e) => r matches Some(Err(OpenSoundError::ParseError(s))) && s@ == e,
            Dec::Short => r is None,
        },
{
    match decode_message(data) {
        Decoded::Value(m, _) => Some(Ok(m)),
        Decoded::Fail(e) => Some(Err(OpenSoundError::ParseError(e))),
        Decoded::Short => None,
    }
}

/// Decodes one length-prefixed message of a bundle at `p`.
fn decode_bundle_element(d: &[u8], p: usize) -> (r: Decoded<OpenSoundMessage>)
    requires
        p <= d.len(),
    ensures
        dview(r) == dec_bundle_element(d@, p as int),
        match r {
            Decoded::Value(_, q) => p < q <= d.len(),
            _ => true,
        },
{
    if d.len() - p < 4 {
        return Decoded::Short;
    }
    let size = read_u32_at(d, p) as usize;
    let q = p + 4;
    if size > d.len() - q {
        return Decoded::Fail("Message size exceeds remaining data".to_owned());
    }
    let message_data = copy_range(d, q, q + size);
    match decode_message(message_data.as_slice()) {
        Decoded::Value(m, _) => Decoded::Value(m, q + size),
        Decoded::Fail(e) => Decoded::Fail(e),
        Decoded::Short => Decoded::Short,
    }
}

fn decode_bundle(d: &[u8]) -> (r: Decoded<OpenSoundBundle>)
    ensures
        dview(r) == dec_bundle(d@),
{
    let (identifier, p1) = match parse_string(d, 0) {
        Decoded::Value(s, q) => (s, q),
        Decoded::Fail(m) => return Decoded::Fail(m),
        Decoded::Short => return Decoded::Short,
    };
    let ids = chars_of(identifier.as_str());
    let tag = vec!['#', 'b', 'u', 'n', 'd', 'l', 'e'];
    assert(tag@ == bundle_tag());
    if !crate::text::chars_eq(&ids, &tag) {
        return Decoded::Fail("Invalid bundle identifier".to_owned());
    }
    if d.len() - p1 < 8 {
        return Decoded::Short;
    }
    let hi_word = read_u32_at(d, p1) as u64;
    let lo_word = read_u32_at(d, p1 + 4) as u64;
    let timestamp = (hi_word << 32u64) | lo_word;
    assert(timestamp == read_be_u64(d@, p1 as int));
    let mut messages: Vec<OpenSoundMessage> = Vec::new();
    let mut p = p1 + 8;
    let ghost start = p;
    let ghost outcome = dec_bundle_elements(d@, start as int, Seq::empty());
    assert(dec_bundle(d@) == match outcome {
        Dec::Value(ms, q) => Dec::Value(
            BundleModel { timestamp: read_be_u64(d@, p1 as int), messages: ms },
            q,
        ),
        Dec::Fail(m) => Dec::Fail(m),
        Dec::Short => Dec::Short,
    });
    assert(messages_view(messages@) =~= Seq::<MessageModel>::empty());
    while p < d.len()
        invariant
            start <= p <= d.len(),
            outcome == dec_bundle_elements(d@, start as int, Seq::empty()),
            outcome == dec_bundle_elements(d@, p as int, messages_view(messages@)),
            dec_bundle(d@) == match outcome {
                Dec::Value(ms, q) => Dec::Value(
                    BundleModel { timestamp: read_be_u64(d@, p1 as int), messages: ms },
                    q,
                ),
                Dec::Fail(m) => Dec::Fail(m),
                Dec::Short => Dec::Short,
            },
            timestamp == read_be_u64(d@, p1 as int),
        decreases d.len() - p,
    {
        let ghost acc = messages_view(messages@);
        match decode_bundle_element(d, p) {
            Decoded::Value(m, q) => {
                let ghost mm = m@;
                messages.push(m);
                assert(messages_view(messages@) =~= acc.push(mm));
                p = q;
            },
            Decoded::Fail(e) => return Decoded::Fail(e),
            Decoded::Short => return Decoded::Short,
        }
    }
    Decoded::Value(OpenSoundBundle { timestamp, messages }, p)
}

/// Decodes an OSC bundle whose time tag, message lengths and fixed-size
/// arguments lie within the data (`try_parse_bundle` takes any data).
pub fn parse_bundle(data: &[u8]) -> (r: Result<OpenSoundBundle, OpenSoundError>)
    requires
        !(dec_bundle(data@) is Short),
    ensures
        match dec_bundle(data@) {
            Dec::Value(b, _) => r matches Ok(bundle) && bundle@ == b,
            Dec::Fail(e) => r matches Err(OpenSoundError::ParseError(s)) && s@ == e,
            Dec::Short => false,
        },
{
    match decode_bundle(data) {
        Decoded::Value(b, _) => Ok(b),
        Decoded::Fail(e) => Err(OpenSoundError::ParseError(e)),
        Decoded::Short => Err(OpenSoundError::ParseError(String::new())),
    }
}

/// Decodes an OSC bundle, or gives `None` where a fixed-size field runs
/// past the end of the data.
pub fn try_parse_bundle(data: &[u8]) -> (r: Option<Result<OpenSoundBundle, OpenSoundError>>)
    ensures
        match dec_bundle(data@) {
            Dec::Value(b, _) => r matches Some(Ok(bundle)) && bundle@ == b,
            Dec::Fail(e) => r matches Some(Err(OpenSoundError::ParseError(s))) && s@ == e,
            Dec::Short => r is None,
        },
{
    match decode_bundle(data) {
        Decoded::Value(b, _) => Some(Ok(b)),
        Decoded::Fail(e) => Some(Err(OpenSoundError::ParseError(e))),
        Decoded::Short => None,
    }
}

} // verus!

verus! {

pub(crate) proof fn lemma_encode_args_take(a: Seq<ArgModel>, i: int)
    requires
        0 <= i < a.len(),
    ensures
        encode_args(a.take(i + 1)) == encode_args(a.take(i)) + encode_arg(a[i]),
    decreases i,
{
    if i == 0 {
        assert(a.take(1).drop_first() =~= Seq::<ArgModel>::empty());
        assert(encode_args(a.take(0)) == Seq::<u8>::empty());
        assert(encode_args(a.take(1).drop_first()) == Seq::<u8>::empty());
        assert(a.take(1)[0] == a[0]);
        assert(encode_args(a.take(1)) =~= encode_arg(a[0]));
    } else {
        lemma_encode_args_take(a.drop_first(), i - 1);
        assert(a.take(i + 1).drop_first() =~= a.drop_first().take(i));
        assert(a.take(i).drop_first() =~= a.drop_first().take(i - 1));
        assert(encode_args(a.take(i + 1)) =~= encode_arg(a[0]) + encode_args(a.drop_first().take(i)));
        assert(encode_args(a.take(i)) =~= encode_arg(a[0]) + encode_args(a.drop_first().take(i - 1)));
    }
}

pub(crate) proof fn lemma_encode_bundle_elements_take(a: Seq<MessageModel>, i: int)
    requires
        0 <= i < a.len(),
    ensures
        encode_bundle_elements(a.take(i + 1)) == encode_bundle_elements(a.take(i))
            + encode_bundle_element(a[i]),
    decreases i,
{
    if i == 0 {
        assert(a.take(1).drop_first() =~= Seq::<MessageModel>::empty());
        assert(encode_bundle_elements(a.take(0)) == Seq::<u8>::empty());
        assert(encode_bundle_elements(a.take(1).drop_first()) == Seq::<u8>::empty());
        assert(a.take(1)[0] == a[0]);
        assert(encode_bundle_elements(a.take(1)) =~= encode_bundle_element(a[0]));
    } else {
        lemma_encode_bundle_elements_take(a.drop_first(), i - 1);
        assert(a.take(i + 1).drop_first() =~= a.drop_first().take(i));
        assert(a.take(i).drop_first() =~= a.drop_first().take(i - 1));
        assert(encode_bundle_elements(a.take(i + 1)) =~= encode_bundle_element(a[0])
            + encode_bundle_elements(a.drop_first().take(i)));
        assert(encode_bundle_elements(a.take(i)) =~= encode_bundle_element(a[0])
            + encode_bundle_elements(a.drop_first().take(i - 1)));
    }
}

pub(crate) fn write_bytes(buffer: &mut Vec<u8>, b: &[u8])
    ensures
        final(buffer)@ == old(buffer)@ + b@,
{
    let n = b.len();
    for i in 0..n
        invariant
            n == b.len(),
            buffer@ == old(buffer)@ + b@.take(i as int),
    {
        buffer.push(b[i]);
        assert(b@.take(i + 1) == b@.take(i as int).push(b@[i as int]));
        assert(buffer@ =~= old(buffer)@ + b@.take(i + 1));
    }
    assert(b@.take(n as int) =~= b@);
}

pub(crate) fn write_zeros(buffer: &mut Vec<u8>, n: usize)
    ensures
        final(buffer)@ == old(buffer)@ + zeros(n as int),
{
    for i in 0..n
        invariant
            buffer@ == old(buffer)@ + zeros(i as int),
    {
        buffer.push(0);
        assert(buffer@ =~= old(buffer)@ + zeros(i + 1));
    }
}

pub(crate) fn write_u32(buffer: &mut Vec<u8>, v: u32)
    ensures
        final(buffer)@ == old(buffer)@ + be_u32(v),
{
    buffer.push(((v >> 24u32) & 0xff) as u8);
    buffer.push(((v >> 16u32) & 0xff) as u8);
    buffer.push(((v >> 8u32) & 0xff) as u8);
    buffer.push((v & 0xff) as u8);
    assert(buffer@ =~= old(buffer)@ + be_u32(v));
}

pub(crate) fn write_u64(buffer: &mut Vec<u8>, v: u64)
    ensures
        final(buffer)@ == old(buffer)@ + be_u64(v),
{
    write_u32(buffer, (v >> 32u64) as u32);
    write_u32(buffer, (v & 0xffff_ffff) as u32);
    assert(buffer@ =~= old(buffer)@ + be_u64(v));
}

/// Writes a string: its UTF-8 bytes, a zero byte and zero padding.
pub(crate) fn write_string(buffer: &mut Vec<u8>, s: &str)
    ensures
        final(buffer)@ == old(buffer)@ + encode_string(s@),
{
    let bytes = s.as_bytes();
    write_bytes(buffer, bytes);
    buffer.push(0);
    let l = bytes.len();
    let padding = pad_len_exec(l % 4 + 1);
    assert(pad_len((l % 4 + 1) as int) == pad_len(l as int + 1));
    write_zeros(buffer, padding);
    assert(buffer@ =~= old(buffer)@ + encode_string(s@));
}

fn write_argument(buffer: &mut Vec<u8>, arg: &OpenSoundArgument)
    ensures
        final(buffer)@ == old(buffer)@ + encode_arg(arg@),
{
    match arg {
        OpenSoundArgument::Int32(i) => write_u32(buffer, *i as u32),
        OpenSoundArgument::Float32(f) => write_u32(buffer, *f),
        OpenSoundArgument::String(s) => write_string(buffer, s.as_str()),
        OpenSoundArgument::Blob(b) => {
            write_u32(buffer, b.len() as u32);
            write_bytes(buffer, b.as_slice());
            let padding = pad_len_exec(b.len());
            write_zeros(buffer, padding);
            assert(buffer@ =~= old(buffer)@ + encode_arg(arg@));
        },
        OpenSoundArgument::True | OpenSoundArgument::False | OpenSoundArgument::Null
        | OpenSoundArgument::Impulse => {
            assert(buffer@ =~= old(buffer)@ + encode_arg(arg@));
        },
    }
}

fn type_tag_exec(arg: &OpenSoundArgument) -> (c: char)
    ensures
        c == type_tag(arg@),
{
    match arg {
        OpenSoundArgument::Int32(_) => 'i',
        OpenSoundArgument::Float32(_) => 'f',
        OpenSoundArgument::String(_) => 's',
        OpenSoundArgument::Blob(_) => 'b',
        OpenSoundArgument::True => 'T',
        OpenSoundArgument::False => 'F',
        OpenSoundArgument::Null => 'N',
        OpenSoundArgument::Impulse => 'I',
    }
}

/// Encodes a message. It cannot fail.
pub fn serialize_message(message: &OpenSoundMessage) -> (r: Result<Vec<u8>, OpenSoundError>)
    ensures
        r matches Ok(v) && v@ == encode_message(message@),
        r matches Ok(v) && v@.len() % 4 == 0,
{
    let mut buffer: Vec<u8> = Vec::new();
    write_string(&mut buffer, message.address_pattern.as_str());
    let ghost args = args_view(message.arguments@);
    let n = message.arguments.len();
    let mut tags: Vec<char> = Vec::new();
    tags.push(',');
    for i in 0..n
        invariant
            n == message.arguments.len(),
            args == args_view(message.arguments@),
            tags@ == seq![','] + args.take(i as int).map_values(|a: ArgModel| type_tag(a)),
    {
        let c = type_tag_exec(&message.arguments[i]);
        tags.push(c);
        assert(args.take(i + 1).map_values(|a: ArgModel| type_tag(a)) =~= args.take(
            i as int,
        ).map_values(|a: ArgModel| type_tag(a)).push(c));
        assert(tags@ =~= seq![','] + args.take(i + 1).map_values(|a: ArgModel| type_tag(a)));
    }
    assert(args.take(n as int) =~= args);
    let tag_string = string_from_chars(&tags);
    write_string(&mut buffer, tag_string.as_str());
    let ghost head = buffer@;
    for i in 0..n
        invariant
            n == message.arguments.len(),
            args == args_view(message.arguments@),
            buffer@ == head + encode_args(args.take(i as int)),
    {
        proof {
            lemma_encode_args_take(args, i as int);
        }
        write_argument(&mut buffer, &message.arguments[i]);
        assert(buffer@ =~= head + encode_args(args.take(i + 1)));
    }
    assert(args.take(n as int) =~= args);
    proof {
        lemma_message_aligned(message@);
    }
    Ok(buffer)
}

/// Encodes a bundle. It cannot fail.
pub fn serialize_bundle(bundle: &OpenSoundBundle) -> (r: Result<Vec<u8>, OpenSoundError>)
    ensures
        r matches Ok(v) && v@ == encode_bundle(bundle@),
        r matches Ok(v) && v@.len() % 4 == 0,
{
    let mut buffer: Vec<u8> = Vec::new();
    let tag = vec!['#', 'b', 'u', 'n', 'd', 'l', 'e'];
    assert(tag@ == bundle_tag());
    let tag_string = string_from_chars(&tag);
    write_string(&mut buffer, tag_string.as_str());
    write_u64(&mut buffer, bundle.timestamp);
    let ghost head = buffer@;
    let ghost ms = messages_view(bundle.messages@);
    let n = bundle.messages.len();
    for i in 0..n
        invariant
            n == bundle.messages.len(),
            ms == messages_view(bundle.messages@),
            buffer@ == head + encode_bundle_elements(ms.take(i as int)),
    {
        proof {
            lemma_encode_bundle_elements_take(ms, i as int);
        }
        let message_data = match serialize_message(&bundle.messages[i]) {
            Ok(v) => v,
            Err(e) => return Err(e),
        };
        write_u32(&mut buffer, message_data.len() as u32);
        write_bytes(&mut buffer, message_data.as_slice());
        assert(buffer@ =~= head + encode_bundle_elements(ms.take(i + 1)));
    }
    assert(ms.take(n as int) =~= ms);
    proof {
        lemma_bundle_aligned(bundle@);
    }
    Ok(buffer)
}

} // verus!
