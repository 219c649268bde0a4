//! The OSC wire format, as mathematical functions: how values are encoded
//! into bytes, and what decoding a byte sequence gives.
//!
//! Strings are UTF-8, ended by a zero byte and padded with zero bytes to a
//! multiple of four. Integers and floats are four big-endian bytes; a blob
//! is its length as four big-endian bytes, its bytes, and zero padding. A
//! message is its address, its type tags (`,` and one letter per argument)
//! and its arguments. A bundle is `#bundle`, an eight-byte time tag and its
//! messages, each preceded by its length.
use vstd::prelude::*;
use vstd::utf8::{decode_utf8, encode_utf8, valid_utf8};
use crate::osc::types::{ArgModel, BundleModel, MessageModel};
use crate::text::decimal_digits;

verus! {

/// The number of zero bytes that pad `n` bytes to a multiple of four.
pub open spec fn pad_len(n: int) -> int {
    (4 - n % 4) % 4
}

pub open spec fn zeros(n: int) -> Seq<u8> {
    Seq::new(n as nat, |i: int| 0u8)
}

pub open spec fn be_u32(v: u32) -> Seq<u8> {
    seq![
        ((v >> 24u32) & 0xff) as u8,
        ((v >> 16u32) & 0xff) as u8,
        ((v >> 8u32) & 0xff) as u8,
        (v & 0xff) as u8,
    ]
}

pub open spec fn be_u64(v: u64) -> Seq<u8> {
    be_u32((v >> 32u64) as u32) + be_u32((v & 0xffff_ffff) as u32)
}

/// The big-endian `u32` in the four bytes of `d` from `p`.
pub open spec fn read_be_u32(d: Seq<u8>, p: int) -> u32 {
    ((d[p] as u32) << 24u32) | ((d[p + 1] as u32) << 16u32) | ((d[p + 2] as u32) << 8u32) | (d[p
        + 3] as u32)
}

pub open spec fn read_be_u64(d: Seq<u8>, p: int) -> u64 {
    ((read_be_u32(d, p) as u64) << 32u64) | (read_be_u32(d, p + 4) as u64)
}

pub open spec fn encode_string(s: Seq<char>) -> Seq<u8> {
    let b = encode_utf8(s);
    b + seq![0u8] + zeros(pad_len(b.len() + 1int))
}

pub open spec fn type_tag(a: ArgModel) -> char {
    match a {
        ArgModel::Int32(_) => 'i',
        ArgModel::Float32(_) => 'f',
        ArgModel::Str(_) => 's',
        ArgModel::Blob(_) => 'b',
        ArgModel::True => 'T',
        ArgModel::False => 'F',
        ArgModel::Null => 'N',
        ArgModel::Impulse => 'I',
    }
}

/// The type tag string of a message: `,` and one tag per argument.
pub open spec fn type_tags(args: Seq<ArgModel>) -> Seq<char> {
    seq![','] + args.map_values(|a: ArgModel| type_tag(a))
}

pub open spec fn encode_arg(a: ArgModel) -> Seq<u8> {
    match a {
        ArgModel::Int32(i) => be_u32(i as u32),
        ArgModel::Float32(b) => be_u32(b),
        ArgModel::Str(s) => encode_string(s),
        ArgModel::Blob(b) => be_u32(b.len() as u32) + b + zeros(pad_len(b.len() as int)),
        _ => Seq::empty(),
    }
}

pub open spec fn encode_args(args: Seq<ArgModel>) -> Seq<u8>
    decreases args.len(),
{
    if args.len() == 0 {
        Seq::empty()
    } else {
        encode_arg(args[0]) + encode_args(args.drop_first())
    }
}

pub open spec fn encode_message(m: MessageModel) -> Seq<u8> {
    encode_string(m.address) + encode_string(type_tags(m.args)) + encode_args(m.args)
}

pub open spec fn bundle_tag() -> Seq<char> {
    seq!['#', 'b', 'u', 'n', 'd', 'l', 'e']
}

/// A message inside a bundle: its length, then its bytes.
pub open spec fn encode_bundle_element(m: MessageModel) -> Seq<u8> {
    let e = encode_message(m);
    be_u32(e.len() as u32) + e
}

pub open spec fn encode_bundle_elements(ms: Seq<MessageModel>) -> Seq<u8>
    decreases ms.len(),
{
    if ms.len() == 0 {
        Seq::empty()
    } else {
        encode_bundle_element(ms[0]) + encode_bundle_elements(ms.drop_first())
    }
}

pub open spec fn encode_bundle(b: BundleModel) -> Seq<u8> {
    encode_string(bundle_tag()) + be_u64(b.timestamp) + encode_bundle_elements(b.messages)
}

/// The outcome of decoding from a position: a value and the position after
/// it, an error message, or `Short` where a fixed-size number runs past the
/// end of the data.
pub enum Dec<T> {
    Value(T, int),
    Fail(Seq<char>),
    Short,
}

/// The first position from `i` on that holds a zero byte, or `d.len()`.
pub open spec fn first_zero_from(d: Seq<u8>, i: int) -> int
    decreases d.len() - i,
{
    if i < 0 || i >= d.len() {
        d.len() as int
    } else if d[i] == 0 {
        i
    } else {
        first_zero_from(d, i + 1)
    }
}

/// The first position in `[lo, hi)` that holds a non-zero byte, or `hi`.
pub open spec fn first_nonzero_in(d: Seq<u8>, lo: int, hi: int) -> int
    decreases hi - lo,
{
    if lo >= hi {
        hi
    } else if d[lo] != 0 {
        lo
    } else {
        first_nonzero_in(d, lo + 1, hi)
    }
}

pub open spec fn min_int(a: int, b: int) -> int {
    if a <= b {
        a
    } else {
        b
    }
}

/// What `String::from_utf8`'s error says about bytes that are not UTF-8
/// (its `Display`), a function of the bytes.
pub uninterp spec fn utf8_error_text(b: Seq<u8>) -> Seq<char>;

/// Decodes a padded, zero-ended string at `p`. Padding bytes past the end
/// of the data are not required.
pub open spec fn dec_string(d: Seq<u8>, p: int) -> Dec<Seq<char>> {
    if p >= d.len() {
        Dec::Fail("No data remaining for string"@)
    } else {
        let z = first_zero_from(d, p);
        if z >= d.len() {
            Dec::Fail("String not null-terminated"@)
        } else {
            let sb = d.subrange(p, z);
            let q = z + 1;
            let hi = min_int(q + pad_len(sb.len() + 1int), d.len() as int);
            let nz = first_nonzero_in(d, q, hi);
            if nz < hi {
                Dec::Fail(
                    "Invalid string padding: expected 0, got "@ + decimal_digits(d[nz] as nat),
                )
            } else if valid_utf8(sb) {
                Dec::Value(decode_utf8(sb), hi)
            } else {
                Dec::Fail("Invalid UTF-8: "@ + utf8_error_text(sb))
            }
        }
    }
}

pub open spec fn dec_blob(d: Seq<u8>, p: int) -> Dec<ArgModel> {
    if d.len() - p < 4 {
        Dec::Fail("Insufficient data for blob size"@)
    } else {
        let size = read_be_u32(d, p) as int;
        let q = p + 4;
        if size > d.len() - q {
            Dec::Fail("Blob size exceeds remaining data"@)
        } else {
            let r = q + size;
            let hi = min_int(r + pad_len(size), d.len() as int);
            if first_nonzero_in(d, r, hi) < hi {
                Dec::Fail("Invalid blob padding"@)
            } else {
                Dec::Value(ArgModel::Blob(d.subrange(q, r)), hi)
            }
        }
    }
}

pub open spec fn dec_arg(d: Seq<u8>, p: int, tag: char) -> Dec<ArgModel> {
    if tag == 'i' {
        if p + 4 > d.len() {
            Dec::Short
        } else {
            Dec::Value(ArgModel::Int32(read_be_u32(d, p) as i32), p + 4)
        }
    } else if tag == 'f' {
        if p + 4 > d.len() {
            Dec::Short
        } else {
            Dec::Value(ArgModel::Float32(read_be_u32(d, p)), p + 4)
        }
    } else if tag == 's' {
        match dec_string(d, p) {
            Dec::Value(s, q) => Dec::Value(ArgModel::Str(s), q),
            Dec::Fail(m) => Dec::Fail(m),
            Dec::Short => Dec::Short,
        }
    } else if tag == 'b' {
        dec_blob(d, p)
    } else if tag == 'T' {
        Dec::Value(ArgModel::True, p)
    } else if tag == 'F' {
        Dec::Value(ArgModel::False, p)
    } else if tag == 'N' {
        Dec::Value(ArgModel::Null, p)
    } else if tag == 'I' {
        Dec::Value(ArgModel::Impulse, p)
    } else {
        Dec::Fail("Unknown type tag: "@ + seq![tag])
    }
}

/// Decodes one argument per tag, appending to `acc`.
pub open spec fn dec_args(d: Seq<u8>, p: int, tags: Seq<char>, acc: Seq<ArgModel>) -> Dec<Seq<ArgModel>>
    decreases tags.len(),
{
    if tags.len() == 0 {
        Dec::Value(acc, p)
    } else {
        match dec_arg(d, p, tags[0]) {
            Dec::Value(a, q) => dec_args(d, q, tags.drop_first(), acc.push(a)),
            Dec::Fail(m) => Dec::Fail(m),
            Dec::Short => Dec::Short,
        }
    }
}

/// Decodes a message from the start of `d`.
pub open spec fn dec_message(d: Seq<u8>) -> Dec<MessageModel> {
    match dec_string(d, 0) {
        Dec::Fail(m) => Dec::Fail(m),
        Dec::Short => Dec::Short,
        Dec::Value(address, p1) => match dec_string(d, p1) {
            Dec::Fail(m) => Dec::Fail(m),
            Dec::Short => Dec::Short,
            Dec::Value(tags, p2) => if tags.len() == 0 || tags[0] != ',' {
                Dec::Fail("Type tag string must start with ',' but got '"@ + tags + "'"@)
            } else {
                match dec_args(d, p2, tags.drop_first(), Seq::empty()) {
                    Dec::Value(args, q) => Dec::Value(MessageModel { address, args }, q),
                    Dec::Fail(m) => Dec::Fail(m),
                    Dec::Short => Dec::Short,
                }
            },
        },
    }
}

/// Decodes one length-prefixed message of a bundle at `p`.
pub open spec fn dec_bundle_element(d: Seq<u8>, p: int) -> Dec<MessageModel> {
    if p + 4 > d.len() {
        Dec::Short
    } else {
        let size = read_be_u32(d, p) as int;
        let q = p + 4;
        if size > d.len() - q {
            Dec::Fail("Message size exceeds remaining data"@)
        } else {
            match dec_message(d.subrange(q, q + size)) {
                Dec::Value(m, _) => Dec::Value(m, q + size),
                Dec::Fail(e) => Dec::Fail(e),
                Dec::Short => Dec::Short,
            }
        }
    }
}

/// Decodes the length-prefixed messages of a bundle from `p` to the end.
pub open spec fn dec_bundle_elements(d: Seq<u8>, p: int, acc: Seq<MessageModel>) -> Dec<Seq<MessageModel>>
    decreases d.len() - p,
{
    if p < 0 || p >= d.len() {
        Dec::Value(acc, p)
    } else {
        match dec_bundle_element(d, p) {
            Dec::Value(m, q) => if p < q {
                dec_bundle_elements(d, q, acc.push(m))
            } else {
                Dec::Value(acc.push(m), q)
            },
            Dec::Fail(e) => Dec::Fail(e),
            Dec::Short => Dec::Short,
        }
    }
}

pub open spec fn dec_bundle(d: Seq<u8>) -> Dec<BundleModel> {
    match dec_string(d, 0) {
        Dec::Fail(m) => Dec::Fail(m),
        Dec::Short => Dec::Short,
        Dec::Value(id, p1) => if id != bundle_tag() {
            Dec::Fail("Invalid bundle identifier"@)
        } else if p1 + 8 > d.len() {
            Dec::Short
        } else {
            match dec_bundle_elements(d, p1 + 8, Seq::empty()) {
                Dec::Value(ms, q) => Dec::Value(
                    BundleModel { timestamp: read_be_u64(d, p1), messages: ms },
                    q,
                ),
                Dec::Fail(m) => Dec::Fail(m),
                Dec::Short => Dec::Short,
            }
        },
    }
}

} // verus!
