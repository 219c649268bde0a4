//! What the wire format promises: decoding what was encoded gives the
//! message or bundle back.
use vstd::prelude::*;
use vstd::utf8::{
    char_is_scalar, decode_utf8, encode_scalar, encode_utf8, encode_utf8_decode_utf8,
    encode_utf8_valid_utf8, has_width_1_encoding, has_width_2_encoding, has_width_3_encoding,
    is_scalar, last_continuation_byte, leading_byte_width_1, leading_byte_width_2,
    leading_byte_width_3, leading_byte_width_4, second_last_continuation_byte,
    third_last_continuation_byte, valid_utf8,
};
use crate::osc::types::{ArgModel, BundleModel, MessageModel};
use crate::osc::wire::{
    Dec, be_u32, be_u64, bundle_tag, dec_arg, dec_args, dec_blob, dec_bundle,
    dec_bundle_element, dec_bundle_elements, dec_message, dec_string, encode_arg, encode_args,
    encode_bundle, encode_bundle_element, encode_bundle_elements, encode_message, encode_string,
    first_nonzero_in, first_zero_from, min_int, pad_len, read_be_u32, read_be_u64, type_tag,
    type_tags, zeros,
};

verus! {

/// The text holds no NUL character (a zero byte ends an OSC string).
pub open spec fn no_nul(s: Seq<char>) -> bool {
    forall|i: int| 0 <= i < s.len() ==> s[i] != '\0'
}

/// An argument that survives the wire: strings without NUL, blobs whose
/// length fits the four-byte length field.
pub open spec fn arg_encodable(a: ArgModel) -> bool {
    match a {
        ArgModel::Str(s) => no_nul(s),
        ArgModel::Blob(b) => b.len() <= u32::MAX,
        _ => true,
    }
}

pub open spec fn message_encodable(m: MessageModel) -> bool {
    &&& no_nul(m.address)
    &&& forall|i: int| 0 <= i < m.args.len() ==> arg_encodable(#[trigger] m.args[i])
}

/// Every message of the bundle is encodable and its encoding's length fits
/// the four-byte length field.
pub open spec fn bundle_encodable(b: BundleModel) -> bool {
    forall|i: int|
        0 <= i < b.messages.len() ==> message_encodable(#[trigger] b.messages[i])
            && encode_message(b.messages[i]).len() <= u32::MAX
}

proof fn lemma_scalar_bytes_nonzero(c: u32)
    requires
        is_scalar(c),
        c != 0,
    ensures
        forall|i: int| 0 <= i < encode_scalar(c).len() ==> encode_scalar(c)[i] != 0,
{
    if has_width_1_encoding(c) {
        assert(leading_byte_width_1(c) != 0) by (bit_vector)
            requires
                c != 0 && c <= 0x7F,
        ;
    } else {
        assert(last_continuation_byte(c) != 0) by (bit_vector);
        assert(second_last_continuation_byte(c) != 0) by (bit_vector);
        assert(third_last_continuation_byte(c) != 0) by (bit_vector);
        assert(leading_byte_width_2(c) != 0) by (bit_vector);
        assert(leading_byte_width_3(c) != 0) by (bit_vector);
        assert(leading_byte_width_4(c) != 0) by (bit_vector);
    }
}

proof fn lemma_utf8_nonzero(s: Seq<char>)
    requires
        no_nul(s),
    ensures
        forall|i: int| 0 <= i < encode_utf8(s).len() ==> encode_utf8(s)[i] != 0,
    decreases s.len(),
{
    if s.len() > 0 {
        char_is_scalar(s[0]);
        let u = s[0] as u32;
        vstd::utf8::char_u32_cast(s[0], u);
        assert(u != 0) by {
            if u == 0 {
                assert(('\0' as u32) == 0);
                vstd::utf8::char_u32_cast('\0', 0);
                assert(s[0] == '\0');
            }
        }
        lemma_scalar_bytes_nonzero(s[0] as u32);
        lemma_utf8_nonzero(s.drop_first());
        let a = encode_scalar(s[0] as u32);
        let b = encode_utf8(s.drop_first());
        assert(encode_utf8(s) == a + b);
        assert forall|i: int| 0 <= i < encode_utf8(s).len() implies encode_utf8(s)[i] != 0 by {
            if i < a.len() {
                assert(encode_utf8(s)[i] == a[i]);
            } else {
                assert(encode_utf8(s)[i] == b[i - a.len()]);
            }
        }
    }
}

proof fn lemma_first_zero(d: Seq<u8>, i: int, z: int)
    requires
        0 <= i <= z < d.len(),
        d[z] == 0,
        forall|k: int| i <= k < z ==> d[k] != 0,
    ensures
        first_zero_from(d, i) == z,
    decreases z - i,
{
    if i < z {
        lemma_first_zero(d, i + 1, z);
    }
}

proof fn lemma_first_nonzero_none(d: Seq<u8>, lo: int, hi: int)
    requires
        0 <= lo <= hi <= d.len(),
        forall|k: int| lo <= k < hi ==> d[k] == 0,
    ensures
        first_nonzero_in(d, lo, hi) == hi,
    decreases hi - lo,
{
    if lo < hi {
        lemma_first_nonzero_none(d, lo + 1, hi);
    }
}

proof fn lemma_read_be_u32(d: Seq<u8>, p: int, v: u32)
    requires
        0 <= p,
        p + 4 <= d.len(),
        d.subrange(p, p + 4) == be_u32(v),
    ensures
        read_be_u32(d, p) == v,
{
    let b0 = d[p];
    let b1 = d[p + 1];
    let b2 = d[p + 2];
    let b3 = d[p + 3];
    assert(b0 == d.subrange(p, p + 4)[0]);
    assert(b1 == d.subrange(p, p + 4)[1]);
    assert(b2 == d.subrange(p, p + 4)[2]);
    assert(b3 == d.subrange(p, p + 4)[3]);
    assert(((b0 as u32) << 24u32) | ((b1 as u32) << 16u32) | ((b2 as u32) << 8u32) | (b3 as u32)
        == v) by (bit_vector)
        requires
            b0 == ((v >> 24u32) & 0xff) as u8,
            b1 == ((v >> 16u32) & 0xff) as u8,
            b2 == ((v >> 8u32) & 0xff) as u8,
            b3 == (v & 0xff) as u8,
    ;
}

proof fn lemma_read_be_u64(d: Seq<u8>, p: int, v: u64)
    requires
        0 <= p,
        p + 8 <= d.len(),
        d.subrange(p, p + 8) == be_u64(v),
    ensures
        read_be_u64(d, p) == v,
{
    let hi = (v >> 32u64) as u32;
    let lo = (v & 0xffff_ffff) as u32;
    assert(d.subrange(p, p + 4) =~= be_u32(hi)) by {
        assert forall|k: int| 0 <= k < 4 implies d.subrange(p, p + 4)[k] == be_u32(hi)[k] by {
            assert(d.subrange(p, p + 8)[k] == be_u64(v)[k]);
        }
    }
    assert(d.subrange(p + 4, p + 8) =~= be_u32(lo)) by {
        assert forall|k: int| 0 <= k < 4 implies d.subrange(p + 4, p + 8)[k] == be_u32(lo)[k] by {
            assert(d.subrange(p, p + 8)[k + 4] == be_u64(v)[k + 4]);
        }
    }
    lemma_read_be_u32(d, p, hi);
    lemma_read_be_u32(d, p + 4, lo);
    assert(((hi as u64) << 32u64) | (lo as u64) == v) by (bit_vector)
        requires
            hi == (v >> 32u64) as u32,
            lo == (v & 0xffff_ffff) as u32,
    ;
}

/// Decoding an encoded string at its position gives it back, with the
/// position after its padding.
pub(crate) proof fn lemma_dec_string(d: Seq<u8>, p: int, s: Seq<char>)
    requires
        no_nul(s),
        0 <= p,
        p + encode_string(s).len() <= d.len(),
        d.subrange(p, p + encode_string(s).len()) == encode_string(s),
    ensures
        dec_string(d, p) == Dec::Value(s, p + encode_string(s).len()),
{
    let e = encode_string(s);
    let b = encode_utf8(s);
    let z = p + b.len();
    lemma_utf8_nonzero(s);
    assert forall|k: int| p <= k < z implies d[k] != 0 by {
        assert(d[k] == d.subrange(p, p + e.len())[k - p]);
        assert(e[k - p] == b[k - p]);
    }
    assert(d[z] == 0) by {
        assert(d[z] == d.subrange(p, p + e.len())[b.len() as int]);
    }
    lemma_first_zero(d, p, z);
    assert(d.subrange(p, z) =~= b) by {
        assert forall|k: int| 0 <= k < b.len() implies d.subrange(p, z)[k] == b[k] by {
            assert(d.subrange(p, p + e.len())[k] == e[k]);
        }
    }
    let q = z + 1;
    let hi = q + pad_len(b.len() + 1int);
    assert(hi == p + e.len());
    assert(min_int(q + pad_len(b.len() + 1int), d.len() as int) == hi);
    assert forall|k: int| q <= k < hi implies d[k] == 0 by {
        assert(d[k] == d.subrange(p, p + e.len())[k - p]);
        assert(e[k - p] == zeros(pad_len(b.len() + 1int))[k - q]);
    }
    lemma_first_nonzero_none(d, q, hi);
    encode_utf8_valid_utf8(s);
    encode_utf8_decode_utf8(s);
}

proof fn lemma_dec_arg(d: Seq<u8>, p: int, a: ArgModel)
    requires
        arg_encodable(a),
        0 <= p,
        p + encode_arg(a).len() <= d.len(),
        d.subrange(p, p + encode_arg(a).len()) == encode_arg(a),
    ensures
        dec_arg(d, p, type_tag(a)) == Dec::Value(a, p + encode_arg(a).len()),
{
    match a {
        ArgModel::Int32(i) => {
            lemma_read_be_u32(d, p, i as u32);
            assert((i as u32) as i32 == i) by (bit_vector);
        },
        ArgModel::Float32(b) => {
            lemma_read_be_u32(d, p, b);
        },
        ArgModel::Str(s) => {
            lemma_dec_string(d, p, s);
        },
        ArgModel::Blob(b) => {
            let e = encode_arg(a);
            let n = b.len() as u32;
            assert(n == b.len());
            assert(d.subrange(p, p + 4) =~= be_u32(n)) by {
                assert forall|k: int| 0 <= k < 4 implies d.subrange(p, p + 4)[k] == be_u32(n)[k] by {
                    assert(d.subrange(p, p + e.len())[k] == e[k]);
                }
            }
            lemma_read_be_u32(d, p, n);
            let q = p + 4;
            let r = q + b.len();
            assert(d.subrange(q, r) =~= b) by {
                assert forall|k: int| 0 <= k < b.len() implies d.subrange(q, r)[k] == b[k] by {
                    assert(d.subrange(p, p + e.len())[k + 4] == e[k + 4]);
                }
            }
            let hi = r + pad_len(b.len() as int);
            assert(hi == p + e.len());
            assert forall|k: int| r <= k < hi implies d[k] == 0 by {
                assert(d[k] == d.subrange(p, p + e.len())[k - p]);
                assert(e[k - p] == zeros(pad_len(b.len() as int))[k - r]);
            }
            lemma_first_nonzero_none(d, r, hi);
            assert(dec_blob(d, p) == Dec::Value(ArgModel::Blob(b), hi));
        },
        _ => {},
    }
}

proof fn lemma_dec_args(d: Seq<u8>, p: int, args: Seq<ArgModel>, acc: Seq<ArgModel>)
    requires
        forall|i: int| 0 <= i < args.len() ==> arg_encodable(#[trigger] args[i]),
        0 <= p,
        p + encode_args(args).len() <= d.len(),
        d.subrange(p, p + encode_args(args).len()) == encode_args(args),
    ensures
        dec_args(d, p, args.map_values(|a: ArgModel| type_tag(a)), acc) == Dec::Value(
            acc + args,
            p + encode_args(args).len(),
        ),
    decreases args.len(),
{
    let tags = args.map_values(|a: ArgModel| type_tag(a));
    if args.len() == 0 {
        assert(acc + args =~= acc);
    } else {
        let a = args[0];
        let ea = encode_arg(a);
        let rest = args.drop_first();
        let er = encode_args(rest);
        let all = encode_args(args);
        assert(all == ea + er);
        assert(d.subrange(p, p + ea.len()) =~= ea) by {
            assert forall|k: int| 0 <= k < ea.len() implies d.subrange(p, p + ea.len())[k] == ea[k] by {
                assert(d.subrange(p, p + all.len())[k] == all[k]);
            }
        }
        lemma_dec_arg(d, p, a);
        let q = p + ea.len();
        assert(d.subrange(q, q + er.len()) =~= er) by {
            assert forall|k: int| 0 <= k < er.len() implies d.subrange(q, q + er.len())[k] == er[k] by {
                assert(d.subrange(p, p + all.len())[k + ea.len()] == all[k + ea.len()]);
            }
        }
        assert forall|i: int| 0 <= i < rest.len() implies arg_encodable(#[trigger] rest[i]) by {
            assert(rest[i] == args[i + 1]);
        }
        lemma_dec_args(d, q, rest, acc.push(a));
        assert(tags[0] == type_tag(a));
        assert(tags.drop_first() =~= rest.map_values(|a: ArgModel| type_tag(a)));
        assert(acc.push(a) + rest =~= acc + args);
    }
}

proof fn lemma_tags_no_nul(args: Seq<ArgModel>)
    ensures
        no_nul(type_tags(args)),
{
    let t = type_tags(args);
    assert forall|i: int| 0 <= i < t.len() implies t[i] != '\0' by {
        if i > 0 {
            assert(t[i] == type_tag(args[i - 1]));
        }
    }
}

/// Decoding an encoded message gives the message back: for every message
/// whose address and strings hold no NUL and whose blobs' lengths fit in
/// 32 bits, `parse_message(serialize_message(m))` is `m`.
pub proof fn lemma_message_roundtrip(m: MessageModel)
    requires
        message_encodable(m),
    ensures
        dec_message(encode_message(m)) == Dec::Value(m, encode_message(m).len() as int),
{
    let d = encode_message(m);
    let e1 = encode_string(m.address);
    let tags = type_tags(m.args);
    let e2 = encode_string(tags);
    let ea = encode_args(m.args);
    assert(d == e1 + e2 + ea);
    assert(d.subrange(0, e1.len() as int) =~= e1);
    lemma_dec_string(d, 0, m.address);
    lemma_tags_no_nul(m.args);
    assert(d.subrange(e1.len() as int, (e1.len() + e2.len()) as int) =~= e2);
    lemma_dec_string(d, e1.len() as int, tags);
    let p2 = (e1.len() + e2.len()) as int;
    assert(d.subrange(p2, p2 + ea.len()) =~= ea);
    lemma_dec_args(d, p2, m.args, Seq::empty());
    assert(tags.drop_first() =~= m.args.map_values(|a: ArgModel| type_tag(a)));
    assert(Seq::<ArgModel>::empty() + m.args =~= m.args);
    assert(tags[0] == ',');
}

/// The first element of encoded bundle elements decodes to its message,
/// and the rest of the data is the encoding of the other messages.
proof fn lemma_dec_first_bundle_element(d: Seq<u8>, p: int, ms: Seq<MessageModel>)
    requires
        ms.len() > 0,
        message_encodable(ms[0]),
        encode_message(ms[0]).len() <= u32::MAX,
        0 <= p,
        p + encode_bundle_elements(ms).len() == d.len(),
        d.subrange(p, d.len() as int) == encode_bundle_elements(ms),
    ensures
        dec_bundle_element(d, p) == Dec::Value(
            ms[0],
            p + encode_bundle_element(ms[0]).len(),
        ),
        d.subrange(p + encode_bundle_element(ms[0]).len(), d.len() as int) == encode_bundle_elements(
            ms.drop_first(),
        ),
{
    let m = ms[0];
    let e = encode_message(m);
    let el = encode_bundle_element(m);
    let er = encode_bundle_elements(ms.drop_first());
    let all = encode_bundle_elements(ms);
    assert(all == el + er);
    let n = e.len() as u32;
    assert(n == e.len());
    assert(d.subrange(p, p + 4) =~= be_u32(n)) by {
        assert forall|k: int| 0 <= k < 4 implies d.subrange(p, p + 4)[k] == be_u32(n)[k] by {
            assert(d.subrange(p, d.len() as int)[k] == all[k]);
        }
    }
    lemma_read_be_u32(d, p, n);
    let q = p + 4;
    assert(d.subrange(q, q + e.len()) =~= e) by {
        assert forall|k: int| 0 <= k < e.len() implies d.subrange(q, q + e.len())[k] == e[k] by {
            assert(d.subrange(p, d.len() as int)[k + 4] == all[k + 4]);
        }
    }
    lemma_message_roundtrip(m);
    let r = q + e.len();
    assert(dec_bundle_element(d, p) == Dec::Value(m, r));
    assert(d.subrange(r, d.len() as int) =~= er) by {
        assert forall|k: int| 0 <= k < er.len() implies d.subrange(r, d.len() as int)[k] == er[k] by {
            assert(d.subrange(p, d.len() as int)[k + el.len()] == all[k + el.len()]);
        }
    }
}

proof fn lemma_dec_bundle_elements(d: Seq<u8>, p: int, ms: Seq<MessageModel>, acc: Seq<MessageModel>)
    requires
        forall|i: int|
            0 <= i < ms.len() ==> message_encodable(#[trigger] ms[i]) && encode_message(
                ms[i],
            ).len() <= u32::MAX,
        0 <= p,
        p + encode_bundle_elements(ms).len() == d.len(),
        d.subrange(p, d.len() as int) == encode_bundle_elements(ms),
    ensures
        dec_bundle_elements(d, p, acc) == Dec::Value(acc + ms, d.len() as int),
    decreases ms.len(),
{
    if ms.len() == 0 {
        assert(acc + ms =~= acc);
    } else {
        let m = ms[0];
        let rest = ms.drop_first();
        assert(encode_bundle_elements(ms) == encode_bundle_element(m) + encode_bundle_elements(rest));
        lemma_dec_first_bundle_element(d, p, ms);
        let r = p + encode_bundle_element(m).len();
        assert forall|i: int|
            0 <= i < rest.len() implies message_encodable(#[trigger] rest[i]) && encode_message(
                rest[i],
            ).len() <= u32::MAX by {
            assert(rest[i] == ms[i + 1]);
        }
        lemma_dec_bundle_elements(d, r, rest, acc.push(m));
        assert(acc.push(m) + rest =~= acc + ms);
    }
}

/// Decoding an encoded bundle gives the bundle back: for every bundle whose
/// messages are encodable and whose encodings' lengths fit in 32 bits,
/// `parse_bundle(serialize_bundle(b))` is `b`.
pub proof fn lemma_bundle_roundtrip(b: BundleModel)
    requires
        bundle_encodable(b),
    ensures
        dec_bundle(encode_bundle(b)) == Dec::Value(b, encode_bundle(b).len() as int),
{
    let d = encode_bundle(b);
    let e1 = encode_string(bundle_tag());
    let et = be_u64(b.timestamp);
    let ee = encode_bundle_elements(b.messages);
    assert(d == e1 + et + ee);
    assert(no_nul(bundle_tag()));
    assert(d.subrange(0, e1.len() as int) =~= e1);
    lemma_dec_string(d, 0, bundle_tag());
    let p1 = e1.len() as int;
    assert(d.subrange(p1, p1 + 8) =~= et);
    lemma_read_be_u64(d, p1, b.timestamp);
    assert(d.subrange(p1 + 8, d.len() as int) =~= ee);
    lemma_dec_bundle_elements(d, p1 + 8, b.messages, Seq::empty());
    assert(Seq::<MessageModel>::empty() + b.messages =~= b.messages);
}

} // verus!

verus! {

proof fn lemma_padded_aligned(n: int)
    requires
        n >= 0,
    ensures
        (n + pad_len(n)) % 4 == 0,
        pad_len(n) >= 0,
{
    assert((n + (4 - n % 4) % 4) % 4 == 0 && (4 - n % 4) % 4 >= 0) by (nonlinear_arith)
        requires
            n >= 0,
    ;
}

proof fn lemma_string_aligned(s: Seq<char>)
    ensures
        encode_string(s).len() % 4 == 0,
{
    let b = encode_utf8(s);
    lemma_padded_aligned(b.len() + 1int);
}

proof fn lemma_args_aligned(args: Seq<ArgModel>)
    ensures
        encode_args(args).len() % 4 == 0,
    decreases args.len(),
{
    if args.len() > 0 {
        lemma_args_aligned(args.drop_first());
        match args[0] {
            ArgModel::Str(s) => lemma_string_aligned(s),
            ArgModel::Blob(b) => lemma_padded_aligned(b.len() as int),
            _ => {},
        }
    }
}

/// An encoded message fills whole four-byte words: its length is a
/// multiple of four, whatever the message.
pub proof fn lemma_message_aligned(m: MessageModel)
    ensures
        encode_message(m).len() % 4 == 0,
{
    lemma_string_aligned(m.address);
    lemma_string_aligned(type_tags(m.args));
    lemma_args_aligned(m.args);
}

proof fn lemma_elements_aligned(ms: Seq<MessageModel>)
    ensures
        encode_bundle_elements(ms).len() % 4 == 0,
    decreases ms.len(),
{
    if ms.len() > 0 {
        lemma_message_aligned(ms[0]);
        lemma_elements_aligned(ms.drop_first());
    }
}

/// An encoded bundle fills whole four-byte words too.
pub proof fn lemma_bundle_aligned(b: BundleModel)
    ensures
        encode_bundle(b).len() % 4 == 0,
{
    lemma_string_aligned(bundle_tag());
    lemma_elements_aligned(b.messages);
}

} // verus!
