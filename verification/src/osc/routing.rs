//! Address matching and argument decoding for note routes.
use vstd::prelude::*;
use crate::dsl::names::{waveform_from_lowercase, waveform_of};
use crate::dsl::ast::WaveformType;
use crate::oscillator::Waveform;
use crate::osc::types::OpenSoundError;
use crate::text::{chars_of, lowercase_of, split_chars, split_on, str_eq, str_to_lowercase, string_from_chars, trim, trim_chars};

verus! {

pub open spec fn ends_with_wildcard(p: Seq<char>) -> bool {
    p.len() >= 2 && p[p.len() - 2] == '/' && p[p.len() - 1] == '*'
}

/// A route pattern matches an address when they are equal, or when the
/// pattern ends in `/*` and the address starts with what comes before it.
pub open spec fn pattern_matches(pattern: Seq<char>, address: Seq<char>) -> bool {
    if ends_with_wildcard(pattern) {
        let prefix = pattern.take(pattern.len() - 2);
        prefix.len() <= address.len() && address.take(prefix.len() as int) == prefix
    } else {
        pattern == address
    }
}

/// Whether a route pattern matches an address (see `pattern_matches`).
#[verifier::loop_isolation(false)]
pub fn matches_pattern(pattern: &str, address: &str) -> (r: bool)
    ensures
        r == pattern_matches(pattern@, address@),
{
    let p = chars_of(pattern);
    let a = chars_of(address);
    let n = p.len();
    if n >= 2 && p[n - 2] == '/' && p[n - 1] == '*' {
        let k = n - 2;
        if k > a.len() {
            return false;
        }
        for i in 0..k
            invariant
                k == n - 2,
                n == p.len(),
                k <= a.len(),
                forall|j: int| 0 <= j < i ==> a@[j] == p@[j],
        {
            if a[i] != p[i] {
                assert(a@.take(k as int)[i as int] != p@.take(k as int)[i as int]);
                return false;
            }
        }
        assert(a@.take(k as int) =~= p@.take(k as int));
        true
    } else {
        str_eq(pattern, address)
    }
}

/// The waveform of a name in a note message, compared without regard to
/// case after trimming whitespace.
pub open spec fn message_waveform(field: Seq<char>) -> Option<Waveform> {
    match waveform_from_lowercase(lowercase_of(trim(field))) {
        Some(w) => Some(waveform_of(w)),
        None => None,
    }
}

/// The waveforms of a comma-separated list in a note message, or the first
/// field that names none.
pub open spec fn message_waveforms_fold(fields: Seq<Seq<char>>, acc: Seq<Waveform>) -> Result<Seq<Waveform>, Seq<char>>
    decreases fields.len(),
{
    if fields.len() == 0 {
        Ok(acc)
    } else {
        match message_waveform(fields[0]) {
            Some(w) => message_waveforms_fold(fields.drop_first(), acc.push(w)),
            None => Err(fields[0]),
        }
    }
}

pub open spec fn message_waveforms(list: Seq<char>) -> Result<Seq<Waveform>, Seq<char>> {
    message_waveforms_fold(split_on(list, ','), Seq::empty())
}

/// Reads the waveform list of a note message. An unknown name gives
/// `InvalidArgumentType` with `valid waveform` expected and the field as
/// written.
pub fn parse_waveforms(waveforms_str: &str) -> (r: Result<Vec<Waveform>, OpenSoundError>)
    ensures
        match message_waveforms(waveforms_str@) {
            Ok(ws) => r matches Ok(v) && v@ == ws,
            Err(field) => r matches Err(OpenSoundError::InvalidArgumentType { expected, actual })
                && expected@ == "valid waveform"@ && actual@ == field,
        },
{
    let chars = chars_of(waveforms_str);
    let fields = split_chars(&chars, ',');
    let ghost fs = fields@.map_values(|f: Vec<char>| f@);
    let mut waveforms: Vec<Waveform> = Vec::new();
    let n = fields.len();
    assert(fs.skip(0) =~= fs);
    for i in 0..n
        invariant
            n == fields.len(),
            fs == fields@.map_values(|f: Vec<char>| f@),
            fs == split_on(waveforms_str@, ','),
            message_waveforms(waveforms_str@) == message_waveforms_fold(
                fs.skip(i as int),
                waveforms@,
            ),
    {
        let ghost rest = fs.skip(i as int);
        assert(rest[0] == fields@[i as int]@);
        assert(rest.drop_first() =~= fs.skip(i + 1));
        let trimmed = trim_chars(&fields[i]);
        let trimmed_s = string_from_chars(&trimmed);
        let lower = str_to_lowercase(trimmed_s.as_str());
        match WaveformType::from_lowercase_name(lower.as_str()) {
            Some(w) => waveforms.push(w.to_waveform()),
            None => {
                return Err(
                    OpenSoundError::InvalidArgumentType {
                        expected: "valid waveform".to_owned(),
                        actual: string_from_chars(&fields[i]),
                    },
                );
            },
        }
    }
    assert(fs.skip(n as int) =~= Seq::<Seq<char>>::empty());
    Ok(waveforms)
}

} // verus!
