//! Lexical rules for the numbers of the DSL: unsigned decimal integers as
//! std's `FromStr` for `u8` and `usize` accepts them, and the literal syntax
//! that std's `FromStr` for `f32` accepts.
use vstd::prelude::*;

verus! {

pub open spec fn is_digit(c: char) -> bool {
    '0' <= c && c <= '9'
}

pub open spec fn digit_value(c: char) -> nat {
    ((c as u32) - ('0' as u32)) as nat
}

pub open spec fn all_digits(s: Seq<char>) -> bool {
    forall|i: int| 0 <= i < s.len() ==> is_digit(#[trigger] s[i])
}

/// The value of a string of decimal digits, most significant first.
pub open spec fn decimal_value(s: Seq<char>) -> nat
    decreases s.len(),
{
    if s.len() == 0 {
        0
    } else {
        decimal_value(s.drop_last()) * 10 + digit_value(s.last())
    }
}

/// The digits of an unsigned integer literal: one leading `+` is allowed.
pub open spec fn unsigned_digits(s: Seq<char>) -> Seq<char> {
    if s.len() > 0 && s[0] == '+' {
        s.drop_first()
    } else {
        s
    }
}

/// What std's `FromStr` for an unsigned integer type whose largest value is
/// `max` gives for `s`: `Some` value exactly when, after an optional `+`,
/// `s` is a non-empty run of decimal digits whose value is at most `max`.
pub open spec fn parse_unsigned_spec(s: Seq<char>, max: nat) -> Option<nat> {
    let d = unsigned_digits(s);
    if d.len() > 0 && all_digits(d) && decimal_value(d) <= max {
        Some(decimal_value(d))
    } else {
        None
    }
}

proof fn lemma_decimal_value_prefix(s: Seq<char>, k: int)
    requires
        0 <= k <= s.len(),
        all_digits(s),
    ensures
        decimal_value(s.take(k)) <= decimal_value(s),
    decreases s.len(),
{
    if k < s.len() {
        lemma_decimal_value_prefix(s.drop_last(), k);
        assert(s.drop_last().take(k) == s.take(k));
    } else {
        assert(s.take(k) == s);
    }
}

/// Parses an unsigned decimal literal whose value must not exceed `max`.
pub fn parse_unsigned(s: &Vec<char>, max: u64) -> (r: Option<u64>)
    ensures
        match r {
            Some(v) => parse_unsigned_spec(s@, max as nat) == Some(v as nat),
            None => parse_unsigned_spec(s@, max as nat) is None,
        },
{
    let start: usize = if s.len() > 0 && s[0] == '+' { 1 } else { 0 };
    let ghost d = unsigned_digits(s@);
    assert(d == s@.skip(start as int));
    if start >= s.len() {
        return None;
    }
    let mut value: u64 = 0;
    let mut i: usize = start;
    while i < s.len()
        invariant
            start <= i <= s.len(),
            d == s@.skip(start as int),
            d == unsigned_digits(s@),
            d.len() > 0,
            all_digits(d.take(i - start)),
            value == decimal_value(d.take(i - start)),
            value <= max,
        decreases s.len() - i,
    {
        let c = s[i];
        if !('0' <= c && c <= '9') {
            assert(d[i - start] == c);
            assert(!is_digit(d[i - start]));
            assert(!all_digits(d));
            return None;
        }
        let dv = (c as u32 - '0' as u32) as u64;
        let ghost k = i - start;
        assert(d.take(k + 1).drop_last() == d.take(k));
        assert(d.take(k + 1).last() == c);
        if dv > max || value > (max - dv) / 10 {
            proof {
                if dv <= max {
                    assert(value * 10 + dv > max) by (nonlinear_arith)
                        requires
                            value > (max - dv) / 10,
                            dv <= max,
                    ;
                }
                if all_digits(d) {
                    lemma_decimal_value_prefix(d, k + 1);
                }
            }
            return None;
        }
        proof {
            assert(value * 10 + dv <= max) by (nonlinear_arith)
                requires
                    value <= (max - dv) / 10,
                    dv <= max,
            ;
        }
        value = value * 10 + dv;
        i = i + 1;
    }
    assert(d.take(i - start) == d);
    Some(value)
}

} // verus!

verus! {

pub open spec fn ascii_lower(c: char) -> char {
    if 'A' <= c && c <= 'Z' {
        (((c as u32) + 32) as u8) as char
    } else {
        c
    }
}

/// `s` equals the lowercase ASCII word `word` when ASCII letters are
/// compared without regard to case.
pub open spec fn eq_ignore_ascii_case(s: Seq<char>, word: Seq<char>) -> bool {
    &&& s.len() == word.len()
    &&& forall|i: int| 0 <= i < s.len() ==> ascii_lower(#[trigger] s[i]) == word[i]
}

pub open spec fn is_sign(c: char) -> bool {
    c == '+' || c == '-'
}

pub open spec fn without_sign(s: Seq<char>) -> Seq<char> {
    if s.len() > 0 && is_sign(s[0]) {
        s.drop_first()
    } else {
        s
    }
}

pub open spec fn is_exp_marker(c: char) -> bool {
    c == 'e' || c == 'E'
}

/// `Digit+ | Digit+ '.' Digit* | Digit* '.' Digit+`: digits with at most
/// one decimal point and at least one digit.
pub open spec fn valid_mantissa(m: Seq<char>) -> bool {
    &&& forall|i: int| 0 <= i < m.len() ==> is_digit(#[trigger] m[i]) || m[i] == '.'
    &&& forall|i: int, j: int| 0 <= i < j < m.len() && #[trigger] m[i] == '.' ==> #[trigger] m[j] != '.'
    &&& exists|i: int| 0 <= i < m.len() && is_digit(#[trigger] m[i])
}

/// What follows the `e` of an exponent: `Sign? Digit+`.
pub open spec fn valid_exponent_digits(t: Seq<char>) -> bool {
    let d = without_sign(t);
    d.len() > 0 && all_digits(d)
}

/// `Number ::= Mantissa Exp?` with `Exp ::= 'e' Sign? Digit+`.
pub open spec fn is_number_syntax(b: Seq<char>) -> bool {
    ||| valid_mantissa(b)
    ||| exists|k: int|
        0 <= k < b.len() && is_exp_marker(#[trigger] b[k]) && valid_mantissa(b.take(k))
            && valid_exponent_digits(b.skip(k + 1))
}

/// The strings that std's `FromStr` for `f32` accepts (its documented
/// grammar, letters compared without regard to ASCII case):
/// `Sign? ( 'inf' | 'infinity' | 'nan' | Number )`.
pub open spec fn is_float_literal(s: Seq<char>) -> bool {
    let b = without_sign(s);
    ||| eq_ignore_ascii_case(b, seq!['i', 'n', 'f'])
    ||| eq_ignore_ascii_case(b, seq!['i', 'n', 'f', 'i', 'n', 'i', 't', 'y'])
    ||| eq_ignore_ascii_case(b, seq!['n', 'a', 'n'])
    ||| is_number_syntax(b)
}

fn ascii_lower_exec(c: char) -> (r: char)
    ensures
        r == ascii_lower(c),
{
    if 'A' <= c && c <= 'Z' {
        (((c as u32) + 32) as u8) as char
    } else {
        c
    }
}

fn tail_eq_ignore_ascii_case(s: &Vec<char>, lo: usize, word: &Vec<char>) -> (r: bool)
    requires
        lo <= s.len(),
    ensures
        r == eq_ignore_ascii_case(s@.skip(lo as int), word@),
{
    let ghost t = s@.skip(lo as int);
    if s.len() - lo != word.len() {
        return false;
    }
    let n = word.len();
    for i in 0..n
        invariant
            n == word.len(),
            n == s.len() - lo,
            lo <= s.len(),
            t == s@.skip(lo as int),
            forall|j: int| 0 <= j < i ==> ascii_lower(#[trigger] t[j]) == word@[j],
    {
        if ascii_lower_exec(s[lo + i]) != word[i] {
            assert(t[i as int] == s@[lo + i]);
            return false;
        }
    }
    true
}

fn mantissa_ok(s: &Vec<char>, lo: usize, hi: usize) -> (r: bool)
    requires
        lo <= hi <= s.len(),
    ensures
        r == valid_mantissa(s@.subrange(lo as int, hi as int)),
{
    let ghost m = s@.subrange(lo as int, hi as int);
    let mut seen_dot = false;
    let mut seen_digit = false;
    let ghost mut dot_at: int = 0;
    let mut i = lo;
    while i < hi
        invariant
            lo <= i <= hi <= s.len(),
            m == s@.subrange(lo as int, hi as int),
            forall|j: int| 0 <= j < i - lo ==> is_digit(#[trigger] m[j]) || m[j] == '.',
            seen_dot ==> 0 <= dot_at < i - lo && m[dot_at] == '.',
            !seen_dot ==> forall|j: int| 0 <= j < i - lo ==> #[trigger] m[j] != '.',
            seen_dot ==> forall|j: int| 0 <= j < i - lo && j != dot_at ==> #[trigger] m[j] != '.',
            seen_digit <==> exists|j: int| 0 <= j < i - lo && is_digit(#[trigger] m[j]),
        decreases hi - i,
    {
        let c = s[i];
        assert(m[i - lo] == c);
        if c == '.' {
            if seen_dot {
                assert(m[dot_at] == '.' && m[i - lo] == '.');
                assert(dot_at < i - lo);
                return false;
            }
            seen_dot = true;
            proof {
                dot_at = i - lo;
            }
        } else if '0' <= c && c <= '9' {
            seen_digit = true;
        } else {
            assert(!(is_digit(m[i - lo]) || m[i - lo] == '.'));
            return false;
        }
        i = i + 1;
    }
    if !seen_digit {
        return false;
    }
    proof {
        assert forall|a: int, b: int| 0 <= a < b < m.len() && #[trigger] m[a] == '.' implies #[trigger] m[b] != '.' by {
            if seen_dot {
                assert(a == dot_at || m[a] != '.');
            }
        }
    }
    true
}

fn exponent_ok(s: &Vec<char>, lo: usize) -> (r: bool)
    requires
        lo <= s.len(),
    ensures
        r == valid_exponent_digits(s@.skip(lo as int)),
{
    let ghost t = s@.skip(lo as int);
    let start = if lo < s.len() && (s[lo] == '+' || s[lo] == '-') { lo + 1 } else { lo };
    let ghost d = without_sign(t);
    assert(d == s@.skip(start as int));
    if start >= s.len() {
        return false;
    }
    let mut i = start;
    while i < s.len()
        invariant
            start <= i <= s.len(),
            d == s@.skip(start as int),
            t == s@.skip(lo as int),
            d == without_sign(t),
            forall|j: int| 0 <= j < i - start ==> is_digit(#[trigger] d[j]),
        decreases s.len() - i,
    {
        if !('0' <= s[i] && s[i] <= '9') {
            assert(d[i - start] == s@[i as int]);
            assert(!is_digit(d[i - start]));
            return false;
        }
        i = i + 1;
    }
    true
}

/// Whether `s` is a literal that std's `FromStr` for `f32` accepts.
pub fn is_float_literal_exec(s: &Vec<char>) -> (r: bool)
    ensures
        r == is_float_literal(s@),
{
    let lo: usize = if s.len() > 0 && (s[0] == '+' || s[0] == '-') { 1 } else { 0 };
    let ghost b = without_sign(s@);
    assert(b == s@.skip(lo as int));
    let inf = vec!['i', 'n', 'f'];
    let infinity = vec!['i', 'n', 'f', 'i', 'n', 'i', 't', 'y'];
    let nan = vec!['n', 'a', 'n'];
    assert(inf@ == seq!['i', 'n', 'f']);
    assert(infinity@ == seq!['i', 'n', 'f', 'i', 'n', 'i', 't', 'y']);
    assert(nan@ == seq!['n', 'a', 'n']);
    if tail_eq_ignore_ascii_case(s, lo, &inf) || tail_eq_ignore_ascii_case(s, lo, &infinity)
        || tail_eq_ignore_ascii_case(s, lo, &nan) {
        return true;
    }
    // Find the first exponent marker.
    let mut k = lo;
    while k < s.len() && !(s[k] == 'e' || s[k] == 'E')
        invariant
            lo <= k <= s.len(),
            forall|j: int| lo <= j < k ==> !is_exp_marker(#[trigger] s@[j]),
        decreases s.len() - k,
    {
        k = k + 1;
    }
    if k == s.len() {
        let r = mantissa_ok(s, lo, s.len());
        assert(s@.subrange(lo as int, s.len() as int) == b);
        proof {
            assert forall|k2: int| 0 <= k2 < b.len() implies !is_exp_marker(#[trigger] b[k2]) by {
                assert(b[k2] == s@[lo + k2]);
            }
        }
        return r;
    }
    let ghost kb = k - lo;
    assert(b[kb] == s@[k as int]);
    assert(b.take(kb) == s@.subrange(lo as int, k as int));
    assert(b.skip(kb + 1) == s@.skip(k + 1));
    // `b` holds a marker, so it is no mantissa by itself.
    assert(!valid_mantissa(b)) by {
        assert(!(is_digit(b[kb]) || b[kb] == '.'));
    }
    let m = mantissa_ok(s, lo, k);
    let e = exponent_ok(s, k + 1);
    proof {
        if !(m && e) {
            assert forall|k2: int|
                0 <= k2 < b.len() && is_exp_marker(#[trigger] b[k2]) && valid_mantissa(b.take(k2))
                implies !valid_exponent_digits(b.skip(k2 + 1)) by {
                if k2 < kb {
                    assert(b[k2] == s@[lo + k2]);
                } else if k2 > kb {
                    assert(b.take(k2)[kb] == b[kb]);
                    assert(!(is_digit(b.take(k2)[kb]) || b.take(k2)[kb] == '.'));
                }
            }
        }
    }
    m && e
}

} // verus!
