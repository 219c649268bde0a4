//! Character classification and small text utilities shared by the
//! DSL tokenizer, the DSL parser and the OSC codec.
use vstd::prelude::*;

verus! {

broadcast use vstd::string::group_string_axioms;

/// The Unicode `White_Space` property (PropList.txt), which is what
/// `char::is_whitespace` and `str::trim` test.
pub open spec fn is_white_space(c: char) -> bool {
    let u = c as u32;
    ||| 0x9 <= u <= 0xD
    ||| u == 0x20
    ||| u == 0x85
    ||| u == 0xA0
    ||| u == 0x1680
    ||| 0x2000 <= u <= 0x200A
    ||| u == 0x2028
    ||| u == 0x2029
    ||| u == 0x202F
    ||| u == 0x205F
    ||| u == 0x3000
}

/// Whether `c` has the Unicode `White_Space` property.
pub fn char_is_whitespace(c: char) -> (b: bool)
    ensures
        b == is_white_space(c),
{
    let u = c as u32;
    (0x9 <= u && u <= 0xD) || u == 0x20 || u == 0x85 || u == 0xA0 || u == 0x1680 || (0x2000
        <= u && u <= 0x200A) || u == 0x2028 || u == 0x2029 || u == 0x202F || u == 0x205F || u
        == 0x3000
}

/// The characters of a string slice, in order.
pub fn chars_of(s: &str) -> (r: Vec<char>)
    ensures
        r@ == s@,
{
    let mut r: Vec<char> = Vec::new();
    for c in it: s.chars()
        invariant
            r@ == it.seq().take(it.index() as int),
            it.seq() == s@,
        ensures
            r@ == s@,
    {
        assert(it.seq().take(it.index() as int + 1) == it.seq().take(it.index() as int).push(c));
        r.push(c);
    }
    r
}

} // verus!

verus! {

/// Whether two character vectors hold the same characters.
pub fn chars_eq(a: &Vec<char>, b: &Vec<char>) -> (r: bool)
    ensures
        r == (a@ == b@),
{
    if a.len() != b.len() {
        return false;
    }
    let n = a.len();
    for i in 0..n
        invariant
            n == a.len(),
            n == b.len(),
            forall|j: int| 0 <= j < i ==> a@[j] == b@[j],
    {
        if a[i] != b[i] {
            return false;
        }
    }
    assert(a@ =~= b@);
    true
}

/// Whether a character vector spells out the given string slice.
pub fn chars_eq_str(a: &Vec<char>, s: &str) -> (r: bool)
    ensures
        r == (a@ == s@),
{
    let b = chars_of(s);
    chars_eq(a, &b)
}

/// Whether two string slices hold the same characters.
pub fn str_eq(a: &str, b: &str) -> (r: bool)
    ensures
        r == (a@ == b@),
{
    let ca = chars_of(a);
    chars_eq_str(&ca, b)
}

/// Collects characters into a `String` (std's `FromIterator<&char>`
/// for `String`): the string holds exactly these characters, in order.
#[verifier::external_body]
pub(crate) fn string_from_chars(v: &Vec<char>) -> (r: String)
    ensures
        r@ == v@,
{
    v.iter().collect()
}

/// What `str::to_lowercase` gives back for a sequence of characters: the
/// Unicode lowercase mapping of the whole string (Derived Core Property
/// `Lowercase`, with the context rules std applies, such as final sigma).
pub uninterp spec fn lowercase_of(s: Seq<char>) -> Seq<char>;

/// `str::to_lowercase`. Claimed: the result is `lowercase_of` of the
/// input's characters, a function of the input alone. Nothing more about
/// the Unicode case tables is stated.
#[verifier::external_body]
pub(crate) fn str_to_lowercase(s: &str) -> (r: String)
    ensures
        r@ == lowercase_of(s@),
{
    s.to_lowercase()
}

} // verus!

verus! {

/// The decimal digits of `n`, most significant first, without leading zeros
/// (`0` for zero).
pub open spec fn decimal_digits(n: nat) -> Seq<char>
    decreases n,
{
    if n < 10 {
        seq![('0' as u8 + n as u8) as char]
    } else {
        decimal_digits(n / 10).push(('0' as u8 + (n % 10) as u8) as char)
    }
}

/// `n` written in decimal, as `Display` for integers writes it.
pub fn decimal_string(n: u64) -> (r: String)
    ensures
        r@ == decimal_digits(n as nat),
{
    let mut digits: Vec<char> = Vec::new();
    let mut m = n;
    // Collect digits least significant first.
    assert(decimal_digits(n as nat) =~= decimal_digits(m as nat) + digits@.reverse());
    loop
        invariant_except_break
            decimal_digits(n as nat) == decimal_digits(m as nat) + digits@.reverse(),
        ensures
            decimal_digits(n as nat) == digits@.reverse(),
        decreases m,
    {
        let d = (m % 10) as u8;
        let c = ('0' as u8 + d) as char;
        if m < 10 {
            let ghost before = digits@;
            digits.push(c);
            assert(digits@.reverse() =~= seq![c] + before.reverse());
            assert(decimal_digits(m as nat) == seq![c]);
            assert(decimal_digits(n as nat) =~= digits@.reverse());
            break;
        }
        let ghost before = digits@;
        digits.push(c);
        assert(digits@.reverse() =~= seq![c] + before.reverse());
        assert(decimal_digits(m as nat) == decimal_digits((m / 10) as nat).push(c));
        m = m / 10;
        assert(decimal_digits(n as nat) =~= decimal_digits(m as nat) + digits@.reverse());
    }
    let mut out: Vec<char> = Vec::new();
    let k = digits.len();
    for i in 0..k
        invariant
            k == digits.len(),
            out@ == digits@.reverse().take(i as int),
    {
        out.push(digits[k - 1 - i]);
        assert(out@ =~= digits@.reverse().take(i + 1));
    }
    assert(digits@.reverse().take(k as int) =~= digits@.reverse());
    string_from_chars(&out)
}

} // verus!

verus! {

/// The fields of `s` between occurrences of `sep`, as `str::split` gives
/// them (empty fields included; an empty string has one empty field), after
/// the fields in `acc` and the partial field `cur` read from the first `i`
/// characters.
pub open spec fn split_fold(s: Seq<char>, sep: char, i: int, cur: Seq<char>, acc: Seq<Seq<char>>) -> Seq<Seq<char>>
    decreases s.len() - i,
{
    if i < 0 || i >= s.len() {
        acc.push(cur)
    } else if s[i] == sep {
        split_fold(s, sep, i + 1, Seq::empty(), acc.push(cur))
    } else {
        split_fold(s, sep, i + 1, cur.push(s[i]), acc)
    }
}

/// The fields of `s` separated by `sep`.
pub open spec fn split_on(s: Seq<char>, sep: char) -> Seq<Seq<char>> {
    split_fold(s, sep, 0, Seq::empty(), Seq::empty())
}

/// Splits characters on a separator, as `str::split` does.
pub fn split_chars(s: &Vec<char>, sep: char) -> (r: Vec<Vec<char>>)
    ensures
        r@.map_values(|f: Vec<char>| f@) == split_on(s@, sep),
{
    let mut fields: Vec<Vec<char>> = Vec::new();
    let mut cur: Vec<char> = Vec::new();
    let n = s.len();
    assert(fields@.map_values(|f: Vec<char>| f@) =~= Seq::<Seq<char>>::empty());
    for i in 0..n
        invariant
            n == s.len(),
            split_on(s@, sep) == split_fold(
                s@,
                sep,
                i as int,
                cur@,
                fields@.map_values(|f: Vec<char>| f@),
            ),
    {
        let ghost acc = fields@.map_values(|f: Vec<char>| f@);
        if s[i] == sep {
            let ghost c = cur@;
            fields.push(cur);
            assert(fields@.map_values(|f: Vec<char>| f@) =~= acc.push(c));
            cur = Vec::new();
        } else {
            cur.push(s[i]);
        }
    }
    let ghost acc = fields@.map_values(|f: Vec<char>| f@);
    let ghost c = cur@;
    fields.push(cur);
    assert(fields@.map_values(|f: Vec<char>| f@) =~= acc.push(c));
    fields
}

/// `s` without leading `White_Space`.
pub open spec fn trim_start(s: Seq<char>) -> Seq<char>
    decreases s.len(),
{
    if s.len() > 0 && is_white_space(s[0]) {
        trim_start(s.drop_first())
    } else {
        s
    }
}

/// `s` without trailing `White_Space`.
pub open spec fn trim_end(s: Seq<char>) -> Seq<char>
    decreases s.len(),
{
    if s.len() > 0 && is_white_space(s.last()) {
        trim_end(s.drop_last())
    } else {
        s
    }
}

/// `s` without leading and trailing `White_Space`, as `str::trim` gives it.
pub open spec fn trim(s: Seq<char>) -> Seq<char> {
    trim_end(trim_start(s))
}

/// Removes leading and trailing whitespace.
pub fn trim_chars(s: &Vec<char>) -> (r: Vec<char>)
    ensures
        r@ == trim(s@),
{
    let n = s.len();
    let mut lo: usize = 0;
    assert(s@.skip(0) =~= s@);
    while lo < n && char_is_whitespace(s[lo])
        invariant
            lo <= n == s.len(),
            trim_start(s@) == trim_start(s@.skip(lo as int)),
        decreases n - lo,
    {
        assert(s@.skip(lo as int).drop_first() =~= s@.skip(lo + 1));
        lo = lo + 1;
    }
    let mut hi: usize = n;
    let ghost t = s@.skip(lo as int);
    assert(trim_start(t) == t);
    while hi > lo && char_is_whitespace(s[hi - 1])
        invariant
            lo <= hi <= n == s.len(),
            t == s@.skip(lo as int),
            trim_end(t) == trim_end(s@.subrange(lo as int, hi as int)),
        decreases hi,
    {
        assert(s@.subrange(lo as int, hi as int).drop_last() =~= s@.subrange(lo as int, hi - 1));
        assert(s@.subrange(lo as int, hi as int).last() == s@[hi - 1]);
        hi = hi - 1;
    }
    assert(t =~= s@.subrange(lo as int, n as int));
    let mut r: Vec<char> = Vec::new();
    let mut k = lo;
    while k < hi
        invariant
            lo <= k <= hi <= n == s.len(),
            r@ == s@.subrange(lo as int, k as int),
        decreases hi - k,
    {
        r.push(s[k]);
        assert(r@ =~= s@.subrange(lo as int, k + 1));
        k = k + 1;
    }
    proof {
        let m = s@.subrange(lo as int, hi as int);
        if m.len() > 0 {
            assert(!is_white_space(m.last()));
        }
        assert(trim_end(m) == m);
    }
    r
}

} // verus!
