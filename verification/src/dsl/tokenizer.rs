//! Splits a script into tokens.
//!
//! Tokens are separated by spaces, tabs and line ends, which are dropped, and
//! by `:` and `,`, which are tokens of their own. After the word `samp`, when
//! the character after the next one is a `:`, the scanner switches to reading
//! a file path, which runs up to the next `:` whatever it holds. A line that
//! holds only whitespace is skipped with its line end.
use vstd::prelude::*;
use crate::text::{char_is_whitespace, chars_of, is_white_space, string_from_chars};

verus! {

/// The scanner's state after some prefix of the input.
pub struct TokState {
    /// The tokens completed so far.
    pub tokens: Seq<Seq<char>>,
    /// The token being read.
    pub cur: Seq<char>,
    pub in_comment: bool,
    pub in_file_path: bool,
    /// No character but whitespace since the last line end.
    pub at_line_start: bool,
    /// The current line holds only whitespace so far.
    pub line_blank: bool,
}

pub open spec fn tok_init() -> TokState {
    TokState {
        tokens: Seq::empty(),
        cur: Seq::empty(),
        in_comment: false,
        in_file_path: false,
        at_line_start: true,
        line_blank: true,
    }
}

/// Ends the token being read, if it is not empty.
pub open spec fn tok_flush(st: TokState) -> TokState {
    if st.cur.len() > 0 {
        TokState { tokens: st.tokens.push(st.cur), cur: Seq::empty(), ..st }
    } else {
        st
    }
}

pub open spec fn is_separator(c: char) -> bool {
    c == ':' || c == ',' || c == ' ' || c == '\n' || c == '\r' || c == '\t'
}

/// Separators that do not become tokens.
pub open spec fn is_blank_separator(c: char) -> bool {
    c == ' ' || c == '\n' || c == '\r' || c == '\t'
}

pub open spec fn samp_word() -> Seq<char> {
    seq!['s', 'a', 'm', 'p']
}

/// One step of the scanner at position `i`: the next state and the position
/// after the characters consumed (one, or two where a `samp` is followed by
/// a character and a `:`).
pub open spec fn tok_step(input: Seq<char>, i: int, st: TokState) -> (TokState, int) {
    let ch = input[i];
    if ch == '\n' && !st.in_comment && st.line_blank {
        (TokState { at_line_start: true, line_blank: true, ..st }, i + 1)
    } else {
        let st1 = if ch == '\n' {
            TokState { at_line_start: true, line_blank: true, ..st }
        } else {
            TokState {
                at_line_start: st.at_line_start && is_white_space(ch),
                line_blank: st.line_blank && is_white_space(ch),
                ..st
            }
        };
        if st1.in_comment {
            (TokState { in_comment: ch != '\n', ..st1 }, i + 1)
        } else if st1.at_line_start && ch == '#' {
            (TokState { in_comment: true, ..st1 }, i + 1)
        } else if st1.in_file_path {
            if ch == ':' {
                let st2 = tok_flush(st1);
                (TokState { in_file_path: false, tokens: st2.tokens.push(seq![':']), ..st2 }, i + 1)
            } else {
                (TokState { cur: st1.cur.push(ch), ..st1 }, i + 1)
            }
        } else if st1.cur == samp_word() && i + 1 < input.len() && input[i + 1] == ':' {
            (
                TokState {
                    tokens: st1.tokens.push(st1.cur).push(seq![':']),
                    cur: Seq::empty(),
                    in_file_path: true,
                    ..st1
                },
                i + 2,
            )
        } else if is_separator(ch) {
            let st2 = tok_flush(st1);
            if is_blank_separator(ch) {
                (st2, i + 1)
            } else {
                (TokState { tokens: st2.tokens.push(seq![ch]), ..st2 }, i + 1)
            }
        } else {
            (TokState { cur: st1.cur.push(ch), ..st1 }, i + 1)
        }
    }
}

/// The scanner's state once it has read the input from position `i`,
/// starting in state `st`.
pub open spec fn tok_run(input: Seq<char>, i: int, st: TokState) -> TokState
    decreases input.len() - i,
{
    if 0 <= i < input.len() {
        let (st2, j) = tok_step(input, i, st);
        if i < j <= input.len() {
            tok_run(input, j, st2)
        } else {
            st2
        }
    } else {
        st
    }
}

/// The tokens of a script.
pub open spec fn tokenize_spec(input: Seq<char>) -> Seq<Seq<char>> {
    tok_flush(tok_run(input, 0, tok_init())).tokens
}

pub open spec fn all_nonempty(toks: Seq<Seq<char>>) -> bool {
    forall|k: int| 0 <= k < toks.len() ==> (#[trigger] toks[k]).len() > 0
}

pub open spec fn strings_view(v: Seq<String>) -> Seq<Seq<char>> {
    v.map_values(|s: String| s@)
}

proof fn lemma_step_advances(input: Seq<char>, i: int, st: TokState)
    requires
        0 <= i < input.len(),
    ensures
        i < tok_step(input, i, st).1 <= input.len(),
{
}

fn push_token(tokens: &mut Vec<String>, t: &Vec<char>)
    ensures
        strings_view(final(tokens)@) == strings_view(old(tokens)@).push(t@),
{
    let s = string_from_chars(t);
    tokens.push(s);
    assert(strings_view(tokens@) =~= strings_view(old(tokens)@).push(t@));
}

fn push_char_token(tokens: &mut Vec<String>, c: char)
    ensures
        strings_view(final(tokens)@) == strings_view(old(tokens)@).push(seq![c]),
{
    let mut v: Vec<char> = Vec::new();
    v.push(c);
    assert(v@ == seq![c]);
    push_token(tokens, &v);
}

/// Splits a script into its tokens; no token is empty.
pub fn tokenize(input: &str) -> (r: Vec<String>)
    ensures
        strings_view(r@) == tokenize_spec(input@),
        all_nonempty(strings_view(r@)),
{
    let chars = chars_of(input);
    let n = chars.len();
    let mut tokens: Vec<String> = Vec::new();
    let mut current_token: Vec<char> = Vec::new();
    let mut in_comment = false;
    let mut in_file_path = false;
    let mut at_line_start = true;
    // Whether the current line holds only whitespace so far.
    let mut line_is_blank = true;
    let mut i: usize = 0;
    let ghost input_s = input@;
    assert(strings_view(tokens@) =~= Seq::<Seq<char>>::empty());
    assert(current_token@ =~= Seq::<char>::empty());
    while i < n
        invariant
            n == chars.len(),
            chars@ == input_s,
            i <= n,
            all_nonempty(strings_view(tokens@)),
            tok_run(input_s, i as int, TokState {
                tokens: strings_view(tokens@),
                cur: current_token@,
                in_comment,
                in_file_path,
                at_line_start,
                line_blank: line_is_blank,
            }) == tok_run(input_s, 0, tok_init()),
        decreases n - i,
    {
        let ghost st = TokState {
            tokens: strings_view(tokens@),
            cur: current_token@,
            in_comment,
            in_file_path,
            at_line_start,
            line_blank: line_is_blank,
        };
        let ghost (st_next, j) = tok_step(input_s, i as int, st);
        proof {
            lemma_step_advances(input_s, i as int, st);
            assert(tok_run(input_s, i as int, st) == tok_run(input_s, j, st_next));
        }
        let ch = chars[i];
        let ws = char_is_whitespace(ch);
        if ch == '\n' {
            if !in_comment {
                if line_is_blank {
                    at_line_start = true;
                    line_is_blank = true;
                    i = i + 1;
                    continue;
                }
            }
            at_line_start = true;
            line_is_blank = true;
        } else {
            line_is_blank = line_is_blank && ws;
            if !ws {
                at_line_start = false;
            }
        }
        if in_comment {
            if ch == '\n' {
                in_comment = false;
            }
            i = i + 1;
            continue;
        }
        if at_line_start && ch == '#' {
            in_comment = true;
            i = i + 1;
            continue;
        }
        if in_file_path {
            if ch == ':' {
                in_file_path = false;
                if current_token.len() > 0 {
                    push_token(&mut tokens, &current_token);
                    current_token = Vec::new();
                }
                push_char_token(&mut tokens, ':');
            } else {
                current_token.push(ch);
            }
            i = i + 1;
            continue;
        }
        let is_samp = current_token.len() == 4 && current_token[0] == 's' && current_token[1]
            == 'a' && current_token[2] == 'm' && current_token[3] == 'p';
        proof {
            if is_samp {
                assert(current_token@ =~= samp_word());
            } else {
                assert(current_token@ != samp_word()) by {
                    if current_token@ == samp_word() {
                        assert(current_token@[0] == 's');
                    }
                }
            }
        }
        if is_samp && i + 1 < n && chars[i + 1] == ':' {
            push_token(&mut tokens, &current_token);
            current_token = Vec::new();
            push_char_token(&mut tokens, ':');
            in_file_path = true;
            i = i + 2;
            continue;
        }
        if ch == ':' || ch == ',' || ch == ' ' || ch == '\n' || ch == '\r' || ch == '\t' {
            if current_token.len() > 0 {
                push_token(&mut tokens, &current_token);
                current_token = Vec::new();
            }
            if ch != ' ' && ch != '\n' && ch != '\r' && ch != '\t' {
                push_char_token(&mut tokens, ch);
            }
        } else {
            current_token.push(ch);
        }
        i = i + 1;
    }
    if current_token.len() > 0 {
        push_token(&mut tokens, &current_token);
    }
    // Keep the non-empty tokens (all of them are).
    let mut kept: Vec<String> = Vec::new();
    let m = tokens.len();
    for k in 0..m
        invariant
            m == tokens.len(),
            all_nonempty(strings_view(tokens@)),
            strings_view(kept@) == strings_view(tokens@).take(k as int),
    {
        let t = tokens[k].clone();
        let tc = chars_of(t.as_str());
        assert(strings_view(tokens@)[k as int] == t@);
        let ghost before = kept@;
        if tc.len() > 0 {
            kept.push(t);
            assert(strings_view(kept@) =~= strings_view(before).push(t@));
        }
        assert(strings_view(kept@) =~= strings_view(tokens@).take(k + 1));
    }
    assert(strings_view(tokens@).take(m as int) =~= strings_view(tokens@));
    kept
}

} // verus!
