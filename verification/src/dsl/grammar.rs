//! The meaning of a token sequence: what the parser gives back for the
//! tokens from a position on, and the position it stops at.
//!
//! Each `sp_*` function mirrors one production of the grammar
//!
//! ```text
//! script      := block*
//! block       := sequence envelope* effect* note*
//! sequence    := FixedTimeNoteSequence dur DURATION tempo U8 num_steps USIZE
//! envelope    := a PAIR d PAIR s PAIR r PAIR          PAIR := FLOAT , FLOAT
//! effect      := delay mix FLOAT decay FLOAT interval_ms FLOAT duration_ms FLOAT
//!                      num_repeats USIZE num_predelay_samples USIZE num_concurrent_delays USIZE
//!              | flanger window_size USIZE mix FLOAT
//!              | lfo freq FLOAT amp FLOAT waveforms WAVEFORMS
//! note        := osc : WAVEFORMS : FREQ : FLOAT : USIZE
//!              | samp : PATH : FLOAT : USIZE
//! WAVEFORMS   := WAVEFORM (, WAVEFORM)*
//! FREQ        := U8 , PITCH | PITCH | FLOAT
//! ```
//!
//! and returns the result with the position after the tokens it read; on an
//! error the position is where reading stopped.
use vstd::prelude::*;
use crate::dsl::ast::{
    DelayDefModel, DslErrorModel, EffectDefModel, EnvelopeDefModel, FlangerDefModel,
    LFODefModel, NoteDeclarationModel, NoteFrequencyModel, OuterBlockModel, SequenceDef,
    WaveformType, DslDurationType,
};
use crate::dsl::names::{
    duration_from_name, duration_parse, lemma_no_empty_duration_name, pitch_from_name,
    waveform_parse,
};
use crate::numbers::{is_float_literal, parse_unsigned_spec};

verus! {

pub type Toks = Seq<Seq<char>>;

pub open spec fn sp_peek(t: Toks, p: int) -> Seq<char> {
    if 0 <= p < t.len() {
        t[p]
    } else {
        Seq::empty()
    }
}

pub open spec fn sp_advance(t: Toks, p: int) -> (Seq<char>, int) {
    if 0 <= p < t.len() {
        (t[p], p + 1)
    } else {
        (Seq::empty(), p)
    }
}

pub open spec fn sp_expect(t: Toks, p: int, lit: Seq<char>) -> (Result<(), DslErrorModel>, int) {
    let (tok, q) = sp_advance(t, p);
    if tok == lit {
        (Ok(()), q)
    } else {
        (Err(DslErrorModel::Expected { expected: lit, got: tok }), q)
    }
}

pub open spec fn sp_f32(t: Toks, p: int) -> (Result<Seq<char>, DslErrorModel>, int) {
    let (tok, q) = sp_advance(t, p);
    if is_float_literal(tok) {
        (Ok(tok), q)
    } else {
        (Err(DslErrorModel::InvalidFloat(tok)), q)
    }
}

pub open spec fn sp_u8(t: Toks, p: int) -> (Result<u8, DslErrorModel>, int) {
    let (tok, q) = sp_advance(t, p);
    match parse_unsigned_spec(tok, 255) {
        Some(v) => (Ok(v as u8), q),
        None => (Err(DslErrorModel::InvalidU8(tok)), q),
    }
}

pub open spec fn sp_usize(t: Toks, p: int) -> (Result<usize, DslErrorModel>, int) {
    let (tok, q) = sp_advance(t, p);
    match parse_unsigned_spec(tok, usize::MAX as nat) {
        Some(v) => (Ok(v as usize), q),
        None => (Err(DslErrorModel::InvalidUsize(tok)), q),
    }
}

/// A keyword followed by a number.
pub open spec fn sp_kw_f32(t: Toks, p: int, kw: Seq<char>) -> (Result<Seq<char>, DslErrorModel>, int) {
    match sp_expect(t, p, kw) {
        (Err(e), q) => (Err(e), q),
        (Ok(_), q) => sp_f32(t, q),
    }
}

pub open spec fn sp_kw_usize(t: Toks, p: int, kw: Seq<char>) -> (Result<usize, DslErrorModel>, int) {
    match sp_expect(t, p, kw) {
        (Err(e), q) => (Err(e), q),
        (Ok(_), q) => sp_usize(t, q),
    }
}

pub open spec fn sp_sequence_def(t: Toks, p: int) -> (Result<SequenceDef, DslErrorModel>, int) {
    match sp_expect(t, p, "FixedTimeNoteSequence"@) {
        (Err(e), q) => (Err(e), q),
        (Ok(_), p1) => match sp_expect(t, p1, "dur"@) {
            (Err(e), q) => (Err(e), q),
            (Ok(_), p2) => {
                let (tok, p3) = sp_advance(t, p2);
                match duration_parse(tok) {
                    Err(e) => (Err(e), p3),
                    Ok(dur) => match sp_expect(t, p3, "tempo"@) {
                        (Err(e), q) => (Err(e), q),
                        (Ok(_), p4) => match sp_u8(t, p4) {
                            (Err(e), q) => (Err(e), q),
                            (Ok(tempo), p5) => match sp_kw_usize(t, p5, "num_steps"@) {
                                (Err(e), q) => (Err(e), q),
                                (Ok(num_steps), p6) => (
                                    Ok(SequenceDef { dur, tempo, num_steps }),
                                    p6,
                                ),
                            },
                        },
                    },
                }
            },
        },
    }
}

pub open spec fn sp_envelope_pair(t: Toks, p: int) -> (Result<(Seq<char>, Seq<char>), DslErrorModel>, int) {
    match sp_f32(t, p) {
        (Err(e), q) => (Err(e), q),
        (Ok(first), p1) => match sp_expect(t, p1, ","@) {
            (Err(e), q) => (Err(e), q),
            (Ok(_), p2) => match sp_f32(t, p2) {
                (Err(e), q) => (Err(e), q),
                (Ok(second), p3) => (Ok((first, second)), p3),
            },
        },
    }
}

/// A keyword followed by a pair of numbers.
pub open spec fn sp_kw_pair(t: Toks, p: int, kw: Seq<char>) -> (Result<(Seq<char>, Seq<char>), DslErrorModel>, int) {
    match sp_expect(t, p, kw) {
        (Err(e), q) => (Err(e), q),
        (Ok(_), q) => sp_envelope_pair(t, q),
    }
}

pub open spec fn sp_envelope_def(t: Toks, p: int) -> (Result<EnvelopeDefModel, DslErrorModel>, int) {
    match sp_kw_pair(t, p, "a"@) {
        (Err(e), q) => (Err(e), q),
        (Ok(attack), p1) => match sp_kw_pair(t, p1, "d"@) {
            (Err(e), q) => (Err(e), q),
            (Ok(decay), p2) => match sp_kw_pair(t, p2, "s"@) {
                (Err(e), q) => (Err(e), q),
                (Ok(sustain), p3) => match sp_kw_pair(t, p3, "r"@) {
                    (Err(e), q) => (Err(e), q),
                    (Ok(release), p4) => (
                        Ok(EnvelopeDefModel { attack, decay, sustain, release }),
                        p4,
                    ),
                },
            },
        },
    }
}

pub open spec fn sp_waveform(t: Toks, p: int) -> (Result<WaveformType, DslErrorModel>, int) {
    let (tok, q) = sp_advance(t, p);
    (waveform_parse(tok), q)
}

/// Waveforms separated by commas, appended to `acc`.
pub open spec fn sp_waveforms_from(t: Toks, p: int, acc: Seq<WaveformType>) -> (Result<Seq<WaveformType>, DslErrorModel>, int)
    decreases t.len() - p,
{
    match sp_waveform(t, p) {
        (Err(e), q) => (Err(e), q),
        (Ok(w), q) => {
            let acc2 = acc.push(w);
            if p <= q < t.len() && t[q] == ","@ {
                sp_waveforms_from(t, q + 1, acc2)
            } else {
                (Ok(acc2), q)
            }
        },
    }
}

pub open spec fn sp_waveforms(t: Toks, p: int) -> (Result<Seq<WaveformType>, DslErrorModel>, int) {
    sp_waveforms_from(t, p, Seq::empty())
}

pub open spec fn sp_delay_def(t: Toks, p: int) -> (Result<DelayDefModel, DslErrorModel>, int) {
    match sp_expect(t, p, "delay"@) {
        (Err(e), q) => (Err(e), q),
        (Ok(_), p0) => match sp_kw_f32(t, p0, "mix"@) {
            (Err(e), q) => (Err(e), q),
            (Ok(mix), p1) => match sp_kw_f32(t, p1, "decay"@) {
                (Err(e), q) => (Err(e), q),
                (Ok(decay), p2) => match sp_kw_f32(t, p2, "interval_ms"@) {
                    (Err(e), q) => (Err(e), q),
                    (Ok(interval_ms), p3) => match sp_kw_f32(t, p3, "duration_ms"@) {
                        (Err(e), q) => (Err(e), q),
                        (Ok(duration_ms), p4) => match sp_kw_usize(t, p4, "num_repeats"@) {
                            (Err(e), q) => (Err(e), q),
                            (Ok(num_repeats), p5) => match sp_kw_usize(
                                t,
                                p5,
                                "num_predelay_samples"@,
                            ) {
                                (Err(e), q) => (Err(e), q),
                                (Ok(num_predelay_samples), p6) => match sp_kw_usize(
                                    t,
                                    p6,
                                    "num_concurrent_delays"@,
                                ) {
                                    (Err(e), q) => (Err(e), q),
                                    (Ok(num_concurrent_delays), p7) => (
                                        Ok(
                                            DelayDefModel {
                                                mix,
                                                decay,
                                                interval_ms,
                                                duration_ms,
                                                num_repeats,
                                                num_predelay_samples,
                                                num_concurrent_delays,
                                            },
                                        ),
                                        p7,
                                    ),
                                },
                            },
                        },
                    },
                },
            },
        },
    }
}

pub open spec fn sp_flanger_def(t: Toks, p: int) -> (Result<FlangerDefModel, DslErrorModel>, int) {
    match sp_expect(t, p, "flanger"@) {
        (Err(e), q) => (Err(e), q),
        (Ok(_), p0) => match sp_kw_usize(t, p0, "window_size"@) {
            (Err(e), q) => (Err(e), q),
            (Ok(window_size), p1) => match sp_kw_f32(t, p1, "mix"@) {
                (Err(e), q) => (Err(e), q),
                (Ok(mix), p2) => (Ok(FlangerDefModel { window_size, mix }), p2),
            },
        },
    }
}

pub open spec fn sp_lfo_def(t: Toks, p: int) -> (Result<LFODefModel, DslErrorModel>, int) {
    match sp_expect(t, p, "lfo"@) {
        (Err(e), q) => (Err(e), q),
        (Ok(_), p0) => match sp_kw_f32(t, p0, "freq"@) {
            (Err(e), q) => (Err(e), q),
            (Ok(freq), p1) => match sp_kw_f32(t, p1, "amp"@) {
                (Err(e), q) => (Err(e), q),
                (Ok(amp), p2) => match sp_expect(t, p2, "waveforms"@) {
                    (Err(e), q) => (Err(e), q),
                    (Ok(_), p3) => match sp_waveforms(t, p3) {
                        (Err(e), q) => (Err(e), q),
                        (Ok(waveforms), p4) => (Ok(LFODefModel { freq, amp, waveforms }), p4),
                    },
                },
            },
        },
    }
}

pub open spec fn is_effect_keyword(tok: Seq<char>) -> bool {
    tok == "delay"@ || tok == "flanger"@ || tok == "lfo"@
}

pub open spec fn is_note_keyword(tok: Seq<char>) -> bool {
    tok == "osc"@ || tok == "samp"@
}

pub open spec fn sp_effect_def(t: Toks, p: int) -> (Result<EffectDefModel, DslErrorModel>, int) {
    let tok = sp_peek(t, p);
    if tok == "delay"@ {
        match sp_delay_def(t, p) {
            (Err(e), q) => (Err(e), q),
            (Ok(d), q) => (Ok(EffectDefModel::Delay(d)), q),
        }
    } else if tok == "flanger"@ {
        match sp_flanger_def(t, p) {
            (Err(e), q) => (Err(e), q),
            (Ok(f), q) => (Ok(EffectDefModel::Flanger(f)), q),
        }
    } else if tok == "lfo"@ {
        match sp_lfo_def(t, p) {
            (Err(e), q) => (Err(e), q),
            (Ok(l), q) => (Ok(EffectDefModel::LFO(l)), q),
        }
    } else {
        (Err(DslErrorModel::UnknownEffectType(tok)), p)
    }
}

/// The pitch of an oscillator note: `octave , pitch`, a pitch in octave 4,
/// or a frequency.
pub open spec fn sp_note_freq(t: Toks, p: int) -> (Result<NoteFrequencyModel, DslErrorModel>, int) {
    let (tok, p1) = sp_advance(t, p);
    if parse_unsigned_spec(tok, 255) is Some && sp_peek(t, p1) == ","@ {
        let octave = parse_unsigned_spec(tok, 255).unwrap() as u8;
        let (_, p2) = sp_advance(t, p1);
        let (pitch_tok, p3) = sp_advance(t, p2);
        match pitch_from_name(pitch_tok) {
            Some(pitch) => (Ok(NoteFrequencyModel::Pitch { octave, pitch }), p3),
            None => (Err(DslErrorModel::InvalidWesternPitch(pitch_tok)), p3),
        }
    } else {
        match pitch_from_name(tok) {
            Some(pitch) => (Ok(NoteFrequencyModel::Pitch { octave: 4, pitch }), p1),
            None => if is_float_literal(tok) {
                (Ok(NoteFrequencyModel::Hz(tok)), p1)
            } else {
                (Err(DslErrorModel::InvalidNoteFrequency(tok)), p1)
            },
        }
    }
}

/// The tokens up to the next `:` token, joined with `:`, appended to `acc`.
pub open spec fn sp_file_path_from(t: Toks, p: int, acc: Seq<char>) -> (Seq<char>, int)
    decreases t.len() - p,
{
    if 0 <= p < t.len() && t[p] != ":"@ {
        let acc2 = if acc.len() > 0 {
            acc.push(':')
        } else {
            acc
        };
        sp_file_path_from(t, p + 1, acc2 + t[p])
    } else {
        (acc, p)
    }
}

pub open spec fn sp_file_path(t: Toks, p: int) -> (Result<Seq<char>, DslErrorModel>, int) {
    let (path, q) = sp_file_path_from(t, p, Seq::empty());
    if path.len() == 0 {
        (Err(DslErrorModel::EmptyFilePath), q)
    } else {
        (Ok(path), q)
    }
}

/// A `:` followed by a number.
pub open spec fn sp_colon_f32(t: Toks, p: int) -> (Result<Seq<char>, DslErrorModel>, int) {
    sp_kw_f32(t, p, ":"@)
}

pub open spec fn sp_colon_usize(t: Toks, p: int) -> (Result<usize, DslErrorModel>, int) {
    sp_kw_usize(t, p, ":"@)
}

pub open spec fn sp_osc_note(t: Toks, p: int) -> (Result<NoteDeclarationModel, DslErrorModel>, int) {
    match sp_expect(t, p, "osc"@) {
        (Err(e), q) => (Err(e), q),
        (Ok(_), p0) => match sp_expect(t, p0, ":"@) {
            (Err(e), q) => (Err(e), q),
            (Ok(_), p1) => match sp_waveforms(t, p1) {
                (Err(e), q) => (Err(e), q),
                (Ok(waveforms), p2) => match sp_expect(t, p2, ":"@) {
                    (Err(e), q) => (Err(e), q),
                    (Ok(_), p3) => match sp_note_freq(t, p3) {
                        (Err(e), q) => (Err(e), q),
                        (Ok(note_freq), p4) => match sp_colon_f32(t, p4) {
                            (Err(e), q) => (Err(e), q),
                            (Ok(volume), p5) => match sp_colon_usize(t, p5) {
                                (Err(e), q) => (Err(e), q),
                                (Ok(step_index), p6) => (
                                    Ok(
                                        NoteDeclarationModel::Oscillator {
                                            waveforms,
                                            note_freq,
                                            volume,
                                            step_index,
                                        },
                                    ),
                                    p6,
                                ),
                            },
                        },
                    },
                },
            },
        },
    }
}

pub open spec fn sp_samp_note(t: Toks, p: int) -> (Result<NoteDeclarationModel, DslErrorModel>, int) {
    match sp_expect(t, p, "samp"@) {
        (Err(e), q) => (Err(e), q),
        (Ok(_), p0) => match sp_expect(t, p0, ":"@) {
            (Err(e), q) => (Err(e), q),
            (Ok(_), p1) => match sp_file_path(t, p1) {
                (Err(e), q) => (Err(e), q),
                (Ok(file_path), p2) => match sp_colon_f32(t, p2) {
                    (Err(e), q) => (Err(e), q),
                    (Ok(volume), p3) => match sp_colon_usize(t, p3) {
                        (Err(e), q) => (Err(e), q),
                        (Ok(step_index), p4) => (
                            Ok(NoteDeclarationModel::Sample { file_path, volume, step_index }),
                            p4,
                        ),
                    },
                },
            },
        },
    }
}

pub open spec fn sp_note_declaration(t: Toks, p: int) -> (Result<NoteDeclarationModel, DslErrorModel>, int) {
    let tok = sp_peek(t, p);
    if tok == "osc"@ {
        sp_osc_note(t, p)
    } else if tok == "samp"@ {
        sp_samp_note(t, p)
    } else {
        (Err(DslErrorModel::UnknownNoteType(tok)), p)
    }
}

/// Envelope definitions while the next token is `a`, appended to `acc`.
pub open spec fn sp_envelopes_from(t: Toks, p: int, acc: Seq<EnvelopeDefModel>) -> (Result<Seq<EnvelopeDefModel>, DslErrorModel>, int)
    decreases t.len() - p,
{
    if 0 <= p < t.len() && t[p] == "a"@ {
        match sp_envelope_def(t, p) {
            (Err(e), q) => (Err(e), q),
            (Ok(env), q) => if p < q <= t.len() {
                sp_envelopes_from(t, q, acc.push(env))
            } else {
                (Ok(acc.push(env)), q)
            },
        }
    } else {
        (Ok(acc), p)
    }
}

/// Effect definitions while the next token names an effect.
pub open spec fn sp_effects_from(t: Toks, p: int, acc: Seq<EffectDefModel>) -> (Result<Seq<EffectDefModel>, DslErrorModel>, int)
    decreases t.len() - p,
{
    if 0 <= p < t.len() && is_effect_keyword(t[p]) {
        match sp_effect_def(t, p) {
            (Err(e), q) => (Err(e), q),
            (Ok(eff), q) => if p < q <= t.len() {
                sp_effects_from(t, q, acc.push(eff))
            } else {
                (Ok(acc.push(eff)), q)
            },
        }
    } else {
        (Ok(acc), p)
    }
}

/// Note declarations while the next token starts one.
pub open spec fn sp_notes_from(t: Toks, p: int, acc: Seq<NoteDeclarationModel>) -> (Result<Seq<NoteDeclarationModel>, DslErrorModel>, int)
    decreases t.len() - p,
{
    if 0 <= p < t.len() && is_note_keyword(t[p]) {
        match sp_note_declaration(t, p) {
            (Err(e), q) => (Err(e), q),
            (Ok(n), q) => if p < q <= t.len() {
                sp_notes_from(t, q, acc.push(n))
            } else {
                (Ok(acc.push(n)), q)
            },
        }
    } else {
        (Ok(acc), p)
    }
}

#[verifier::opaque]
pub open spec fn sp_outer_block(t: Toks, p: int) -> (Result<OuterBlockModel, DslErrorModel>, int) {
    match sp_sequence_def(t, p) {
        (Err(e), q) => (Err(e), q),
        (Ok(sequence_def), p1) => match sp_envelopes_from(t, p1, Seq::empty()) {
            (Err(e), q) => (Err(e), q),
            (Ok(envelope_defs), p2) => match sp_effects_from(t, p2, Seq::empty()) {
                (Err(e), q) => (Err(e), q),
                (Ok(effect_defs), p3) => match sp_notes_from(t, p3, Seq::empty()) {
                    (Err(e), q) => (Err(e), q),
                    (Ok(note_declarations), p4) => (
                        Ok(
                            OuterBlockModel {
                                sequence_def,
                                envelope_defs,
                                effect_defs,
                                note_declarations,
                            },
                        ),
                        p4,
                    ),
                },
            },
        },
    }
}

/// Blocks until the tokens run out, appended to `acc`.
pub open spec fn sp_blocks_from(t: Toks, p: int, acc: Seq<OuterBlockModel>) -> (Result<Seq<OuterBlockModel>, DslErrorModel>, int)
    decreases t.len() - p,
{
    if 0 <= p < t.len() {
        match sp_outer_block(t, p) {
            (Err(e), q) => (Err(e), q),
            (Ok(b), q) => if p < q <= t.len() {
                sp_blocks_from(t, q, acc.push(b))
            } else {
                (Ok(acc.push(b)), q)
            },
        }
    } else {
        (Ok(acc), p)
    }
}

/// The positions at which `sp_blocks_from` starts reading a block, from
/// `p` on, in order.
pub open spec fn block_starts(t: Toks, p: int) -> Seq<int>
    decreases t.len() - p,
{
    if 0 <= p < t.len() {
        match sp_outer_block(t, p) {
            (Ok(_), q) => if p < q <= t.len() {
                seq![p] + block_starts(t, q)
            } else {
                seq![p]
            },
            (Err(_), _) => seq![p],
        }
    } else {
        Seq::empty()
    }
}

/// A block that reads begins with a `FixedTimeNoteSequence` token.
proof fn lemma_block_begins_with_sequence(t: Toks, p: int)
    requires
        0 <= p < t.len(),
        sp_outer_block(t, p).0 is Ok,
    ensures
        t[p] == "FixedTimeNoteSequence"@,
{
    reveal(sp_outer_block);
    assert(sp_sequence_def(t, p).0 is Ok);
}

/// One step of reading blocks: the block at `p`, then the rest.
proof fn lemma_blocks_step(t: Toks, p: int, acc: Seq<OuterBlockModel>)
    requires
        0 <= p < t.len(),
        sp_outer_block(t, p).0 is Ok,
    ensures
        ({
            let q = sp_outer_block(t, p).1;
            let b = sp_outer_block(t, p).0->Ok_0;
            if p < q <= t.len() {
                &&& sp_blocks_from(t, p, acc) == sp_blocks_from(t, q, acc.push(b))
                &&& block_starts(t, p) == seq![p] + block_starts(t, q)
            } else {
                &&& sp_blocks_from(t, p, acc) == (
                    Ok::<Seq<OuterBlockModel>, DslErrorModel>(acc.push(b)),
                    q,
                )
                &&& block_starts(t, p) == seq![p]
            }
        }),
{
}

/// The blocks of a script that parses: one per block start, each start a
/// `FixedTimeNoteSequence` token, the first at `p`, each block read from
/// its start (its sequence, then its envelope, effect and note definitions
/// in order) ending where the next block starts; the blocks come after
/// `acc`, in the order of their starts.
pub proof fn lemma_blocks_from(t: Toks, p: int, acc: Seq<OuterBlockModel>)
    requires
        sp_blocks_from(t, p, acc).0 is Ok,
    ensures
        ({
            let bs = sp_blocks_from(t, p, acc).0->Ok_0;
            let s = block_starts(t, p);
            &&& bs.len() == acc.len() + s.len()
            &&& bs.subrange(0, acc.len() as int) == acc
            &&& s.len() > 0 ==> s[0] == p
            &&& forall|k: int|
                0 <= k < s.len() ==> t[#[trigger] s[k]] == "FixedTimeNoteSequence"@ && sp_outer_block(
                    t,
                    s[k],
                ).0 == Ok::<OuterBlockModel, DslErrorModel>(bs[acc.len() + k])
            &&& forall|k: int|
                0 <= k < s.len() - 1 ==> #[trigger] s[k] < s[k + 1] && sp_outer_block(t, s[k]).1 == s[k
                    + 1]
        }),
    decreases t.len() - p,
{
    if 0 <= p < t.len() {
        assert(sp_outer_block(t, p).0 is Ok);
        let q = sp_outer_block(t, p).1;
        let b = sp_outer_block(t, p).0->Ok_0;
        lemma_block_begins_with_sequence(t, p);
        lemma_blocks_step(t, p, acc);
        let bs = sp_blocks_from(t, p, acc).0->Ok_0;
        let s = block_starts(t, p);
        if p < q <= t.len() {
            lemma_blocks_from(t, q, acc.push(b));
            let rest = block_starts(t, q);
            assert(bs.subrange(0, acc.len() + 1int) == acc.push(b));
            assert(bs.subrange(0, acc.len() as int) =~= acc) by {
                assert forall|i: int| 0 <= i < acc.len() implies bs[i] == acc[i] by {
                    assert(bs.subrange(0, acc.len() + 1int)[i] == acc.push(b)[i]);
                }
            }
            assert(bs[acc.len() as int] == b) by {
                assert(bs.subrange(0, acc.len() + 1int)[acc.len() as int] == acc.push(b)[acc.len() as int]);
            }
            assert forall|k: int| 0 <= k < s.len() implies t[#[trigger] s[k]] == "FixedTimeNoteSequence"@
                && sp_outer_block(t, s[k]).0 == Ok::<OuterBlockModel, DslErrorModel>(
                bs[acc.len() + k],
            ) by {
                if k > 0 {
                    assert(s[k] == rest[k - 1]);
                    assert(acc.push(b).len() + (k - 1) == acc.len() + k);
                }
            }
            assert forall|k: int| 0 <= k < s.len() - 1 implies #[trigger] s[k] < s[k + 1] && sp_outer_block(
                t,
                s[k],
            ).1 == s[k + 1] by {
                if k > 0 {
                    assert(s[k] == rest[k - 1]);
                    assert(s[k + 1] == rest[k]);
                } else {
                    assert(s[1] == rest[0]);
                }
            }
        } else {
            assert(bs == acc.push(b));
            assert(bs.subrange(0, acc.len() as int) =~= acc);
        }
    } else {
        assert(sp_blocks_from(t, p, acc).0->Ok_0.subrange(0, acc.len() as int) =~= acc);
    }
}

proof fn lemma_expect_at(t: Toks, q: int, lit: Seq<char>)
    requires
        lit.len() > 0,
        sp_expect(t, q, lit).0 is Ok,
    ensures
        0 <= q < t.len(),
        t[q] == lit,
        sp_expect(t, q, lit).1 == q + 1,
{
}

proof fn lemma_f32_at(t: Toks, q: int)
    requires
        sp_f32(t, q).0 is Ok,
    ensures
        0 <= q < t.len(),
        sp_f32(t, q).0 == Ok::<Seq<char>, DslErrorModel>(t[q]),
        sp_f32(t, q).1 == q + 1,
{
    if !(0 <= q < t.len()) {
        assert(!is_float_literal(Seq::<char>::empty()));
    }
}

proof fn lemma_usize_at(t: Toks, q: int)
    requires
        sp_usize(t, q).0 is Ok,
    ensures
        0 <= q < t.len(),
        parse_unsigned_spec(t[q], usize::MAX as nat) == Some(sp_usize(t, q).0->Ok_0 as nat),
        sp_usize(t, q).1 == q + 1,
{
}

proof fn lemma_u8_at(t: Toks, q: int)
    requires
        sp_u8(t, q).0 is Ok,
    ensures
        0 <= q < t.len(),
        parse_unsigned_spec(t[q], 255) == Some(sp_u8(t, q).0->Ok_0 as nat),
        sp_u8(t, q).1 == q + 1,
{
}

/// A delay definition reads its values by their keywords: the tokens are
/// `delay mix M decay D interval_ms I duration_ms U num_repeats R
/// num_predelay_samples P num_concurrent_delays C`, in that order, and each
/// value lands in the field of its keyword's name.
pub proof fn lemma_delay_def_fields(t: Toks, p: int)
    requires
        sp_delay_def(t, p).0 is Ok,
    ensures
        ({
            let d = sp_delay_def(t, p).0->Ok_0;
            &&& 0 <= p && p + 15 <= t.len()
            &&& sp_delay_def(t, p).1 == p + 15
            &&& t[p] == "delay"@
            &&& t[p + 1] == "mix"@ && d.mix == t[p + 2]
            &&& t[p + 3] == "decay"@ && d.decay == t[p + 4]
            &&& t[p + 5] == "interval_ms"@ && d.interval_ms == t[p + 6]
            &&& t[p + 7] == "duration_ms"@ && d.duration_ms == t[p + 8]
            &&& t[p + 9] == "num_repeats"@
            &&& parse_unsigned_spec(t[p + 10], usize::MAX as nat) == Some(d.num_repeats as nat)
            &&& t[p + 11] == "num_predelay_samples"@
            &&& parse_unsigned_spec(t[p + 12], usize::MAX as nat) == Some(d.num_predelay_samples as nat)
            &&& t[p + 13] == "num_concurrent_delays"@
            &&& parse_unsigned_spec(t[p + 14], usize::MAX as nat) == Some(d.num_concurrent_delays as nat)
        }),
{
    reveal_strlit("delay");
    reveal_strlit("mix");
    reveal_strlit("decay");
    reveal_strlit("interval_ms");
    reveal_strlit("duration_ms");
    reveal_strlit("num_repeats");
    reveal_strlit("num_predelay_samples");
    reveal_strlit("num_concurrent_delays");
    lemma_expect_at(t, p, "delay"@);
    lemma_expect_at(t, p + 1, "mix"@);
    lemma_f32_at(t, p + 2);
    lemma_expect_at(t, p + 3, "decay"@);
    lemma_f32_at(t, p + 4);
    lemma_expect_at(t, p + 5, "interval_ms"@);
    lemma_f32_at(t, p + 6);
    lemma_expect_at(t, p + 7, "duration_ms"@);
    lemma_f32_at(t, p + 8);
    lemma_expect_at(t, p + 9, "num_repeats"@);
    lemma_usize_at(t, p + 10);
    lemma_expect_at(t, p + 11, "num_predelay_samples"@);
    lemma_usize_at(t, p + 12);
    lemma_expect_at(t, p + 13, "num_concurrent_delays"@);
    lemma_usize_at(t, p + 14);
}

/// A flanger definition reads `flanger window_size W mix M`: the window
/// size is the number after `window_size`, the mix the one after `mix`.
pub proof fn lemma_flanger_def_fields(t: Toks, p: int)
    requires
        sp_flanger_def(t, p).0 is Ok,
    ensures
        ({
            let f = sp_flanger_def(t, p).0->Ok_0;
            &&& 0 <= p && p + 5 <= t.len()
            &&& sp_flanger_def(t, p).1 == p + 5
            &&& t[p] == "flanger"@
            &&& t[p + 1] == "window_size"@
            &&& parse_unsigned_spec(t[p + 2], usize::MAX as nat) == Some(f.window_size as nat)
            &&& t[p + 3] == "mix"@ && f.mix == t[p + 4]
        }),
{
    reveal_strlit("flanger");
    reveal_strlit("window_size");
    reveal_strlit("mix");
    lemma_expect_at(t, p, "flanger"@);
    lemma_expect_at(t, p + 1, "window_size"@);
    lemma_usize_at(t, p + 2);
    lemma_expect_at(t, p + 3, "mix"@);
    lemma_f32_at(t, p + 4);
}

/// An LFO definition reads `lfo freq F amp A waveforms W, ...`: the
/// frequency is the number after `freq`, the amplitude the one after `amp`,
/// and the waveforms are the list that follows `waveforms`.
pub proof fn lemma_lfo_def_fields(t: Toks, p: int)
    requires
        sp_lfo_def(t, p).0 is Ok,
    ensures
        ({
            let l = sp_lfo_def(t, p).0->Ok_0;
            &&& 0 <= p && p + 6 <= t.len()
            &&& t[p] == "lfo"@
            &&& t[p + 1] == "freq"@ && l.freq == t[p + 2]
            &&& t[p + 3] == "amp"@ && l.amp == t[p + 4]
            &&& t[p + 5] == "waveforms"@
            &&& sp_waveforms(t, p + 6).0 == Ok::<Seq<WaveformType>, DslErrorModel>(l.waveforms)
        }),
{
    reveal_strlit("lfo");
    reveal_strlit("freq");
    reveal_strlit("amp");
    reveal_strlit("waveforms");
    lemma_expect_at(t, p, "lfo"@);
    lemma_expect_at(t, p + 1, "freq"@);
    lemma_f32_at(t, p + 2);
    lemma_expect_at(t, p + 3, "amp"@);
    lemma_f32_at(t, p + 4);
    lemma_expect_at(t, p + 5, "waveforms"@);
}

/// A sequence header reads `FixedTimeNoteSequence dur D tempo T num_steps
/// N`: the duration is the name after `dur`, the tempo the number after
/// `tempo`, the number of steps the one after `num_steps`.
pub proof fn lemma_sequence_def_fields(t: Toks, p: int)
    requires
        sp_sequence_def(t, p).0 is Ok,
    ensures
        ({
            let d = sp_sequence_def(t, p).0->Ok_0;
            &&& 0 <= p && p + 7 <= t.len()
            &&& sp_sequence_def(t, p).1 == p + 7
            &&& t[p] == "FixedTimeNoteSequence"@
            &&& t[p + 1] == "dur"@ && duration_parse(t[p + 2]) == Ok::<
                DslDurationType,
                DslErrorModel,
            >(d.dur)
            &&& t[p + 3] == "tempo"@ && parse_unsigned_spec(t[p + 4], 255) == Some(d.tempo as nat)
            &&& t[p + 5] == "num_steps"@ && parse_unsigned_spec(t[p + 6], usize::MAX as nat) == Some(
                d.num_steps as nat,
            )
        }),
{
    reveal_strlit("FixedTimeNoteSequence");
    reveal_strlit("dur");
    reveal_strlit("tempo");
    reveal_strlit("num_steps");
    lemma_expect_at(t, p, "FixedTimeNoteSequence"@);
    lemma_expect_at(t, p + 1, "dur"@);
    if !(0 <= p + 2 < t.len()) {
        assert(duration_from_name(Seq::<char>::empty()) is None) by {
            lemma_no_empty_duration_name();
        }
    }
    lemma_expect_at(t, p + 3, "tempo"@);
    lemma_u8_at(t, p + 4);
    lemma_expect_at(t, p + 5, "num_steps"@);
    lemma_usize_at(t, p + 6);
}

proof fn lemma_kw_pair_at(t: Toks, q: int, kw: Seq<char>)
    requires
        kw.len() > 0,
        sp_kw_pair(t, q, kw).0 is Ok,
    ensures
        0 <= q && q + 4 <= t.len(),
        sp_kw_pair(t, q, kw).1 == q + 4,
        t[q] == kw,
        t[q + 2] == ","@,
        sp_kw_pair(t, q, kw).0 == Ok::<(Seq<char>, Seq<char>), DslErrorModel>((t[q + 1], t[q + 3])),
{
    reveal_strlit(",");
    lemma_expect_at(t, q, kw);
    lemma_f32_at(t, q + 1);
    lemma_expect_at(t, q + 2, ","@);
    lemma_f32_at(t, q + 3);
}

/// An envelope definition reads `a A1 , A2 d D1 , D2 s S1 , S2 r R1 , R2`:
/// each stage is the pair of numbers after its letter.
pub proof fn lemma_envelope_def_fields(t: Toks, p: int)
    requires
        sp_envelope_def(t, p).0 is Ok,
    ensures
        ({
            let e = sp_envelope_def(t, p).0->Ok_0;
            &&& 0 <= p && p + 16 <= t.len()
            &&& sp_envelope_def(t, p).1 == p + 16
            &&& t[p] == "a"@ && e.attack == (t[p + 1], t[p + 3])
            &&& t[p + 4] == "d"@ && e.decay == (t[p + 5], t[p + 7])
            &&& t[p + 8] == "s"@ && e.sustain == (t[p + 9], t[p + 11])
            &&& t[p + 12] == "r"@ && e.release == (t[p + 13], t[p + 15])
        }),
{
    reveal_strlit("a");
    reveal_strlit("d");
    reveal_strlit("s");
    reveal_strlit("r");
    lemma_kw_pair_at(t, p, "a"@);
    lemma_kw_pair_at(t, p + 4, "d"@);
    lemma_kw_pair_at(t, p + 8, "s"@);
    lemma_kw_pair_at(t, p + 12, "r"@);
}

} // verus!
