//! The recursive-descent parser of composition scripts.
use vstd::prelude::*;
use crate::dsl::ast::{
    DelayDef, DslDurationType, DslError, DslErrorModel, EffectDef, EnvelopeDef, FlangerDef,
    FloatLiteral, LFODef, NoteDeclaration, NoteFrequency, OuterBlock, OuterBlockModel, Script,
    SequenceDef, WaveformType, WesternPitchType, error_message,
};
use crate::dsl::grammar::{
    Toks, is_effect_keyword, is_note_keyword, sp_advance, sp_blocks_from, sp_delay_def,
    sp_effect_def, sp_effects_from, sp_envelope_def, sp_envelope_pair, sp_envelopes_from,
    sp_expect, sp_f32, sp_file_path, sp_file_path_from, sp_flanger_def, sp_lfo_def,
    sp_note_declaration, sp_note_freq, sp_notes_from, sp_osc_note, sp_outer_block, sp_peek,
    sp_samp_note, sp_sequence_def, sp_u8, sp_usize, sp_waveform, sp_waveforms,
    sp_waveforms_from, block_starts, lemma_blocks_from,
};
use crate::dsl::names::result_view;
use crate::dsl::tokenizer::{tokenize, tokenize_spec, strings_view, all_nonempty};
use crate::numbers::{is_float_literal_exec, parse_unsigned};
use crate::text::{chars_of, str_eq};

verus! {

/// A result whose value is taken by its view.
pub open spec fn rview<T: View>(r: Result<T, DslError>) -> Result<T::V, DslErrorModel> {
    match r {
        Ok(t) => Ok(t@),
        Err(e) => Err(e@),
    }
}

/// A result holding a vector, each element taken by its view.
pub open spec fn rview_vec<T: View>(r: Result<Vec<T>, DslError>) -> Result<Seq<T::V>, DslErrorModel> {
    match r {
        Ok(v) => Ok(v@.map_values(|x: T| x@)),
        Err(e) => Err(e@),
    }
}

/// What parsing a script gives: its blocks, or the error's text.
pub open spec fn parse_outcome(t: Toks, p: int) -> Result<Seq<OuterBlockModel>, Seq<char>> {
    match sp_blocks_from(t, p, Seq::empty()).0 {
        Ok(b) => Ok(b),
        Err(e) => Err(error_message(e)),
    }
}

/// What `parse_dsl` gives for a script's text.
pub open spec fn parse_dsl_spec(input: Seq<char>) -> Result<Seq<OuterBlockModel>, Seq<char>> {
    parse_outcome(tokenize_spec(input), 0)
}

pub open spec fn script_result_view(r: Result<Script, String>) -> Result<Seq<OuterBlockModel>, Seq<char>> {
    match r {
        Ok(s) => Ok(s@),
        Err(m) => Err(m@),
    }
}

/// A parser over the tokens of one script.
pub struct Parser {
    tokens: Vec<String>,
    current: usize,
}

impl Parser {
    #[verifier::type_invariant]
    spec fn inv(self) -> bool {
        self.current <= self.tokens.len()
    }

    /// The tokens, as character sequences.
    pub closed spec fn toks(&self) -> Toks {
        strings_view(self.tokens@)
    }

    /// The position of the next token to read.
    pub closed spec fn pos(&self) -> int {
        self.current as int
    }

    /// A parser positioned at the first token of `input`.
    pub fn new(input: &str) -> (r: Self)
        ensures
            r.toks() == tokenize_spec(input@),
            all_nonempty(r.toks()),
            r.pos() == 0,
    {
        let tokens = tokenize(input);
        Self { tokens, current: 0 }
    }

    /// Splits a script into tokens (see `dsl::tokenizer`).
    pub fn tokenize(input: &str) -> (r: Vec<String>)
        ensures
            strings_view(r@) == tokenize_spec(input@),
            all_nonempty(strings_view(r@)),
    {
        tokenize(input)
    }

    /// Parses the whole script from the current position.
    pub fn parse(&mut self) -> (r: Result<Script, String>)
        ensures
            final(self).toks() == old(self).toks(),
            script_result_view(r) == parse_outcome(old(self).toks(), old(self).pos()),
    {
        match self.parse_script() {
            Ok(s) => Ok(s),
            Err(e) => Err(e.message()),
        }
    }

    fn parse_script(&mut self) -> (r: Result<Script, DslError>)
        ensures
            final(self).toks() == old(self).toks(),
            rview(r) == sp_blocks_from(old(self).toks(), old(self).pos(), Seq::empty()).0,
    {
        let ghost t = self.toks();
        let ghost p0 = self.pos();
        let mut outer_blocks: Vec<OuterBlock> = Vec::new();
        assert(outer_blocks@.map_values(|b: OuterBlock| b@) =~= Seq::<OuterBlockModel>::empty());
        while self.current < self.tokens.len()
            invariant
                self.toks() == t,
                t == old(self).toks(),
                p0 == old(self).pos(),
                sp_blocks_from(t, p0, Seq::empty()) == sp_blocks_from(
                    t,
                    self.pos(),
                    outer_blocks@.map_values(|b: OuterBlock| b@),
                ),
            decreases self.tokens.len() - self.current,
        {
            proof {
                use_type_invariant(&*self);
            }
            let ghost p = self.pos();
            let ghost acc = outer_blocks@.map_values(|b: OuterBlock| b@);
            let block = match self.parse_outer_block() {
                Ok(b) => b,
                Err(e) => return Err(e),
            };
            proof {
                use_type_invariant(&*self);
            }
            let ghost b = block@;
            outer_blocks.push(block);
            assert(outer_blocks@.map_values(|b: OuterBlock| b@) =~= acc.push(b));
        }
        Ok(Script { outer_blocks })
    }

    fn parse_outer_block(&mut self) -> (r: Result<OuterBlock, DslError>)
        ensures
            final(self).toks() == old(self).toks(),
            (rview(r), final(self).pos()) == sp_outer_block(old(self).toks(), old(self).pos()),
            final(self).pos() >= old(self).pos(),
            old(self).pos() < old(self).toks().len() ==> final(self).pos() > old(self).pos(),
    {
        proof {
            reveal(sp_outer_block);
        }
        let sequence_def = match self.parse_sequence_def() {
            Ok(s) => s,
            Err(e) => return Err(e),
        };
        // Optional envelope definitions
        let envelope_defs = match self.parse_envelope_defs() {
            Ok(v) => v,
            Err(e) => return Err(e),
        };
        // Optional effect definitions
        let effect_defs = match self.parse_effect_defs() {
            Ok(v) => v,
            Err(e) => return Err(e),
        };
        // Note declarations
        let note_declarations = match self.parse_note_declarations() {
            Ok(v) => v,
            Err(e) => return Err(e),
        };
        Ok(OuterBlock { sequence_def, envelope_defs, effect_defs, note_declarations })
    }

    /// Envelope definitions, while the next token is `a`.
    fn parse_envelope_defs(&mut self) -> (r: Result<Vec<EnvelopeDef>, DslError>)
        ensures
            final(self).toks() == old(self).toks(),
            (rview_vec(r), final(self).pos()) == sp_envelopes_from(
                old(self).toks(),
                old(self).pos(),
                Seq::empty(),
            ),
            final(self).pos() >= old(self).pos(),
    {
        let ghost t = self.toks();
        let ghost p0 = self.pos();
        let mut envelope_defs: Vec<EnvelopeDef> = Vec::new();
        assert(envelope_defs@.map_values(|e: EnvelopeDef| e@) =~= Seq::<
            crate::dsl::ast::EnvelopeDefModel,
        >::empty());
        while self.current < self.tokens.len() && str_eq(self.peek(), "a")
            invariant
                self.toks() == t,
                t == old(self).toks(),
                p0 == old(self).pos(),
                self.pos() >= p0,
                sp_envelopes_from(t, p0, Seq::empty()) == sp_envelopes_from(
                    t,
                    self.pos(),
                    envelope_defs@.map_values(|e: EnvelopeDef| e@),
                ),
            decreases self.tokens.len() - self.current,
        {
            proof {
                use_type_invariant(&*self);
            }
            let ghost acc = envelope_defs@.map_values(|e: EnvelopeDef| e@);
            let envelope_def = match self.parse_envelope_def() {
                Ok(e) => e,
                Err(e) => return Err(e),
            };
            proof {
                use_type_invariant(&*self);
            }
            let ghost m = envelope_def@;
            envelope_defs.push(envelope_def);
            assert(envelope_defs@.map_values(|e: EnvelopeDef| e@) =~= acc.push(m));
        }
        proof {
            use_type_invariant(&*self);
        }
        Ok(envelope_defs)
    }

    /// Effect definitions, while the next token names an effect.
    fn parse_effect_defs(&mut self) -> (r: Result<Vec<EffectDef>, DslError>)
        ensures
            final(self).toks() == old(self).toks(),
            (rview_vec(r), final(self).pos()) == sp_effects_from(
                old(self).toks(),
                old(self).pos(),
                Seq::empty(),
            ),
            final(self).pos() >= old(self).pos(),
    {
        let ghost t = self.toks();
        let ghost p0 = self.pos();
        let mut effect_defs: Vec<EffectDef> = Vec::new();
        assert(effect_defs@.map_values(|e: EffectDef| e@) =~= Seq::<
            crate::dsl::ast::EffectDefModel,
        >::empty());
        while self.current < self.tokens.len() && self.is_effect_start()
            invariant
                self.toks() == t,
                t == old(self).toks(),
                p0 == old(self).pos(),
                self.pos() >= p0,
                sp_effects_from(t, p0, Seq::empty()) == sp_effects_from(
                    t,
                    self.pos(),
                    effect_defs@.map_values(|e: EffectDef| e@),
                ),
            decreases self.tokens.len() - self.current,
        {
            proof {
                use_type_invariant(&*self);
            }
            let ghost acc = effect_defs@.map_values(|e: EffectDef| e@);
            let effect_def = match self.parse_effect_def() {
                Ok(e) => e,
                Err(e) => return Err(e),
            };
            proof {
                use_type_invariant(&*self);
            }
            let ghost m = effect_def@;
            effect_defs.push(effect_def);
            assert(effect_defs@.map_values(|e: EffectDef| e@) =~= acc.push(m));
        }
        proof {
            use_type_invariant(&*self);
        }
        Ok(effect_defs)
    }

    /// Note declarations, while the next token starts one.
    fn parse_note_declarations(&mut self) -> (r: Result<Vec<NoteDeclaration>, DslError>)
        ensures
            final(self).toks() == old(self).toks(),
            (rview_vec(r), final(self).pos()) == sp_notes_from(
                old(self).toks(),
                old(self).pos(),
                Seq::empty(),
            ),
            final(self).pos() >= old(self).pos(),
    {
        let ghost t = self.toks();
        let ghost p0 = self.pos();
        let mut note_declarations: Vec<NoteDeclaration> = Vec::new();
        assert(note_declarations@.map_values(|n: NoteDeclaration| n@) =~= Seq::<
            crate::dsl::ast::NoteDeclarationModel,
        >::empty());
        while self.current < self.tokens.len() && self.is_note_declaration_start()
            invariant
                self.toks() == t,
                t == old(self).toks(),
                p0 == old(self).pos(),
                self.pos() >= p0,
                sp_notes_from(t, p0, Seq::empty()) == sp_notes_from(
                    t,
                    self.pos(),
                    note_declarations@.map_values(|n: NoteDeclaration| n@),
                ),
            decreases self.tokens.len() - self.current,
        {
            proof {
                use_type_invariant(&*self);
            }
            let ghost acc = note_declarations@.map_values(|n: NoteDeclaration| n@);
            let note_declaration = match self.parse_note_declaration() {
                Ok(n) => n,
                Err(e) => return Err(e),
            };
            proof {
                use_type_invariant(&*self);
            }
            let ghost m = note_declaration@;
            note_declarations.push(note_declaration);
            assert(note_declarations@.map_values(|n: NoteDeclaration| n@) =~= acc.push(m));
        }
        proof {
            use_type_invariant(&*self);
        }
        Ok(note_declarations)
    }

    fn parse_sequence_def(&mut self) -> (r: Result<SequenceDef, DslError>)
        ensures
            final(self).toks() == old(self).toks(),
            (result_view(r), final(self).pos()) == sp_sequence_def(
                old(self).toks(),
                old(self).pos(),
            ),
            final(self).pos() >= old(self).pos(),
            old(self).pos() < old(self).toks().len() ==> final(self).pos() > old(self).pos(),
    {
        match self.expect("FixedTimeNoteSequence") {
            Ok(_) => {},
            Err(e) => return Err(e),
        }
        match self.expect("dur") {
            Ok(_) => {},
            Err(e) => return Err(e),
        }
        let dur = match self.parse_duration_type() {
            Ok(d) => d,
            Err(e) => return Err(e),
        };
        match self.expect("tempo") {
            Ok(_) => {},
            Err(e) => return Err(e),
        }
        let tempo = match self.parse_u8() {
            Ok(v) => v,
            Err(e) => return Err(e),
        };
        match self.expect("num_steps") {
            Ok(_) => {},
            Err(e) => return Err(e),
        }
        let num_steps = match self.parse_usize() {
            Ok(v) => v,
            Err(e) => return Err(e),
        };
        Ok(SequenceDef { dur, tempo, num_steps })
    }

    fn parse_duration_type(&mut self) -> (r: Result<DslDurationType, DslError>)
        ensures
            final(self).toks() == old(self).toks(),
            final(self).pos() == sp_advance(old(self).toks(), old(self).pos()).1,
            result_view(r) == crate::dsl::names::duration_parse(
                sp_advance(old(self).toks(), old(self).pos()).0,
            ),
    {
        let token = self.advance();
        DslDurationType::from_str(token.as_str())
    }

    fn parse_envelope_def(&mut self) -> (r: Result<EnvelopeDef, DslError>)
        ensures
            final(self).toks() == old(self).toks(),
            (rview(r), final(self).pos()) == sp_envelope_def(old(self).toks(), old(self).pos()),
            final(self).pos() >= old(self).pos(),
            old(self).pos() < old(self).toks().len() ==> final(self).pos() > old(self).pos(),
    {
        match self.expect("a") {
            Ok(_) => {},
            Err(e) => return Err(e),
        }
        let attack = match self.parse_envelope_pair() {
            Ok(v) => v,
            Err(e) => return Err(e),
        };
        match self.expect("d") {
            Ok(_) => {},
            Err(e) => return Err(e),
        }
        let decay = match self.parse_envelope_pair() {
            Ok(v) => v,
            Err(e) => return Err(e),
        };
        match self.expect("s") {
            Ok(_) => {},
            Err(e) => return Err(e),
        }
        let sustain = match self.parse_envelope_pair() {
            Ok(v) => v,
            Err(e) => return Err(e),
        };
        match self.expect("r") {
            Ok(_) => {},
            Err(e) => return Err(e),
        }
        let release = match self.parse_envelope_pair() {
            Ok(v) => v,
            Err(e) => return Err(e),
        };
        Ok(EnvelopeDef { attack, decay, sustain, release })
    }

    fn parse_envelope_pair(&mut self) -> (r: Result<(FloatLiteral, FloatLiteral), DslError>)
        ensures
            final(self).toks() == old(self).toks(),
            (rview(r), final(self).pos()) == sp_envelope_pair(old(self).toks(), old(self).pos()),
            final(self).pos() >= old(self).pos(),
    {
        let first = match self.parse_f32() {
            Ok(v) => v,
            Err(e) => return Err(e),
        };
        match self.expect(",") {
            Ok(_) => {},
            Err(e) => return Err(e),
        }
        let second = match self.parse_f32() {
            Ok(v) => v,
            Err(e) => return Err(e),
        };
        Ok((first, second))
    }

    fn parse_effect_def(&mut self) -> (r: Result<EffectDef, DslError>)
        ensures
            final(self).toks() == old(self).toks(),
            (rview(r), final(self).pos()) == sp_effect_def(old(self).toks(), old(self).pos()),
            final(self).pos() >= old(self).pos(),
            old(self).pos() < old(self).toks().len() && is_effect_keyword(
                old(self).toks()[old(self).pos()],
            ) ==> final(self).pos() > old(self).pos(),
    {
        if str_eq(self.peek(), "delay") {
            match self.parse_delay_def() {
                Ok(d) => Ok(EffectDef::Delay(d)),
                Err(e) => Err(e),
            }
        } else if str_eq(self.peek(), "flanger") {
            match self.parse_flanger_def() {
                Ok(f) => Ok(EffectDef::Flanger(f)),
                Err(e) => Err(e),
            }
        } else if str_eq(self.peek(), "lfo") {
            match self.parse_lfo_def() {
                Ok(l) => Ok(EffectDef::LFO(l)),
                Err(e) => Err(e),
            }
        } else {
            Err(DslError::UnknownEffectType(self.peek().to_owned()))
        }
    }

    fn parse_delay_def(&mut self) -> (r: Result<DelayDef, DslError>)
        ensures
            final(self).toks() == old(self).toks(),
            (rview(r), final(self).pos()) == sp_delay_def(old(self).toks(), old(self).pos()),
            final(self).pos() >= old(self).pos(),
            old(self).pos() < old(self).toks().len() ==> final(self).pos() > old(self).pos(),
    {
        match self.expect("delay") {
            Ok(_) => {},
            Err(e) => return Err(e),
        }
        match self.expect("mix") {
            Ok(_) => {},
            Err(e) => return Err(e),
        }
        let mix = match self.parse_f32() {
            Ok(v) => v,
            Err(e) => return Err(e),
        };
        match self.expect("decay") {
            Ok(_) => {},
            Err(e) => return Err(e),
        }
        let decay = match self.parse_f32() {
            Ok(v) => v,
            Err(e) => return Err(e),
        };
        match self.expect("interval_ms") {
            Ok(_) => {},
            Err(e) => return Err(e),
        }
        let interval_ms = match self.parse_f32() {
            Ok(v) => v,
            Err(e) => return Err(e),
        };
        match self.expect("duration_ms") {
            Ok(_) => {},
            Err(e) => return Err(e),
        }
        let duration_ms = match self.parse_f32() {
            Ok(v) => v,
            Err(e) => return Err(e),
        };
        match self.expect("num_repeats") {
            Ok(_) => {},
            Err(e) => return Err(e),
        }
        let num_repeats = match self.parse_usize() {
            Ok(v) => v,
            Err(e) => return Err(e),
        };
        match self.expect("num_predelay_samples") {
            Ok(_) => {},
            Err(e) => return Err(e),
        }
        let num_predelay_samples = match self.parse_usize() {
            Ok(v) => v,
            Err(e) => return Err(e),
        };
        match self.expect("num_concurrent_delays") {
            Ok(_) => {},
            Err(e) => return Err(e),
        }
        let num_concurrent_delays = match self.parse_usize() {
            Ok(v) => v,
            Err(e) => return Err(e),
        };
        Ok(
            DelayDef {
                mix,
                decay,
                interval_ms,
                duration_ms,
                num_repeats,
                num_predelay_samples,
                num_concurrent_delays,
            },
        )
    }

    fn parse_flanger_def(&mut self) -> (r: Result<FlangerDef, DslError>)
        ensures
            final(self).toks() == old(self).toks(),
            (rview(r), final(self).pos()) == sp_flanger_def(old(self).toks(), old(self).pos()),
            final(self).pos() >= old(self).pos(),
            old(self).pos() < old(self).toks().len() ==> final(self).pos() > old(self).pos(),
    {
        match self.expect("flanger") {
            Ok(_) => {},
            Err(e) => return Err(e),
        }
        match self.expect("window_size") {
            Ok(_) => {},
            Err(e) => return Err(e),
        }
        let window_size = match self.parse_usize() {
            Ok(v) => v,
            Err(e) => return Err(e),
        };
        match self.expect("mix") {
            Ok(_) => {},
            Err(e) => return Err(e),
        }
        let mix = match self.parse_f32() {
            Ok(v) => v,
            Err(e) => return Err(e),
        };
        Ok(FlangerDef { window_size, mix })
    }

    fn parse_lfo_def(&mut self) -> (r: Result<LFODef, DslError>)
        ensures
            final(self).toks() == old(self).toks(),
            (rview(r), final(self).pos()) == sp_lfo_def(old(self).toks(), old(self).pos()),
            final(self).pos() >= old(self).pos(),
            old(self).pos() < old(self).toks().len() ==> final(self).pos() > old(self).pos(),
    {
        match self.expect("lfo") {
            Ok(_) => {},
            Err(e) => return Err(e),
        }
        match self.expect("freq") {
            Ok(_) => {},
            Err(e) => return Err(e),
        }
        let freq = match self.parse_f32() {
            Ok(v) => v,
            Err(e) => return Err(e),
        };
        match self.expect("amp") {
            Ok(_) => {},
            Err(e) => return Err(e),
        }
        let amp = match self.parse_f32() {
            Ok(v) => v,
            Err(e) => return Err(e),
        };
        match self.expect("waveforms") {
            Ok(_) => {},
            Err(e) => return Err(e),
        }
        let waveforms = match self.parse_waveforms() {
            Ok(v) => v,
            Err(e) => return Err(e),
        };
        Ok(LFODef { freq, amp, waveforms })
    }

    fn parse_waveforms(&mut self) -> (r: Result<Vec<WaveformType>, DslError>)
        ensures
            final(self).toks() == old(self).toks(),
            (rview(r), final(self).pos()) == sp_waveforms(old(self).toks(), old(self).pos()),
            final(self).pos() >= old(self).pos(),
    {
        let ghost t = self.toks();
        let ghost p0 = self.pos();
        let mut waveforms: Vec<WaveformType> = Vec::new();
        loop
            invariant_except_break
                self.toks() == t,
                t == old(self).toks(),
                p0 == old(self).pos(),
                self.pos() >= p0,
                sp_waveforms(t, p0) == sp_waveforms_from(t, self.pos(), waveforms@),
            ensures
                self.toks() == t,
                self.pos() >= p0,
                sp_waveforms(t, p0) == (Ok::<Seq<WaveformType>, DslErrorModel>(waveforms@), self.pos()),
            decreases self.tokens.len() - self.current,
        {
            proof {
                use_type_invariant(&*self);
            }
            let ghost p = self.pos();
            let ghost acc = waveforms@;
            let waveform = match self.parse_waveform() {
                Ok(w) => w,
                Err(e) => return Err(e),
            };
            proof {
                use_type_invariant(&*self);
            }
            let ghost q = self.pos();
            waveforms.push(waveform);
            if str_eq(self.peek(), ",") {
                proof {
                    reveal_strlit(",");
                }
                assert(p <= q);
                assert(sp_peek(t, q) == ","@);
                assert(","@.len() == 1);
                assert(q < t.len());
                assert(sp_waveforms_from(t, p, acc) == sp_waveforms_from(t, q + 1, waveforms@));
                self.advance();
            } else {
                assert(sp_waveforms_from(t, p, acc) == (
                    Ok::<Seq<WaveformType>, DslErrorModel>(waveforms@),
                    q,
                ));
                break;
            }
        }
        Ok(waveforms)
    }

    fn parse_waveform(&mut self) -> (r: Result<WaveformType, DslError>)
        ensures
            final(self).toks() == old(self).toks(),
            (result_view(r), final(self).pos()) == sp_waveform(old(self).toks(), old(self).pos()),
            final(self).pos() >= old(self).pos(),
    {
        let token = self.advance();
        WaveformType::from_str(token.as_str())
    }

    fn parse_note_declaration(&mut self) -> (r: Result<NoteDeclaration, DslError>)
        ensures
            final(self).toks() == old(self).toks(),
            (rview(r), final(self).pos()) == sp_note_declaration(
                old(self).toks(),
                old(self).pos(),
            ),
            final(self).pos() >= old(self).pos(),
            old(self).pos() < old(self).toks().len() && is_note_keyword(
                old(self).toks()[old(self).pos()],
            ) ==> final(self).pos() > old(self).pos(),
    {
        if str_eq(self.peek(), "osc") {
            self.parse_osc_note()
        } else if str_eq(self.peek(), "samp") {
            self.parse_samp_note()
        } else {
            Err(DslError::UnknownNoteType(self.peek().to_owned()))
        }
    }

    fn parse_osc_note(&mut self) -> (r: Result<NoteDeclaration, DslError>)
        ensures
            final(self).toks() == old(self).toks(),
            (rview(r), final(self).pos()) == sp_osc_note(old(self).toks(), old(self).pos()),
            final(self).pos() >= old(self).pos(),
            old(self).pos() < old(self).toks().len() ==> final(self).pos() > old(self).pos(),
    {
        match self.expect("osc") {
            Ok(_) => {},
            Err(e) => return Err(e),
        }
        match self.expect(":") {
            Ok(_) => {},
            Err(e) => return Err(e),
        }
        let waveforms = match self.parse_waveforms() {
            Ok(v) => v,
            Err(e) => return Err(e),
        };
        match self.expect(":") {
            Ok(_) => {},
            Err(e) => return Err(e),
        }
        let note_freq = match self.parse_note_freq() {
            Ok(v) => v,
            Err(e) => return Err(e),
        };
        match self.expect(":") {
            Ok(_) => {},
            Err(e) => return Err(e),
        }
        let volume = match self.parse_f32() {
            Ok(v) => v,
            Err(e) => return Err(e),
        };
        match self.expect(":") {
            Ok(_) => {},
            Err(e) => return Err(e),
        }
        let step_index = match self.parse_usize() {
            Ok(v) => v,
            Err(e) => return Err(e),
        };
        Ok(NoteDeclaration::Oscillator { waveforms, note_freq, volume, step_index })
    }

    fn parse_samp_note(&mut self) -> (r: Result<NoteDeclaration, DslError>)
        ensures
            final(self).toks() == old(self).toks(),
            (rview(r), final(self).pos()) == sp_samp_note(old(self).toks(), old(self).pos()),
            final(self).pos() >= old(self).pos(),
            old(self).pos() < old(self).toks().len() ==> final(self).pos() > old(self).pos(),
    {
        match self.expect("samp") {
            Ok(_) => {},
            Err(e) => return Err(e),
        }
        match self.expect(":") {
            Ok(_) => {},
            Err(e) => return Err(e),
        }
        let file_path = match self.parse_file_path() {
            Ok(v) => v,
            Err(e) => return Err(e),
        };
        match self.expect(":") {
            Ok(_) => {},
            Err(e) => return Err(e),
        }
        let volume = match self.parse_f32() {
            Ok(v) => v,
            Err(e) => return Err(e),
        };
        match self.expect(":") {
            Ok(_) => {},
            Err(e) => return Err(e),
        }
        let step_index = match self.parse_usize() {
            Ok(v) => v,
            Err(e) => return Err(e),
        };
        Ok(NoteDeclaration::Sample { file_path, volume, step_index })
    }

    fn parse_note_freq(&mut self) -> (r: Result<NoteFrequency, DslError>)
        ensures
            final(self).toks() == old(self).toks(),
            (rview(r), final(self).pos()) == sp_note_freq(old(self).toks(), old(self).pos()),
            final(self).pos() >= old(self).pos(),
    {
        let token = self.advance();
        let chars = chars_of(token.as_str());
        // Try to read `octave , pitch` first.
        if let Some(octave) = parse_unsigned(&chars, 255) {
            if str_eq(self.peek(), ",") {
                self.advance();
                let pitch_token = self.advance();
                return match WesternPitchType::from_str(pitch_token.as_str()) {
                    Ok(pitch) => Ok(NoteFrequency::Pitch { octave: octave as u8, pitch }),
                    Err(_) => Err(DslError::InvalidWesternPitch(pitch_token)),
                };
            }
        }
        // A pitch name alone is in octave 4 (middle C).
        if let Ok(pitch) = WesternPitchType::from_str(token.as_str()) {
            return Ok(NoteFrequency::Pitch { octave: 4, pitch });
        }
        // Otherwise a frequency in Hz.
        if is_float_literal_exec(&chars) {
            Ok(NoteFrequency::Hz(FloatLiteral { text: token }))
        } else {
            Err(DslError::InvalidNoteFrequency(token))
        }
    }

    fn parse_file_path(&mut self) -> (r: Result<String, DslError>)
        ensures
            final(self).toks() == old(self).toks(),
            (rview(r), final(self).pos()) == sp_file_path(old(self).toks(), old(self).pos()),
            final(self).pos() >= old(self).pos(),
    {
        let ghost t = self.toks();
        let ghost p0 = self.pos();
        let mut file_path: Vec<char> = Vec::new();
        while self.current < self.tokens.len() && !str_eq(self.peek(), ":")
            invariant
                self.toks() == t,
                self.pos() >= p0,
                sp_file_path_from(t, p0, Seq::empty()) == sp_file_path_from(
                    t,
                    self.pos(),
                    file_path@,
                ),
            decreases self.tokens.len() - self.current,
        {
            proof {
                use_type_invariant(&*self);
            }
            let ghost acc = file_path@;
            if file_path.len() > 0 {
                file_path.push(':');
            }
            let ghost mid = file_path@;
            let token = self.advance();
            let tc = chars_of(token.as_str());
            let mut k: usize = 0;
            while k < tc.len()
                invariant
                    k <= tc.len(),
                    file_path@ == mid + tc@.take(k as int),
                decreases tc.len() - k,
            {
                file_path.push(tc[k]);
                assert(tc@.take(k + 1) == tc@.take(k as int).push(tc@[k as int]));
                k = k + 1;
            }
            assert(tc@.take(k as int) == tc@);
        }
        proof {
            use_type_invariant(&*self);
        }
        if file_path.len() == 0 {
            Err(DslError::EmptyFilePath)
        } else {
            Ok(crate::text::string_from_chars(&file_path))
        }
    }

    fn is_effect_start(&self) -> (r: bool)
        ensures
            r == is_effect_keyword(sp_peek(self.toks(), self.pos())),
    {
        str_eq(self.peek(), "delay") || str_eq(self.peek(), "flanger") || str_eq(
            self.peek(),
            "lfo",
        )
    }

    fn is_note_declaration_start(&self) -> (r: bool)
        ensures
            r == is_note_keyword(sp_peek(self.toks(), self.pos())),
    {
        str_eq(self.peek(), "osc") || str_eq(self.peek(), "samp")
    }

    fn expect(&mut self, expected: &str) -> (r: Result<(), DslError>)
        ensures
            final(self).toks() == old(self).toks(),
            (result_view(r), final(self).pos()) == sp_expect(
                old(self).toks(),
                old(self).pos(),
                expected@,
            ),
            final(self).pos() >= old(self).pos(),
            old(self).pos() < old(self).toks().len() ==> final(self).pos() > old(self).pos(),
    {
        let token = self.advance();
        if str_eq(token.as_str(), expected) {
            Ok(())
        } else {
            Err(DslError::Expected { expected: expected.to_owned(), got: token })
        }
    }

    fn advance(&mut self) -> (r: String)
        ensures
            final(self).toks() == old(self).toks(),
            (r@, final(self).pos()) == sp_advance(old(self).toks(), old(self).pos()),
            final(self).pos() >= old(self).pos(),
    {
        proof {
            use_type_invariant(&*self);
        }
        if self.current < self.tokens.len() {
            let token = self.tokens[self.current].clone();
            self.current = self.current + 1;
            token
        } else {
            String::new()
        }
    }

    fn peek(&self) -> (r: &str)
        ensures
            r@ == sp_peek(self.toks(), self.pos()),
    {
        proof {
            use_type_invariant(self);
            reveal_strlit("");
        }
        if self.current < self.tokens.len() {
            self.tokens[self.current].as_str()
        } else {
            ""
        }
    }

    fn parse_f32(&mut self) -> (r: Result<FloatLiteral, DslError>)
        ensures
            final(self).toks() == old(self).toks(),
            (rview(r), final(self).pos()) == sp_f32(old(self).toks(), old(self).pos()),
            final(self).pos() >= old(self).pos(),
    {
        let token = self.advance();
        let chars = chars_of(token.as_str());
        if is_float_literal_exec(&chars) {
            Ok(FloatLiteral { text: token })
        } else {
            Err(DslError::InvalidFloat(token))
        }
    }

    fn parse_u8(&mut self) -> (r: Result<u8, DslError>)
        ensures
            final(self).toks() == old(self).toks(),
            (rview(r), final(self).pos()) == sp_u8(old(self).toks(), old(self).pos()),
            final(self).pos() >= old(self).pos(),
    {
        let token = self.advance();
        let chars = chars_of(token.as_str());
        match parse_unsigned(&chars, 255) {
            Some(v) => Ok(v as u8),
            None => Err(DslError::InvalidU8(token)),
        }
    }

    fn parse_usize(&mut self) -> (r: Result<usize, DslError>)
        ensures
            final(self).toks() == old(self).toks(),
            (rview(r), final(self).pos()) == sp_usize(old(self).toks(), old(self).pos()),
            final(self).pos() >= old(self).pos(),
    {
        let token = self.advance();
        let chars = chars_of(token.as_str());
        match parse_unsigned(&chars, usize::MAX as u64) {
            Some(v) => Ok(v as usize),
            None => Err(DslError::InvalidUsize(token)),
        }
    }
}

/// A parsed script has one block per block header: the blocks start, in
/// order, at `FixedTimeNoteSequence` tokens, the first at the first token;
/// block `k` is what `sp_outer_block` reads from the `k`-th start (its
/// sequence, then its envelope, effect and note definitions, each in
/// order), and it ends where the next block starts.
pub proof fn lemma_script_blocks(input: Seq<char>)
    requires
        parse_dsl_spec(input) is Ok,
    ensures
        ({
            let t = tokenize_spec(input);
            let bs = parse_dsl_spec(input)->Ok_0;
            let s = block_starts(t, 0);
            &&& bs.len() == s.len()
            &&& s.len() > 0 ==> s[0] == 0
            &&& forall|k: int|
                0 <= k < s.len() ==> t[#[trigger] s[k]] == "FixedTimeNoteSequence"@ && sp_outer_block(
                    t,
                    s[k],
                ).0 == Ok::<OuterBlockModel, DslErrorModel>(bs[k])
            &&& forall|k: int|
                0 <= k < s.len() - 1 ==> #[trigger] s[k] < s[k + 1] && sp_outer_block(t, s[k]).1 == s[k
                    + 1]
        }),
{
    let t = tokenize_spec(input);
    lemma_blocks_from(t, 0, Seq::empty());
    let bs = sp_blocks_from(t, 0, Seq::empty()).0->Ok_0;
    assert(parse_dsl_spec(input)->Ok_0 == bs);
    assert forall|k: int| 0 <= k < block_starts(t, 0).len() implies sp_outer_block(
        t,
        #[trigger] block_starts(t, 0)[k],
    ).0 == Ok::<OuterBlockModel, DslErrorModel>(bs[k]) by {
        assert(Seq::<OuterBlockModel>::empty().len() + k == k);
    }
}

/// Parses a composition script (see `parse_dsl_spec`). This is the syntax
/// alone: a script that parses may still hold an LFO that cannot be built,
/// one listing a square waveform, on which building its tracks fails. The
/// checked entry point for scripts whose tracks are to be built is
/// `crate::dsl::checks::parse_dsl_for_tracks`, which refuses such scripts.
pub fn parse_dsl(input: &str) -> (r: Result<Script, String>)
    ensures
        script_result_view(r) == parse_dsl_spec(input@),
{
    let mut parser = Parser::new(input);
    parser.parse()
}

} // verus!
