//! Checks on a parsed script that come before its tracks are built.
use vstd::prelude::*;
use crate::dsl::ast::{EffectDef, EffectDefModel, OuterBlockModel, Script, WaveformType};
use crate::dsl::names::waveform_of;
use crate::dsl::parser::{parse_dsl, parse_dsl_spec, script_result_view};
use crate::effect::{lfo_accepts_waveforms, lfo_waveforms_allowed};
use crate::oscillator::Waveform;

verus! {

/// The waveforms that names of waveforms stand for.
pub open spec fn waveforms_of(ws: Seq<WaveformType>) -> Seq<Waveform> {
    ws.map_values(|w: WaveformType| waveform_of(w))
}

/// An effect that can be built: an LFO lists no square waveform; delays
/// and flangers are not checked here.
pub open spec fn effect_def_buildable(e: EffectDefModel) -> bool {
    match e {
        EffectDefModel::LFO(l) => lfo_waveforms_allowed(waveforms_of(l.waveforms)),
        _ => true,
    }
}

/// No LFO of any block of the script lists a square waveform.
pub open spec fn script_lfos_allowed(s: Seq<OuterBlockModel>) -> bool {
    forall|b: int, k: int|
        0 <= b < s.len() && 0 <= k < s[b].effect_defs.len() ==> effect_def_buildable(
            #[trigger] s[b].effect_defs[k],
        )
}

fn waveforms_exec(ws: &Vec<WaveformType>) -> (r: Vec<Waveform>)
    ensures
        r@ == waveforms_of(ws@),
{
    let mut r: Vec<Waveform> = Vec::new();
    for i in 0..ws.len()
        invariant
            r@ == waveforms_of(ws@.take(i as int)),
    {
        assert(ws@.take(i + 1) =~= ws@.take(i as int).push(ws@[i as int]));
        r.push(ws[i].to_waveform());
        assert(r@ =~= waveforms_of(ws@.take(i + 1)));
    }
    assert(ws@.take(ws.len() as int) =~= ws@);
    r
}

fn effect_buildable(e: &EffectDef) -> (r: bool)
    ensures
        r == effect_def_buildable(e@),
{
    match e {
        EffectDef::LFO(l) => {
            let ws = waveforms_exec(&l.waveforms);
            lfo_accepts_waveforms(&ws)
        },
        _ => true,
    }
}

/// Whether no LFO of the script lists a square waveform, the one waveform
/// an LFO cannot hold (see `lfo_accepts_waveforms`).
pub fn script_lfos_accepted(script: &Script) -> (r: bool)
    ensures
        r == script_lfos_allowed(script@),
{
    let n = script.outer_blocks.len();
    for b in 0..n
        invariant
            n == script.outer_blocks.len(),
            forall|c: int, k: int|
                0 <= c < b && 0 <= k < script@[c].effect_defs.len() ==> effect_def_buildable(
                    #[trigger] script@[c].effect_defs[k],
                ),
    {
        let block = &script.outer_blocks[b];
        let m = block.effect_defs.len();
        for k in 0..m
            invariant
                n == script.outer_blocks.len(),
                b < n,
                block == &script.outer_blocks@[b as int],
                m == block.effect_defs.len(),
                forall|c: int, j: int|
                    0 <= c < b && 0 <= j < script@[c].effect_defs.len() ==> effect_def_buildable(
                        #[trigger] script@[c].effect_defs[j],
                    ),
                forall|j: int| 0 <= j < k ==> effect_def_buildable(#[trigger] script@[b as int].effect_defs[j]),
        {
            assert(script@[b as int].effect_defs[k as int] == block.effect_defs@[k as int]@);
            if !effect_buildable(&block.effect_defs[k]) {
                return false;
            }
        }
    }
    true
}

/// Parses a script whose tracks are to be built (see `parse_dsl`): `None`
/// where it parses but an LFO lists a square waveform, which building the
/// LFO refuses.
pub fn parse_dsl_for_tracks(input: &str) -> (r: Option<Result<Script, String>>)
    ensures
        match parse_dsl_spec(input@) {
            Ok(s) => if script_lfos_allowed(s) {
                r matches Some(p) && script_result_view(p) == parse_dsl_spec(input@)
            } else {
                r is None
            },
            Err(_) => r matches Some(p) && script_result_view(p) == parse_dsl_spec(input@),
        },
{
    let parsed = parse_dsl(input);
    match parsed {
        Ok(script) => {
            if script_lfos_accepted(&script) {
                Some(Ok(script))
            } else {
                None
            }
        },
        Err(e) => Some(Err(e)),
    }
}

} // verus!
