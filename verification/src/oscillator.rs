//! Oscillator waveforms and the waveform list given on the command line.
use vstd::prelude::*;
use crate::text::{chars_eq_str, chars_of, split_chars, split_on};

verus! {

/// The basic waveforms an oscillator can produce.
#[derive(Clone, Copy, Debug, PartialEq, Eq, Structural)]
pub enum Waveform {
    GaussianNoise,
    Saw,
    Sine,
    Square,
    Triangle,
}

/// The waveform a command-line name selects; unknown names select a sine.
pub open spec fn waveform_for_name(name: Seq<char>) -> Waveform {
    if name == "gaussian_noise"@ {
        Waveform::GaussianNoise
    } else if name == "saw"@ {
        Waveform::Saw
    } else if name == "sine"@ {
        Waveform::Sine
    } else if name == "square"@ {
        Waveform::Square
    } else if name == "triangle"@ {
        Waveform::Triangle
    } else {
        Waveform::Sine
    }
}

/// The waveforms named in a comma-separated list.
pub open spec fn waveforms_for_list(list: Seq<char>) -> Seq<Waveform> {
    split_on(list, ',').map_values(|n: Seq<char>| waveform_for_name(n))
}

fn waveform_for_name_exec(name: &Vec<char>) -> (r: Waveform)
    ensures
        r == waveform_for_name(name@),
{
    if chars_eq_str(name, "gaussian_noise") {
        Waveform::GaussianNoise
    } else if chars_eq_str(name, "saw") {
        Waveform::Saw
    } else if chars_eq_str(name, "sine") {
        Waveform::Sine
    } else if chars_eq_str(name, "square") {
        Waveform::Square
    } else if chars_eq_str(name, "triangle") {
        Waveform::Triangle
    } else {
        Waveform::Sine
    }
}

/// The waveforms of a comma-separated list of names (`gaussian_noise`,
/// `saw`, `sine`, `square`, `triangle`); any other name gives a sine.
pub fn get_waveforms(waveform_arg: &str) -> (r: Vec<Waveform>)
    ensures
        r@ == waveforms_for_list(waveform_arg@),
{
    let chars = chars_of(waveform_arg);
    let fields = split_chars(&chars, ',');
    let ghost fs = fields@.map_values(|f: Vec<char>| f@);
    let mut r: Vec<Waveform> = Vec::new();
    let n = fields.len();
    for i in 0..n
        invariant
            n == fields.len(),
            fs == fields@.map_values(|f: Vec<char>| f@),
            r@ == fs.take(i as int).map_values(|n: Seq<char>| waveform_for_name(n)),
    {
        let w = waveform_for_name_exec(&fields[i]);
        r.push(w);
        assert(fs[i as int] == fields@[i as int]@);
        assert(r@ =~= fs.take(i + 1).map_values(|n: Seq<char>| waveform_for_name(n)));
    }
    assert(fs.take(n as int) =~= fs);
    r
}

/// The waveforms of the first program argument, as collected by the
/// caller (a sine when there is none).
pub fn get_waveforms_from_arg(arg: &str) -> (r: Vec<Waveform>)
    ensures
        r@ == waveforms_for_list(arg@),
{
    get_waveforms(arg)
}

} // verus!
