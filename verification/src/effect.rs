//! The integer logic of the effects: the delay's window pattern and the
//! waveforms an LFO may use.
use vstd::prelude::*;
use vstd::arithmetic::div_mod::{lemma_fundamental_div_mod, lemma_fundamental_div_mod_converse, lemma_mod_bound};
use crate::oscillator::Waveform;

verus! {

/// Whether sample `k` of a delay falls in a delay window, for windows of
/// `d` samples separated by intervals of `i` samples: the first `d` samples
/// of every period of `d + i` samples. With no window length every sample
/// is in a window; with no interval only the first window is.
pub open spec fn in_delay_window(d: nat, i: nat, k: int) -> bool {
    if d == 0 {
        true
    } else if i == 0 {
        k < d
    } else {
        k % ((d + i) as int) < d
    }
}

/// How far into its window or interval sample `k` is.
pub open spec fn window_offset(d: nat, i: nat, k: int) -> int {
    if d == 0 {
        k
    } else if i == 0 {
        if k < d {
            k
        } else {
            k - d
        }
    } else {
        let ph = k % ((d + i) as int);
        if ph < d {
            ph
        } else {
            ph - d
        }
    }
}

/// The number of samples the window pattern covers.
pub open spec fn delay_windows_len(d: nat, i: nat, n: nat) -> int {
    d * n + i * n - 1
}

proof fn lemma_mod_step(k: int, p: int)
    requires
        0 <= k,
        0 < p,
    ensures
        (k + 1) % p == (if k % p + 1 == p { 0 } else { k % p + 1 }),
{
    lemma_fundamental_div_mod(k, p);
    lemma_mod_bound(k, p);
    let q = k / p;
    let r = k % p;
    if r + 1 == p {
        assert(k + 1 == (q + 1) * p + 0) by (nonlinear_arith)
            requires
                k == p * q + r,
                r + 1 == p,
        ;
        lemma_fundamental_div_mod_converse(k + 1, p, q + 1, 0);
    } else {
        assert(k + 1 == q * p + (r + 1)) by (nonlinear_arith)
            requires
                k == p * q + r,
        ;
        lemma_fundamental_div_mod_converse(k + 1, p, q, r + 1);
    }
}

/// The window pattern of a delay: `num_repeats` windows of
/// `duration_num_samples` samples, separated by intervals of
/// `interval_num_samples` samples, one sample short of the last interval.
/// The sizes are multiplied and the one subtracted in `usize`, so they must
/// fit and the intervals must not be empty.
pub fn build_delay_windows(
    duration_num_samples: usize,
    interval_num_samples: usize,
    num_repeats: usize,
) -> (r: Vec<bool>)
    requires
        duration_num_samples * num_repeats <= usize::MAX,
        interval_num_samples * num_repeats <= usize::MAX,
        interval_num_samples * num_repeats >= 1,
        delay_windows_len(
            duration_num_samples as nat,
            interval_num_samples as nat,
            num_repeats as nat,
        ) <= usize::MAX,
    ensures
        r.len() == delay_windows_len(
            duration_num_samples as nat,
            interval_num_samples as nat,
            num_repeats as nat,
        ),
        forall|k: int|
            0 <= k < r.len() ==> r[k] == in_delay_window(
                duration_num_samples as nat,
                interval_num_samples as nat,
                k,
            ),
{
    let ghost d = duration_num_samples as nat;
    let ghost i = interval_num_samples as nat;
    let mut delay_windows: Vec<bool> = Vec::new();
    let samples_total = (duration_num_samples * num_repeats) + (interval_num_samples * num_repeats
        - 1);
    let mut in_window = true;
    let mut in_window_index: usize = 0;
    for k in 0..samples_total
        invariant
            d == duration_num_samples,
            i == interval_num_samples,
            delay_windows.len() == k,
            forall|j: int| 0 <= j < k ==> delay_windows[j] == in_delay_window(d, i, j),
            in_window == in_delay_window(d, i, k as int),
            in_window_index == window_offset(d, i, k as int),
            in_window_index <= k,
    {
        if in_window {
            delay_windows.push(true);
        } else {
            delay_windows.push(false);
        }
        proof {
            if d > 0 && i > 0 {
                lemma_mod_step(k as int, (d + i) as int);
                lemma_mod_bound(k as int, (d + i) as int);
            }
        }
        in_window_index += 1;
        if in_window && in_window_index == duration_num_samples {
            in_window = false;
            in_window_index = 0;
        } else if !in_window && in_window_index == interval_num_samples {
            in_window = true;
            in_window_index = 0;
        }
    }
    delay_windows
}

/// An LFO cannot contain the square waveform, which is not continuous.
pub open spec fn lfo_waveforms_allowed(w: Seq<Waveform>) -> bool {
    !w.contains(Waveform::Square)
}

/// Whether the waveforms may drive an LFO: none of them is a square wave.
pub fn lfo_accepts_waveforms(waveforms: &Vec<Waveform>) -> (r: bool)
    ensures
        r == lfo_waveforms_allowed(waveforms@),
{
    let n = waveforms.len();
    for k in 0..n
        invariant
            n == waveforms.len(),
            forall|j: int| 0 <= j < k ==> waveforms@[j] != Waveform::Square,
    {
        if waveforms[k] == Waveform::Square {
            assert(waveforms@[k as int] == Waveform::Square);
            return false;
        }
    }
    true
}

} // verus!
