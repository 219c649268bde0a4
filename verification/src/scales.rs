//! Western pitch names and their place in the twelve-tone octave.
use vstd::prelude::*;

verus! {

/// A pitch class of the Western twelve-tone scale; sharps and their
/// enharmonic flats are distinct names of the same class.
#[derive(Clone, Copy, Debug, PartialEq, Eq, Structural)]
pub enum WesternPitch {
    C,
    CSharp,
    DFlat,
    D,
    DSharp,
    EFlat,
    E,
    F,
    FSharp,
    GFlat,
    G,
    GSharp,
    AFlat,
    A,
    ASharp,
    BFlat,
    B,
}

/// The semitone of a pitch class above C.
pub open spec fn pitch_index_spec(p: WesternPitch) -> u8 {
    match p {
        WesternPitch::C => 0,
        WesternPitch::CSharp => 1,
        WesternPitch::DFlat => 1,
        WesternPitch::D => 2,
        WesternPitch::DSharp => 3,
        WesternPitch::EFlat => 3,
        WesternPitch::E => 4,
        WesternPitch::F => 5,
        WesternPitch::FSharp => 6,
        WesternPitch::GFlat => 6,
        WesternPitch::G => 7,
        WesternPitch::GSharp => 8,
        WesternPitch::AFlat => 8,
        WesternPitch::A => 9,
        WesternPitch::ASharp => 10,
        WesternPitch::BFlat => 10,
        WesternPitch::B => 11,
    }
}

impl WesternPitch {
    /// The semitone of this pitch class above C, from 0 to 11.
    pub fn get_pitch_index(&self) -> (r: u8)
        ensures
            r == pitch_index_spec(*self),
            r < 12,
    {
        match self {
            WesternPitch::C => 0,
            WesternPitch::CSharp => 1,
            WesternPitch::DFlat => 1,
            WesternPitch::D => 2,
            WesternPitch::DSharp => 3,
            WesternPitch::EFlat => 3,
            WesternPitch::E => 4,
            WesternPitch::F => 5,
            WesternPitch::FSharp => 6,
            WesternPitch::GFlat => 6,
            WesternPitch::G => 7,
            WesternPitch::GSharp => 8,
            WesternPitch::AFlat => 8,
            WesternPitch::A => 9,
            WesternPitch::ASharp => 10,
            WesternPitch::BFlat => 10,
            WesternPitch::B => 11,
        }
    }

    /// The position of this pitch in the given octave on the twelve-tone
    /// pitch table (the MIDI key number): `octave * 12 + pitch index`.
    /// The computation is in `u8`, so the octave must keep it below 256.
    pub fn table_index(&self, octave: u8) -> (r: usize)
        requires
            octave as int * 12 + pitch_index_spec(*self) < 256,
        ensures
            r == octave as int * 12 + pitch_index_spec(*self),
    {
        (octave * 12 + self.get_pitch_index()) as usize
    }
}

/// Western scales.
#[derive(Clone, Copy, Debug, PartialEq, Eq, Structural)]
pub enum WesternScale {
    Major,
    Minor,
    Pentatonic,
    Blues,
    Chromatic,
}

/// Arabic maqamat, in just intonation.
#[derive(Clone, Copy, Debug, PartialEq, Eq, Structural)]
pub enum ArabicScale {
    Hijaz,
    Bayati,
    Rast,
    Saba,
}

/// A step of a scale above its root: a frequency ratio `num / den`, or a
/// number of equal-tempered semitones (a ratio of `2^(n/12)`).
#[derive(Clone, Copy, Debug, PartialEq, Eq, Structural)]
pub enum Interval {
    Ratio(u32, u32),
    Semitones(u32),
}

pub open spec fn western_intervals(s: WesternScale) -> Seq<Interval> {
    match s {
        WesternScale::Major => seq![
            Interval::Ratio(1, 1),
            Interval::Ratio(9, 8),
            Interval::Ratio(5, 4),
            Interval::Ratio(4, 3),
            Interval::Ratio(3, 2),
            Interval::Ratio(5, 3),
            Interval::Ratio(15, 8),
        ],
        WesternScale::Minor => seq![
            Interval::Ratio(1, 1),
            Interval::Ratio(9, 8),
            Interval::Ratio(6, 5),
            Interval::Ratio(4, 3),
            Interval::Ratio(3, 2),
            Interval::Ratio(8, 5),
            Interval::Ratio(9, 5),
        ],
        WesternScale::Pentatonic => seq![
            Interval::Ratio(1, 1),
            Interval::Ratio(9, 8),
            Interval::Ratio(6, 5),
            Interval::Ratio(4, 3),
            Interval::Ratio(3, 2),
        ],
        WesternScale::Blues => seq![
            Interval::Ratio(1, 1),
            Interval::Ratio(6, 5),
            Interval::Ratio(7, 5),
            Interval::Ratio(7, 6),
            Interval::Ratio(9, 5),
        ],
        WesternScale::Chromatic => Seq::new(12, |i: int| Interval::Semitones(i as u32)),
    }
}

pub open spec fn arabic_intervals(s: ArabicScale) -> Seq<Interval> {
    match s {
        ArabicScale::Hijaz | ArabicScale::Bayati => seq![
            Interval::Ratio(1, 1),
            Interval::Ratio(16, 15),
            Interval::Ratio(10, 9),
            Interval::Ratio(4, 3),
            Interval::Ratio(3, 2),
            Interval::Ratio(8, 5),
            Interval::Ratio(16, 9),
        ],
        ArabicScale::Rast => seq![
            Interval::Ratio(1, 1),
            Interval::Ratio(9, 8),
            Interval::Ratio(5, 4),
            Interval::Ratio(4, 3),
            Interval::Ratio(3, 2),
            Interval::Ratio(5, 3),
            Interval::Ratio(15, 8),
        ],
        ArabicScale::Saba => seq![
            Interval::Ratio(1, 1),
            Interval::Ratio(9, 8),
            Interval::Ratio(6, 5),
            Interval::Ratio(4, 3),
            Interval::Ratio(3, 2),
            Interval::Ratio(8, 5),
            Interval::Ratio(9, 5),
        ],
    }
}

fn ratios(pairs: &[(u32, u32)]) -> (r: Vec<Interval>)
    ensures
        r@ == pairs@.map_values(|p: (u32, u32)| Interval::Ratio(p.0, p.1)),
{
    let mut r: Vec<Interval> = Vec::new();
    let n = pairs.len();
    for i in 0..n
        invariant
            n == pairs.len(),
            r@ == pairs@.take(i as int).map_values(|p: (u32, u32)| Interval::Ratio(p.0, p.1)),
    {
        let (a, b) = pairs[i];
        r.push(Interval::Ratio(a, b));
        assert(pairs@.take(i + 1).map_values(|p: (u32, u32)| Interval::Ratio(p.0, p.1)) =~= pairs@.take(
            i as int,
        ).map_values(|p: (u32, u32)| Interval::Ratio(p.0, p.1)).push(Interval::Ratio(a, b)));
    }
    assert(pairs@.take(n as int) =~= pairs@);
    r
}

impl WesternScale {
    /// The steps of the scale above its root, in order (see
    /// `western_intervals`).
    pub fn intervals(&self) -> (r: Vec<Interval>)
        ensures
            r@ == western_intervals(*self),
    {
        match self {
            WesternScale::Major => {
                let r = ratios(&[(1, 1), (9, 8), (5, 4), (4, 3), (3, 2), (5, 3), (15, 8)]);
                assert(r@ =~= western_intervals(*self));
                r
            },
            WesternScale::Minor => {
                let r = ratios(&[(1, 1), (9, 8), (6, 5), (4, 3), (3, 2), (8, 5), (9, 5)]);
                assert(r@ =~= western_intervals(*self));
                r
            },
            WesternScale::Pentatonic => {
                let r = ratios(&[(1, 1), (9, 8), (6, 5), (4, 3), (3, 2)]);
                assert(r@ =~= western_intervals(*self));
                r
            },
            WesternScale::Blues => {
                let r = ratios(&[(1, 1), (6, 5), (7, 5), (7, 6), (9, 5)]);
                assert(r@ =~= western_intervals(*self));
                r
            },
            WesternScale::Chromatic => {
                let mut r: Vec<Interval> = Vec::new();
                for i in 0..12u32
                    invariant
                        r@ == Seq::new(i as nat, |j: int| Interval::Semitones(j as u32)),
                {
                    r.push(Interval::Semitones(i));
                    assert(r@ =~= Seq::new((i + 1) as nat, |j: int| Interval::Semitones(j as u32)));
                }
                r
            },
        }
    }
}

impl ArabicScale {
    /// The steps of the maqam above its root, in order (see
    /// `arabic_intervals`).
    pub fn intervals(&self) -> (r: Vec<Interval>)
        ensures
            r@ == arabic_intervals(*self),
    {
        let r = match self {
            ArabicScale::Hijaz | ArabicScale::Bayati => ratios(
                &[(1, 1), (16, 15), (10, 9), (4, 3), (3, 2), (8, 5), (16, 9)],
            ),
            ArabicScale::Rast => ratios(&[(1, 1), (9, 8), (5, 4), (4, 3), (3, 2), (5, 3), (15, 8)]),
            ArabicScale::Saba => ratios(&[(1, 1), (9, 8), (6, 5), (4, 3), (3, 2), (8, 5), (9, 5)]),
        };
        assert(r@ =~= arabic_intervals(*self));
        r
    }
}

/// The index counts semitones above C: C is 0; the natural notes step up
/// by a whole tone, except E to F and B to the next C, which are a
/// semitone; a sharp is a semitone above its letter and a flat a semitone
/// below; every index is under 12, and the seven naturals and five
/// sharps give twelve different indexes.
pub proof fn lemma_pitch_index_semitones()
    ensures
        pitch_index_spec(WesternPitch::C) == 0,
        pitch_index_spec(WesternPitch::D) == pitch_index_spec(WesternPitch::C) + 2,
        pitch_index_spec(WesternPitch::E) == pitch_index_spec(WesternPitch::D) + 2,
        pitch_index_spec(WesternPitch::F) == pitch_index_spec(WesternPitch::E) + 1,
        pitch_index_spec(WesternPitch::G) == pitch_index_spec(WesternPitch::F) + 2,
        pitch_index_spec(WesternPitch::A) == pitch_index_spec(WesternPitch::G) + 2,
        pitch_index_spec(WesternPitch::B) == pitch_index_spec(WesternPitch::A) + 2,
        pitch_index_spec(WesternPitch::B) + 1 == 12,
        pitch_index_spec(WesternPitch::CSharp) == pitch_index_spec(WesternPitch::C) + 1,
        pitch_index_spec(WesternPitch::DSharp) == pitch_index_spec(WesternPitch::D) + 1,
        pitch_index_spec(WesternPitch::FSharp) == pitch_index_spec(WesternPitch::F) + 1,
        pitch_index_spec(WesternPitch::GSharp) == pitch_index_spec(WesternPitch::G) + 1,
        pitch_index_spec(WesternPitch::ASharp) == pitch_index_spec(WesternPitch::A) + 1,
        pitch_index_spec(WesternPitch::DFlat) + 1 == pitch_index_spec(WesternPitch::D),
        pitch_index_spec(WesternPitch::EFlat) + 1 == pitch_index_spec(WesternPitch::E),
        pitch_index_spec(WesternPitch::GFlat) + 1 == pitch_index_spec(WesternPitch::G),
        pitch_index_spec(WesternPitch::AFlat) + 1 == pitch_index_spec(WesternPitch::A),
        pitch_index_spec(WesternPitch::BFlat) + 1 == pitch_index_spec(WesternPitch::B),
        forall|p: WesternPitch| pitch_index_spec(p) < 12,
{
}

/// The numerator and denominator of an interval given as a ratio.
pub open spec fn ratio_parts(i: Interval) -> (int, int) {
    match i {
        Interval::Ratio(n, d) => (n as int, d as int),
        Interval::Semitones(_) => (0, 1),
    }
}

/// Two ratios multiply to a third: `a * b == c` as fractions.
pub open spec fn ratios_multiply(a: Interval, b: Interval, c: Interval) -> bool {
    let (an, ad) = ratio_parts(a);
    let (bn, bd) = ratio_parts(b);
    let (cn, cd) = ratio_parts(c);
    an * bn * cd == cn * ad * bd
}

/// How the Western scales relate in just intonation: each of the major,
/// minor and pentatonic scales starts on the root (1/1) with a whole tone
/// (9/8), a fourth (4/3) and a fifth (3/2) at its second, fourth and fifth
/// steps; the third is major (5/4) in the major scale and minor (6/5) in
/// the minor one, the two thirds making up the fifth; the pentatonic scale
/// is the first five steps of the minor scale; and the chromatic scale is
/// the twelve semitones from the root up.
pub proof fn lemma_western_scales_relate()
    ensures
        forall|s: WesternScale|
            (s == WesternScale::Major || s == WesternScale::Minor || s == WesternScale::Pentatonic)
                ==> {
                let v = #[trigger] western_intervals(s);
                &&& v.len() >= 5
                &&& v[0] == Interval::Ratio(1, 1)
                &&& v[1] == Interval::Ratio(9, 8)
                &&& v[3] == Interval::Ratio(4, 3)
                &&& v[4] == Interval::Ratio(3, 2)
            },
        western_intervals(WesternScale::Major)[2] == Interval::Ratio(5, 4),
        western_intervals(WesternScale::Minor)[2] == Interval::Ratio(6, 5),
        ratios_multiply(
            western_intervals(WesternScale::Major)[2],
            western_intervals(WesternScale::Minor)[2],
            western_intervals(WesternScale::Major)[4],
        ),
        western_intervals(WesternScale::Pentatonic) == western_intervals(WesternScale::Minor).take(5),
        western_intervals(WesternScale::Major).len() == 7,
        western_intervals(WesternScale::Minor).len() == 7,
        forall|i: int|
            0 <= i < 12 ==> #[trigger] western_intervals(WesternScale::Chromatic)[i]
                == Interval::Semitones(i as u32),
        western_intervals(WesternScale::Chromatic).len() == 12,
{
    assert(western_intervals(WesternScale::Pentatonic) =~= western_intervals(WesternScale::Minor).take(5));
    assert(ratio_parts(western_intervals(WesternScale::Major)[2]) == (5int, 4int));
    assert(ratio_parts(western_intervals(WesternScale::Minor)[2]) == (6int, 5int));
    assert(ratio_parts(western_intervals(WesternScale::Major)[4]) == (3int, 2int));
    assert(5int * 6int * 2int == 3int * 4int * 5int);
}

/// How the maqamat relate to the Western scales: Rast is tuned as the
/// major scale and Saba as the minor scale, Hijaz and Bayati are tuned
/// alike, and every maqam has seven steps, starts on the root (1/1) and
/// holds the fourth (4/3) and the fifth (3/2) as its fourth and fifth steps.
pub proof fn lemma_arabic_scales_relate()
    ensures
        arabic_intervals(ArabicScale::Rast) == western_intervals(WesternScale::Major),
        arabic_intervals(ArabicScale::Saba) == western_intervals(WesternScale::Minor),
        arabic_intervals(ArabicScale::Hijaz) == arabic_intervals(ArabicScale::Bayati),
        forall|a: ArabicScale|
            {
                let v = #[trigger] arabic_intervals(a);
                &&& v.len() == 7
                &&& v[0] == Interval::Ratio(1, 1)
                &&& v[3] == Interval::Ratio(4, 3)
                &&& v[4] == Interval::Ratio(3, 2)
            },
{
    assert(arabic_intervals(ArabicScale::Rast) =~= western_intervals(WesternScale::Major));
    assert(arabic_intervals(ArabicScale::Saba) =~= western_intervals(WesternScale::Minor));
}

} // verus!
