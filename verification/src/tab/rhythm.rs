//! Advanced rhythm notation: tuplets, polyrhythms, odd time signatures,
//! metric modulation.
//!
//! Durations are counted in ticks at 480 per quarter note.

use vstd::prelude::*;
use crate::text::{decimal, decimal_string};

verus! {

/// Base note duration without modifiers.
#[derive(Debug, Clone, Copy, PartialEq, Eq, Structural)]
pub enum BaseDuration {
    /// Longa (4 whole notes) - used in early music
    Longa,
    /// Breve / double whole note
    Breve,
    /// Whole note (semibreve)
    Whole,
    /// Half note (minim)
    Half,
    /// Quarter note (crotchet)
    Quarter,
    /// Eighth note (quaver)
    Eighth,
    /// Sixteenth note (semiquaver)
    Sixteenth,
    /// 32nd note (demisemiquaver)
    ThirtySecond,
    /// 64th note (hemidemisemiquaver)
    SixtyFourth,
    /// 128th note
    OneHundredTwentyEighth,
    /// 256th note (extremely rare)
    TwoHundredFiftySixth,
}

/// Duration of a base value in ticks.
pub open spec fn base_ticks(b: BaseDuration) -> u64 {
    match b {
        BaseDuration::Longa => 7680,
        BaseDuration::Breve => 3840,
        BaseDuration::Whole => 1920,
        BaseDuration::Half => 960,
        BaseDuration::Quarter => 480,
        BaseDuration::Eighth => 240,
        BaseDuration::Sixteenth => 120,
        BaseDuration::ThirtySecond => 60,
        BaseDuration::SixtyFourth => 30,
        BaseDuration::OneHundredTwentyEighth => 15,
        BaseDuration::TwoHundredFiftySixth => 7,
    }
}

/// Display symbol of a base value.
pub open spec fn base_symbol(b: BaseDuration) -> Seq<char> {
    match b {
        BaseDuration::Longa => "𝅜"@,
        BaseDuration::Breve => "𝅝"@,
        BaseDuration::Whole => "𝅗𝅥"@,
        BaseDuration::Half => "𝅗𝅥"@,
        BaseDuration::Quarter => "♩"@,
        BaseDuration::Eighth => "♪"@,
        BaseDuration::Sixteenth => "𝅘𝅥𝅯"@,
        BaseDuration::ThirtySecond => "𝅘𝅥𝅰"@,
        BaseDuration::SixtyFourth => "𝅘𝅥𝅱"@,
        BaseDuration::OneHundredTwentyEighth => "128"@,
        BaseDuration::TwoHundredFiftySixth => "256"@,
    }
}

/// Short name of a base value.
pub open spec fn base_name(b: BaseDuration) -> Seq<char> {
    match b {
        BaseDuration::Longa => "Longa"@,
        BaseDuration::Breve => "Breve"@,
        BaseDuration::Whole => "Whole"@,
        BaseDuration::Half => "Half"@,
        BaseDuration::Quarter => "Quarter"@,
        BaseDuration::Eighth => "8th"@,
        BaseDuration::Sixteenth => "16th"@,
        BaseDuration::ThirtySecond => "32nd"@,
        BaseDuration::SixtyFourth => "64th"@,
        BaseDuration::OneHundredTwentyEighth => "128th"@,
        BaseDuration::TwoHundredFiftySixth => "256th"@,
    }
}

impl BaseDuration {
    /// Duration in ticks at 480 PPQN.
    pub fn ticks(&self) -> (t: u64)
        ensures
            t == base_ticks(*self),
    {
        match self {
            BaseDuration::Longa => 7680,
            BaseDuration::Breve => 3840,
            BaseDuration::Whole => 1920,
            BaseDuration::Half => 960,
            BaseDuration::Quarter => 480,
            BaseDuration::Eighth => 240,
            BaseDuration::Sixteenth => 120,
            BaseDuration::ThirtySecond => 60,
            BaseDuration::SixtyFourth => 30,
            BaseDuration::OneHundredTwentyEighth => 15,
            BaseDuration::TwoHundredFiftySixth => 7,
        }
    }

    /// Display symbol.
    pub fn symbol(&self) -> (s: &'static str)
        ensures
            s@ == base_symbol(*self),
    {
        match self {
            BaseDuration::Longa => "𝅜",
            BaseDuration::Breve => "𝅝",
            BaseDuration::Whole => "𝅗𝅥",
            BaseDuration::Half => "𝅗𝅥",
            BaseDuration::Quarter => "♩",
            BaseDuration::Eighth => "♪",
            BaseDuration::Sixteenth => "𝅘𝅥𝅯",
            BaseDuration::ThirtySecond => "𝅘𝅥𝅰",
            BaseDuration::SixtyFourth => "𝅘𝅥𝅱",
            BaseDuration::OneHundredTwentyEighth => "128",
            BaseDuration::TwoHundredFiftySixth => "256",
        }
    }

    /// Short name (for UI).
    pub fn name(&self) -> (s: &'static str)
        ensures
            s@ == base_name(*self),
    {
        match self {
            BaseDuration::Longa => "Longa",
            BaseDuration::Breve => "Breve",
            BaseDuration::Whole => "Whole",
            BaseDuration::Half => "Half",
            BaseDuration::Quarter => "Quarter",
            BaseDuration::Eighth => "8th",
            BaseDuration::Sixteenth => "16th",
            BaseDuration::ThirtySecond => "32nd",
            BaseDuration::SixtyFourth => "64th",
            BaseDuration::OneHundredTwentyEighth => "128th",
            BaseDuration::TwoHundredFiftySixth => "256th",
        }
    }
}

/// Tuplet definition (n notes in the space of m).
#[derive(Debug, Clone, Copy, PartialEq, Eq, Structural)]
pub struct Tuplet {
    /// Number of notes played
    pub actual: u8,
    /// Space they occupy (in normal notes)
    pub normal: u8,
}

/// Display text of a tuplet: "3" for a triplet, else "actual:normal".
pub open spec fn tuplet_text(t: Tuplet) -> Seq<char> {
    if t.normal == 2 && t.actual == 3 {
        "3"@
    } else {
        decimal(t.actual as nat) + ":"@ + decimal(t.normal as nat)
    }
}

/// "a:b" in decimal.
pub open spec fn ratio_text(a: u8, b: u8) -> Seq<char> {
    decimal(a as nat) + ":"@ + decimal(b as nat)
}

/// The decimal notation of `a`, the separator `sep`, and that of `b`.
pub fn pair_text(a: u8, sep: &str, b: u8) -> (s: String)
    ensures
        s@ == decimal(a as nat) + sep@ + decimal(b as nat),
{
    let mut s = decimal_string(a as u64);
    s.append(sep);
    let t = decimal_string(b as u64);
    s.append(t.as_str());
    s
}

impl Tuplet {
    /// `actual` notes in the space of `normal`.
    pub fn new(actual: u8, normal: u8) -> (t: Tuplet)
        ensures
            t == (Tuplet { actual, normal }),
    {
        Tuplet { actual, normal }
    }

    /// Triplet (3 in the space of 2).
    pub fn triplet() -> (t: Tuplet)
        ensures
            t == (Tuplet { actual: 3, normal: 2 }),
    {
        Tuplet::new(3, 2)
    }

    /// Duplet (2 in the space of 3, used in compound time).
    pub fn duplet() -> (t: Tuplet)
        ensures
            t == (Tuplet { actual: 2, normal: 3 }),
    {
        Tuplet::new(2, 3)
    }

    /// Quintuplet (5 in space of 4).
    pub fn quintuplet() -> (t: Tuplet)
        ensures
            t == (Tuplet { actual: 5, normal: 4 }),
    {
        Tuplet::new(5, 4)
    }

    /// Sextuplet (6 in space of 4).
    pub fn sextuplet() -> (t: Tuplet)
        ensures
            t == (Tuplet { actual: 6, normal: 4 }),
    {
        Tuplet::new(6, 4)
    }

    /// Septuplet (7 in space of 4).
    pub fn septuplet() -> (t: Tuplet)
        ensures
            t == (Tuplet { actual: 7, normal: 4 }),
    {
        Tuplet::new(7, 4)
    }

    /// Nonuplet (9 in space of 8).
    pub fn nonuplet() -> (t: Tuplet)
        ensures
            t == (Tuplet { actual: 9, normal: 8 }),
    {
        Tuplet::new(9, 8)
    }

    /// Custom tuplet.
    pub fn custom(actual: u8, normal: u8) -> (t: Tuplet)
        ensures
            t == (Tuplet { actual, normal }),
    {
        Tuplet::new(actual, normal)
    }

    /// Display text.
    pub fn display(&self) -> (s: String)
        ensures
            s@ == tuplet_text(*self),
    {
        if self.normal == 2 && self.actual == 3 {
            let s = String::from_str("3");
            s
        } else {
            pair_text(self.actual, ":", self.normal)
        }
    }
}

/// Complete rhythmic value with all modifiers.
#[derive(Debug, Clone, Copy, PartialEq, Eq, Structural)]
pub struct RhythmValue {
    /// Base duration
    pub base: BaseDuration,
    /// Number of dots (0, 1, 2, 3)
    pub dots: u8,
    /// Tuplet modifier (if any)
    pub tuplet: Option<Tuplet>,
    /// Is tied to next note
    pub tied: bool,
}

/// An undotted, untied value without tuplet.
pub open spec fn plain(base: BaseDuration) -> RhythmValue {
    RhythmValue { base, dots: 0, tuplet: None, tied: false }
}

/// Ticks of a base value with `dots` dots: each dot adds half of the
/// previous addition (halves rounded down); more than three dots count as
/// none.
pub open spec fn dotted_ticks(t: u64, dots: u8) -> nat {
    if dots == 1 {
        (t + t / 2) as nat
    } else if dots == 2 {
        (t + t / 2 + t / 4) as nat
    } else if dots == 3 {
        (t + t / 2 + t / 4 + t / 8) as nat
    } else {
        t as nat
    }
}

/// Ticks of `d` ticks scaled by `normal / actual`, rounded down; where
/// `actual` is zero the ratio is unbounded: no ticks for a zero `normal`,
/// else the largest count.
pub open spec fn tuplet_ticks(d: nat, t: Tuplet) -> nat {
    if t.actual == 0 {
        if t.normal == 0 || d == 0 {
            0
        } else {
            u64::MAX as nat
        }
    } else {
        d * (t.normal as nat) / (t.actual as nat)
    }
}

/// Duration of a rhythmic value in ticks.
pub open spec fn rhythm_ticks(r: RhythmValue) -> nat {
    let d = dotted_ticks(base_ticks(r.base), r.dots);
    match r.tuplet {
        Some(t) => tuplet_ticks(d, t),
        None => d,
    }
}

/// Display symbol of a rhythmic value: the base symbol, a dot per dot,
/// and the tuplet's text in brackets.
pub open spec fn rhythm_symbol(r: RhythmValue) -> Seq<char> {
    let s = base_symbol(r.base) + Seq::new(r.dots as nat, |i: int| '.');
    match r.tuplet {
        Some(t) => s + "("@ + tuplet_text(t) + ")"@,
        None => s,
    }
}

impl RhythmValue {
    /// An undotted, untied value without tuplet.
    pub fn new(base: BaseDuration) -> (r: RhythmValue)
        ensures
            r == plain(base),
    {
        RhythmValue { base, dots: 0, tuplet: None, tied: false }
    }

    /// An undotted whole note.
    pub fn whole() -> (r: RhythmValue)
        ensures
            r == plain(BaseDuration::Whole),
    {
        RhythmValue::new(BaseDuration::Whole)
    }

    /// An undotted half note.
    pub fn half() -> (r: RhythmValue)
        ensures
            r == plain(BaseDuration::Half),
    {
        RhythmValue::new(BaseDuration::Half)
    }

    /// An undotted quarter note.
    pub fn quarter() -> (r: RhythmValue)
        ensures
            r == plain(BaseDuration::Quarter),
    {
        RhythmValue::new(BaseDuration::Quarter)
    }

    /// An undotted eighth note.
    pub fn eighth() -> (r: RhythmValue)
        ensures
            r == plain(BaseDuration::Eighth),
    {
        RhythmValue::new(BaseDuration::Eighth)
    }

    /// An undotted sixteenth note.
    pub fn sixteenth() -> (r: RhythmValue)
        ensures
            r == plain(BaseDuration::Sixteenth),
    {
        RhythmValue::new(BaseDuration::Sixteenth)
    }

    /// An undotted thirty second note.
    pub fn thirty_second() -> (r: RhythmValue)
        ensures
            r == plain(BaseDuration::ThirtySecond),
    {
        RhythmValue::new(BaseDuration::ThirtySecond)
    }

    /// An undotted sixty fourth note.
    pub fn sixty_fourth() -> (r: RhythmValue)
        ensures
            r == plain(BaseDuration::SixtyFourth),
    {
        RhythmValue::new(BaseDuration::SixtyFourth)
    }

    /// The same value with one dot.
    pub fn dotted(self) -> (r: RhythmValue)
        ensures
            r == (RhythmValue { dots: 1, ..self }),
    {
        RhythmValue { dots: 1, ..self }
    }

    /// The same value with two dots.
    pub fn double_dotted(self) -> (r: RhythmValue)
        ensures
            r == (RhythmValue { dots: 2, ..self }),
    {
        RhythmValue { dots: 2, ..self }
    }

    /// The same value with three dots.
    pub fn triple_dotted(self) -> (r: RhythmValue)
        ensures
            r == (RhythmValue { dots: 3, ..self }),
    {
        RhythmValue { dots: 3, ..self }
    }

    /// The same value as a triplet.
    pub fn triplet(self) -> (r: RhythmValue)
        ensures
            r == (RhythmValue { tuplet: Some(Tuplet { actual: 3, normal: 2 }), ..self }),
    {
        RhythmValue { tuplet: Some(Tuplet::triplet()), ..self }
    }

    /// The same value as a quintuplet.
    pub fn quintuplet(self) -> (r: RhythmValue)
        ensures
            r == (RhythmValue { tuplet: Some(Tuplet { actual: 5, normal: 4 }), ..self }),
    {
        RhythmValue { tuplet: Some(Tuplet::quintuplet()), ..self }
    }

    /// The same value as a septuplet.
    pub fn septuplet(self) -> (r: RhythmValue)
        ensures
            r == (RhythmValue { tuplet: Some(Tuplet { actual: 7, normal: 4 }), ..self }),
    {
        RhythmValue { tuplet: Some(Tuplet::septuplet()), ..self }
    }

    /// The same value under the given tuplet.
    pub fn with_tuplet(self, tuplet: Tuplet) -> (r: RhythmValue)
        ensures
            r == (RhythmValue { tuplet: Some(tuplet), ..self }),
    {
        RhythmValue { tuplet: Some(tuplet), ..self }
    }

    /// The same value tied to the next note.
    pub fn tied(self) -> (r: RhythmValue)
        ensures
            r == (RhythmValue { tied: true, ..self }),
    {
        RhythmValue { tied: true, ..self }
    }

    /// Get duration in ticks (at 480 PPQN).
    pub fn ticks(&self) -> (t: u64)
        ensures
            t as nat == rhythm_ticks(*self),
    {
        let base_ticks = self.base.ticks();
        let dotted_ticks: u64 = if self.dots == 1 {
            base_ticks + base_ticks / 2
        } else if self.dots == 2 {
            base_ticks + base_ticks / 2 + base_ticks / 4
        } else if self.dots == 3 {
            base_ticks + base_ticks / 2 + base_ticks / 4 + base_ticks / 8
        } else {
            base_ticks
        };
        match self.tuplet {
            Some(t) => {
                if t.actual == 0 {
                    if t.normal == 0 || dotted_ticks == 0 {
                        0
                    } else {
                        u64::MAX
                    }
                } else {
                    proof {
                        assert(dotted_ticks <= 14400);
                        assert(dotted_ticks * (t.normal as u64) <= 14400 * 255) by (nonlinear_arith)
                            requires dotted_ticks <= 14400, t.normal <= 255;
                    }
                    dotted_ticks * (t.normal as u64) / (t.actual as u64)
                }
            },
            None => dotted_ticks,
        }
    }

    /// Get display symbol.
    pub fn symbol(&self) -> (s: String)
        ensures
            s@ == rhythm_symbol(*self),
    {
        let mut s = String::from_str(self.base.symbol());
        let ghost start = s@;
        let mut i: u8 = 0;
        while i < self.dots
            invariant
                i <= self.dots,
                s@ == start + Seq::new(i as nat, |k: int| '.'),
            decreases self.dots - i,
        {
            proof {
                reveal_strlit(".");
            }
            s.append(".");
            proof {
                assert(s@ =~= start + Seq::new((i + 1) as nat, |k: int| '.'));
            }
            i = i + 1;
        }
        match self.tuplet {
            Some(t) => {
                s.append("(");
                let d = t.display();
                s.append(d.as_str());
                s.append(")");
            },
            None => {},
        }
        s
    }
}

/// Time signature.
#[derive(Debug, Clone, Copy, PartialEq, Eq, Structural)]
pub struct TimeSignature {
    /// Numerator (beats per measure)
    pub numerator: u8,
    /// Denominator (note value that gets one beat)
    pub denominator: u8,
}

/// Ticks of one beat of the given denominator (a quarter for an unknown
/// one).
pub open spec fn beat_ticks(denominator: u8) -> u64 {
    if denominator == 1 {
        1920
    } else if denominator == 2 {
        960
    } else if denominator == 8 {
        240
    } else if denominator == 16 {
        120
    } else if denominator == 32 {
        60
    } else if denominator == 64 {
        30
    } else {
        480
    }
}

/// A compound meter groups its beats in threes.
pub open spec fn is_compound_meter(t: TimeSignature) -> bool {
    t.numerator % 3 == 0 && t.numerator >= 6
}

/// The default beaming groups of a meter.
pub open spec fn grouping(t: TimeSignature) -> Seq<u8> {
    match (t.numerator, t.denominator) {
        (4, 4) => seq![1u8, 1u8, 1u8, 1u8],
        (3, 4) => seq![1u8, 1u8, 1u8],
        (2, 4) => seq![1u8, 1u8],
        (6, 8) => seq![3u8, 3u8],
        (9, 8) => seq![3u8, 3u8, 3u8],
        (12, 8) => seq![3u8, 3u8, 3u8, 3u8],
        (5, 4) => seq![3u8, 2u8],
        (5, 8) => seq![3u8, 2u8],
        (7, 8) => seq![2u8, 2u8, 3u8],
        (11, 8) => seq![3u8, 3u8, 3u8, 2u8],
        (13, 8) => seq![3u8, 3u8, 3u8, 2u8, 2u8],
        (15, 16) => seq![4u8, 4u8, 4u8, 3u8],
        _ => seq![t.numerator],
    }
}

impl Default for TimeSignature {
    fn default() -> (t: TimeSignature)
        ensures
            t == (TimeSignature { numerator: 4, denominator: 4 }),
    {
        TimeSignature { numerator: 4, denominator: 4 }
    }
}

impl TimeSignature {
    /// A time signature.
    pub fn new(numerator: u8, denominator: u8) -> (t: TimeSignature)
        ensures
            t == (TimeSignature { numerator, denominator }),
    {
        TimeSignature { numerator, denominator }
    }

    /// Common time, 4/4.
    pub fn common() -> (t: TimeSignature)
        ensures
            t == (TimeSignature { numerator: 4, denominator: 4 }),
    {
        TimeSignature::new(4, 4)
    }

    /// Cut time, 2/2.
    pub fn cut() -> (t: TimeSignature)
        ensures
            t == (TimeSignature { numerator: 2, denominator: 2 }),
    {
        TimeSignature::new(2, 2)
    }

    /// Waltz time, 3/4.
    pub fn waltz() -> (t: TimeSignature)
        ensures
            t == (TimeSignature { numerator: 3, denominator: 4 }),
    {
        TimeSignature::new(3, 4)
    }

    /// 6/8.
    pub fn six_eight() -> (t: TimeSignature)
        ensures
            t == (TimeSignature { numerator: 6, denominator: 8 }),
    {
        TimeSignature::new(6, 8)
    }

    /// 5/4.
    pub fn five_four() -> (t: TimeSignature)
        ensures
            t == (TimeSignature { numerator: 5, denominator: 4 }),
    {
        TimeSignature::new(5, 4)
    }

    /// 7/8.
    pub fn seven_eight() -> (t: TimeSignature)
        ensures
            t == (TimeSignature { numerator: 7, denominator: 8 }),
    {
        TimeSignature::new(7, 8)
    }

    /// 11/8.
    pub fn eleven_eight() -> (t: TimeSignature)
        ensures
            t == (TimeSignature { numerator: 11, denominator: 8 }),
    {
        TimeSignature::new(11, 8)
    }

    /// 13/8.
    pub fn thirteen_eight() -> (t: TimeSignature)
        ensures
            t == (TimeSignature { numerator: 13, denominator: 8 }),
    {
        TimeSignature::new(13, 8)
    }

    /// 15/16.
    pub fn fifteen_sixteen() -> (t: TimeSignature)
        ensures
            t == (TimeSignature { numerator: 15, denominator: 16 }),
    {
        TimeSignature::new(15, 16)
    }

    /// 17/16.
    pub fn seventeen_sixteen() -> (t: TimeSignature)
        ensures
            t == (TimeSignature { numerator: 17, denominator: 16 }),
    {
        TimeSignature::new(17, 16)
    }

    /// Is this a compound meter? (groupings of 3)
    pub fn is_compound(&self) -> (b: bool)
        ensures
            b == is_compound_meter(*self),
    {
        self.numerator % 3 == 0 && self.numerator >= 6
    }

    /// Is this a simple meter? (groupings of 2 or 4)
    pub fn is_simple(&self) -> (b: bool)
        ensures
            b == (!is_compound_meter(*self) && self.denominator <= 4),
    {
        !self.is_compound() && self.denominator <= 4
    }

    /// Is this an odd/asymmetric meter?
    pub fn is_odd(&self) -> (b: bool)
        ensures
            b == !(self.numerator == 2 || self.numerator == 3 || self.numerator == 4
                || self.numerator == 6 || self.numerator == 9 || self.numerator == 12),
    {
        !(self.numerator == 2 || self.numerator == 3 || self.numerator == 4 || self.numerator == 6
            || self.numerator == 9 || self.numerator == 12)
    }

    /// Duration of one measure in ticks (at 480 PPQN where quarter = 480).
    pub fn measure_ticks(&self) -> (t: u64)
        ensures
            t == beat_ticks(self.denominator) * self.numerator,
            self.denominator == 1 || self.denominator == 2 || self.denominator == 4 || self.denominator == 8
                || self.denominator == 16 || self.denominator == 32 || self.denominator == 64 ==> t
                * self.denominator == 1920 * self.numerator,
    {
        proof {
            if self.denominator == 1 || self.denominator == 2 || self.denominator == 4 || self.denominator
                == 8 || self.denominator == 16 || self.denominator == 32 || self.denominator == 64 {
                lemma_beats_divide_whole(*self);
            }
        }
        let beat_ticks: u64 = if self.denominator == 1 {
            1920
        } else if self.denominator == 2 {
            960
        } else if self.denominator == 8 {
            240
        } else if self.denominator == 16 {
            120
        } else if self.denominator == 32 {
            60
        } else if self.denominator == 64 {
            30
        } else {
            480
        };
        beat_ticks * (self.numerator as u64)
    }

    /// Number of beats per measure.
    pub fn beats(&self) -> (n: u8)
        ensures
            n == self.numerator,
    {
        self.numerator
    }

    /// Display string, "numerator/denominator".
    pub fn display(&self) -> (s: String)
        ensures
            s@ == decimal(self.numerator as nat) + "/"@ + decimal(self.denominator as nat),
    {
        pair_text(self.numerator, "/", self.denominator)
    }

    /// Grouping pattern (for beaming): the beat divisions of the meter.
    pub fn default_grouping(&self) -> (g: Vec<u8>)
        ensures
            g@ == grouping(*self),
    {
        let g = match (self.numerator, self.denominator) {
            (4, 4) => vec![1u8, 1u8, 1u8, 1u8],
            (3, 4) => vec![1u8, 1u8, 1u8],
            (2, 4) => vec![1u8, 1u8],
            (6, 8) => vec![3u8, 3u8],
            (9, 8) => vec![3u8, 3u8, 3u8],
            (12, 8) => vec![3u8, 3u8, 3u8, 3u8],
            (5, 4) => vec![3u8, 2u8],
            (5, 8) => vec![3u8, 2u8],
            (7, 8) => vec![2u8, 2u8, 3u8],
            (11, 8) => vec![3u8, 3u8, 3u8, 2u8],
            (13, 8) => vec![3u8, 3u8, 3u8, 2u8, 2u8],
            (15, 16) => vec![4u8, 4u8, 4u8, 3u8],
            _ => vec![self.numerator],
        };
        assert(g@ =~= grouping(*self));
        g
    }
}

/// Kind of a tempo event.
#[derive(Debug, Clone, Copy, PartialEq, Eq, Structural)]
pub enum TempoEventType {
    /// Immediate change
    Immediate,
    /// Accelerando (gradual speed up)
    Accelerando,
    /// Ritardando (gradual slow down)
    Ritardando,
    /// Rallentando (slowing at phrase end)
    Rallentando,
    /// A tempo (return to previous tempo)
    ATempo,
}

/// Metric modulation: tempo change via a rhythmic relationship.
#[derive(Debug, Clone, Copy, PartialEq, Eq, Structural)]
pub struct MetricModulation {
    /// Old note value
    pub old_value: BaseDuration,
    /// New note value
    pub new_value: BaseDuration,
    /// Optional tuplet for old value
    pub old_tuplet: Option<Tuplet>,
    /// Optional tuplet for new value
    pub new_tuplet: Option<Tuplet>,
}

impl MetricModulation {
    /// Modulation where old and new values are of equal duration.
    pub fn new(old_value: BaseDuration, new_value: BaseDuration) -> (m: MetricModulation)
        ensures
            m == (MetricModulation { old_value, new_value, old_tuplet: None, new_tuplet: None }),
    {
        MetricModulation { old_value, new_value, old_tuplet: None, new_tuplet: None }
    }

    /// Classic "quarter = dotted quarter" feel change.
    pub fn dotted_to_straight() -> (m: MetricModulation)
        ensures
            m == (MetricModulation {
                old_value: BaseDuration::Quarter,
                new_value: BaseDuration::Quarter,
                old_tuplet: None,
                new_tuplet: None,
            }),
    {
        MetricModulation::new(BaseDuration::Quarter, BaseDuration::Quarter)
    }
}

/// One voice of a polyrhythm.
#[derive(Debug, Clone, Copy, PartialEq, Eq, Structural)]
pub struct PolyrhythmVoice {
    /// Number of notes
    pub count: u8,
    /// Base duration of each note
    pub duration: BaseDuration,
}

/// Polyrhythm notation (n against m).
#[derive(Debug, Clone, Copy, PartialEq, Eq, Structural)]
pub struct Polyrhythm {
    /// Top rhythm (primary voice)
    pub primary: PolyrhythmVoice,
    /// Bottom rhythm (secondary voice)
    pub secondary: PolyrhythmVoice,
}

/// A polyrhythm of two voices.
pub open spec fn poly(p: u8, pd: BaseDuration, s: u8, sd: BaseDuration) -> Polyrhythm {
    Polyrhythm {
        primary: PolyrhythmVoice { count: p, duration: pd },
        secondary: PolyrhythmVoice { count: s, duration: sd },
    }
}

impl Polyrhythm {
    /// 3 against 2.
    pub fn three_against_two() -> (p: Polyrhythm)
        ensures
            p == poly(3, BaseDuration::Eighth, 2, BaseDuration::Eighth),
    {
        Polyrhythm {
            primary: PolyrhythmVoice { count: 3, duration: BaseDuration::Eighth },
            secondary: PolyrhythmVoice { count: 2, duration: BaseDuration::Eighth },
        }
    }

    /// 4 against 3.
    pub fn four_against_three() -> (p: Polyrhythm)
        ensures
            p == poly(4, BaseDuration::Sixteenth, 3, BaseDuration::Eighth),
    {
        Polyrhythm {
            primary: PolyrhythmVoice { count: 4, duration: BaseDuration::Sixteenth },
            secondary: PolyrhythmVoice { count: 3, duration: BaseDuration::Eighth },
        }
    }

    /// 5 against 4.
    pub fn five_against_four() -> (p: Polyrhythm)
        ensures
            p == poly(5, BaseDuration::Sixteenth, 4, BaseDuration::Sixteenth),
    {
        Polyrhythm {
            primary: PolyrhythmVoice { count: 5, duration: BaseDuration::Sixteenth },
            secondary: PolyrhythmVoice { count: 4, duration: BaseDuration::Sixteenth },
        }
    }

    /// Custom polyrhythm of sixteenths.
    pub fn custom(primary: u8, secondary: u8) -> (p: Polyrhythm)
        ensures
            p == poly(primary, BaseDuration::Sixteenth, secondary, BaseDuration::Sixteenth),
    {
        Polyrhythm {
            primary: PolyrhythmVoice { count: primary, duration: BaseDuration::Sixteenth },
            secondary: PolyrhythmVoice { count: secondary, duration: BaseDuration::Sixteenth },
        }
    }

    /// Display notation, "primary:secondary".
    pub fn display(&self) -> (s: String)
        ensures
            s@ == ratio_text(self.primary.count, self.secondary.count),
    {
        pair_text(self.primary.count, ":", self.secondary.count)
    }
}

/// Each base value lasts twice the next shorter one, down to the 128th
/// note; the 256th note is half of the 128th, rounded down.
pub proof fn lemma_base_values_halve()
    ensures
        base_ticks(BaseDuration::Longa) == 2 * base_ticks(BaseDuration::Breve),
        base_ticks(BaseDuration::Breve) == 2 * base_ticks(BaseDuration::Whole),
        base_ticks(BaseDuration::Whole) == 2 * base_ticks(BaseDuration::Half),
        base_ticks(BaseDuration::Half) == 2 * base_ticks(BaseDuration::Quarter),
        base_ticks(BaseDuration::Quarter) == 2 * base_ticks(BaseDuration::Eighth),
        base_ticks(BaseDuration::Eighth) == 2 * base_ticks(BaseDuration::Sixteenth),
        base_ticks(BaseDuration::Sixteenth) == 2 * base_ticks(BaseDuration::ThirtySecond),
        base_ticks(BaseDuration::ThirtySecond) == 2 * base_ticks(BaseDuration::SixtyFourth),
        base_ticks(BaseDuration::SixtyFourth) == 2 * base_ticks(BaseDuration::OneHundredTwentyEighth),
        base_ticks(BaseDuration::TwoHundredFiftySixth) == base_ticks(BaseDuration::OneHundredTwentyEighth)
            / 2,
        base_ticks(BaseDuration::Quarter) == 480,
{
}

/// Each dot adds half of what the one before it added (halves rounded
/// down): without a tuplet, an undotted value lasts its base, one dot adds
/// half of the base, a second dot a quarter more, a third an eighth more.
pub proof fn lemma_dots_add_halves(r: RhythmValue)
    requires
        r.tuplet is None,
    ensures
        ({
            let t = base_ticks(r.base);
            &&& rhythm_ticks(RhythmValue { dots: 0, ..r }) == t
            &&& rhythm_ticks(RhythmValue { dots: 1, ..r }) == rhythm_ticks(RhythmValue { dots: 0, ..r }) + t / 2
            &&& rhythm_ticks(RhythmValue { dots: 2, ..r }) == rhythm_ticks(RhythmValue { dots: 1, ..r }) + t / 4
            &&& rhythm_ticks(RhythmValue { dots: 3, ..r }) == rhythm_ticks(RhythmValue { dots: 2, ..r }) + t / 8
        }),
{
}

/// A beat of `1/d` lasts the `d`th part of a whole note: for `d` a power
/// of two up to 64, `d` beats make 1920 ticks, so a measure of `n/d`
/// lasts `n` whole notes divided by `d` (2/2 lasts as long as 4/4).
pub proof fn lemma_beats_divide_whole(ts: TimeSignature)
    requires
        ts.denominator == 1 || ts.denominator == 2 || ts.denominator == 4 || ts.denominator == 8
            || ts.denominator == 16 || ts.denominator == 32 || ts.denominator == 64,
    ensures
        beat_ticks(ts.denominator) * ts.denominator == 1920,
        beat_ticks(ts.denominator) * ts.numerator * ts.denominator == 1920 * ts.numerator,
        beat_ticks(ts.denominator) * ts.numerator == 1920 * ts.numerator / (ts.denominator as int),
{
    let d = ts.denominator as int;
    let n = ts.numerator as int;
    let b = beat_ticks(ts.denominator) as int;
    assert(b * d == 1920);
    assert(b * n * d == 1920 * n) by (nonlinear_arith)
        requires
            b * d == 1920,
    ;
    assert(b * n >= 0) by (nonlinear_arith)
        requires
            b >= 0,
            n >= 0,
    ;
    vstd::arithmetic::div_mod::lemma_div_by_multiple(b * n, d);
    assert((b * n) * d == 1920 * n);
}

/// A tuplet scales a duration by `normal / actual`, rounded down: the
/// ticks it gives, times `actual`, are at most the duration times
/// `normal`, and one tick more would be too many.
pub proof fn lemma_tuplet_rounds_down(d: nat, t: Tuplet)
    requires
        t.actual > 0,
    ensures
        tuplet_ticks(d, t) * t.actual <= d * t.normal,
        d * t.normal < (tuplet_ticks(d, t) + 1) * t.actual,
{
    let a = t.actual as int;
    let x = d * t.normal;
    vstd::arithmetic::div_mod::lemma_fundamental_div_mod(x as int, a);
    assert(x / a * a == a * (x / a)) by (nonlinear_arith);
    assert((x / a + 1) * a == a * (x / a) + a) by (nonlinear_arith);
}

} // verus!
