//! Core types for compositional analysis: pitch classes, intervals,
//! distributions, root motions, chord qualities and track roles.

use std::collections::HashMap;
use vstd::prelude::*;
use crate::text::{decimal, push_decimal};
use crate::analysis::harmony::{heaviest_first, by_weight_desc};

verus! {

broadcast use vstd::std_specs::hash::group_hash_axioms;

/// Pitch class (0-11, C=0 through B=11).
pub type PitchClass = u8;

/// Interval in semitones.
pub type Interval = u8;

/// The names of the pitch classes, from C.
pub open spec fn pitch_names() -> Seq<Seq<char>> {
    seq!["C"@, "C#"@, "D"@, "D#"@, "E"@, "F"@, "F#"@, "G"@, "G#"@, "A"@, "A#"@, "B"@] 
}

/// The names of the intervals within an octave, from the unison.
pub open spec fn interval_names() -> Seq<Seq<char>> {
    seq!["unison"@, "m2"@, "M2"@, "m3"@, "M3"@, "P4"@, "tritone"@, "P5"@, "m6"@, "M6"@, "m7"@, "M7"@]
}

/// Pitch class name lookup (the class of `pc` modulo 12).
pub fn pitch_name(pc: PitchClass) -> (s: &'static str)
    ensures
        s@ == pitch_names()[(pc % 12) as int],
{
    let i = pc % 12;
    if i == 0 {
        "C"
    } else if i == 1 {
        "C#"
    } else if i == 2 {
        "D"
    } else if i == 3 {
        "D#"
    } else if i == 4 {
        "E"
    } else if i == 5 {
        "F"
    } else if i == 6 {
        "F#"
    } else if i == 7 {
        "G"
    } else if i == 8 {
        "G#"
    } else if i == 9 {
        "A"
    } else if i == 10 {
        "A#"
    } else {
        "B"
    }
}

/// Interval name lookup (the interval modulo an octave).
pub fn interval_name(semitones: Interval) -> (s: &'static str)
    ensures
        s@ == interval_names()[(semitones % 12) as int],
{
    let i = semitones % 12;
    if i == 0 {
        "unison"
    } else if i == 1 {
        "m2"
    } else if i == 2 {
        "M2"
    } else if i == 3 {
        "m3"
    } else if i == 4 {
        "M3"
    } else if i == 5 {
        "P4"
    } else if i == 6 {
        "tritone"
    } else if i == 7 {
        "P5"
    } else if i == 8 {
        "m6"
    } else if i == 9 {
        "M6"
    } else if i == 10 {
        "m7"
    } else {
        "M7"
    }
}

/// Interval classification for dissonance weighting.
#[derive(Debug, Clone, Copy, PartialEq, Eq, Structural)]
pub enum IntervalClass {
    /// Perfect consonance (unison, octave, P5)
    PerfectConsonance,
    /// Imperfect consonance (M3, m3, M6, m6)
    ImperfectConsonance,
    /// Mild dissonance (M2, m7)
    MildDissonance,
    /// Sharp dissonance (m2, M7)
    SharpDissonance,
    /// Tritone (ambiguous)
    Tritone,
}

/// The class of an interval within an octave (the fourth counts as
/// consonant).
pub open spec fn interval_class(semitones: u8) -> IntervalClass {
    let i = semitones % 12;
    if i == 0 || i == 5 || i == 7 {
        IntervalClass::PerfectConsonance
    } else if i == 3 || i == 4 || i == 8 || i == 9 {
        IntervalClass::ImperfectConsonance
    } else if i == 2 || i == 10 {
        IntervalClass::MildDissonance
    } else if i == 1 || i == 11 {
        IntervalClass::SharpDissonance
    } else {
        IntervalClass::Tritone
    }
}

impl IntervalClass {
    /// Classify an interval by semitone count.
    pub fn classify(semitones: u8) -> (c: IntervalClass)
        ensures
            c == interval_class(semitones),
    {
        let i = semitones % 12;
        if i == 0 || i == 5 || i == 7 {
            IntervalClass::PerfectConsonance
        } else if i == 3 || i == 4 || i == 8 || i == 9 {
            IntervalClass::ImperfectConsonance
        } else if i == 2 || i == 10 {
            IntervalClass::MildDissonance
        } else if i == 1 || i == 11 {
            IntervalClass::SharpDissonance
        } else {
            IntervalClass::Tritone
        }
    }
}

/// The count a map holds for an item (zero where it holds none).
pub open spec fn count_in<K>(counts: Map<K, usize>, item: K) -> nat {
    if counts.contains_key(item) {
        counts[item] as nat
    } else {
        0
    }
}

/// The sum of the counts of the items below `n`.
pub open spec fn counts_below(counts: Map<u8, usize>, n: nat) -> nat
    decreases n,
{
    if n == 0 {
        0
    } else {
        counts_below(counts, (n - 1) as nat) + count_in(counts, (n - 1) as u8)
    }
}

/// Distribution of pitch classes or intervals.
#[derive(Debug, Clone)]
pub struct Distribution {
    /// Counts per item
    pub counts: HashMap<u8, usize>,
    /// Total count
    pub total: usize,
}

impl Distribution {
    /// The total is the sum of the counts.
    pub open spec fn wf(&self) -> bool {
        self.total == counts_below(self.counts@, 256)
    }

    /// An empty distribution.
    pub fn new() -> (d: Distribution)
        ensures
            d.counts@ == Map::<u8, usize>::empty(),
            d.total == 0,
            d.wf(),
    {
        let d = Distribution { counts: HashMap::new(), total: 0 };
        proof {
            lemma_counts_below_empty(256);
        }
        d
    }

    /// Add a count for an item.
    pub fn add(&mut self, item: u8)
        requires
            old(self).total < usize::MAX,
            count_in(old(self).counts@, item) < usize::MAX,
        ensures
            final(self).counts@ == old(self).counts@.insert(
                item,
                (count_in(old(self).counts@, item) + 1) as usize,
            ),
            final(self).total == old(self).total + 1,
    {
        let current: usize = match self.counts.get(&item) {
            Some(c) => *c,
            None => 0,
        };
        let _ = self.counts.insert(item, current + 1);
        self.total = self.total + 1;
    }

    /// The count of an item (zero where it was never added).
    pub fn count(&self, item: u8) -> (c: usize)
        ensures
            c == count_in(self.counts@, item),
    {
        match self.counts.get(&item) {
            Some(c) => *c,
            None => 0,
        }
    }
}

impl Default for Distribution {
    fn default() -> (d: Distribution)
        ensures
            d.counts@ == Map::<u8, usize>::empty(),
            d.total == 0,
            d.wf(),
    {
        Distribution::new()
    }
}

/// An empty map sums to zero.
pub proof fn lemma_counts_below_empty(n: nat)
    ensures
        counts_below(Map::<u8, usize>::empty(), n) == 0,
    decreases n,
{
    if n > 0 {
        lemma_counts_below_empty((n - 1) as nat);
    }
}

/// Raising one item's count by one raises the sum over a range that
/// holds the item by one, and leaves the sum over one that does not.
pub proof fn lemma_counts_below_insert(counts: Map<u8, usize>, item: u8, n: nat)
    requires
        n <= 256,
        count_in(counts, item) < usize::MAX,
    ensures
        ({
            let after = counts.insert(item, (count_in(counts, item) + 1) as usize);
            counts_below(after, n) == counts_below(counts, n) + if (item as nat) < n {
                1nat
            } else {
                0nat
            }
        }),
    decreases n,
{
    if n > 0 {
        lemma_counts_below_insert(counts, item, (n - 1) as nat);
        let after = counts.insert(item, (count_in(counts, item) + 1) as usize);
        let k = (n - 1) as u8;
        if k == item {
            assert(count_in(after, k) == count_in(counts, k) + 1);
        } else {
            assert(count_in(after, k) == count_in(counts, k));
        }
    }
}

/// Adding an item keeps the total equal to the sum of the counts.
pub proof fn lemma_add_keeps_wf(d0: Distribution, d1: Distribution, item: u8)
    requires
        d0.wf(),
        count_in(d0.counts@, item) < usize::MAX,
        d1.counts@ == d0.counts@.insert(item, (count_in(d0.counts@, item) + 1) as usize),
        d1.total == d0.total + 1,
    ensures
        d1.wf(),
{
    lemma_counts_below_insert(d0.counts@, item, 256);
}

/// Root motion between consecutive chords.
#[derive(Debug, Clone, Copy, PartialEq, Eq, Structural)]
pub enum RootMotion {
    /// Static (same root)
    Static,
    /// Chromatic (±1 semitone)
    Chromatic(i8),
    /// Minor third (±3 semitones)
    MinorThird(i8),
    /// Major third (±4 semitones)
    MajorThird(i8),
    /// Perfect fourth/fifth (±5/7 semitones)
    FourthFifth(i8),
    /// Tritone (±6 semitones)
    Tritone,
    /// Other
    Other(i8),
}

/// A motion brought towards -6..=6 by an octave where it lies beyond.
pub open spec fn normalized_motion(semitones: i8) -> i8 {
    if semitones > 6 {
        (semitones - 12) as i8
    } else if semitones < -6 {
        (semitones + 12) as i8
    } else {
        semitones
    }
}

/// The class of a root motion.
pub open spec fn root_motion(semitones: i8) -> RootMotion {
    let n = normalized_motion(semitones);
    let a = if n < 0 { -n } else { n as int };
    if a == 0 {
        RootMotion::Static
    } else if a == 1 {
        RootMotion::Chromatic(n)
    } else if a == 3 {
        RootMotion::MinorThird(n)
    } else if a == 4 {
        RootMotion::MajorThird(n)
    } else if a == 5 || a == 7 {
        RootMotion::FourthFifth(n)
    } else if a == 6 {
        RootMotion::Tritone
    } else {
        RootMotion::Other(n)
    }
}

/// The name of a root motion.
pub open spec fn motion_name(m: RootMotion) -> Seq<char> {
    match m {
        RootMotion::Static => "static"@,
        RootMotion::Chromatic(_) => "chromatic"@,
        RootMotion::MinorThird(_) => "minor 3rd"@,
        RootMotion::MajorThird(_) => "major 3rd"@,
        RootMotion::FourthFifth(_) => "4th/5th"@,
        RootMotion::Tritone => "tritone"@,
        RootMotion::Other(_) => "other"@,
    }
}

impl RootMotion {
    /// Classify a root motion by semitone interval.
    pub fn classify(semitones: i8) -> (m: RootMotion)
        ensures
            m == root_motion(semitones),
    {
        let normalized: i8 = if semitones > 6 {
            semitones - 12
        } else if semitones < -6 {
            semitones + 12
        } else {
            semitones
        };
        let a: i16 = if normalized < 0 {
            -(normalized as i16)
        } else {
            normalized as i16
        };
        if a == 0 {
            RootMotion::Static
        } else if a == 1 {
            RootMotion::Chromatic(normalized)
        } else if a == 3 {
            RootMotion::MinorThird(normalized)
        } else if a == 4 {
            RootMotion::MajorThird(normalized)
        } else if a == 5 || a == 7 {
            RootMotion::FourthFifth(normalized)
        } else if a == 6 {
            RootMotion::Tritone
        } else {
            RootMotion::Other(normalized)
        }
    }

    /// Get name for this motion type.
    pub fn name(&self) -> (s: &'static str)
        ensures
            s@ == motion_name(*self),
    {
        match self {
            RootMotion::Static => "static",
            RootMotion::Chromatic(_) => "chromatic",
            RootMotion::MinorThird(_) => "minor 3rd",
            RootMotion::MajorThird(_) => "major 3rd",
            RootMotion::FourthFifth(_) => "4th/5th",
            RootMotion::Tritone => "tritone",
            RootMotion::Other(_) => "other",
        }
    }
}

/// Chord quality classification.
#[derive(Debug, Clone)]
pub struct ChordQuality {
    /// Has minor 3rd
    pub has_minor_third: bool,
    /// Has major 3rd
    pub has_major_third: bool,
    /// Has perfect 5th
    pub has_perfect_fifth: bool,
    /// Has tritone
    pub has_tritone: bool,
    /// Has minor 7th
    pub has_minor_seventh: bool,
    /// Has major 7th
    pub has_major_seventh: bool,
    /// Has flat 9 (or minor 2nd)
    pub has_flat_nine: bool,
    /// Raw intervals present
    pub intervals: Vec<u8>,
}

/// The quality that a list of intervals from the root gives.
pub open spec fn quality_of(q: ChordQuality, intervals: Seq<u8>) -> bool {
    &&& q.has_minor_third == intervals.contains(3)
    &&& q.has_major_third == intervals.contains(4)
    &&& q.has_perfect_fifth == intervals.contains(7)
    &&& q.has_tritone == intervals.contains(6)
    &&& q.has_minor_seventh == intervals.contains(10)
    &&& q.has_major_seventh == intervals.contains(11)
    &&& q.has_flat_nine == (intervals.contains(1) || intervals.contains(13))
    &&& q.intervals@ == intervals
}

/// A power chord: root and fifth only, so every interval above the root
/// is the fifth and there is one.
pub open spec fn power_chord(q: ChordQuality) -> bool {
    q.intervals@.len() > 0 && forall|i: int| 0 <= i < q.intervals@.len() ==> q.intervals@[i] == 7
}

/// The named parts of a quality, in order.
pub open spec fn quality_parts(q: ChordQuality) -> Seq<Seq<char>> {
    let p1 = if q.has_minor_third { seq!["m3"@] } else { Seq::<Seq<char>>::empty() };
    let p2 = if q.has_major_third { seq!["M3"@] } else { Seq::<Seq<char>>::empty() };
    let p3 = if q.has_tritone { seq!["b5"@] } else { Seq::<Seq<char>>::empty() };
    let p4 = if q.has_perfect_fifth && (q.has_minor_third || q.has_major_third) {
        seq!["P5"@]
    } else {
        Seq::<Seq<char>>::empty()
    };
    let p5 = if q.has_minor_seventh { seq!["m7"@] } else { Seq::<Seq<char>>::empty() };
    let p6 = if q.has_major_seventh { seq!["M7"@] } else { Seq::<Seq<char>>::empty() };
    let p7 = if q.has_flat_nine { seq!["b9"@] } else { Seq::<Seq<char>>::empty() };
    p1 + p2 + p3 + p4 + p5 + p6 + p7
}

/// Parts joined by a separator.
pub open spec fn joined(parts: Seq<Seq<char>>, sep: Seq<char>) -> Seq<char>
    decreases parts.len(),
{
    if parts.len() == 0 {
        Seq::empty()
    } else if parts.len() == 1 {
        parts[0]
    } else {
        joined(parts.drop_last(), sep) + sep + parts.last()
    }
}

/// A list of bytes as its debug form shows it: "[1, 2, 3]".
pub open spec fn debug_list(v: Seq<u8>) -> Seq<char> {
    "["@ + joined(v.map_values(|x: u8| decimal(x as nat)), ", "@) + "]"@
}

/// The descriptive name of a quality.
pub open spec fn quality_name(q: ChordQuality) -> Seq<char> {
    if power_chord(q) && !q.has_minor_seventh && !q.has_major_seventh {
        "5"@
    } else if quality_parts(q).len() == 0 {
        "intervals:"@ + debug_list(q.intervals@)
    } else {
        joined(quality_parts(q), "+"@)
    }
}

/// Whether `v` holds `x`.
pub fn slice_contains(v: &[u8], x: u8) -> (b: bool)
    ensures
        b == v@.contains(x),
{
    let mut i: usize = 0;
    while i < v.len()
        invariant
            i <= v@.len(),
            forall|j: int| 0 <= j < i ==> v@[j] != x,
        decreases v@.len() - i,
    {
        if v[i] == x {
            proof {
                assert(v@[i as int] == x);
            }
            return true;
        }
        i = i + 1;
    }
    false
}

/// Parts joined by a separator.
pub fn join_parts(parts: &Vec<&str>, sep: &str) -> (s: String)
    ensures
        s@ == joined(parts@.map_values(|p: &str| p@), sep@),
{
    let ghost views = parts@.map_values(|p: &str| p@);
    let mut s = String::new();
    let mut i: usize = 0;
    while i < parts.len()
        invariant
            i <= parts@.len(),
            views == parts@.map_values(|p: &str| p@),
            s@ == joined(views.subrange(0, i as int), sep@),
        decreases parts@.len() - i,
    {
        proof {
            assert(views.subrange(0, i + 1).drop_last() =~= views.subrange(0, i as int));
        }
        if i > 0 {
            s.append(sep);
        }
        s.append(parts[i]);
        i = i + 1;
    }
    proof {
        assert(views.subrange(0, parts@.len() as int) =~= views);
    }
    s
}

/// Decimal numbers joined by ", ".
pub fn join_decimals(v: &Vec<u8>) -> (s: String)
    ensures
        s@ == joined(v@.map_values(|x: u8| decimal(x as nat)), ", "@),
{
    let ghost views = v@.map_values(|x: u8| decimal(x as nat));
    let mut s = String::new();
    let mut i: usize = 0;
    while i < v.len()
        invariant
            i <= v@.len(),
            views == v@.map_values(|x: u8| decimal(x as nat)),
            s@ == joined(views.subrange(0, i as int), ", "@),
        decreases v@.len() - i,
    {
        proof {
            assert(views.subrange(0, i + 1).drop_last() =~= views.subrange(0, i as int));
        }
        if i > 0 {
            s.append(", ");
        }
        push_decimal(&mut s, v[i] as u64);
        i = i + 1;
    }
    proof {
        assert(views.subrange(0, v@.len() as int) =~= views);
    }
    s
}

/// Appends `part` where `cond` holds.
fn push_if(parts: &mut Vec<&'static str>, cond: bool, part: &'static str)
    ensures
        final(parts)@.map_values(|p: &str| p@) == old(parts)@.map_values(|p: &str| p@) + if cond {
            seq![part@]
        } else {
            Seq::<Seq<char>>::empty()
        },
{
    let ghost before = parts@;
    if cond {
        parts.push(part);
        assert(parts@.map_values(|p: &str| p@) =~= before.map_values(|p: &str| p@) + seq![part@]);
    } else {
        assert(parts@.map_values(|p: &str| p@) =~= before.map_values(|p: &str| p@) + Seq::<Seq<char>>::empty());
    }
}

impl ChordQuality {
    /// Create from a set of intervals from root.
    pub fn from_intervals(intervals: &[u8]) -> (q: ChordQuality)
        ensures
            quality_of(q, intervals@),
    {
        let mut copy: Vec<u8> = Vec::new();
        let mut i: usize = 0;
        while i < intervals.len()
            invariant
                i <= intervals@.len(),
                copy@ == intervals@.subrange(0, i as int),
            decreases intervals@.len() - i,
        {
            copy.push(intervals[i]);
            i = i + 1;
        }
        assert(copy@ =~= intervals@);
        ChordQuality {
            has_minor_third: slice_contains(intervals, 3),
            has_major_third: slice_contains(intervals, 4),
            has_perfect_fifth: slice_contains(intervals, 7),
            has_tritone: slice_contains(intervals, 6),
            has_minor_seventh: slice_contains(intervals, 10),
            has_major_seventh: slice_contains(intervals, 11),
            has_flat_nine: slice_contains(intervals, 1) || slice_contains(intervals, 13),
            intervals: copy,
        }
    }

    /// Check if this is a power chord (just root + 5th).
    pub fn is_power_chord(&self) -> (b: bool)
        ensures
            b == power_chord(*self),
    {
        if self.intervals.len() == 0 {
            return false;
        }
        let mut i: usize = 0;
        while i < self.intervals.len()
            invariant
                i <= self.intervals@.len(),
                forall|j: int| 0 <= j < i ==> self.intervals@[j] == 7,
            decreases self.intervals@.len() - i,
        {
            if self.intervals[i] != 7 {
                return false;
            }
            i = i + 1;
        }
        true
    }

    /// The named parts of the quality, in order.
    fn part_list(&self) -> (parts: Vec<&'static str>)
        ensures
            parts@.map_values(|p: &str| p@) == quality_parts(*self),
    {
        let mut parts: Vec<&'static str> = Vec::new();
        push_if(&mut parts, self.has_minor_third, "m3");
        push_if(&mut parts, self.has_major_third, "M3");
        push_if(&mut parts, self.has_tritone, "b5");
        push_if(&mut parts, self.has_perfect_fifth && (self.has_minor_third || self.has_major_third), "P5");
        push_if(&mut parts, self.has_minor_seventh, "m7");
        push_if(&mut parts, self.has_major_seventh, "M7");
        push_if(&mut parts, self.has_flat_nine, "b9");
        proof {
            let q = *self;
            let e = Seq::<Seq<char>>::empty();
            let p1 = if q.has_minor_third { seq!["m3"@] } else { e };
            let p2 = if q.has_major_third { seq!["M3"@] } else { e };
            let p3 = if q.has_tritone { seq!["b5"@] } else { e };
            let p4 = if q.has_perfect_fifth && (q.has_minor_third || q.has_major_third) { seq!["P5"@] } else { e };
            let p5 = if q.has_minor_seventh { seq!["m7"@] } else { e };
            let p6 = if q.has_major_seventh { seq!["M7"@] } else { e };
            let p7 = if q.has_flat_nine { seq!["b9"@] } else { e };
            assert(e + p1 + p2 + p3 + p4 + p5 + p6 + p7 =~= p1 + p2 + p3 + p4 + p5 + p6 + p7);
        }
        parts
    }

    /// Get descriptive name.
    pub fn name(&self) -> (s: String)
        ensures
            s@ == quality_name(*self),
    {
        if self.is_power_chord() && !self.has_minor_seventh && !self.has_major_seventh {
            return String::from_str("5");
        }
        let parts = self.part_list();
        if parts.len() == 0 {
            let mut s = String::from_str("intervals:");
            s.append("[");
            let body = join_decimals(&self.intervals);
            s.append(body.as_str());
            s.append("]");
            return s;
        }
        join_parts(&parts, "+")
    }
}

/// Inferred compositional role of a track.
#[derive(Debug, Clone, Copy, PartialEq, Eq, Structural)]
pub enum TrackRole {
    /// Lead voice (high register, high variance)
    Lead,
    /// Rhythm anchor (low register, consistent patterns)
    Rhythm,
    /// Upper harmony voice
    UpperHarmony,
    /// Bass foundation
    BassFoundation,
    /// Inner voice / filler
    InnerVoice,
    /// Drums
    Drums,
    /// Orchestral/synth (extreme variance)
    Orchestral,
}

/// The description of a role.
pub open spec fn role_description(r: TrackRole) -> Seq<char> {
    match r {
        TrackRole::Lead => "high register, melodic exploration"@,
        TrackRole::Rhythm => "low register, foundational pulse"@,
        TrackRole::UpperHarmony => "high strings, upper voice in texture"@,
        TrackRole::BassFoundation => "low strings, bottom of harmonic stack"@,
        TrackRole::InnerVoice => "mid-register, harmonic filler"@,
        TrackRole::Drums => "percussion"@,
        TrackRole::Orchestral => "extreme variance, likely non-guitar"@,
    }
}

impl TrackRole {
    /// Get description.
    pub fn description(&self) -> (s: &'static str)
        ensures
            s@ == role_description(*self),
    {
        match self {
            TrackRole::Lead => "high register, melodic exploration",
            TrackRole::Rhythm => "low register, foundational pulse",
            TrackRole::UpperHarmony => "high strings, upper voice in texture",
            TrackRole::BassFoundation => "low strings, bottom of harmonic stack",
            TrackRole::InnerVoice => "mid-register, harmonic filler",
            TrackRole::Drums => "percussion",
            TrackRole::Orchestral => "extreme variance, likely non-guitar",
        }
    }
}

impl Default for TrackRole {
    fn default() -> (r: TrackRole)
        ensures
            r == TrackRole::InnerVoice,
    {
        TrackRole::InnerVoice
    }
}

/// The count of every byte value, as a table of 256 entries.
pub open spec fn count_table(counts: Map<u8, usize>) -> Seq<u64> {
    Seq::new(256, |i: int| count_in(counts, i as u8) as u64)
}

/// The `n` most frequent items with their counts, most frequent first,
/// items of one count in increasing order.
pub open spec fn top_items(counts: Map<u8, usize>, n: nat) -> Seq<(u8, u64)> {
    let all = by_weight_desc(count_table(counts), u64::MAX as nat);
    if n < all.len() {
        all.subrange(0, n as int)
    } else {
        all
    }
}

impl Distribution {
    /// The `n` most frequent items with their counts, most frequent
    /// first (items of one count in increasing order).
    pub fn top_counts(&self, n: usize) -> (r: Vec<(u8, u64)>)
        ensures
            r@ == top_items(self.counts@, n as nat),
    {
        let mut table: Vec<u64> = Vec::new();
        let mut i: u16 = 0;
        while i < 256
            invariant
                i <= 256,
                table@.len() == i,
                forall|k: int| 0 <= k < i ==> #[trigger] table@[k] == count_in(self.counts@, k as u8) as u64,
            decreases 256 - i,
        {
            let c = self.count(i as u8);
            table.push(c as u64);
            i = i + 1;
        }
        proof {
            assert(table@ =~= count_table(self.counts@));
        }
        let mut all = heaviest_first(&table);
        if n < all.len() {
            all.truncate(n);
            proof {
                assert(all@ =~= by_weight_desc(count_table(self.counts@), u64::MAX as nat).subrange(0, n as int));
            }
        }
        all
    }
}

/// A quality's dissonance in halves: a major seventh weighs six, a flat
/// nine five, a tritone four and a minor seventh two.
pub open spec fn dissonance_in_halves(q: ChordQuality) -> u8 {
    ((if q.has_major_seventh { 6u8 } else { 0u8 }) + (if q.has_flat_nine { 5u8 } else { 0u8 })
        + (if q.has_tritone { 4u8 } else { 0u8 }) + (if q.has_minor_seventh { 2u8 } else { 0u8 })) as u8
}

impl ChordQuality {
    /// Dissonance score in halves (half the value is the score).
    pub fn dissonance_halves(&self) -> (d: u8)
        ensures
            d == dissonance_in_halves(*self),
    {
        let mut d: u8 = 0;
        if self.has_major_seventh {
            d = d + 6;
        }
        if self.has_flat_nine {
            d = d + 5;
        }
        if self.has_tritone {
            d = d + 4;
        }
        if self.has_minor_seventh {
            d = d + 2;
        }
        d
    }
}

/// A part list with one part holds that part and no other.
proof fn lemma_one_part(a: Seq<char>, b: Seq<char>, on: bool)
    ensures
        (if on { seq![a] } else { Seq::<Seq<char>>::empty() }).contains(b) == (on && a == b),
{
    if on {
        if seq![a].contains(b) {
            let i = choose|i: int| 0 <= i < seq![a].len() && seq![a][i] == b;
            assert(i == 0);
        } else {
            assert(seq![a][0] == a);
        }
    }
}

/// Every interval of a quality is named among its parts exactly when it is
/// there: minor and major third, tritone, minor and major seventh and flat
/// nine by themselves, the perfect fifth when a third makes a triad of it.
pub proof fn lemma_quality_parts_name_intervals(q: ChordQuality)
    ensures
        quality_parts(q).contains("m3"@) == q.has_minor_third,
        quality_parts(q).contains("M3"@) == q.has_major_third,
        quality_parts(q).contains("b5"@) == q.has_tritone,
        quality_parts(q).contains("P5"@) == (q.has_perfect_fifth && (q.has_minor_third
            || q.has_major_third)),
        quality_parts(q).contains("m7"@) == q.has_minor_seventh,
        quality_parts(q).contains("M7"@) == q.has_major_seventh,
        quality_parts(q).contains("b9"@) == q.has_flat_nine,
{
    broadcast use vstd::seq_lib::lemma_seq_concat_contains_all_elements;

    reveal_strlit("m3");
    reveal_strlit("M3");
    reveal_strlit("b5");
    reveal_strlit("P5");
    reveal_strlit("m7");
    reveal_strlit("M7");
    reveal_strlit("b9");
    let names = seq!["m3"@, "M3"@, "b5"@, "P5"@, "m7"@, "M7"@, "b9"@];
    let on = seq![
        q.has_minor_third,
        q.has_major_third,
        q.has_tritone,
        q.has_perfect_fifth && (q.has_minor_third || q.has_major_third),
        q.has_minor_seventh,
        q.has_major_seventh,
        q.has_flat_nine,
    ];
    assert forall|i: int, j: int| 0 <= i < 7 && 0 <= j < 7 && i != j implies names[i] != names[j] by {
        if names[i] == names[j] {
            assert(names[i][0] == names[j][0] && names[i][1] == names[j][1]);
        }
    }
    assert forall|i: int, j: int| 0 <= i < 7 && 0 <= j < 7 implies (if on[i] {
        seq![names[i]]
    } else {
        Seq::<Seq<char>>::empty()
    }).contains(names[j]) == (on[i] && i == j) by {
        lemma_one_part(names[i], names[j], on[i]);
    }
}

/// A chord holding a third and the fifth is named by its parts, and the
/// fifth is among them; a major triad (only the major third and the fifth
/// above the root) is named "M3+P5".
pub proof fn lemma_triad_names_fifth(q: ChordQuality, intervals: Seq<u8>)
    requires
        quality_of(q, intervals),
        intervals.contains(7),
        intervals.contains(3) || intervals.contains(4),
    ensures
        !power_chord(q),
        quality_parts(q).contains("P5"@),
        quality_name(q) == joined(quality_parts(q), "+"@),
        (forall|k: int| 0 <= k < intervals.len() ==> intervals[k] == 4 || intervals[k] == 7)
            && intervals.contains(4) ==> quality_name(q) == "M3+P5"@,
{
    lemma_quality_parts_name_intervals(q);
    let third = if intervals.contains(3) { 3u8 } else { 4u8 };
    let k = choose|k: int| 0 <= k < intervals.len() && intervals[k] == third;
    assert(q.intervals@[k] != 7);
    if (forall|k: int| 0 <= k < intervals.len() ==> intervals[k] == 4 || intervals[k] == 7) && intervals.contains(4) {
        reveal_strlit("M3");
        reveal_strlit("P5");
        reveal_strlit("+");
        reveal_strlit("M3+P5");
        assert(!intervals.contains(3));
        assert(!intervals.contains(6));
        assert(!intervals.contains(10));
        assert(!intervals.contains(11));
        assert(!intervals.contains(1));
        assert(!intervals.contains(13));
        let e = Seq::<Seq<char>>::empty();
        assert(quality_parts(q) =~= seq!["M3"@, "P5"@]) by {
            assert(e + seq!["M3"@] + e + seq!["P5"@] + e + e + e =~= seq!["M3"@, "P5"@]);
        }
        assert(joined(seq!["M3"@, "P5"@], "+"@) == joined(seq!["M3"@], "+"@) + "+"@ + "P5"@) by {
            assert(seq!["M3"@, "P5"@].drop_last() =~= seq!["M3"@]);
        }
        assert("M3"@ + "+"@ + "P5"@ =~= "M3+P5"@);
    }
}

} // verus!
