//! Harmonic analysis: chords extracted from simultaneous notes, root and
//! interval vocabularies, root motion and recurring progressions.

use std::collections::HashMap;
use vstd::prelude::*;
use crate::analysis::types::{
    ChordQuality, Distribution, PitchClass, pitch_name, pitch_names, quality_name, quality_of,
    count_in,
};

verus! {

broadcast use vstd::std_specs::hash::group_hash_axioms;

/// The values below `n` that `s` holds, in increasing order.
pub open spec fn values_below(s: Seq<u8>, n: nat) -> Seq<u8>
    decreases n,
{
    if n == 0 {
        Seq::empty()
    } else {
        let prev = values_below(s, (n - 1) as nat);
        if s.contains((n - 1) as u8) {
            prev.push((n - 1) as u8)
        } else {
            prev
        }
    }
}

/// The distinct values of `s`, in increasing order.
pub open spec fn sorted_distinct(s: Seq<u8>) -> Seq<u8> {
    values_below(s, 256)
}

/// The pitches that notes (string numbered from 1 at the top, fret) sound
/// on an instrument with the given tuning, low string first; a note on a
/// string that the tuning lacks sounds nothing.
pub open spec fn sounded(tuning: Seq<u8>, string_count: u8, notes: Seq<(u8, u8)>) -> Seq<u8>
    decreases notes.len(),
{
    if notes.len() == 0 {
        Seq::empty()
    } else {
        let prev = sounded(tuning, string_count, notes.drop_last());
        let (string, fret) = notes.last();
        let idx = string_count - string;
        if 0 <= idx < tuning.len() {
            prev.push((tuning[idx] + fret) as u8)
        } else {
            prev
        }
    }
}

/// Every note names a string of the instrument, and no sounded pitch
/// passes 255.
pub open spec fn notes_fit(tuning: Seq<u8>, string_count: u8, notes: Seq<(u8, u8)>) -> bool {
    forall|k: int|
        0 <= k < notes.len() ==> {
            let (string, fret) = #[trigger] notes[k];
            &&& string <= string_count
            &&& (string_count - string < tuning.len() ==> tuning[string_count - string] + fret
                <= 255)
        }
}

/// The intervals above the lowest pitch, within an octave, leaving out
/// unisons and octaves.
pub open spec fn intervals_above(pitches: Seq<u8>) -> Seq<u8> {
    pitches.map_values(|p: u8| ((p - pitches[0]) % 12) as u8).filter(|i: u8| i > 0)
}

/// A chord extracted from simultaneous notes.
#[derive(Debug, Clone)]
pub struct ExtractedChord {
    /// Measure number
    pub measure: usize,
    /// Beat index within measure
    pub beat_index: usize,
    /// MIDI pitches (sorted low to high)
    pub pitches: Vec<u8>,
    /// Pitch classes present
    pub pitch_classes: Vec<PitchClass>,
    /// Root pitch class (lowest note)
    pub root: PitchClass,
    /// Intervals from root
    pub intervals: Vec<u8>,
    /// Chord quality
    pub quality: ChordQuality,
}

/// `c` is the chord of the given distinct, increasing pitches at the
/// given place.
pub open spec fn chord_is(c: ExtractedChord, measure: usize, beat_index: usize, pitches: Seq<u8>) -> bool {
    &&& c.measure == measure
    &&& c.beat_index == beat_index
    &&& c.pitches@ == pitches
    &&& c.pitch_classes@ == pitches.map_values(|p: u8| (p % 12) as u8)
    &&& c.root == pitches[0] % 12
    &&& c.intervals@ == intervals_above(pitches)
    &&& quality_of(c.quality, c.intervals@)
}

/// The chord name: root name and quality name.
pub open spec fn chord_name(c: ExtractedChord) -> Seq<char> {
    pitch_names()[(c.root % 12) as int] + quality_name(c.quality)
}

impl ExtractedChord {
    /// Get chord name (root + quality).
    pub fn name(&self) -> (s: String)
        ensures
            s@ == chord_name(*self),
    {
        let mut s = String::from_str(pitch_name(self.root));
        let q = self.quality.name();
        s.append(q.as_str());
        s
    }

    /// Check if chord contains tritone.
    pub fn has_tritone(&self) -> (b: bool)
        ensures
            b == self.intervals@.contains(6),
    {
        let mut i: usize = 0;
        while i < self.intervals.len()
            invariant
                i <= self.intervals@.len(),
                forall|j: int| 0 <= j < i ==> self.intervals@[j] != 6,
            decreases self.intervals@.len() - i,
        {
            if self.intervals[i] == 6 {
                proof {
                    assert(self.intervals@[i as int] == 6);
                }
                return true;
            }
            i = i + 1;
        }
        false
    }

    /// Get bass note pitch class.
    pub fn bass(&self) -> (pc: PitchClass)
        ensures
            pc == self.root,
    {
        self.root
    }
}

/// The distinct values of `s`, in increasing order.
pub fn sort_distinct(s: &Vec<u8>) -> (r: Vec<u8>)
    ensures
        r@ == sorted_distinct(s@),
{
    let mut r: Vec<u8> = Vec::new();
    let mut v: u16 = 0;
    while v < 256
        invariant
            v <= 256,
            r@ == values_below(s@, v as nat),
        decreases 256 - v,
    {
        let mut found = false;
        let mut i: usize = 0;
        while i < s.len()
            invariant
                v < 256,
                i <= s@.len(),
                found == (exists|j: int| 0 <= j < i && s@[j] == v as u8),
            decreases s@.len() - i,
        {
            if s[i] == v as u8 {
                found = true;
            }
            i = i + 1;
        }
        proof {
            assert(found == s@.contains(v as u8));
        }
        if found {
            r.push(v as u8);
        }
        v = v + 1;
    }
    r
}

/// The pitches that the notes sound.
pub(crate) fn sounded_pitches(tuning: &Vec<u8>, string_count: u8, notes: &Vec<(u8, u8)>) -> (r: Vec<u8>)
    requires
        notes_fit(tuning@, string_count, notes@),
    ensures
        r@ == sounded(tuning@, string_count, notes@),
{
    let mut r: Vec<u8> = Vec::new();
    let mut i: usize = 0;
    while i < notes.len()
        invariant
            i <= notes@.len(),
            notes_fit(tuning@, string_count, notes@),
            r@ == sounded(tuning@, string_count, notes@.subrange(0, i as int)),
        decreases notes@.len() - i,
    {
        let (string, fret) = notes[i];
        proof {
            assert(notes@.subrange(0, i + 1).drop_last() =~= notes@.subrange(0, i as int));
            let _ = notes@[i as int];
        }
        let idx = (string_count - string) as usize;
        if idx < tuning.len() {
            r.push(tuning[idx] + fret);
        }
        i = i + 1;
    }
    proof {
        assert(notes@.subrange(0, notes@.len() as int) =~= notes@);
    }
    r
}

/// The chord that a beat's notes form, where they sound two distinct
/// pitches or more.
pub open spec fn beat_chord_pitches(tuning: Seq<u8>, string_count: u8, notes: Seq<(u8, u8)>) -> Option<Seq<u8>> {
    if notes.len() >= 2 {
        let p = sorted_distinct(sounded(tuning, string_count, notes));
        if p.len() >= 2 {
            Some(p)
        } else {
            None
        }
    } else {
        None
    }
}

/// The chord that a beat's notes form, if any.
pub fn extract_chord(
    tuning: &Vec<u8>,
    string_count: u8,
    notes: &Vec<(u8, u8)>,
    measure: usize,
    beat_index: usize,
) -> (r: Option<ExtractedChord>)
    requires
        notes@.len() >= 2 ==> notes_fit(tuning@, string_count, notes@),
    ensures
        match beat_chord_pitches(tuning@, string_count, notes@) {
            Some(p) => r is Some && chord_is(r->0, measure, beat_index, p),
            None => r is None,
        },
{
    if notes.len() < 2 {
        return None;
    }
    let sounded = sounded_pitches(tuning, string_count, notes);
    let pitches = sort_distinct(&sounded);
    if pitches.len() < 2 {
        return None;
    }
    let low = pitches[0];
    let mut pitch_classes: Vec<u8> = Vec::new();
    let mut i: usize = 0;
    while i < pitches.len()
        invariant
            i <= pitches@.len(),
            pitch_classes@ == pitches@.subrange(0, i as int).map_values(|p: u8| (p % 12) as u8),
        decreases pitches@.len() - i,
    {
        pitch_classes.push(pitches[i] % 12);
        proof {
            assert(pitches@.subrange(0, i + 1).map_values(|p: u8| (p % 12) as u8) =~= pitches@.subrange(0, i as int).map_values(|p: u8| (p % 12) as u8).push((pitches@[i as int] % 12) as u8));
        }
        i = i + 1;
    }
    proof {
        assert(pitches@.subrange(0, pitches@.len() as int) =~= pitches@);
    }
    proof {
        lemma_sorted_distinct_increasing(sounded@);
    }
    let intervals = intervals_from(&pitches);
    let quality = ChordQuality::from_intervals(intervals.as_slice());
    Some(
        ExtractedChord {
            measure,
            beat_index,
            root: low % 12,
            pitches,
            pitch_classes,
            intervals,
            quality,
        },
    )
}

/// The intervals above the lowest of increasing pitches.
fn intervals_from(pitches: &Vec<u8>) -> (r: Vec<u8>)
    requires
        pitches@.len() >= 1,
        forall|a: int, b: int| 0 <= a < b < pitches@.len() ==> pitches@[a] < pitches@[b],
    ensures
        r@ == intervals_above(pitches@),
{
    let low = pitches[0];
    let ghost mapped = pitches@.map_values(|p: u8| ((p - pitches@[0]) % 12) as u8);
    let ghost pred = |i: u8| i > 0;
    let mut r: Vec<u8> = Vec::new();
    let mut i: usize = 0;
    while i < pitches.len()
        invariant
            i <= pitches@.len(),
            low == pitches@[0],
            mapped == pitches@.map_values(|p: u8| ((p - pitches@[0]) % 12) as u8),
            pred == (|i: u8| i > 0),
            forall|a: int, b: int| 0 <= a < b < pitches@.len() ==> pitches@[a] < pitches@[b],
            r@ == mapped.subrange(0, i as int).filter(pred),
        decreases pitches@.len() - i,
    {
        proof {
            assert(mapped.subrange(0, i + 1) =~= mapped.subrange(0, i as int).push(mapped[i as int]));
            reveal_with_fuel(Seq::<_>::filter, 2);
            assert(mapped.subrange(0, i as int).push(mapped[i as int]).drop_last() =~= mapped.subrange(0, i as int));
            if i > 0 {
                assert(pitches@[0] < pitches@[i as int]);
            }
        }
        let d = (pitches[i] - low) % 12;
        if d > 0 {
            r.push(d);
        }
        i = i + 1;
    }
    proof {
        assert(mapped.subrange(0, pitches@.len() as int) =~= mapped);
    }
    r
}

/// The values below `n` increase strictly, and each is below `n`.
pub proof fn lemma_values_below_increasing(s: Seq<u8>, n: nat)
    requires
        n <= 256,
    ensures
        forall|a: int, b: int|
            0 <= a < b < values_below(s, n).len() ==> values_below(s, n)[a] < values_below(s, n)[b],
        forall|a: int| 0 <= a < values_below(s, n).len() ==> values_below(s, n)[a] < n,
    decreases n,
{
    if n > 0 {
        lemma_values_below_increasing(s, (n - 1) as nat);
        let prev = values_below(s, (n - 1) as nat);
        let cur = values_below(s, n);
        let top = (n - 1) as u8;
        assert(top as nat == n - 1);
        if s.contains(top) {
            assert(cur == prev.push(top));
            assert forall|a: int| 0 <= a < cur.len() implies cur[a] < n by {
                if a < prev.len() {
                    assert(cur[a] == prev[a]);
                }
            }
            assert forall|a: int, b: int| 0 <= a < b < cur.len() implies cur[a] < cur[b] by {
                if b < prev.len() {
                    assert(cur[a] == prev[a]);
                    assert(cur[b] == prev[b]);
                } else {
                    assert(cur[a] == prev[a]);
                    assert(cur[b] == top);
                }
            }
        } else {
            assert(cur == prev);
        }
    }
}

/// A sorted distinct sequence increases strictly.
pub proof fn lemma_sorted_distinct_increasing(s: Seq<u8>)
    ensures
        forall|a: int, b: int|
            0 <= a < b < sorted_distinct(s).len() ==> sorted_distinct(s)[a] < sorted_distinct(s)[b],
{
    lemma_values_below_increasing(s, 256);
}

/// How often each value occurs in `s`.
pub open spec fn tally<K>(s: Seq<K>) -> Map<K, usize>
    decreases s.len(),
{
    if s.len() == 0 {
        Map::empty()
    } else {
        let prev = tally(s.drop_last());
        prev.insert(s.last(), (count_in(prev, s.last()) + 1) as usize)
    }
}

/// No value is counted more often than `s` is long.
pub proof fn lemma_tally_bounded<K>(s: Seq<K>, k: K)
    ensures
        count_in(tally(s), k) <= s.len(),
    decreases s.len(),
{
    if s.len() > 0 {
        lemma_tally_bounded(s.drop_last(), k);
        lemma_tally_bounded(s.drop_last(), s.last());
    }
}

/// Notes of the beats of one track in one measure.
#[derive(Debug, Clone)]
pub struct MeasureNotes {
    /// Measure number
    pub number: usize,
    /// Tuning and string count of the track's stringed instrument, if it
    /// has one
    pub stringed: Option<(Vec<u8>, u8)>,
    /// Notes (string, fret) of each beat
    pub beats: Vec<Vec<(u8, u8)>>,
}

/// The tuning and string count that a measure's notes are read with: the
/// track's own, else the default tuning with six strings.
pub open spec fn measure_tuning(default_tuning: Seq<u8>, m: MeasureNotes) -> (Seq<u8>, u8) {
    match m.stringed {
        Some((t, c)) => (t@, c),
        None => (default_tuning, 6u8),
    }
}

/// The chords of the first `n` beats: measure number, beat index and
/// pitches of each.
pub open spec fn beat_sites(
    tuning: Seq<u8>,
    string_count: u8,
    number: usize,
    beats: Seq<Vec<(u8, u8)>>,
    n: nat,
) -> Seq<(usize, usize, Seq<u8>)>
    decreases n,
{
    if n == 0 {
        Seq::empty()
    } else {
        let prev = beat_sites(tuning, string_count, number, beats, (n - 1) as nat);
        match beat_chord_pitches(tuning, string_count, beats[n - 1]@) {
            Some(p) => prev.push((number, (n - 1) as usize, p)),
            None => prev,
        }
    }
}

/// The chords of one measure.
pub open spec fn measure_sites(default_tuning: Seq<u8>, m: MeasureNotes) -> Seq<(usize, usize, Seq<u8>)> {
    let (t, c) = measure_tuning(default_tuning, m);
    beat_sites(t, c, m.number, m.beats@, m.beats@.len())
}

/// The chords of the first `n` measures, in order.
pub open spec fn chord_sites(default_tuning: Seq<u8>, ms: Seq<MeasureNotes>, n: nat) -> Seq<(usize, usize, Seq<u8>)>
    decreases n,
{
    if n == 0 {
        Seq::empty()
    } else {
        chord_sites(default_tuning, ms, (n - 1) as nat) + measure_sites(default_tuning, ms[n - 1])
    }
}

/// Every note of a chord (two notes or more) of every measure lies on
/// one of its instrument's strings and sounds a pitch below 256.
pub open spec fn measures_fit(default_tuning: Seq<u8>, ms: Seq<MeasureNotes>) -> bool {
    forall|i: int, j: int|
        0 <= i < ms.len() && 0 <= j < ms[i].beats@.len() ==> {
            let (t, c) = measure_tuning(default_tuning, ms[i]);
            (#[trigger] ms[i].beats@[j]@).len() >= 2 ==> notes_fit(t, c, ms[i].beats@[j]@)
        }
}

/// The chords `r` are those of the sites, in order.
pub open spec fn chords_at(r: Seq<ExtractedChord>, sites: Seq<(usize, usize, Seq<u8>)>) -> bool {
    &&& r.len() == sites.len()
    &&& forall|k: int| 0 <= k < r.len() ==> chord_is(#[trigger] r[k], sites[k].0, sites[k].1, sites[k].2)
}

/// The roots of the chords.
pub open spec fn roots(chords: Seq<ExtractedChord>) -> Seq<u8> {
    chords.map_values(|c: ExtractedChord| c.root)
}

/// All intervals of the chords, chord after chord.
pub open spec fn all_intervals(chords: Seq<ExtractedChord>) -> Seq<u8>
    decreases chords.len(),
{
    if chords.len() == 0 {
        Seq::empty()
    } else {
        all_intervals(chords.drop_last()) + chords.last().intervals@
    }
}

/// The motion from root `a` to root `b`, in -6..=5.
pub open spec fn motion_between(a: u8, b: u8) -> i8 {
    ((b as int - a as int + 18) % 12 - 6) as i8
}

/// The root motions between consecutive chords at most a measure apart.
pub open spec fn motions(chords: Seq<ExtractedChord>) -> Seq<i8>
    decreases chords.len(),
{
    if chords.len() < 2 {
        Seq::empty()
    } else {
        let prev = motions(chords.drop_last());
        let n = chords.len();
        if chords[n - 1].measure <= chords[n - 2].measure + 1 {
            prev.push(motion_between(chords[n - 2].root, chords[n - 1].root))
        } else {
            prev
        }
    }
}

/// Harmonic analyzer.
#[derive(Debug)]
pub struct HarmonicAnalyzer {
    /// Default tuning if track tuning unavailable
    pub default_tuning: Vec<u8>,
}

impl HarmonicAnalyzer {
    /// A new harmonic analyzer, defaulting to standard E tuning.
    pub fn new() -> (a: HarmonicAnalyzer)
        ensures
            a.default_tuning@ == seq![40u8, 45, 50, 55, 59, 64],
    {
        let a = HarmonicAnalyzer { default_tuning: vec![40, 45, 50, 55, 59, 64] };
        assert(a.default_tuning@ =~= seq![40u8, 45, 50, 55, 59, 64]);
        a
    }

    /// Set default tuning.
    pub fn with_default_tuning(self, tuning: Vec<u8>) -> (a: HarmonicAnalyzer)
        ensures
            a.default_tuning@ == tuning@,
    {
        HarmonicAnalyzer { default_tuning: tuning }
    }

    /// Extract all chords, measure after measure and beat after beat.
    pub fn extract_chords(&self, measures: &Vec<MeasureNotes>) -> (r: Vec<ExtractedChord>)
        requires
            measures_fit(self.default_tuning@, measures@),
        ensures
            chords_at(r@, chord_sites(self.default_tuning@, measures@, measures@.len())),
    {
        let ghost dt = self.default_tuning@;
        let mut chords: Vec<ExtractedChord> = Vec::new();
        let mut i: usize = 0;
        while i < measures.len()
            invariant
                i <= measures@.len(),
                dt == self.default_tuning@,
                measures_fit(dt, measures@),
                chords_at(chords@, chord_sites(dt, measures@, i as nat)),
            decreases measures@.len() - i,
        {
            let m = &measures[i];
            let (tuning, string_count): (&Vec<u8>, u8) = match &m.stringed {
                Some(s) => (&s.0, s.1),
                None => (&self.default_tuning, 6),
            };
            let ghost before = chords@;
            let ghost base = chord_sites(dt, measures@, i as nat);
            let mut j: usize = 0;
            while j < m.beats.len()
                invariant
                    i < measures@.len(),
                    *m == measures@[i as int],
                    j <= m.beats@.len(),
                    (tuning@, string_count) == measure_tuning(dt, *m),
                    measures_fit(dt, measures@),
                    chords_at(chords@, base + beat_sites(tuning@, string_count, m.number, m.beats@, j as nat)),
                decreases m.beats@.len() - j,
            {
                proof {
                    let _ = measures@[i as int].beats@[j as int];
                }
                let ghost sites = base + beat_sites(tuning@, string_count, m.number, m.beats@, j as nat);
                match extract_chord(tuning, string_count, &m.beats[j], m.number, j) {
                    Some(c) => {
                        chords.push(c);
                        proof {
                            let p = beat_chord_pitches(tuning@, string_count, m.beats@[j as int]@)->0;
                            assert(base + beat_sites(tuning@, string_count, m.number, m.beats@, (j + 1) as nat) =~= sites.push((m.number, j, p)));
                        }
                    },
                    None => {
                        proof {
                            assert(base + beat_sites(tuning@, string_count, m.number, m.beats@, (j + 1) as nat) =~= sites);
                        }
                    },
                }
                j = j + 1;
            }
            i = i + 1;
        }
        chords
    }

    /// Count chord roots.
    pub fn root_distribution(&self, chords: &[ExtractedChord]) -> (d: Distribution)
        ensures
            d.counts@ == tally(roots(chords@)),
            d.total == chords@.len(),
            d.wf(),
    {
        let mut d = Distribution::new();
        let mut i: usize = 0;
        while i < chords.len()
            invariant
                i <= chords@.len(),
                d.counts@ == tally(roots(chords@.subrange(0, i as int))),
                d.total == i,
                d.wf(),
            decreases chords@.len() - i,
        {
            let ghost s = roots(chords@.subrange(0, i as int));
            proof {
                lemma_tally_bounded(s, chords@[i as int].root);
                assert(roots(chords@.subrange(0, i + 1)) =~= s.push(chords@[i as int].root));
                assert(roots(chords@.subrange(0, i + 1)).drop_last() =~= s);
            }
            let ghost d0 = d;
            d.add(chords[i].root);
            proof {
                crate::analysis::types::lemma_add_keeps_wf(d0, d, chords@[i as int].root);
            }
            i = i + 1;
        }
        proof {
            assert(chords@.subrange(0, chords@.len() as int) =~= chords@);
        }
        d
    }

    /// Count the intervals of all chords.
    pub fn interval_distribution(&self, chords: &[ExtractedChord]) -> (d: Distribution)
        requires
            all_intervals(chords@).len() < usize::MAX,
        ensures
            d.counts@ == tally(all_intervals(chords@)),
            d.total == all_intervals(chords@).len(),
            d.wf(),
    {
        let mut d = Distribution::new();
        let mut i: usize = 0;
        while i < chords.len()
            invariant
                i <= chords@.len(),
                all_intervals(chords@).len() < usize::MAX,
                d.counts@ == tally(all_intervals(chords@.subrange(0, i as int))),
                d.total == all_intervals(chords@.subrange(0, i as int)).len(),
                d.wf(),
            decreases chords@.len() - i,
        {
            let ghost base = all_intervals(chords@.subrange(0, i as int));
            let c = &chords[i];
            proof {
                assert(chords@.subrange(0, i + 1).drop_last() =~= chords@.subrange(0, i as int));
                lemma_all_intervals_prefix(chords@, i + 1);
            }
            let mut j: usize = 0;
            while j < c.intervals.len()
                invariant
                    i < chords@.len(),
                    *c == chords@[i as int],
                    j <= c.intervals@.len(),
                    base + c.intervals@ == all_intervals(chords@.subrange(0, i + 1)),
                    all_intervals(chords@.subrange(0, i + 1)).len() <= all_intervals(chords@).len(),
                    all_intervals(chords@).len() < usize::MAX,
                    d.counts@ == tally(base + c.intervals@.subrange(0, j as int)),
                    d.total == (base + c.intervals@.subrange(0, j as int)).len(),
                    d.wf(),
                decreases c.intervals@.len() - j,
            {
                let ghost s = base + c.intervals@.subrange(0, j as int);
                let x = c.intervals[j];
                proof {
                    lemma_tally_bounded(s, x);
                    assert(base + c.intervals@.subrange(0, j + 1) =~= s.push(x));
                    assert(s.push(x).drop_last() =~= s);
                }
                let ghost d0 = d;
                d.add(x);
                proof {
                    crate::analysis::types::lemma_add_keeps_wf(d0, d, x);
                }
                j = j + 1;
            }
            proof {
                assert(c.intervals@.subrange(0, c.intervals@.len() as int) =~= c.intervals@);
            }
            i = i + 1;
        }
        proof {
            assert(chords@.subrange(0, chords@.len() as int) =~= chords@);
        }
        d
    }

    /// Count root motions between consecutive chords at most a measure
    /// apart.
    pub fn root_motions(&self, chords: &[ExtractedChord]) -> (m: HashMap<i8, usize>)
        requires
            forall|k: int| 0 <= k < chords@.len() ==> (#[trigger] chords@[k]).root < 12 && chords@[k].measure < usize::MAX,
        ensures
            m@ == tally(motions(chords@)),
    {
        let mut m: HashMap<i8, usize> = HashMap::new();
        if chords.len() < 2 {
            proof {
                assert(m@ =~= tally(motions(chords@)));
            }
            return m;
        }
        let mut i: usize = 1;
        proof {
            assert(motions(chords@.subrange(0, 1)) =~= Seq::<i8>::empty());
            assert(m@ =~= tally(Seq::<i8>::empty()));
        }
        while i < chords.len()
            invariant
                1 <= i <= chords@.len(),
                forall|k: int| 0 <= k < chords@.len() ==> (#[trigger] chords@[k]).root < 12 && chords@[k].measure < usize::MAX,
                m@ == tally(motions(chords@.subrange(0, i as int))),
                motions(chords@.subrange(0, i as int)).len() <= i,
            decreases chords@.len() - i,
        {
            let ghost pre = chords@.subrange(0, i as int);
            let ghost next = chords@.subrange(0, i + 1);
            proof {
                assert(next.drop_last() =~= pre);
                let _ = chords@[i as int];
                let _ = chords@[i - 1];
            }
            if chords[i].measure <= chords[i - 1].measure + 1 {
                let a = chords[i - 1].root as i8;
                let b = chords[i].root as i8;
                let motion: i8 = (b - a + 18) % 12 - 6;
                let ghost s = motions(pre);
                proof {
                    assert(motion == motion_between(chords@[i - 1].root, chords@[i as int].root));
                    lemma_tally_bounded(s, motion);
                }
                let current: usize = match m.get(&motion) {
                    Some(c) => *c,
                    None => 0,
                };
                let _ = m.insert(motion, current + 1);
                proof {
                    assert(motions(next) == s.push(motion));
                    assert(s.push(motion).drop_last() =~= s);
                }
            } else {
                proof {
                    assert(motions(next) == motions(pre));
                }
            }
            i = i + 1;
        }
        proof {
            assert(chords@.subrange(0, chords@.len() as int) =~= chords@);
        }
        m
    }

    /// The number of chords that hold a tritone.
    pub fn tritone_count(&self, chords: &[ExtractedChord]) -> (n: usize)
        ensures
            n == chords@.filter(|c: ExtractedChord| c.intervals@.contains(6)).len(),
    {
        let ghost pred = |c: ExtractedChord| c.intervals@.contains(6);
        let mut n: usize = 0;
        let mut i: usize = 0;
        while i < chords.len()
            invariant
                i <= chords@.len(),
                pred == (|c: ExtractedChord| c.intervals@.contains(6)),
                n == chords@.subrange(0, i as int).filter(pred).len(),
                n <= i,
            decreases chords@.len() - i,
        {
            proof {
                assert(chords@.subrange(0, i + 1).drop_last() =~= chords@.subrange(0, i as int));
                reveal_with_fuel(Seq::<_>::filter, 2);
            }
            if chords[i].has_tritone() {
                n = n + 1;
            }
            i = i + 1;
        }
        proof {
            assert(chords@.subrange(0, chords@.len() as int) =~= chords@);
        }
        n
    }
}

/// The intervals of a prefix are a prefix of all intervals.
pub proof fn lemma_all_intervals_prefix(chords: Seq<ExtractedChord>, n: int)
    requires
        0 <= n <= chords.len(),
    ensures
        all_intervals(chords.subrange(0, n)).len() <= all_intervals(chords).len(),
    decreases chords.len() - n,
{
    if n < chords.len() {
        lemma_all_intervals_prefix(chords, n + 1);
        assert(chords.subrange(0, n + 1).drop_last() =~= chords.subrange(0, n));
    } else {
        assert(chords.subrange(0, n) =~= chords);
    }
}

impl Default for HarmonicAnalyzer {
    fn default() -> (a: HarmonicAnalyzer)
        ensures
            a.default_tuning@ == seq![40u8, 45, 50, 55, 59, 64],
    {
        HarmonicAnalyzer::new()
    }
}

/// A sequence of three roots.
pub type Trigram = (u8, u8, u8);

/// The root sequences of three consecutive chords spanning at most two
/// measures, in order.
pub open spec fn trigrams(chords: Seq<ExtractedChord>) -> Seq<Trigram>
    decreases chords.len(),
{
    if chords.len() < 3 {
        Seq::empty()
    } else {
        let prev = trigrams(chords.drop_last());
        let n = chords.len();
        if chords[n - 1].measure <= chords[n - 3].measure + 2 {
            prev.push((chords[n - 3].root, chords[n - 2].root, chords[n - 1].root))
        } else {
            prev
        }
    }
}

/// The distinct values of `s` in the order of their first occurrence.
pub open spec fn first_occurrences<T>(s: Seq<T>) -> Seq<T>
    decreases s.len(),
{
    if s.len() == 0 {
        Seq::empty()
    } else {
        let prev = first_occurrences(s.drop_last());
        if prev.contains(s.last()) {
            prev
        } else {
            prev.push(s.last())
        }
    }
}

/// Each distinct trigram with the number of its occurrences, in the order
/// of first occurrence.
pub open spec fn trigram_counts(ts: Seq<Trigram>) -> Seq<(Trigram, usize)> {
    first_occurrences(ts).map_values(|t: Trigram| (t, count_in(tally(ts), t) as usize))
}

/// The entries counted exactly `n` times, in their order.
pub open spec fn with_count(es: Seq<(Trigram, usize)>, n: nat) -> Seq<(Trigram, usize)>
    decreases es.len(),
{
    if es.len() == 0 {
        Seq::empty()
    } else {
        let prev = with_count(es.drop_last(), n);
        if es.last().1 == n {
            prev.push(es.last())
        } else {
            prev
        }
    }
}

/// The entries counted at least three times, by count from `hi` down,
/// entries of one count in their order.
pub open spec fn by_count_desc(es: Seq<(Trigram, usize)>, hi: nat) -> Seq<(Trigram, usize)>
    decreases hi,
{
    if hi < 3 {
        Seq::empty()
    } else {
        with_count(es, hi) + by_count_desc(es, (hi - 1) as nat)
    }
}

/// The recurring progressions: trigrams that occur three times or more,
/// most frequent first.
pub open spec fn recurring(chords: Seq<ExtractedChord>) -> Seq<(Trigram, usize)> {
    let ts = trigrams(chords);
    by_count_desc(trigram_counts(ts), ts.len())
}

/// The name of a progression: its root names joined by arrows.
pub open spec fn trigram_name(t: Trigram) -> Seq<char> {
    pitch_names()[(t.0 % 12) as int] + "→"@ + pitch_names()[(t.1 % 12) as int] + "→"@
        + pitch_names()[(t.2 % 12) as int]
}

/// The trigrams of the chords.
fn trigram_list(chords: &[ExtractedChord]) -> (r: Vec<Trigram>)
    requires
        forall|k: int| 0 <= k < chords@.len() ==> (#[trigger] chords@[k]).measure < usize::MAX - 1,
    ensures
        r@ == trigrams(chords@),
{
    let mut r: Vec<Trigram> = Vec::new();
    if chords.len() < 3 {
        return r;
    }
    proof {
        assert(trigrams(chords@.subrange(0, 2)) =~= Seq::<Trigram>::empty());
    }
    let mut i: usize = 2;
    while i < chords.len()
        invariant
            2 <= i <= chords@.len(),
            forall|k: int| 0 <= k < chords@.len() ==> (#[trigger] chords@[k]).measure < usize::MAX - 1,
            r@ == trigrams(chords@.subrange(0, i as int)),
        decreases chords@.len() - i,
    {
        proof {
            assert(chords@.subrange(0, i + 1).drop_last() =~= chords@.subrange(0, i as int));
            let _ = chords@[i - 2];
        }
        if chords[i].measure <= chords[i - 2].measure + 2 {
            r.push((chords[i - 2].root, chords[i - 1].root, chords[i].root));
        }
        i = i + 1;
    }
    proof {
        assert(chords@.subrange(0, chords@.len() as int) =~= chords@);
    }
    r
}

/// Counting one more value raises its count by one and no other.
pub proof fn lemma_tally_push<K>(s: Seq<K>, x: K, y: K)
    requires
        s.len() < usize::MAX,
    ensures
        count_in(tally(s.push(x)), y) == count_in(tally(s), y) + if x == y { 1nat } else { 0nat },
{
    assert(s.push(x).drop_last() =~= s);
    lemma_tally_bounded(s, x);
}

/// Each distinct trigram with its count, in the order of first
/// occurrence.
fn count_trigrams(ts: &Vec<Trigram>) -> (r: Vec<(Trigram, usize)>)
    ensures
        r@ == trigram_counts(ts@),
{
    let mut r: Vec<(Trigram, usize)> = Vec::new();
    let mut i: usize = 0;
    while i < ts.len()
        invariant
            i <= ts@.len(),
            r@.map_values(|e: (Trigram, usize)| e.0) == first_occurrences(ts@.subrange(0, i as int)),
            forall|k: int| 0 <= k < r@.len() ==> (#[trigger] r@[k]).1 == count_in(tally(ts@.subrange(0, i as int)), r@[k].0),
        decreases ts@.len() - i,
    {
        let t = ts[i];
        let ghost pre = ts@.subrange(0, i as int);
        let ghost keys = r@.map_values(|e: (Trigram, usize)| e.0);
        proof {
            assert(ts@.subrange(0, i + 1) =~= pre.push(t));
            assert(pre.push(t).drop_last() =~= pre);
            lemma_tally_bounded(pre, t);
        }
        let mut j: usize = 0;
        let mut found = false;
        while j < r.len() && !found
            invariant
                j <= r@.len(),
                found ==> j < r@.len() && r@[j as int].0 == t,
                !found ==> forall|k: int| 0 <= k < j ==> (#[trigger] r@[k]).0 != t,
            decreases r@.len() - j + if found { 0int } else { 1int },
        {
            if r[j].0.0 == t.0 && r[j].0.1 == t.1 && r[j].0.2 == t.2 {
                found = true;
            } else {
                j = j + 1;
            }
        }
        if found {
            let ghost r0 = r@;
            let c = r[j].1;
            proof {
                assert(keys[j as int] == t);
                assert(keys.contains(t));
                assert(c as nat == count_in(tally(pre), t));
                assert(c < i + 1);
            }
            r.set(j, (t, c + 1));
            proof {
                assert(r@.map_values(|e: (Trigram, usize)| e.0) =~= keys);
                assert forall|k: int| 0 <= k < r@.len() implies (#[trigger] r@[k]).1 == count_in(tally(pre.push(t)), r@[k].0) by {
                    lemma_tally_push(pre, t, r@[k].0);
                    if k != j {
                        assert(r@[k] == r0[k]);
                        assert(r0[k].0 != t) by {
                            assert(keys[k] == r0[k].0);
                            assert(keys[j as int] == t);
                            lemma_first_occurrences_distinct(pre);
                        }
                    }
                }
            }
        } else {
            proof {
                assert(!keys.contains(t)) by {
                    if keys.contains(t) {
                        let k = choose|k: int| 0 <= k < keys.len() && keys[k] == t;
                        assert(r@[k].0 == t);
                    }
                }
                lemma_tally_bounded(pre, t);
                lemma_count_absent(pre, t);
            }
            let ghost r0 = r@;
            r.push((t, 1));
            proof {
                assert(r@.map_values(|e: (Trigram, usize)| e.0) =~= keys.push(t));
                assert forall|k: int| 0 <= k < r@.len() implies (#[trigger] r@[k]).1 == count_in(tally(pre.push(t)), r@[k].0) by {
                    lemma_tally_push(pre, t, r@[k].0);
                    if k < r0.len() {
                        assert(r@[k] == r0[k]);
                        assert(keys[k] == r0[k].0);
                    }
                }
            }
        }
        i = i + 1;
    }
    proof {
        assert(ts@.subrange(0, ts@.len() as int) =~= ts@);
        let keys = r@.map_values(|e: (Trigram, usize)| e.0);
        assert(r@ =~= trigram_counts(ts@)) by {
            assert forall|k: int| 0 <= k < r@.len() implies r@[k] == trigram_counts(ts@)[k] by {
                assert(keys[k] == r@[k].0);
            }
        }
    }
    r
}

/// First occurrences are distinct.
pub proof fn lemma_first_occurrences_distinct<T>(s: Seq<T>)
    ensures
        first_occurrences(s).no_duplicates(),
    decreases s.len(),
{
    if s.len() > 0 {
        lemma_first_occurrences_distinct(s.drop_last());
    }
}

/// A value that is not among the first occurrences does not occur.
pub proof fn lemma_count_absent<T>(s: Seq<T>, t: T)
    requires
        !first_occurrences(s).contains(t),
    ensures
        count_in(tally(s), t) == 0,
    decreases s.len(),
{
    if s.len() > 0 {
        let prev = first_occurrences(s.drop_last());
        if prev.contains(t) {
            assert(first_occurrences(s).contains(t)) by {
                if !prev.contains(s.last()) {
                    let k = choose|k: int| 0 <= k < prev.len() && prev[k] == t;
                    assert(prev.push(s.last())[k] == t);
                }
            }
        }
        assert(s.last() != t) by {
            if s.last() == t {
                if prev.contains(s.last()) {
                } else {
                    assert(prev.push(s.last())[prev.len() as int] == t);
                }
            }
        }
        lemma_count_absent(s.drop_last(), t);
    }
}

/// The entries counted `hi` times or fewer, and at least three times, by
/// count from `hi` down.
fn order_by_count(es: &Vec<(Trigram, usize)>, hi: usize) -> (r: Vec<(Trigram, usize)>)
    ensures
        r@ == by_count_desc(es@, hi as nat),
{
    let mut r: Vec<(Trigram, usize)> = Vec::new();
    let mut c: usize = hi;
    proof {
        assert(r@ == by_count_desc(es@, hi as nat).subrange(0, 0));
    }
    while c >= 3
        invariant
            c <= hi,
            by_count_desc(es@, hi as nat) == r@ + by_count_desc(es@, c as nat),
        decreases c,
    {
        let ghost start = r@;
        let mut j: usize = 0;
        while j < es.len()
            invariant
                j <= es@.len(),
                c >= 3,
                r@ == start + with_count(es@.subrange(0, j as int), c as nat),
            decreases es@.len() - j,
        {
            proof {
                assert(es@.subrange(0, j + 1).drop_last() =~= es@.subrange(0, j as int));
            }
            if es[j].1 == c {
                r.push(es[j]);
                proof {
                    assert(r@ =~= start + with_count(es@.subrange(0, j + 1), c as nat));
                }
            }
            j = j + 1;
        }
        proof {
            assert(es@.subrange(0, es@.len() as int) =~= es@);
            assert(by_count_desc(es@, c as nat) == with_count(es@, c as nat) + by_count_desc(es@, (c - 1) as nat));
            assert(start + (with_count(es@, c as nat) + by_count_desc(es@, (c - 1) as nat)) =~= r@ + by_count_desc(es@, (c - 1) as nat));
        }
        c = c - 1;
    }
    proof {
        assert(r@ + by_count_desc(es@, c as nat) =~= r@);
    }
    r
}

/// The name of a progression.
fn trigram_text(t: Trigram) -> (s: String)
    ensures
        s@ == trigram_name(t),
{
    let mut s = String::from_str(pitch_name(t.0));
    s.append("→");
    s.append(pitch_name(t.1));
    s.append("→");
    s.append(pitch_name(t.2));
    s
}

impl HarmonicAnalyzer {
    /// Find recurring progression patterns (3-chord sequences within two
    /// measures that occur three times or more), most frequent first.
    pub fn find_progression_patterns(&self, chords: &[ExtractedChord]) -> (r: Vec<(String, usize)>)
        requires
            forall|k: int| 0 <= k < chords@.len() ==> (#[trigger] chords@[k]).measure < usize::MAX - 1,
        ensures
            r@.len() == recurring(chords@).len(),
            forall|k: int|
                0 <= k < r@.len() ==> (#[trigger] r@[k]).0@ == trigram_name(recurring(chords@)[k].0)
                    && r@[k].1 == recurring(chords@)[k].1,
    {
        let ts = trigram_list(chords);
        let counts = count_trigrams(&ts);
        let ordered = order_by_count(&counts, ts.len());
        let mut r: Vec<(String, usize)> = Vec::new();
        let mut i: usize = 0;
        while i < ordered.len()
            invariant
                i <= ordered@.len(),
                ordered@ == recurring(chords@),
                r@.len() == i,
                forall|k: int|
                    0 <= k < i ==> (#[trigger] r@[k]).0@ == trigram_name(ordered@[k].0) && r@[k].1
                        == ordered@[k].1,
            decreases ordered@.len() - i,
        {
            let (t, c) = ordered[i];
            r.push((trigram_text(t), c));
            i = i + 1;
        }
        r
    }
}

/// The entries kept for one count all have that count.
pub proof fn lemma_with_count(es: Seq<(Trigram, usize)>, n: nat)
    ensures
        forall|k: int| 0 <= k < with_count(es, n).len() ==> (#[trigger] with_count(es, n)[k]).1 == n,
    decreases es.len(),
{
    if es.len() > 0 {
        lemma_with_count(es.drop_last(), n);
        let prev = with_count(es.drop_last(), n);
        let cur = with_count(es, n);
        assert forall|k: int| 0 <= k < cur.len() implies (#[trigger] cur[k]).1 == n by {
            if k < prev.len() {
                assert(cur[k] == prev[k]);
            }
        }
    }
}

/// Ordered by count: every entry is counted from three to `hi` times, and
/// counts never rise along the sequence.
pub proof fn lemma_by_count_desc_sorted(es: Seq<(Trigram, usize)>, hi: nat)
    ensures
        forall|k: int|
            0 <= k < by_count_desc(es, hi).len() ==> 3 <= (#[trigger] by_count_desc(es, hi)[k]).1 <= hi,
        forall|a: int, b: int|
            0 <= a < b < by_count_desc(es, hi).len() ==> by_count_desc(es, hi)[a].1 >= by_count_desc(
                es,
                hi,
            )[b].1,
    decreases hi,
{
    if hi >= 3 {
        lemma_by_count_desc_sorted(es, (hi - 1) as nat);
        lemma_with_count(es, hi);
        let w = with_count(es, hi);
        let rest = by_count_desc(es, (hi - 1) as nat);
        let all = by_count_desc(es, hi);
        assert(all == w + rest);
        assert forall|k: int| 0 <= k < all.len() implies 3 <= (#[trigger] all[k]).1 <= hi by {
            if k < w.len() {
                assert(all[k] == w[k]);
            } else {
                assert(all[k] == rest[k - w.len()]);
            }
        }
        assert forall|a: int, b: int| 0 <= a < b < all.len() implies all[a].1 >= all[b].1 by {
            if b < w.len() {
                assert(all[a] == w[a]);
                assert(all[b] == w[b]);
            } else if a < w.len() {
                assert(all[a] == w[a]);
                assert(all[b] == rest[b - w.len()]);
            } else {
                assert(all[a] == rest[a - w.len()]);
                assert(all[b] == rest[b - w.len()]);
            }
        }
    }
}

/// Recurring progressions come most frequent first, each occurring at
/// least three times.
pub proof fn lemma_recurring_sorted(chords: Seq<ExtractedChord>)
    ensures
        forall|k: int| 0 <= k < recurring(chords).len() ==> (#[trigger] recurring(chords)[k]).1 >= 3,
        forall|a: int, b: int|
            0 <= a < b < recurring(chords).len() ==> recurring(chords)[a].1 >= recurring(chords)[b].1,
{
    lemma_by_count_desc_sorted(trigram_counts(trigrams(chords)), trigrams(chords).len());
}

/// The quality names of the chords, in order.
pub open spec fn quality_names(chords: Seq<ExtractedChord>) -> Seq<Seq<char>> {
    chords.map_values(|c: ExtractedChord| quality_name(c.quality))
}

/// Each distinct quality name with the number of chords of that quality,
/// in the order of first occurrence.
pub open spec fn quality_counts(chords: Seq<ExtractedChord>) -> Seq<(Seq<char>, usize)> {
    let names = quality_names(chords);
    first_occurrences(names).map_values(|n: Seq<char>| (n, count_in(tally(names), n) as usize))
}

/// The weight of each pitch class, in halves: a chord's root weighs four,
/// each other of its pitch classes one (a class that a chord holds twice
/// counts twice).
pub open spec fn pc_weight(chords: Seq<ExtractedChord>, pc: u8) -> nat
    decreases chords.len(),
{
    if chords.len() == 0 {
        0
    } else {
        let c = chords.last();
        pc_weight(chords.drop_last(), pc) + (if c.root == pc { 4nat } else { 0nat }) + count_other(
            c.pitch_classes@,
            c.root,
            pc,
        )
    }
}

/// How often `pc` occurs in `pcs` other than as `root`.
pub open spec fn count_other(pcs: Seq<u8>, root: u8, pc: u8) -> nat
    decreases pcs.len(),
{
    if pcs.len() == 0 {
        0
    } else {
        count_other(pcs.drop_last(), root, pc) + if pcs.last() != root && pcs.last() == pc {
            1nat
        } else {
            0nat
        }
    }
}

/// A prefix has no more occurrences than the whole.
pub proof fn lemma_count_other_prefix(pcs: Seq<u8>, root: u8, pc: u8, n: int)
    requires
        0 <= n <= pcs.len(),
    ensures
        count_other(pcs.subrange(0, n), root, pc) <= count_other(pcs, root, pc),
    decreases pcs.len() - n,
{
    if n < pcs.len() {
        lemma_count_other_prefix(pcs, root, pc, n + 1);
        assert(pcs.subrange(0, n + 1).drop_last() =~= pcs.subrange(0, n));
    } else {
        assert(pcs.subrange(0, n) =~= pcs);
    }
}

/// The pitch classes of weight `w`, in increasing order.
pub open spec fn classes_of_weight(ws: Seq<u64>, w: nat, n: nat) -> Seq<(u8, u64)>
    decreases n,
{
    if n == 0 {
        Seq::empty()
    } else {
        let prev = classes_of_weight(ws, w, (n - 1) as nat);
        if ws[n - 1] == w {
            prev.push(((n - 1) as u8, ws[n - 1]))
        } else {
            prev
        }
    }
}

/// The weighted pitch classes by weight from `hi` down to one, classes of
/// one weight in increasing order.
pub open spec fn by_weight_desc(ws: Seq<u64>, hi: nat) -> Seq<(u8, u64)>
    decreases hi,
{
    if hi == 0 {
        Seq::empty()
    } else {
        classes_of_weight(ws, hi, ws.len()) + by_weight_desc(ws, (hi - 1) as nat)
    }
}

impl HarmonicAnalyzer {
    /// Count chord qualities by name, in the order of first occurrence.
    pub fn quality_distribution(&self, chords: &[ExtractedChord]) -> (r: Vec<(String, usize)>)
        ensures
            r@.len() == quality_counts(chords@).len(),
            forall|k: int|
                0 <= k < r@.len() ==> (#[trigger] r@[k]).0@ == quality_counts(chords@)[k].0 && r@[k].1
                    == quality_counts(chords@)[k].1,
    {
        let mut r: Vec<(String, usize)> = Vec::new();
        let mut i: usize = 0;
        while i < chords.len()
            invariant
                i <= chords@.len(),
                r@.map_values(|e: (String, usize)| e.0@) == first_occurrences(quality_names(chords@.subrange(0, i as int))),
                forall|k: int| 0 <= k < r@.len() ==> (#[trigger] r@[k]).1 == count_in(tally(quality_names(chords@.subrange(0, i as int))), r@[k].0@),
            decreases chords@.len() - i,
        {
            let name = chords[i].quality.name();
            let ghost pre = quality_names(chords@.subrange(0, i as int));
            let ghost keys = r@.map_values(|e: (String, usize)| e.0@);
            proof {
                assert(quality_names(chords@.subrange(0, i + 1)) =~= pre.push(name@));
                assert(pre.push(name@).drop_last() =~= pre);
                lemma_tally_bounded(pre, name@);
                assert(pre.len() == i);
            }
            let mut j: usize = 0;
            let mut found = false;
            while j < r.len() && !found
                invariant
                    j <= r@.len(),
                    found ==> j < r@.len() && r@[j as int].0@ == name@,
                    !found ==> forall|k: int| 0 <= k < j ==> (#[trigger] r@[k]).0@ != name@,
                decreases r@.len() - j + if found { 0int } else { 1int },
            {
                if crate::text::str_eq(r[j].0.as_str(), name.as_str()) {
                    found = true;
                } else {
                    j = j + 1;
                }
            }
            if found {
                let ghost r0 = r@;
                let c = r[j].1;
                proof {
                    assert(keys[j as int] == name@);
                    assert(c as nat == count_in(tally(pre), name@));
                }
                let key = r[j].0.clone();
                r.set(j, (key, c + 1));
                proof {
                    assert(r@.map_values(|e: (String, usize)| e.0@) =~= keys);
                    assert forall|k: int| 0 <= k < r@.len() implies (#[trigger] r@[k]).1 == count_in(tally(pre.push(name@)), r@[k].0@) by {
                        lemma_tally_push(pre, name@, r@[k].0@);
                        if k != j {
                            assert(r@[k] == r0[k]);
                            assert(keys[k] == r0[k].0@);
                            lemma_first_occurrences_distinct(pre);
                        }
                    }
                }
            } else {
                proof {
                    assert(!keys.contains(name@)) by {
                        if keys.contains(name@) {
                            let k = choose|k: int| 0 <= k < keys.len() && keys[k] == name@;
                            assert(r@[k].0@ == name@);
                        }
                    }
                    lemma_count_absent(pre, name@);
                }
                let ghost r0 = r@;
                r.push((name, 1));
                proof {
                    assert(r@.map_values(|e: (String, usize)| e.0@) =~= keys.push(name@));
                    assert forall|k: int| 0 <= k < r@.len() implies (#[trigger] r@[k]).1 == count_in(tally(pre.push(name@)), r@[k].0@) by {
                        lemma_tally_push(pre, name@, r@[k].0@);
                        if k < r0.len() {
                            assert(r@[k] == r0[k]);
                            assert(keys[k] == r0[k].0@);
                        }
                    }
                }
            }
            i = i + 1;
        }
        proof {
            assert(chords@.subrange(0, chords@.len() as int) =~= chords@);
            let keys = r@.map_values(|e: (String, usize)| e.0@);
            assert forall|k: int| 0 <= k < r@.len() implies (#[trigger] r@[k]).0@ == quality_counts(chords@)[k].0 && r@[k].1 == quality_counts(chords@)[k].1 by {
                assert(keys[k] == r@[k].0@);
            }
        }
        r
    }
}

/// The weights of all 256 byte values taken as pitch classes.
pub open spec fn weight_table(chords: Seq<ExtractedChord>) -> Seq<u64> {
    Seq::new(256, |pc: int| pc_weight(chords, pc as u8) as u64)
}

/// No class has a weight in `lo + 1 ..= hi`.
pub open spec fn no_weight_between(ws: Seq<u64>, lo: nat, hi: nat) -> bool {
    forall|i: int| 0 <= i < ws.len() ==> !(lo < #[trigger] ws[i] <= hi)
}

/// The tonal centres: the pitch classes that chords touch, heaviest
/// first (roots weigh four halves, other classes one half), classes of
/// one weight in increasing order.
pub open spec fn tonal_order(chords: Seq<ExtractedChord>) -> Seq<(u8, u64)> {
    by_weight_desc(weight_table(chords), u64::MAX as nat)
}

/// Without a class of weight `v`, no class is listed for it.
pub proof fn lemma_no_class_of_weight(ws: Seq<u64>, v: nat, n: nat)
    requires
        n <= ws.len(),
        forall|i: int| 0 <= i < n ==> ws[i] != v,
    ensures
        classes_of_weight(ws, v, n) == Seq::<(u8, u64)>::empty(),
    decreases n,
{
    if n > 0 {
        lemma_no_class_of_weight(ws, v, (n - 1) as nat);
    }
}

/// Weights that no class has add nothing to the order.
pub proof fn lemma_skip_empty_weights(ws: Seq<u64>, lo: nat, hi: nat)
    requires
        lo <= hi,
        no_weight_between(ws, lo, hi),
    ensures
        by_weight_desc(ws, hi) == by_weight_desc(ws, lo),
    decreases hi - lo,
{
    if lo < hi {
        lemma_skip_empty_weights(ws, lo, (hi - 1) as nat);
        lemma_no_class_of_weight(ws, hi, ws.len());
        assert(by_weight_desc(ws, hi) =~= by_weight_desc(ws, (hi - 1) as nat));
    }
}

impl HarmonicAnalyzer {
    /// The weight of every byte value as a pitch class, in halves.
    pub fn tonal_weights(&self, chords: &[ExtractedChord]) -> (w: Vec<u64>)
        requires
            forall|pc: u8| pc_weight(chords@, pc) <= u64::MAX,
        ensures
            w@ == weight_table(chords@),
    {
        let mut w: Vec<u64> = Vec::new();
        let mut k: usize = 0;
        while k < 256
            invariant
                k <= 256,
                w@.len() == k,
                forall|j: int| 0 <= j < k ==> w@[j] == 0,
            decreases 256 - k,
        {
            w.push(0);
            k = k + 1;
        }
        let mut i: usize = 0;
        while i < chords.len()
            invariant
                i <= chords@.len(),
                w@.len() == 256,
                forall|pc: u8| pc_weight(chords@, pc) <= u64::MAX,
                forall|j: int| 0 <= j < 256 ==> #[trigger] w@[j] == pc_weight(chords@.subrange(0, i as int), j as u8),
            decreases chords@.len() - i,
        {
            let c = &chords[i];
            let ghost pre = chords@.subrange(0, i as int);
            proof {
                assert(chords@.subrange(0, i + 1).drop_last() =~= pre);
                assert(chords@.subrange(0, i + 1).last() == *c);
                lemma_pc_weight_prefix(chords@, i + 1);
            }
            let root = c.root;
            let r_idx = root as usize;
            proof {
                assert(pc_weight(chords@.subrange(0, i + 1), root) == pc_weight(pre, root) + 4 + count_other(c.pitch_classes@, root, root));
                assert(c.pitch_classes@.subrange(0, 0) =~= Seq::<u8>::empty());
                assert(w@[r_idx as int] == pc_weight(pre, (r_idx as int) as u8));
                assert((r_idx as int) as u8 == root);
                assert(pc_weight(chords@, root) <= u64::MAX);
                assert(pc_weight(chords@.subrange(0, i + 1), root) <= pc_weight(chords@, root));
            }
            w.set(r_idx, w[r_idx] + 4);
            let mut j: usize = 0;
            while j < c.pitch_classes.len()
                invariant
                    i < chords@.len(),
                    *c == chords@[i as int],
                    pre == chords@.subrange(0, i as int),
                    chords@.subrange(0, i + 1).drop_last() == pre,
                    chords@.subrange(0, i + 1).last() == *c,
                    root == c.root,
                    j <= c.pitch_classes@.len(),
                    w@.len() == 256,
                    forall|pc: u8| pc_weight(chords@, pc) <= u64::MAX,
                    forall|pc: u8| pc_weight(chords@.subrange(0, i + 1), pc) <= pc_weight(chords@, pc),
                    forall|x: int| 0 <= x < 256 ==> #[trigger] w@[x] == pc_weight(pre, x as u8) + (if root == x as u8 { 4nat } else { 0nat })
                        + count_other(c.pitch_classes@.subrange(0, j as int), root, x as u8),
                decreases c.pitch_classes@.len() - j,
            {
                let pc = c.pitch_classes[j];
                proof {
                    assert(c.pitch_classes@.subrange(0, j + 1).drop_last() =~= c.pitch_classes@.subrange(0, j as int));
                    lemma_count_other_prefix(c.pitch_classes@, root, pc, j + 1);
                    assert(pc_weight(chords@.subrange(0, i + 1), pc) == pc_weight(pre, pc) + (if root == pc { 4nat } else { 0nat })
                        + count_other(c.pitch_classes@, root, pc));
                }
                if pc != root {
                    let p_idx = pc as usize;
                    proof {
                        assert((p_idx as int) as u8 == pc);
                        assert(w@[p_idx as int] == pc_weight(pre, pc) + (if root == pc { 4nat } else { 0nat })
                            + count_other(c.pitch_classes@.subrange(0, j as int), root, pc));
                        assert(count_other(c.pitch_classes@.subrange(0, j + 1), root, pc) == count_other(c.pitch_classes@.subrange(0, j as int), root, pc) + 1);
                        assert(pc_weight(chords@, pc) <= u64::MAX);
                        assert(pc_weight(chords@.subrange(0, i + 1), pc) <= pc_weight(chords@, pc));
                    }
                    w.set(p_idx, w[p_idx] + 1);
                }
                j = j + 1;
            }
            proof {
                assert(c.pitch_classes@.subrange(0, c.pitch_classes@.len() as int) =~= c.pitch_classes@);
                assert forall|x: int| 0 <= x < 256 implies #[trigger] w@[x] == pc_weight(chords@.subrange(0, i + 1), x as u8) by {
                    assert(chords@.subrange(0, i + 1).last() == *c);
                }
            }
            i = i + 1;
        }
        proof {
            assert(chords@.subrange(0, chords@.len() as int) =~= chords@);
            assert(w@ =~= weight_table(chords@));
        }
        w
    }

    /// The tonal centres with their weights in halves, heaviest first.
    pub fn tonal_centers(&self, chords: &[ExtractedChord]) -> (r: Vec<(u8, u64)>)
        requires
            forall|pc: u8| pc_weight(chords@, pc) <= u64::MAX,
        ensures
            r@ == tonal_order(chords@),
    {
        let w = self.tonal_weights(chords);
        heaviest_first(&w)
    }
}

/// The values 0 to 255 with positive weight, heaviest first, values of
/// one weight in increasing order.
pub fn heaviest_first(w: &Vec<u64>) -> (r: Vec<(u8, u64)>)
    requires
        w@.len() == 256,
    ensures
        r@ == by_weight_desc(w@, u64::MAX as nat),
{
        let ghost ws = w@;
        let mut r: Vec<(u8, u64)> = Vec::new();
        let mut hi: u64 = u64::MAX;
        proof {
            assert(r@ + by_weight_desc(ws, hi as nat) =~= by_weight_desc(ws, u64::MAX as nat));
        }
        while hi > 0
            invariant
                w@ == ws,
                ws.len() == 256,
                r@ + by_weight_desc(ws, hi as nat) == by_weight_desc(ws, u64::MAX as nat),
            decreases hi,
        {
            let mut next: u64 = 0;
            let mut k: usize = 0;
            while k < 256
                invariant
                    k <= 256,
                    w@ == ws,
                    ws.len() == 256,
                    next < hi,
                    forall|x: int| 0 <= x < k ==> !(next < #[trigger] ws[x] < hi),
                decreases 256 - k,
            {
                if w[k] < hi && w[k] > next {
                    next = w[k];
                }
                k = k + 1;
            }
            let mut k2: usize = 0;
            let ghost start = r@;
            while k2 < 256
                invariant
                    k2 <= 256,
                    w@ == ws,
                    ws.len() == 256,
                    r@ == start + classes_of_weight(ws, hi as nat, k2 as nat),
                decreases 256 - k2,
            {
                if w[k2] == hi {
                    r.push((k2 as u8, hi));
                }
                k2 = k2 + 1;
            }
            proof {
                assert(by_weight_desc(ws, hi as nat) == classes_of_weight(ws, hi as nat, 256) + by_weight_desc(ws, (hi - 1) as nat));
                lemma_skip_empty_weights(ws, next as nat, (hi - 1) as nat);
                assert(start + (classes_of_weight(ws, hi as nat, 256) + by_weight_desc(ws, next as nat)) =~= r@ + by_weight_desc(ws, next as nat));
            }
            hi = next;
        }
        proof {
            assert(r@ + by_weight_desc(ws, 0) =~= r@);
        }
        r
}

/// Weights of a prefix of the chords are at most those of all.
pub proof fn lemma_pc_weight_prefix(chords: Seq<ExtractedChord>, n: int)
    requires
        0 <= n <= chords.len(),
    ensures
        forall|pc: u8| pc_weight(chords.subrange(0, n), pc) <= pc_weight(chords, pc),
    decreases chords.len() - n,
{
    if n < chords.len() {
        lemma_pc_weight_prefix(chords, n + 1);
        assert(chords.subrange(0, n + 1).drop_last() =~= chords.subrange(0, n));
    } else {
        assert(chords.subrange(0, n) =~= chords);
    }
}

/// The sum of the motion counts of the first `n` motions from -128 up.
pub open spec fn motion_total(m: Map<i8, usize>, n: nat) -> nat
    decreases n,
{
    if n == 0 {
        0
    } else {
        motion_total(m, (n - 1) as nat) + count_in(m, (n - 1 - 128) as i8)
    }
}

/// Sums over more motions are no smaller.
pub proof fn lemma_motion_total_grows(m: Map<i8, usize>, a: nat, b: nat)
    requires
        a <= b,
    ensures
        motion_total(m, a) <= motion_total(m, b),
    decreases b - a,
{
    if a < b {
        lemma_motion_total_grows(m, a, (b - 1) as nat);
    }
}

/// Root motions by kind.
#[derive(Debug, Clone, Copy)]
pub struct MotionCounts {
    /// Static (pedal) motions
    pub static_count: usize,
    /// Chromatic (one semitone either way) motions
    pub chromatic_count: usize,
    /// Tritone motions
    pub tritone_count: usize,
    /// Fourth and fifth motions
    pub fourth_fifth_count: usize,
    /// All motions
    pub total_motions: usize,
}

/// Count the root motions by kind: static (0), chromatic (1 and -1),
/// tritone (6), fourth or fifth (5, -5 and 7), and all of them.
pub fn motion_counts(root_motions: &HashMap<i8, usize>) -> (c: MotionCounts)
    requires
        motion_total(root_motions@, 256) <= usize::MAX,
    ensures
        c.static_count == count_in(root_motions@, 0i8),
        c.chromatic_count == count_in(root_motions@, 1i8) + count_in(root_motions@, -1i8),
        c.tritone_count == count_in(root_motions@, 6i8),
        c.fourth_fifth_count == count_in(root_motions@, 5i8) + count_in(root_motions@, -5i8)
            + count_in(root_motions@, 7i8),
        c.total_motions == motion_total(root_motions@, 256),
        c.static_count + c.chromatic_count + c.tritone_count + c.fourth_fifth_count <= c.total_motions,
{
    let ghost m = root_motions@;
    let mut total: usize = 0;
    let mut st: usize = 0;
    let mut ch: usize = 0;
    let mut tr: usize = 0;
    let mut ff: usize = 0;
    let mut i: u16 = 0;
    while i < 256
        invariant
            i <= 256,
            m == root_motions@,
            motion_total(m, 256) <= usize::MAX,
            total == motion_total(m, i as nat),
            st + ch + tr + ff <= total,
            st == (if 128 < i { count_in(m, 0i8) } else { 0 }),
            ch == (if 129 < i { count_in(m, 1i8) } else { 0 }) + (if 127 < i { count_in(m, -1i8) } else { 0 }),
            tr == (if 134 < i { count_in(m, 6i8) } else { 0 }),
            ff == (if 133 < i { count_in(m, 5i8) } else { 0 }) + (if 123 < i { count_in(m, -5i8) } else { 0 })
                + (if 135 < i { count_in(m, 7i8) } else { 0 }),
        decreases 256 - i,
    {
        let k: i8 = (i as i16 - 128) as i8;
        let c: usize = match root_motions.get(&k) {
            Some(c) => *c,
            None => 0,
        };
        proof {
            assert(c == count_in(m, k));
            assert(k == ((i + 1 - 1 - 128) as i8));
            lemma_motion_total_grows(m, (i + 1) as nat, 256);
        }
        total = total + c;
        if k == 0 {
            st = st + c;
        } else if k == 1 || k == -1 {
            ch = ch + c;
        } else if k == 6 {
            tr = tr + c;
        } else if k == 5 || k == -5 || k == 7 {
            ff = ff + c;
        }
        i = i + 1;
    }
    MotionCounts {
        static_count: st,
        chromatic_count: ch,
        tritone_count: tr,
        fourth_fifth_count: ff,
        total_motions: total,
    }
}

} // verus!
