//! The counts that measure statistics rest on: frets, strings, notes,
//! beats and the intervals inside chords, gathered from tab measures.
//! Averages, variances and scores over them are computed by the caller
//! in floating point.

use vstd::prelude::*;
use crate::tab::{TabMeasure, TabNote, TrackMeasure, TabBeat, TabTrack};
use crate::tab::instrument::Instrument;
use crate::analysis::harmony::{sounded, notes_fit, sounded_pitches, sort_distinct, sorted_distinct, tally, lemma_tally_bounded};
use crate::analysis::types::{Distribution, lemma_add_keeps_wf};

verus! {

/// The tuning of a track's stringed instrument, if it has one.
#[derive(Debug, Clone)]
pub struct TrackTuning {
    /// Track identifier (the bits of a UUID)
    pub track_id: u128,
    /// Tuning and string count of its stringed instrument, if any
    pub stringed: Option<(Vec<u8>, u8)>,
}

/// What the counts of one measure are.
#[derive(Debug, Clone)]
pub struct MeasureTally {
    /// Measure number
    pub number: usize,
    /// The fret of every note, in order
    pub frets: Vec<u8>,
    /// The string of every note, in order
    pub strings: Vec<u8>,
    /// Number of notes
    pub note_count: usize,
    /// Number of beats
    pub beat_count: usize,
    /// Intervals between neighbouring pitches of each chord
    pub intervals: Vec<u8>,
    /// Number of distinct strings played
    pub distinct_strings: usize,
}

/// The tuning of the first entry for a track whose instrument is stringed.
pub open spec fn tuning_of(tracks: Seq<TrackTuning>, id: u128) -> Option<(Seq<u8>, u8)>
    decreases tracks.len(),
{
    if tracks.len() == 0 {
        None
    } else if tracks[0].track_id == id {
        match tracks[0].stringed {
            Some((t, c)) => Some((t@, c)),
            None => None,
        }
    } else {
        tuning_of(tracks.drop_first(), id)
    }
}

/// Notes as (string, fret).
pub open spec fn positions(notes: Seq<TabNote>) -> Seq<(u8, u8)> {
    notes.map_values(|n: TabNote| (n.string, n.fret))
}

/// How often `v` occurs in `s`.
pub open spec fn occurrences(s: Seq<u8>, v: u8) -> nat
    decreases s.len(),
{
    if s.len() == 0 {
        0
    } else {
        occurrences(s.drop_last(), v) + if s.last() == v { 1nat } else { 0nat }
    }
}

/// The values of `s` below `n`, each as often as it occurs, in increasing
/// order.
pub open spec fn counted_below(s: Seq<u8>, n: nat) -> Seq<u8>
    decreases n,
{
    if n == 0 {
        Seq::empty()
    } else {
        counted_below(s, (n - 1) as nat) + Seq::new(occurrences(s, (n - 1) as u8), |i: int| (n - 1) as u8)
    }
}

/// The values of `s` in increasing order.
pub open spec fn sorted_bytes(s: Seq<u8>) -> Seq<u8> {
    counted_below(s, 256)
}

/// The distance of two pitches within an octave.
pub open spec fn octave_distance(a: u8, b: u8) -> u8 {
    ((if a >= b { a - b } else { b - a }) % 12) as u8
}

/// The intervals between neighbouring pitches, within an octave, leaving
/// out unisons.
pub open spec fn neighbour_intervals(p: Seq<u8>) -> Seq<u8>
    decreases p.len(),
{
    if p.len() < 2 {
        Seq::empty()
    } else {
        let n = p.len();
        let d = octave_distance(p[n - 1], p[n - 2]);
        neighbour_intervals(p.drop_last()) + if d > 0 { seq![d] } else { Seq::empty() }
    }
}

/// The intervals inside a beat's chord (notes sorted by pitch), where the
/// track has a tuning and the beat two notes or more.
pub open spec fn beat_intervals(t: Option<(Seq<u8>, u8)>, notes: Seq<TabNote>) -> Seq<u8> {
    match t {
        Some((tuning, count)) => if notes.len() >= 2 {
            neighbour_intervals(sorted_bytes(sounded(tuning, count, positions(notes))))
        } else {
            Seq::empty()
        },
        None => Seq::empty(),
    }
}

/// The frets of the notes of the beats.
pub open spec fn beats_frets(bs: Seq<TabBeat>) -> Seq<u8>
    decreases bs.len(),
{
    if bs.len() == 0 {
        Seq::empty()
    } else {
        beats_frets(bs.drop_last()) + bs.last().notes@.map_values(|n: TabNote| n.fret)
    }
}

/// The strings of the notes of the beats.
pub open spec fn beats_strings(bs: Seq<TabBeat>) -> Seq<u8>
    decreases bs.len(),
{
    if bs.len() == 0 {
        Seq::empty()
    } else {
        beats_strings(bs.drop_last()) + bs.last().notes@.map_values(|n: TabNote| n.string)
    }
}

/// The chord intervals of the beats.
pub open spec fn beats_intervals(t: Option<(Seq<u8>, u8)>, bs: Seq<TabBeat>) -> Seq<u8>
    decreases bs.len(),
{
    if bs.len() == 0 {
        Seq::empty()
    } else {
        beats_intervals(t, bs.drop_last()) + beat_intervals(t, bs.last().notes@)
    }
}

/// The frets of the notes of the tracks' beats, track after track.
pub open spec fn tracks_frets(tms: Seq<TrackMeasure>) -> Seq<u8>
    decreases tms.len(),
{
    if tms.len() == 0 {
        Seq::empty()
    } else {
        tracks_frets(tms.drop_last()) + beats_frets(tms.last().beats@)
    }
}

/// The strings of the notes of the tracks' beats, track after track.
pub open spec fn tracks_strings(tms: Seq<TrackMeasure>) -> Seq<u8>
    decreases tms.len(),
{
    if tms.len() == 0 {
        Seq::empty()
    } else {
        tracks_strings(tms.drop_last()) + beats_strings(tms.last().beats@)
    }
}

/// The number of beats of the tracks.
pub open spec fn tracks_beat_count(tms: Seq<TrackMeasure>) -> nat
    decreases tms.len(),
{
    if tms.len() == 0 {
        0
    } else {
        tracks_beat_count(tms.drop_last()) + tms.last().beats@.len()
    }
}

/// The chord intervals of the tracks' beats, each track read with its
/// tuning.
pub open spec fn tracks_intervals(tracks: Seq<TrackTuning>, tms: Seq<TrackMeasure>) -> Seq<u8>
    decreases tms.len(),
{
    if tms.len() == 0 {
        Seq::empty()
    } else {
        tracks_intervals(tracks, tms.drop_last()) + beats_intervals(
            tuning_of(tracks, tms.last().track_id),
            tms.last().beats@,
        )
    }
}

/// Every note of a chord (two notes or more) of a track with a tuning
/// lies on one of its strings and sounds a pitch below 256.
pub open spec fn measure_fits(tracks: Seq<TrackTuning>, m: TabMeasure) -> bool {
    forall|i: int, j: int|
        0 <= i < m.track_beats@.len() && 0 <= j < m.track_beats@[i].beats@.len() ==> match tuning_of(
            tracks,
            m.track_beats@[i].track_id,
        ) {
            Some((t, c)) => (#[trigger] m.track_beats@[i].beats@[j]).notes@.len() >= 2 ==> notes_fit(
                t,
                c,
                positions(m.track_beats@[i].beats@[j].notes@),
            ),
            None => true,
        }
}

/// The tuning of a track.
fn find_tuning(tracks: &Vec<TrackTuning>, id: u128) -> (r: Option<(&Vec<u8>, u8)>)
    ensures
        match r {
            Some((t, c)) => tuning_of(tracks@, id) == Some((t@, c)),
            None => tuning_of(tracks@, id) is None,
        },
{
    let mut i: usize = 0;
    proof {
        assert(tracks@.subrange(0, tracks@.len() as int) =~= tracks@);
    }
    while i < tracks.len()
        invariant
            i <= tracks@.len(),
            tuning_of(tracks@, id) == tuning_of(tracks@.subrange(i as int, tracks@.len() as int), id),
        decreases tracks@.len() - i,
    {
        let ghost rest = tracks@.subrange(i as int, tracks@.len() as int);
        proof {
            assert(rest.drop_first() =~= tracks@.subrange(i + 1, tracks@.len() as int));
        }
        if tracks[i].track_id == id {
            return match &tracks[i].stringed {
                Some(s) => Some((&s.0, s.1)),
                None => None,
            };
        }
        i = i + 1;
    }
    proof {
        assert(tracks@.subrange(i as int, tracks@.len() as int).len() == 0);
    }
    None
}

/// The values of a list in increasing order, repeats kept.
pub fn sort_bytes(s: &Vec<u8>) -> (r: Vec<u8>)
    ensures
        r@ == sorted_bytes(s@),
{
    let mut r: Vec<u8> = Vec::new();
    let mut v: u16 = 0;
    while v < 256
        invariant
            v <= 256,
            r@ == counted_below(s@, v as nat),
        decreases 256 - v,
    {
        let mut count: usize = 0;
        let mut i: usize = 0;
        while i < s.len()
            invariant
                v < 256,
                i <= s@.len(),
                count == occurrences(s@.subrange(0, i as int), v as u8),
                count <= i,
            decreases s@.len() - i,
        {
            proof {
                assert(s@.subrange(0, i + 1).drop_last() =~= s@.subrange(0, i as int));
            }
            if s[i] == v as u8 {
                count = count + 1;
            }
            i = i + 1;
        }
        proof {
            assert(s@.subrange(0, s@.len() as int) =~= s@);
        }
        let ghost start = r@;
        let mut k: usize = 0;
        while k < count
            invariant
                v < 256,
                k <= count,
                r@ == start + Seq::new(k as nat, |j: int| v as u8),
            decreases count - k,
        {
            r.push(v as u8);
            proof {
                assert(r@ =~= start + Seq::new((k + 1) as nat, |j: int| v as u8));
            }
            k = k + 1;
        }
        proof {
            assert(r@ =~= counted_below(s@, (v + 1) as nat));
        }
        v = v + 1;
    }
    r
}

/// The intervals between neighbouring pitches.
pub fn intervals_between(p: &Vec<u8>) -> (r: Vec<u8>)
    ensures
        r@ == neighbour_intervals(p@),
{
    let mut r: Vec<u8> = Vec::new();
    if p.len() < 2 {
        return r;
    }
    let mut i: usize = 1;
    proof {
        assert(neighbour_intervals(p@.subrange(0, 1)) =~= Seq::<u8>::empty());
    }
    while i < p.len()
        invariant
            1 <= i <= p@.len(),
            r@ == neighbour_intervals(p@.subrange(0, i as int)),
        decreases p@.len() - i,
    {
        proof {
            assert(p@.subrange(0, i + 1).drop_last() =~= p@.subrange(0, i as int));
        }
        let a = p[i];
        let b = p[i - 1];
        let d = (if a >= b { a - b } else { b - a }) % 12;
        if d > 0 {
            r.push(d);
        }
        i = i + 1;
    }
    proof {
        assert(p@.subrange(0, p@.len() as int) =~= p@);
    }
    r
}

/// The (string, fret) positions of notes.
fn note_positions(notes: &Vec<TabNote>) -> (r: Vec<(u8, u8)>)
    ensures
        r@ == positions(notes@),
{
    let mut r: Vec<(u8, u8)> = Vec::new();
    let mut i: usize = 0;
    while i < notes.len()
        invariant
            i <= notes@.len(),
            r@ == positions(notes@.subrange(0, i as int)),
        decreases notes@.len() - i,
    {
        r.push((notes[i].string, notes[i].fret));
        proof {
            assert(r@ =~= positions(notes@.subrange(0, i + 1)));
        }
        i = i + 1;
    }
    proof {
        assert(notes@.subrange(0, notes@.len() as int) =~= notes@);
    }
    r
}

/// The intervals inside one beat's chord.
fn chord_intervals(t: Option<(&Vec<u8>, u8)>, notes: &Vec<TabNote>) -> (r: Vec<u8>)
    requires
        match t {
            Some((tuning, c)) => notes@.len() >= 2 ==> notes_fit(tuning@, c, positions(notes@)),
            None => true,
        },
    ensures
        r@ == beat_intervals(
            match t {
                Some((tuning, c)) => Some((tuning@, c)),
                None => None,
            },
            notes@,
        ),
{
    match t {
        Some((tuning, c)) => {
            if notes.len() >= 2 {
                let pos = note_positions(notes);
                let pitches = sounded_pitches(tuning, c, &pos);
                let sorted = sort_bytes(&pitches);
                intervals_between(&sorted)
            } else {
                Vec::new()
            }
        },
        None => Vec::new(),
    }
}

/// The frets and strings of notes, appended.
fn push_notes(frets: &mut Vec<u8>, strings: &mut Vec<u8>, notes: &Vec<TabNote>)
    ensures
        final(frets)@ == old(frets)@ + notes@.map_values(|n: TabNote| n.fret),
        final(strings)@ == old(strings)@ + notes@.map_values(|n: TabNote| n.string),
{
    let ghost f0 = frets@;
    let ghost s0 = strings@;
    let mut k: usize = 0;
    while k < notes.len()
        invariant
            k <= notes@.len(),
            frets@ == f0 + notes@.subrange(0, k as int).map_values(|n: TabNote| n.fret),
            strings@ == s0 + notes@.subrange(0, k as int).map_values(|n: TabNote| n.string),
        decreases notes@.len() - k,
    {
        frets.push(notes[k].fret);
        strings.push(notes[k].string);
        proof {
            assert(frets@ =~= f0 + notes@.subrange(0, k + 1).map_values(|n: TabNote| n.fret));
            assert(strings@ =~= s0 + notes@.subrange(0, k + 1).map_values(|n: TabNote| n.string));
        }
        k = k + 1;
    }
    proof {
        assert(notes@.subrange(0, notes@.len() as int) =~= notes@);
    }
}

/// Gather the counts of a measure: every note's fret and string, the
/// numbers of notes and beats, the intervals inside each chord (each
/// track read with its tuning) and the number of distinct strings.
pub fn measure_tally(measure: &TabMeasure, tracks: &Vec<TrackTuning>) -> (t: MeasureTally)
    requires
        measure_fits(tracks@, *measure),
        tracks_beat_count(measure.track_beats@) <= usize::MAX,
    ensures
        t.number == measure.number,
        t.frets@ == tracks_frets(measure.track_beats@),
        t.strings@ == tracks_strings(measure.track_beats@),
        t.note_count == tracks_frets(measure.track_beats@).len(),
        t.beat_count == tracks_beat_count(measure.track_beats@),
        t.intervals@ == tracks_intervals(tracks@, measure.track_beats@),
        t.distinct_strings == sorted_distinct(tracks_strings(measure.track_beats@)).len(),
{
    let tms = &measure.track_beats;
    let mut frets: Vec<u8> = Vec::new();
    let mut strings: Vec<u8> = Vec::new();
    let mut intervals: Vec<u8> = Vec::new();
    let mut beat_count: usize = 0;
    let mut i: usize = 0;
    while i < tms.len()
        invariant
            i <= tms@.len(),
            *tms == measure.track_beats,
            measure_fits(tracks@, *measure),
            tracks_beat_count(tms@) <= usize::MAX,
            frets@ == tracks_frets(tms@.subrange(0, i as int)),
            strings@ == tracks_strings(tms@.subrange(0, i as int)),
            intervals@ == tracks_intervals(tracks@, tms@.subrange(0, i as int)),
            beat_count == tracks_beat_count(tms@.subrange(0, i as int)),
        decreases tms@.len() - i,
    {
        let tm = &tms[i];
        let tuning = find_tuning(tracks, tm.track_id);
        let ghost tv = tuning_of(tracks@, tm.track_id);
        let ghost pre = tms@.subrange(0, i as int);
        proof {
            assert(tms@.subrange(0, i + 1).drop_last() =~= pre);
            lemma_beat_count_prefix(tms@, i + 1);
        }
        let ghost f0 = frets@;
        let ghost s0 = strings@;
        let ghost v0 = intervals@;
        let ghost b0 = beat_count;
        let mut j: usize = 0;
        while j < tm.beats.len()
            invariant
                i < tms@.len(),
                *tm == tms@[i as int],
                *tms == measure.track_beats,
                measure_fits(tracks@, *measure),
                j <= tm.beats@.len(),
                tv == tuning_of(tracks@, tm.track_id),
                match tuning {
                    Some((tt, c)) => tv == Some((tt@, c)),
                    None => tv is None,
                },
                b0 + tm.beats@.len() <= usize::MAX,
                frets@ == f0 + beats_frets(tm.beats@.subrange(0, j as int)),
                strings@ == s0 + beats_strings(tm.beats@.subrange(0, j as int)),
                intervals@ == v0 + beats_intervals(tv, tm.beats@.subrange(0, j as int)),
                beat_count == b0 + j,
            decreases tm.beats@.len() - j,
        {
            let beat = &tm.beats[j];
            proof {
                assert(tm.beats@.subrange(0, j + 1).drop_last() =~= tm.beats@.subrange(0, j as int));
                let _ = measure.track_beats@[i as int].beats@[j as int];
            }
            beat_count = beat_count + 1;
            push_notes(&mut frets, &mut strings, &beat.notes);
            let mut ci = chord_intervals(tuning, &beat.notes);
            intervals.append(&mut ci);
            proof {
                assert(frets@ =~= f0 + beats_frets(tm.beats@.subrange(0, j + 1)));
                assert(strings@ =~= s0 + beats_strings(tm.beats@.subrange(0, j + 1)));
                assert(intervals@ =~= v0 + beats_intervals(tv, tm.beats@.subrange(0, j + 1)));
            }
            j = j + 1;
        }
        proof {
            assert(tm.beats@.subrange(0, tm.beats@.len() as int) =~= tm.beats@);
            assert(frets@ =~= tracks_frets(tms@.subrange(0, i + 1)));
            assert(strings@ =~= tracks_strings(tms@.subrange(0, i + 1)));
            assert(intervals@ =~= tracks_intervals(tracks@, tms@.subrange(0, i + 1)));
        }
        i = i + 1;
    }
    proof {
        assert(tms@.subrange(0, tms@.len() as int) =~= tms@);
    }
    let distinct = sort_distinct(&strings);
    MeasureTally {
        number: measure.number,
        note_count: frets.len(),
        frets,
        strings,
        beat_count,
        intervals,
        distinct_strings: distinct.len(),
    }
}

/// The beats of a prefix of the tracks are at most those of all.
pub proof fn lemma_beat_count_prefix(tms: Seq<TrackMeasure>, n: int)
    requires
        0 <= n <= tms.len(),
    ensures
        tracks_beat_count(tms.subrange(0, n)) <= tracks_beat_count(tms),
    decreases tms.len() - n,
{
    if n < tms.len() {
        lemma_beat_count_prefix(tms, n + 1);
        assert(tms.subrange(0, n + 1).drop_last() =~= tms.subrange(0, n));
    } else {
        assert(tms.subrange(0, n) =~= tms);
    }
}

/// The distinct pitches of a beat's chord, in increasing order, where the
/// track has a tuning and the beat two notes or more.
pub open spec fn chord_pitches(t: Option<(Seq<u8>, u8)>, notes: Seq<TabNote>) -> Seq<u8> {
    match t {
        Some((tuning, count)) => if notes.len() >= 2 {
            sorted_distinct(sounded(tuning, count, positions(notes)))
        } else {
            Seq::empty()
        },
        None => Seq::empty(),
    }
}

/// The root class of a chord, where it has pitches.
pub open spec fn chord_root(p: Seq<u8>) -> Seq<u8> {
    if p.len() > 0 {
        seq![(p[0] % 12) as u8]
    } else {
        Seq::empty()
    }
}

/// The chord roots of beats.
pub open spec fn beats_roots(t: Option<(Seq<u8>, u8)>, bs: Seq<TabBeat>) -> Seq<u8>
    decreases bs.len(),
{
    if bs.len() == 0 {
        Seq::empty()
    } else {
        beats_roots(t, bs.drop_last()) + chord_root(chord_pitches(t, bs.last().notes@))
    }
}

/// The intervals between neighbouring distinct pitches of the beats'
/// chords.
pub open spec fn beats_chord_steps(t: Option<(Seq<u8>, u8)>, bs: Seq<TabBeat>) -> Seq<u8>
    decreases bs.len(),
{
    if bs.len() == 0 {
        Seq::empty()
    } else {
        beats_chord_steps(t, bs.drop_last()) + neighbour_intervals(chord_pitches(t, bs.last().notes@))
    }
}

/// The chord roots of the tracks' beats.
pub open spec fn tracks_roots(tracks: Seq<TrackTuning>, tms: Seq<TrackMeasure>) -> Seq<u8>
    decreases tms.len(),
{
    if tms.len() == 0 {
        Seq::empty()
    } else {
        tracks_roots(tracks, tms.drop_last()) + beats_roots(tuning_of(tracks, tms.last().track_id), tms.last().beats@)
    }
}

/// The chord steps of the tracks' beats.
pub open spec fn tracks_chord_steps(tracks: Seq<TrackTuning>, tms: Seq<TrackMeasure>) -> Seq<u8>
    decreases tms.len(),
{
    if tms.len() == 0 {
        Seq::empty()
    } else {
        tracks_chord_steps(tracks, tms.drop_last()) + beats_chord_steps(
            tuning_of(tracks, tms.last().track_id),
            tms.last().beats@,
        )
    }
}

/// What a style fingerprint is computed from.
#[derive(Debug, Clone)]
pub struct FingerprintTally {
    /// The numbers of the measures read
    pub source_measures: Vec<usize>,
    /// The fret of every note, measure after measure
    pub frets: Vec<u8>,
    /// The string of every note, measure after measure
    pub strings: Vec<u8>,
    /// Number of notes
    pub note_count: usize,
    /// Number of beats
    pub beat_count: usize,
    /// The root class of every chord, measure after measure
    pub roots: Vec<u8>,
    /// The intervals between neighbouring distinct pitches of every chord
    pub chord_steps: Vec<u8>,
    /// The number of distinct strings of each measure
    pub string_spreads: Vec<usize>,
}

/// The frets of the measures' notes, measure after measure.
pub open spec fn measures_frets(ms: Seq<TabMeasure>) -> Seq<u8>
    decreases ms.len(),
{
    if ms.len() == 0 {
        Seq::empty()
    } else {
        measures_frets(ms.drop_last()) + tracks_frets(ms.last().track_beats@)
    }
}

/// The strings of the measures' notes, measure after measure.
pub open spec fn measures_strings(ms: Seq<TabMeasure>) -> Seq<u8>
    decreases ms.len(),
{
    if ms.len() == 0 {
        Seq::empty()
    } else {
        measures_strings(ms.drop_last()) + tracks_strings(ms.last().track_beats@)
    }
}

/// The chord roots of the measures, measure after measure.
pub open spec fn measures_roots(tracks: Seq<TrackTuning>, ms: Seq<TabMeasure>) -> Seq<u8>
    decreases ms.len(),
{
    if ms.len() == 0 {
        Seq::empty()
    } else {
        measures_roots(tracks, ms.drop_last()) + tracks_roots(tracks, ms.last().track_beats@)
    }
}

/// The chord steps of the measures, measure after measure.
pub open spec fn measures_chord_steps(tracks: Seq<TrackTuning>, ms: Seq<TabMeasure>) -> Seq<u8>
    decreases ms.len(),
{
    if ms.len() == 0 {
        Seq::empty()
    } else {
        measures_chord_steps(tracks, ms.drop_last()) + tracks_chord_steps(tracks, ms.last().track_beats@)
    }
}

/// The beats of the measures.
pub open spec fn measures_beat_count(ms: Seq<TabMeasure>) -> nat
    decreases ms.len(),
{
    if ms.len() == 0 {
        0
    } else {
        measures_beat_count(ms.drop_last()) + tracks_beat_count(ms.last().track_beats@)
    }
}

/// The roots and chord steps of one beat's chord.
fn chord_roots_and_steps(t: Option<(&Vec<u8>, u8)>, notes: &Vec<TabNote>) -> (r: (Vec<u8>, Vec<u8>))
    requires
        match t {
            Some((tuning, c)) => notes@.len() >= 2 ==> notes_fit(tuning@, c, positions(notes@)),
            None => true,
        },
    ensures
        ({
            let tv = match t {
                Some((tuning, c)) => Some((tuning@, c)),
                None => None,
            };
            &&& r.0@ == chord_root(chord_pitches(tv, notes@))
            &&& r.1@ == neighbour_intervals(chord_pitches(tv, notes@))
        }),
{
    match t {
        Some((tuning, c)) => {
            if notes.len() >= 2 {
                let pos = note_positions(notes);
                let pitches = sounded_pitches(tuning, c, &pos);
                let distinct = sort_distinct(&pitches);
                let mut root: Vec<u8> = Vec::new();
                if distinct.len() > 0 {
                    root.push(distinct[0] % 12);
                }
                proof {
                    assert(root@ =~= chord_root(distinct@));
                }
                (root, intervals_between(&distinct))
            } else {
                let r: (Vec<u8>, Vec<u8>) = (Vec::new(), Vec::new());
                proof {
                    assert(r.0@ =~= Seq::<u8>::empty());
                    assert(r.1@ =~= Seq::<u8>::empty());
                }
                r
            }
        },
        None => {
            let r: (Vec<u8>, Vec<u8>) = (Vec::new(), Vec::new());
            proof {
                assert(r.0@ =~= Seq::<u8>::empty());
                assert(r.1@ =~= Seq::<u8>::empty());
            }
            r
        },
    }
}

/// The chord roots and steps of a measure.
pub fn measure_chords(measure: &TabMeasure, tracks: &Vec<TrackTuning>) -> (r: (Vec<u8>, Vec<u8>))
    requires
        measure_fits(tracks@, *measure),
    ensures
        r.0@ == tracks_roots(tracks@, measure.track_beats@),
        r.1@ == tracks_chord_steps(tracks@, measure.track_beats@),
{
    let tms = &measure.track_beats;
    let mut roots: Vec<u8> = Vec::new();
    let mut steps: Vec<u8> = Vec::new();
    let mut i: usize = 0;
    while i < tms.len()
        invariant
            i <= tms@.len(),
            *tms == measure.track_beats,
            measure_fits(tracks@, *measure),
            roots@ == tracks_roots(tracks@, tms@.subrange(0, i as int)),
            steps@ == tracks_chord_steps(tracks@, tms@.subrange(0, i as int)),
        decreases tms@.len() - i,
    {
        let tm = &tms[i];
        let tuning = find_tuning(tracks, tm.track_id);
        let ghost tv = tuning_of(tracks@, tm.track_id);
        proof {
            assert(tms@.subrange(0, i + 1).drop_last() =~= tms@.subrange(0, i as int));
        }
        let ghost r0 = roots@;
        let ghost s0 = steps@;
        let mut j: usize = 0;
        while j < tm.beats.len()
            invariant
                i < tms@.len(),
                *tm == tms@[i as int],
                *tms == measure.track_beats,
                measure_fits(tracks@, *measure),
                j <= tm.beats@.len(),
                tv == tuning_of(tracks@, tm.track_id),
                match tuning {
                    Some((tt, c)) => tv == Some((tt@, c)),
                    None => tv is None,
                },
                roots@ == r0 + beats_roots(tv, tm.beats@.subrange(0, j as int)),
                steps@ == s0 + beats_chord_steps(tv, tm.beats@.subrange(0, j as int)),
            decreases tm.beats@.len() - j,
        {
            let beat = &tm.beats[j];
            proof {
                assert(tm.beats@.subrange(0, j + 1).drop_last() =~= tm.beats@.subrange(0, j as int));
                let _ = measure.track_beats@[i as int].beats@[j as int];
            }
            let (mut br, mut bs) = chord_roots_and_steps(tuning, &beat.notes);
            roots.append(&mut br);
            steps.append(&mut bs);
            proof {
                assert(roots@ =~= r0 + beats_roots(tv, tm.beats@.subrange(0, j + 1)));
                assert(steps@ =~= s0 + beats_chord_steps(tv, tm.beats@.subrange(0, j + 1)));
            }
            j = j + 1;
        }
        proof {
            assert(tm.beats@.subrange(0, tm.beats@.len() as int) =~= tm.beats@);
            assert(roots@ =~= tracks_roots(tracks@, tms@.subrange(0, i + 1)));
            assert(steps@ =~= tracks_chord_steps(tracks@, tms@.subrange(0, i + 1)));
        }
        i = i + 1;
    }
    proof {
        assert(tms@.subrange(0, tms@.len() as int) =~= tms@);
    }
    (roots, steps)
}

/// The distribution of the values of a list.
pub fn distribution_of(s: &Vec<u8>) -> (d: Distribution)
    ensures
        d.counts@ == tally(s@),
        d.total == s@.len(),
        d.wf(),
{
    let mut d = Distribution::new();
    let mut i: usize = 0;
    while i < s.len()
        invariant
            i <= s@.len(),
            d.counts@ == tally(s@.subrange(0, i as int)),
            d.total == i,
            d.wf(),
        decreases s@.len() - i,
    {
        let ghost pre = s@.subrange(0, i as int);
        proof {
            lemma_tally_bounded(pre, s@[i as int]);
            assert(s@.subrange(0, i + 1) =~= pre.push(s@[i as int]));
            assert(pre.push(s@[i as int]).drop_last() =~= pre);
        }
        let ghost d0 = d;
        d.add(s[i]);
        proof {
            lemma_add_keeps_wf(d0, d, s@[i as int]);
        }
        i = i + 1;
    }
    proof {
        assert(s@.subrange(0, s@.len() as int) =~= s@);
    }
    d
}

/// The beats of a prefix of the measures are at most those of all.
pub proof fn lemma_measures_beat_count_prefix(ms: Seq<TabMeasure>, n: int)
    requires
        0 <= n <= ms.len(),
    ensures
        measures_beat_count(ms.subrange(0, n)) <= measures_beat_count(ms),
    decreases ms.len() - n,
{
    if n < ms.len() {
        lemma_measures_beat_count_prefix(ms, n + 1);
        assert(ms.subrange(0, n + 1).drop_last() =~= ms.subrange(0, n));
    } else {
        assert(ms.subrange(0, n) =~= ms);
    }
}

/// Gather what a style fingerprint is computed from, over the measures
/// given: the measures' numbers, every note's fret and string, the numbers
/// of notes and beats, every chord's root class and steps, and each
/// measure's number of distinct strings.
pub fn fingerprint_tally(measures: &Vec<TabMeasure>, tracks: &Vec<TrackTuning>) -> (t: FingerprintTally)
    requires
        forall|k: int| 0 <= k < measures@.len() ==> measure_fits(tracks@, #[trigger] measures@[k]),
        measures_beat_count(measures@) <= usize::MAX,
    ensures
        t.source_measures@ == measures@.map_values(|m: TabMeasure| m.number),
        t.frets@ == measures_frets(measures@),
        t.strings@ == measures_strings(measures@),
        t.note_count == measures_frets(measures@).len(),
        t.beat_count == measures_beat_count(measures@),
        t.roots@ == measures_roots(tracks@, measures@),
        t.chord_steps@ == measures_chord_steps(tracks@, measures@),
        t.string_spreads@ == measures@.map_values(
            |m: TabMeasure| sorted_distinct(tracks_strings(m.track_beats@)).len() as usize,
        ),
{
    let mut numbers: Vec<usize> = Vec::new();
    let mut frets: Vec<u8> = Vec::new();
    let mut strings: Vec<u8> = Vec::new();
    let mut roots: Vec<u8> = Vec::new();
    let mut steps: Vec<u8> = Vec::new();
    let mut spreads: Vec<usize> = Vec::new();
    let mut beat_count: usize = 0;
    let mut i: usize = 0;
    while i < measures.len()
        invariant
            i <= measures@.len(),
            forall|k: int| 0 <= k < measures@.len() ==> measure_fits(tracks@, #[trigger] measures@[k]),
            measures_beat_count(measures@) <= usize::MAX,
            numbers@ == measures@.subrange(0, i as int).map_values(|m: TabMeasure| m.number),
            frets@ == measures_frets(measures@.subrange(0, i as int)),
            strings@ == measures_strings(measures@.subrange(0, i as int)),
            roots@ == measures_roots(tracks@, measures@.subrange(0, i as int)),
            steps@ == measures_chord_steps(tracks@, measures@.subrange(0, i as int)),
            spreads@ == measures@.subrange(0, i as int).map_values(
                |m: TabMeasure| sorted_distinct(tracks_strings(m.track_beats@)).len() as usize,
            ),
            beat_count == measures_beat_count(measures@.subrange(0, i as int)),
        decreases measures@.len() - i,
    {
        let m = &measures[i];
        let ghost pre = measures@.subrange(0, i as int);
        proof {
            assert(measures@.subrange(0, i + 1).drop_last() =~= pre);
            lemma_measures_beat_count_prefix(measures@, i + 1);
            let _ = measures@[i as int];
        }
        let mut tally = measure_tally(m, tracks);
        let (mut mr, mut ms) = measure_chords(m, tracks);
        numbers.push(m.number);
        frets.append(&mut tally.frets);
        strings.append(&mut tally.strings);
        roots.append(&mut mr);
        steps.append(&mut ms);
        spreads.push(tally.distinct_strings);
        beat_count = beat_count + tally.beat_count;
        proof {
            assert(numbers@ =~= measures@.subrange(0, i + 1).map_values(|m: TabMeasure| m.number));
            assert(spreads@ =~= measures@.subrange(0, i + 1).map_values(
                |m: TabMeasure| sorted_distinct(tracks_strings(m.track_beats@)).len() as usize,
            ));
        }
        i = i + 1;
    }
    proof {
        assert(measures@.subrange(0, measures@.len() as int) =~= measures@);
    }
    FingerprintTally {
        source_measures: numbers,
        note_count: frets.len(),
        frets,
        strings,
        beat_count,
        roots,
        chord_steps: steps,
        string_spreads: spreads,
    }
}

/// The frets and strings of the notes of one track, measure after measure.
pub open spec fn track_notes_spec(ms: Seq<TabMeasure>, id: u128) -> (Seq<u8>, Seq<u8>)
    decreases ms.len(),
{
    if ms.len() == 0 {
        (Seq::empty(), Seq::empty())
    } else {
        let (f, s) = track_notes_spec(ms.drop_last(), id);
        let (f2, s2) = track_in_measure(ms.last().track_beats@, id);
        (f + f2, s + s2)
    }
}

/// The frets and strings of one track's notes in a measure.
pub open spec fn track_in_measure(tms: Seq<TrackMeasure>, id: u128) -> (Seq<u8>, Seq<u8>)
    decreases tms.len(),
{
    if tms.len() == 0 {
        (Seq::empty(), Seq::empty())
    } else {
        let (f, s) = track_in_measure(tms.drop_last(), id);
        if tms.last().track_id == id {
            (f + beats_frets(tms.last().beats@), s + beats_strings(tms.last().beats@))
        } else {
            (f, s)
        }
    }
}

/// The frets and strings of one track's notes over the measures.
pub fn track_notes(measures: &Vec<TabMeasure>, id: u128) -> (r: (Vec<u8>, Vec<u8>))
    ensures
        (r.0@, r.1@) == track_notes_spec(measures@, id),
{
    let mut frets: Vec<u8> = Vec::new();
    let mut strings: Vec<u8> = Vec::new();
    let mut i: usize = 0;
    while i < measures.len()
        invariant
            i <= measures@.len(),
            (frets@, strings@) == track_notes_spec(measures@.subrange(0, i as int), id),
        decreases measures@.len() - i,
    {
        proof {
            assert(measures@.subrange(0, i + 1).drop_last() =~= measures@.subrange(0, i as int));
        }
        let tms = &measures[i].track_beats;
        let ghost f0 = frets@;
        let ghost s0 = strings@;
        let mut k: usize = 0;
        while k < tms.len()
            invariant
                i < measures@.len(),
                *tms == measures@[i as int].track_beats,
                k <= tms@.len(),
                (frets@, strings@) == ({
                    let (f, s) = track_in_measure(tms@.subrange(0, k as int), id);
                    (f0 + f, s0 + s)
                }),
            decreases tms@.len() - k,
        {
            proof {
                assert(tms@.subrange(0, k + 1).drop_last() =~= tms@.subrange(0, k as int));
            }
            if tms[k].track_id == id {
                let beats = &tms[k].beats;
                let ghost f1 = frets@;
                let ghost s1 = strings@;
                let mut j: usize = 0;
                while j < beats.len()
                    invariant
                        j <= beats@.len(),
                        frets@ == f1 + beats_frets(beats@.subrange(0, j as int)),
                        strings@ == s1 + beats_strings(beats@.subrange(0, j as int)),
                    decreases beats@.len() - j,
                {
                    proof {
                        assert(beats@.subrange(0, j + 1).drop_last() =~= beats@.subrange(0, j as int));
                    }
                    push_notes(&mut frets, &mut strings, &beats[j].notes);
                    proof {
                        assert(frets@ =~= f1 + beats_frets(beats@.subrange(0, j + 1)));
                        assert(strings@ =~= s1 + beats_strings(beats@.subrange(0, j + 1)));
                    }
                    j = j + 1;
                }
                proof {
                    assert(beats@.subrange(0, beats@.len() as int) =~= beats@);
                    let (f, s) = track_in_measure(tms@.subrange(0, k as int), id);
                    assert(frets@ =~= f0 + f + beats_frets(beats@));
                    assert(strings@ =~= s0 + s + beats_strings(beats@));
                }
            }
            proof {
                let (f, s) = track_in_measure(tms@.subrange(0, k + 1), id);
                assert(frets@ =~= f0 + f);
                assert(strings@ =~= s0 + s);
            }
            k = k + 1;
        }
        proof {
            assert(tms@.subrange(0, tms@.len() as int) =~= tms@);
            let (f, s) = track_notes_spec(measures@.subrange(0, i + 1), id);
            assert(frets@ =~= f);
            assert(strings@ =~= s);
        }
        i = i + 1;
    }
    proof {
        assert(measures@.subrange(0, measures@.len() as int) =~= measures@);
    }
    (frets, strings)
}

/// A measure number lies in one of the (first, last) ranges.
pub open spec fn in_ranges(n: usize, ranges: Seq<(usize, usize)>) -> bool {
    exists|k: int| 0 <= k < ranges.len() && (#[trigger] ranges[k]).0 <= n && n <= ranges[k].1
}

/// Whether a measure number lies in one of the ranges.
pub fn in_any_range(n: usize, ranges: &Vec<(usize, usize)>) -> (b: bool)
    ensures
        b == in_ranges(n, ranges@),
{
    let mut i: usize = 0;
    while i < ranges.len()
        invariant
            i <= ranges@.len(),
            forall|k: int| 0 <= k < i ==> !((#[trigger] ranges@[k]).0 <= n && n <= ranges@[k].1),
        decreases ranges@.len() - i,
    {
        if ranges[i].0 <= n && n <= ranges[i].1 {
            proof {
                assert(ranges@[i as int].0 <= n && n <= ranges@[i as int].1);
            }
            return true;
        }
        i = i + 1;
    }
    false
}

/// The numbers of the measures, in order, that lie in none of the ranges.
pub fn numbers_outside(measures: &Vec<TabMeasure>, exclude: &Vec<(usize, usize)>) -> (r: Vec<usize>)
    ensures
        r@ == measures@.map_values(|m: TabMeasure| m.number).filter(|n: usize| !in_ranges(n, exclude@)),
{
    let ghost pred = |n: usize| !in_ranges(n, exclude@);
    let ghost nums = measures@.map_values(|m: TabMeasure| m.number);
    let mut r: Vec<usize> = Vec::new();
    let mut i: usize = 0;
    while i < measures.len()
        invariant
            i <= measures@.len(),
            pred == (|n: usize| !in_ranges(n, exclude@)),
            nums == measures@.map_values(|m: TabMeasure| m.number),
            r@ == nums.subrange(0, i as int).filter(pred),
        decreases measures@.len() - i,
    {
        proof {
            assert(nums.subrange(0, i + 1).drop_last() =~= nums.subrange(0, i as int));
            reveal_with_fuel(Seq::<_>::filter, 2);
        }
        let n = measures[i].number;
        if !in_any_range(n, exclude) {
            r.push(n);
        }
        i = i + 1;
    }
    proof {
        assert(nums.subrange(0, measures@.len() as int) =~= nums);
    }
    r
}

/// The tuning that a track's instrument gives it: its stringed
/// instrument's tuning and string count, none for drums or keys.
pub open spec fn tuning_from(t: TabTrack, tt: TrackTuning) -> bool {
    &&& tt.track_id == t.id
    &&& match t.instrument {
        Instrument::StringedInstrument(c) => tt.stringed matches Some((tuning, count)) && tuning@ == c.tuning@
            && count == c.string_count,
        _ => tt.stringed is None,
    }
}

/// The tuning of each track, in order.
pub fn track_tunings(tracks: &Vec<TabTrack>) -> (r: Vec<TrackTuning>)
    ensures
        r@.len() == tracks@.len(),
        forall|k: int| 0 <= k < tracks@.len() ==> tuning_from(tracks@[k], #[trigger] r@[k]),
{
    let mut r: Vec<TrackTuning> = Vec::new();
    let mut i: usize = 0;
    while i < tracks.len()
        invariant
            i <= tracks@.len(),
            r@.len() == i,
            forall|k: int| 0 <= k < i ==> tuning_from(tracks@[k], #[trigger] r@[k]),
        decreases tracks@.len() - i,
    {
        let t = &tracks[i];
        let stringed = match &t.instrument {
            Instrument::StringedInstrument(c) => {
                let mut tuning: Vec<u8> = Vec::new();
                let mut j: usize = 0;
                while j < c.tuning.len()
                    invariant
                        j <= c.tuning@.len(),
                        tuning@ == c.tuning@.subrange(0, j as int),
                    decreases c.tuning@.len() - j,
                {
                    tuning.push(c.tuning[j]);
                    j = j + 1;
                }
                assert(tuning@ =~= c.tuning@);
                Some((tuning, c.string_count))
            },
            _ => None,
        };
        r.push(TrackTuning { track_id: t.id, stringed });
        i = i + 1;
    }
    r
}

} // verus!
