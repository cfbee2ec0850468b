use orpheus::analysis::gather::{
    distribution_of, fingerprint_tally, intervals_between, measure_chords, measure_tally, sort_bytes, track_notes,
    TrackTuning,
};
use orpheus::analysis::anomaly::{region_spans, spans_well_defined};
use orpheus::analysis::gather::{in_any_range, numbers_outside};
use orpheus::analysis::harmony::motion_counts;
use orpheus::analysis::surgical::{ActionType, DeviationFlags};
use orpheus::analysis::types::{ChordQuality, Distribution};
use std::collections::HashMap;
use orpheus::engine::EngineTransport;
use orpheus::notifications::{NotificationLevel, NotificationState};
use orpheus::project::{MidiNote, Project, RecordedClip, Track, TrackType};
use orpheus::tab::rhythm::RhythmValue;
use orpheus::analysis::gather::track_tunings;
use orpheus::tab::instrument::Instrument;
use orpheus::tab::{TabBeat, TabDocument, TabMeasure, TabNote, TabTrack, TrackMeasure};

fn standard_tuning(id: u128) -> TrackTuning {
    TrackTuning { track_id: id, stringed: Some((vec![40, 45, 50, 55, 59, 64], 6)) }
}

fn riff_measure(number: usize, id: u128) -> TabMeasure {
    let mut m = TabMeasure::new(number);
    let chord = TabBeat::chord(vec![(6, 3), (5, 5), (4, 5)], RhythmValue::eighth());
    let single = TabBeat::note(1, 0, RhythmValue::quarter());
    m.track_beats.push(TrackMeasure { track_id: id, beats: vec![chord, single] });
    m
}

#[test]
fn test_distribution() {
    let mut dist = Distribution::default();
    dist.add(0);
    dist.add(0);
    dist.add(4);
    dist.add(7);

    assert_eq!(dist.total, 4);
    assert_eq!(dist.count(0) as f64 / dist.total as f64 * 100.0, 50.0);
    assert_eq!(dist.count(4) as f64 / dist.total as f64 * 100.0, 25.0);

    let top = dist.top_counts(2);
    assert_eq!(top.len(), 2);
    assert_eq!(top[0].0, 0);
}

#[test]
fn top_counts_order_and_ties() {
    let mut dist = Distribution::new();
    for item in [9u8, 3, 9, 5, 3, 9] {
        dist.add(item);
    }
    assert_eq!(dist.top_counts(10), vec![(9, 3), (3, 2), (5, 1)]);
    assert_eq!(dist.top_counts(1), vec![(9, 3)]);
    assert!(dist.top_counts(0).is_empty());
}

#[test]
fn types_test_chord_quality() {
    let power = ChordQuality::from_intervals(&[7]);
    assert!(power.is_power_chord());
    assert_eq!(power.name(), "5");

    let maj7 = ChordQuality::from_intervals(&[4, 7, 11]);
    assert!(maj7.has_major_seventh);
    assert_eq!(maj7.dissonance_halves() as f32 / 2.0, 3.0);
}

#[test]
fn dissonance_weights() {
    assert_eq!(ChordQuality::from_intervals(&[4, 7]).dissonance_halves(), 0);
    assert_eq!(ChordQuality::from_intervals(&[3, 6, 10]).dissonance_halves(), 6);
    assert_eq!(ChordQuality::from_intervals(&[1, 6, 10, 11]).dissonance_halves(), 17);
}

#[test]
fn test_beat_creation() {
    let beat = TabBeat::note(1, 12, RhythmValue::sixteenth());
    assert_eq!(beat.notes.len(), 1);
    assert_eq!(beat.notes[0].fret, 12);
    assert!(!beat.is_rest);

    let rest = TabBeat::rest(RhythmValue::quarter());
    assert!(rest.is_rest);
}

#[test]
fn test_chord_creation() {
    let chord = TabBeat::chord(vec![(6, 3), (5, 5), (4, 5)], RhythmValue::eighth());
    assert_eq!(chord.notes.len(), 3);
}

#[test]
fn tab_note_builders() {
    let n = TabNote::new(3, 7);
    assert_eq!(n.velocity, 100);
    assert!(!n.is_ghost && !n.dead && !n.tied);
    let g = n.as_ghost();
    assert!(g.is_ghost);
    assert_eq!(g.velocity, 60);
    assert_eq!((g.string, g.fret), (3, 7));
    assert!(n.dead().dead);
    assert_eq!(n.with_velocity(20).velocity, 20);
}

#[test]
fn sorting_and_intervals() {
    assert_eq!(sort_bytes(&vec![55, 43, 50, 43]), vec![43, 43, 50, 55]);
    assert_eq!(intervals_between(&vec![43, 43, 50, 55]), vec![7, 5]);
    assert_eq!(intervals_between(&vec![40, 64]), vec![0u8; 0]);
    assert!(intervals_between(&vec![60]).is_empty());
}

#[test]
fn measure_counts() {
    let m = riff_measure(3, 7);
    let tally = measure_tally(&m, &vec![standard_tuning(7)]);
    assert_eq!(tally.number, 3);
    assert_eq!(tally.frets, vec![3, 5, 5, 0]);
    assert_eq!(tally.strings, vec![6, 5, 4, 1]);
    assert_eq!(tally.note_count, 4);
    assert_eq!(tally.beat_count, 2);
    assert_eq!(tally.intervals, vec![7, 5]);
    assert_eq!(tally.distinct_strings, 4);

    let untuned = measure_tally(&m, &vec![TrackTuning { track_id: 7, stringed: None }]);
    assert!(untuned.intervals.is_empty());
    assert_eq!(untuned.note_count, 4);
}

#[test]
fn measure_chord_roots() {
    let m = riff_measure(1, 7);
    let (roots, steps) = measure_chords(&m, &vec![standard_tuning(7)]);
    assert_eq!(roots, vec![7]);
    assert_eq!(steps, vec![7, 5]);
}

#[test]
fn fingerprint_counts() {
    let measures = vec![riff_measure(1, 7), TabMeasure::new(2)];
    let t = fingerprint_tally(&measures, &vec![standard_tuning(7)]);
    assert_eq!(t.source_measures, vec![1, 2]);
    assert_eq!(t.frets, vec![3, 5, 5, 0]);
    assert_eq!(t.strings, vec![6, 5, 4, 1]);
    assert_eq!(t.note_count, 4);
    assert_eq!(t.beat_count, 2);
    assert_eq!(t.roots, vec![7]);
    assert_eq!(t.chord_steps, vec![7, 5]);
    assert_eq!(t.string_spreads, vec![4, 0]);
}

#[test]
fn notes_of_one_track() {
    let mut m = riff_measure(1, 7);
    m.track_beats.push(TrackMeasure { track_id: 8, beats: vec![TabBeat::note(2, 9, RhythmValue::quarter())] });
    let (frets, strings) = track_notes(&vec![m.clone(), m], 8);
    assert_eq!(frets, vec![9, 9]);
    assert_eq!(strings, vec![2, 2]);
}

#[test]
fn distribution_from_values() {
    let d = distribution_of(&vec![7, 5, 7]);
    assert_eq!(d.total, 3);
    assert_eq!(d.count(7), 2);
    assert_eq!(d.count(5), 1);
    assert_eq!(d.count(0), 0);
}

#[test]
fn drum_pattern_steps() {
    let mut t = EngineTransport::new();
    assert_eq!(t.pattern_sample(2, 4), None);
    assert_eq!(t.step_sample_counter, 1);
    assert_eq!(t.pattern_sample(2, 4), None);
    assert_eq!(t.pattern_sample(2, 4), Some(1));
    assert_eq!(t.step_sample_counter, 1);
    t.pattern_step = 3;
    t.step_sample_counter = 5;
    assert_eq!(t.pattern_sample(2, 4), Some(0));
    assert_eq!(t.pattern_step, 0);
}

#[test]
fn recorded_clips_join_tracks() {
    let mut project = Project::new("Take");
    let id = project.add_track(Track::new("Keys", TrackType::Midi));
    let note = MidiNote { note: 60, velocity: 90, start: 0, duration: 240 };
    let kept = RecordedClip {
        track_id: id,
        clip_id: 11,
        clip_name: "Take 1".to_string(),
        start: 4800,
        length: 9600,
        notes: vec![note],
    };
    let dropped = RecordedClip { track_id: id.wrapping_add(1), clip_id: 12, ..kept.clone() };
    project.add_recorded_clips(&vec![kept, dropped]);
    let track = project.get_track(id).unwrap();
    assert_eq!(track.clips.len(), 1);
    assert_eq!(track.clips[0].id, 11);
    assert_eq!(track.clips[0].name, "Take 1");
    assert_eq!(track.clips[0].start, 4800);
    assert_eq!(track.clips[0].length, 9600);
    assert_eq!(project.track_count(), 1);
}

#[test]
fn notification_timestamps() {
    let mut n = NotificationState::new();
    n.info("a", 10);
    n.success("b", 20);
    n.warning("c", 30);
    n.error("d", 40);
    let stamps: Vec<u64> = n.notifications.iter().map(|x| x.created_at_ms).collect();
    assert_eq!(stamps, vec![10, 20, 30, 40]);
    assert_eq!(n.notifications[3].level, NotificationLevel::Error);
}

#[test]
fn motion_kinds_counted() {
    let mut m: HashMap<i8, usize> = HashMap::new();
    m.insert(0, 2);
    m.insert(1, 3);
    m.insert(-1, 1);
    m.insert(6, 4);
    m.insert(5, 1);
    m.insert(-5, 2);
    m.insert(-3, 7);
    let c = motion_counts(&m);
    assert_eq!(c.static_count, 2);
    assert_eq!(c.chromatic_count, 4);
    assert_eq!(c.tritone_count, 4);
    assert_eq!(c.fourth_fifth_count, 3);
    assert_eq!(c.total_motions, 20);

    let empty = motion_counts(&HashMap::new());
    assert_eq!(empty.total_motions, 0);
    assert_eq!(empty.static_count, 0);
}

fn bounds(measures: Vec<usize>, gap: usize, min_len: usize) -> Vec<(usize, usize)> {
    region_spans(&measures, gap, min_len).iter().map(|r| (r.start, r.end)).collect()
}

#[test]
fn anomalous_measures_grouped() {
    assert_eq!(bounds(vec![3, 4, 5, 6, 7], 4, 5), vec![(3, 7)]);
    assert_eq!(bounds(vec![1, 2, 20, 21, 22, 23, 24, 25], 4, 5), vec![(20, 25)]);
    assert_eq!(bounds(vec![2, 6, 10], 4, 5), vec![(2, 10)]);
    assert_eq!(bounds(vec![2, 6, 11], 4, 5), vec![(2, 6)]);
    assert_eq!(bounds(vec![1, 3, 9, 12], 2, 1), vec![(1, 3), (9, 9), (12, 12)]);
    assert!(bounds(vec![], 4, 5).is_empty());
    assert_eq!(bounds(vec![0, 1], 0, 1), vec![(1, 1)]);
    assert_eq!(bounds(vec![5, 7, 6], 4, 1), vec![(5, 6)]);
}

#[test]
fn region_members() {
    let spans = region_spans(&vec![1, 2, 20, 21, 22, 23, 24, 25], 4, 5);
    assert_eq!(spans.len(), 1);
    assert_eq!((spans[0].first, spans[0].past), (2, 8));
    let spans = region_spans(&vec![1, 3, 9, 12], 2, 1);
    let members: Vec<(usize, usize)> = spans.iter().map(|r| (r.first, r.past)).collect();
    assert_eq!(members, vec![(0, 2), (2, 3), (3, 4)]);
    let spans = region_spans(&vec![5, 7, 6], 4, 1);
    assert_eq!((spans[0].first, spans[0].past), (0, 3));
}

#[test]
fn grouping_defined() {
    assert!(spans_well_defined(&vec![3, 4, 5, 6, 7], 4, 5));
    assert!(spans_well_defined(&vec![5, 7, 6], 4, 1));
    assert!(!spans_well_defined(&vec![5, 20, 3], 4, 1));
    assert!(!spans_well_defined(&vec![10, 2], 4, 1));
    assert!(!spans_well_defined(&vec![1, 2], usize::MAX, 1));
    assert!(spans_well_defined(&vec![], usize::MAX, 1));
}

#[test]
fn measures_outside_ranges() {
    let measures: Vec<TabMeasure> = (1..=8).map(TabMeasure::new).collect();
    assert_eq!(numbers_outside(&measures, &vec![(2, 3), (6, 6)]), vec![1, 4, 5, 7, 8]);
    assert_eq!(numbers_outside(&measures, &vec![]), vec![1, 2, 3, 4, 5, 6, 7, 8]);
    assert!(in_any_range(3, &vec![(5, 9), (1, 3)]));
    assert!(!in_any_range(4, &vec![(5, 9), (1, 3)]));
}

#[test]
fn prescription_decisions() {
    let none = DeviationFlags { variance_collapse: false, lacks_tension: false, unusual_density: false, severe_variance_drop: false };
    assert_eq!(none.priority(), 5);
    assert_eq!(none.diagnosis(), "Stylistic inconsistency detected");
    assert!(none.action_types(false).is_empty());
    assert_eq!(none.action_types(true), vec![ActionType::MatchStyle]);

    let all = DeviationFlags { variance_collapse: true, lacks_tension: true, unusual_density: true, severe_variance_drop: true };
    assert_eq!(all.priority(), 10);
    assert_eq!(
        all.diagnosis(),
        "Primary issues: formulaic/repetitive writing, missing harmonic tension, unusual note density"
    );
    assert_eq!(
        all.action_types(false),
        vec![ActionType::IncreaseVariance, ActionType::BreakRepetition, ActionType::AddTension, ActionType::AdjustDensity]
    );

    let tension = DeviationFlags { lacks_tension: true, ..none };
    assert_eq!(tension.priority(), 7);
    assert_eq!(tension.diagnosis(), "Primary issues: missing harmonic tension");
}

#[test]
fn test_tab_document_creation() {
    let mut doc = TabDocument::new();
    assert!(doc.tracks.is_empty());

    let guitar = TabTrack::guitar("Lead Guitar");
    doc.add_track(guitar);
    assert_eq!(doc.tracks.len(), 1);

    doc.add_measure();
    assert_eq!(doc.measures.len(), 1);
}

#[test]
fn tracks_and_their_tunings() {
    let mut doc = TabDocument::new();
    let g = doc.add_track(TabTrack::guitar("Lead"));
    let b = doc.add_track(TabTrack::bass("Bass"));
    let d = doc.add_track(TabTrack::drums("Kit"));
    assert_eq!(doc.tracks[0].id, g);
    assert_eq!(doc.tracks[2].name, "Kit");
    assert!(matches!(doc.tracks[2].instrument, Instrument::Drums));
    assert!(!doc.tracks[1].muted && !doc.tracks[1].solo);
    let tunings = track_tunings(&doc.tracks);
    assert_eq!(tunings.len(), 3);
    assert_eq!(tunings[0].track_id, g);
    assert_eq!(tunings[0].stringed, Some((vec![40, 45, 50, 55, 59, 64], 6)));
    assert_eq!(tunings[1].track_id, b);
    assert_eq!(tunings[1].stringed, Some((vec![28, 33, 38, 43], 4)));
    assert_eq!(tunings[2].track_id, d);
    assert_eq!(tunings[2].stringed, None);
}
