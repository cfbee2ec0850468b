use orpheus::analysis::harmony::{extract_chord, HarmonicAnalyzer, MeasureNotes};
use orpheus::analysis::surgical::{ActionType, Severity};
use orpheus::analysis::types::{
    interval_name, pitch_name, ChordQuality, Distribution, IntervalClass, RootMotion, TrackRole,
};

#[test]
fn test_analyzer_creation() {
    let analyzer = HarmonicAnalyzer::new();
    assert_eq!(analyzer.default_tuning.len(), 6);
}

#[test]
fn harmony_test_chord_quality() {
    let power = ChordQuality::from_intervals(&[7]);
    assert!(power.is_power_chord());

    let min7 = ChordQuality::from_intervals(&[3, 7, 10]);
    assert!(min7.has_minor_third);
    assert!(min7.has_minor_seventh);
}

#[test]
fn chord_quality_from_intervals() {
    let power = ChordQuality::from_intervals(&[7]);
    assert!(power.is_power_chord());
    assert_eq!(power.name(), "5");

    let maj7 = ChordQuality::from_intervals(&[4, 7, 11]);
    assert!(maj7.has_major_seventh);
}

#[test]
fn test_action_type_icons() {
    assert!(!ActionType::IncreaseVariance.icon().is_empty());
    assert!(!ActionType::AddTension.icon().is_empty());
}

#[test]
fn test_interval_classification() {
    assert_eq!(IntervalClass::classify(1), IntervalClass::SharpDissonance);
    assert_eq!(IntervalClass::classify(6), IntervalClass::Tritone);
    assert_eq!(IntervalClass::classify(7), IntervalClass::PerfectConsonance);
    assert_eq!(IntervalClass::classify(11), IntervalClass::SharpDissonance);
}

#[test]
fn test_root_motion() {
    assert_eq!(RootMotion::classify(0), RootMotion::Static);
    assert_eq!(RootMotion::classify(1), RootMotion::Chromatic(1));
    assert_eq!(RootMotion::classify(-1), RootMotion::Chromatic(-1));
    assert_eq!(RootMotion::classify(6), RootMotion::Tritone);
}

#[test]
fn root_motion_normalizes_large_intervals() {
    assert_eq!(RootMotion::classify(7), RootMotion::FourthFifth(-5));
    assert_eq!(RootMotion::classify(-9), RootMotion::MinorThird(3));
    assert_eq!(RootMotion::classify(2), RootMotion::Other(2));
    assert_eq!(RootMotion::classify(2).name(), "other");
    assert_eq!(RootMotion::classify(-128), RootMotion::Other(-116));
}

#[test]
fn names_of_pitches_and_intervals() {
    assert_eq!(pitch_name(0), "C");
    assert_eq!(pitch_name(13), "C#");
    assert_eq!(interval_name(6), "tritone");
    assert_eq!(interval_name(12), "unison");
    assert_eq!(TrackRole::default(), TrackRole::InnerVoice);
    assert_eq!(TrackRole::Drums.description(), "percussion");
}

#[test]
fn test_distribution_counts() {
    let mut dist = Distribution::default();
    dist.add(0);
    dist.add(0);
    dist.add(4);
    dist.add(7);
    assert_eq!(dist.total, 4);
    assert_eq!(dist.count(0), 2);
    assert_eq!(dist.count(4), 1);
    assert_eq!(dist.count(5), 0);
}

#[test]
fn quality_names() {
    assert_eq!(ChordQuality::from_intervals(&[3, 7, 10]).name(), "m3+P5+m7");
    assert_eq!(ChordQuality::from_intervals(&[4, 6]).name(), "M3+b5");
    assert_eq!(ChordQuality::from_intervals(&[2, 5]).name(), "intervals:[2, 5]");
    assert_eq!(ChordQuality::from_intervals(&[7, 10]).name(), "m7");
    assert!(ChordQuality::from_intervals(&[13]).has_flat_nine);
    assert!(ChordQuality::from_intervals(&[7, 7]).is_power_chord());
    assert!(!ChordQuality::from_intervals(&[7, 10]).is_power_chord());
    assert!(!ChordQuality::from_intervals(&[1, 7]).is_power_chord());
    assert!(!ChordQuality::from_intervals(&[]).is_power_chord());
    assert_eq!(ChordQuality::from_intervals(&[1, 7]).name(), "b9");
}

#[test]
fn severity_colors_and_labels() {
    assert_eq!(Severity::Minor.color(), (255, 206, 86));
    assert_eq!(Severity::Critical.label(), "Critical");
    assert_eq!(ActionType::MatchStyle.icon(), "🎯");
}

#[test]
fn chord_from_a_beat() {
    let tuning = vec![40u8, 45, 50, 55, 59, 64];
    // E power chord: strings 6, 5, 4 at frets 0, 2, 2 (E2, B2, E3)
    let chord = extract_chord(&tuning, 6, &vec![(6, 0), (5, 2), (4, 2)], 3, 1).unwrap();
    assert_eq!(chord.pitches, vec![40, 47, 52]);
    assert_eq!(chord.root, 4);
    assert_eq!(chord.intervals, vec![7]);
    assert_eq!(chord.pitch_classes, vec![4, 11, 4]);
    assert!(chord.quality.is_power_chord());
    assert_eq!(chord.name(), "E5");
    assert_eq!(chord.measure, 3);
    assert_eq!(chord.beat_index, 1);
    assert!(!chord.has_tritone());
    assert_eq!(chord.bass(), 4);
    // A single note, or two notes of one pitch, form no chord
    assert!(extract_chord(&tuning, 6, &vec![(1, 0)], 1, 0).is_none());
    assert!(extract_chord(&tuning, 6, &vec![(6, 5), (5, 0)], 1, 0).is_none());
}

#[test]
fn analyzer_distributions_and_patterns() {
    let analyzer = HarmonicAnalyzer::new();
    // Four measures, each a beat of E5 then A5 then B5
    let mut measures = Vec::new();
    for number in 1..=4 {
        measures.push(MeasureNotes {
            number,
            stringed: None,
            beats: vec![vec![(6, 0), (5, 2)], vec![(5, 0), (4, 2)], vec![(5, 2), (4, 4)]],
        });
    }
    let chords = analyzer.extract_chords(&measures);
    assert_eq!(chords.len(), 12);
    let roots = analyzer.root_distribution(&chords);
    assert_eq!(roots.total, 12);
    assert_eq!(roots.count(4), 4);
    assert_eq!(roots.count(9), 4);
    assert_eq!(roots.count(11), 4);
    let intervals = analyzer.interval_distribution(&chords);
    assert_eq!(intervals.total, 12);
    assert_eq!(intervals.count(7), 12);
    let motions = analyzer.root_motions(&chords);
    // E->A is 5, A->B is 2, B->E is 5
    assert_eq!(motions.get(&5), Some(&7));
    assert_eq!(motions.get(&2), Some(&4));
    assert_eq!(analyzer.tritone_count(&chords), 0);
    let patterns = analyzer.find_progression_patterns(&chords);
    assert_eq!(patterns[0], ("E→A→B".to_string(), 4));
    assert_eq!(patterns.len(), 3);
    assert!(patterns.iter().all(|p| p.1 >= 3));
    assert_eq!(analyzer.quality_distribution(&chords), vec![("5".to_string(), 12)]);
    assert_eq!(analyzer.tonal_centers(&chords), vec![(4, 20), (11, 20), (9, 16), (6, 4)]);
    let weights = analyzer.tonal_weights(&chords);
    assert_eq!(weights.len(), 256);
    assert_eq!(weights[4], 20);
    assert_eq!(weights[0], 0);
}
