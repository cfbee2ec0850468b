use orpheus::tab::instrument::{Fingering, KeysConfig, StringedConfig, TremoloType};
use orpheus::tab::notation::{Accidental, NavigationSymbol, Ottava, RehearsalMark};
use orpheus::tab::rhythm::{BaseDuration, MetricModulation, Polyrhythm, RhythmValue, TimeSignature, Tuplet};
use orpheus::tab::technique::BendAmount;
use orpheus::tab::{KeySignature, SectionMarker, TabDocument, TabMeasure, TabMetadata};

#[test]
fn test_rhythm_value_ticks() {
    assert_eq!(RhythmValue::quarter().ticks(), 480);
    assert_eq!(RhythmValue::quarter().dotted().ticks(), 720);
    assert_eq!(RhythmValue::eighth().ticks(), 240);
    assert_eq!(RhythmValue::eighth().triplet().ticks(), 160);
}

#[test]
fn rhythm_test_time_signature() {
    let four_four = TimeSignature::common();
    assert_eq!(four_four.measure_ticks(), 480 * 4);
    assert!(!four_four.is_odd());

    let seven_eight = TimeSignature::seven_eight();
    assert_eq!(seven_eight.measure_ticks(), 240 * 7);
    assert!(seven_eight.is_odd());
}

#[test]
fn test_polyrhythm() {
    let poly = Polyrhythm::three_against_two();
    assert_eq!(poly.display(), "3:2");
}

#[test]
fn test_rehearsal_marks() {
    assert_eq!(RehearsalMark::letter('a').display(), "[A]");
    assert_eq!(RehearsalMark::number(1).display(), "[1]");
}

#[test]
fn test_ottava() {
    assert_eq!(Ottava::OttavaUp.transposition_semitones(), 12);
    assert_eq!(Ottava::OttavaDown.transposition_semitones(), -12);
}

#[test]
fn test_accidentals() {
    assert_eq!(Accidental::Sharp.semitone_offset(), 1);
    assert_eq!(Accidental::Flat.semitone_offset(), -1);
    assert_eq!(Accidental::DoubleSharp.semitone_offset(), 2);
}

#[test]
fn test_bend_amounts() {
    assert_eq!(BendAmount::Half.cents(), 100);
    assert_eq!(BendAmount::Full.cents(), 200);
    assert_eq!(BendAmount::OneAndHalf.cents(), 300);
}

#[test]
fn test_standard_tunings() {
    let guitar = StringedConfig::guitar_6_standard();
    assert_eq!(guitar.string_count, 6);
    assert_eq!(guitar.tuning, vec![40, 45, 50, 55, 59, 64]);

    let bass = StringedConfig::bass_4_standard();
    assert_eq!(bass.string_count, 4);
    assert_eq!(bass.tuning, vec![28, 33, 38, 43]);
}

#[test]
fn test_midi_note_calculation() {
    let guitar = StringedConfig::guitar_6_standard();
    assert_eq!(guitar.midi_note(6, 0), 40);
    assert_eq!(guitar.midi_note(6, 12), 52);
    assert_eq!(guitar.midi_note(1, 0), 64);
}

#[test]
fn test_note_names() {
    let guitar = StringedConfig::guitar_6_standard();
    assert_eq!(guitar.note_name(6, 0), "E2");
    assert_eq!(guitar.note_name(6, 5), "A2");
    assert_eq!(guitar.note_name(1, 0), "E4");
}

#[test]
fn test_extended_range() {
    let eight_string = StringedConfig::guitar_8_standard();
    assert_eq!(eight_string.string_count, 8);
    assert!(eight_string.multiscale.is_some());
    assert_eq!(eight_string.midi_note(8, 0), 30);
}

#[test]
fn test_custom_tuning() {
    let custom = StringedConfig::guitar_6_standard().with_tuning(vec![36, 43, 48, 53, 57, 62]);
    assert_eq!(custom.midi_note(6, 0), 36);
}

#[test]
fn tuplet_ticks_round_down_exactly() {
    assert_eq!(RhythmValue::quarter().quintuplet().ticks(), 384);
    assert_eq!(RhythmValue::quarter().septuplet().ticks(), 274);
    assert_eq!(RhythmValue::whole().triple_dotted().ticks(), 3600);
    assert_eq!(RhythmValue::new(BaseDuration::TwoHundredFiftySixth).with_tuplet(Tuplet::custom(7, 61)).ticks(), 61);
    assert_eq!(RhythmValue::quarter().with_tuplet(Tuplet::custom(0, 3)).ticks(), u64::MAX);
    assert_eq!(RhythmValue::quarter().with_tuplet(Tuplet::custom(0, 0)).ticks(), 0);
}

#[test]
fn rhythm_symbols() {
    assert_eq!(RhythmValue::eighth().dotted().symbol(), "♪.");
    assert_eq!(RhythmValue::quarter().triplet().symbol(), "♩(3)");
    assert_eq!(RhythmValue::quarter().quintuplet().symbol(), "♩(5:4)");
    assert_eq!(Tuplet::duplet().display(), "2:3");
    assert_eq!(BaseDuration::Sixteenth.name(), "16th");
}

#[test]
fn meters_and_groupings() {
    assert!(TimeSignature::six_eight().is_compound());
    assert!(!TimeSignature::six_eight().is_simple());
    assert!(TimeSignature::waltz().is_simple());
    assert_eq!(TimeSignature::seven_eight().default_grouping(), vec![2, 2, 3]);
    assert_eq!(TimeSignature::new(17, 16).default_grouping(), vec![17]);
    assert_eq!(TimeSignature::new(3, 5).measure_ticks(), 1440);
    assert_eq!(TimeSignature::fifteen_sixteen().display(), "15/16");
    assert_eq!(TimeSignature::default().beats(), 4);
    let m = MetricModulation::dotted_to_straight();
    assert_eq!(m.old_value, BaseDuration::Quarter);
    assert!(m.old_tuplet.is_none());
    assert_eq!(Polyrhythm::custom(7, 4).display(), "7:4");
}

#[test]
fn notation_and_instrument_symbols() {
    assert_eq!(NavigationSymbol::DalSegnoAlCoda.symbol(), "D.S. al Coda");
    assert_eq!(RehearsalMark::letter('7').display(), "[7]");
    assert_eq!(RehearsalMark::Custom("Bridge".to_string()).display(), "[Bridge]");
    assert!(TremoloType::Hipshot.can_dive());
    assert!(!TremoloType::Hipshot.is_locking());
    assert!(!TremoloType::Bigsby.can_pullup());
    assert_eq!(Fingering::Ring.left_hand_symbol(), "3");
    assert_eq!(Fingering::Ring.right_hand_symbol(), "a");
    assert_eq!(KeysConfig::default().key_count, 88);
}

#[test]
fn stringed_config_edges() {
    let mut guitar = StringedConfig::guitar_6_drop_d();
    assert_eq!(guitar.tuning[0], 38);
    assert_eq!(guitar.midi_note(0, 0), 60);
    guitar = guitar.with_capo(250);
    assert_eq!(guitar.midi_note(1, 20), 255);
    assert_eq!(StringedConfig::guitar_6_standard().note_name(6, 255), "D#20");
    assert!(guitar.is_valid_string(6));
    assert!(!guitar.is_valid_string(0));
    assert!(guitar.is_valid_fret(24));
    assert!(!guitar.is_valid_fret(25));
}

#[test]
fn document_metadata_and_markers() {
    let meta = TabMetadata::default();
    assert!(meta.title.is_empty());
    assert_eq!(meta.difficulty, 0);
    let marker = SectionMarker::chorus(9);
    assert_eq!(marker.name, "Chorus");
    assert_eq!(marker.measure, 9);
    assert_eq!(KeySignature::a_minor().name(), "A");
    assert_eq!(KeySignature::new(14, false).name(), "C");
}

#[test]
fn measures_and_document_length() {
    let mut doc = TabDocument::new();
    assert!(doc.measures.is_empty());
    assert_eq!(doc.add_measure(), 0);
    assert_eq!(doc.add_measure(), 1);
    assert_eq!(doc.measures[1].number, 2);
    doc.measures[1].time_signature = Some(TimeSignature::seven_eight());
    assert_eq!(doc.measures[0].duration_ticks(), 1920);
    assert_eq!(doc.measures[1].duration_ticks(), 1680);
    assert_eq!(doc.total_ticks(), 3600);
    assert_eq!(TabMeasure::new(5).number, 5);
}
