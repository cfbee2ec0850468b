use orpheus::playback::{ClipPlaybackEngine, ScheduledMidiEvent};
use orpheus::project::{Clip, ClipContent, MidiNote, Track, TrackType};

// Tick to sample conversion at a tempo (480 ticks per quarter note).
fn ticks_to_samples(sample_rate: u32, tempo: f64, ticks: u64) -> u64 {
    let beats = ticks as f64 / 480.0;
    let seconds = beats * 60.0 / tempo;
    (seconds * sample_rate as f64) as u64
}

fn clip_events(track: &Track, sample_rate: u32, tempo: f64) -> Vec<ScheduledMidiEvent> {
    let mut events = Vec::new();
    for clip in &track.clips {
        if let ClipContent::Midi { notes } = &clip.content {
            for note in notes {
                let start = clip.start + ticks_to_samples(sample_rate, tempo, note.start);
                let end = clip.start + ticks_to_samples(sample_rate, tempo, note.start + note.duration);
                events.push(ScheduledMidiEvent { track_id: track.id, note: note.note, velocity: note.velocity, sample_position: start, is_note_on: true });
                events.push(ScheduledMidiEvent { track_id: track.id, note: note.note, velocity: 0, sample_position: end, is_note_on: false });
            }
        }
    }
    events
}

#[test]
fn test_clip_playback() {
    let mut engine = ClipPlaybackEngine::new(48000);

    let mut track = Track::new("Test", TrackType::Midi);
    track.clips.push(Clip {
        id: 5,
        name: "Test Clip".into(),
        start: 0,
        length: 48000,
        content: ClipContent::Midi { notes: vec![MidiNote { note: 60, velocity: 100, start: 0, duration: 480 }] },
    });

    engine.load_events(clip_events(&track, 48000, 120.0));
    assert_eq!(engine.event_count(), 2);

    engine.play();

    let events = engine.process_frame(128);
    assert_eq!(events.len(), 1);
    assert!(events[0].is_note_on);
    assert_eq!(events[0].note, 60);
}

#[test]
fn frames_seek_and_stop() {
    let ev = |pos: u64, note: u8| ScheduledMidiEvent { track_id: 1, note, velocity: 1, sample_position: pos, is_note_on: true };
    let mut engine = ClipPlaybackEngine::new(44100);
    engine.load_events(vec![ev(300, 3), ev(100, 1), ev(200, 2), ev(100, 4)]);
    let order: Vec<u8> = engine.scheduled_events.iter().map(|e| e.note).collect();
    assert_eq!(order, vec![1, 4, 2, 3]);
    assert!(engine.process_frame(1000).is_empty());
    engine.play();
    let first = engine.process_frame(150);
    assert_eq!(first.len(), 2);
    assert_eq!(engine.position(), 150);
    assert_eq!(engine.remaining_events(), 2);
    engine.seek(250);
    assert_eq!(engine.remaining_events(), 1);
    assert_eq!(engine.process_frame(100)[0].note, 3);
    engine.stop();
    assert!(!engine.is_playing());
    assert_eq!(engine.position(), 0);
    assert_eq!(engine.remaining_events(), 4);
}
