use orpheus::project::{Clip, ClipContent, MidiNote};
use orpheus::recording::{sort_by_start, RecordingState, TrackRecordingBuffer};

// At 120 BPM and 48 kHz a tick (480 per quarter) is 50 samples.
fn ticks_of(buffer: &TrackRecordingBuffer) -> Vec<u64> {
    buffer.midi_events.iter().map(|e| (e.sample_position - buffer.start_position) / 50).collect()
}

fn finish(buffer: TrackRecordingBuffer) -> Option<Clip> {
    let ticks = ticks_of(&buffer);
    let close = (buffer.current_position - buffer.start_position) / 50;
    let end = buffer.length() / 50;
    buffer.finalize(&ticks, close, end, 1, "Recording".to_string())
}

fn stop_all(state: &mut RecordingState) -> Vec<(u128, Clip)> {
    state
        .stop()
        .into_iter()
        .filter_map(|b| {
            let id = b.track_id;
            finish(b).map(|c| (id, c))
        })
        .collect()
}

#[test]
fn test_recording_buffer() {
    let track_id = 11u128;
    let mut buffer = TrackRecordingBuffer::new(track_id, 0, 48000);

    buffer.note_on(60, 100, 0);
    buffer.note_off(60, 24000);

    let clip = finish(buffer).expect("Should create clip");
    assert_eq!(clip.start, 0);
    assert_eq!(clip.length, 24000);

    if let ClipContent::Midi { notes } = &clip.content {
        assert_eq!(notes.len(), 1);
        assert_eq!(notes[0].note, 60);
        assert_eq!(notes[0].velocity, 100);
    } else {
        panic!("Expected MIDI content");
    }
}

#[test]
fn test_recording_state() {
    let mut state = RecordingState::new();
    let track_id = 12u128;

    state.start(&vec![track_id], 0, 48000);
    assert!(state.is_recording);
    assert!(state.is_track_recording(track_id));

    state.record_note_on(track_id, 64, 80, 0);
    state.record_note_off(track_id, 64, 48000);

    let clips = stop_all(&mut state);
    assert_eq!(clips.len(), 1);
    assert_eq!(clips[0].0, track_id);
}

#[test]
fn test_empty_recording() {
    let mut state = RecordingState::new();
    let track_id = 13u128;

    state.start(&vec![track_id], 0, 48000);
    let clips = stop_all(&mut state);
    assert!(clips.is_empty());
}

#[test]
fn held_notes_end_with_the_recording() {
    let mut buffer = TrackRecordingBuffer::new(1, 1000, 48000);
    buffer.note_on(67, 90, 1000);
    buffer.note_on(60, 70, 1500);
    buffer.note_off(67, 2000);
    buffer.update_position(6000);
    let clip = finish(buffer).unwrap();
    match clip.content {
        ClipContent::Midi { notes } => {
            assert_eq!(notes.len(), 2);
            assert_eq!((notes[0].note, notes[0].start, notes[0].duration), (67, 0, 20));
            assert_eq!((notes[1].note, notes[1].start, notes[1].duration), (60, 10, 90));
        }
        _ => panic!("Expected MIDI content"),
    }
}

#[test]
fn restarted_and_unmatched_notes() {
    let mut buffer = TrackRecordingBuffer::new(1, 0, 48000);
    buffer.note_on(60, 90, 0);
    buffer.note_on(60, 95, 500);
    buffer.note_off(61, 600);
    buffer.note_off(60, 1000);
    let ticks = vec![0, 10, 12, 20];
    let notes = buffer.convert_to_notes(&ticks, 20);
    assert_eq!(notes.len(), 1);
    assert_eq!((notes[0].start, notes[0].velocity, notes[0].duration), (10, 95, 10));
    let zero = buffer.convert_to_notes(&vec![5, 5, 5, 5], 5);
    assert_eq!(zero[0].duration, 1);
}

#[test]
fn stable_sort_by_start() {
    let n = |note: u8, start: u64| MidiNote { note, velocity: 1, start, duration: 1 };
    let sorted = sort_by_start(vec![n(1, 5), n(2, 3), n(3, 5), n(4, 0)]);
    let order: Vec<u8> = sorted.iter().map(|x| x.note).collect();
    assert_eq!(order, vec![4, 2, 1, 3]);
}

#[test]
fn recording_state_routing() {
    let mut state = RecordingState::new();
    state.start(&vec![5, 6, 5], 0, 44100);
    assert_eq!(state.buffers.len(), 2);
    state.record_note_on(6, 40, 100, 10);
    state.record_note_on(9, 40, 100, 10);
    assert_eq!(state.event_count(6), 1);
    assert_eq!(state.event_count(5), 0);
    assert_eq!(state.event_count(9), 0);
    state.update_position(99);
    assert!(state.buffers.iter().all(|b| b.current_position == 99));
    let buffers = state.stop();
    assert_eq!(buffers.len(), 2);
    assert!(!state.is_track_recording(6));
}
