use orpheus::engine::note_to_name;
use orpheus::config::{AudioSettings, MidiSettings, ProjectSettings};
use orpheus::effects::{
    parse_usize, route_effect_update, CompressorParam, DelayParam, EffectTarget, EqParam, ReverbParam,
};
use orpheus::engine::{EngineState, EngineTransport, TransportAction, TransportEvent};
use orpheus::notifications::{NotificationLevel, NotificationState};
use orpheus::recording::TrackRecordingBuffer;

#[test]
fn effect_routing() {
    assert_eq!(route_effect_update("eq", "band2_gain"), Ok(EffectTarget::EqBand(2, EqParam::Gain)));
    assert_eq!(route_effect_update("eq", "band+0_q"), Ok(EffectTarget::EqBand(0, EqParam::Q)));
    assert_eq!(route_effect_update("eq", "band4_freq"), Err("EQ band must be 0-3".to_string()));
    assert_eq!(route_effect_update("eq", "band4_bogus"), Err("EQ band must be 0-3".to_string()));
    assert_eq!(route_effect_update("eq", "band1_width"), Err("Unknown EQ parameter".to_string()));
    assert_eq!(route_effect_update("eq", "bandx_gain"), Ok(EffectTarget::Ignored));
    assert_eq!(route_effect_update("eq", "band1"), Ok(EffectTarget::Ignored));
    assert_eq!(route_effect_update("eq", "enabled"), Ok(EffectTarget::EqEnabled));
    assert_eq!(route_effect_update("eq", "volume"), Ok(EffectTarget::Ignored));
    assert_eq!(route_effect_update("compressor", "knee"), Ok(EffectTarget::Compressor(CompressorParam::Knee)));
    assert_eq!(route_effect_update("compressor", "enabled"), Ok(EffectTarget::CompressorEnabled));
    assert_eq!(route_effect_update("compressor", "mix"), Err("Unknown compressor parameter".to_string()));
    assert_eq!(route_effect_update("reverb", "mix"), Ok(EffectTarget::Reverb(ReverbParam::WetDry)));
    assert_eq!(route_effect_update("reverb", "time"), Err("Unknown reverb parameter".to_string()));
    assert_eq!(route_effect_update("delay", "time"), Ok(EffectTarget::Delay(DelayParam::Time)));
    assert_eq!(route_effect_update("delay", "decay"), Err("Unknown delay parameter".to_string()));
    assert_eq!(route_effect_update("chorus", "rate"), Err("Unknown effect: chorus".to_string()));
}

#[test]
fn decimal_parsing_matches_std() {
    for s in ["0", "7", "+12", "007", "", "+", "-1", "1a", "18446744073709551615", "18446744073709551616", "99999999999999999999"] {
        let chars: Vec<char> = s.chars().collect();
        assert_eq!(parse_usize(&chars), s.parse::<usize>().ok(), "input {:?}", s);
    }
}

#[test]
fn transport_decisions() {
    let mut t = EngineTransport::new();
    assert!(matches!(t.handle(TransportEvent::Seek(500)), TransportAction::SeekPlayback(500)));
    assert!(matches!(t.handle(TransportEvent::Play), TransportAction::StartPlayback));
    assert_eq!(t.state, EngineState::Playing);
    assert_eq!(t.position, 500);
    assert!(matches!(t.handle(TransportEvent::StartRecording), TransportAction::RefuseRecording));
    assert!(matches!(t.handle(TransportEvent::ArmTrack(7)), TransportAction::ReportArmed(7, true)));
    assert!(matches!(t.handle(TransportEvent::ArmTrack(7)), TransportAction::Nothing));
    assert!(matches!(t.handle(TransportEvent::ArmTrack(9)), TransportAction::ReportArmed(9, true)));
    assert_eq!(t.armed_tracks, vec![7, 9]);
    assert!(matches!(t.handle(TransportEvent::RecordNote), TransportAction::Nothing));
    match t.handle(TransportEvent::StartRecording) {
        TransportAction::BeginRecording(tracks, at) => assert_eq!((tracks, at), (vec![7, 9], 500)),
        _ => panic!("recording expected"),
    }
    assert!(t.recording);
    assert!(matches!(t.handle(TransportEvent::RecordNote), TransportAction::RouteNote(7)));
    assert!(matches!(t.handle(TransportEvent::StopRecording), TransportAction::EndRecording));
    assert_eq!(t.state, EngineState::Stopped);
    assert_eq!(t.position, 500);
    assert!(!t.recording);
    assert!(matches!(t.handle(TransportEvent::DisarmTrack(7)), TransportAction::ReportArmed(7, false)));
    assert_eq!(t.armed_tracks, vec![9]);
    assert!(matches!(t.handle(TransportEvent::Pause), TransportAction::PausePlayback));
    assert!(matches!(t.handle(TransportEvent::Stop), TransportAction::StopPlayback));
    assert_eq!(t.position, 0);
}

#[test]
fn recent_projects() {
    let mut p = ProjectSettings::new("/music");
    assert_eq!(p.max_recent, 10);
    for i in 0..12 {
        p.add_recent_project(&format!("/music/{}.orph", i));
    }
    assert_eq!(p.recent_projects.len(), 10);
    assert_eq!(p.recent_projects[0], "/music/11.orph");
    p.add_recent_project("/music/5.orph");
    assert_eq!(p.recent_projects[0], "/music/5.orph");
    assert_eq!(p.recent_projects.len(), 10);
    assert_eq!(p.recent_projects.iter().filter(|r| r.as_str() == "/music/5.orph").count(), 1);
    assert_eq!(AudioSettings::default().buffer_size, 512);
    assert!(!MidiSettings::default().sync_enabled);
}

#[test]
fn notifications_expire() {
    let mut n = NotificationState::new();
    n.info("saved", 1000);
    n.error("failed", 4000);
    n.cleanup(5999);
    assert_eq!(n.notifications.len(), 2);
    n.cleanup(6000);
    assert_eq!(n.notifications.len(), 1);
    assert_eq!(n.notifications[0].message, "failed");
    assert_eq!(n.notifications[0].level.icon(), "✕");
    assert_eq!(NotificationLevel::Success.rgb(), (52, 168, 83));
}

#[test]
fn recording_buffer() {
    let mut b = TrackRecordingBuffer::new(1, 100, 48000);
    assert_eq!(b.length(), 0);
    b.note_on(60, 90, 150);
    b.note_on(64, 80, 160);
    b.note_off(60, 200);
    assert_eq!(b.midi_events.len(), 3);
    assert!(!b.held_notes.contains_key(&60));
    assert_eq!(b.held_notes.get(&64), Some(&160));
    assert_eq!(b.length(), 100);
    b.update_position(50);
    assert_eq!(b.length(), 0);
}

#[test]
fn midi_note_names() {
    assert_eq!(note_to_name(60), "C4");
    assert_eq!(note_to_name(0), "C-1");
    assert_eq!(note_to_name(11), "B-1");
    assert_eq!(note_to_name(127), "G9");
    assert_eq!(note_to_name(255), "D#20");
}
