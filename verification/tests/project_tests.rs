use orpheus::compression::{BuiltinDictionary, CompressionDictionary, CompressionError, DictionaryTrainer};
use orpheus::project::{Project, ProjectError, ProjectPayload, Track, TrackType, InputSource};
use orpheus::state::{MixerState, ProductionMode, SelectionState, TransportState, ChannelColor};

#[test]
fn test_try_train_with_insufficient_samples() {
    let mut trainer = DictionaryTrainer::new();
    trainer.add_sample(b"small");
    let result = trainer.try_train();
    assert!(result.is_none());
}

#[test]
fn test_insufficient_samples() {
    let mut trainer = DictionaryTrainer::new();
    trainer.add_sample(b"small sample");
    trainer.add_sample(b"another small sample");

    assert!(!trainer.has_sufficient_samples());

    let result = trainer.train();
    assert!(matches!(result, Err(CompressionError::InsufficientSamples { .. })));
}

#[test]
fn trainer_counts_and_refusal() {
    let mut trainer = DictionaryTrainer::new();
    trainer.add_sample(b"one");
    trainer.add_sample(b"");
    assert_eq!(trainer.sample_count(), 1);
    assert_eq!(trainer.total_sample_size(), 3);
    match trainer.train() {
        Err(e) => assert_eq!(e.message(), "Insufficient training samples: have 1 samples, need at least 5"),
        Ok(_) => panic!("insufficient samples expected"),
    }
}

fn sample_project_json(id: usize) -> Vec<u8> {
    let mut tracks = String::new();
    for t in 0..8 {
        let mut notes = String::new();
        for n in 0..50 {
            if !notes.is_empty() {
                notes.push_str(", ");
            }
            notes.push_str(&format!(
                "{{\"note\": {}, \"velocity\": {}, \"start\": {}, \"duration\": 480}}",
                60 + (n % 12),
                80 + (n % 40),
                n * 480
            ));
        }
        if !tracks.is_empty() {
            tracks.push_str(", ");
        }
        tracks.push_str(&format!(
            "\"550e8400-e29b-41d4-a716-44665544{:04}\": {{\"name\": \"Track {} - {}\", \"track_type\": \"Midi\", \"clips\": [{{\"content\": {{\"Midi\": {{\"notes\": [{}]}}}}}}]}}",
            t, t, id, notes
        ));
    }
    format!("{{\"format_version\": \"1.0\", \"metadata\": {{\"name\": \"Test Project {}\"}}, \"tracks\": {{{}}}}}", id, tracks).into_bytes()
}

#[test]
fn trained_dictionary_round_trips() {
    let mut trainer = DictionaryTrainer::new().with_compression_level(5);
    for i in 0..10 {
        trainer.add_sample(&sample_project_json(i));
    }
    assert!(trainer.has_sufficient_samples());
    let dictionary = trainer.train().unwrap();
    assert_eq!(dictionary.compression_level(), 5);
    assert!(dictionary.size() > 0);
    let data = sample_project_json(42);
    let compressed = dictionary.compress(&data).unwrap();
    assert!(compressed.len() < data.len());
    assert_eq!(dictionary.decompress(&compressed).unwrap(), data);
    let framed = Project::frame_with_dictionary(&data, &dictionary).unwrap();
    assert!(Project::header_requires_dictionary(&framed));
    assert!(matches!(Project::unframe(framed.clone(), None), Err(ProjectError::DictionaryRequired)));
    match Project::unframe(framed, Some(&dictionary)).unwrap() {
        ProjectPayload::Decompressed(bytes) => assert_eq!(bytes, data),
        _ => panic!("compressed payload expected"),
    }
}

#[test]
fn test_unsupported_version() {
    let mut data = Vec::new();
    data.extend_from_slice(b"ORPH");
    data.push(255);
    data.extend_from_slice(b"fake compressed data");
    let result = Project::unframe(data, None);
    assert!(matches!(result, Err(ProjectError::UnsupportedVersion(255))));
}

#[test]
fn dictionary_file_round_trip() {
    let dict = CompressionDictionary::from_bytes_with_level(vec![1, 2, 3, 4, 5, 6], 40);
    assert_eq!(dict.compression_level(), 22);
    let file = dict.to_file_bytes();
    assert_eq!(&file[0..5], b"ODIC\x01");
    let loaded = CompressionDictionary::from_file_bytes(file).unwrap();
    assert_eq!(loaded.as_bytes(), &[1, 2, 3, 4, 5, 6]);
    assert_eq!(loaded.compression_level(), 3);
    let raw = CompressionDictionary::from_file_bytes(b"rawdictionary".to_vec()).unwrap();
    assert_eq!(raw.size(), 13);
    match CompressionDictionary::from_file_bytes(b"ODI".to_vec()) {
        Err(e) => assert_eq!(e.message(), "Invalid dictionary: File too small"),
        Ok(_) => panic!("too small"),
    }
    match CompressionDictionary::from_file_bytes(b"ODIC\x07abc".to_vec()) {
        Err(e) => assert_eq!(e.message(), "Invalid dictionary: Unsupported dictionary version: 7 (max: 1)"),
        Ok(_) => panic!("bad version"),
    }
    assert_eq!(BuiltinDictionary::file_name(BuiltinDictionary::MIDI_DICTIONARY_ID), "orpheus-midi-v1.dict");
}

#[test]
fn project_container_round_trip() {
    let json = br#"{"format_version":"1.0"}"#.to_vec();
    let framed = Project::frame_compressed(&json).unwrap();
    assert_eq!(&framed[0..5], b"ORPH\x01");
    assert!(!Project::header_requires_dictionary(&framed));
    match Project::unframe(framed, None).unwrap() {
        ProjectPayload::Decompressed(bytes) => assert_eq!(bytes, json),
        _ => panic!("compressed payload expected"),
    }
    match Project::unframe(json.clone(), None).unwrap() {
        ProjectPayload::PlainJson(bytes) => assert_eq!(bytes, json),
        _ => panic!("plain payload expected"),
    }
    match Project::unframe(b"ORPH\x09xyz".to_vec(), None) {
        Err(ProjectError::UnsupportedVersion(9)) => {}
        _ => panic!("unsupported version expected"),
    }
    match Project::unframe(b"ORPH\x02xyz".to_vec(), None) {
        Err(ProjectError::DictionaryRequired) => {}
        _ => panic!("dictionary required expected"),
    }
    assert!(Project::header_requires_dictionary(b"ORPH\x02"));
    assert!(!Project::header_requires_dictionary(b"ORP"));
    match Project::unframe(b"ORPH\x01not zstd".to_vec(), None) {
        Err(ProjectError::Compression(_)) => {}
        _ => panic!("compression error expected"),
    }
}

#[test]
fn dictionary_compression_round_trip() {
    let dict = CompressionDictionary::from_bytes(b"track clip notes velocity start duration".to_vec());
    let data = b"track clip notes track clip notes velocity".to_vec();
    let compressed = dict.compress(&data).unwrap();
    assert_ne!(compressed, data);
    assert_eq!(dict.decompress(&compressed).unwrap(), data);
    let framed = Project::frame_with_dictionary(&data, &dict).unwrap();
    assert_eq!(&framed[0..5], b"ORPH\x02");
    match Project::unframe(framed, Some(&dict)).unwrap() {
        ProjectPayload::Decompressed(bytes) => assert_eq!(bytes, data),
        _ => panic!("compressed payload expected"),
    }
}

#[test]
fn project_tracks() {
    let mut project = Project::new("Song");
    assert_eq!(project.sample_rate, 48000);
    assert_eq!(project.format_version, "1.0");
    let a = project.add_track(Track::new("Drums", TrackType::Midi));
    let b = project.add_track(Track::audio("Vox"));
    assert_eq!(project.track_count(), 2);
    let ordered: Vec<String> = project.tracks_ordered().iter().map(|t| t.name.clone()).collect();
    assert_eq!(ordered, vec!["Drums".to_string(), "Vox".to_string()]);
    let removed = project.remove_track(a).unwrap();
    assert_eq!(removed.name, "Drums");
    assert_eq!(project.get_track(b).unwrap().order, 0);
    assert!(project.remove_track(a).is_none());
    let t = project.get_track_mut(b).unwrap();
    t.toggle_record_arm();
    t.set_input_source(InputSource::AudioInput);
    assert!(project.get_track(b).unwrap().record_armed);
    assert_eq!(project.get_track(b).unwrap().input_source, InputSource::AudioInput);
}

#[test]
fn state_basics() {
    let mut mixer = MixerState::new();
    let id = mixer.add_channel("Kick");
    mixer.add_channel("Snare");
    assert_eq!(mixer.channels[1].color, ChannelColor::Green);
    assert!(mixer.is_audible(id));
    mixer.get_channel_mut(id).unwrap().solo = true;
    assert!(mixer.any_soloed());
    assert!(mixer.get_channel(id).unwrap().solo);
    assert!(mixer.get_channel_mut(999).is_none());
    assert!(mixer.remove_channel(id).is_some());
    assert_eq!(mixer.channels.len(), 1);

    let mut sel = SelectionState::new();
    sel.toggle_track(3);
    assert!(sel.is_track_selected(3));
    sel.toggle_track(3);
    assert!(!sel.is_track_selected(3));

    let mut transport = TransportState::new();
    transport.play();
    assert!(transport.is_playing);
    transport.stop();
    assert!(!transport.is_playing);
    assert_eq!(ProductionMode::default_mode(), ProductionMode::Compose);
    assert_eq!(ProductionMode::all().len(), 8);
}
