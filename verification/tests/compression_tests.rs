use orpheus::compression::DictionaryTrainer;
use orpheus::project::{Project, ProjectError};

fn generate_sample_project_data(id: usize) -> Vec<u8> {
    // Generate realistic-looking project JSON with enough data for training
    // Each project needs to be ~10-15KB to meet the 100KB minimum with 10 samples
    let mut tracks_json = String::new();
    let mut track_order = Vec::new();

    // Generate 8 tracks with clips
    for track_idx in 0..8 {
        let track_uuid = format!("550e8400-e29b-41d4-a716-44665544{:04}", track_idx);
        track_order.push(format!("\"{}\"", track_uuid));

        // Generate notes for MIDI clips
        let mut notes_json = String::new();
        for note_idx in 0..50 {
            if !notes_json.is_empty() {
                notes_json.push_str(",\n                                            ");
            }
            notes_json.push_str(&format!(
                r#"{{"note": {}, "velocity": {}, "start": {}, "duration": {}}}"#,
                60 + (note_idx % 12),
                80 + (note_idx % 40),
                note_idx * 480,
                480
            ));
        }

        if !tracks_json.is_empty() {
            tracks_json.push_str(",\n                    ");
        }

        tracks_json.push_str(&format!(
            r#""{track_id}": {{
                    "id": "{track_id}",
                    "name": "Track {track_num} - {project_id}",
                    "track_type": "Midi",
                    "order": {track_num},
                    "clips": [
                        {{
                            "id": "{track_id}-clip-1",
                            "name": "Clip 1 on Track {track_num}",
                            "start": 0,
                            "length": 192000,
                            "content": {{
                                "Midi": {{
                                    "notes": [
                                        {notes}
                                    ]
                                }}
                            }}
                        }},
                        {{
                            "id": "{track_id}-clip-2",
                            "name": "Clip 2 on Track {track_num}",
                            "start": 192000,
                            "length": 96000,
                            "content": {{
                                "Midi": {{
                                    "notes": [
                                        {notes}
                                    ]
                                }}
                            }}
                        }}
                    ],
                    "record_armed": false,
                    "input_source": "None"
                }}"#,
            track_id = track_uuid,
            track_num = track_idx,
            project_id = id,
            notes = notes_json
        ));
    }

    let json = format!(
        r#"{{
            "format_version": "1.0",
            "metadata": {{
                "name": "Test Project {id}",
                "artist": "Test Artist for Project {id}",
                "album": "Test Album Collection",
                "genre": "Electronic Music",
                "created_at": "2024-01-{day:02}T10:30:00Z",
                "modified_at": "2024-01-{day:02}T12:45:00Z",
                "notes": "This is test project number {id}. It contains multiple tracks with MIDI clips and various note patterns. The project demonstrates the typical structure of an Orpheus music project file."
            }},
            "tracks": {{
                {tracks}
            }},
            "track_order": [{track_order}],
            "sample_rate": 48000,
            "tempo": {tempo}
        }}"#,
        id = id,
        day = (id % 28) + 1,
        tracks = tracks_json,
        track_order = track_order.join(", "),
        tempo = 100.0 + (id as f64 * 5.0)
    );
    json.into_bytes()
}


// A project's JSON as a project file holds it: one audio and one MIDI track.
fn project_json(name: &str, tempo: f64) -> Vec<u8> {
    format!(
        r#"{{"format_version":"1.0","metadata":{{"name":"{}","artist":"Test Artist","album":"","genre":"","created_at":"2024-01-01T10:30:00Z","modified_at":"2024-01-01T10:30:00Z","notes":""}},"tracks":{{"550e8400-e29b-41d4-a716-446655440000":{{"id":"550e8400-e29b-41d4-a716-446655440000","name":"Audio 1","track_type":"Audio","order":0,"clips":[],"record_armed":false,"input_source":"None"}},"550e8400-e29b-41d4-a716-446655440001":{{"id":"550e8400-e29b-41d4-a716-446655440001","name":"MIDI 1","track_type":"Midi","order":1,"clips":[],"record_armed":false,"input_source":"None"}}}},"track_order":["550e8400-e29b-41d4-a716-446655440000","550e8400-e29b-41d4-a716-446655440001"],"sample_rate":48000,"tempo":{}}}"#,
        name, tempo
    )
    .into_bytes()
}

fn empty_project_json(name: &str) -> Vec<u8> {
    format!(
        r#"{{"format_version":"1.0","metadata":{{"name":"{}","artist":"","album":"","genre":"","created_at":"2024-01-01T10:30:00Z","modified_at":"2024-01-01T10:30:00Z","notes":""}},"tracks":{{}},"track_order":[],"sample_rate":48000,"tempo":120.0}}"#,
        name
    )
    .into_bytes()
}

#[test]
fn test_dictionary_training() {
    let mut trainer = DictionaryTrainer::new();
    for i in 0..10 {
        let sample = generate_sample_project_data(i);
        trainer.add_sample(&sample);
    }
    assert_eq!(trainer.sample_count(), 10);
    assert!(trainer.has_sufficient_samples());
    let dictionary = trainer.train().unwrap();
    assert!(dictionary.size() > 0);
}

#[test]
fn test_dictionary_compression() {
    let mut trainer = DictionaryTrainer::new();
    for i in 0..10 {
        trainer.add_sample(&generate_sample_project_data(i));
    }
    let dictionary = trainer.train().unwrap();
    let test_data = generate_sample_project_data(100);
    let compressed = dictionary.compress(&test_data).unwrap();
    let decompressed = dictionary.decompress(&compressed).unwrap();
    assert_eq!(test_data, decompressed);
}

#[test]
fn test_compression_levels() {
    let mut trainer = DictionaryTrainer::new();
    for i in 0..10 {
        trainer.add_sample(&generate_sample_project_data(i));
    }
    let dictionary = trainer.train().unwrap();
    let test_data = generate_sample_project_data(100);
    let fast = dictionary.compress_with_level(&test_data, 1).unwrap();
    let default = dictionary.compress_with_level(&test_data, 3).unwrap();
    let high = dictionary.compress_with_level(&test_data, 9).unwrap();
    assert!(fast.len() >= default.len() || fast.len() >= high.len());
    for compressed in [fast, default, high] {
        let decompressed = dictionary.decompress(&compressed).unwrap();
        assert_eq!(test_data, decompressed);
    }
}

#[test]
fn test_requires_dictionary() {
    let json = project_json("Test Project", 140.0);
    // Standard compression
    let standard = Project::frame_compressed(&json).unwrap();
    assert!(!Project::header_requires_dictionary(&standard[..5.min(standard.len())]));
    // JSON format
    assert!(!Project::header_requires_dictionary(&json[..5]));
    // Dictionary compression
    let mut trainer = DictionaryTrainer::new();
    for i in 0..10 {
        trainer.add_sample(&empty_project_json(&format!("Training {}", i)));
    }
    let dictionary = trainer.train().unwrap();
    let framed = Project::frame_with_dictionary(&json, &dictionary).unwrap();
    assert!(Project::header_requires_dictionary(&framed[..5]));
}

#[test]
fn test_dictionary_required_error() {
    let mut trainer = DictionaryTrainer::new();
    for i in 0..10 {
        trainer.add_sample(&empty_project_json(&format!("Training {}", i)));
    }
    let dictionary = trainer.train().unwrap();
    let framed = Project::frame_with_dictionary(&project_json("Test Project", 140.0), &dictionary).unwrap();
    let result = Project::unframe(framed, None);
    assert!(matches!(result, Err(ProjectError::DictionaryRequired)));
}

#[test]
fn compression_stats_sizes() {
    let data: Vec<u8> = b"{\"track\":\"Lead\",\"notes\":[60,62,64]}".repeat(40);
    let plain = orpheus::compression::CompressionStats::calculate(&data, None, 3).unwrap();
    assert_eq!(plain.original_size, data.len());
    assert_eq!(plain.compressed_size, zstd::encode_all(&data[..], 3).unwrap().len());
    assert!(plain.compressed_size < data.len());
    assert!(plain.dict_compressed_size.is_none());

    let dict = orpheus::compression::CompressionDictionary::from_bytes(b"{\"track\":\"Lead\",\"notes\":[".repeat(8));
    let with = orpheus::compression::CompressionStats::calculate(&data, Some(&dict), 3).unwrap();
    assert_eq!(with.compressed_size, plain.compressed_size);
    assert_eq!(with.dict_compressed_size, Some(dict.compress(&data).unwrap().len()));
}
