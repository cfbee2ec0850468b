use orpheus::ai::client::{leviathan_prompt, outcome_response, suggestion_alternatives, task_description, task_outcome, TaskOutcome};
use orpheus::ai::client::ConversationStore;
use orpheus::ai::client::{
    fallback_response, mock_response, suggested_next_chord, suggestion_explanation, AiMessage,
    AiRequest, AiResponse, Conversation, MessageRole, TokenUsage,
};
use orpheus::ai::context::{Chord, ChordProgression, ChordType, Genre, Key, TimeSignature};
use orpheus::ai::graphql::HealthStatus;
use orpheus::ai::infernum::ChatMessage;
use orpheus::ai::{AiProvider, Error, Persona};

#[test]
fn test_ai_message_creation() {
    let user_msg = AiMessage::user("What chord comes after G?");
    assert_eq!(user_msg.role, MessageRole::User);
    assert_eq!(user_msg.content, "What chord comes after G?");
    assert!(!user_msg.id.is_empty());

    let assistant_msg = AiMessage::assistant("You could try C major or D major.");
    assert_eq!(assistant_msg.role, MessageRole::Assistant);

    let system_msg = AiMessage::system("You are a music theory tutor.");
    assert_eq!(system_msg.role, MessageRole::System);
}

#[test]
fn test_ai_request_builder() {
    let request = AiRequest::new(Persona::MusicTheoryTutor)
        .with_message(AiMessage::user("Explain the circle of fifths"))
        .with_context("key", "C major")
        .with_context("tempo", "120");

    assert_eq!(request.persona, Persona::MusicTheoryTutor);
    assert_eq!(request.messages.len(), 1);
    assert_eq!(request.context.len(), 2);
    assert_eq!(request.context_value("key"), Some(&"C major".to_string()));
}

#[test]
fn test_token_usage() {
    let usage = TokenUsage { input_tokens: 100, output_tokens: 50 };
    assert_eq!(usage.total(), 150);
}

#[test]
fn test_ai_response_structure() {
    let response = AiResponse {
        request_id: "test-123".to_string(),
        content: "This is a test response".to_string(),
        is_chunk: false,
        is_complete: true,
        usage: Some(TokenUsage { input_tokens: 10, output_tokens: 5 }),
    };

    assert_eq!(response.request_id, "test-123");
    assert!(response.is_complete);
    assert!(!response.is_chunk);
    assert_eq!(response.usage.unwrap().total(), 15);
}

#[test]
fn test_conversation() {
    let mut conv = Conversation::new(Persona::MixingEngineer);
    assert!(conv.is_empty());
    assert_eq!(conv.len(), 0);
    assert_eq!(conv.persona, Persona::MixingEngineer);

    conv.add_message(AiMessage::user("How do I EQ vocals?"));
    conv.add_message(AiMessage::assistant("Start with a high-pass filter around 80Hz..."));

    assert_eq!(conv.len(), 2);
    assert!(!conv.is_empty());

    let request = conv.to_request();
    assert_eq!(request.messages.len(), 2);
    assert_eq!(request.persona, Persona::MixingEngineer);

    conv.clear();
    assert!(conv.is_empty());
}

#[test]
fn test_key_properties() {
    assert!(Key::CMajor.is_major());
    assert!(!Key::CMajor.is_minor());
    assert!(Key::AMinor.is_minor());
    assert!(!Key::AMinor.is_major());
}

#[test]
fn test_key_relative() {
    assert_eq!(Key::CMajor.relative(), Key::AMinor);
    assert_eq!(Key::AMinor.relative(), Key::CMajor);
    assert_eq!(Key::GMajor.relative(), Key::EMinor);
    assert_eq!(Key::EMinor.relative(), Key::GMajor);
}

#[test]
fn test_chord_display() {
    let c = Chord::new("C", ChordType::Major);
    assert_eq!(c.display_name(), "C");

    let am = Chord::new("A", ChordType::Minor);
    assert_eq!(am.display_name(), "Am");

    let g7 = Chord::new("G", ChordType::Dominant7);
    assert_eq!(g7.display_name(), "G7");

    let cmaj7 = Chord::new("C", ChordType::Major7);
    assert_eq!(cmaj7.display_name(), "Cmaj7");

    let c_over_g = Chord::new("C", ChordType::Major).with_bass("G");
    assert_eq!(c_over_g.display_name(), "C/G");
}

#[test]
fn context_test_time_signature() {
    let common = TimeSignature::common();
    assert_eq!(common.numerator, 4);
    assert_eq!(common.denominator, 4);
    assert_eq!(common.display(), "4/4");

    let waltz = TimeSignature::waltz();
    assert_eq!(waltz.display(), "3/4");
}

#[test]
fn test_genre_display() {
    assert_eq!(Genre::Jazz.display_name(), "Jazz");
    assert_eq!(Genre::RnB.display_name(), "R&B");
    assert_eq!(Genre::HipHop.display_name(), "Hip Hop");
}

#[test]
fn test_health_status() {
    let status = HealthStatus { status: "UP".to_string(), timestamp: Some(1234567890), checks: None };
    assert!(status.is_healthy());

    let status_down = HealthStatus { status: "DOWN".to_string(), timestamp: None, checks: None };
    assert!(!status_down.is_healthy());
}

#[test]
fn test_chat_message_constructors() {
    let system = ChatMessage::system("You are helpful");
    assert_eq!(system.role, "system");
    assert_eq!(system.content, "You are helpful");

    let user = ChatMessage::user("Hello");
    assert_eq!(user.role, "user");

    let assistant = ChatMessage::assistant("Hi there!");
    assert_eq!(assistant.role, "assistant");
}

#[test]
fn test_persona_display_name() {
    assert_eq!(Persona::MusicComposer.display_name(), "Music Composer");
    assert_eq!(Persona::GuitarCoach.display_name(), "Guitar Coach");
    assert_eq!(Persona::MixingEngineer.display_name(), "Mixing Engineer");
}

#[test]
fn test_persona_grimoire_id() {
    assert_eq!(Persona::MusicComposer.grimoire_id(), "music-composer");
    assert_eq!(Persona::MusicTheoryTutor.grimoire_id(), "music-theory-tutor");
}

#[test]
fn test_persona_all() {
    let all = Persona::all();
    assert_eq!(all.len(), 7);
    assert!(all.contains(&Persona::MusicComposer));
    assert!(all.contains(&Persona::GuitarCoach));
}

#[test]
fn test_persona_description() {
    assert!(!Persona::MusicComposer.description().is_empty());
    assert!(Persona::MixingEngineer.description().contains("mixing"));
}

#[test]
fn test_persona_default() {
    assert_eq!(Persona::default(), Persona::MusicComposer);
}

#[test]
fn test_persona_display_trait() {
    let persona = Persona::GuitarCoach;
    assert_eq!(persona.display_name(), "Guitar Coach");
}

#[test]
fn test_error_types() {
    let err = Error::NotConnected;
    assert!(err.message().contains("Not connected"));

    let err = Error::ConnectionError("timeout".to_string());
    assert!(err.message().contains("timeout"));

    let err = Error::PersonaNotFound("unknown".to_string());
    assert!(err.message().contains("unknown"));
}

#[test]
fn error_messages_are_exact() {
    assert_eq!(Error::Timeout.message(), "Request timed out");
    assert_eq!(Error::RequestFailed("x".to_string()).message(), "AI request failed: x");
    assert_eq!(Error::InvalidResponse("y".to_string()).message(), "Invalid response: y");
}

#[test]
fn provider_properties() {
    assert!(!AiProvider::Leviathan.is_local());
    assert!(AiProvider::Infernum.is_local());
    assert!(AiProvider::Mock.is_local());
    assert_eq!(AiProvider::default(), AiProvider::Leviathan);
    assert_eq!(AiProvider::Infernum.display_name(), "Infernum (Local)");
}

#[test]
fn persona_prompt_prefix() {
    assert_eq!(
        Persona::GuitarCoach.system_prompt_prefix(),
        "You are a friendly guitar coach. Help with technique, chord voicings, scales, and practice strategies."
    );
}

#[test]
fn relative_key_twice_is_identity_except_c_sharp_major() {
    let keys = [
        Key::CMajor, Key::GMajor, Key::DMajor, Key::AMajor, Key::EMajor, Key::BMajor,
        Key::FSharpMajor, Key::FMajor, Key::BFlatMajor, Key::EFlatMajor, Key::AFlatMajor,
        Key::DFlatMajor, Key::GFlatMajor, Key::AMinor, Key::EMinor, Key::BMinor,
        Key::FSharpMinor, Key::CSharpMinor, Key::GSharpMinor, Key::DSharpMinor, Key::DMinor,
        Key::GMinor, Key::CMinor, Key::FMinor, Key::BFlatMinor, Key::EFlatMinor,
    ];
    for k in keys {
        assert_eq!(k.relative().relative(), k);
        assert_eq!(k.relative().is_major(), !k.is_major());
    }
    assert_eq!(Key::CSharpMajor.relative(), Key::BFlatMinor);
    assert_eq!(Key::CSharpMajor.relative().relative(), Key::DFlatMajor);
}

#[test]
fn context_entries_replace_by_key() {
    let request = AiRequest::new(Persona::MusicComposer)
        .with_context("key", "C major")
        .with_context("key", "G major");
    assert_eq!(request.context.len(), 1);
    assert_eq!(request.context_value("key"), Some(&"G major".to_string()));
    assert_eq!(request.context_value("tempo"), None);
}

#[test]
fn mock_and_fallback_replies() {
    let request = AiRequest::new(Persona::GuitarCoach);
    let mock = mock_response(&request);
    assert_eq!(mock.request_id, request.id);
    assert_eq!(
        mock.content,
        "[Guitar Coach] I would help with your music question, but I'm currently in mock mode."
    );
    assert_eq!(mock.usage.unwrap().total(), 75);
    let fallback = fallback_response(&request);
    assert!(fallback.content.starts_with("[Guitar Coach] I apologize"));
    assert!(fallback.usage.is_none());
    assert!(fallback.is_complete);
}

#[test]
fn next_chord_follows_the_circle_of_fifths() {
    let g = Chord::g_major();
    assert_eq!(suggested_next_chord(Some(&g)).root, "D");
    assert_eq!(suggested_next_chord(Some(&Chord::new("F", ChordType::Major))).root, "C");
    assert_eq!(suggested_next_chord(Some(&Chord::new("Bb", ChordType::Major))).root, "C");
    assert_eq!(suggested_next_chord(None).root, "C");
    let e = suggested_next_chord(Some(&Chord::new("E", ChordType::Minor)));
    assert_eq!(e.display_name(), "B");
    assert_eq!(
        suggestion_explanation(Key::GMajor, &e),
        "Based on the G Major key and common chord progressions, B would provide a natural harmonic movement."
    );
}

#[test]
fn chord_progression_keeps_history() {
    let mut p = ChordProgression::new();
    p.add_chord(Chord::g_major());
    p.add_chord(Chord::c_major());
    p.add_chord(Chord::d_major());
    assert_eq!(p.chord_history.len(), 2);
    assert_eq!(p.current_chord.as_ref().unwrap().root, "D");
    let recent = p.recent_chords(1);
    assert_eq!(recent.len(), 1);
    assert_eq!(recent[0].root, "C");
    assert_eq!(p.recent_chords(5).len(), 2);
}

#[test]
fn conversations_per_persona() {
    let mut store = ConversationStore::new();
    let fresh = store.conversation(Persona::GuitarCoach);
    assert!(fresh.is_empty());
    assert_eq!(fresh.persona, Persona::GuitarCoach);
    store.add_to_conversation(Persona::GuitarCoach, AiMessage::user("Hello"));
    store.add_to_conversation(Persona::GuitarCoach, AiMessage::user("Again"));
    store.add_to_conversation(Persona::MixingEngineer, AiMessage::user("EQ?"));
    assert_eq!(store.conversations.len(), 2);
    let coach = store.conversation(Persona::GuitarCoach);
    assert_eq!(coach.len(), 2);
    store.clear_conversation(Persona::GuitarCoach);
    assert!(store.conversation(Persona::GuitarCoach).is_empty());
    assert_eq!(store.conversation(Persona::MixingEngineer).len(), 1);
}

#[test]
fn leviathan_prompt_text() {
    let request = AiRequest::new(Persona::GuitarCoach)
        .with_context("key", "E minor")
        .with_message(AiMessage::user("Riff ideas?"))
        .with_message(AiMessage::assistant("Try E5 to G5."));
    assert_eq!(
        leviathan_prompt(&request),
        format!(
            "{}\n\nContext:\n- key: E minor\n\nUser: Riff ideas?\nAssistant: Try E5 to G5.\n",
            Persona::GuitarCoach.system_prompt_prefix()
        )
    );
    let bare = AiRequest::new(Persona::MixingEngineer);
    assert_eq!(leviathan_prompt(&bare), format!("{}\n\n", Persona::MixingEngineer.system_prompt_prefix()));
    assert_eq!(task_description(&request), "Music assistance request: Try E5 to G5.");
    assert_eq!(task_description(&bare), "Music assistance request: No message");
}

#[test]
fn task_outcomes() {
    assert!(matches!(task_outcome("COMPLETED", Some("Use a capo"), None, 1, 10), TaskOutcome::Completed(t) if t == "Use a capo"));
    assert!(matches!(task_outcome("COMPLETED", None, None, 1, 10), TaskOutcome::Completed(t) if t == "Task completed successfully."));
    assert!(matches!(task_outcome("FAILED", None, Some("boom"), 1, 10), TaskOutcome::Failed(t) if t == "boom"));
    assert!(matches!(task_outcome("FAILED", None, None, 1, 10), TaskOutcome::Failed(t) if t == "Task failed"));
    assert!(matches!(task_outcome("CANCELLED", None, None, 1, 10), TaskOutcome::Failed(t) if t == "Task was cancelled"));
    assert!(matches!(task_outcome("RUNNING", None, None, 3, 10), TaskOutcome::KeepPolling));
    assert!(matches!(task_outcome("", None, None, 10, 10), TaskOutcome::TimedOut));
    let request = AiRequest::new(Persona::GuitarCoach);
    match outcome_response(&request, TaskOutcome::Completed("ok".to_string())) {
        Some(Ok(r)) => assert_eq!((r.content.as_str(), r.is_complete, r.request_id == request.id), ("ok", true, true)),
        _ => panic!("response expected"),
    }
    assert!(matches!(outcome_response(&request, TaskOutcome::Failed("x".to_string())), Some(Err(Error::RequestFailed(e))) if e == "x"));
    assert!(outcome_response(&request, TaskOutcome::KeepPolling).is_none());
    match outcome_response(&request, TaskOutcome::TimedOut) {
        Some(Ok(r)) => assert!(r.content.starts_with("[Guitar Coach] I apologize")),
        _ => panic!("fallback expected"),
    }
}

#[test]
fn suggestion_after_c_major() {
    let c = Chord::new("C", ChordType::Major);
    assert_eq!(suggested_next_chord(Some(&c)).display_name(), "G");
    let alternatives = suggestion_alternatives();
    assert_eq!(alternatives.len(), 2);
    assert_eq!(alternatives[0].root, "Am");
    assert_eq!(alternatives[0].chord_type, ChordType::Minor);
    assert_eq!(alternatives[1].display_name(), "F");
}

#[test]
fn key_names_by_mode_and_distinct() {
    let keys = [
        Key::CMajor, Key::GMajor, Key::DMajor, Key::AMajor, Key::EMajor, Key::BMajor,
        Key::FSharpMajor, Key::CSharpMajor, Key::FMajor, Key::BFlatMajor, Key::EFlatMajor,
        Key::AFlatMajor, Key::DFlatMajor, Key::GFlatMajor, Key::AMinor, Key::EMinor, Key::BMinor,
        Key::FSharpMinor, Key::CSharpMinor, Key::GSharpMinor, Key::DSharpMinor, Key::DMinor,
        Key::GMinor, Key::CMinor, Key::FMinor, Key::BFlatMinor, Key::EFlatMinor,
    ];
    for (i, a) in keys.iter().enumerate() {
        assert_eq!(a.display_name().ends_with(" Major"), a.is_major());
        assert_eq!(a.display_name().ends_with(" Minor"), a.is_minor());
        for b in keys.iter().skip(i + 1) {
            assert_ne!(a.display_name(), b.display_name());
        }
    }
}
