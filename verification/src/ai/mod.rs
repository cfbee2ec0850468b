//! Assistant integration: personas, providers, musical context, and the
//! messages, requests and conversations exchanged with an assistant
//! service.

pub mod client;
pub mod context;
pub mod graphql;
pub mod infernum;

use vstd::prelude::*;

verus! {

/// AI provider selection.
#[derive(Debug, Clone, Copy, PartialEq, Eq, Structural)]
pub enum AiProvider {
    /// Leviathan cloud backend (GraphQL)
    Leviathan,
    /// Infernum local LLM server (OpenAI-compatible)
    Infernum,
    /// Mock mode for testing
    Mock,
}

impl Default for AiProvider {
    fn default() -> (p: AiProvider)
        ensures
            p == AiProvider::Leviathan,
    {
        AiProvider::Leviathan
    }
}

/// Display name.
pub open spec fn provider_name(x: AiProvider) -> Seq<char> {
    match x {
        AiProvider::Leviathan => "Leviathan (Cloud)"@,
        AiProvider::Infernum => "Infernum (Local)"@,
        AiProvider::Mock => "Mock (Testing)"@,
    }
}

impl AiProvider {
    /// Whether this provider runs locally.
    pub fn is_local(&self) -> (b: bool)
        ensures
            b == (*self == AiProvider::Infernum || *self == AiProvider::Mock),
    {
        match self {
            AiProvider::Infernum | AiProvider::Mock => true,
            AiProvider::Leviathan => false,
        }
    }

    /// Display name.
    pub fn display_name(&self) -> (s: &'static str)
        ensures
            s@ == provider_name(*self),
    {
        match self {
            AiProvider::Leviathan => "Leviathan (Cloud)",
            AiProvider::Infernum => "Infernum (Local)",
            AiProvider::Mock => "Mock (Testing)",
        }
    }
}

/// Errors of the assistant client.
#[derive(Debug, Clone)]
pub enum Error {
    /// Not connected to AI service
    NotConnected,
    /// Connection error
    ConnectionError(String),
    /// AI request failed
    RequestFailed(String),
    /// Invalid response
    InvalidResponse(String),
    /// Request timed out
    Timeout,
    /// Persona not found
    PersonaNotFound(String),
}

/// The message of an error.
pub open spec fn error_message(e: Error) -> Seq<char> {
    match e {
        Error::NotConnected => "Not connected to AI service"@,
        Error::ConnectionError(s) => "Connection error: "@ + s@,
        Error::RequestFailed(s) => "AI request failed: "@ + s@,
        Error::InvalidResponse(s) => "Invalid response: "@ + s@,
        Error::Timeout => "Request timed out"@,
        Error::PersonaNotFound(s) => "Persona not found: "@ + s@,
    }
}

impl Error {
    /// The error's message.
    pub fn message(&self) -> (s: String)
        ensures
            s@ == error_message(*self),
    {
        match self {
            Error::NotConnected => String::from_str("Not connected to AI service"),
            Error::ConnectionError(e) => String::from_str("Connection error: ").concat(e.as_str()),
            Error::RequestFailed(e) => String::from_str("AI request failed: ").concat(e.as_str()),
            Error::InvalidResponse(e) => String::from_str("Invalid response: ").concat(e.as_str()),
            Error::Timeout => String::from_str("Request timed out"),
            Error::PersonaNotFound(e) => String::from_str("Persona not found: ").concat(e.as_str()),
        }
    }
}

/// Music-specific assistant personas.
#[derive(Debug, Clone, Copy, PartialEq, Eq, Structural)]
pub enum Persona {
    MusicComposer,
    MusicTheoryTutor,
    MixingEngineer,
    MasteringEngineer,
    GuitarCoach,
    SessionAssistant,
    ProductionTutor,
}

impl Default for Persona {
    fn default() -> (p: Persona)
        ensures
            p == Persona::MusicComposer,
    {
        Persona::MusicComposer
    }
}

/// All personas, in order.
pub open spec fn all_personas() -> Seq<Persona> {
    seq![Persona::MusicComposer, Persona::MusicTheoryTutor, Persona::MixingEngineer, Persona::MasteringEngineer, Persona::GuitarCoach, Persona::SessionAssistant, Persona::ProductionTutor]
}

/// Display name.
pub open spec fn persona_name(x: Persona) -> Seq<char> {
    match x {
        Persona::MusicComposer => "Music Composer"@,
        Persona::MusicTheoryTutor => "Music Theory Tutor"@,
        Persona::MixingEngineer => "Mixing Engineer"@,
        Persona::MasteringEngineer => "Mastering Engineer"@,
        Persona::GuitarCoach => "Guitar Coach"@,
        Persona::SessionAssistant => "Session Assistant"@,
        Persona::ProductionTutor => "Production Tutor"@,
    }
}

/// Short description.
pub open spec fn persona_description(x: Persona) -> Seq<char> {
    match x {
        Persona::MusicComposer => "Helps with melody, harmony, and arrangement"@,
        Persona::MusicTheoryTutor => "Explains music theory concepts and answers questions"@,
        Persona::MixingEngineer => "Provides mixing techniques and feedback"@,
        Persona::MasteringEngineer => "Advises on mastering, loudness, and final polish"@,
        Persona::GuitarCoach => "Teaches guitar techniques and suggests improvements"@,
        Persona::SessionAssistant => "Helps manage recording sessions and workflows"@,
        Persona::ProductionTutor => "Teaches production techniques and DAW tips"@,
    }
}

/// Identifier of the persona at the backend.
pub open spec fn persona_grimoire_id(x: Persona) -> Seq<char> {
    match x {
        Persona::MusicComposer => "music-composer"@,
        Persona::MusicTheoryTutor => "music-theory-tutor"@,
        Persona::MixingEngineer => "mixing-engineer"@,
        Persona::MasteringEngineer => "mastering-engineer"@,
        Persona::GuitarCoach => "guitar-coach"@,
        Persona::SessionAssistant => "session-assistant"@,
        Persona::ProductionTutor => "production-tutor"@,
    }
}

/// System prompt prefix for this persona.
pub open spec fn persona_prompt(x: Persona) -> Seq<char> {
    match x {
        Persona::MusicComposer => "You are a skilled music composer assistant. Help users with melody creation, chord progressions, song structure, and arrangement ideas."@,
        Persona::MusicTheoryTutor => "You are a patient music theory tutor. Explain concepts clearly, use examples, and adapt to the user's skill level."@,
        Persona::MixingEngineer => "You are an experienced mixing engineer. Provide practical mixing advice, EQ suggestions, compression techniques, and spatial placement tips."@,
        Persona::MasteringEngineer => "You are a professional mastering engineer. Advise on loudness targets, dynamic range, frequency balance, and final polish techniques."@,
        Persona::GuitarCoach => "You are a friendly guitar coach. Help with technique, chord voicings, scales, and practice strategies."@,
        Persona::SessionAssistant => "You are a helpful session assistant. Guide recording workflows, suggest microphone placements, and help organize tracks."@,
        Persona::ProductionTutor => "You are a knowledgeable music production tutor. Teach DAW techniques, synthesis, sampling, and creative production methods."@,
    }
}

impl Persona {
    /// Display name.
    pub fn display_name(&self) -> (s: &'static str)
        ensures
            s@ == persona_name(*self),
    {
        match self {
            Persona::MusicComposer => "Music Composer",
            Persona::MusicTheoryTutor => "Music Theory Tutor",
            Persona::MixingEngineer => "Mixing Engineer",
            Persona::MasteringEngineer => "Mastering Engineer",
            Persona::GuitarCoach => "Guitar Coach",
            Persona::SessionAssistant => "Session Assistant",
            Persona::ProductionTutor => "Production Tutor",
        }
    }

    /// Short description.
    pub fn description(&self) -> (s: &'static str)
        ensures
            s@ == persona_description(*self),
    {
        match self {
            Persona::MusicComposer => "Helps with melody, harmony, and arrangement",
            Persona::MusicTheoryTutor => "Explains music theory concepts and answers questions",
            Persona::MixingEngineer => "Provides mixing techniques and feedback",
            Persona::MasteringEngineer => "Advises on mastering, loudness, and final polish",
            Persona::GuitarCoach => "Teaches guitar techniques and suggests improvements",
            Persona::SessionAssistant => "Helps manage recording sessions and workflows",
            Persona::ProductionTutor => "Teaches production techniques and DAW tips",
        }
    }

    /// Identifier of the persona at the backend.
    pub fn grimoire_id(&self) -> (s: &'static str)
        ensures
            s@ == persona_grimoire_id(*self),
    {
        match self {
            Persona::MusicComposer => "music-composer",
            Persona::MusicTheoryTutor => "music-theory-tutor",
            Persona::MixingEngineer => "mixing-engineer",
            Persona::MasteringEngineer => "mastering-engineer",
            Persona::GuitarCoach => "guitar-coach",
            Persona::SessionAssistant => "session-assistant",
            Persona::ProductionTutor => "production-tutor",
        }
    }

    /// System prompt prefix for this persona.
    pub fn system_prompt_prefix(&self) -> (s: &'static str)
        ensures
            s@ == persona_prompt(*self),
    {
        match self {
            Persona::MusicComposer => "You are a skilled music composer assistant. Help users with melody creation, chord progressions, song structure, and arrangement ideas.",
            Persona::MusicTheoryTutor => "You are a patient music theory tutor. Explain concepts clearly, use examples, and adapt to the user's skill level.",
            Persona::MixingEngineer => "You are an experienced mixing engineer. Provide practical mixing advice, EQ suggestions, compression techniques, and spatial placement tips.",
            Persona::MasteringEngineer => "You are a professional mastering engineer. Advise on loudness targets, dynamic range, frequency balance, and final polish techniques.",
            Persona::GuitarCoach => "You are a friendly guitar coach. Help with technique, chord voicings, scales, and practice strategies.",
            Persona::SessionAssistant => "You are a helpful session assistant. Guide recording workflows, suggest microphone placements, and help organize tracks.",
            Persona::ProductionTutor => "You are a knowledgeable music production tutor. Teach DAW techniques, synthesis, sampling, and creative production methods.",
        }
    }

    /// All personas, in order.
    pub fn all() -> (v: Vec<Persona>)
        ensures
            v@ == all_personas(),
    {
        let v = vec![Persona::MusicComposer, Persona::MusicTheoryTutor, Persona::MixingEngineer, Persona::MasteringEngineer, Persona::GuitarCoach, Persona::SessionAssistant, Persona::ProductionTutor];
        assert(v@ =~= all_personas());
        v
    }
}

} // verus!
