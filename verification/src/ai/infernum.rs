//! Messages and replies of an OpenAI-compatible local model server.

use vstd::prelude::*;

verus! {

/// OpenAI-compatible chat message.
#[derive(Debug, Clone)]
pub struct ChatMessage {
    pub role: String,
    pub content: String,
}

impl ChatMessage {
    /// A system message.
    pub fn system(content: &str) -> (m: ChatMessage)
        ensures
            m.role@ == "system"@,
            m.content@ == content@,
    {
        ChatMessage { role: String::from_str("system"), content: String::from_str(content) }
    }

    /// A user message.
    pub fn user(content: &str) -> (m: ChatMessage)
        ensures
            m.role@ == "user"@,
            m.content@ == content@,
    {
        ChatMessage { role: String::from_str("user"), content: String::from_str(content) }
    }

    /// An assistant message.
    pub fn assistant(content: &str) -> (m: ChatMessage)
        ensures
            m.role@ == "assistant"@,
            m.content@ == content@,
    {
        ChatMessage { role: String::from_str("assistant"), content: String::from_str(content) }
    }
}

/// OpenAI-compatible chat completion response.
#[derive(Debug, Clone)]
pub struct ChatCompletionResponse {
    pub id: String,
    pub object: String,
    pub created: u64,
    pub model: String,
    pub choices: Vec<ChatChoice>,
    pub usage: Option<ChatUsage>,
}

/// A choice in the completion response.
#[derive(Debug, Clone)]
pub struct ChatChoice {
    pub index: u32,
    pub message: ChatMessage,
    pub finish_reason: Option<String>,
}

/// Token usage information.
#[derive(Debug, Clone, Copy, PartialEq, Eq, Structural)]
pub struct ChatUsage {
    pub prompt_tokens: u64,
    pub completion_tokens: u64,
    pub total_tokens: u64,
}

/// Health response of the local model server.
#[derive(Debug, Clone)]
pub struct InfernumHealth {
    pub status: String,
    pub model: Option<String>,
}

} // verus!
