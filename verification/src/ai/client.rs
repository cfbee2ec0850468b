//! Messages, requests, responses and conversations exchanged with the
//! assistant service, and the replies given without a service.

use vstd::prelude::*;
use crate::ai::{Persona, persona_name, persona_prompt};
use crate::ai::context::{Chord, ChordType, Key, key_name, chord_symbol};
use crate::ai::Error;
use crate::text::str_eq;

verus! {

/// A fresh random identifier in UUID text form.
///
/// Calls `uuid::Uuid::new_v4` and formats it with `to_string`, which the
/// uuid documentation gives as the hyphenated form of 36 characters. The
/// identifier is random, so nothing else is stated of it.
#[verifier::external_body]
pub(crate) fn uuid_string() -> (s: String)
    ensures
        s@.len() == 36,
{
    uuid::Uuid::new_v4().to_string()
}

/// The current time in milliseconds since the Unix epoch (0 for a clock
/// set before it).
///
/// Reads `std::time::SystemTime::now`; the value depends on the clock, so
/// nothing is stated of it.
#[verifier::external_body]
pub(crate) fn now_unix_millis() -> (t: u64) {
    std::time::SystemTime::now()
        .duration_since(std::time::UNIX_EPOCH)
        .map(|d| d.as_millis() as u64)
        .unwrap_or(0)
}

/// Connection state.
#[derive(Debug, Clone, Copy, PartialEq, Eq, Structural)]
pub enum ConnectionState {
    Disconnected,
    Connecting,
    Connected,
    Error,
}

/// Message role.
#[derive(Debug, Clone, Copy, PartialEq, Eq, Structural)]
pub enum MessageRole {
    User,
    Assistant,
    System,
}

/// A message in a conversation.
#[derive(Debug, Clone)]
pub struct AiMessage {
    /// Unique message ID
    pub id: String,
    /// Role (user or assistant)
    pub role: MessageRole,
    /// Message content
    pub content: String,
    /// Timestamp (milliseconds since the Unix epoch)
    pub timestamp: u64,
}

impl AiMessage {
    /// A new message with a fresh identifier, stamped with the time.
    fn with_role(role: MessageRole, content: &str) -> (m: AiMessage)
        ensures
            m.role == role,
            m.content@ == content@,
            m.id@.len() == 36,
    {
        AiMessage {
            id: uuid_string(),
            role,
            content: String::from_str(content),
            timestamp: now_unix_millis(),
        }
    }

    /// A user message.
    pub fn user(content: &str) -> (m: AiMessage)
        ensures
            m.role == MessageRole::User,
            m.content@ == content@,
            m.id@.len() == 36,
    {
        AiMessage::with_role(MessageRole::User, content)
    }

    /// An assistant message.
    pub fn assistant(content: &str) -> (m: AiMessage)
        ensures
            m.role == MessageRole::Assistant,
            m.content@ == content@,
            m.id@.len() == 36,
    {
        AiMessage::with_role(MessageRole::Assistant, content)
    }

    /// A system message.
    pub fn system(content: &str) -> (m: AiMessage)
        ensures
            m.role == MessageRole::System,
            m.content@ == content@,
            m.id@.len() == 36,
    {
        AiMessage::with_role(MessageRole::System, content)
    }

    /// An exact copy of the message.
    pub fn duplicate(&self) -> (m: AiMessage)
        ensures
            m == *self,
    {
        AiMessage {
            id: self.id.clone(),
            role: self.role,
            content: self.content.clone(),
            timestamp: self.timestamp,
        }
    }
}

/// The context entries with `key` set to `value`: an entry for the key is
/// replaced in place, else the entry joins the end.
pub open spec fn context_set(
    ctx: Seq<(Seq<char>, Seq<char>)>,
    key: Seq<char>,
    value: Seq<char>,
) -> Seq<(Seq<char>, Seq<char>)> {
    match context_index(ctx, key) {
        Some(i) => ctx.update(i, (key, value)),
        None => ctx.push((key, value)),
    }
}

/// The index of the first entry for `key`, if any.
pub open spec fn context_index(ctx: Seq<(Seq<char>, Seq<char>)>, key: Seq<char>) -> Option<int> {
    if exists|i: int| 0 <= i < ctx.len() && ctx[i].0 == key {
        Some(choose|i: int| 0 <= i < ctx.len() && ctx[i].0 == key && forall|j: int| 0 <= j < i ==> ctx[j].0 != key)
    } else {
        None
    }
}

/// The context entries, taken as text.
pub open spec fn context_view(ctx: Seq<(String, String)>) -> Seq<(Seq<char>, Seq<char>)> {
    ctx.map_values(|p: (String, String)| (p.0@, p.1@))
}

/// A request to the assistant.
#[derive(Debug, Clone)]
pub struct AiRequest {
    /// Request ID
    pub id: String,
    /// Messages in the conversation
    pub messages: Vec<AiMessage>,
    /// Persona to use
    pub persona: Persona,
    /// Additional context entries (key, value), one per key
    pub context: Vec<(String, String)>,
}

impl AiRequest {
    /// A request without messages or context, with a fresh identifier.
    pub fn new(persona: Persona) -> (r: AiRequest)
        ensures
            r.persona == persona,
            r.messages@.len() == 0,
            r.context@.len() == 0,
            r.id@.len() == 36,
    {
        AiRequest { id: uuid_string(), messages: Vec::new(), persona, context: Vec::new() }
    }

    /// The same request with one more message.
    pub fn with_message(self, message: AiMessage) -> (r: AiRequest)
        ensures
            r.messages@ == self.messages@.push(message),
            r.id == self.id,
            r.persona == self.persona,
            r.context@ == self.context@,
    {
        let mut r = self;
        r.messages.push(message);
        r
    }

    /// Find the first entry for `key`.
    fn context_position(&self, key: &str) -> (r: Option<usize>)
        ensures
            match r {
                Some(i) => i < self.context@.len() && context_index(context_view(self.context@), key@)
                    == Some(i as int),
                None => context_index(context_view(self.context@), key@) is None,
            },
    {
        let ghost cv = context_view(self.context@);
        let mut i: usize = 0;
        while i < self.context.len()
            invariant
                i <= self.context@.len(),
                cv == context_view(self.context@),
                cv.len() == self.context@.len(),
                forall|j: int| 0 <= j < i ==> cv[j].0 != key@,
            decreases self.context@.len() - i,
        {
            if str_eq(self.context[i].0.as_str(), key) {
                proof {
                    assert(cv[i as int].0 == key@);
                    let k = choose|k: int|
                        0 <= k < cv.len() && cv[k].0 == key@ && forall|j: int| 0 <= j < k ==> cv[j].0 != key@;
                    assert(k == i as int) by {
                        if k > i {
                            assert(cv[i as int].0 == key@);
                        }
                    }
                }
                return Some(i);
            }
            i = i + 1;
        }
        None
    }

    /// The same request with the context entry `key` set to `value`.
    pub fn with_context(self, key: &str, value: &str) -> (r: AiRequest)
        ensures
            context_view(r.context@) == context_set(context_view(self.context@), key@, value@),
            r.id == self.id,
            r.persona == self.persona,
            r.messages@ == self.messages@,
    {
        let mut r = self;
        let ghost before = context_view(r.context@);
        let entry = (String::from_str(key), String::from_str(value));
        match r.context_position(key) {
            Some(i) => {
                r.context.set(i, entry);
                proof {
                    assert(context_view(r.context@) =~= before.update(i as int, (key@, value@)));
                }
            },
            None => {
                r.context.push(entry);
                proof {
                    assert(context_view(r.context@) =~= before.push((key@, value@)));
                }
            },
        }
        r
    }

    /// The value of the context entry `key`, if any.
    pub fn context_value(&self, key: &str) -> (r: Option<&String>)
        ensures
            match context_index(context_view(self.context@), key@) {
                Some(i) => r is Some && r->0@ == context_view(self.context@)[i].1,
                None => r is None,
            },
    {
        match self.context_position(key) {
            Some(i) => Some(&self.context[i].1),
            None => None,
        }
    }
}

/// Where some entry has key `key`, `context_index` gives the first one.
pub proof fn lemma_context_found(ctx: Seq<(Seq<char>, Seq<char>)>, key: Seq<char>, i: int)
    requires
        0 <= i < ctx.len(),
        ctx[i].0 == key,
    ensures
        context_index(ctx, key) is Some,
        ({
            let k = context_index(ctx, key)->0;
            &&& 0 <= k <= i
            &&& ctx[k].0 == key
            &&& forall|j: int| 0 <= j < k ==> ctx[j].0 != key
        }),
    decreases i,
{
    if exists|j: int| 0 <= j < i && ctx[j].0 == key {
        let j = choose|j: int| 0 <= j < i && ctx[j].0 == key;
        lemma_context_found(ctx, key, j);
    } else {
        assert(0 <= i < ctx.len() && ctx[i].0 == key && forall|j: int| 0 <= j < i ==> ctx[j].0 != key);
    }
}

/// `context_index` is the first index with the key.
pub proof fn lemma_context_first(ctx: Seq<(Seq<char>, Seq<char>)>, key: Seq<char>, i: int)
    requires
        0 <= i < ctx.len(),
        ctx[i].0 == key,
        forall|j: int| 0 <= j < i ==> ctx[j].0 != key,
    ensures
        context_index(ctx, key) == Some(i),
{
    lemma_context_found(ctx, key, i);
    let k = context_index(ctx, key)->0;
    assert(k == i) by {
        if k < i {
            assert(ctx[k].0 != key);
        }
    }
}

/// Setting a context entry and reading it gives the value set.
pub proof fn lemma_context_set_get(ctx: Seq<(Seq<char>, Seq<char>)>, key: Seq<char>, value: Seq<char>)
    ensures
        context_index(context_set(ctx, key, value), key) is Some,
        context_set(ctx, key, value)[context_index(context_set(ctx, key, value), key)->0].1 == value,
{
    let after = context_set(ctx, key, value);
    if context_index(ctx, key) is Some {
        let i0 = choose|i: int| 0 <= i < ctx.len() && ctx[i].0 == key;
        lemma_context_found(ctx, key, i0);
        let k = context_index(ctx, key)->0;
        assert(after == ctx.update(k, (key, value)));
        assert forall|j: int| 0 <= j < k implies after[j].0 != key by {
            assert(after[j] == ctx[j]);
        }
        lemma_context_first(after, key, k);
    } else {
        let n = ctx.len() as int;
        assert(after == ctx.push((key, value)));
        assert forall|j: int| 0 <= j < n implies after[j].0 != key by {
            assert(after[j] == ctx[j]);
        }
        lemma_context_first(after, key, n);
    }
}

/// Token usage statistics.
#[derive(Debug, Clone, Copy, PartialEq, Eq, Structural)]
pub struct TokenUsage {
    /// Input tokens
    pub input_tokens: u64,
    /// Output tokens
    pub output_tokens: u64,
}

impl TokenUsage {
    /// Total tokens used.
    pub fn total(&self) -> (t: u64)
        requires
            self.input_tokens + self.output_tokens <= u64::MAX,
        ensures
            t == self.input_tokens + self.output_tokens,
    {
        self.input_tokens + self.output_tokens
    }
}

impl Default for TokenUsage {
    fn default() -> (u: TokenUsage)
        ensures
            u == (TokenUsage { input_tokens: 0, output_tokens: 0 }),
    {
        TokenUsage { input_tokens: 0, output_tokens: 0 }
    }
}

/// A response from the assistant.
#[derive(Debug, Clone)]
pub struct AiResponse {
    /// Request ID this responds to
    pub request_id: String,
    /// Response content (may be partial for streaming)
    pub content: String,
    /// Whether this is a streaming chunk
    pub is_chunk: bool,
    /// Whether this is the final chunk
    pub is_complete: bool,
    /// Token usage (if available)
    pub usage: Option<TokenUsage>,
}

/// The reply given in mock mode.
pub open spec fn mock_text(p: Persona) -> Seq<char> {
    "["@ + persona_name(p) + "] I would help with your music question, but I'm currently in mock mode."@
}

/// The reply given when the backend cannot be reached.
pub open spec fn fallback_text(p: Persona) -> Seq<char> {
    "["@ + persona_name(p) + "] I apologize, but I'm currently unable to connect to the AI backend. Please try again later or check that the Leviathan service is running."@
}

/// The complete response that mock mode gives to a request.
pub fn mock_response(request: &AiRequest) -> (r: AiResponse)
    ensures
        r.request_id == request.id,
        r.content@ == mock_text(request.persona),
        !r.is_chunk,
        r.is_complete,
        r.usage == Some(TokenUsage { input_tokens: 50, output_tokens: 25 }),
{
    let content = String::from_str("[").concat(request.persona.display_name()).concat(
        "] I would help with your music question, but I'm currently in mock mode.",
    );
    AiResponse {
        request_id: request.id.clone(),
        content,
        is_chunk: false,
        is_complete: true,
        usage: Some(TokenUsage { input_tokens: 50, output_tokens: 25 }),
    }
}

/// The complete response given when the backend cannot be reached.
pub fn fallback_response(request: &AiRequest) -> (r: AiResponse)
    ensures
        r.request_id == request.id,
        r.content@ == fallback_text(request.persona),
        !r.is_chunk,
        r.is_complete,
        r.usage is None,
{
    let content = String::from_str("[").concat(request.persona.display_name()).concat(
        "] I apologize, but I'm currently unable to connect to the AI backend. Please try again later or check that the Leviathan service is running.",
    );
    AiResponse {
        request_id: request.id.clone(),
        content,
        is_chunk: false,
        is_complete: true,
        usage: None,
    }
}

/// The root of the major chord suggested after a chord with root `root`:
/// a fifth up along C, G, D, A, E, B, and C after F; C after anything else.
pub open spec fn next_root(root: Option<Seq<char>>) -> Seq<char> {
    match root {
        Some(r) => if r == "C"@ {
            "G"@
        } else if r == "G"@ {
            "D"@
        } else if r == "D"@ {
            "A"@
        } else if r == "A"@ {
            "E"@
        } else if r == "E"@ {
            "B"@
        } else if r == "F"@ {
            "C"@
        } else {
            "C"@
        },
        None => "C"@,
    }
}

/// The chord suggested after the current one (a major chord).
pub fn suggested_next_chord(current: Option<&Chord>) -> (c: Chord)
    ensures
        c.root@ == next_root(
            match current {
                Some(x) => Some(x.root@),
                None => None,
            },
        ),
        c.chord_type == ChordType::Major,
        c.bass is None,
{
    match current {
        Some(x) => {
            let r = x.root.as_str();
            if str_eq(r, "C") {
                Chord::new("G", ChordType::Major)
            } else if str_eq(r, "G") {
                Chord::new("D", ChordType::Major)
            } else if str_eq(r, "D") {
                Chord::new("A", ChordType::Major)
            } else if str_eq(r, "A") {
                Chord::new("E", ChordType::Major)
            } else if str_eq(r, "E") {
                Chord::new("B", ChordType::Major)
            } else if str_eq(r, "F") {
                Chord::new("C", ChordType::Major)
            } else {
                Chord::new("C", ChordType::Major)
            }
        },
        None => Chord::new("C", ChordType::Major),
    }
}

/// The explanation of a suggested chord.
pub fn suggestion_explanation(key: Key, chord: &Chord) -> (s: String)
    ensures
        s@ == "Based on the "@ + key_name(key) + " key and common chord progressions, "@ + chord_symbol(*chord)
            + " would provide a natural harmonic movement."@,
{
    let name = chord.display_name();
    String::from_str("Based on the ").concat(key.display_name()).concat(
        " key and common chord progressions, ",
    ).concat(name.as_str()).concat(" would provide a natural harmonic movement.")
}

/// A conversation with the assistant.
#[derive(Debug, Clone)]
pub struct Conversation {
    /// Conversation ID
    pub id: String,
    /// Messages in this conversation
    pub messages: Vec<AiMessage>,
    /// Active persona
    pub persona: Persona,
}

impl Conversation {
    /// An empty conversation with a fresh identifier.
    pub fn new(persona: Persona) -> (c: Conversation)
        ensures
            c.persona == persona,
            c.messages@.len() == 0,
            c.id@.len() == 36,
    {
        Conversation { id: uuid_string(), messages: Vec::new(), persona }
    }

    /// Add a message.
    pub fn add_message(&mut self, message: AiMessage)
        ensures
            final(self).messages@ == old(self).messages@.push(message),
            final(self).id == old(self).id,
            final(self).persona == old(self).persona,
    {
        self.messages.push(message);
    }

    /// The messages.
    pub fn messages(&self) -> (m: &[AiMessage])
        ensures
            m@ == self.messages@,
    {
        self.messages.as_slice()
    }

    /// The number of messages.
    pub fn len(&self) -> (n: usize)
        ensures
            n == self.messages@.len(),
    {
        self.messages.len()
    }

    /// Whether there are no messages.
    pub fn is_empty(&self) -> (b: bool)
        ensures
            b == (self.messages@.len() == 0),
    {
        self.messages.len() == 0
    }

    /// Remove all messages.
    pub fn clear(&mut self)
        ensures
            final(self).messages@.len() == 0,
            final(self).id == old(self).id,
            final(self).persona == old(self).persona,
    {
        self.messages.clear();
    }

    /// A request carrying the conversation's messages and persona, with a
    /// fresh identifier and no context.
    pub fn to_request(&self) -> (r: AiRequest)
        ensures
            r.messages@ == self.messages@,
            r.persona == self.persona,
            r.context@.len() == 0,
            r.id@.len() == 36,
    {
        let mut messages: Vec<AiMessage> = Vec::new();
        let mut i: usize = 0;
        while i < self.messages.len()
            invariant
                i <= self.messages@.len(),
                messages@ == self.messages@.subrange(0, i as int),
            decreases self.messages@.len() - i,
        {
            messages.push(self.messages[i].duplicate());
            proof {
                assert(messages@ =~= self.messages@.subrange(0, i + 1));
            }
            i = i + 1;
        }
        proof {
            assert(messages@ =~= self.messages@);
        }
        AiRequest { id: uuid_string(), messages, persona: self.persona, context: Vec::new() }
    }
}

impl Default for Conversation {
    fn default() -> (c: Conversation)
        ensures
            c.id@.len() == 0,
            c.messages@.len() == 0,
            c.persona == Persona::MusicComposer,
    {
        Conversation { id: String::new(), messages: Vec::new(), persona: Persona::MusicComposer }
    }
}

impl Conversation {
    /// An exact copy of the conversation.
    pub fn duplicate(&self) -> (c: Conversation)
        ensures
            c.id == self.id,
            c.messages@ == self.messages@,
            c.persona == self.persona,
    {
        let mut messages: Vec<AiMessage> = Vec::new();
        let mut i: usize = 0;
        while i < self.messages.len()
            invariant
                i <= self.messages@.len(),
                messages@ == self.messages@.subrange(0, i as int),
            decreases self.messages@.len() - i,
        {
            messages.push(self.messages[i].duplicate());
            proof {
                assert(messages@ =~= self.messages@.subrange(0, i + 1));
            }
            i = i + 1;
        }
        proof {
            assert(messages@ =~= self.messages@);
        }
        Conversation { id: self.id.clone(), messages, persona: self.persona }
    }
}

/// One conversation per persona.
#[derive(Debug, Clone)]
pub struct ConversationStore {
    /// Conversations, at most one per persona
    pub conversations: Vec<Conversation>,
}

/// The index of the conversation of a persona, if any.
pub open spec fn persona_index(cs: Seq<Conversation>, p: Persona) -> Option<int> {
    if exists|i: int| 0 <= i < cs.len() && cs[i].persona == p {
        Some(choose|i: int| 0 <= i < cs.len() && cs[i].persona == p && forall|j: int| 0 <= j < i ==> cs[j].persona != p)
    } else {
        None
    }
}

impl ConversationStore {
    /// No conversations.
    pub fn new() -> (s: ConversationStore)
        ensures
            s.conversations@.len() == 0,
    {
        ConversationStore { conversations: Vec::new() }
    }

    /// The position of the persona's conversation.
    fn find(&self, persona: Persona) -> (r: Option<usize>)
        ensures
            match r {
                Some(i) => i < self.conversations@.len() && persona_index(self.conversations@, persona) == Some(i as int)
                    && self.conversations@[i as int].persona == persona,
                None => persona_index(self.conversations@, persona) is None,
            },
    {
        let mut i: usize = 0;
        while i < self.conversations.len()
            invariant
                i <= self.conversations@.len(),
                forall|j: int| 0 <= j < i ==> self.conversations@[j].persona != persona,
            decreases self.conversations@.len() - i,
        {
            if self.conversations[i].persona == persona {
                proof {
                    let k = choose|k: int| 0 <= k < self.conversations@.len() && self.conversations@[k].persona == persona
                        && forall|j: int| 0 <= j < k ==> self.conversations@[j].persona != persona;
                    assert(k == i as int) by {
                        if k > i {
                            assert(self.conversations@[i as int].persona == persona);
                        }
                    }
                }
                return Some(i);
            }
            i = i + 1;
        }
        None
    }

    /// The persona's conversation, or a new empty one.
    pub fn conversation(&self, persona: Persona) -> (c: Conversation)
        ensures
            match persona_index(self.conversations@, persona) {
                Some(i) => c.id == self.conversations@[i].id && c.messages@
                    == self.conversations@[i].messages@ && c.persona == persona,
                None => c.persona == persona && c.messages@.len() == 0 && c.id@.len() == 36,
            },
    {
        match self.find(persona) {
            Some(i) => self.conversations[i].duplicate(),
            None => Conversation::new(persona),
        }
    }

    /// Add a message to the persona's conversation, starting one where
    /// there is none.
    pub fn add_to_conversation(&mut self, persona: Persona, message: AiMessage)
        ensures
            match persona_index(old(self).conversations@, persona) {
                Some(i) => {
                    &&& final(self).conversations@.len() == old(self).conversations@.len()
                    &&& final(self).conversations@[i].messages@ == old(self).conversations@[i].messages@.push(message)
                    &&& final(self).conversations@[i].persona == persona
                    &&& final(self).conversations@[i].id == old(self).conversations@[i].id
                    &&& forall|j: int| 0 <= j < old(self).conversations@.len() && j != i ==> final(self).conversations@[j] == old(self).conversations@[j]
                },
                None => {
                    &&& final(self).conversations@.drop_last() == old(self).conversations@
                    &&& final(self).conversations@.len() == old(self).conversations@.len() + 1
                    &&& final(self).conversations@.last().persona == persona
                    &&& final(self).conversations@.last().messages@ == seq![message]
                },
            },
    {
        match self.find(persona) {
            Some(i) => {
                let mut c = self.conversations[i].duplicate();
                c.add_message(message);
                self.conversations.set(i, c);
            },
            None => {
                let mut c = Conversation::new(persona);
                c.add_message(message);
                let ghost before = self.conversations@;
                self.conversations.push(c);
                proof {
                    assert(self.conversations@.drop_last() =~= before);
                    assert(self.conversations@.last().messages@ =~= seq![message]);
                }
            },
        }
    }

    /// Clear the persona's conversation, if it has one.
    pub fn clear_conversation(&mut self, persona: Persona)
        ensures
            final(self).conversations@.len() == old(self).conversations@.len(),
            match persona_index(old(self).conversations@, persona) {
                Some(i) => {
                    &&& final(self).conversations@[i].messages@.len() == 0
                    &&& final(self).conversations@[i].persona == persona
                    &&& final(self).conversations@[i].id == old(self).conversations@[i].id
                    &&& forall|j: int| 0 <= j < old(self).conversations@.len() && j != i ==> final(self).conversations@[j] == old(self).conversations@[j]
                },
                None => final(self).conversations@ == old(self).conversations@,
            },
    {
        match self.find(persona) {
            Some(i) => {
                let mut c = self.conversations[i].duplicate();
                c.clear();
                self.conversations.set(i, c);
            },
            None => {},
        }
    }
}

/// The alternatives offered beside a suggested chord: A minor (root
/// written "Am") and F major.
pub fn suggestion_alternatives() -> (v: Vec<Chord>)
    ensures
        v@.len() == 2,
        v@[0].root@ == "Am"@ && v@[0].chord_type == ChordType::Minor && v@[0].bass is None,
        v@[1].root@ == "F"@ && v@[1].chord_type == ChordType::Major && v@[1].bass is None,
{
    let mut v: Vec<Chord> = Vec::new();
    v.push(Chord::new("Am", ChordType::Minor));
    v.push(Chord::new("F", ChordType::Major));
    v
}

/// The line prefix of a message's role.
pub open spec fn role_prefix(role: MessageRole) -> Seq<char> {
    match role {
        MessageRole::User => "User: "@,
        MessageRole::Assistant => "Assistant: "@,
        MessageRole::System => "System: "@,
    }
}

/// One "- key: value" line per context entry.
pub open spec fn context_lines(ctx: Seq<(Seq<char>, Seq<char>)>) -> Seq<char>
    decreases ctx.len(),
{
    if ctx.len() == 0 {
        Seq::empty()
    } else {
        context_lines(ctx.drop_last()) + "- "@ + ctx.last().0 + ": "@ + ctx.last().1 + "\n"@
    }
}

/// One "Role: content" line per message.
pub open spec fn message_lines(msgs: Seq<AiMessage>) -> Seq<char>
    decreases msgs.len(),
{
    if msgs.len() == 0 {
        Seq::empty()
    } else {
        message_lines(msgs.drop_last()) + role_prefix(msgs.last().role) + msgs.last().content@ + "\n"@
    }
}

/// The text sent to the cloud backend for a request: the persona's
/// system prompt, the context entries (where there are any), and the
/// messages.
pub open spec fn leviathan_text(
    persona: Persona,
    ctx: Seq<(Seq<char>, Seq<char>)>,
    msgs: Seq<AiMessage>,
) -> Seq<char> {
    let context = if ctx.len() > 0 {
        "Context:\n"@ + context_lines(ctx) + "\n"@
    } else {
        Seq::empty()
    };
    persona_prompt(persona) + "\n\n"@ + context + message_lines(msgs)
}

/// The prompt sent to the cloud backend for a request.
pub fn leviathan_prompt(request: &AiRequest) -> (s: String)
    ensures
        s@ == leviathan_text(request.persona, context_view(request.context@), request.messages@),
{
    let mut s = String::from_str(request.persona.system_prompt_prefix());
    s.append("\n\n");
    let ghost head = s@;
    let ghost ctx = context_view(request.context@);
    if request.context.len() > 0 {
        s.append("Context:\n");
        let ghost start = s@;
        let mut i: usize = 0;
        while i < request.context.len()
            invariant
                i <= request.context@.len(),
                ctx == context_view(request.context@),
                s@ == start + context_lines(ctx.subrange(0, i as int)),
            decreases request.context@.len() - i,
        {
            proof {
                assert(ctx.subrange(0, i + 1).drop_last() =~= ctx.subrange(0, i as int));
            }
            s.append("- ");
            s.append(request.context[i].0.as_str());
            s.append(": ");
            s.append(request.context[i].1.as_str());
            s.append("\n");
            proof {
                assert(s@ =~= start + context_lines(ctx.subrange(0, i + 1)));
            }
            i = i + 1;
        }
        s.append("\n");
        proof {
            assert(ctx.subrange(0, ctx.len() as int) =~= ctx);
            assert(s@ =~= head + ("Context:\n"@ + context_lines(ctx) + "\n"@));
        }
    } else {
        proof {
            assert(s@ =~= head + Seq::<char>::empty());
        }
    }
    let ghost mid = s@;
    let mut j: usize = 0;
    while j < request.messages.len()
        invariant
            j <= request.messages@.len(),
            s@ == mid + message_lines(request.messages@.subrange(0, j as int)),
        decreases request.messages@.len() - j,
    {
        proof {
            assert(request.messages@.subrange(0, j + 1).drop_last() =~= request.messages@.subrange(0, j as int));
        }
        let m = &request.messages[j];
        match m.role {
            MessageRole::User => s.append("User: "),
            MessageRole::Assistant => s.append("Assistant: "),
            MessageRole::System => s.append("System: "),
        }
        s.append(m.content.as_str());
        s.append("\n");
        proof {
            assert(s@ =~= mid + message_lines(request.messages@.subrange(0, j + 1)));
        }
        j = j + 1;
    }
    proof {
        assert(request.messages@.subrange(0, request.messages@.len() as int) =~= request.messages@);
    }
    s
}

/// The description of the backend task made for a request: its last
/// message, or "No message".
pub fn task_description(request: &AiRequest) -> (s: String)
    ensures
        s@ == "Music assistance request: "@ + if request.messages@.len() > 0 {
            request.messages@.last().content@
        } else {
            "No message"@
        },
{
    let n = request.messages.len();
    if n > 0 {
        String::from_str("Music assistance request: ").concat(request.messages[n - 1].content.as_str())
    } else {
        String::from_str("Music assistance request: ").concat("No message")
    }
}

/// How many times a backend task is polled before the fallback reply.
pub const MAX_TASK_POLLS: u32 = 10;

/// What one poll of a backend task decides.
#[derive(Debug, Clone)]
pub enum TaskOutcome {
    /// The task is done; its result text
    Completed(String),
    /// The task failed or was cancelled; the error text
    Failed(String),
    /// The task still runs; poll again
    KeepPolling,
    /// The task still runs after the last poll; give the fallback reply
    TimedOut,
}

/// Decide on a polled task: its status ("" where the poll gave none), its
/// result and error texts, and how many polls have been made.
pub fn task_outcome(status: &str, result: Option<&str>, error: Option<&str>, polls_done: u32, max_polls: u32) -> (o: TaskOutcome)
    ensures
        status@ == "COMPLETED"@ ==> o is Completed && o->Completed_0@ == match result {
            Some(t) => t@,
            None => "Task completed successfully."@,
        },
        status@ == "FAILED"@ ==> o is Failed && o->Failed_0@ == match error {
            Some(t) => t@,
            None => "Task failed"@,
        },
        status@ == "CANCELLED"@ ==> o is Failed && o->Failed_0@ == "Task was cancelled"@,
        status@ != "COMPLETED"@ && status@ != "FAILED"@ && status@ != "CANCELLED"@ ==> if polls_done
            >= max_polls {
            o is TimedOut
        } else {
            o is KeepPolling
        },
{
    proof {
        reveal_strlit("COMPLETED");
        reveal_strlit("FAILED");
        reveal_strlit("CANCELLED");
        assert("FAILED"@.len() != "COMPLETED"@.len());
        assert("FAILED"@.len() != "CANCELLED"@.len());
        assert("CANCELLED"@[1] != "COMPLETED"@[1]);
    }
    if str_eq(status, "COMPLETED") {
        match result {
            Some(t) => TaskOutcome::Completed(String::from_str(t)),
            None => TaskOutcome::Completed(String::from_str("Task completed successfully.")),
        }
    } else if str_eq(status, "FAILED") {
        match error {
            Some(t) => TaskOutcome::Failed(String::from_str(t)),
            None => TaskOutcome::Failed(String::from_str("Task failed")),
        }
    } else if str_eq(status, "CANCELLED") {
        TaskOutcome::Failed(String::from_str("Task was cancelled"))
    } else if polls_done >= max_polls {
        TaskOutcome::TimedOut
    } else {
        TaskOutcome::KeepPolling
    }
}

/// The reply a task outcome gives: the result as a complete response,
/// the error as a failed request, the fallback reply after a timeout,
/// and none while the task still runs.
pub fn outcome_response(request: &AiRequest, outcome: TaskOutcome) -> (r: Option<Result<AiResponse, Error>>)
    ensures
        match outcome {
            TaskOutcome::Completed(t) => r is Some && r->0 is Ok && ({
                let resp = r->0->Ok_0;
                &&& resp.request_id == request.id
                &&& resp.content == t
                &&& !resp.is_chunk
                &&& resp.is_complete
                &&& resp.usage is None
            }),
            TaskOutcome::Failed(e) => r == Some(Err::<AiResponse, Error>(Error::RequestFailed(e))),
            TaskOutcome::TimedOut => r is Some && r->0 is Ok && ({
                let resp = r->0->Ok_0;
                &&& resp.request_id == request.id
                &&& resp.content@ == fallback_text(request.persona)
                &&& !resp.is_chunk
                &&& resp.is_complete
                &&& resp.usage is None
            }),
            TaskOutcome::KeepPolling => r is None,
        },
{
    match outcome {
        TaskOutcome::Completed(t) => Some(
            Ok(
                AiResponse {
                    request_id: request.id.clone(),
                    content: t,
                    is_chunk: false,
                    is_complete: true,
                    usage: None,
                },
            ),
        ),
        TaskOutcome::Failed(e) => Some(Err(Error::RequestFailed(e))),
        TaskOutcome::TimedOut => Some(Ok(fallback_response(request))),
        TaskOutcome::KeepPolling => None,
    }
}

} // verus!
