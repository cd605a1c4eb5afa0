//! Messages, and the request that carries them.
use vstd::prelude::*;

use crate::config::ResolvedConfig;
use crate::text::clone_strings;
use crate::text::views;

verus! {

/// A message of a conversation.
#[derive(Debug)]
pub struct Message {
    pub role: String,
    pub content: String,
}

/// What a message holds.
pub struct MessageView {
    pub role: Seq<char>,
    pub content: Seq<char>,
}

impl View for Message {
    type V = MessageView;

    open spec fn view(&self) -> MessageView {
        MessageView { role: self.role@, content: self.content@ }
    }
}

impl Clone for Message {
    fn clone(&self) -> (r: Message)
        ensures
            r@ == self@,
    {
        Message { role: self.role.clone(), content: self.content.clone() }
    }
}

/// What each of a run of messages holds.
pub open spec fn message_views(messages: Seq<Message>) -> Seq<MessageView> {
    messages.map_values(|m: Message| m@)
}

/// A message of the user.
pub open spec fn from_user(content: Seq<char>) -> MessageView {
    MessageView { role: "user"@, content }
}

/// A message of the assistant.
pub open spec fn from_assistant(content: Seq<char>) -> MessageView {
    MessageView { role: "assistant"@, content }
}

impl Message {
    pub fn user(s: &str) -> (r: Self)
        ensures
            r@ == from_user(s@),
    {
        Message { role: "user".to_owned(), content: s.to_owned() }
    }

    pub fn assistant(s: &str) -> (r: Self)
        ensures
            r@ == from_assistant(s@),
    {
        Message { role: "assistant".to_owned(), content: s.to_owned() }
    }
}

/// A streaming chat completion request.
#[derive(Debug)]
pub struct ChatRequest<'a, F> {
    pub model: &'a str,
    pub messages: &'a [Message],
    pub stream: bool,
    pub temperature: Option<F>,
    pub top_p: Option<F>,
    pub max_tokens: Option<u32>,
    pub stop: Vec<String>,
}

impl<'a, F: Copy> ChatRequest<'a, F> {
    /// The request for a conversation, as the configuration has it.
    pub fn build(cfg: &'a ResolvedConfig<F>, messages: &'a [Message]) -> (r: Self)
        ensures
            r.model@ == cfg.model@,
            r.messages == messages,
            r.stream,
            r.temperature == cfg.temperature,
            r.top_p == cfg.top_p,
            r.max_tokens == cfg.max_tokens,
            views(r.stop@) == views(cfg.stop@),
    {
        ChatRequest {
            model: cfg.model.as_str(),
            messages,
            stream: true,
            temperature: cfg.temperature,
            top_p: cfg.top_p,
            max_tokens: cfg.max_tokens,
            stop: clone_strings(cfg.stop.as_slice()),
        }
    }
}

/// Streaming SSE chunk shape (OpenAI-compatible).
#[derive(Debug)]
pub struct StreamChunk {
    pub choices: Vec<StreamChoice>,
}

#[derive(Debug)]
pub struct StreamChoice {
    pub delta: StreamDelta,
    pub finish_reason: Option<String>,
}

#[derive(Debug, Default)]
pub struct StreamDelta {
    pub content: Option<String>,
}

} // verus!
