//! The Anthropic API: `/messages` with typed events, of which only
//! `content_block_delta` carries text.
use vstd::prelude::*;

use super::{conversation, plain_step, push_event, quiet, quiet_step, split_system, system_text};
use super::{
    EventView, Next, NextView, SourceEvent, Step, StepView, StreamEvent, StreamFailure, StreamOutcome,
};
use crate::chat::{message_views, Message};
use crate::config::{opt_view, ResolvedConfig};
use crate::text::{clone_strings, same, views};

verus! {

/// The version of the API, sent with each request.
pub const API_VERSION: &'static str = "2023-06-01";

/// The length of a reply where the configuration sets none: the API wants one.
pub const DEFAULT_MAX_TOKENS: u32 = 4096;

#[derive(Debug)]
pub struct AnthropicRequest<'a, F> {
    pub model: &'a str,
    pub messages: Vec<Message>,
    pub max_tokens: u32,
    pub stream: bool,
    pub system: Option<String>,
    pub temperature: Option<F>,
    pub top_p: Option<F>,
    pub stop_sequences: Vec<String>,
}

/// A typed event.
#[derive(Debug)]
pub struct DeltaEvent {
    pub kind: String,
    pub delta: Option<DeltaPayload>,
}

#[derive(Debug)]
pub struct DeltaPayload {
    pub kind: Option<String>,
    pub text: Option<String>,
}

/// The text that an event adds, if any.
pub open spec fn delta_text(event: DeltaEvent) -> Option<Seq<char>> {
    if event.kind@ != "content_block_delta"@ {
        None
    } else {
        match event.delta {
            Some(d) => if opt_view(d.kind) == Some("text_delta"@) {
                opt_view(d.text)
            } else {
                None
            },
            None => None,
        }
    }
}

/// What a message leads to, given the event that it reads as: what does not read as
/// one is passed over.
pub open spec fn message_step_of(parsed: Option<DeltaEvent>) -> StepView {
    match parsed {
        Some(event) => if event.kind@ == "message_stop"@ {
            quiet(NextView::Finish(StreamOutcome::Done, true))
        } else {
            match delta_text(event) {
                Some(t) => if t.len() > 0 {
                    StepView { emit: seq![EventView::Token(t)], next: NextView::Continue }
                } else {
                    quiet(NextView::Continue)
                },
                None => quiet(NextView::Continue),
            }
        },
        None => quiet(NextView::Continue),
    }
}

/// What an event leads to.
pub open spec fn step_of(
    base_url: Seq<char>,
    model: Seq<char>,
    event: SourceEvent,
    parsed: Option<DeltaEvent>,
) -> StepView {
    match event {
        SourceEvent::Message(_) => message_step_of(parsed),
        SourceEvent::Failed(failure) => quiet(
            NextView::Fail(failure_text(base_url, model, failure), true),
        ),
        _ => plain_step(event),
    }
}

/// What the user is told of a failure.
pub open spec fn failure_text(
    base_url: Seq<char>,
    model: Seq<char>,
    failure: StreamFailure,
) -> Seq<char> {
    match failure {
        StreamFailure::Status { status, body } => "Anthropic request to "@ + base_url
            + " failed with HTTP "@ + status@ + "\nmodel: "@ + model + "\nbody: "@ + body@,
        StreamFailure::Transport { detail, unreachable } => "transport error contacting "@ + base_url
            + " (anthropic): "@ + detail@,
        StreamFailure::Other { detail } => "Anthropic stream error: "@ + detail@,
    }
}

/// The address that requests go to.
pub fn request_url<F>(cfg: &ResolvedConfig<F>) -> (r: String)
    ensures
        r@ == cfg.base_url@ + "/messages"@,
{
    let mut s = cfg.base_url.clone();
    s.append("/messages");
    s
}

/// The request for a conversation: the system's messages apart, and a length.
pub fn build_request<'a, F: Copy>(cfg: &'a ResolvedConfig<F>, messages: &[Message]) -> (r:
    AnthropicRequest<'a, F>)
    ensures
        r.model@ == cfg.model@,
        message_views(r.messages@) == conversation(message_views(messages@)),
        r.max_tokens == match cfg.max_tokens {
            Some(n) => n,
            None => DEFAULT_MAX_TOKENS,
        },
        r.stream,
        opt_view(r.system) == system_text(message_views(messages@)),
        r.temperature == cfg.temperature,
        r.top_p == cfg.top_p,
        views(r.stop_sequences@) == views(cfg.stop@),
{
    let (system, conv) = split_system(messages);
    AnthropicRequest {
        model: cfg.model.as_str(),
        messages: conv,
        max_tokens: match cfg.max_tokens {
            Some(n) => n,
            None => DEFAULT_MAX_TOKENS,
        },
        stream: true,
        system,
        temperature: cfg.temperature,
        top_p: cfg.top_p,
        stop_sequences: clone_strings(cfg.stop.as_slice()),
    }
}

/// What the user is told of a failure.
pub fn format_error<F>(cfg: &ResolvedConfig<F>, failure: &StreamFailure) -> (r: String)
    ensures
        r@ == failure_text(cfg.base_url@, cfg.model@, *failure),
{
    match failure {
        StreamFailure::Status { status, body } => {
            let mut s = "Anthropic request to ".to_owned();
            s.append(cfg.base_url.as_str());
            s.append(" failed with HTTP ");
            s.append(status.as_str());
            s.append("\nmodel: ");
            s.append(cfg.model.as_str());
            s.append("\nbody: ");
            s.append(body.as_str());
            s
        },
        StreamFailure::Transport { detail, unreachable: _ } => {
            let mut s = "transport error contacting ".to_owned();
            s.append(cfg.base_url.as_str());
            s.append(" (anthropic): ");
            s.append(detail.as_str());
            s
        },
        StreamFailure::Other { detail } => {
            let mut s = "Anthropic stream error: ".to_owned();
            s.append(detail.as_str());
            s
        },
    }
}

/// What a message leads to.
fn message_step(parsed: Option<DeltaEvent>) -> (r: Step)
    ensures
        r@ == message_step_of(parsed),
{
    let event = match parsed {
        Some(event) => event,
        None => return quiet_step(Next::Continue),
    };
    if same(event.kind.as_str(), "message_stop") {
        return quiet_step(Next::Finish { outcome: StreamOutcome::Done, close: true });
    }
    if !same(event.kind.as_str(), "content_block_delta") {
        return quiet_step(Next::Continue);
    }
    let delta = match event.delta {
        Some(d) => d,
        None => return quiet_step(Next::Continue),
    };
    let is_text = match &delta.kind {
        Some(k) => same(k.as_str(), "text_delta"),
        None => false,
    };
    if !is_text {
        return quiet_step(Next::Continue);
    }
    match delta.text {
        Some(t) => {
            if t.as_str().is_empty() {
                return quiet_step(Next::Continue);
            }
            let mut step = quiet_step(Next::Continue);
            push_event(&mut step.emit, StreamEvent::Token(t));
            assert(step@.emit == seq![EventView::Token(t@)]);
            step
        },
        None => quiet_step(Next::Continue),
    }
}

/// What an event of the connection leads to; `parsed` is what a message reads as.
pub fn step<F>(cfg: &ResolvedConfig<F>, event: &SourceEvent, parsed: Option<DeltaEvent>) -> (r: Step)
    ensures
        r@ == step_of(cfg.base_url@, cfg.model@, *event, parsed),
{
    match event {
        SourceEvent::Cancelled => quiet_step(
            Next::Finish { outcome: StreamOutcome::Cancelled, close: true },
        ),
        SourceEvent::Closed => quiet_step(
            Next::Finish { outcome: StreamOutcome::Done, close: false },
        ),
        SourceEvent::Open => quiet_step(Next::Continue),
        SourceEvent::Message(_) => message_step(parsed),
        SourceEvent::Ended => quiet_step(
            Next::Finish { outcome: StreamOutcome::Done, close: false },
        ),
        SourceEvent::Failed(failure) => {
            let error = format_error(cfg, failure);
            quiet_step(Next::Fail { error, close: true })
        },
    }
}

/// A text delta that is not empty is one token of just its text, a stop ends the stream,
/// and every other event is passed over.
pub proof fn law_deltas_are_sent_on(base_url: Seq<char>, model: Seq<char>, data: String, event: DeltaEvent)
    ensures
        ({
            let step = step_of(base_url, model, SourceEvent::Message(data), Some(event));
            let d = event.delta->0;
            let told = event.kind@ == "content_block_delta"@ && event.delta is Some && d.kind is Some
                && d.kind->0@ == "text_delta"@ && d.text is Some && d.text->0@.len() > 0;
            &&& told ==> step.emit == seq![EventView::Token(d.text->0@)] && step.next
                == NextView::Continue
            &&& event.kind@ == "message_stop"@ ==> step.emit.len() == 0 && step.next
                == NextView::Finish(StreamOutcome::Done, true)
            &&& !told && event.kind@ != "message_stop"@ ==> step.emit.len() == 0 && step.next
                == NextView::Continue
        }),
{
    reveal_strlit("content_block_delta");
    reveal_strlit("message_stop");
    assert("content_block_delta"@[0] == 'c' && "message_stop"@[0] == 'm');
}

/// What does not read as an event is passed over, a failure fails with what came of it,
/// and anything else goes as in every stream.
pub proof fn law_other_events(base_url: Seq<char>, model: Seq<char>, event: SourceEvent, parsed: Option<DeltaEvent>)
    ensures
        ({
            let step = step_of(base_url, model, event, parsed);
            match event {
                SourceEvent::Message(_) => parsed is None ==> step.emit.len() == 0 && step.next
                    == NextView::Continue,
                SourceEvent::Failed(StreamFailure::Status { status, body }) => step.emit.len() == 0
                    && step.next == NextView::Fail(
                    "Anthropic request to "@ + base_url + " failed with HTTP "@ + status@
                        + "\nmodel: "@ + model + "\nbody: "@ + body@,
                    true,
                ),
                SourceEvent::Failed(StreamFailure::Transport { detail, unreachable: _ }) =>
                    step.emit.len() == 0 && step.next == NextView::Fail(
                        "transport error contacting "@ + base_url + " (anthropic): "@ + detail@,
                        true,
                    ),
                SourceEvent::Failed(StreamFailure::Other { detail }) => step.emit.len() == 0
                    && step.next == NextView::Fail("Anthropic stream error: "@ + detail@, true),
                _ => step == plain_step(event),
            }
        }),
{
}

/// Without a length in the configuration a reply may have 4096 tokens.
pub proof fn law_request_constants()
    ensures
        DEFAULT_MAX_TOKENS == 4096,
        API_VERSION@ == "2023-06-01"@,
{
}

} // verus!
