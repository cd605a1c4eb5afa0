//! The OpenAI-compatible API: `/chat/completions` with server-sent events.
use serde_json::Value;
use vstd::prelude::*;

use super::{
    all_continue, emitted, event_views, plain_step, push_event, quiet, quiet_step, texts_of, tokens,
};
use super::{law_stream_says_all, law_tokens};
use super::{
    EventView, Next, NextView, SourceEvent, Step, StepView, StreamEvent, StreamFailure, StreamOutcome,
};
use crate::config::{opt_view, ResolvedConfig};
use crate::json::{elements, json_of, json_outcome, member, parse, text, unsigned, Json};
use crate::text::{concat, lemma_concat_push, same, trim, trimmed};

verus! {

/// What a chunk of the stream tells: the text of each choice that has one, and the
/// tokens used so far.
#[derive(Debug)]
pub struct Chunk {
    pub texts: Vec<Option<String>>,
    pub total_tokens: Option<u64>,
}

/// What a chunk holds.
#[verifier::ext_equal]
pub struct ChunkView {
    pub texts: Seq<Option<Seq<char>>>,
    pub total_tokens: Option<u64>,
}

impl View for Chunk {
    type V = ChunkView;

    open spec fn view(&self) -> ChunkView {
        ChunkView {
            texts: self.texts@.map_values(|t: Option<String>| opt_view(t)),
            total_tokens: self.total_tokens,
        }
    }
}

/// The text that a choice adds.
pub open spec fn choice_text(choice: Json) -> Option<Seq<char>> {
    choice.member("delta"@).member("content"@).text()
}

/// What a JSON value tells as a chunk.
pub open spec fn chunk_of(value: Json) -> ChunkView {
    ChunkView {
        texts: match value.member("choices"@) {
            Json::Array(choices) => choices.map_values(|c: Json| choice_text(c)),
            _ => seq![],
        },
        total_tokens: value.member("usage"@).member("total_tokens"@).unsigned(),
    }
}

/// The events of a chunk: its tokens, then its usage.
pub open spec fn events_of(chunk: ChunkView) -> Seq<EventView> {
    match chunk.total_tokens {
        Some(total) => tokens(chunk.texts).push(EventView::Usage(total as usize)),
        None => tokens(chunk.texts),
    }
}

/// The data of the message that ends a stream.
pub open spec fn is_done(data: Seq<char>) -> bool {
    trimmed(data) == "[DONE]"@
}

/// What a text tells as a chunk, given what it reads as.
pub open spec fn chunk_outcome(outcome: Result<Json, Seq<char>>) -> Result<ChunkView, Seq<char>> {
    match outcome {
        Ok(value) => Ok(chunk_of(value)),
        Err(e) => Err(e),
    }
}

/// A chunk, or the text of an error.
pub open spec fn chunk_view(read: Result<Chunk, String>) -> Result<ChunkView, Seq<char>> {
    match read {
        Ok(chunk) => Ok(chunk@),
        Err(e) => Err(e@),
    }
}

/// What a message leads to that is not the last, given the chunk that it reads as.
pub open spec fn chunk_step(data: Seq<char>, read: Result<ChunkView, Seq<char>>) -> StepView {
    match read {
        Ok(chunk) => StepView { emit: events_of(chunk), next: NextView::Continue },
        Err(e) => quiet(
            NextView::Fail("malformed stream chunk: "@ + e + "\nraw: "@ + data, false),
        ),
    }
}

/// What an event leads to.
pub open spec fn step_of(base_url: Seq<char>, model: Seq<char>, event: SourceEvent) -> StepView {
    match event {
        SourceEvent::Message(data) => if is_done(data@) {
            quiet(NextView::Finish(StreamOutcome::Done, true))
        } else {
            chunk_step(data@, chunk_outcome(json_outcome(data@)))
        },
        SourceEvent::Failed(failure) => quiet(
            NextView::Fail(failure_text(base_url, model, failure), true),
        ),
        _ => plain_step(event),
    }
}

/// What the user is told of a failure.
pub open spec fn failure_text(
    base_url: Seq<char>,
    model: Seq<char>,
    failure: StreamFailure,
) -> Seq<char> {
    match failure {
        StreamFailure::Status { status, body } => "request to "@ + base_url + " failed with HTTP "@
            + status@ + "\nmodel: "@ + model + "\nbody: "@ + body@,
        StreamFailure::Transport { detail, unreachable } => "transport error contacting "@ + base_url
            + ": "@ + detail@
            + "\nhint: check your network and that api.deepseek.com is reachable"@,
        StreamFailure::Other { detail } => "stream error from "@ + base_url + ": "@ + detail@,
    }
}

/// The address that requests go to.
pub fn request_url<F>(cfg: &ResolvedConfig<F>) -> (r: String)
    ensures
        r@ == cfg.base_url@ + "/chat/completions"@,
{
    let mut s = cfg.base_url.clone();
    s.append("/chat/completions");
    s
}

/// Reads a JSON value as a chunk.
fn chunk_of_value(value: &Value) -> (r: Chunk)
    ensures
        r@ == chunk_of(json_of(*value)),
{
    let ghost all = chunk_of(json_of(*value)).texts;
    let mut texts: Vec<Option<String>> = Vec::new();
    match elements(member(value, "choices")) {
        Some(choices) => {
            let mut i: usize = 0;
            while i < choices.len()
                invariant
                    i <= choices@.len(),
                    all == choices@.map_values(|c: Value| choice_text(json_of(c))),
                    texts@.map_values(|t: Option<String>| opt_view(t)) == all.take(i as int),
                decreases choices@.len() - i,
            {
                let ghost done = texts@.map_values(|t: Option<String>| opt_view(t));
                let t = match text(member(member(&choices[i], "delta"), "content")) {
                    Some(s) => Some(s.to_owned()),
                    None => None,
                };
                texts.push(t);
                i += 1;
                assert(texts@.map_values(|t: Option<String>| opt_view(t)) == done.push(opt_view(t)));
                assert(all.take(i as int) == done.push(all[i - 1]));
            }
            assert(all.take(all.len() as int) == all);
        },
        None => {},
    }
    let total_tokens = unsigned(member(member(value, "usage"), "total_tokens"));
    let r = Chunk { texts, total_tokens };
    assert(r@.texts == all);
    r
}

/// Reads the data of a message as a chunk; the error is what the reader says of it.
pub fn read_chunk(data: &str) -> (r: Result<Chunk, String>)
    ensures
        chunk_view(r) == chunk_outcome(json_outcome(data@)),
{
    match parse(data) {
        Ok(value) => Ok(chunk_of_value(&value)),
        Err(e) => Err(e),
    }
}

/// The events of a chunk.
pub fn chunk_events(chunk: Chunk) -> (r: Vec<StreamEvent>)
    ensures
        event_views(r@) == events_of(chunk@),
{
    let ghost all = chunk@.texts;
    let mut events: Vec<StreamEvent> = Vec::new();
    let mut i: usize = 0;
    assert(event_views(events@) == tokens(all.take(0)));
    while i < chunk.texts.len()
        invariant
            i <= chunk.texts@.len(),
            all == chunk@.texts,
            event_views(events@) == tokens(all.take(i as int)),
        decreases chunk.texts@.len() - i,
    {
        assert(all.take(i + 1).drop_last() == all.take(i as int));
        assert(all[i as int] == opt_view(chunk.texts@[i as int]));
        match &chunk.texts[i] {
            Some(t) => {
                if !t.as_str().is_empty() {
                    push_event(&mut events, StreamEvent::Token(t.clone()));
                }
            },
            None => {},
        }
        i += 1;
    }
    assert(all.take(all.len() as int) == all);
    match chunk.total_tokens {
        Some(total) => {
            push_event(&mut events, StreamEvent::Usage { total_tokens: total as usize });
        },
        None => {},
    }
    events
}

/// What the user is told of a failure.
pub fn format_error<F>(cfg: &ResolvedConfig<F>, failure: &StreamFailure) -> (r: String)
    ensures
        r@ == failure_text(cfg.base_url@, cfg.model@, *failure),
{
    match failure {
        StreamFailure::Status { status, body } => {
            let mut s = "request to ".to_owned();
            s.append(cfg.base_url.as_str());
            s.append(" failed with HTTP ");
            s.append(status.as_str());
            s.append("\nmodel: ");
            s.append(cfg.model.as_str());
            s.append("\nbody: ");
            s.append(body.as_str());
            s
        },
        StreamFailure::Transport { detail, unreachable: _ } => {
            let mut s = "transport error contacting ".to_owned();
            s.append(cfg.base_url.as_str());
            s.append(": ");
            s.append(detail.as_str());
            s.append("\nhint: check your network and that api.deepseek.com is reachable");
            s
        },
        StreamFailure::Other { detail } => {
            let mut s = "stream error from ".to_owned();
            s.append(cfg.base_url.as_str());
            s.append(": ");
            s.append(detail.as_str());
            s
        },
    }
}

/// What a message leads to that is not the last, given the chunk that it reads as.
pub fn read_step(data: &str, read: Result<Chunk, String>) -> (r: Step)
    ensures
        r@ == chunk_step(data@, chunk_view(read)),
{
    match read {
        Ok(chunk) => Step { emit: chunk_events(chunk), next: Next::Continue },
        Err(e) => {
            let mut error = "malformed stream chunk: ".to_owned();
            error.append(e.as_str());
            error.append("\nraw: ");
            error.append(data);
            quiet_step(Next::Fail { error, close: false })
        },
    }
}

/// What a message leads to.
fn message_step(data: &str) -> (r: Step)
    ensures
        r@ == if is_done(data@) {
            quiet(NextView::Finish(StreamOutcome::Done, true))
        } else {
            chunk_step(data@, chunk_outcome(json_outcome(data@)))
        },
{
    if same(trim(data).as_str(), "[DONE]") {
        return quiet_step(Next::Finish { outcome: StreamOutcome::Done, close: true });
    }
    read_step(data, read_chunk(data))
}

/// What an event of the connection leads to.
pub fn step<F>(cfg: &ResolvedConfig<F>, event: SourceEvent) -> (r: Step)
    ensures
        r@ == step_of(cfg.base_url@, cfg.model@, event),
        match event {
            SourceEvent::Message(data) => trimmed(data@) != "[DONE]"@ && json_outcome(
                data@,
            ) is Ok && json_outcome(data@)->Ok_0.member("choices"@) is Array ==> texts_of(r@.emit)
                == json_outcome(data@)->Ok_0.member("choices"@)->Array_0.map_values(
                |c: Json|
                    match c.member("delta"@).member("content"@) {
                        Json::Text(t) => t,
                        _ => seq![],
                    },
            ).filter(|t: Seq<char>| t.len() > 0),
            _ => r@.emit.len() == 0,
        },
{
    proof {
        if event is Message {
            let data = event->Message_0@;
            if json_outcome(data) is Ok && json_outcome(data)->Ok_0.member("choices"@) is Array {
                let value = json_outcome(data)->Ok_0;
                law_chunk_is_sent_on(data, value, value.member("choices"@)->Array_0);
            }
        }
    }
    match event {
        SourceEvent::Cancelled => quiet_step(
            Next::Finish { outcome: StreamOutcome::Cancelled, close: true },
        ),
        SourceEvent::Closed => quiet_step(
            Next::Finish { outcome: StreamOutcome::Done, close: false },
        ),
        SourceEvent::Open => quiet_step(Next::Continue),
        SourceEvent::Message(data) => message_step(data.as_str()),
        SourceEvent::Ended => quiet_step(
            Next::Finish { outcome: StreamOutcome::Done, close: false },
        ),
        SourceEvent::Failed(failure) => {
            let error = format_error(cfg, &failure);
            quiet_step(Next::Fail { error, close: true })
        },
    }
}

/// The content of a choice of a chunk: the string under `delta` and `content`, and
/// nothing where that is none.
spec fn content_of(choice: Json) -> Seq<char> {
    match choice.member("delta"@).member("content"@) {
        Json::Text(t) => t,
        _ => seq![],
    }
}

proof fn lemma_told(choices: Seq<Json>)
    ensures
        texts_of(tokens(choices.map_values(|c: Json| choice_text(c)))) == choices.map_values(
            |c: Json| content_of(c),
        ).filter(|t: Seq<char>| t.len() > 0),
    decreases choices.len(),
{
    reveal(Seq::filter);
    let text = |c: Json| choice_text(c);
    let content = |c: Json| content_of(c);
    let told = |t: Seq<char>| t.len() > 0;
    if choices.len() > 0 {
        let rest = choices.drop_last();
        lemma_told(rest);
        assert(choices.map_values(text).drop_last() == rest.map_values(text));
        assert(choices.map_values(content).drop_last() == rest.map_values(content));
        match choice_text(choices.last()) {
            Some(t) => {
                let done = tokens(rest.map_values(text));
                assert(done.push(EventView::Token(t)).drop_last() == done);
            },
            None => {},
        }
    } else {
        assert(texts_of(tokens(choices.map_values(text))) == choices.map_values(content).filter(told));
    }
}

/// A chunk is sent on as it is: each choice whose `delta.content` is a string that is
/// not empty makes one token of just that string, in the order of the choices, and
/// nothing else makes one; the total of `usage`, where it is a number, comes last as
/// the one count. The stream goes on.
pub proof fn law_chunk_is_sent_on(data: Seq<char>, value: Json, choices: Seq<Json>)
    requires
        value.member("choices"@) == Json::Array(choices),
    ensures
        ({
            let step = chunk_step(data, chunk_outcome(Ok(value)));
            let contents = choices.map_values(
                |c: Json|
                    match c.member("delta"@).member("content"@) {
                        Json::Text(t) => t,
                        _ => seq![],
                    },
            );
            &&& step.next == NextView::Continue
            &&& texts_of(step.emit) == contents.filter(|t: Seq<char>| t.len() > 0)
            &&& concat(texts_of(step.emit)) == concat(contents)
            &&& match value.member("usage"@).member("total_tokens"@) {
                Json::Number(Some(n)) => step.emit.len() == texts_of(step.emit).len() + 1
                    && step.emit.last() == EventView::Usage(n as usize),
                _ => step.emit.len() == texts_of(step.emit).len(),
            }
        }),
{
    let texts = choices.map_values(|c: Json| choice_text(c));
    let contents = choices.map_values(|c: Json| content_of(c));
    let own = tokens(texts);
    assert(choices.map_values(
        |c: Json|
            match c.member("delta"@).member("content"@) {
                Json::Text(t) => t,
                _ => seq![],
            },
    ) == contents);
    lemma_told(choices);
    law_tokens(texts);
    assert(chunk_of(value).texts == texts);
    match value.member("usage"@).member("total_tokens"@) {
        Json::Number(Some(n)) => {
            assert(own.push(EventView::Usage(n as usize)).drop_last() == own);
        },
        _ => {},
    }
    lemma_concat_told(contents);
}

proof fn lemma_concat_told(contents: Seq<Seq<char>>)
    ensures
        concat(contents.filter(|t: Seq<char>| t.len() > 0)) == concat(contents),
    decreases contents.len(),
{
    reveal(Seq::filter);
    let told = |t: Seq<char>| t.len() > 0;
    if contents.len() > 0 {
        let rest = contents.drop_last();
        lemma_concat_told(rest);
        let t = contents.last();
        if t.len() > 0 {
            lemma_concat_push(rest.filter(told), t);
        } else {
            assert(concat(rest) + t == concat(rest));
        }
    }
}

/// The reply is what the server says: from a run of messages that read as chunks and
/// none of which ends the stream, all text that is emitted is the contents of all
/// choices, put one after the other, character for character.
pub proof fn law_reply_is_all_contents(
    base_url: Seq<char>,
    model: Seq<char>,
    events: Seq<SourceEvent>,
    values: Seq<Json>,
    choices: Seq<Seq<Json>>,
)
    requires
        events.len() == values.len() == choices.len(),
        forall|i: int|
            #![trigger events[i]]
            0 <= i < events.len() ==> {
                &&& events[i] matches SourceEvent::Message(data)
                &&& trimmed(data@) != "[DONE]"@
                &&& json_outcome(data@) == Ok::<Json, Seq<char>>(values[i])
                &&& values[i].member("choices"@) == Json::Array(choices[i])
            },
    ensures
        ({
            let steps = events.map_values(|e: SourceEvent| step_of(base_url, model, e));
            let said = choices.map_values(
                |cs: Seq<Json>|
                    concat(
                        cs.map_values(
                            |c: Json|
                                match c.member("delta"@).member("content"@) {
                                    Json::Text(t) => t,
                                    _ => seq![],
                                },
                        ),
                    ),
            );
            &&& all_continue(steps)
            &&& concat(texts_of(emitted(steps))) == concat(said)
        }),
{
    let steps = events.map_values(|e: SourceEvent| step_of(base_url, model, e));
    let said = choices.map_values(
        |cs: Seq<Json>|
            concat(
                cs.map_values(
                    |c: Json|
                        match c.member("delta"@).member("content"@) {
                            Json::Text(t) => t,
                            _ => seq![],
                        },
                ),
            ),
    );
    assert forall|i: int| 0 <= i < steps.len() implies (#[trigger] steps[i]).next
        == NextView::Continue && concat(texts_of(steps[i].emit)) == said[i] by {
        assert(events[i] is Message);
        law_chunk_is_sent_on(events[i]->Message_0@, values[i], choices[i]);
    }
    law_stream_says_all(steps, said);
}

/// The end and the failures of a stream: `[DONE]`, whatever white space is around it,
/// ends it; data that does not read as JSON fails with what the reader says and the
/// data; a failure fails with what came of it. Nothing of this emits anything.
pub proof fn law_ends_and_failures(base_url: Seq<char>, model: Seq<char>, event: SourceEvent)
    ensures
        ({
            let step = step_of(base_url, model, event);
            match event {
                SourceEvent::Message(data) => {
                    &&& trimmed(data@) == "[DONE]"@ ==> step.emit.len() == 0 && step.next
                        == NextView::Finish(StreamOutcome::Done, true)
                    &&& (trimmed(data@) != "[DONE]"@ && json_outcome(data@) is Err)
                        ==> step.emit.len() == 0 && step.next == NextView::Fail(
                        "malformed stream chunk: "@ + json_outcome(data@)->Err_0 + "\nraw: "@ + data@,
                        false,
                    )
                },
                SourceEvent::Failed(StreamFailure::Status { status, body }) => step.emit.len() == 0
                    && step.next == NextView::Fail(
                    "request to "@ + base_url + " failed with HTTP "@ + status@ + "\nmodel: "@ + model
                        + "\nbody: "@ + body@,
                    true,
                ),
                SourceEvent::Failed(StreamFailure::Transport { detail, unreachable: _ }) =>
                    step.emit.len() == 0 && step.next == NextView::Fail(
                        "transport error contacting "@ + base_url + ": "@ + detail@
                            + "\nhint: check your network and that api.deepseek.com is reachable"@,
                        true,
                    ),
                SourceEvent::Failed(StreamFailure::Other { detail }) => step.emit.len() == 0
                    && step.next == NextView::Fail(
                    "stream error from "@ + base_url + ": "@ + detail@,
                    true,
                ),
                _ => step == plain_step(event),
            }
        }),
{
}

/// A chunk whose `choices` is no array says nothing, but may still tell the usage.
pub proof fn law_chunk_without_choices(data: Seq<char>, value: Json)
    requires
        !(value.member("choices"@) is Array),
    ensures
        ({
            let step = chunk_step(data, chunk_outcome(Ok(value)));
            &&& step.next == NextView::Continue
            &&& match value.member("usage"@).member("total_tokens"@) {
                Json::Number(Some(n)) => step.emit == seq![EventView::Usage(n as usize)],
                _ => step.emit.len() == 0,
            }
        }),
{
    assert(tokens(Seq::<Option<Seq<char>>>::empty()) == Seq::<EventView>::empty());
}

} // verus!
