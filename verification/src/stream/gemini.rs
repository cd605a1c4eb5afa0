//! The Gemini API: `streamGenerateContent`, each message a chunk of candidates.
use vstd::prelude::*;

use super::{conversation, event_views, lemma_tokens_add, plain_step, push_event, quiet, quiet_step};
use super::{law_tokens, law_tokens_keep_text};
use super::{present, split_system, system_text, texts_of, tokens};
use super::{Next, NextView, SourceEvent, Step, StepView, StreamEvent, StreamFailure, StreamOutcome};
use crate::chat::{message_views, Message, MessageView};
use crate::config::{opt_view, ResolvedConfig};
use crate::text::{clone_strings, concat, same, views};

verus! {

#[derive(Debug)]
pub struct GeminiRequest<F> {
    pub contents: Vec<GeminiContent>,
    pub system_instruction: Option<GeminiContent>,
    pub generation_config: Option<GenerationConfig<F>>,
}

#[derive(Debug)]
pub struct GeminiContent {
    pub role: String,
    pub parts: Vec<GeminiPart>,
}

#[derive(Debug)]
pub struct GeminiPart {
    pub text: String,
}

#[derive(Debug)]
pub struct GenerationConfig<F> {
    pub temperature: Option<F>,
    pub top_p: Option<F>,
    pub max_output_tokens: Option<u32>,
    pub stop_sequences: Vec<String>,
}

#[derive(Debug)]
pub struct GeminiChunk {
    pub candidates: Vec<GeminiCandidate>,
}

#[derive(Debug)]
pub struct GeminiCandidate {
    pub content: Option<GeminiContentResp>,
    pub finish_reason: Option<String>,
}

#[derive(Debug)]
pub struct GeminiContentResp {
    pub parts: Vec<GeminiPartResp>,
}

#[derive(Debug)]
pub struct GeminiPartResp {
    pub text: Option<String>,
}

/// `content` is one part of text under a role.
pub open spec fn says(content: GeminiContent, role: Seq<char>, text: Seq<char>) -> bool {
    content.role@ == role && content.parts@.len() == 1 && content.parts@[0].text@ == text
}

/// The name of a role here: the assistant is the model.
pub open spec fn role_name(role: Seq<char>) -> Seq<char> {
    if role == "assistant"@ {
        "model"@
    } else {
        role
    }
}

/// The texts of a candidate.
pub open spec fn candidate_texts(c: GeminiCandidate) -> Seq<Option<Seq<char>>> {
    match c.content {
        Some(content) => content.parts@.map_values(|p: GeminiPartResp| opt_view(p.text)),
        None => seq![],
    }
}

/// The texts of all candidates, in order.
pub open spec fn all_texts(candidates: Seq<GeminiCandidate>) -> Seq<Option<Seq<char>>>
    decreases candidates.len(),
{
    if candidates.len() == 0 {
        seq![]
    } else {
        all_texts(candidates.drop_last()) + candidate_texts(candidates.last())
    }
}

/// Some candidate tells why it finished.
pub open spec fn finished(candidates: Seq<GeminiCandidate>) -> bool {
    exists|i: int| 0 <= i < candidates.len() && (#[trigger] candidates[i]).finish_reason is Some
}

/// What a message leads to, given the chunk that it reads as: what does not read as
/// one is passed over, and the last chunk still gives its text.
pub open spec fn message_step_of(parsed: Option<GeminiChunk>) -> StepView {
    match parsed {
        Some(chunk) => StepView {
            emit: tokens(all_texts(chunk.candidates@)),
            next: if finished(chunk.candidates@) {
                NextView::Finish(StreamOutcome::Done, true)
            } else {
                NextView::Continue
            },
        },
        None => quiet(NextView::Continue),
    }
}

/// What an event leads to.
pub open spec fn step_of(
    base_url: Seq<char>,
    model: Seq<char>,
    event: SourceEvent,
    parsed: Option<GeminiChunk>,
) -> StepView {
    match event {
        SourceEvent::Message(_) => message_step_of(parsed),
        SourceEvent::Failed(failure) => quiet(
            NextView::Fail(failure_text(base_url, model, failure), true),
        ),
        _ => plain_step(event),
    }
}

/// What the user is told of a failure.
pub open spec fn failure_text(
    base_url: Seq<char>,
    model: Seq<char>,
    failure: StreamFailure,
) -> Seq<char> {
    match failure {
        StreamFailure::Status { status, body } => "Gemini request to "@ + base_url
            + " failed with HTTP "@ + status@ + "\nmodel: "@ + model + "\nbody: "@ + body@,
        StreamFailure::Transport { detail, unreachable } => "transport error contacting "@ + base_url
            + " (gemini): "@ + detail@,
        StreamFailure::Other { detail } => "Gemini stream error: "@ + detail@,
    }
}

/// The address that requests go to.
pub fn request_url<F>(cfg: &ResolvedConfig<F>) -> (r: String)
    ensures
        r@ == cfg.base_url@ + "/models/"@ + cfg.model@ + ":streamGenerateContent?alt=sse"@,
{
    let mut s = cfg.base_url.clone();
    s.append("/models/");
    s.append(cfg.model.as_str());
    s.append(":streamGenerateContent?alt=sse");
    s
}

/// The name of a role here.
pub fn gemini_role(role: &str) -> (r: String)
    ensures
        r@ == role_name(role@),
{
    if same(role, "assistant") {
        "model".to_owned()
    } else {
        role.to_owned()
    }
}

fn one_part(role: String, text: String) -> (r: GeminiContent)
    ensures
        says(r, role@, text@),
{
    let mut parts: Vec<GeminiPart> = Vec::new();
    parts.push(GeminiPart { text });
    GeminiContent { role, parts }
}

/// The contents for a conversation, one per message.
pub open spec fn contents_for(contents: Seq<GeminiContent>, conv: Seq<MessageView>) -> bool {
    contents.len() == conv.len() && forall|i: int|
        0 <= i < contents.len() ==> says(
            #[trigger] contents[i],
            role_name(conv[i].role),
            conv[i].content,
        )
}

/// The request for a conversation: the system's messages apart.
pub fn build_request<F: Copy>(cfg: &ResolvedConfig<F>, messages: &[Message]) -> (r: GeminiRequest<F>)
    ensures
        contents_for(r.contents@, conversation(message_views(messages@))),
        match system_text(message_views(messages@)) {
            Some(t) => r.system_instruction matches Some(c) && says(c, "system"@, t),
            None => r.system_instruction is None,
        },
        r.generation_config matches Some(g) && g.temperature == cfg.temperature && g.top_p
            == cfg.top_p && g.max_output_tokens == cfg.max_tokens && views(g.stop_sequences@)
            == views(cfg.stop@),
{
    let (system, conv) = split_system(messages);
    let ghost all = message_views(conv@);
    let mut contents: Vec<GeminiContent> = Vec::new();
    let mut i: usize = 0;
    while i < conv.len()
        invariant
            i <= conv@.len(),
            all == message_views(conv@),
            contents@.len() == i,
            forall|j: int|
                0 <= j < i ==> says(
                    #[trigger] contents@[j],
                    role_name(all[j].role),
                    all[j].content,
                ),
        decreases conv@.len() - i,
    {
        let role = gemini_role(conv[i].role.as_str());
        contents.push(one_part(role, conv[i].content.clone()));
        assert(all[i as int] == conv@[i as int]@);
        i += 1;
    }
    let system_instruction = match system {
        Some(t) => Some(one_part("system".to_owned(), t)),
        None => None,
    };
    GeminiRequest {
        contents,
        system_instruction,
        generation_config: Some(
            GenerationConfig {
                temperature: cfg.temperature,
                top_p: cfg.top_p,
                max_output_tokens: cfg.max_tokens,
                stop_sequences: clone_strings(cfg.stop.as_slice()),
            },
        ),
    }
}

/// What the user is told of a failure.
pub fn format_error<F>(cfg: &ResolvedConfig<F>, failure: &StreamFailure) -> (r: String)
    ensures
        r@ == failure_text(cfg.base_url@, cfg.model@, *failure),
{
    match failure {
        StreamFailure::Status { status, body } => {
            let mut s = "Gemini request to ".to_owned();
            s.append(cfg.base_url.as_str());
            s.append(" failed with HTTP ");
            s.append(status.as_str());
            s.append("\nmodel: ");
            s.append(cfg.model.as_str());
            s.append("\nbody: ");
            s.append(body.as_str());
            s
        },
        StreamFailure::Transport { detail, unreachable: _ } => {
            let mut s = "transport error contacting ".to_owned();
            s.append(cfg.base_url.as_str());
            s.append(" (gemini): ");
            s.append(detail.as_str());
            s
        },
        StreamFailure::Other { detail } => {
            let mut s = "Gemini stream error: ".to_owned();
            s.append(detail.as_str());
            s
        },
    }
}

/// Adds the tokens of a candidate.
fn push_tokens(events: &mut Vec<StreamEvent>, candidate: &GeminiCandidate)
    ensures
        event_views(final(events)@) == event_views(old(events)@) + tokens(
            candidate_texts(*candidate),
        ),
{
    let ghost texts = candidate_texts(*candidate);
    match &candidate.content {
        Some(content) => {
            let mut i: usize = 0;
            assert(event_views(events@) == event_views(old(events)@) + tokens(texts.take(0)));
            while i < content.parts.len()
                invariant
                    i <= content.parts@.len(),
                    texts == content.parts@.map_values(|p: GeminiPartResp| opt_view(p.text)),
                    event_views(events@) == event_views(old(events)@) + tokens(texts.take(i as int)),
                decreases content.parts@.len() - i,
            {
                assert(texts.take(i + 1).drop_last() == texts.take(i as int));
                assert(texts[i as int] == opt_view(content.parts@[i as int].text));
                match &content.parts[i].text {
                    Some(t) => {
                        if !t.as_str().is_empty() {
                            push_event(events, StreamEvent::Token(t.clone()));
                        }
                    },
                    None => {},
                }
                i += 1;
                assert(event_views(events@) == event_views(old(events)@) + tokens(
                    texts.take(i as int),
                ));
            }
            assert(texts.take(texts.len() as int) == texts);
        },
        None => {
            assert(event_views(events@) == event_views(old(events)@) + tokens(texts));
        },
    }
}

/// What a message leads to.
fn message_step(parsed: Option<GeminiChunk>) -> (r: Step)
    ensures
        r@ == message_step_of(parsed),
{
    let chunk = match parsed {
        Some(chunk) => chunk,
        None => return quiet_step(Next::Continue),
    };
    let ghost all = chunk.candidates@;
    let mut emit: Vec<StreamEvent> = Vec::new();
    let mut done = false;
    let mut i: usize = 0;
    assert(event_views(emit@) == tokens(all_texts(all.take(0))));
    while i < chunk.candidates.len()
        invariant
            i <= chunk.candidates@.len(),
            all == chunk.candidates@,
            event_views(emit@) == tokens(all_texts(all.take(i as int))),
            done <==> finished(all.take(i as int)),
        decreases chunk.candidates@.len() - i,
    {
        proof {
            let was = all.take(i as int);
            let is = all.take(i + 1);
            assert(is.drop_last() == was);
            lemma_tokens_add(all_texts(was), candidate_texts(all[i as int]));
            assert(is[i as int] == all[i as int]);
            assert(finished(is) <==> finished(was) || all[i as int].finish_reason is Some) by {
                if finished(was) {
                    let k = choose|k: int|
                        0 <= k < was.len() && (#[trigger] was[k]).finish_reason is Some;
                    assert(is[k] == was[k]);
                }
                if finished(is) {
                    let k = choose|k: int|
                        0 <= k < is.len() && (#[trigger] is[k]).finish_reason is Some;
                    if k < i {
                        assert(was[k] == is[k]);
                    }
                }
            }
        }
        push_tokens(&mut emit, &chunk.candidates[i]);
        if chunk.candidates[i].finish_reason.is_some() {
            done = true;
        }
        i += 1;
    }
    assert(all.take(all.len() as int) == all);
    let next = if done {
        Next::Finish { outcome: StreamOutcome::Done, close: true }
    } else {
        Next::Continue
    };
    Step { emit, next }
}

/// What an event of the connection leads to; `parsed` is what a message reads as.
pub fn step<F>(cfg: &ResolvedConfig<F>, event: &SourceEvent, parsed: Option<GeminiChunk>) -> (r: Step)
    ensures
        r@ == step_of(cfg.base_url@, cfg.model@, *event, parsed),
{
    match event {
        SourceEvent::Cancelled => quiet_step(
            Next::Finish { outcome: StreamOutcome::Cancelled, close: true },
        ),
        SourceEvent::Closed => quiet_step(
            Next::Finish { outcome: StreamOutcome::Done, close: false },
        ),
        SourceEvent::Open => quiet_step(Next::Continue),
        SourceEvent::Message(_) => message_step(parsed),
        SourceEvent::Ended => quiet_step(
            Next::Finish { outcome: StreamOutcome::Done, close: false },
        ),
        SourceEvent::Failed(failure) => {
            let error = format_error(cfg, failure);
            quiet_step(Next::Fail { error, close: true })
        },
    }
}

/// The texts of candidates are the texts of their parts, as they are and in order: a
/// candidate adds those of its parts behind those before it.
pub proof fn law_candidate_texts(candidates: Seq<GeminiCandidate>, c: GeminiCandidate)
    ensures
        all_texts(seq![]).len() == 0,
        c.content is None ==> all_texts(candidates.push(c)) == all_texts(candidates),
        c.content matches Some(content) ==> all_texts(candidates.push(c)) == all_texts(candidates)
            + content.parts@.map_values(
            |p: GeminiPartResp|
                match p.text {
                    Some(t) => Some(t@),
                    None => None,
                },
        ),
{
    assert(candidates.push(c).drop_last() == candidates);
    match c.content {
        Some(content) => {
            assert(content.parts@.map_values(|p: GeminiPartResp| opt_view(p.text))
                == content.parts@.map_values(
                |p: GeminiPartResp|
                    match p.text {
                        Some(t) => Some(t@),
                        None => None,
                    },
            ));
        },
        None => {
            assert(all_texts(candidates) + Seq::<Option<Seq<char>>>::empty() == all_texts(candidates));
        },
    }
}

/// A chunk is sent on as it is: each text of it that is not empty is one token, in
/// order, and the stream ends with the chunk in which a candidate tells why it finished.
pub proof fn law_chunks_are_sent_on(base_url: Seq<char>, model: Seq<char>, data: String, chunk: GeminiChunk)
    ensures
        ({
            let step = step_of(base_url, model, SourceEvent::Message(data), Some(chunk));
            let cs = chunk.candidates@;
            &&& texts_of(step.emit) == all_texts(cs).filter(
                |t: Option<Seq<char>>| t is Some && t->0.len() > 0,
            ).map_values(|t: Option<Seq<char>>| t->0)
            &&& concat(texts_of(step.emit)) == concat(present(all_texts(cs)))
            &&& step.emit.len() == texts_of(step.emit).len()
            &&& (exists|i: int| 0 <= i < cs.len() && (#[trigger] cs[i]).finish_reason is Some)
                ==> step.next == NextView::Finish(StreamOutcome::Done, true)
            &&& (forall|i: int| 0 <= i < cs.len() ==> (#[trigger] cs[i]).finish_reason is None)
                ==> step.next == NextView::Continue
        }),
{
    law_tokens(all_texts(chunk.candidates@));
    law_tokens_keep_text(all_texts(chunk.candidates@));
}

/// What does not read as a chunk is passed over, a failure fails with what came of it,
/// and anything else goes as in every stream.
pub proof fn law_other_events(base_url: Seq<char>, model: Seq<char>, event: SourceEvent, parsed: Option<GeminiChunk>)
    ensures
        ({
            let step = step_of(base_url, model, event, parsed);
            match event {
                SourceEvent::Message(_) => parsed is None ==> step.emit.len() == 0 && step.next
                    == NextView::Continue,
                SourceEvent::Failed(StreamFailure::Status { status, body }) => step.emit.len() == 0
                    && step.next == NextView::Fail(
                    "Gemini request to "@ + base_url + " failed with HTTP "@ + status@
                        + "\nmodel: "@ + model + "\nbody: "@ + body@,
                    true,
                ),
                SourceEvent::Failed(StreamFailure::Transport { detail, unreachable: _ }) =>
                    step.emit.len() == 0 && step.next == NextView::Fail(
                        "transport error contacting "@ + base_url + " (gemini): "@ + detail@,
                        true,
                    ),
                SourceEvent::Failed(StreamFailure::Other { detail }) => step.emit.len() == 0
                    && step.next == NextView::Fail("Gemini stream error: "@ + detail@, true),
                _ => step == plain_step(event),
            }
        }),
{
}

/// The contents of a request are the messages of the conversation, one for each and in
/// order, each with its whole text as its one part; the assistant is called the model
/// and every other role keeps its name.
pub proof fn law_contents(contents: Seq<GeminiContent>, conv: Seq<MessageView>, i: int)
    requires
        contents_for(contents, conv),
        0 <= i < conv.len(),
    ensures
        contents.len() == conv.len(),
        contents[i].parts@.len() == 1,
        contents[i].parts@[0].text@ == conv[i].content,
        contents[i].role@ == if conv[i].role == "assistant"@ {
            "model"@
        } else {
            conv[i].role
        },
{
    assert(says(contents[i], role_name(conv[i].role), conv[i].content));
}

/// What says a text under a role has that role and that text as its one part.
pub proof fn law_says(content: GeminiContent, role: Seq<char>, text: Seq<char>)
    requires
        says(content, role, text),
    ensures
        content.role@ == role,
        content.parts@.len() == 1,
        content.parts@[0].text@ == text,
{
}

} // verus!
