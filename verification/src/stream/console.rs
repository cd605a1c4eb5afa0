//! Streaming a reply onto a console: text goes out as it arrives, and is kept for
//! the conversation.
use vstd::prelude::*;

use super::{Next, SourceEvent, StreamFailure, StreamOutcome};
use crate::chat::{StreamChoice, StreamChunk};
use crate::config::{opt_view, ResolvedConfig};
use crate::text::{same, trim};

verus! {

/// Who answers: a name, whether it runs on this machine, and what helps where it
/// cannot be reached.
#[derive(Debug)]
pub struct Backend<'a> {
    pub name: &'a str,
    pub local: bool,
    pub hint: &'a str,
}

/// What an event leads to: text to write out, and how it goes on.
#[derive(Debug)]
pub struct ConsoleStep {
    pub write: String,
    pub next: Next,
}

/// The text of a run of choices.
pub open spec fn choices_text(choices: Seq<StreamChoice>) -> Seq<char>
    decreases choices.len(),
{
    if choices.len() == 0 {
        seq![]
    } else {
        let rest = choices_text(choices.drop_last());
        match opt_view(choices.last().delta.content) {
            Some(t) => rest + t,
            None => rest,
        }
    }
}

/// What is told of a failure.
pub open spec fn failure_text(
    base_url: Seq<char>,
    model: Seq<char>,
    backend: Backend,
    failure: StreamFailure,
) -> Seq<char> {
    match failure {
        StreamFailure::Status { status, body } => "request to "@ + base_url + " failed with HTTP "@
            + status@ + "\nprovider: "@ + backend.name@ + "  model: "@ + model + "\nbody: "@ + body@,
        StreamFailure::Transport { detail, unreachable } => {
            let told = "transport error contacting "@ + base_url + " ("@ + backend.name@ + "): "@
                + detail@;
            if backend.local && unreachable {
                told + "\nhint: "@ + backend.hint@
            } else {
                told
            }
        },
        StreamFailure::Other { detail } => "stream error from "@ + base_url + " ("@ + backend.name@
            + "): "@ + detail@,
    }
}

/// The end of a reply: a line break, and how it came to it.
pub open spec fn ends(step: ConsoleStep, outcome: StreamOutcome, close: bool) -> bool {
    step.write@ == "\n"@ && step.next == (Next::Finish { outcome, close })
}

/// The step fails with this text, and nothing is written.
pub open spec fn fails(step: ConsoleStep, text: Seq<char>, close: bool) -> bool {
    step.write@.len() == 0 && (step.next matches Next::Fail { error, close: c } && error@ == text && c
        == close)
}

/// A message was the last one.
pub open spec fn is_done(data: Seq<char>) -> bool {
    crate::text::trimmed(data) == "[DONE]"@
}

/// What the user is told of a failure.
pub fn format_stream_error<F>(
    cfg: &ResolvedConfig<F>,
    backend: &Backend,
    failure: &StreamFailure,
) -> (r: String)
    ensures
        r@ == failure_text(cfg.base_url@, cfg.model@, *backend, *failure),
{
    match failure {
        StreamFailure::Status { status, body } => {
            let mut s = "request to ".to_owned();
            s.append(cfg.base_url.as_str());
            s.append(" failed with HTTP ");
            s.append(status.as_str());
            s.append("\nprovider: ");
            s.append(backend.name);
            s.append("  model: ");
            s.append(cfg.model.as_str());
            s.append("\nbody: ");
            s.append(body.as_str());
            s
        },
        StreamFailure::Transport { detail, unreachable } => {
            let mut s = "transport error contacting ".to_owned();
            s.append(cfg.base_url.as_str());
            s.append(" (");
            s.append(backend.name);
            s.append("): ");
            s.append(detail.as_str());
            if backend.local && *unreachable {
                s.append("\nhint: ");
                s.append(backend.hint);
            }
            s
        },
        StreamFailure::Other { detail } => {
            let mut s = "stream error from ".to_owned();
            s.append(cfg.base_url.as_str());
            s.append(" (");
            s.append(backend.name);
            s.append("): ");
            s.append(detail.as_str());
            s
        },
    }
}

/// The text that a chunk adds.
pub fn chunk_text(chunk: &StreamChunk) -> (r: String)
    ensures
        r@ == choices_text(chunk.choices@),
{
    let mut out = String::new();
    let mut i: usize = 0;
    assert(out@ == choices_text(chunk.choices@.take(0)));
    while i < chunk.choices.len()
        invariant
            i <= chunk.choices@.len(),
            out@ == choices_text(chunk.choices@.take(i as int)),
        decreases chunk.choices@.len() - i,
    {
        assert(chunk.choices@.take(i + 1).drop_last() == chunk.choices@.take(i as int));
        match &chunk.choices[i].delta.content {
            Some(t) => {
                out.append(t.as_str());
            },
            None => {},
        }
        i += 1;
    }
    assert(chunk.choices@.take(i as int) == chunk.choices@);
    out
}

fn finish(outcome: StreamOutcome, close: bool) -> (r: ConsoleStep)
    ensures
        ends(r, outcome, close),
{
    ConsoleStep { write: "\n".to_owned(), next: Next::Finish { outcome, close } }
}

/// What an event of the connection leads to, and what it adds to the reply in
/// `sink`. `parsed` is what a message reads as: a chunk, or why it is none.
pub fn step<F>(
    cfg: &ResolvedConfig<F>,
    backend: &Backend,
    event: &SourceEvent,
    parsed: &Result<StreamChunk, String>,
    sink: &mut String,
) -> (r: ConsoleStep)
    ensures
        match *event {
            SourceEvent::Cancelled => ends(r, StreamOutcome::Cancelled, true),
            SourceEvent::Closed => ends(r, StreamOutcome::Done, false),
            SourceEvent::Ended => ends(r, StreamOutcome::Done, false),
            SourceEvent::Open => r.write@.len() == 0 && r.next is Continue,
            SourceEvent::Failed(failure) => fails(
                r,
                failure_text(cfg.base_url@, cfg.model@, *backend, failure),
                true,
            ),
            SourceEvent::Message(data) => if is_done(data@) {
                ends(r, StreamOutcome::Done, true)
            } else {
                match *parsed {
                    Ok(chunk) => r.write@ == choices_text(chunk.choices@) && r.next is Continue,
                    Err(e) => fails(
                        r,
                        "malformed stream chunk: "@ + e@ + "\nraw: "@ + data@,
                        false,
                    ),
                }
            },
        },
        final(sink)@ == if r.next is Continue {
            old(sink)@ + r.write@
        } else {
            old(sink)@
        },
{
    match event {
        SourceEvent::Cancelled => finish(StreamOutcome::Cancelled, true),
        SourceEvent::Closed => finish(StreamOutcome::Done, false),
        SourceEvent::Ended => finish(StreamOutcome::Done, false),
        SourceEvent::Open => {
            let r = ConsoleStep { write: String::new(), next: Next::Continue };
            assert(old(sink)@ + r.write@ == old(sink)@);
            r
        },
        SourceEvent::Failed(failure) => {
            let error = format_stream_error(cfg, backend, failure);
            ConsoleStep { write: String::new(), next: Next::Fail { error, close: true } }
        },
        SourceEvent::Message(data) => {
            if same(trim(data.as_str()).as_str(), "[DONE]") {
                return finish(StreamOutcome::Done, true);
            }
            match parsed {
                Ok(chunk) => {
                    let write = chunk_text(chunk);
                    sink.append(write.as_str());
                    ConsoleStep { write, next: Next::Continue }
                },
                Err(e) => {
                    let mut error = "malformed stream chunk: ".to_owned();
                    error.append(e.as_str());
                    error.append("\nraw: ");
                    error.append(data.as_str());
                    ConsoleStep { write: String::new(), next: Next::Fail { error, close: false } }
                },
            }
        },
    }
}

/// The address to ask first whether a server on this machine is up; `None` for
/// one elsewhere, which is not asked.
pub fn probe_url<F>(cfg: &ResolvedConfig<F>, backend: &Backend) -> (r: Option<String>)
    ensures
        opt_view(r) == if backend.local {
            Some(cfg.base_url@ + "/models"@)
        } else {
            None
        },
{
    if !backend.local {
        return None;
    }
    let mut s = cfg.base_url.clone();
    s.append("/models");
    Some(s)
}

/// What is told where that server is not up.
pub fn probe_error<F>(cfg: &ResolvedConfig<F>, backend: &Backend, detail: &str) -> (r: String)
    ensures
        r@ == "could not reach "@ + cfg.base_url@ + " ("@ + backend.name@ + "): "@ + detail@
            + "\nhint: "@ + backend.hint@,
{
    let mut s = "could not reach ".to_owned();
    s.append(cfg.base_url.as_str());
    s.append(" (");
    s.append(backend.name);
    s.append("): ");
    s.append(detail);
    s.append("\nhint: ");
    s.append(backend.hint);
    s
}

/// The text of choices is what each of them has, as it is and in order.
pub proof fn law_choices_text(choices: Seq<StreamChoice>, c: StreamChoice)
    ensures
        choices_text(seq![]).len() == 0,
        c.delta.content matches Some(t) ==> choices_text(choices.push(c)) == choices_text(choices)
            + t@,
        c.delta.content is None ==> choices_text(choices.push(c)) == choices_text(choices),
{
    assert(choices.push(c).drop_last() == choices);
}

/// A reply ends with a line break, and a failure writes nothing and tells its text.
pub proof fn law_ends_and_fails(step: ConsoleStep, outcome: StreamOutcome, text: Seq<char>, close: bool)
    ensures
        ends(step, outcome, close) <==> step.write@ == "\n"@ && step.next == (Next::Finish {
            outcome,
            close,
        }),
        fails(step, text, close) ==> step.write@.len() == 0 && step.next is Fail
            && step.next->error@ == text && step.next->Fail_close == close,
{
}

/// The last message is `[DONE]`, whatever white space is around it.
pub proof fn law_done(data: Seq<char>)
    ensures
        is_done(data) <==> crate::text::trimmed(data) == "[DONE]"@,
{
}

/// What is told of a failure: the server and who answers, what came of it, and what
/// helps where a server on this machine cannot be reached.
pub proof fn law_failures_tell(
    base_url: Seq<char>,
    model: Seq<char>,
    backend: Backend,
    failure: StreamFailure,
)
    ensures
        failure_text(base_url, model, backend, failure) == match failure {
            StreamFailure::Status { status, body } => "request to "@ + base_url
                + " failed with HTTP "@ + status@ + "\nprovider: "@ + backend.name@ + "  model: "@
                + model + "\nbody: "@ + body@,
            StreamFailure::Transport { detail, unreachable } => "transport error contacting "@
                + base_url + " ("@ + backend.name@ + "): "@ + detail@ + if backend.local
                && unreachable {
                "\nhint: "@ + backend.hint@
            } else {
                seq![]
            },
            StreamFailure::Other { detail } => "stream error from "@ + base_url + " ("@
                + backend.name@ + "): "@ + detail@,
        },
{
    match failure {
        StreamFailure::Transport { detail, unreachable } => {
            let told = "transport error contacting "@ + base_url + " ("@ + backend.name@ + "): "@
                + detail@;
            assert(told + ("\nhint: "@ + backend.hint@) == told + "\nhint: "@ + backend.hint@);
            assert(told + Seq::<char>::empty() == told);
        },
        _ => {},
    }
}

} // verus!
