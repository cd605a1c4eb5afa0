//! Streaming a reply: what each event of the connection leads to.
//!
//! Whoever holds the connection asks for the step that an event leads to, sends on
//! what the step emits, and goes on, ends or fails as it says.
use vstd::prelude::*;

pub mod anthropic;
pub mod console;
pub mod gemini;
pub mod openai_compat;

use crate::chat::{message_views, Message, MessageView};
use crate::text::{concat, joined, lemma_concat_add, lemma_concat_push, same};

verus! {

#[derive(Debug, Clone, Copy, PartialEq, Eq, Structural)]
pub enum StreamOutcome {
    /// Server signalled end of stream cleanly.
    Done,
    /// User cancelled mid-stream.
    Cancelled,
}

#[derive(Debug, Clone)]
pub enum StreamEvent {
    Token(String),
    /// Usage info from the final stream chunk (total tokens used).
    Usage { total_tokens: usize },
}

/// What a stream event holds.
pub enum EventView {
    Token(Seq<char>),
    Usage(usize),
}

impl View for StreamEvent {
    type V = EventView;

    open spec fn view(&self) -> EventView {
        match *self {
            StreamEvent::Token(t) => EventView::Token(t@),
            StreamEvent::Usage { total_tokens } => EventView::Usage(total_tokens),
        }
    }
}

/// What each of a run of stream events holds.
pub open spec fn event_views(events: Seq<StreamEvent>) -> Seq<EventView> {
    events.map_values(|e: StreamEvent| e@)
}

/// Adds one event.
pub fn push_event(events: &mut Vec<StreamEvent>, event: StreamEvent)
    ensures
        event_views(final(events)@) == event_views(old(events)@).push(event@),
{
    events.push(event);
    assert(event_views(events@) == event_views(old(events)@).push(event@));
}

/// The tokens of a run of texts; missing and empty ones are left out.
pub open spec fn tokens(texts: Seq<Option<Seq<char>>>) -> Seq<EventView>
    decreases texts.len(),
{
    if texts.len() == 0 {
        seq![]
    } else {
        let rest = tokens(texts.drop_last());
        match texts.last() {
            Some(t) => if t.len() > 0 {
                rest.push(EventView::Token(t))
            } else {
                rest
            },
            None => rest,
        }
    }
}

pub proof fn lemma_tokens_add(a: Seq<Option<Seq<char>>>, b: Seq<Option<Seq<char>>>)
    ensures
        tokens(a + b) == tokens(a) + tokens(b),
    decreases b.len(),
{
    if b.len() == 0 {
        assert(a + b == a);
        assert(tokens(a) + tokens(b) == tokens(a));
    } else {
        lemma_tokens_add(a, b.drop_last());
        assert((a + b).drop_last() == a + b.drop_last());
        assert(tokens(a + b) == tokens(a) + tokens(b));
    }
}

/// The texts of events of a stream.
pub open spec fn texts_of(events: Seq<EventView>) -> Seq<Seq<char>>
    decreases events.len(),
{
    if events.len() == 0 {
        seq![]
    } else {
        match events.last() {
            EventView::Token(t) => texts_of(events.drop_last()).push(t),
            EventView::Usage(_) => texts_of(events.drop_last()),
        }
    }
}

/// The texts that are there.
pub open spec fn present(texts: Seq<Option<Seq<char>>>) -> Seq<Seq<char>>
    decreases texts.len(),
{
    if texts.len() == 0 {
        seq![]
    } else {
        match texts.last() {
            Some(t) => present(texts.drop_last()).push(t),
            None => present(texts.drop_last()),
        }
    }
}

/// Tokens hold all the text there is, in order: leaving out missing and empty texts
/// loses none of it.
pub proof fn law_tokens_keep_text(texts: Seq<Option<Seq<char>>>)
    ensures
        concat(texts_of(tokens(texts))) == concat(present(texts)),
    decreases texts.len(),
{
    if texts.len() > 0 {
        law_tokens_keep_text(texts.drop_last());
        let rest = tokens(texts.drop_last());
        match texts.last() {
            Some(t) => {
                lemma_concat_push(present(texts.drop_last()), t);
                if t.len() > 0 {
                    assert(rest.push(EventView::Token(t)).drop_last() == rest);
                    lemma_concat_push(texts_of(rest), t);
                } else {
                    assert(concat(present(texts.drop_last())) + t == concat(
                        present(texts.drop_last()),
                    ));
                }
            },
            None => {},
        }
    }
}

proof fn lemma_texts_add(a: Seq<EventView>, b: Seq<EventView>)
    ensures
        texts_of(a + b) == texts_of(a) + texts_of(b),
    decreases b.len(),
{
    if b.len() == 0 {
        assert(a + b == a);
        assert(texts_of(a) + texts_of(b) == texts_of(a));
    } else {
        lemma_texts_add(a, b.drop_last());
        assert((a + b).drop_last() == a + b.drop_last());
        assert(texts_of(a + b) == texts_of(a) + texts_of(b));
    }
}

/// Why a connection failed.
#[derive(Debug)]
pub enum StreamFailure {
    /// The server answered with another status than success.
    Status { status: String, body: String },
    /// The server could not be talked to. `unreachable` where not even a request
    /// got through.
    Transport { detail: String, unreachable: bool },
    /// Anything else.
    Other { detail: String },
}

/// What a connection comes up with.
#[derive(Debug)]
pub enum SourceEvent {
    /// The user cancelled.
    Cancelled,
    /// There is nothing left.
    Closed,
    /// The connection stands.
    Open,
    /// A message with its data.
    Message(String),
    /// The server ended the stream.
    Ended,
    /// The connection failed.
    Failed(StreamFailure),
}

/// How it goes on after an event. `close` tells whether the connection is still to
/// be closed.
#[derive(Debug)]
pub enum Next {
    Continue,
    Finish { outcome: StreamOutcome, close: bool },
    Fail { error: String, close: bool },
}

/// What an event leads to: events to send on, in order, and how it goes on.
#[derive(Debug)]
pub struct Step {
    pub emit: Vec<StreamEvent>,
    pub next: Next,
}

/// What it means to go on.
pub enum NextView {
    Continue,
    Finish(StreamOutcome, bool),
    Fail(Seq<char>, bool),
}

/// What a step holds.
#[verifier::ext_equal]
pub struct StepView {
    pub emit: Seq<EventView>,
    pub next: NextView,
}

impl View for Step {
    type V = StepView;

    open spec fn view(&self) -> StepView {
        StepView {
            emit: event_views(self.emit@),
            next: match self.next {
                Next::Continue => NextView::Continue,
                Next::Finish { outcome, close } => NextView::Finish(outcome, close),
                Next::Fail { error, close } => NextView::Fail(error@, close),
            },
        }
    }
}

/// A step that emits nothing.
pub open spec fn quiet(next: NextView) -> StepView {
    StepView { emit: seq![], next }
}

/// A step that emits nothing.
pub fn quiet_step(next: Next) -> (r: Step)
    ensures
        r.next == next,
        r@.emit == Seq::<EventView>::empty(),
{
    let r = Step { emit: Vec::new(), next };
    assert(r@.emit == Seq::<EventView>::empty());
    r
}

/// What an event that is neither a message nor a failure leads to.
pub open spec fn plain_step(event: SourceEvent) -> StepView {
    match event {
        SourceEvent::Cancelled => quiet(NextView::Finish(StreamOutcome::Cancelled, true)),
        SourceEvent::Closed => quiet(NextView::Finish(StreamOutcome::Done, false)),
        SourceEvent::Ended => quiet(NextView::Finish(StreamOutcome::Done, false)),
        _ => quiet(NextView::Continue),
    }
}

/// What it leads to that nobody takes an event that was sent on: without a reader
/// for the tokens the stream counts as cancelled, usage is only lost.
pub fn after_failed_send(event: &StreamEvent) -> (r: Option<StreamOutcome>)
    ensures
        r == match event@ {
            EventView::Token(_) => Some(StreamOutcome::Cancelled),
            EventView::Usage(_) => None::<StreamOutcome>,
        },
{
    match event {
        StreamEvent::Token(_) => Some(StreamOutcome::Cancelled),
        StreamEvent::Usage { .. } => None,
    }
}

/// What a run of steps emits: all of it up to the first that does not go on.
pub open spec fn emitted(steps: Seq<StepView>) -> Seq<EventView>
    decreases steps.len(),
{
    if steps.len() == 0 {
        seq![]
    } else if steps[0].next == NextView::Continue {
        steps[0].emit + emitted(steps.drop_first())
    } else {
        steps[0].emit
    }
}

/// Every step of the run goes on.
pub open spec fn all_continue(steps: Seq<StepView>) -> bool {
    forall|i: int| 0 <= i < steps.len() ==> (#[trigger] steps[i]).next == NextView::Continue
}

/// Events are sent on in the order in which their messages came: while a stream
/// goes on, what comes later is emitted after what came before.
pub proof fn law_emitted_in_order(first: Seq<StepView>, second: Seq<StepView>)
    requires
        all_continue(first),
    ensures
        emitted(first + second) == emitted(first) + emitted(second),
    decreases first.len(),
{
    if first.len() == 0 {
        assert(first + second == second);
        assert(emitted(first) + emitted(second) == emitted(second));
    } else {
        law_emitted_in_order(first.drop_first(), second);
        assert((first + second).drop_first() == first.drop_first() + second);
        assert((first + second)[0] == first[0]);
        assert(emitted(first + second) == emitted(first) + emitted(second));
    }
}

/// The texts that each of a run of messages holds, all of them in order.
pub open spec fn all_present(messages: Seq<Seq<Option<Seq<char>>>>) -> Seq<char>
    decreases messages.len(),
{
    if messages.len() == 0 {
        seq![]
    } else {
        concat(present(messages[0])) + all_present(messages.drop_first())
    }
}

/// The stream that arrives is the one that was sent: where each message leads to its
/// tokens, and perhaps to a count, the text that is emitted is the text of all
/// messages, in order.
pub proof fn law_stream_keeps_text(
    messages: Seq<Seq<Option<Seq<char>>>>,
    usage: Seq<Option<usize>>,
    steps: Seq<StepView>,
)
    requires
        messages.len() == usage.len() == steps.len(),
        all_continue(steps),
        forall|i: int|
            0 <= i < steps.len() ==> (#[trigger] steps[i]).emit == match usage[i] {
                Some(n) => tokens(messages[i]).push(EventView::Usage(n)),
                None => tokens(messages[i]),
            },
    ensures
        concat(texts_of(emitted(steps))) == all_present(messages),
    decreases steps.len(),
{
    if steps.len() > 0 {
        let rest = steps.drop_first();
        assert forall|i: int| 0 <= i < rest.len() implies (#[trigger] rest[i]).emit
            == match usage.drop_first()[i] {
            Some(n) => tokens(messages.drop_first()[i]).push(EventView::Usage(n)),
            None => tokens(messages.drop_first()[i]),
        } && rest[i].next == NextView::Continue by {
            assert(rest[i] == steps[i + 1]);
        }
        law_stream_keeps_text(messages.drop_first(), usage.drop_first(), rest);
        law_tokens_keep_text(messages[0]);
        let own = tokens(messages[0]);
        assert(usage[0] matches Some(n) ==> own.push(EventView::Usage(n)).drop_last() == own);
        assert(texts_of(steps[0].emit) == texts_of(own));
        lemma_texts_add(steps[0].emit, emitted(rest));
        lemma_concat_add(texts_of(steps[0].emit), texts_of(emitted(rest)));
    }
}

/// Nothing is emitted after the end: what comes after a step that ends or fails
/// makes no difference.
pub proof fn law_nothing_after_end(first: Seq<StepView>, second: Seq<StepView>)
    requires
        !all_continue(first),
    ensures
        emitted(first + second) == emitted(first),
    decreases first.len(),
{
    assert((first + second)[0] == first[0]);
    if first[0].next == NextView::Continue {
        assert(!all_continue(first.drop_first())) by {
            let i = choose|i: int|
                0 <= i < first.len() && (#[trigger] first[i]).next != NextView::Continue;
            assert(first.drop_first()[i - 1] == first[i]);
        }
        law_nothing_after_end(first.drop_first(), second);
        assert((first + second).drop_first() == first.drop_first() + second);
    }
}

/// The instructions among messages: the contents of those of the system, one per
/// line.
pub open spec fn system_text(messages: Seq<MessageView>) -> Option<Seq<char>>
    decreases messages.len(),
{
    if messages.len() == 0 {
        None
    } else {
        let m = messages.last();
        let rest = system_text(messages.drop_last());
        if m.role != "system"@ {
            rest
        } else {
            match rest {
                Some(prev) => Some(prev + "\n"@ + m.content),
                None => Some(m.content),
            }
        }
    }
}

/// The messages that are not of the system, in order.
pub open spec fn conversation(messages: Seq<MessageView>) -> Seq<MessageView> {
    messages.filter(|m: MessageView| m.role != "system"@)
}

/// Parts the system's messages from the conversation.
pub fn split_system(messages: &[Message]) -> (r: (Option<String>, Vec<Message>))
    ensures
        crate::config::opt_view(r.0) == system_text(message_views(messages@)),
        message_views(r.1@) == conversation(message_views(messages@)),
{
    let ghost all = message_views(messages@);
    let mut system: Option<String> = None;
    let mut conv: Vec<Message> = Vec::new();
    let mut i: usize = 0;
    reveal(Seq::filter);
    while i < messages.len()
        invariant
            i <= messages@.len(),
            all == message_views(messages@),
            crate::config::opt_view(system) == system_text(all.take(i as int)),
            message_views(conv@) == conversation(all.take(i as int)),
        decreases messages@.len() - i,
    {
        let ghost done = message_views(conv@);
        reveal(Seq::filter);
        assert(all.take(i + 1).drop_last() == all.take(i as int));
        assert(all.take(i + 1).last() == messages@[i as int]@);
        if same(messages[i].role.as_str(), "system") {
            system = match system {
                Some(prev) => {
                    let mut text = prev;
                    text.append("\n");
                    text.append(messages[i].content.as_str());
                    Some(text)
                },
                None => Some(messages[i].content.clone()),
            };
        } else {
            conv.push(messages[i].clone());
            assert(message_views(conv@) == done.push(messages@[i as int]@));
        }
        i += 1;
    }
    assert(all.take(all.len() as int) == all);
    (system, conv)
}

/// Tokens are the texts that are there and not empty, each as it is and in order; no
/// token is a count.
pub proof fn law_tokens(texts: Seq<Option<Seq<char>>>)
    ensures
        texts_of(tokens(texts)) == texts.filter(
            |t: Option<Seq<char>>| t is Some && t->0.len() > 0,
        ).map_values(|t: Option<Seq<char>>| t->0),
        forall|i: int| 0 <= i < tokens(texts).len() ==> #[trigger] tokens(texts)[i] is Token,
        tokens(texts).len() == texts_of(tokens(texts)).len(),
    decreases texts.len(),
{
    reveal(Seq::filter);
    let told = |t: Option<Seq<char>>| t is Some && t->0.len() > 0;
    let plain = |t: Option<Seq<char>>| t->0;
    if texts.len() > 0 {
        law_tokens(texts.drop_last());
        let rest = tokens(texts.drop_last());
        let kept = texts.drop_last().filter(told);
        match texts.last() {
            Some(t) => {
                if t.len() > 0 {
                    assert(rest.push(EventView::Token(t)).drop_last() == rest);
                    assert(kept.push(texts.last()).map_values(plain) == kept.map_values(plain).push(t));
                }
            },
            None => {},
        }
    } else {
        assert(texts_of(tokens(texts)) == texts.filter(told).map_values(plain));
    }
}

/// The text of a run of events is the text of its tokens: a token adds its text at the
/// end, a count adds none.
pub proof fn law_texts_of(events: Seq<EventView>, t: Seq<char>, n: usize)
    ensures
        texts_of(events.push(EventView::Token(t))) == texts_of(events).push(t),
        texts_of(events.push(EventView::Usage(n))) == texts_of(events),
        texts_of(Seq::<EventView>::empty()).len() == 0,
{
    assert(events.push(EventView::Token(t)).drop_last() == events);
    assert(events.push(EventView::Usage(n)).drop_last() == events);
}

/// The reply is what the messages say: where every step of a stream goes on and emits
/// the text of its message, all that is emitted is the texts of the messages, in order.
pub proof fn law_stream_says_all(steps: Seq<StepView>, said: Seq<Seq<char>>)
    requires
        steps.len() == said.len(),
        all_continue(steps),
        forall|i: int|
            0 <= i < steps.len() ==> concat(texts_of((#[trigger] steps[i]).emit)) == said[i],
    ensures
        concat(texts_of(emitted(steps))) == concat(said),
    decreases steps.len(),
{
    if steps.len() > 0 {
        let rest = steps.drop_first();
        let more = said.drop_first();
        assert forall|i: int| 0 <= i < rest.len() implies concat(texts_of((#[trigger] rest[i]).emit))
            == more[i] && rest[i].next == NextView::Continue by {
            assert(rest[i] == steps[i + 1]);
        }
        law_stream_says_all(rest, more);
        lemma_texts_add(steps[0].emit, emitted(rest));
        lemma_concat_add(texts_of(steps[0].emit), texts_of(emitted(rest)));
        lemma_concat_push(seq![], said[0]);
        assert(Seq::<Seq<char>>::empty().push(said[0]) == seq![said[0]]);
        lemma_concat_add(seq![said[0]], more);
        assert(seq![said[0]] + more == said);
    } else {
        assert(said == Seq::<Seq<char>>::empty());
    }
}

/// What is not a message and no failure says nothing: a stream that is cancelled ends
/// cancelled and is closed, one that is over ends as done, and one that is opened goes on.
pub proof fn law_plain_step(event: SourceEvent)
    ensures
        plain_step(event).emit.len() == 0,
        event is Cancelled ==> plain_step(event).next == NextView::Finish(
            StreamOutcome::Cancelled,
            true,
        ),
        event is Closed || event is Ended ==> plain_step(event).next == NextView::Finish(
            StreamOutcome::Done,
            false,
        ),
        event is Open ==> plain_step(event).next == NextView::Continue,
{
}

/// The messages of the system go apart, the others stay as they are and in order; the
/// instructions are the contents of the former, one per line.
pub proof fn law_system_apart(messages: Seq<MessageView>)
    ensures
        conversation(messages) == messages.filter(|m: MessageView| m.role != "system"@),
        ({
            let system = messages.filter(|m: MessageView| m.role == "system"@);
            system_text(messages) == if system.len() == 0 {
                None
            } else {
                Some(joined(system.map_values(|m: MessageView| m.content), "\n"@))
            }
        }),
    decreases messages.len(),
{
    reveal(Seq::filter);
    let own = |m: MessageView| m.role == "system"@;
    let text = |m: MessageView| m.content;
    if messages.len() > 0 {
        law_system_apart(messages.drop_last());
        let rest = messages.drop_last().filter(own);
        let m = messages.last();
        if m.role == "system"@ {
            let all = rest.push(m).map_values(text);
            assert(all.drop_last() == rest.map_values(text));
            assert(all.last() == m.content);
        }
    }
}

/// One step emits what it emits.
pub proof fn law_one_step(step: StepView)
    ensures
        emitted(seq![step]) == step.emit,
        emitted(seq![]).len() == 0,
{
    assert(seq![step].drop_first() == Seq::<StepView>::empty());
    assert(emitted(Seq::<StepView>::empty()) == Seq::<EventView>::empty());
    assert(step.emit + Seq::<EventView>::empty() == step.emit);
}

} // verus!
