//! What holds of the application whatever happens.
use vstd::prelude::*;

use crate::chat::{from_user, MessageView};
use crate::config::ConfigView;
use crate::logo::{colored_logo, colored_row, logo_rows};
use crate::stream::{texts_of, EventView, StreamOutcome};
use crate::style::{plain_line, Color};
use crate::text::{concat, decimal, joined, lemma_concat_add, trimmed, words};
use crate::tui::app::{counted, input_of, outgoing, typing, welcome_lines};
use crate::tui::app::{
    App, AppState, CtrlCArm, EffectView, InFlight, Input, Key, KeyEffect, Role, Route, UiMessageView,
    ARM_NANOS,
};
use crate::tui::dialog::{fresh_choice, DialogView, ModelDialogView};
use crate::tui::keymap::{Action, KeyCode, KeyContext, KeyEvent, KeyModifiers};
use crate::tui::render::{message_lines, noted};
use crate::tui::scrollbox::{scrolled_down, scrolled_up, ScrollBoxState};
use crate::tui::stream_state::{due, texts, WaitingView};

verus! {

/// Something that happens to the application.
pub enum Happening {
    Key(KeyEvent, u64),
    Wheel(bool, u64),
    Received(EventView, u64),
    Drained(Seq<EventView>, u64),
    Ended(Result<StreamOutcome, Seq<char>>, Seq<EventView>, nat, u64),
    Turn(Seq<Seq<char>>, u64, nat, Seq<char>, Seq<char>),
    Expired(u64),
    Rewritten(Seq<EventView>, nat, u64),
}

/// The application after something has happened.
pub open spec fn after<F>(s: AppState<F>, h: Happening) -> AppState<F> {
    match h {
        Happening::Key(k, now) => s.keyed(k, now).0,
        Happening::Wheel(up, now) => s.acted(
            if up {
                Action::ScrollUp
            } else {
                Action::ScrollDown
            },
            now,
        ),
        Happening::Received(event, now) => s.received(event, now),
        Happening::Drained(events, now) => s.drained(events, now),
        Happening::Ended(outcome, events, width, now) => s.finished(outcome, events, width, now).0,
        Happening::Turn(typed, now, width, temperature, top_p) => s.flushed(
            typed,
            now,
            width,
            temperature,
            top_p,
        ).0,
        Happening::Expired(now) => s.expired(now),
        Happening::Rewritten(events, width, now) => s.rewritten(events, width, now).0,
    }
}

/// A proper state: at most one dialog is open; while a reply is on its way the last
/// message is there for it; and only such a message can be empty.
pub open spec fn well_formed<F>(s: AppState<F>) -> bool {
    &&& s.dialog.well_formed()
    &&& s.in_flight is Some ==> s.ends_in_reply()
    &&& forall|i: int|
        0 <= i < s.history.len() && (#[trigger] s.history[i]).text.len() == 0 ==> i
            == s.history.len() - 1 && s.history[i].role == Role::Assistant && s.in_flight is Some
}

/// What has come of a reply: what is shown of it and what waits.
pub open spec fn heard<F>(s: AppState<F>) -> Seq<char> {
    s.reply() + concat(texts(s.pending))
}

proof fn lemma_received_all<F>(s: AppState<F>, events: Seq<EventView>, now: u64)
    ensures
        ({
            let t = s.received_all(events, now);
            &&& texts(t.pending) == texts(s.pending) + texts_of(events)
            &&& t.history == s.history
            &&& t.dialog == s.dialog
            &&& t.in_flight is Some == s.in_flight is Some
        }),
    decreases events.len(),
{
    if events.len() > 0 {
        let before = s.received_all(events.drop_last(), now);
        lemma_received_all(s, events.drop_last(), now);
        match events.last() {
            EventView::Token(t) => {
                assert(texts(before.pending.push((now, t))) == texts(before.pending).push(t));
            },
            EventView::Usage(_) => {},
        }
        assert(texts(s.received_all(events, now).pending) == texts(s.pending) + texts_of(events));
    } else {
        assert(texts(s.pending) + texts_of(events) == texts(s.pending));
    }
}

proof fn lemma_caught_up<F>(s: AppState<F>)
    requires
        well_formed(s),
    ensures
        well_formed(s.caught_up()),
        s.in_flight is Some ==> s.caught_up().reply() == heard(s),
        s.caught_up().in_flight == s.in_flight,
        s.caught_up().dialog == s.dialog,
        s.in_flight is Some ==> s.caught_up().history == s.history.drop_last().push(
            UiMessageView { role: Role::Assistant, text: heard(s) },
        ),
{
    let t = s.caught_up();
    let text = concat(texts(s.pending));
    if text.len() == 0 {
        assert(s.reply() + text == s.reply());
        if s.in_flight is Some {
            assert(s.history == s.history.drop_last().push(s.history.last()));
        }
    } else {
        let n = t.history.len() - 1;
        assert forall|i: int|
            0 <= i < t.history.len() && (#[trigger] t.history[i]).text.len() == 0 implies i
            == t.history.len() - 1 && t.history[i].role == Role::Assistant && t.in_flight is Some by {
            if i < n {
                assert(t.history[i] == s.history[i]);
            }
        }
    }
}

proof fn lemma_submitted<F>(
    s: AppState<F>,
    typed: Seq<Seq<char>>,
    now: u64,
    width: nat,
    temperature: Seq<char>,
    top_p: Seq<char>,
)
    requires
        well_formed(s),
    ensures
        well_formed(s.submitted(typed, now, width, temperature, top_p).0),
{
    let t = s.submitted(typed, now, width, temperature, top_p).0;
    let text = trimmed(joined(typed, "\n"@));
    if s.in_flight is None && text.len() > 0 && text[0] != '/' {
        assert forall|i: int|
            0 <= i < t.history.len() && (#[trigger] t.history[i]).text.len() == 0 implies i
            == t.history.len() - 1 && t.history[i].role == Role::Assistant && t.in_flight is Some by {
            if i < s.history.len() {
                assert(t.history[i] == s.history[i]);
            }
        }
    }
}

/// Whatever happens, a proper state stays one.
pub proof fn law_states_stay_well_formed<F>(s: AppState<F>, h: Happening)
    requires
        well_formed(s),
    ensures
        well_formed(after(s, h)),
{
    match h {
        Happening::Drained(events, now) => {
            lemma_received_all(s, events, now);
        },
        Happening::Ended(outcome, events, width, now) => {
            lemma_received_all(s, events, now);
            let t = s.drained(events, now).caught_up();
            lemma_caught_up(s.drained(events, now));
            let e = t.ended();
            assert forall|i: int| 0 <= i < e.history.len() implies (
            #[trigger] e.history[i]).text.len() > 0 by {
                assert(e.history[i] == t.history[i]);
            }
        },
        Happening::Turn(typed, now, width, temperature, top_p) => {
            lemma_caught_up(s);
            let t = if due(s.pending, now) {
                s.caught_up()
            } else {
                s
            };
            if t.submit_pending {
                lemma_submitted(
                    AppState { submit_pending: false, ..t },
                    typed,
                    now,
                    width,
                    temperature,
                    top_p,
                );
            }
        },
        Happening::Rewritten(events, width, now) => {
            lemma_received_all(s, events, now);
            lemma_caught_up(s.drained(events, now));
        },
        _ => {},
    }
}

/// Nothing of a reply is lost, doubled or moved on its way to the screen: text that
/// waits, once shown, follows what is shown already.
pub proof fn law_showing_keeps_text<F>(s: AppState<F>)
    requires
        well_formed(s),
        s.in_flight is Some,
    ensures
        heard(s.caught_up()) == heard(s),
        s.caught_up().pending.len() == 0,
{
    lemma_caught_up(s);
    assert(heard(s.caught_up()) == heard(s));
}

/// Each token adds its text to what has been heard.
pub proof fn law_receiving_adds_text<F>(s: AppState<F>, events: Seq<EventView>, now: u64)
    requires
        s.in_flight is Some,
    ensures
        heard(s.drained(events, now)) == heard(s) + concat(texts_of(events)),
{
    lemma_received_all(s, events, now);
    lemma_concat_add(texts(s.pending), texts_of(events));
    assert(heard(s.drained(events, now)) == heard(s) + concat(texts_of(events)));
}

/// However a stream ends, the reply that stays is all that came of it, in order; an
/// empty one does not stay.
pub proof fn law_reply_is_all_that_came<F>(
    s: AppState<F>,
    outcome: Result<StreamOutcome, Seq<char>>,
    events: Seq<EventView>,
    width: nat,
    now: u64,
)
    requires
        well_formed(s),
        s.in_flight is Some,
    ensures
        ({
            let t = s.finished(outcome, events, width, now).0;
            let text = heard(s) + concat(texts_of(events));
            &&& t.in_flight is None
            &&& t.pending.len() == 0
            &&& t.history == if text.len() == 0 {
                s.history.drop_last()
            } else {
                s.history.drop_last().push(UiMessageView { role: Role::Assistant, text })
            }
        }),
{
    lemma_received_all(s, events, now);
    law_receiving_adds_text(s, events, now);
    lemma_caught_up(s.drained(events, now));
    let said = UiMessageView {
        role: Role::Assistant,
        text: heard(s) + concat(texts_of(events)),
    };
    assert(s.history.drop_last().push(said).drop_last() == s.history.drop_last());
}

/// A question and its answer: the history grows by what was asked and by all that
/// came in answer.
pub proof fn law_question_and_answer<F>(
    s: AppState<F>,
    text: Seq<char>,
    asked_at: u64,
    events: Seq<EventView>,
    width: nat,
    ended_at: u64,
)
    requires
        well_formed(s),
        s.in_flight is None,
        s.pending.len() == 0,
        text.len() > 0,
    ensures
        ({
            let t = s.asked(text, asked_at).finished(
                Ok(StreamOutcome::Done),
                events,
                width,
                ended_at,
            ).0;
            let asked = s.history.push(UiMessageView { role: Role::User, text });
            let answer = concat(texts_of(events));
            t.history == if answer.len() == 0 {
                asked
            } else {
                asked.push(UiMessageView { role: Role::Assistant, text: answer })
            }
        }),
{
    let a = s.asked(text, asked_at);
    assert(well_formed(a)) by {
        assert forall|i: int|
            0 <= i < a.history.len() && (#[trigger] a.history[i]).text.len() == 0 implies i
            == a.history.len() - 1 && a.history[i].role == Role::Assistant && a.in_flight is Some by {
            if i < s.history.len() {
                assert(a.history[i] == s.history[i]);
            }
        }
    }
    law_reply_is_all_that_came(a, Ok(StreamOutcome::Done), events, width, ended_at);
    assert(texts(s.pending) == Seq::<Seq<char>>::empty());
    assert(heard(a) == Seq::<char>::empty());
    assert(heard(a) + concat(texts_of(events)) == concat(texts_of(events)));
    assert(a.history.drop_last() == s.history.push(UiMessageView { role: Role::User, text }));
}

/// A turn of the loop shows what waits exactly when it is due: then the reply is all
/// that has come and nothing waits; else nothing of it changes.
pub proof fn law_turn_shows_what_is_due<F>(
    s: AppState<F>,
    typed: Seq<Seq<char>>,
    now: u64,
    width: nat,
    temperature: Seq<char>,
    top_p: Seq<char>,
)
    requires
        well_formed(s),
        s.in_flight is Some,
    ensures
        ({
            let t = s.flushed(typed, now, width, temperature, top_p).0;
            &&& due(s.pending, now) ==> t.reply() == heard(s) && t.pending.len() == 0
            &&& !due(s.pending, now) ==> t.history == s.history && t.pending == s.pending
        }),
{
    lemma_caught_up(s);
}

/// At most one reply is on its way: one is asked for only where there is none, and
/// while there is one, what the user submits changes nothing.
pub proof fn law_one_reply_at_a_time<F>(
    s: AppState<F>,
    typed: Seq<Seq<char>>,
    now: u64,
    width: nat,
    temperature: Seq<char>,
    top_p: Seq<char>,
)
    ensures
        ({
            let (t, effects) = s.submitted(typed, now, width, temperature, top_p);
            &&& s.in_flight is Some ==> t == s && effects.len() == 0
            &&& forall|i: int|
                0 <= i < effects.len() && #[trigger] effects[i] is Start ==> s.in_flight is None
                    && t.in_flight is Some
        }),
{
    let (t, effects) = s.submitted(typed, now, width, temperature, top_p);
    let text = trimmed(joined(typed, "\n"@));
    if s.in_flight is None && text.len() > 0 && text[0] == '/' {
        let u = AppState { pending: Seq::<WaitingView>::empty(), ..s };
        let more = u.commanded(text.skip(1), now, temperature, top_p).1;
        assert forall|i: int| 0 <= i < effects.len() implies !(#[trigger] effects[i] is Start) by {
            if i > 0 {
                assert(effects[i] == more[i - 1]);
            }
        }
    }
}

/// What is sent ends with what the user asked, after all that was sent before.
pub proof fn law_question_goes_last<F>(s: AppState<F>, text: Seq<char>, now: u64)
    ensures
        outgoing(s.asked(text, now).history) == outgoing(s.history).push(from_user(text)),
{
    let h = s.asked(text, now).history;
    let asked = s.history.push(UiMessageView { role: Role::User, text });
    assert(h.drop_last() == asked);
    assert(asked.drop_last() == s.history);
    assert(outgoing(h) == outgoing(asked));
}

/// No message that is sent is empty.
pub proof fn law_sent_messages_have_text<F>(s: AppState<F>)
    requires
        well_formed(s),
    ensures
        forall|i: int|
            0 <= i < outgoing(s.history).len() ==> (#[trigger] outgoing(
                s.history,
            )[i]).content.len() > 0,
{
    assert forall|i: int| 0 <= i < s.history.len() && s.history[i].role == Role::User implies (
    #[trigger] s.history[i]).text.len() > 0 by {}
    lemma_outgoing_text(s.history);
}

proof fn lemma_outgoing_text(history: Seq<UiMessageView>)
    requires
        forall|i: int|
            0 <= i < history.len() && (#[trigger] history[i]).role == Role::User
                ==> history[i].text.len() > 0,
    ensures
        forall|i: int|
            0 <= i < outgoing(history).len() ==> (#[trigger] outgoing(history)[i]).content.len()
                > 0,
    decreases history.len(),
{
    if history.len() > 0 {
        let rest = history.drop_last();
        assert forall|i: int| 0 <= i < rest.len() && (#[trigger] rest[i]).role == Role::User implies
            rest[i].text.len() > 0 by {
            assert(rest[i] == history[i]);
        }
        lemma_outgoing_text(rest);
        let m = history[history.len() - 1];
        let sent = outgoing(history);
        assert forall|i: int| 0 <= i < sent.len() implies (#[trigger] sent[i]).content.len() > 0 by {
            if i < outgoing(rest).len() {
                assert(sent[i] == outgoing(rest)[i]);
            } else {
                assert(sent[i].content == m.text);
            }
        }
    }
}

/// A key with Ctrl held.
pub open spec fn ctrl(c: char) -> KeyEvent {
    KeyEvent {
        code: KeyCode::Char(c),
        modifiers: KeyModifiers { ctrl: true, alt: false, shift: false },
    }
}

/// While nothing is on its way, it takes two Ctrl-C in short succession to quit: the
/// first does not, the second does exactly where it comes soon enough.
pub proof fn law_quit_takes_two<F>(s: AppState<F>, first: u64, second: u64)
    requires
        s.in_flight is None,
        !s.dialog.open(),
        !s.quit,
        s.key_context(first) == KeyContext::IdleUnarmed,
    ensures
        ({
            let once = s.keyed(ctrl('c'), first).0;
            let twice = once.keyed(ctrl('c'), second).0;
            &&& !once.quit
            &&& twice.quit == (second < first + ARM_NANOS)
        }),
{
}

/// Cancelling tells the connection to stop once, however often the user asks, and
/// leaves the reply on its way until the stream has ended.
pub proof fn law_cancel_signals_once<F>(s: AppState<F>)
    requires
        s.in_flight is Some,
    ensures
        s.cancelling().in_flight is Some,
        s.cancelling().cancel_effect() == (KeyEffect::Cancel { signal: false }),
        s.in_flight->0.cancelled == false ==> s.cancel_effect() == (KeyEffect::Cancel {
            signal: true,
        }),
        s.cancelling().cancelling() == s.cancelling(),
{
}

/// A dialog keeps keys from the chat: while one is open no key submits, cancels,
/// scrolls or quits.
pub proof fn law_dialog_takes_keys<F>(s: AppState<F>, k: KeyEvent, now: u64)
    requires
        s.dialog.open(),
    ensures
        ({
            let (t, effect) = s.keyed(k, now);
            &&& effect == KeyEffect::Nothing
            &&& t.submit_pending == s.submit_pending
            &&& t.quit == s.quit
            &&& t.in_flight == s.in_flight
            &&& t.scroll_state == s.scroll_state
            &&& t.history == s.history
        }),
{
}

/// Without a reply on its way all messages are replayed; with one, all but that.
pub proof fn law_replay_skips_reply_on_its_way<F>(s: AppState<F>)
    requires
        well_formed(s),
    ensures
        s.in_flight is None ==> s.replayable() == s.history,
        s.in_flight is Some ==> s.replayable() == s.history.drop_last(),
{
}

// ───────────────────────────── asking ─────────────────────────────
/// What the user submits is asked: the lines, joined and without white space at the
/// ends, go into the history as a message of the user with room for the reply after it,
/// and what is sent is all that was sent before with that message last. The composer
/// starts anew, and the scrollback, where there is one, gets the message.
pub proof fn law_submitting_asks<F>(
    s: AppState<F>,
    typed: Seq<Seq<char>>,
    now: u64,
    width: nat,
    temperature: Seq<char>,
    top_p: Seq<char>,
)
    requires
        s.in_flight is None,
        trimmed(joined(typed, "\n"@)).len() > 0,
        trimmed(joined(typed, "\n"@))[0] != '/',
    ensures
        ({
            let text = trimmed(joined(typed, "\n"@));
            let (t, effects) = s.submitted(typed, now, width, temperature, top_p);
            &&& t.history == s.history.push(UiMessageView { role: Role::User, text }).push(
                UiMessageView { role: Role::Assistant, text: seq![] },
            )
            &&& t.in_flight == Some(
                InFlight {
                    started: now,
                    chars: 0,
                    context_tokens: 0,
                    context_limit: 1_000_000,
                    cancelled: false,
                },
            )
            &&& t.pending.len() == 0
            &&& t.route == if s.is_fullscreen {
                Route::Session
            } else {
                s.route
            }
            &&& t == AppState {
                history: t.history,
                in_flight: t.in_flight,
                pending: t.pending,
                route: t.route,
                ..s
            }
            &&& effects.first() == EffectView::FreshComposer
            &&& effects.last() == EffectView::Start(
                outgoing(s.history).push(MessageView { role: "user"@, content: text }),
            )
            &&& s.is_fullscreen ==> effects.len() == 2
            &&& !s.is_fullscreen ==> effects.len() == 3 && effects[1] == EffectView::Insert(
                message_lines(s.cfg.persona.user_name, text, width, Color::Green),
            )
        }),
{
    let text = trimmed(joined(typed, "\n"@));
    let u = AppState { pending: Seq::<WaitingView>::empty(), ..s };
    law_question_goes_last(u, text, now);
}

/// Submitting nothing does nothing but drop what still waits, and a text that starts with a slash is a command:
/// what comes of it is what comes of the rest of the text as one, and nothing is sent.
pub proof fn law_submitting_else<F>(
    s: AppState<F>,
    typed: Seq<Seq<char>>,
    now: u64,
    width: nat,
    temperature: Seq<char>,
    top_p: Seq<char>,
)
    requires
        s.in_flight is None,
    ensures
        ({
            let text = trimmed(joined(typed, "\n"@));
            let (t, effects) = s.submitted(typed, now, width, temperature, top_p);
            let fresh = AppState { pending: seq![], ..s };
            let (u, more) = fresh.commanded(text.skip(1), now, temperature, top_p);
            &&& text.len() == 0 ==> t == fresh && effects.len() == 0
            &&& text.len() > 0 && text[0] == '/' ==> t == u && effects == seq![
                EffectView::FreshComposer,
            ] + more
        }),
{
}

/// A turn of the loop takes up what was submitted once, and nothing where nothing was.
pub proof fn law_turn_takes_up_submission<F>(
    s: AppState<F>,
    typed: Seq<Seq<char>>,
    now: u64,
    width: nat,
    temperature: Seq<char>,
    top_p: Seq<char>,
)
    ensures
        ({
            let (t, effects) = s.flushed(typed, now, width, temperature, top_p);
            let shown = if due(s.pending, now) {
                s.caught_up()
            } else {
                s
            };
            &&& !s.submit_pending ==> t == shown && effects.len() == 0
            &&& s.submit_pending ==> (t, effects) == AppState {
                submit_pending: false,
                ..shown
            }.submitted(typed, now, width, temperature, top_p)
        }),
{
}

// ───────────────────────────── commands ─────────────────────────────
/// The commands: `exit` and `quit` quit, `clear` takes back what was said, `model` with
/// a name takes that model, `provider`, `params` and what is no command tell something,
/// and with the whole screen `model` and `help` open a dialog.
pub proof fn law_commands<F>(
    s: AppState<F>,
    rest: Seq<char>,
    now: u64,
    temperature: Seq<char>,
    top_p: Seq<char>,
)
    requires
        words(rest).len() > 0,
    ensures
        ({
            let (t, effects) = s.commanded(rest, now, temperature, top_p);
            let w = words(rest);
            let told = |msg: Seq<char>| AppState { status: Some((msg, now)), ..s };
            &&& w[0] != "clear"@ ==> effects.len() == 0
            &&& w[0] == "exit"@ || w[0] == "quit"@ ==> t == AppState { quit: true, ..s }
            &&& w[0] == "clear"@ ==> t == AppState {
                status: Some(("(history cleared)"@, now)),
                ..s.cleared().0
            } && effects == s.cleared().1
            &&& w[0] == "model"@ && w.len() > 1 ==> t == AppState {
                cfg: ConfigView { model: w[1], ..s.cfg },
                ..told("model -> "@ + w[1])
            }
            &&& w[0] == "model"@ && w.len() == 1 && s.is_fullscreen ==> t == AppState {
                dialog: DialogView { model: Some(fresh_choice(s.cfg.model)), help: false },
                ..s
            }
            &&& w[0] == "model"@ && w.len() == 1 && !s.is_fullscreen ==> t == told(
                "model: "@ + s.cfg.model,
            )
            &&& w[0] == "provider"@ ==> t == told(
                "provider: DeepSeek  base_url: https://api.deepseek.com/v1"@,
            )
            &&& w[0] == "params"@ ==> t == told(
                "temperature="@ + temperature + "  top_p="@ + top_p + "  max_tokens="@ + (
                match s.cfg.max_tokens {
                    Some(n) => "Some("@ + decimal(n as nat) + ")"@,
                    None => "None"@,
                }),
            )
            &&& w[0] == "help"@ && s.is_fullscreen ==> t == AppState {
                dialog: DialogView { model: None, help: true },
                ..s
            }
            &&& w[0] == "help"@ && !s.is_fullscreen ==> t == told(
                "/model [name] /provider /params /clear /exit"@,
            )
            &&& !seq![
                "exit"@,
                "quit"@,
                "clear"@,
                "model"@,
                "provider"@,
                "params"@,
                "help"@,
            ].contains(w[0]) ==> t == told("unknown command: /"@ + w[0] + " (try /help)"@)
        }),
{
    reveal_strlit("exit");
    reveal_strlit("quit");
    reveal_strlit("clear");
    reveal_strlit("model");
    reveal_strlit("provider");
    reveal_strlit("params");
    reveal_strlit("help");
    let names = seq!["exit"@, "quit"@, "clear"@, "model"@, "provider"@, "params"@, "help"@];
    assert(names[0] == "exit"@ && names[1] == "quit"@ && names[2] == "clear"@);
    assert(names[3] == "model"@ && names[4] == "provider"@ && names[5] == "params"@);
    assert(names[6] == "help"@);
    assert("clear"@[0] == 'c' && "model"@[0] == 'm' && "provider"@[1] == 'r' && "params"@[1] == 'a');
    assert("help"@[0] == 'h' && "exit"@[0] == 'e' && "quit"@[0] == 'q');
    assert("provider"@[0] == 'p' && "params"@[0] == 'p');
}

/// Nothing typed after the slash is no command at all.
pub proof fn law_empty_command<F>(
    s: AppState<F>,
    rest: Seq<char>,
    now: u64,
    temperature: Seq<char>,
    top_p: Seq<char>,
)
    requires
        words(rest).len() == 0,
    ensures
        s.commanded(rest, now, temperature, top_p).0 == s,
        s.commanded(rest, now, temperature, top_p).1.len() == 0,
{
}

/// Taking back what was said leaves nothing of it, shown or waiting, and the rest as it
/// is: on the whole screen it goes home, else the screen is cleared and the logo
/// written.
pub proof fn law_clearing<F>(s: AppState<F>)
    ensures
        ({
            let (t, effects) = s.cleared();
            &&& t.history.len() == 0
            &&& t.pending.len() == 0
            &&& t == AppState {
                history: t.history,
                pending: t.pending,
                route: t.route,
                scroll_state: t.scroll_state,
                welcome_done: t.welcome_done,
                ..s
            }
            &&& s.is_fullscreen ==> t.route == Route::Home && t.scroll_state.viewport_top == 0
                && t.scroll_state.sticky_bottom && effects.len() == 0
            &&& !s.is_fullscreen ==> t.welcome_done && effects == seq![
                EffectView::ClearScreen(false),
                EffectView::Insert(welcome_lines()),
            ]
        }),
{
}

// ───────────────────────────── receiving ─────────────────────────────
/// A token waits behind those before it with the moment it came, and its characters are
/// counted; a count is kept for the reply and for later. Nothing else changes.
pub proof fn law_receiving<F>(s: AppState<F>, t: Seq<char>, total: usize, now: u64)
    ensures
        ({
            let got = s.received(EventView::Token(t), now);
            let told = s.received(EventView::Usage(total), now);
            &&& got == AppState {
                pending: s.pending.push((now, t)),
                in_flight: got.in_flight,
                ..s
            }
            &&& got.in_flight is Some <==> s.in_flight is Some
            &&& s.in_flight matches Some(f) ==> got.in_flight == Some(
                InFlight { chars: got.in_flight->0.chars, ..f },
            ) && (f.chars + t.len() <= usize::MAX ==> got.in_flight->0.chars == f.chars + t.len())
            &&& told == AppState {
                in_flight: told.in_flight,
                last_context_tokens: total,
                last_context_limit: 1_000_000,
                ..s
            }
            &&& told.in_flight is Some <==> s.in_flight is Some
            &&& s.in_flight matches Some(f) ==> told.in_flight == Some(
                InFlight { context_tokens: total, ..f },
            )
        }),
{
}

/// What the end of a stream puts into the scrollback: the reply, all that came of it,
/// under the assistant's name, then a note where it was cancelled or failed. On the
/// whole screen there is no scrollback.
pub proof fn law_end_is_written<F>(
    s: AppState<F>,
    outcome: Result<StreamOutcome, Seq<char>>,
    events: Seq<EventView>,
    width: nat,
    now: u64,
)
    requires
        well_formed(s),
        s.in_flight is Some,
    ensures
        ({
            let text = heard(s) + concat(texts_of(events));
            let effects = s.finished(outcome, events, width, now).1;
            let reply = EffectView::Insert(
                message_lines(s.cfg.persona.assistant_name, text, width, Color::Cyan),
            );
            let said = if text.len() == 0 {
                Seq::<EffectView>::empty()
            } else {
                seq![reply]
            };
            &&& s.is_fullscreen ==> effects.len() == 0
            &&& !s.is_fullscreen ==> effects == match outcome {
                Ok(StreamOutcome::Done) => said,
                Ok(StreamOutcome::Cancelled) => said.push(EffectView::Insert(noted("(cancelled)"@))),
                Err(e) => said.push(EffectView::Insert(noted("error: "@ + e))),
            }
        }),
{
    let d = s.drained(events, now);
    lemma_received_all(s, events, now);
    law_receiving_adds_text(s, events, now);
    lemma_caught_up(d);
    lemma_received_keeps(s, events, now);
    let t = d.caught_up();
    assert(t.ends_in_reply());
    assert(t.reply() == heard(s) + concat(texts_of(events)));
}

/// Two states differ at most in what a stream changes: what was said, what waits, what
/// is on its way and how full the context is.
pub open spec fn same_but_stream<F>(s: AppState<F>, t: AppState<F>) -> bool {
    t == (AppState {
        history: t.history,
        pending: t.pending,
        in_flight: t.in_flight,
        last_context_tokens: t.last_context_tokens,
        last_context_limit: t.last_context_limit,
        ..s
    })
}

/// A stream changes the conversation and nothing else: neither what comes of it nor its
/// end touches the configuration, the screen, a dialog, a message or what the user does.
pub proof fn law_stream_changes_conversation_only<F>(
    s: AppState<F>,
    outcome: Result<StreamOutcome, Seq<char>>,
    events: Seq<EventView>,
    width: nat,
    now: u64,
)
    ensures
        same_but_stream(s, s.drained(events, now)),
        same_but_stream(s, s.caught_up()),
        same_but_stream(s, s.finished(outcome, events, width, now).0),
        ({
            let t = s.finished(outcome, events, width, now).0;
            t.last_context_tokens == s.drained(events, now).last_context_tokens
                && t.last_context_limit == s.drained(events, now).last_context_limit
        }),
{
    lemma_received_keeps(s, events, now);
}

proof fn lemma_received_keeps<F>(s: AppState<F>, events: Seq<EventView>, now: u64)
    ensures
        same_but_stream(s, s.received_all(events, now)),
    decreases events.len(),
{
    if events.len() > 0 {
        lemma_received_keeps(s, events.drop_last(), now);
    }
}

/// The scrollback is written message by message, in order: each of the user under the
/// user's name, each reply that is not empty under the assistant's.
pub proof fn law_replaying<F>(s: AppState<F>, messages: Seq<UiMessageView>, m: UiMessageView, width: nat)
    ensures
        s.replay(seq![], width).len() == 0,
        s.replay(messages.push(m), width) == s.replay(messages, width) + (if m.role == Role::User {
            seq![
                EffectView::Insert(
                    message_lines(s.cfg.persona.user_name, m.text, width, Color::Green),
                ),
            ]
        } else if m.text.len() > 0 {
            seq![
                EffectView::Insert(
                    message_lines(s.cfg.persona.assistant_name, m.text, width, Color::Cyan),
                ),
            ]
        } else {
            seq![]
        }),
{
    assert(messages.push(m).drop_last() == messages);
    assert(s.replay(Seq::<UiMessageView>::empty(), width) == Seq::<EffectView>::empty());
}

/// Writing the scrollback anew clears the screen, writes the logo and then all that was
/// said but for a reply on its way, to which what has come is added first. On the whole
/// screen nothing is written and nothing changes.
pub proof fn law_rewriting<F>(s: AppState<F>, events: Seq<EventView>, width: nat, now: u64)
    requires
        well_formed(s),
    ensures
        ({
            let (t, effects) = s.rewritten(events, width, now);
            let logo = seq![EffectView::ClearScreen(true), EffectView::Insert(welcome_lines())];
            &&& s.is_fullscreen ==> t == s && effects.len() == 0
            &&& !s.is_fullscreen ==> same_but_stream(AppState { welcome_done: true, ..s }, t)
            &&& !s.is_fullscreen && s.in_flight is Some ==> t.reply() == heard(s) + concat(
                texts_of(events),
            ) && t.pending.len() == 0 && effects == logo + t.replay(s.history.drop_last(), width)
            &&& !s.is_fullscreen && s.in_flight is None && s.pending.len() == 0 ==> t.history
                == s.history && effects == logo + t.replay(s.history, width)
        }),
{
    let d = s.drained(events, now);
    let t = s.rewritten(events, width, now).0;
    lemma_received_all(s, events, now);
    lemma_received_keeps(s, events, now);
    lemma_caught_up(d);
    if s.is_fullscreen {
        assert(t == s);
    } else if s.in_flight is Some {
        law_receiving_adds_text(s, events, now);
        assert(d.caught_up().history.drop_last() == s.history.drop_last());
        lemma_replay_goes_by_persona(d.caught_up(), t, s.history.drop_last(), width);
    } else if s.pending.len() == 0 {
        assert(texts(s.pending) == Seq::<Seq<char>>::empty());
        lemma_replay_goes_by_persona(d.caught_up(), t, s.history, width);
    }
}

proof fn lemma_replay_goes_by_persona<F>(
    a: AppState<F>,
    b: AppState<F>,
    messages: Seq<UiMessageView>,
    width: nat,
)
    requires
        a.cfg == b.cfg,
    ensures
        a.replay(messages, width) == b.replay(messages, width),
    decreases messages.len(),
{
    if messages.len() > 0 {
        lemma_replay_goes_by_persona(a, b, messages.drop_last(), width);
    }
}

// ───────────────────────────── keys ─────────────────────────────
/// What a key in the chat does: it changes what its action is for and nothing else.
pub proof fn law_actions<F>(s: AppState<F>, now: u64)
    ensures
        s.acted(Action::Submit, now) == (AppState { submit_pending: true, ..s }),
        s.acted(Action::QuitNow, now) == (AppState { quit: true, ..s }),
        s.acted(Action::QuitArm, now) == (AppState {
            ctrl_c_arm: Some(CtrlCArm { at: now }),
            status: Some(("press Ctrl-C again to quit"@, now)),
            ..s
        }),
        s.acted(Action::InsertNewline, now) == s,
        s.acted(Action::ForwardToComposer, now) == s,
        s.acted(Action::ScrollUp, now) == (AppState {
            scroll_state: scrolled_up(s.scroll_state, 3),
            ..s
        }),
        s.acted(Action::ScrollDown, now) == (AppState {
            scroll_state: scrolled_down(s.scroll_state, 3, 200, 20),
            ..s
        }),
        s.acted(Action::ScrollPageUp, now) == (AppState {
            scroll_state: scrolled_up(s.scroll_state, 20),
            ..s
        }),
        s.acted(Action::ScrollPageDown, now) == (AppState {
            scroll_state: scrolled_down(s.scroll_state, 20, 200, 20),
            ..s
        }),
        s.acted(Action::ScrollTop, now) == (AppState {
            scroll_state: ScrollBoxState { viewport_top: 0, sticky_bottom: false },
            ..s
        }),
        s.acted(Action::ScrollBottom, now) == (AppState {
            scroll_state: ScrollBoxState { viewport_top: 180, sticky_bottom: true },
            ..s
        }),
        s.in_flight is None ==> s.acted(Action::CancelStream, now) == s,
        s.in_flight matches Some(f) ==> s.acted(Action::CancelStream, now) == (AppState {
            in_flight: Some(InFlight { cancelled: true, ..f }),
            ..s
        }),
{
}

/// What the user types gets to the composer as it is: outside dialogs a character
/// without Ctrl changes nothing else and is typed with what is held with it.
pub proof fn law_typing<F>(s: AppState<F>, c: char, alt: bool, shift: bool, now: u64)
    requires
        !s.dialog.open(),
    ensures
        ({
            let k = KeyEvent {
                code: KeyCode::Char(c),
                modifiers: KeyModifiers { ctrl: false, alt, shift },
            };
            s.keyed(k, now) == (
                s,
                KeyEffect::Type(Input { key: Key::Char(c), ctrl: false, alt, shift }),
            )
        }),
{
}

/// Enter submits, and with Shift or Alt held it types a line break instead.
pub proof fn law_enter<F>(s: AppState<F>, modifiers: KeyModifiers, now: u64)
    requires
        !s.dialog.open(),
    ensures
        ({
            let (t, effect) = s.keyed(KeyEvent { code: KeyCode::Enter, modifiers }, now);
            if modifiers.shift || modifiers.alt {
                t == s && effect == KeyEffect::Type(
                    Input { key: Key::Enter, ctrl: false, alt: false, shift: false },
                )
            } else {
                t == (AppState { submit_pending: true, ..s }) && effect == KeyEffect::Nothing
            }
        }),
{
}

/// While a reply is on its way Ctrl-C tells the connection to stop, the first time; the
/// reply stays on its way, and nothing quits.
pub proof fn law_ctrl_c_cancels<F>(s: AppState<F>, f: InFlight, now: u64)
    requires
        !s.dialog.open(),
        s.in_flight == Some(f),
    ensures
        s.keyed(ctrl('c'), now) == (
            AppState { in_flight: Some(InFlight { cancelled: true, ..f }), ..s },
            KeyEffect::Cancel { signal: !f.cancelled },
        ),
{
}

/// Keys for the composer keep what they are and what is held with them.
pub proof fn law_input(k: KeyEvent, c: char)
    ensures
        input_of(k).ctrl == k.modifiers.ctrl,
        input_of(k).alt == k.modifiers.alt,
        input_of(k).shift == k.modifiers.shift,
        k.code == KeyCode::Char(c) <==> input_of(k).key == Key::Char(c),
        k.code == KeyCode::Enter <==> input_of(k).key == Key::Enter,
        k.code == KeyCode::Backspace <==> input_of(k).key == Key::Backspace,
        k.code == KeyCode::Delete <==> input_of(k).key == Key::Delete,
        k.code == KeyCode::Tab <==> input_of(k).key == Key::Tab,
        k.code == KeyCode::Left <==> input_of(k).key == Key::Left,
        k.code == KeyCode::Right <==> input_of(k).key == Key::Right,
        k.code == KeyCode::Up <==> input_of(k).key == Key::Up,
        k.code == KeyCode::Down <==> input_of(k).key == Key::Down,
        k.code == KeyCode::Home <==> input_of(k).key == Key::Home,
        k.code == KeyCode::End <==> input_of(k).key == Key::End,
        k.code == KeyCode::Esc <==> input_of(k).key == Key::Esc,
{
}

/// A pasted text is typed character by character, in order and with nothing held.
pub proof fn law_pasting(keys: Seq<Input>, text: Seq<char>)
    requires
        typing(keys, text),
    ensures
        keys.len() == text.len(),
        forall|i: int|
            0 <= i < text.len() ==> #[trigger] keys[i] == (Input {
                key: Key::Char(text[i]),
                ctrl: false,
                alt: false,
                shift: false,
            }),
{
}

/// In a dialog: Enter in the choice of models takes the selected one and closes, up and
/// down move the selection, and Esc closes.
pub proof fn law_dialog_keys<F>(s: AppState<F>, d: ModelDialogView, modifiers: KeyModifiers, now: u64)
    requires
        s.dialog == (DialogView { model: Some(d), help: false }),
        d.well_formed(),
    ensures
        ({
            let press = |code: KeyCode| s.keyed(KeyEvent { code, modifiers }, now).0;
            let model = d.models[d.selected];
            &&& press(KeyCode::Esc) == AppState {
                dialog: DialogView { model: None, help: false },
                ..s
            }
            &&& press(KeyCode::Enter) == AppState {
                dialog: DialogView { model: None, help: false },
                cfg: ConfigView { model, ..s.cfg },
                status: Some(("model -> "@ + model, now)),
                ..s
            }
            &&& press(KeyCode::Up) == AppState {
                dialog: DialogView { model: Some(d.moved(Action::DialogUp)), help: false },
                ..s
            }
            &&& press(KeyCode::Down) == AppState {
                dialog: DialogView { model: Some(d.moved(Action::DialogDown)), help: false },
                ..s
            }
        }),
{
}

/// Time makes void: a first Ctrl-C counts for one and a half seconds, a status message
/// stays for three, and nothing else is touched.
pub proof fn law_expiry<F>(s: AppState<F>, now: u64)
    ensures
        ({
            let t = s.expired(now);
            &&& t == AppState { ctrl_c_arm: t.ctrl_c_arm, status: t.status, ..s }
            &&& s.ctrl_c_arm matches Some(arm) ==> t.ctrl_c_arm == if now < arm.at + 1_500_000_000 {
                Some(arm)
            } else {
                None
            }
            &&& s.ctrl_c_arm is None ==> t.ctrl_c_arm is None
            &&& s.status matches Some((msg, at)) ==> t.status == if now - at > 3_000_000_000 {
                None
            } else {
                Some((msg, at))
            }
            &&& s.status is None ==> t.status is None
        }),
{
}

/// The application starts with nothing said, nothing waiting, nothing on its way and no
/// dialog, at home.
pub proof fn law_start<F>(app: App<F>, cfg: ConfigView<F>, fullscreen: bool)
    requires
        app.starts(cfg, fullscreen),
    ensures
        app@.cfg == cfg,
        app@.is_fullscreen == fullscreen,
        app@.history.len() == 0,
        app@.pending.len() == 0,
        app@.in_flight is None,
        !app@.quit && !app@.submit_pending && !app@.welcome_done,
        app@.ctrl_c_arm is None && app@.status is None,
        app@.route == Route::Home,
        !app@.dialog.open(),
        app@.scroll_state.viewport_top == 0 && app@.scroll_state.sticky_bottom,
        well_formed(app@),
{
}

/// The logo goes into the scrollback row by row, with a blank line after it.
pub proof fn law_welcome_lines()
    ensures
        welcome_lines().len() == 6,
        welcome_lines().last() == plain_line(seq![]),
        welcome_lines().drop_last() == logo_rows().map_values(
            |row: Seq<char>|
                colored_row(row, ""@, Color::Rgb(255, 140, 155), Color::Rgb(255, 180, 190)),
        ),
{
    let logo = colored_logo(Color::Rgb(255, 140, 155), Color::Rgb(255, 180, 190));
    assert(logo.push(plain_line(seq![])).drop_last() == logo);
}

/// What a key means: while a reply is on its way it is another thing than when idle,
/// and idle a first Ctrl-C counts for one and a half seconds.
pub proof fn law_key_context<F>(s: AppState<F>, now: u64)
    ensures
        s.in_flight is Some ==> s.key_context(now) == KeyContext::Streaming,
        s.in_flight is None && s.ctrl_c_arm is None ==> s.key_context(now)
            == KeyContext::IdleUnarmed,
        s.in_flight is None && s.ctrl_c_arm is Some ==> s.key_context(now) == if now
            < s.ctrl_c_arm->0.at + 1_500_000_000 {
            KeyContext::IdleArmed
        } else {
            KeyContext::IdleUnarmed
        },
{
}

/// Without a reply on its way nothing is received.
pub proof fn law_nothing_to_receive<F>(s: AppState<F>, events: Seq<EventView>, now: u64)
    requires
        s.in_flight is None,
    ensures
        s.drained(events, now) == s,
{
}

/// Text that waits goes to the end of the last reply, or makes one after a message of
/// the user; no other message changes.
pub proof fn law_waiting_text_goes_last<F>(s: AppState<F>)
    ensures
        ({
            let t = s.caught_up();
            let text = concat(texts(s.pending));
            &&& t.pending.len() == 0
            &&& text.len() == 0 ==> t.history == s.history
            &&& text.len() > 0 && s.history.len() > 0 && s.history.last().role == Role::Assistant
                ==> t.history == s.history.drop_last().push(
                UiMessageView { role: Role::Assistant, text: s.history.last().text + text },
            )
            &&& text.len() > 0 && (s.history.len() == 0 || s.history.last().role == Role::User)
                ==> t.history == s.history.push(UiMessageView { role: Role::Assistant, text })
        }),
{
}

/// The help closes with Esc, q, Enter and the keys that move, and no other key does
/// anything to it.
pub proof fn law_help_keys<F>(s: AppState<F>, k: KeyEvent, now: u64)
    requires
        s.dialog == (DialogView { model: None, help: true }),
    ensures
        ({
            let closes = k.code == KeyCode::Esc || k.code == KeyCode::Enter || k.code == KeyCode::Up
                || k.code == KeyCode::Down || k.code == KeyCode::Char('q') || k.code
                == KeyCode::Char('j') || k.code == KeyCode::Char('k');
            s.keyed(k, now).0 == if closes {
                AppState { dialog: DialogView { model: None, help: false }, ..s }
            } else {
                s
            }
        }),
{
}

/// Characters are counted up to the last number there is.
pub proof fn law_counting(count: usize, n: nat)
    ensures
        count + n <= usize::MAX ==> counted(count, n) == count + n,
        count + n > usize::MAX ==> counted(count, n) == usize::MAX,
{
}

} // verus!
