//! The chat application: its state, and what each event makes of it.
//!
//! Whoever holds the terminal, the clock and the connection hands the events in and
//! carries out the effects that come back. Moments are nanoseconds of a clock that
//! does not run backwards.
use vstd::prelude::*;

use crate::chat::{from_assistant, from_user, message_views, Message, MessageView};
use crate::config::{ConfigView, ResolvedConfig};
use crate::logo::{colored_logo, lines_for_scrollback, logo_shape};
use crate::provider::CONTEXT_WINDOW;
use crate::stream::{event_views, EventView, StreamEvent, StreamOutcome};
use crate::style::{line_views, plain_line, push_line, Color, Line, LineView};
use crate::text::{chars_of, concat, decimal, joined, trimmed, views, words};
use crate::text::{join, same, split_words, strip_prefix, to_decimal, trim};
use crate::tui::dialog::{fresh_choice, no_dialog, DialogStack, DialogView};
use crate::tui::keymap::{binding, resolve, Action, KeyCode, KeyContext, KeyEvent};
use crate::tui::render::{assistant_message_lines, note_lines, user_message_lines};
use crate::tui::render::{message_lines, noted};
use crate::tui::scrollbox::{fresh_scroll, scrolled_down, scrolled_up, ScrollBoxState};
use crate::tui::stream_state::{due, texts, StreamState, WaitingView};

verus! {

/// How long a first Ctrl-C counts, in nanoseconds.
pub const ARM_NANOS: u64 = 1_500_000_000;

/// How long a status message stays, in nanoseconds.
pub const STATUS_NANOS: u64 = 3_000_000_000;

/// The lines that a history is taken to have when it is scrolled.
pub const SCROLL_TOTAL: usize = 200;

/// The lines that are taken to be in view when the history is scrolled.
pub const SCROLL_VISIBLE: usize = 20;

#[derive(Debug, Clone, Copy, PartialEq, Eq, Structural)]
pub enum Role {
    User,
    Assistant,
}

/// A message on the screen.
#[derive(Debug)]
pub struct UiMessage {
    pub role: Role,
    pub text: String,
}

/// What a message on the screen holds.
pub struct UiMessageView {
    pub role: Role,
    pub text: Seq<char>,
}

impl View for UiMessage {
    type V = UiMessageView;

    open spec fn view(&self) -> UiMessageView {
        UiMessageView { role: self.role, text: self.text@ }
    }
}

impl Clone for UiMessage {
    fn clone(&self) -> (r: UiMessage)
        ensures
            r@ == self@,
    {
        UiMessage { role: self.role, text: self.text.clone() }
    }
}

/// What each of a run of messages holds.
pub open spec fn ui_views(messages: Seq<UiMessage>) -> Seq<UiMessageView> {
    messages.map_values(|m: UiMessage| m@)
}

/// A reply on its way.
#[derive(Debug, Clone, Copy, PartialEq, Eq, Structural)]
pub struct InFlight {
    /// When it was asked for.
    pub started: u64,
    /// The characters that have come.
    pub chars: usize,
    pub context_tokens: usize,
    pub context_limit: usize,
    /// The connection has been told to stop.
    pub cancelled: bool,
}

/// A first Ctrl-C, and when it came.
#[derive(Debug, Clone, Copy, PartialEq, Eq, Structural)]
pub struct CtrlCArm {
    pub at: u64,
}

#[derive(Debug, Clone, Copy, PartialEq, Eq, Structural)]
pub enum Route {
    Home,
    Session,
}

/// The state of the application.
pub struct App<F> {
    pub cfg: ResolvedConfig<F>,
    pub history: Vec<UiMessage>,
    pub stream: StreamState,
    pub in_flight: Option<InFlight>,
    pub quit: bool,
    pub ctrl_c_arm: Option<CtrlCArm>,
    pub status_msg: Option<(String, u64)>,
    pub submit_pending: bool,
    pub welcome_done: bool,
    pub route: Route,
    pub is_fullscreen: bool,
    pub scroll_state: ScrollBoxState,
    pub dialog_stack: DialogStack,
    pub last_context_tokens: usize,
    pub last_context_limit: usize,
}

/// What the state of the application is.
#[verifier::ext_equal]
pub struct AppState<F> {
    pub cfg: ConfigView<F>,
    pub history: Seq<UiMessageView>,
    pub pending: Seq<WaitingView>,
    pub in_flight: Option<InFlight>,
    pub quit: bool,
    pub ctrl_c_arm: Option<CtrlCArm>,
    pub status: Option<(Seq<char>, u64)>,
    pub submit_pending: bool,
    pub welcome_done: bool,
    pub route: Route,
    pub is_fullscreen: bool,
    pub scroll_state: ScrollBoxState,
    pub dialog: DialogView,
    pub last_context_tokens: usize,
    pub last_context_limit: usize,
}

impl<F> View for App<F> {
    type V = AppState<F>;

    open spec fn view(&self) -> AppState<F> {
        AppState {
            cfg: self.cfg@,
            history: ui_views(self.history@),
            pending: self.stream@,
            in_flight: self.in_flight,
            quit: self.quit,
            ctrl_c_arm: self.ctrl_c_arm,
            status: match self.status_msg {
                Some((msg, at)) => Some((msg@, at)),
                None => None,
            },
            submit_pending: self.submit_pending,
            welcome_done: self.welcome_done,
            route: self.route,
            is_fullscreen: self.is_fullscreen,
            scroll_state: self.scroll_state,
            dialog: self.dialog_stack@,
            last_context_tokens: self.last_context_tokens,
            last_context_limit: self.last_context_limit,
        }
    }
}

/// A key for the text that the user types.
#[derive(Debug, Clone, Copy, PartialEq, Eq, Structural)]
pub enum Key {
    Char(char),
    Enter,
    Backspace,
    Delete,
    Tab,
    Left,
    Right,
    Up,
    Down,
    Home,
    End,
    Esc,
    Null,
}

/// A key for the text that the user types, and what is held with it.
#[derive(Debug, Clone, Copy, PartialEq, Eq, Structural)]
pub struct Input {
    pub key: Key,
    pub ctrl: bool,
    pub alt: bool,
    pub shift: bool,
}

/// What is to be done after a key.
#[derive(Debug, Clone, Copy, PartialEq, Eq, Structural)]
pub enum KeyEffect {
    Nothing,
    /// The text that the user types gets a key.
    Type(Input),
    /// The tokens that have come are to be received; before that, where `signal`
    /// says so, the connection is told to stop.
    Cancel { signal: bool },
}

/// What comes from the terminal.
#[derive(Debug)]
pub enum TermEvent {
    Key(KeyEvent),
    Paste(String),
    WheelUp,
    WheelDown,
    Resize,
    Other,
}

/// What is to be done after something came from the terminal.
#[derive(Debug)]
pub enum TermEffect {
    Key(KeyEffect),
    /// The text that the user types gets keys, one after the other.
    Type(Vec<Input>),
    /// The tokens that have come are to be received, and the scrollback is written
    /// anew.
    Rewrite,
    Nothing,
}

/// What is to be done.
#[derive(Debug)]
pub enum Effect {
    /// The terminal is cleared with its scrollback; with `home` the cursor goes to
    /// the first cell.
    ClearScreen { home: bool },
    /// Lines go to the scrollback.
    Insert(Vec<Line>),
    /// The text that the user types starts anew.
    FreshComposer,
    /// A reply to these messages is asked for.
    Start(Vec<Message>),
}

/// What there is to be done.
pub enum EffectView {
    ClearScreen(bool),
    Insert(Seq<LineView>),
    FreshComposer,
    Start(Seq<MessageView>),
}

impl View for Effect {
    type V = EffectView;

    open spec fn view(&self) -> EffectView {
        match *self {
            Effect::ClearScreen { home } => EffectView::ClearScreen(home),
            Effect::Insert(lines) => EffectView::Insert(line_views(lines@)),
            Effect::FreshComposer => EffectView::FreshComposer,
            Effect::Start(messages) => EffectView::Start(message_views(messages@)),
        }
    }
}

/// What there is to be done, one after the other.
pub open spec fn effect_views(effects: Seq<Effect>) -> Seq<EffectView> {
    effects.map_values(|e: Effect| e@)
}

fn push_effect(effects: &mut Vec<Effect>, effect: Effect)
    ensures
        effect_views(final(effects)@) == effect_views(old(effects)@).push(effect@),
{
    effects.push(effect);
    assert(effect_views(effects@) == effect_views(old(effects)@).push(effect@));
}

/// Sampling parameters as text.
#[derive(Debug)]
pub struct SamplingText {
    pub temperature: String,
    pub top_p: String,
}

// ───────────────────────────── what events do ─────────────────────────────
/// A count after `n` more, held back at the last number there is.
pub open spec fn counted(count: usize, n: nat) -> usize {
    if count + n <= usize::MAX {
        (count + n) as usize
    } else {
        usize::MAX
    }
}

/// A first Ctrl-C still counts.
pub open spec fn still_armed(arm: CtrlCArm, now: u64) -> bool {
    now < arm.at + ARM_NANOS
}

/// A status message has stayed long enough.
pub open spec fn stale(at: u64, now: u64) -> bool {
    now - at > STATUS_NANOS
}

/// The messages that a history sends: those of the user and the replies that are
/// not empty.
pub open spec fn outgoing(history: Seq<UiMessageView>) -> Seq<MessageView>
    decreases history.len(),
{
    if history.len() == 0 {
        seq![]
    } else {
        let rest = outgoing(history.drop_last());
        let m = history.last();
        match m.role {
            Role::User => rest.push(from_user(m.text)),
            Role::Assistant => if m.text.len() > 0 {
                rest.push(from_assistant(m.text))
            } else {
                rest
            },
        }
    }
}

/// What is sent is what was said: all messages in order, each with its role and its
/// whole text, but for replies that are empty.
pub proof fn law_sent_is_what_was_said(history: Seq<UiMessageView>)
    ensures
        outgoing(history) == history.filter(
            |m: UiMessageView| m.role == Role::User || m.text.len() > 0,
        ).map_values(
            |m: UiMessageView|
                MessageView {
                    role: if m.role == Role::User {
                        "user"@
                    } else {
                        "assistant"@
                    },
                    content: m.text,
                },
        ),
    decreases history.len(),
{
    reveal(Seq::filter);
    let sent = |m: UiMessageView| m.role == Role::User || m.text.len() > 0;
    let as_message = |m: UiMessageView|
        MessageView {
            role: if m.role == Role::User {
                "user"@
            } else {
                "assistant"@
            },
            content: m.text,
        };
    if history.len() > 0 {
        let rest = history.drop_last();
        law_sent_is_what_was_said(rest);
        let m = history.last();
        assert(rest.filter(sent).push(m).map_values(as_message) == rest.filter(sent).map_values(
            as_message,
        ).push(as_message(m)));
    } else {
        assert(outgoing(history) == history.filter(sent).map_values(as_message));
    }
}

/// A number that may be missing, as text.
pub open spec fn optional(n: Option<u32>) -> Seq<char> {
    match n {
        Some(n) => "Some("@ + decimal(n as nat) + ")"@,
        None => "None"@,
    }
}

/// The logo and a blank line.
pub open spec fn welcome_lines() -> Seq<LineView> {
    colored_logo(Color::Rgb(255, 140, 155), Color::Rgb(255, 180, 190)).push(plain_line(seq![]))
}

impl<F> AppState<F> {
    /// With a status message.
    pub open spec fn flashed(self, msg: Seq<char>, now: u64) -> Self {
        AppState { status: Some((msg, now)), ..self }
    }

    /// With another model.
    pub open spec fn with_model(self, model: Seq<char>) -> Self {
        AppState { cfg: ConfigView { model, ..self.cfg }, ..self }
    }

    /// After an event of the stream: text waits, and both leave their count.
    pub open spec fn received(self, event: EventView, now: u64) -> Self {
        match event {
            EventView::Token(t) => AppState {
                in_flight: match self.in_flight {
                    Some(f) => Some(InFlight { chars: counted(f.chars, t.len()), ..f }),
                    None => None,
                },
                pending: self.pending.push((now, t)),
                ..self
            },
            EventView::Usage(total) => AppState {
                in_flight: match self.in_flight {
                    Some(f) => Some(InFlight { context_tokens: total, ..f }),
                    None => None,
                },
                last_context_tokens: total,
                last_context_limit: CONTEXT_WINDOW,
                ..self
            },
        }
    }

    /// After events of the stream, one after the other.
    pub open spec fn received_all(self, events: Seq<EventView>, now: u64) -> Self
        decreases events.len(),
    {
        if events.len() == 0 {
            self
        } else {
            self.received_all(events.drop_last(), now).received(events.last(), now)
        }
    }

    /// After what has come of a reply; without one nothing comes.
    pub open spec fn drained(self, events: Seq<EventView>, now: u64) -> Self {
        if self.in_flight is Some {
            self.received_all(events, now)
        } else {
            self
        }
    }

    /// The last message is the assistant's.
    pub open spec fn ends_in_reply(self) -> bool {
        self.history.len() > 0 && self.history.last().role == Role::Assistant
    }

    /// The text of the last message, if it is the assistant's.
    pub open spec fn reply(self) -> Seq<char> {
        if self.ends_in_reply() {
            self.history.last().text
        } else {
            seq![]
        }
    }

    /// With text added to the reply.
    pub open spec fn appended(self, text: Seq<char>) -> Self {
        if text.len() == 0 {
            self
        } else if self.ends_in_reply() {
            AppState {
                history: self.history.drop_last().push(
                    UiMessageView { role: Role::Assistant, text: self.history.last().text + text },
                ),
                ..self
            }
        } else {
            AppState {
                history: self.history.push(UiMessageView { role: Role::Assistant, text }),
                ..self
            }
        }
    }

    /// With all waiting text added to the reply.
    pub open spec fn caught_up(self) -> Self {
        AppState { pending: seq![], ..self }.appended(concat(texts(self.pending)))
    }

    /// The lines of a reply, none for an empty one.
    pub open spec fn reply_effects(self, text: Seq<char>, width: nat) -> Seq<EffectView> {
        if text.len() == 0 {
            seq![]
        } else {
            seq![
                EffectView::Insert(
                    message_lines(self.cfg.persona.assistant_name, text, width, Color::Cyan),
                ),
            ]
        }
    }

    /// What the end of a stream puts into the scrollback.
    pub open spec fn end_effects(
        self,
        outcome: Result<StreamOutcome, Seq<char>>,
        width: nat,
    ) -> Seq<EffectView> {
        let said = self.reply_effects(self.reply(), width);
        if self.is_fullscreen {
            seq![]
        } else {
            match outcome {
                Ok(StreamOutcome::Done) => said,
                Ok(StreamOutcome::Cancelled) => said.push(
                    EffectView::Insert(noted("(cancelled)"@)),
                ),
                Err(e) => said.push(EffectView::Insert(noted("error: "@ + e))),
            }
        }
    }

    /// Without a reply on its way, and without an empty last one.
    pub open spec fn ended(self) -> Self {
        AppState {
            in_flight: None,
            history: if self.ends_in_reply() && self.history.last().text.len() == 0 {
                self.history.drop_last()
            } else {
                self.history
            },
            ..self
        }
    }

    /// After the end of a stream.
    pub open spec fn finished(
        self,
        outcome: Result<StreamOutcome, Seq<char>>,
        events: Seq<EventView>,
        width: nat,
        now: u64,
    ) -> (Self, Seq<EffectView>) {
        let s = self.drained(events, now).caught_up();
        (s.ended(), s.end_effects(outcome, width))
    }

    /// What a key means in the chat.
    pub open spec fn key_context(self, now: u64) -> KeyContext {
        if self.in_flight is Some {
            KeyContext::Streaming
        } else if self.ctrl_c_arm matches Some(arm) && still_armed(arm, now) {
            KeyContext::IdleArmed
        } else {
            KeyContext::IdleUnarmed
        }
    }

    /// After a key while a dialog is open.
    pub open spec fn dialog_keyed(self, k: KeyEvent, now: u64) -> Self {
        let action = binding(k, KeyContext::Dialog);
        if action == Action::DialogClose {
            AppState { dialog: no_dialog(), ..self }
        } else if action == Action::DialogConfirm || action == Action::DialogUp || action
            == Action::DialogDown {
            match self.dialog.chosen(action) {
                Some(model) => AppState { dialog: no_dialog(), ..self.with_model(model) }.flashed(
                    "model -> "@ + model,
                    now,
                ),
                None => AppState { dialog: self.dialog.moved(action), ..self },
            }
        } else {
            self
        }
    }

    /// After the connection has been told to stop.
    pub open spec fn cancelling(self) -> Self {
        AppState {
            in_flight: match self.in_flight {
                Some(f) => Some(InFlight { cancelled: true, ..f }),
                None => None,
            },
            ..self
        }
    }

    /// What telling the connection to stop takes: a signal the first time.
    pub open spec fn cancel_effect(self) -> KeyEffect {
        match self.in_flight {
            Some(f) => KeyEffect::Cancel { signal: !f.cancelled },
            None => KeyEffect::Nothing,
        }
    }

    /// After an action in the chat.
    pub open spec fn acted(self, action: Action, now: u64) -> Self {
        match action {
            Action::Submit => AppState { submit_pending: true, ..self },
            Action::CancelStream => self.cancelling(),
            Action::QuitArm => AppState { ctrl_c_arm: Some(CtrlCArm { at: now }), ..self }.flashed(
                "press Ctrl-C again to quit"@,
                now,
            ),
            Action::QuitNow => AppState { quit: true, ..self },
            Action::ScrollUp => AppState {
                scroll_state: scrolled_up(self.scroll_state, 3),
                ..self
            },
            Action::ScrollDown => AppState {
                scroll_state: scrolled_down(
                    self.scroll_state,
                    3,
                    SCROLL_TOTAL as int,
                    SCROLL_VISIBLE as int,
                ),
                ..self
            },
            Action::ScrollPageUp => AppState {
                scroll_state: scrolled_up(self.scroll_state, 20),
                ..self
            },
            Action::ScrollPageDown => AppState {
                scroll_state: scrolled_down(
                    self.scroll_state,
                    20,
                    SCROLL_TOTAL as int,
                    SCROLL_VISIBLE as int,
                ),
                ..self
            },
            Action::ScrollTop => AppState {
                scroll_state: ScrollBoxState { viewport_top: 0, sticky_bottom: false },
                ..self
            },
            Action::ScrollBottom => AppState {
                scroll_state: ScrollBoxState {
                    viewport_top: (SCROLL_TOTAL - SCROLL_VISIBLE) as usize,
                    sticky_bottom: true,
                },
                ..self
            },
            _ => self,
        }
    }

    /// What an action in the chat takes.
    pub open spec fn action_effect(self, action: Action, k: KeyEvent) -> KeyEffect {
        match action {
            Action::InsertNewline => KeyEffect::Type(bare(Key::Enter)),
            Action::CancelStream => self.cancel_effect(),
            Action::ForwardToComposer => KeyEffect::Type(input_of(k)),
            _ => KeyEffect::Nothing,
        }
    }

    /// After a key: an open dialog takes all of them.
    pub open spec fn keyed(self, k: KeyEvent, now: u64) -> (Self, KeyEffect) {
        if self.dialog.open() {
            (self.dialog_keyed(k, now), KeyEffect::Nothing)
        } else {
            let action = binding(k, self.key_context(now));
            (self.acted(action, now), self.action_effect(action, k))
        }
    }

    /// With nothing said.
    pub open spec fn cleared(self) -> (Self, Seq<EffectView>) {
        let s = AppState { history: seq![], pending: seq![], ..self };
        if self.is_fullscreen {
            (AppState { route: Route::Home, scroll_state: fresh_scroll(), ..s }, seq![])
        } else {
            (
                AppState { welcome_done: true, ..s },
                seq![EffectView::ClearScreen(false), EffectView::Insert(welcome_lines())],
            )
        }
    }

    /// After a command of the user.
    pub open spec fn commanded(
        self,
        rest: Seq<char>,
        now: u64,
        temperature: Seq<char>,
        top_p: Seq<char>,
    ) -> (Self, Seq<EffectView>) {
        let parts = words(rest);
        if parts.len() == 0 {
            (self, seq![])
        } else if parts[0] == "exit"@ || parts[0] == "quit"@ {
            (AppState { quit: true, ..self }, seq![])
        } else if parts[0] == "clear"@ {
            (self.cleared().0.flashed("(history cleared)"@, now), self.cleared().1)
        } else if parts[0] == "model"@ {
            if parts.len() > 1 {
                (self.with_model(parts[1]).flashed("model -> "@ + parts[1], now), seq![])
            } else if self.is_fullscreen {
                (
                    AppState {
                        dialog: DialogView {
                            model: Some(fresh_choice(self.cfg.model)),
                            help: false,
                        },
                        ..self
                    },
                    seq![],
                )
            } else {
                (self.flashed("model: "@ + self.cfg.model, now), seq![])
            }
        } else if parts[0] == "provider"@ {
            (
                self.flashed("provider: DeepSeek  base_url: https://api.deepseek.com/v1"@, now),
                seq![],
            )
        } else if parts[0] == "params"@ {
            (
                self.flashed(
                    "temperature="@ + temperature + "  top_p="@ + top_p + "  max_tokens="@
                        + optional(self.cfg.max_tokens),
                    now,
                ),
                seq![],
            )
        } else if parts[0] == "help"@ {
            if self.is_fullscreen {
                (AppState { dialog: DialogView { model: None, help: true }, ..self }, seq![])
            } else {
                (self.flashed("/model [name] /provider /params /clear /exit"@, now), seq![])
            }
        } else {
            (self.flashed("unknown command: /"@ + parts[0] + " (try /help)"@, now), seq![])
        }
    }

    /// With a message of the user, and a reply asked for.
    pub open spec fn asked(self, text: Seq<char>, now: u64) -> Self {
        AppState {
            history: self.history.push(UiMessageView { role: Role::User, text }).push(
                UiMessageView { role: Role::Assistant, text: seq![] },
            ),
            route: if self.is_fullscreen {
                Route::Session
            } else {
                self.route
            },
            in_flight: Some(
                InFlight {
                    started: now,
                    chars: 0,
                    context_tokens: 0,
                    context_limit: CONTEXT_WINDOW,
                    cancelled: false,
                },
            ),
            ..self
        }
    }

    /// What asking for a reply takes.
    pub open spec fn ask_effects(self, text: Seq<char>, now: u64, width: nat) -> Seq<EffectView> {
        let start = EffectView::Start(outgoing(self.asked(text, now).history));
        if self.is_fullscreen {
            seq![EffectView::FreshComposer, start]
        } else {
            seq![
                EffectView::FreshComposer,
                EffectView::Insert(
                    message_lines(self.cfg.persona.user_name, text, width, Color::Green),
                ),
                start,
            ]
        }
    }

    /// After the user submits what they typed: nothing happens while a reply is on
    /// its way or where there is no text, a command is carried out, anything else is
    /// sent.
    pub open spec fn submitted(
        self,
        typed: Seq<Seq<char>>,
        now: u64,
        width: nat,
        temperature: Seq<char>,
        top_p: Seq<char>,
    ) -> (Self, Seq<EffectView>) {
        let s = AppState { pending: seq![], ..self };
        let text = trimmed(joined(typed, "\n"@));
        if self.in_flight is Some {
            (self, seq![])
        } else if text.len() == 0 {
            (s, seq![])
        } else if text[0] == '/' {
            let (t, effects) = s.commanded(text.skip(1), now, temperature, top_p);
            (t, seq![EffectView::FreshComposer] + effects)
        } else {
            (s.asked(text, now), s.ask_effects(text, now, width))
        }
    }

    /// After a turn of the loop: waiting text is shown where it is due, and what the
    /// user submitted is taken up.
    pub open spec fn flushed(
        self,
        typed: Seq<Seq<char>>,
        now: u64,
        width: nat,
        temperature: Seq<char>,
        top_p: Seq<char>,
    ) -> (Self, Seq<EffectView>) {
        let s = if due(self.pending, now) {
            self.caught_up()
        } else {
            self
        };
        if s.submit_pending {
            AppState { submit_pending: false, ..s }.submitted(typed, now, width, temperature, top_p)
        } else {
            (s, seq![])
        }
    }

    /// Without what time has made void.
    pub open spec fn expired(self, now: u64) -> Self {
        AppState {
            ctrl_c_arm: match self.ctrl_c_arm {
                Some(arm) => if still_armed(arm, now) {
                    Some(arm)
                } else {
                    None
                },
                None => None,
            },
            status: match self.status {
                Some((msg, at)) => if stale(at, now) {
                    None
                } else {
                    Some((msg, at))
                },
                None => None,
            },
            ..self
        }
    }

    /// The messages that are complete: all but a reply on its way.
    pub open spec fn replayable(self) -> Seq<UiMessageView> {
        if self.in_flight is Some && self.ends_in_reply() {
            self.history.drop_last()
        } else {
            self.history
        }
    }

    /// What puts messages into the scrollback.
    pub open spec fn replay(self, messages: Seq<UiMessageView>, width: nat) -> Seq<EffectView>
        decreases messages.len(),
    {
        if messages.len() == 0 {
            seq![]
        } else {
            let m = messages.last();
            self.replay(messages.drop_last(), width) + match m.role {
                Role::User => seq![
                    EffectView::Insert(
                        message_lines(self.cfg.persona.user_name, m.text, width, Color::Green),
                    ),
                ],
                Role::Assistant => self.reply_effects(m.text, width),
            }
        }
    }

    /// After the scrollback has been written anew.
    pub open spec fn rewritten(self, events: Seq<EventView>, width: nat, now: u64) -> (
        Self,
        Seq<EffectView>,
    ) {
        if self.is_fullscreen {
            (self, seq![])
        } else {
            let s = self.drained(events, now).caught_up();
            (
                AppState { welcome_done: true, ..s },
                seq![EffectView::ClearScreen(true), EffectView::Insert(welcome_lines())] + s.replay(
                    s.replayable(),
                    width,
                ),
            )
        }
    }
}

/// A key by itself.
pub open spec fn bare(key: Key) -> Input {
    Input { key, ctrl: false, alt: false, shift: false }
}

/// A pressed key as one for the text that the user types.
pub open spec fn input_of(k: KeyEvent) -> Input {
    Input {
        key: match k.code {
            KeyCode::Char(c) => Key::Char(c),
            KeyCode::Enter => Key::Enter,
            KeyCode::Backspace => Key::Backspace,
            KeyCode::Delete => Key::Delete,
            KeyCode::Tab => Key::Tab,
            KeyCode::Left => Key::Left,
            KeyCode::Right => Key::Right,
            KeyCode::Up => Key::Up,
            KeyCode::Down => Key::Down,
            KeyCode::Home => Key::Home,
            KeyCode::End => Key::End,
            KeyCode::Esc => Key::Esc,
            _ => Key::Null,
        },
        ctrl: k.modifiers.ctrl,
        alt: k.modifiers.alt,
        shift: k.modifiers.shift,
    }
}

// ───────────────────────────── the application ─────────────────────────────
/// A pressed key as one for the text that the user types.
pub fn ct_to_input(k: &KeyEvent) -> (r: Input)
    ensures
        r == input_of(*k),
{
    let key = match k.code {
        KeyCode::Char(c) => Key::Char(c),
        KeyCode::Enter => Key::Enter,
        KeyCode::Backspace => Key::Backspace,
        KeyCode::Delete => Key::Delete,
        KeyCode::Tab => Key::Tab,
        KeyCode::Left => Key::Left,
        KeyCode::Right => Key::Right,
        KeyCode::Up => Key::Up,
        KeyCode::Down => Key::Down,
        KeyCode::Home => Key::Home,
        KeyCode::End => Key::End,
        KeyCode::Esc => Key::Esc,
        _ => Key::Null,
    };
    Input { key, ctrl: k.modifiers.ctrl, alt: k.modifiers.alt, shift: k.modifiers.shift }
}

/// The width to lay text out for, given that of the terminal where it is known.
pub fn term_width(columns: Option<u16>) -> (r: usize)
    ensures
        r == match columns {
            Some(n) => if n == 0 {
                1
            } else {
                n as int
            },
            None => 80,
        },
{
    match columns {
        Some(n) => if n == 0 {
            1
        } else {
            n as usize
        },
        None => 80,
    }
}

/// The rows that lines in the scrollback take, as far as a terminal counts; `None`
/// for no lines.
pub fn insert_height(lines: &[Line]) -> (r: Option<u16>)
    ensures
        r == if lines@.len() == 0 {
            None
        } else {
            Some(lines@.len() as u16)
        },
{
    let n: usize = lines.len();
    if n == 0 {
        None
    } else {
        Some(
            #[verifier::truncate]
            (n as u16),
        )
    }
}

/// The messages that a history sends.
pub fn outgoing_messages(history: &[UiMessage]) -> (r: Vec<Message>)
    ensures
        message_views(r@) == outgoing(ui_views(history@)),
        message_views(r@) == ui_views(history@).filter(
            |m: UiMessageView| m.role == Role::User || m.text.len() > 0,
        ).map_values(
            |m: UiMessageView|
                MessageView {
                    role: if m.role == Role::User {
                        "user"@
                    } else {
                        "assistant"@
                    },
                    content: m.text,
                },
        ),
{
    let ghost all = ui_views(history@);
    proof {
        law_sent_is_what_was_said(all);
    }
    let mut out: Vec<Message> = Vec::new();
    let mut i: usize = 0;
    assert(message_views(out@) == outgoing(all.take(0)));
    while i < history.len()
        invariant
            i <= history@.len(),
            all == ui_views(history@),
            message_views(out@) == outgoing(all.take(i as int)),
        decreases history@.len() - i,
    {
        let ghost done = message_views(out@);
        assert(all.take(i + 1).drop_last() == all.take(i as int));
        assert(all[i as int] == history@[i as int]@);
        match history[i].role {
            Role::User => {
                let m = Message::user(history[i].text.as_str());
                out.push(m);
                assert(message_views(out@) == done.push(m@));
            },
            Role::Assistant => {
                if !history[i].text.as_str().is_empty() {
                    let m = Message::assistant(history[i].text.as_str());
                    out.push(m);
                    assert(message_views(out@) == done.push(m@));
                }
            },
        }
        i += 1;
    }
    assert(all.take(all.len() as int) == all);
    out
}

/// A number that may be missing, as text.
fn optional_text(n: Option<u32>) -> (r: String)
    ensures
        r@ == optional(n),
{
    match n {
        Some(n) => {
            let mut s = "Some(".to_owned();
            s.append(to_decimal(n as u64).as_str());
            s.append(")");
            s
        },
        None => "None".to_owned(),
    }
}

impl<F> App<F> {
    /// The application as it starts.
    pub open spec fn starts(self, cfg: ConfigView<F>, fullscreen: bool) -> bool {
        self@ == AppState {
            cfg,
            history: seq![],
            pending: seq![],
            in_flight: None,
            quit: false,
            ctrl_c_arm: None,
            status: None,
            submit_pending: false,
            welcome_done: false,
            route: Route::Home,
            is_fullscreen: fullscreen,
            scroll_state: fresh_scroll(),
            dialog: no_dialog(),
            last_context_tokens: 0,
            last_context_limit: 0,
        }
    }

    /// The application in split-footer mode.
    pub fn new(cfg: ResolvedConfig<F>) -> (r: Self)
        ensures
            r.starts(cfg@, false),
    {
        let r = App {
            cfg,
            history: Vec::new(),
            stream: StreamState::new(),
            in_flight: None,
            quit: false,
            ctrl_c_arm: None,
            status_msg: None,
            submit_pending: false,
            welcome_done: false,
            route: Route::Home,
            is_fullscreen: false,
            scroll_state: ScrollBoxState::new(),
            dialog_stack: DialogStack::default(),
            last_context_tokens: 0,
            last_context_limit: 0,
        };
        assert(r@.history == Seq::<UiMessageView>::empty());
        r
    }

    /// The application on the full screen.
    pub fn new_fullscreen(cfg: ResolvedConfig<F>) -> (r: Self)
        ensures
            r.starts(cfg@, true),
    {
        let mut app = Self::new(cfg);
        app.is_fullscreen = true;
        app
    }

    /// Shows a status message.
    pub fn flash(&mut self, msg: String, now: u64)
        ensures
            final(self)@ == old(self)@.flashed(msg@, now),
    {
        self.status_msg = Some((msg, now));
    }

    /// Takes up an event of the stream.
    pub fn on_stream_event(&mut self, event: StreamEvent, now: u64)
        ensures
            final(self)@ == old(self)@.received(event@, now),
    {
        match event {
            StreamEvent::Token(t) => {
                match self.in_flight {
                    Some(f) => {
                        let n = chars_of(t.as_str()).len();
                        self.in_flight = Some(InFlight { chars: f.chars.saturating_add(n), ..f });
                    },
                    None => {},
                }
                self.stream.enqueue(t, now);
            },
            StreamEvent::Usage { total_tokens } => {
                match self.in_flight {
                    Some(f) => {
                        self.in_flight = Some(InFlight { context_tokens: total_tokens, ..f });
                    },
                    None => {},
                }
                self.last_context_tokens = total_tokens;
                self.last_context_limit = CONTEXT_WINDOW;
            },
        }
    }

    /// Takes up what has come of a reply.
    pub fn drain_in_flight_tokens(&mut self, events: Vec<StreamEvent>, now: u64)
        ensures
            final(self)@ == old(self)@.drained(event_views(events@), now),
    {
        if self.in_flight.is_none() {
            return ;
        }
        let ghost all = event_views(events@);
        let ghost start = self@;
        for event in it: events
            invariant
                it.seq() == events@,
                all == event_views(events@),
                self@ == start.received_all(all.take(it.index() as int), now),
        {
            assert(all.take(it.index() + 1).drop_last() == all.take(it.index() as int));
            assert(all[it.index() as int] == event@);
            self.on_stream_event(event, now);
        }
        assert(all.take(all.len() as int) == all);
    }

    /// Whether the last message is the assistant's.
    fn last_is_reply(&self) -> (r: bool)
        ensures
            r == self@.ends_in_reply(),
    {
        let n = self.history.len();
        n > 0 && self.history[n - 1].role == Role::Assistant
    }

    /// Adds text to the reply.
    pub fn append_assistant_text(&mut self, text: &str)
        ensures
            final(self)@ == old(self)@.appended(text@),
    {
        if text.is_empty() {
            return ;
        }
        let ghost was = self@;
        if self.last_is_reply() {
            match self.history.pop() {
                Some(last) => {
                    let mut joined_text = last.text;
                    joined_text.append(text);
                    self.history.push(UiMessage { role: Role::Assistant, text: joined_text });
                },
                None => {},
            }
        } else {
            self.history.push(UiMessage { role: Role::Assistant, text: text.to_owned() });
        }
        assert(self@.history == was.appended(text@).history);
    }

    /// Adds all waiting text to the reply.
    fn catch_up(&mut self)
        ensures
            final(self)@ == old(self)@.caught_up(),
    {
        let pending = self.stream.drain_all();
        self.append_assistant_text(pending.as_str());
    }

    /// The lines of a reply, none for an empty one.
    fn push_reply(&self, effects: &mut Vec<Effect>, text: &str, width: usize)
        ensures
            effect_views(final(effects)@) == effect_views(old(effects)@) + self@.reply_effects(
                text@,
                width as nat,
            ),
    {
        if !text.is_empty() {
            let lines = assistant_message_lines(
                self.cfg.persona.assistant_name.as_str(),
                text,
                width,
            );
            push_effect(effects, Effect::Insert(lines));
        }
        assert(effect_views(effects@) == effect_views(old(effects)@) + self@.reply_effects(
            text@,
            width as nat,
        ));
    }

    /// The text of the last message, if it is the assistant's.
    fn reply_text(&self) -> (r: String)
        ensures
            r@ == self@.reply(),
    {
        if self.last_is_reply() {
            self.history[self.history.len() - 1].text.clone()
        } else {
            String::new()
        }
    }

    /// Takes up the end of a stream, and what has come before it.
    pub fn on_app_event(
        &mut self,
        outcome: Result<StreamOutcome, String>,
        events: Vec<StreamEvent>,
        width: usize,
        now: u64,
    ) -> (r: Vec<Effect>)
        ensures
            (final(self)@, effect_views(r@)) == old(self)@.finished(
                outcome_view(outcome),
                event_views(events@),
                width as nat,
                now,
            ),
    {
        self.drain_in_flight_tokens(events, now);
        self.catch_up();
        let ghost s = self@;
        let mut effects: Vec<Effect> = Vec::new();
        assert(effect_views(effects@) == Seq::<EffectView>::empty());
        if !self.is_fullscreen {
            let text = self.reply_text();
            self.push_reply(&mut effects, text.as_str(), width);
            match outcome {
                Ok(StreamOutcome::Done) => {},
                Ok(StreamOutcome::Cancelled) => {
                    push_effect(&mut effects, Effect::Insert(note_lines("(cancelled)")));
                },
                Err(e) => {
                    let mut note = "error: ".to_owned();
                    note.append(e.as_str());
                    push_effect(&mut effects, Effect::Insert(note_lines(note.as_str())));
                },
            }
        }
        assert(effect_views(effects@) == s.end_effects(outcome_view(outcome), width as nat));
        self.in_flight = None;
        if self.last_is_reply() && self.history[self.history.len() - 1].text.as_str().is_empty() {
            let _ = self.history.pop();
        }
        assert(self@.history == s.ended().history);
        effects
    }

    /// Tells the connection to stop.
    pub fn cancel_stream(&mut self) -> (r: KeyEffect)
        ensures
            final(self)@ == old(self)@.cancelling(),
            r == old(self)@.cancel_effect(),
    {
        match self.in_flight {
            Some(f) => {
                self.in_flight = Some(InFlight { cancelled: true, ..f });
                KeyEffect::Cancel { signal: !f.cancelled }
            },
            None => KeyEffect::Nothing,
        }
    }

    /// Takes up a key while a dialog is open.
    fn on_dialog_key(&mut self, k: &KeyEvent, now: u64)
        requires
            old(self)@.dialog.well_formed(),
        ensures
            final(self)@ == old(self)@.dialog_keyed(*k, now),
    {
        let action = resolve(k, KeyContext::Dialog);
        match action {
            Action::DialogClose => {
                self.dialog_stack.close();
            },
            Action::DialogConfirm | Action::DialogUp | Action::DialogDown => {
                match self.dialog_stack.handle_key(action) {
                    Some(model) => {
                        let mut msg = "model -> ".to_owned();
                        msg.append(model.as_str());
                        self.cfg.model = model;
                        self.dialog_stack.close();
                        self.flash(msg, now);
                    },
                    None => {},
                }
            },
            _ => {},
        }
    }

    /// What a key means in the chat.
    fn context(&self, now: u64) -> (r: KeyContext)
        ensures
            r == self@.key_context(now),
    {
        if self.in_flight.is_some() {
            return KeyContext::Streaming;
        }
        match self.ctrl_c_arm {
            Some(arm) => if now < arm.at || now - arm.at < ARM_NANOS {
                KeyContext::IdleArmed
            } else {
                KeyContext::IdleUnarmed
            },
            None => KeyContext::IdleUnarmed,
        }
    }

    /// Takes up a key.
    pub fn on_key(&mut self, k: &KeyEvent, now: u64) -> (r: KeyEffect)
        requires
            old(self)@.dialog.well_formed(),
        ensures
            (final(self)@, r) == old(self)@.keyed(*k, now),
    {
        if self.dialog_stack.is_open() {
            self.on_dialog_key(k, now);
            return KeyEffect::Nothing;
        }
        let action = resolve(k, self.context(now));
        match action {
            Action::Submit => {
                self.submit_pending = true;
                KeyEffect::Nothing
            },
            Action::InsertNewline => KeyEffect::Type(
                Input { key: Key::Enter, ctrl: false, alt: false, shift: false },
            ),
            Action::CancelStream => self.cancel_stream(),
            Action::QuitArm => {
                self.ctrl_c_arm = Some(CtrlCArm { at: now });
                self.flash("press Ctrl-C again to quit".to_owned(), now);
                KeyEffect::Nothing
            },
            Action::QuitNow => {
                self.quit = true;
                KeyEffect::Nothing
            },
            Action::ForwardToComposer => KeyEffect::Type(ct_to_input(k)),
            Action::ScrollUp => {
                self.scroll_state.scroll_up(3);
                KeyEffect::Nothing
            },
            Action::ScrollDown => {
                self.scroll_state.scroll_down(3, SCROLL_TOTAL, SCROLL_VISIBLE);
                KeyEffect::Nothing
            },
            Action::ScrollPageUp => {
                self.scroll_state.scroll_up(20);
                KeyEffect::Nothing
            },
            Action::ScrollPageDown => {
                self.scroll_state.scroll_down(20, SCROLL_TOTAL, SCROLL_VISIBLE);
                KeyEffect::Nothing
            },
            Action::ScrollTop => {
                self.scroll_state.scroll_to_top();
                KeyEffect::Nothing
            },
            Action::ScrollBottom => {
                self.scroll_state.scroll_to_bottom(SCROLL_TOTAL, SCROLL_VISIBLE);
                KeyEffect::Nothing
            },
            Action::DialogUp | Action::DialogDown | Action::DialogConfirm | Action::DialogClose => {
                KeyEffect::Nothing
            },
        }
    }

    /// Takes up what comes from the terminal.
    pub fn on_terminal_event(&mut self, event: TermEvent, now: u64) -> (r: TermEffect)
        requires
            old(self)@.dialog.well_formed(),
        ensures
            match event {
                TermEvent::Key(k) => r matches TermEffect::Key(e) && (final(self)@, e) == old(
                    self,
                )@.keyed(k, now),
                TermEvent::Paste(text) => (r matches TermEffect::Type(keys) && typing(
                    keys@,
                    text@,
                )) && final(self)@ == old(self)@,
                TermEvent::WheelUp => r is Nothing && final(self)@ == old(self)@.acted(
                    Action::ScrollUp,
                    now,
                ),
                TermEvent::WheelDown => r is Nothing && final(self)@ == old(self)@.acted(
                    Action::ScrollDown,
                    now,
                ),
                TermEvent::Resize => final(self)@ == old(self)@ && if old(self)@.is_fullscreen {
                    r is Nothing
                } else {
                    r is Rewrite
                },
                TermEvent::Other => r is Nothing && final(self)@ == old(self)@,
            },
    {
        match event {
            TermEvent::Key(k) => {
                let effect = self.on_key(&k, now);
                TermEffect::Key(effect)
            },
            TermEvent::Paste(text) => TermEffect::Type(typed_keys(text.as_str())),
            TermEvent::WheelUp => {
                self.scroll_state.scroll_up(3);
                TermEffect::Nothing
            },
            TermEvent::WheelDown => {
                self.scroll_state.scroll_down(3, SCROLL_TOTAL, SCROLL_VISIBLE);
                TermEffect::Nothing
            },
            TermEvent::Resize => if self.is_fullscreen {
                TermEffect::Nothing
            } else {
                TermEffect::Rewrite
            },
            TermEvent::Other => TermEffect::Nothing,
        }
    }
}

/// These keys type a text.
pub open spec fn typing(keys: Seq<Input>, text: Seq<char>) -> bool {
    keys.len() == text.len() && forall|i: int|
        0 <= i < text.len() ==> #[trigger] keys[i] == bare(Key::Char(text[i]))
}

/// The key that types a character.
fn char_key(c: char) -> (r: Input)
    ensures
        r == bare(Key::Char(c)),
{
    Input { key: Key::Char(c), ctrl: false, alt: false, shift: false }
}

/// The keys that type a text.
fn typed_keys(text: &str) -> (r: Vec<Input>)
    ensures
        typing(r@, text@),
{
    let cs = chars_of(text);
    let mut keys: Vec<Input> = Vec::new();
    let mut i: usize = 0;
    while i < cs.len()
        invariant
            cs@ == text@,
            i == keys@.len() <= cs@.len(),
            forall|j: int| 0 <= j < i ==> #[trigger] keys@[j] == bare(Key::Char(text@[j])),
        decreases cs@.len() - i,
    {
        keys.push(char_key(cs[i]));
        i += 1;
    }
    keys
}

/// What an outcome holds.
pub open spec fn outcome_view(outcome: Result<StreamOutcome, String>) -> Result<
    StreamOutcome,
    Seq<char>,
> {
    match outcome {
        Ok(o) => Ok(o),
        Err(e) => Err(e@),
    }
}

/// The logo and a blank line.
fn welcome() -> (r: Vec<Line>)
    ensures
        line_views(r@) == welcome_lines(),
{
    let mut lines = lines_for_scrollback(
        logo_shape(),
        Color::Rgb(255, 140, 155),
        Color::Rgb(255, 180, 190),
    );
    push_line(&mut lines, Line::blank());
    lines
}

impl<F> App<F> {
    /// What puts the logo into the scrollback, the first time.
    pub fn write_welcome(&mut self) -> (r: Option<Effect>)
        ensures
            final(self)@ == (AppState { welcome_done: true, ..old(self)@ }),
            match r {
                Some(e) => !old(self)@.welcome_done && e@ == EffectView::Insert(welcome_lines()),
                None => old(self)@.welcome_done,
            },
    {
        if self.welcome_done {
            return None;
        }
        self.welcome_done = true;
        Some(Effect::Insert(welcome()))
    }

    /// Takes back all that was said.
    pub fn clear_terminal_ui(&mut self) -> (r: Vec<Effect>)
        ensures
            (final(self)@, effect_views(r@)) == old(self)@.cleared(),
    {
        self.history = Vec::new();
        let _ = self.stream.drain_all();
        assert(self@.history == Seq::<UiMessageView>::empty());
        let mut effects: Vec<Effect> = Vec::new();
        if self.is_fullscreen {
            self.route = Route::Home;
            self.scroll_state = ScrollBoxState::new();
        } else {
            self.welcome_done = true;
            push_effect(&mut effects, Effect::ClearScreen { home: false });
            push_effect(&mut effects, Effect::Insert(welcome()));
        }
        assert(effect_views(effects@) == old(self)@.cleared().1);
        effects
    }

    /// Carries out a command of the user.
    pub fn handle_slash(&mut self, rest: &str, now: u64, sampling: &SamplingText) -> (r: Vec<Effect>)
        ensures
            (final(self)@, effect_views(r@)) == old(self)@.commanded(
                rest@,
                now,
                sampling.temperature@,
                sampling.top_p@,
            ),
    {
        let parts = split_words(rest);
        assert(views(parts@) == words(rest@));
        let mut effects: Vec<Effect> = Vec::new();
        assert(effect_views(effects@) == Seq::<EffectView>::empty());
        if parts.len() == 0 {
            return effects;
        }
        let cmd = parts[0].as_str();
        assert(cmd@ == words(rest@)[0]);
        if same(cmd, "exit") || same(cmd, "quit") {
            self.quit = true;
        } else if same(cmd, "clear") {
            effects = self.clear_terminal_ui();
            self.flash("(history cleared)".to_owned(), now);
        } else if same(cmd, "model") {
            if parts.len() > 1 {
                let model = parts[1].clone();
                assert(model@ == words(rest@)[1]);
                let mut msg = "model -> ".to_owned();
                msg.append(model.as_str());
                self.cfg.model = model;
                self.flash(msg, now);
            } else if self.is_fullscreen {
                self.dialog_stack.open_model(&self.cfg);
            } else {
                let mut msg = "model: ".to_owned();
                msg.append(self.cfg.model.as_str());
                self.flash(msg, now);
            }
        } else if same(cmd, "provider") {
            self.flash(
                "provider: DeepSeek  base_url: https://api.deepseek.com/v1".to_owned(),
                now,
            );
        } else if same(cmd, "params") {
            let mut msg = "temperature=".to_owned();
            msg.append(sampling.temperature.as_str());
            msg.append("  top_p=");
            msg.append(sampling.top_p.as_str());
            msg.append("  max_tokens=");
            msg.append(optional_text(self.cfg.max_tokens).as_str());
            self.flash(msg, now);
        } else if same(cmd, "help") {
            if self.is_fullscreen {
                self.dialog_stack.open_help();
            } else {
                self.flash("/model [name] /provider /params /clear /exit".to_owned(), now);
            }
        } else {
            let mut msg = "unknown command: /".to_owned();
            msg.append(cmd);
            msg.append(" (try /help)");
            self.flash(msg, now);
        }
        effects
    }

    /// Takes up what the user typed.
    pub fn submit(
        &mut self,
        typed: &[String],
        now: u64,
        width: usize,
        sampling: &SamplingText,
    ) -> (r: Vec<Effect>)
        ensures
            (final(self)@, effect_views(r@)) == old(self)@.submitted(
                views(typed@),
                now,
                width as nat,
                sampling.temperature@,
                sampling.top_p@,
            ),
    {
        let ghost start = self@;
        let mut effects: Vec<Effect> = Vec::new();
        assert(effect_views(effects@) == Seq::<EffectView>::empty());
        if self.in_flight.is_some() {
            return effects;
        }
        let _ = self.stream.drain_all();
        let ghost s = AppState { pending: Seq::<WaitingView>::empty(), ..start };
        let text = trim(join(typed, "\n").as_str());
        if text.as_str().is_empty() {
            return effects;
        }
        push_effect(&mut effects, Effect::FreshComposer);
        let ghost fresh = effect_views(effects@);
        proof {
            reveal_strlit("/");
        }
        match strip_prefix(text.as_str(), "/") {
            Some(rest) => {
                assert(text@.subrange(0, 1)[0] == '/');
                let mut more = self.handle_slash(rest.as_str(), now, sampling);
                let ghost before = effects@;
                let ghost added = more@;
                effects.append(&mut more);
                assert(effects@ == before + added);
                assert(effect_views(effects@) == fresh + effect_views(added));
                return effects;
            },
            None => {
                assert(text@[0] != '/') by {
                    if text@[0] == '/' {
                        assert(text@.subrange(0, 1) == "/"@);
                    }
                }
            },
        }
        if !self.is_fullscreen {
            let lines = user_message_lines(
                self.cfg.persona.user_name.as_str(),
                text.as_str(),
                width,
            );
            push_effect(&mut effects, Effect::Insert(lines));
        }
        self.history.push(UiMessage { role: Role::User, text: text.clone() });
        self.history.push(UiMessage { role: Role::Assistant, text: String::new() });
        if self.is_fullscreen {
            self.route = Route::Session;
        }
        let messages = outgoing_messages(self.history.as_slice());
        push_effect(&mut effects, Effect::Start(messages));
        self.in_flight = Some(
            InFlight {
                started: now,
                chars: 0,
                context_tokens: 0,
                context_limit: CONTEXT_WINDOW,
                cancelled: false,
            },
        );
        assert(self@.history == s.asked(text@, now).history);
        assert(self@ == s.asked(text@, now));
        assert(effect_views(effects@) == s.ask_effects(text@, now, width as nat));
        effects
    }

    /// Takes a turn of the loop: shows waiting text where it is due, and takes up what
    /// the user submitted.
    pub fn flush_stream(
        &mut self,
        typed: &[String],
        now: u64,
        width: usize,
        sampling: &SamplingText,
    ) -> (r: Vec<Effect>)
        ensures
            (final(self)@, effect_views(r@)) == old(self)@.flushed(
                views(typed@),
                now,
                width as nat,
                sampling.temperature@,
                sampling.top_p@,
            ),
    {
        if self.stream.ready(now) {
            let chunk = self.stream.drain_pending();
            self.append_assistant_text(chunk.as_str());
        }
        if self.submit_pending {
            self.submit_pending = false;
            self.submit(typed, now, width, sampling)
        } else {
            let r: Vec<Effect> = Vec::new();
            assert(effect_views(r@) == Seq::<EffectView>::empty());
            r
        }
    }

    /// Drops what time has made void.
    pub fn expire_timed(&mut self, now: u64)
        ensures
            final(self)@ == old(self)@.expired(now),
    {
        match self.ctrl_c_arm {
            Some(arm) => {
                if now >= arm.at && now - arm.at >= ARM_NANOS {
                    self.ctrl_c_arm = None;
                }
            },
            None => {},
        }
        let gone = match &self.status_msg {
            Some((_, at)) => now > *at && now - *at > STATUS_NANOS,
            None => false,
        };
        if gone {
            self.status_msg = None;
        }
    }

    /// The messages that are complete: all but a reply on its way.
    pub fn replayable_history(&self) -> (r: Vec<UiMessage>)
        ensures
            ui_views(r@) == self@.replayable(),
    {
        let n = if self.in_flight.is_some() && self.last_is_reply() {
            self.history.len() - 1
        } else {
            self.history.len()
        };
        let ghost all = ui_views(self.history@);
        let mut out: Vec<UiMessage> = Vec::new();
        let mut i: usize = 0;
        assert(ui_views(out@) == all.take(0));
        while i < n
            invariant
                i <= n <= self.history@.len(),
                all == ui_views(self.history@),
                ui_views(out@) == all.take(i as int),
            decreases n - i,
        {
            let ghost done = ui_views(out@);
            out.push(self.history[i].clone());
            assert(ui_views(out@) == done.push(all[i as int]));
            assert(all.take(i + 1) == done.push(all[i as int]));
            i += 1;
        }
        assert(all.take(n as int) == self@.replayable());
        out
    }

    /// Writes the scrollback anew.
    pub fn rewrite_scrollback(
        &mut self,
        events: Vec<StreamEvent>,
        width: usize,
        now: u64,
    ) -> (r: Vec<Effect>)
        ensures
            (final(self)@, effect_views(r@)) == old(self)@.rewritten(
                event_views(events@),
                width as nat,
                now,
            ),
    {
        let mut effects: Vec<Effect> = Vec::new();
        assert(effect_views(effects@) == Seq::<EffectView>::empty());
        if self.is_fullscreen {
            return effects;
        }
        self.drain_in_flight_tokens(events, now);
        self.catch_up();
        let ghost s = self@;
        push_effect(&mut effects, Effect::ClearScreen { home: true });
        push_effect(&mut effects, Effect::Insert(welcome()));
        self.welcome_done = true;
        let messages = self.replayable_history();
        let ghost top = seq![EffectView::ClearScreen(true), EffectView::Insert(welcome_lines())];
        let ghost all = ui_views(messages@);
        assert(effect_views(effects@) == top + s.replay(all.take(0), width as nat));
        let mut i: usize = 0;
        while i < messages.len()
            invariant
                i <= messages@.len(),
                all == ui_views(messages@),
                self@.cfg == s.cfg,
                effect_views(effects@) == top + s.replay(all.take(i as int), width as nat),
            decreases messages@.len() - i,
        {
            let ghost done = s.replay(all.take(i as int), width as nat);
            assert(all.take(i + 1).drop_last() == all.take(i as int));
            assert(all[i as int] == messages@[i as int]@);
            let text = messages[i].text.as_str();
            match messages[i].role {
                Role::User => {
                    let lines = user_message_lines(
                        self.cfg.persona.user_name.as_str(),
                        text,
                        width,
                    );
                    push_effect(&mut effects, Effect::Insert(lines));
                    assert(effect_views(effects@) == top + s.replay(
                        all.take(i + 1),
                        width as nat,
                    ));
                },
                Role::Assistant => {
                    self.push_reply(&mut effects, text, width);
                    assert(top + done + s.reply_effects(text@, width as nat) == top + (done
                        + s.reply_effects(text@, width as nat)));
                },
            }
            i += 1;
        }
        assert(all.take(all.len() as int) == all);
        effects
    }
}

} // verus!
