use aili::config::{AltScreenMode, Persona, ResolvedConfig, TuiConfig};
use aili::stream::{StreamEvent, StreamOutcome};
use aili::style::Line;
use aili::tui::app::{
    ct_to_input, insert_height, outgoing_messages, term_width, App, Effect, InFlight, Input, Key,
    KeyEffect, Role, Route, SamplingText, TermEffect, TermEvent, UiMessage,
};
use aili::tui::keymap::{KeyCode, KeyEvent, KeyModifiers};

fn test_cfg() -> ResolvedConfig<f32> {
    ResolvedConfig {
        base_url: "https://example.test/v1".into(),
        api_key: "test-key".into(),
        model: "deepseek-v4-flash".into(),
        temperature: None,
        top_p: None,
        max_tokens: Some(128),
        stop: Vec::new(),
        persona: Persona {
            user_name: "Rose".into(),
            assistant_name: "Aili".into(),
            description: String::new(),
        },
        tui: TuiConfig { alternate_screen: AltScreenMode::Never },
    }
}

fn test_app_fullscreen() -> App<f32> {
    App::new_fullscreen(test_cfg())
}

fn test_app_split() -> App<f32> {
    App::new(test_cfg())
}

fn flying() -> InFlight {
    InFlight { started: 0, chars: 0, context_tokens: 0, context_limit: 0, cancelled: false }
}

fn sampling() -> SamplingText {
    SamplingText { temperature: "Some(0.5)".into(), top_p: "None".into() }
}

fn submit(app: &mut App<f32>, text: &str) -> Vec<Effect> {
    let lines: Vec<String> = text.split('\n').map(|s| s.to_string()).collect();
    app.submit(&lines, 5, 80, &sampling())
}

fn token(t: &str) -> StreamEvent {
    StreamEvent::Token(t.to_string())
}

fn key(code: KeyCode) -> KeyEvent {
    KeyEvent::new(code, KeyModifiers { ctrl: false, alt: false, shift: false })
}

fn ctrl(c: char) -> KeyEvent {
    KeyEvent::new(KeyCode::Char(c), KeyModifiers { ctrl: true, alt: false, shift: false })
}

fn text_of(lines: &[Line]) -> Vec<String> {
    lines
        .iter()
        .map(|l| l.spans.iter().map(|s| s.content.as_str()).collect::<String>())
        .collect()
}

fn inserted(effect: &Effect) -> Vec<String> {
    match effect {
        Effect::Insert(lines) => text_of(lines),
        _ => panic!("no lines: {effect:?}"),
    }
}

fn history(app: &App<f32>) -> Vec<(Role, &str)> {
    app.history.iter().map(|m| (m.role, m.text.as_str())).collect()
}

fn status(app: &App<f32>) -> &str {
    app.status_msg.as_ref().unwrap().0.as_str()
}

#[test]
fn replayable_history_keeps_finalized_messages() {
    let mut app = test_app_split();
    app.history.push(UiMessage { role: Role::User, text: "hello".into() });
    app.history.push(UiMessage { role: Role::Assistant, text: "hi".into() });

    let replayable = app.replayable_history();

    assert_eq!(replayable.len(), 2);
    assert_eq!(replayable[1].text, "hi");
}

#[test]
fn replayable_history_skips_streaming_assistant_tail() {
    let mut app = test_app_split();
    app.history.push(UiMessage { role: Role::User, text: "hello".into() });
    app.history.push(UiMessage { role: Role::Assistant, text: "partial".into() });
    app.in_flight = Some(flying());

    let replayable = app.replayable_history();

    assert_eq!(replayable.len(), 1);
    assert_eq!(replayable[0].role, Role::User);
}

#[test]
fn question_is_sent_and_answered() {
    let mut app = test_app_split();
    app.history.push(UiMessage { role: Role::User, text: "old".into() });
    app.history.push(UiMessage { role: Role::Assistant, text: "answer".into() });
    let effects = submit(&mut app, "  hello\nthere  ");
    assert_eq!(effects.len(), 3);
    assert!(matches!(effects[0], Effect::FreshComposer));
    assert_eq!(inserted(&effects[1]), vec!["Rose", "hello", "there", ""]);
    match &effects[2] {
        Effect::Start(messages) => {
            let sent: Vec<(&str, &str)> =
                messages.iter().map(|m| (m.role.as_str(), m.content.as_str())).collect();
            assert_eq!(
                sent,
                vec![("user", "old"), ("assistant", "answer"), ("user", "hello\nthere")]
            );
        }
        other => panic!("{other:?}"),
    }
    let f = app.in_flight.unwrap();
    assert_eq!((f.started, f.chars, f.context_limit, f.cancelled), (5, 0, 1_000_000, false));
    assert_eq!(app.history.len(), 4);

    app.on_stream_event(token("你"), 6);
    app.on_stream_event(token("好"), 7);
    app.on_stream_event(StreamEvent::Usage { total_tokens: 77 }, 7);
    assert_eq!(app.in_flight.unwrap().chars, 2);
    assert_eq!(app.in_flight.unwrap().context_tokens, 77);
    assert_eq!((app.last_context_tokens, app.last_context_limit), (77, 1_000_000));
    let effects = app.flush_stream(&[], 80_000_005, 80, &sampling());
    assert!(effects.is_empty());
    assert_eq!(app.history[3].text, "");
    let effects = app.flush_stream(&[], 80_000_006, 80, &sampling());
    assert!(effects.is_empty());
    assert_eq!(app.history[3].text, "你好");
    let effects = app.on_app_event(Ok(StreamOutcome::Done), vec![token("！")], 80, 9);
    assert_eq!(effects.len(), 1);
    assert_eq!(inserted(&effects[0]), vec!["Aili", "你好！", ""]);
    assert!(app.in_flight.is_none());
    assert_eq!(app.history[3].text, "你好！");
    assert!(!app.stream.has_pending());
}

#[test]
fn only_one_reply_at_a_time() {
    let mut app = test_app_split();
    submit(&mut app, "one");
    app.on_stream_event(token("x"), 0);
    assert!(submit(&mut app, "two").is_empty());
    assert_eq!(history(&app), vec![(Role::User, "one"), (Role::Assistant, "")]);
    assert!(app.stream.has_pending());
}

#[test]
fn nothing_is_sent_without_text() {
    let mut app = test_app_split();
    assert!(submit(&mut app, " \n ").is_empty());
    assert!(app.history.is_empty() && app.in_flight.is_none());
}

#[test]
fn empty_reply_does_not_stay() {
    let mut app = test_app_split();
    submit(&mut app, "q");
    let effects = app.on_app_event(Ok(StreamOutcome::Cancelled), vec![], 80, 9);
    assert_eq!(effects.len(), 1);
    assert_eq!(inserted(&effects[0]), vec!["· (cancelled)", ""]);
    assert_eq!(history(&app), vec![(Role::User, "q")]);
}

#[test]
fn failed_stream_keeps_what_came() {
    let mut app = test_app_split();
    submit(&mut app, "q");
    let effects = app.on_app_event(Err("boom".into()), vec![token("part")], 80, 9);
    assert_eq!(inserted(&effects[0]), vec!["Aili", "part", ""]);
    assert_eq!(inserted(&effects[1]), vec!["· error: boom", ""]);
    assert_eq!(history(&app), vec![(Role::User, "q"), (Role::Assistant, "part")]);
    let mut app = test_app_fullscreen();
    submit(&mut app, "q");
    assert_eq!(app.route, Route::Session);
    assert!(app.on_app_event(Err("boom".into()), vec![token("part")], 80, 9).is_empty());
}

#[test]
fn tokens_without_a_reply_are_left() {
    let mut app = test_app_split();
    app.drain_in_flight_tokens(vec![token("x")], 0);
    assert!(!app.stream.has_pending());
}

#[test]
fn sent_messages_skip_empty_replies() {
    let history = vec![
        UiMessage { role: Role::User, text: "a".into() },
        UiMessage { role: Role::Assistant, text: String::new() },
        UiMessage { role: Role::User, text: "b".into() },
    ];
    let sent = outgoing_messages(&history);
    assert_eq!(sent.len(), 2);
    assert_eq!(sent[1].content, "b");
}

#[test]
fn quitting_takes_two() {
    let mut app = test_app_split();
    assert_eq!(app.on_key(&ctrl('c'), 1_000), KeyEffect::Nothing);
    assert!(!app.quit);
    assert_eq!(status(&app), "press Ctrl-C again to quit");
    app.on_key(&ctrl('c'), 1_000 + 1_500_000_000);
    assert!(!app.quit);
    app.on_key(&ctrl('c'), 1_000 + 2_999_999_999);
    assert!(app.quit);
}

#[test]
fn cancel_signals_once() {
    let mut app = test_app_split();
    submit(&mut app, "q");
    assert_eq!(app.on_key(&ctrl('c'), 1), KeyEffect::Cancel { signal: true });
    assert_eq!(app.on_key(&ctrl('c'), 2), KeyEffect::Cancel { signal: false });
    assert!(app.in_flight.is_some() && !app.quit);
}

#[test]
fn keys_go_where_they_belong() {
    let mut app = test_app_split();
    let plain = |key: Key| KeyEffect::Type(Input { key, ctrl: false, alt: false, shift: false });
    assert_eq!(app.on_key(&key(KeyCode::Char('x')), 0), plain(Key::Char('x')));
    assert_eq!(app.on_key(&key(KeyCode::Backspace), 0), plain(Key::Backspace));
    let newline =
        KeyEvent::new(KeyCode::Enter, KeyModifiers { ctrl: false, alt: false, shift: true });
    assert_eq!(app.on_key(&newline, 0), plain(Key::Enter));
    assert_eq!(app.on_key(&key(KeyCode::Enter), 0), KeyEffect::Nothing);
    assert!(app.submit_pending);
    app.on_key(&key(KeyCode::End), 0);
    assert_eq!((app.scroll_state.viewport_top, app.scroll_state.sticky_bottom), (180, true));
    app.on_key(&key(KeyCode::PageUp), 0);
    assert_eq!((app.scroll_state.viewport_top, app.scroll_state.sticky_bottom), (160, false));
    app.on_key(&key(KeyCode::PageDown), 0);
    assert_eq!((app.scroll_state.viewport_top, app.scroll_state.sticky_bottom), (180, true));
    app.on_key(&ctrl('k'), 0);
    assert_eq!(app.scroll_state.viewport_top, 177);
    app.on_key(&ctrl('j'), 0);
    app.on_key(&key(KeyCode::Home), 0);
    assert_eq!((app.scroll_state.viewport_top, app.scroll_state.sticky_bottom), (0, false));
    app.on_key(&ctrl('d'), 0);
    assert!(app.quit);
}

#[test]
fn inputs_follow_their_keys() {
    let codes = [
        (KeyCode::Delete, Key::Delete),
        (KeyCode::Tab, Key::Tab),
        (KeyCode::Left, Key::Left),
        (KeyCode::Right, Key::Right),
        (KeyCode::Up, Key::Up),
        (KeyCode::Down, Key::Down),
        (KeyCode::Home, Key::Home),
        (KeyCode::End, Key::End),
        (KeyCode::Esc, Key::Esc),
        (KeyCode::Other, Key::Null),
        (KeyCode::PageUp, Key::Null),
    ];
    for (code, key) in codes {
        let k = KeyEvent::new(code, KeyModifiers { ctrl: true, alt: true, shift: false });
        assert_eq!(ct_to_input(&k), Input { key, ctrl: true, alt: true, shift: false });
    }
}

#[test]
fn terminal_events_are_sorted_out() {
    let mut app = test_app_split();
    match app.on_terminal_event(TermEvent::Paste("a\n".into()), 0) {
        TermEffect::Type(keys) => {
            assert_eq!(keys.len(), 2);
            assert_eq!(keys[1].key, Key::Char('\n'));
        }
        other => panic!("{other:?}"),
    }
    app.on_terminal_event(TermEvent::WheelDown, 0);
    assert_eq!(app.scroll_state.viewport_top, 3);
    app.on_terminal_event(TermEvent::WheelUp, 0);
    assert_eq!(app.scroll_state.viewport_top, 0);
    assert!(matches!(app.on_terminal_event(TermEvent::Resize, 0), TermEffect::Rewrite));
    assert!(matches!(app.on_terminal_event(TermEvent::Other, 0), TermEffect::Nothing));
    assert!(matches!(
        app.on_terminal_event(TermEvent::Key(key(KeyCode::Char('y'))), 0),
        TermEffect::Key(KeyEffect::Type(_))
    ));
    let mut app = test_app_fullscreen();
    assert!(matches!(app.on_terminal_event(TermEvent::Resize, 0), TermEffect::Nothing));
}

#[test]
fn commands_do_what_they_say() {
    let mut app = test_app_split();
    submit(&mut app, "/model deepseek-v4-pro now");
    assert_eq!(app.cfg.model, "deepseek-v4-pro");
    assert_eq!(status(&app), "model -> deepseek-v4-pro");
    submit(&mut app, "/model");
    assert_eq!(status(&app), "model: deepseek-v4-pro");
    submit(&mut app, "/provider");
    assert_eq!(status(&app), "provider: DeepSeek  base_url: https://api.deepseek.com/v1");
    submit(&mut app, "/params");
    assert_eq!(status(&app), "temperature=Some(0.5)  top_p=None  max_tokens=Some(128)");
    app.cfg.max_tokens = None;
    submit(&mut app, "/params");
    assert_eq!(status(&app), "temperature=Some(0.5)  top_p=None  max_tokens=None");
    submit(&mut app, "/help");
    assert_eq!(status(&app), "/model [name] /provider /params /clear /exit");
    submit(&mut app, "/nope x");
    assert_eq!(status(&app), "unknown command: /nope (try /help)");
    let effects = submit(&mut app, "/ ");
    assert_eq!(effects.len(), 1);
    assert!(matches!(effects[0], Effect::FreshComposer));
    assert!(app.history.is_empty() && !app.quit);
    submit(&mut app, "/quit");
    assert!(app.quit);
    let mut app = test_app_split();
    submit(&mut app, "/exit");
    assert!(app.quit);
}

#[test]
fn clearing_starts_over() {
    let mut app = test_app_split();
    app.history.push(UiMessage { role: Role::User, text: "x".into() });
    let effects = submit(&mut app, "/clear");
    assert!(matches!(effects[1], Effect::ClearScreen { home: false }));
    assert_eq!(inserted(&effects[2]).len(), 6);
    assert!(app.history.is_empty() && app.welcome_done);
    assert_eq!(status(&app), "(history cleared)");
    let mut app = test_app_fullscreen();
    submit(&mut app, "x");
    app.on_app_event(Ok(StreamOutcome::Done), vec![], 80, 9);
    app.scroll_state.scroll_to_top();
    let effects = submit(&mut app, "/clear");
    assert_eq!(effects.len(), 1);
    assert_eq!(app.route, Route::Home);
    assert!(app.history.is_empty() && app.scroll_state.sticky_bottom);
}

#[test]
fn dialogs_take_the_keys() {
    let mut app = test_app_fullscreen();
    submit(&mut app, "/model");
    assert!(app.dialog_stack.is_open());
    assert_eq!(app.on_key(&key(KeyCode::Char('x')), 0), KeyEffect::Nothing);
    app.on_key(&key(KeyCode::Down), 0);
    app.on_key(&key(KeyCode::Char('j')), 0);
    app.on_key(&key(KeyCode::Down), 0);
    app.on_key(&key(KeyCode::Enter), 9);
    assert_eq!(app.cfg.model, "deepseek-v4-pro");
    assert!(!app.dialog_stack.is_open());
    assert_eq!(app.status_msg, Some(("model -> deepseek-v4-pro".to_string(), 9)));
    submit(&mut app, "/help");
    assert!(app.dialog_stack.help.is_some());
    app.on_key(&key(KeyCode::Esc), 0);
    assert!(!app.dialog_stack.is_open());
    submit(&mut app, "/help");
    app.on_key(&key(KeyCode::Up), 0);
    assert!(!app.dialog_stack.is_open());
}

#[test]
fn time_makes_things_void() {
    let mut app = test_app_split();
    app.on_key(&ctrl('c'), 1_000);
    app.expire_timed(1_000 + 1_499_999_999);
    assert!(app.ctrl_c_arm.is_some());
    app.expire_timed(1_000 + 1_500_000_000);
    assert!(app.ctrl_c_arm.is_none());
    app.expire_timed(1_000 + 3_000_000_000);
    assert!(app.status_msg.is_some());
    app.expire_timed(1_000 + 3_000_000_001);
    assert!(app.status_msg.is_none());
}

#[test]
fn turn_of_the_loop_takes_up_what_waits() {
    let mut app = test_app_split();
    app.submit_pending = true;
    let effects = app.flush_stream(&["hi".to_string()], 3, 80, &sampling());
    assert_eq!(effects.len(), 3);
    assert!(!app.submit_pending);
    for _ in 0..15 {
        app.on_stream_event(token("a"), 3);
    }
    app.flush_stream(&[], 3, 80, &sampling());
    assert_eq!(app.history[1].text, "");
    app.on_stream_event(token("b"), 3);
    app.flush_stream(&[], 3, 80, &sampling());
    assert_eq!(app.history[1].text, "aaaaaaaaaaaaaaab");
}

#[test]
fn scrollback_is_written_anew() {
    let mut app = test_app_split();
    submit(&mut app, "q");
    app.on_app_event(Ok(StreamOutcome::Done), vec![token("a")], 80, 9);
    submit(&mut app, "r");
    let effects = app.rewrite_scrollback(vec![token("part")], 80, 9);
    assert!(matches!(effects[0], Effect::ClearScreen { home: true }));
    assert_eq!(inserted(&effects[1]).len(), 6);
    assert_eq!(inserted(&effects[2]), vec!["Rose", "q", ""]);
    assert_eq!(inserted(&effects[3]), vec!["Aili", "a", ""]);
    assert_eq!(inserted(&effects[4]), vec!["Rose", "r", ""]);
    assert_eq!(effects.len(), 5);
    assert_eq!(app.history[3].text, "part");
    let mut app = test_app_fullscreen();
    assert!(app.rewrite_scrollback(vec![], 80, 9).is_empty());
}

#[test]
fn welcome_is_written_once() {
    let mut app = test_app_split();
    match app.write_welcome() {
        Some(effect) => assert_eq!(inserted(&effect).len(), 6),
        None => panic!("no welcome"),
    }
    assert!(app.write_welcome().is_none());
}

#[test]
fn widths_and_heights_have_limits() {
    assert_eq!(term_width(Some(120)), 120);
    assert_eq!(term_width(Some(0)), 1);
    assert_eq!(term_width(None), 80);
    assert_eq!(insert_height(&[]), None);
    assert_eq!(insert_height(&[Line::blank(), Line::blank()]), Some(2));
}
