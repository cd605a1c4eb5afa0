use aili::config::{AltScreenMode, Persona, ResolvedConfig, TuiConfig};
use aili::style::{Alignment, Color, Line, Span, Style};
use aili::tui::app::{App, InFlight, Role, UiMessage};
use aili::tui::area::Rect;
use aili::tui::fit::{
    center_line_to_width, fit_line_to_width, fit_text_to_width, line_width, widest_line,
    with_border, with_border_fit,
};
use aili::tui::paint::paint_lines;
use aili::tui::render::{
    assistant_message_lines, build_message_lines, context_usage, divider, format_time, info_bar,
    info_or_status, input_prompt, live_view, message_history, note_lines, pretty_cwd, progress_bar,
    spinner_line, trim_to_visible, usage_percent, user_message_lines, Surroundings,
};
use aili::tui::welcome::{
    centered_logo_start, welcome_card_content, welcome_card_lines, welcome_page_lines,
};

fn test_app() -> App<f32> {
    App::new(ResolvedConfig {
        base_url: "https://example.test/v1".into(),
        api_key: "test-key".into(),
        model: "deepseek-v4-flash".into(),
        temperature: None,
        top_p: None,
        max_tokens: None,
        stop: Vec::new(),
        persona: Persona {
            user_name: "Rose".into(),
            assistant_name: "Aili".into(),
            description: String::new(),
        },
        tui: TuiConfig { alternate_screen: AltScreenMode::Never },
    })
}

fn env() -> Surroundings {
    Surroundings {
        now: 0,
        cwd: "~/work".into(),
        context_kilo: "12.3".into(),
        elapsed: "4.5".into(),
        reply_kilo: "0.7".into(),
    }
}

fn flying(started: u64) -> InFlight {
    InFlight { started, chars: 0, context_tokens: 0, context_limit: 1_000_000, cancelled: false }
}

fn say(app: &mut App<f32>, role: Role, text: &str) {
    app.history.push(UiMessage { role, text: text.into() });
}

fn raw(text: &str) -> Line {
    Line::raw(text.to_string())
}

fn line_text(line: &Line) -> String {
    line.spans.iter().map(|span| span.content.as_str()).collect::<String>()
}

fn texts(lines: &[Line]) -> Vec<String> {
    lines.iter().map(line_text).collect()
}

#[test]
fn user_header_uses_configured_name() {
    let lines = user_message_lines("Rose", "hi", 80);
    assert_eq!(lines[0].spans[0].content, "Rose");
}

#[test]
fn messages_have_a_header_and_a_blank_line() {
    let lines = user_message_lines("Rose", "abcd\n\nef", 3);
    assert_eq!(texts(&lines), vec!["Rose", "abc", "d", "", "ef", ""]);
    assert_eq!(lines[0].spans[0].style, Style::bold(Color::Green));
    assert!(lines[3].spans.is_empty());
    let lines = assistant_message_lines("Aili", "x", 80);
    assert_eq!(lines[0].spans[0].style, Style::bold(Color::Cyan));
    let lines = note_lines("(cancelled)");
    assert_eq!(texts(&lines), vec!["· (cancelled)", ""]);
}

#[test]
fn welcome_card_has_border() {
    let lines = with_border(&[raw("Aili")]);
    assert_eq!(lines[0].spans[0].content, "╭──────╮");
    assert_eq!(lines[2].spans[0].content, "╰──────╯");
}

#[test]
fn info_bar_constructed_without_panic() {
    let app = test_app();
    let p = info_bar(&app, &env());
    assert_eq!(line_text(&p.lines[0]), "DeepSeek V4 Flash  ·  ~/work");
    assert_eq!(p.alignment, Alignment::Center);
}

#[test]
fn with_border_wraps_combined_text_and_logo_block() {
    let mut combined: Vec<Line> = Vec::new();
    for _ in 0..6 {
        combined.push(Line::of(vec![
            Span::raw("hello world         ".to_string()),
            Span::raw("   ".to_string()),
            Span::raw("▀▀▄▀█▀▄▀".to_string()),
        ]));
    }
    let bordered = with_border(&combined);
    assert!(bordered[0].spans[0].content.starts_with("╭"));
    assert!(bordered[bordered.len() - 1].spans[0].content.starts_with("╰"));
    for line in &bordered[1..bordered.len() - 1] {
        assert_eq!(line.spans[0].content, "│ ");
        assert_eq!(line.spans.last().unwrap().content, " │");
    }
}

#[test]
fn paint_lines_does_not_emit_space_after_wide_chars() {
    let cells = paint_lines(Rect { x: 0, y: 0, width: 12, height: 1 }, &[raw("你好")]);
    let symbol = |x: u16| cells.iter().find(|c| c.x == x && c.y == 0).unwrap().symbol.clone();
    assert_eq!(symbol(0), "你");
    assert_eq!(symbol(1), "");
    assert_eq!(symbol(2), "好");
    assert_eq!(symbol(3), "");
}

#[test]
fn painting_keeps_to_the_area() {
    let area = Rect { x: 2, y: 3, width: 3, height: 2 };
    let cells = paint_lines(area, &[raw("a你b"), raw("x\ty\u{301}z"), raw("gone")]);
    let got: Vec<(u16, u16, &str)> =
        cells.iter().map(|c| (c.x, c.y, c.symbol.as_str())).collect();
    assert_eq!(
        got,
        vec![(2, 3, "a"), (3, 3, "你"), (4, 3, ""), (2, 4, "x"), (3, 4, "y"), (4, 4, "z")]
    );
    let narrow = Rect { x: 0, y: 0, width: 2, height: 1 };
    let cells = paint_lines(narrow, &[raw("a你b")]);
    assert_eq!(cells.len(), 1);
    assert!(paint_lines(Rect { x: 0, y: 0, width: 0, height: 9 }, &[raw("a")]).is_empty());
}

#[test]
fn painting_agrees_with_a_buffer() {
    let area = ratatui::layout::Rect::new(0, 0, 9, 1);
    let mut expected = ratatui::buffer::Buffer::empty(area);
    expected.set_string(0, 0, "a你 b好", ratatui::style::Style::default());
    let cells = paint_lines(Rect { x: 0, y: 0, width: 9, height: 1 }, &[raw("a你 b好")]);
    for c in &cells {
        if !c.symbol.is_empty() {
            assert_eq!(expected[(c.x, c.y)].symbol(), c.symbol);
        }
    }
    assert_eq!(cells.len(), 7);
}

#[test]
fn width_of_a_line_is_that_of_its_spans() {
    assert_eq!(line_width(&raw("")), 0);
    assert_eq!(line_width(&raw("abc")), 3);
    let line = Line::of(vec![Span::raw("你a".into()), Span::raw("👨‍👩‍👧".into())]);
    assert_eq!(line_width(&line), 5);
    assert_eq!(widest_line(&[raw("a"), line, raw("abc")]), 5);
}

#[test]
fn cutting_keeps_whole_characters() {
    assert_eq!(fit_text_to_width("a你b", 2), "a");
    assert_eq!(fit_text_to_width("a你b", 3), "a你");
    assert_eq!(fit_text_to_width("a\u{7}\u{301}\tb", 9), "ab");
    assert_eq!(fit_text_to_width("abc", 0), "");
    let once = fit_text_to_width("你a好", 4);
    assert_eq!(fit_text_to_width(&once, 4), once);
    let line = Line::of(vec![
        Span::styled("ab".into(), Style::fg(Color::White)),
        Span::raw("\u{301}".into()),
        Span::raw("cde".into()),
        Span::raw("f".into()),
    ]);
    let cut = fit_line_to_width(&line, 4);
    assert_eq!(cut.spans.len(), 2);
    assert_eq!(cut.spans[0].style, Style::fg(Color::White));
    assert_eq!(line_text(&cut), "abcd");
    assert!(fit_line_to_width(&line, 0).spans.is_empty());
}

#[test]
fn centering_puts_the_odd_column_right() {
    assert_eq!(line_text(&center_line_to_width(&raw("abc"), 6)), " abc  ");
    assert_eq!(line_text(&center_line_to_width(&raw("abc"), 3)), "abc");
    assert_eq!(line_text(&center_line_to_width(&raw(""), 2)), "  ");
}

#[test]
fn frame_fits_its_width() {
    let lines = with_border_fit(&[raw("abcdef"), raw("x")], 8);
    assert_eq!(texts(&lines), vec!["╭──────╮", "│ abcd │", "│ x    │", "╰──────╯"]);
    let lines = with_border_fit(&[raw("ab")], 40);
    assert_eq!(texts(&lines), vec!["╭────╮", "│ ab │", "╰────╯"]);
    let lines = with_border_fit(&[raw("abcdef")], 3);
    assert_eq!(texts(&lines), vec!["abc"]);
    for width in 4..30 {
        for line in with_border_fit(&[raw("hello world, hello"), raw("你好吗")], width) {
            assert!(line_width(&line) <= width);
        }
    }
}

#[test]
fn visible_lines_are_the_last() {
    let lines = || vec![raw("a"), raw("b"), raw("c")];
    assert_eq!(texts(&trim_to_visible(lines(), 2)), vec!["b", "c"]);
    assert_eq!(texts(&trim_to_visible(lines(), 3)), vec!["a", "b", "c"]);
    assert!(trim_to_visible(lines(), 0).is_empty());
}

#[test]
fn history_is_spaced_between_speakers() {
    let mut app = test_app();
    say(&mut app, Role::User, "one");
    say(&mut app, Role::Assistant, "");
    say(&mut app, Role::User, "two");
    say(&mut app, Role::Assistant, "reply");
    let lines = build_message_lines(&app, 80);
    assert_eq!(texts(&lines), vec!["Rose >", "one", "Rose >", "two", "", "Aili >", "reply"]);
    assert_eq!(texts(&message_history(&app, 80, 2).lines), vec!["Aili >", "reply"]);
    assert_eq!(message_history(&app, 80, 0).lines.len(), 7);
}

#[test]
fn live_view_shows_a_reply_on_its_way() {
    let mut app = test_app();
    say(&mut app, Role::User, "q");
    say(&mut app, Role::Assistant, "abcdef");
    assert!(live_view(&app, 3, 9).lines.is_empty());
    app.in_flight = Some(flying(0));
    assert_eq!(texts(&live_view(&app, 3, 9).lines), vec!["Aili", "abc", "def", ""]);
    assert_eq!(texts(&live_view(&app, 3, 2).lines), vec!["def", ""]);
}

#[test]
fn bar_rounds_as_floats_do() {
    for pct in 0..=99usize {
        let filled = ((pct as f64 / 100.0) * 10.0).round() as usize;
        let bar: String = (0..10).map(|i| if i < filled { '█' } else { '░' }).collect();
        assert_eq!(progress_bar(pct), bar, "{pct}");
    }
}

#[test]
fn info_bar_tells_how_full_the_context_is() {
    let mut app = test_app();
    app.cfg.model = "deepseek-v4-pro".into();
    app.last_context_tokens = 999;
    app.last_context_limit = 1_000_000;
    assert_eq!(
        line_text(&info_bar(&app, &env()).lines[0]),
        "DeepSeek V4 Pro  ·  ~/work  ·  ░░░░░░░░░░  999 / 1M tokens"
    );
    app.in_flight = Some(InFlight { context_tokens: 250_000, ..flying(0) });
    assert_eq!(context_usage(&app), (250_000, 1_000_000));
    assert_eq!(
        line_text(&info_bar(&app, &env()).lines[0]),
        "DeepSeek V4 Pro  ·  ~/work  ·  ███░░░░░░░  12.3K / 1M tokens  ·  4.5s"
    );
    assert_eq!(usage_percent(250_000, 1_000_000), 25);
    assert_eq!(usage_percent(usize::MAX, 1), 99);
}

#[test]
fn status_goes_before_the_info_bar() {
    let mut app = test_app();
    assert_eq!(info_or_status(&app, &env()), info_bar(&app, &env()));
    app.flash("hello".into(), 7);
    let p = info_or_status(&app, &env());
    assert_eq!(line_text(&p.lines[0]), "hello");
    assert_eq!(p.lines[0].spans[0].style, Style::fg(Color::Yellow));
    assert_eq!(p.alignment, Alignment::Left);
}

#[test]
fn spinner_turns_and_counts() {
    let mut app = test_app();
    assert_eq!(line_text(&spinner_line(&app, &env()).lines[0]), "");
    app.in_flight = Some(flying(1_000));
    let at = |millis: u64| {
        let surroundings = Surroundings { now: 1_000 + millis * 1_000_000, ..env() };
        line_text(&spinner_line(&app, &surroundings).lines[0])
    };
    assert_eq!(at(0), "✶ Calculating… (0s · ↓ 0.7k tokens)");
    assert_eq!(at(80), "✸ Calculating… (0s · ↓ 0.7k tokens)");
    assert_eq!(at(399), "✹ Calculating… (0s · ↓ 0.7k tokens)");
    assert_eq!(at(400), "✸ Calculating… (0s · ↓ 0.7k tokens)");
    assert_eq!(at(240), "✺ Calculating… (0s · ↓ 0.7k tokens)");
    assert!(at(65_000).ends_with(" Calculating… (1m 05s · ↓ 0.7k tokens)"));
    for secs in [0u64, 9, 59, 60, 61, 600, 3599, 3600] {
        let expected = if secs / 60 > 0 {
            format!("{}m {:02}s", secs / 60, secs % 60)
        } else {
            format!("{}s", secs)
        };
        assert_eq!(format_time(secs), expected);
    }
}

#[test]
fn home_directory_is_shortened() {
    let show = |cwd: Option<&str>, home: Option<&str>| {
        pretty_cwd(cwd.map(|s| s.to_string()), home.map(|s| s.to_string()))
    };
    assert_eq!(show(Some("/home/r"), Some("/home/r")), "~");
    assert_eq!(show(Some("/home/r/x/y"), Some("/home/r")), "~/x/y");
    assert_eq!(show(Some("/home/rx"), Some("/home/r")), "/home/rx");
    assert_eq!(show(Some("/tmp"), None), "/tmp");
    assert_eq!(show(None, Some("/home/r")), "?");
}

#[test]
fn divider_and_prompt_are_fixed() {
    assert_eq!(line_text(&divider().lines[0]), "─".repeat(2048));
    assert_eq!(line_text(&input_prompt().lines[0]), ">");
}

#[test]
fn card_greets_the_user() {
    let app = test_app();
    let lines = welcome_card_content(&app, "0.3.0", "~/w", 72);
    assert_eq!(
        texts(&lines),
        vec!["Aili v0.3.0", "", "Welcome back, Rose!", "", "deepseek-v4-flash", "~/w", ""]
    );
    let lines = welcome_card_lines(&app, "0.3.0", "~/w", 80);
    assert_eq!(line_text(&lines[0]), "╭─────────────────────╮");
    assert_eq!(line_text(&lines[3]), "│ Welcome back, Rose! │");
    assert_eq!(lines.len(), 9);
    for width in 0..40 {
        let lines = welcome_card_lines(&app, "0.3.0", "~/w", width);
        assert!(lines.iter().all(|l| line_width(l) <= width.max(1)));
    }
}

#[test]
fn page_puts_the_logo_beside_the_text() {
    let app = test_app();
    let lines = welcome_page_lines(&app, "0.3.0", "~/w", 40);
    let rows = texts(&lines);
    assert_eq!(rows[0], format!("╭{}╮", "─".repeat(38)));
    assert_eq!(rows.len(), 9);
    assert_eq!(rows.iter().filter(|r| r.starts_with("│ Aili ")).count(), 1);
    assert!(rows[3].starts_with("│ Aili   "));
    assert!(rows.iter().all(|r| r.chars().count() == 40));
    assert_eq!(
        texts(&welcome_page_lines(&app, "0.3.0", "~/w", 28)),
        texts(&welcome_card_lines(&app, "0.3.0", "~/w", 28))
    );
}

#[test]
fn logo_stands_in_the_middle_of_the_visible_text() {
    let lines = [raw(""), raw("a"), raw(""), raw("b"), raw("")];
    assert_eq!(centered_logo_start(&lines, 1, 5), 2);
    assert_eq!(centered_logo_start(&lines, 4, 5), 0);
    assert_eq!(centered_logo_start(&lines, 0, 5), 0);
    assert_eq!(centered_logo_start(&[raw(""), raw("")], 1, 2), 1);
    assert_eq!(centered_logo_start(&lines, 9, 5), 0);
}
