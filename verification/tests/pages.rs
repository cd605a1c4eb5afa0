use aili::config::{Persona, ResolvedConfig, TuiConfig};
use aili::style::{Color, Line, Style};
use aili::tui::app::{App, InFlight, Role, Route, UiMessage};
use aili::tui::area::{centered_rect, Rect};
use aili::tui::dialog::{DialogStack, HelpDialog, ModelDialog};
use aili::tui::draw::Draw;
use aili::tui::keymap::Action;
use aili::tui::pages::{
    composer_height, draw_dialog, draw_fullscreen_home, draw_fullscreen_session, draw_inline,
    draw_page,
};
use aili::tui::render::Surroundings;
use aili::tui::scrollbox::{
    render_scrollbar, thumb_height, ScrollBox, ScrollBoxState, Thumb,
};

fn cfg() -> ResolvedConfig<f32> {
    ResolvedConfig {
        base_url: String::new(),
        api_key: String::new(),
        model: "my-model".into(),
        temperature: None,
        top_p: None,
        max_tokens: None,
        stop: Vec::new(),
        persona: Persona::default(),
        tui: TuiConfig::default(),
    }
}

fn env() -> Surroundings {
    Surroundings {
        now: 0,
        cwd: "~".into(),
        context_kilo: String::new(),
        elapsed: String::new(),
        reply_kilo: "0.0".into(),
    }
}

fn rect(x: u16, y: u16, width: u16, height: u16) -> Rect {
    Rect { x, y, width, height }
}

fn area_of(draw: &Draw) -> Rect {
    match draw {
        Draw::Blank(area) | Draw::Erase(area) | Draw::Composer(area) => *area,
        Draw::Text { area, .. } => *area,
        Draw::Framed { area, .. } => *area,
        Draw::Choices { area, .. } => *area,
        Draw::Cells(_) => rect(0, 0, 0, 0),
    }
}

fn areas(draws: &[Draw]) -> Vec<Rect> {
    draws.iter().map(area_of).collect()
}

fn flying() -> InFlight {
    InFlight { started: 0, chars: 0, context_tokens: 0, context_limit: 0, cancelled: false }
}

#[test]
fn centered_in_an_area() {
    assert_eq!(centered_rect(rect(2, 3, 10, 5), 4, 2), rect(5, 4, 4, 2));
    assert_eq!(centered_rect(rect(0, 0, 10, 5), 3, 9), rect(3, 0, 3, 5));
    assert_eq!(centered_rect(rect(7, 7, 0, 0), 3, 9), rect(7, 7, 0, 0));
}

#[test]
fn composer_takes_one_to_three_rows() {
    let heights: Vec<u16> = [0, 1, 2, 3, 4, 400].iter().map(|n| composer_height(*n)).collect();
    assert_eq!(heights, vec![1, 1, 2, 3, 3, 3]);
}

#[test]
fn inline_page_fills_its_area() {
    let mut app = App::new(cfg());
    for height in 3..40u16 {
        let draws = draw_inline(&app, &env(), rect(1, 2, 50, height), 1);
        assert_eq!(
            areas(&draws),
            vec![
                rect(1, 2, 50, height),
                rect(1, 2, 50, height - 3),
                rect(1, height - 1, 50, 1),
                rect(1, height, 2, 1),
                rect(3, height, 48, 1),
                rect(1, height + 1, 50, 1),
            ]
        );
    }
    app.in_flight = Some(flying());
    let draws = draw_inline(&app, &env(), rect(0, 0, 20, 10), 2);
    assert_eq!(
        areas(&draws),
        vec![
            rect(0, 0, 20, 10),
            rect(0, 0, 20, 5),
            rect(0, 5, 20, 1),
            rect(0, 6, 20, 1),
            rect(0, 7, 2, 2),
            rect(2, 7, 18, 2),
            rect(0, 9, 20, 1),
        ]
    );
}

#[test]
fn home_page_stands_in_the_upper_third() {
    let mut app = App::new_fullscreen(cfg());
    for height in 9..60u16 {
        let top = (height - 9) / 3;
        let draws = draw_fullscreen_home(&app, &env(), rect(0, 0, 100, height), 1);
        assert_eq!(
            areas(&draws),
            vec![
                rect(0, 0, 100, height),
                rect(37, top, 26, 5),
                rect(12, top + 6, 2, 1),
                rect(14, top + 6, 73, 1),
                rect(12, top + 7, 75, 1),
            ]
        );
    }
    app.flash("note".into(), 0);
    let draws = draw_fullscreen_home(&app, &env(), rect(0, 0, 100, 30), 1);
    assert_eq!(area_of(&draws[5]), rect(10, 0, 80, 1));
}

#[test]
fn session_page_shows_the_last_messages() {
    let mut app = App::new_fullscreen(cfg());
    for i in 0..20 {
        app.history.push(UiMessage { role: Role::User, text: format!("m{i}") });
    }
    let mut state = ScrollBoxState::new();
    let draws = draw_fullscreen_session(&app, &env(), rect(0, 0, 30, 9), 1, &mut state);
    assert_eq!(state.viewport_top, 34);
    match &draws[1] {
        Draw::Cells(cells) => {
            assert_eq!((cells[0].x, cells[0].y), (2, 0));
            let last: Vec<&str> =
                cells.iter().filter(|c| c.y == 5).map(|c| c.symbol.as_str()).collect();
            assert_eq!(last.concat(), "m19");
        }
        other => panic!("{other:?}"),
    }
    assert_eq!(area_of(draws.last().unwrap()), rect(0, 8, 30, 1));
}

fn inside(inner: Rect, outer: Rect) -> bool {
    let end = |at: u16, length: u16| at as u32 + length as u32;
    inner.x >= outer.x
        && inner.y >= outer.y
        && end(inner.x, inner.width) <= end(outer.x, outer.width)
        && end(inner.y, inner.height) <= end(outer.y, outer.height)
}

fn drawn_inside(draw: &Draw, outer: Rect) -> bool {
    match draw {
        Draw::Cells(cells) => cells.iter().all(|c| inside(rect(c.x, c.y, 1, 1), outer)),
        other => inside(area_of(other), outer),
    }
}

#[test]
fn pages_stay_on_small_screens() {
    let mut split = App::new(cfg());
    let mut home = App::new_fullscreen(cfg());
    home.flash("note".into(), 0);
    let mut session = App::new_fullscreen(cfg());
    session.route = Route::Session;
    session.history.push(UiMessage { role: Role::User, text: "one 你好 two".into() });
    for app in [&mut split, &mut home, &mut session] {
        app.in_flight = Some(flying());
        for (x, y) in [(0, 0), (3, 7), (65_000, 65_000)] {
            for width in [0, 1, 2, 3, 5, 30] {
                for height in 1..14 {
                    let area = rect(x, y, width, height);
                    let mut scroll = ScrollBoxState::new();
                    let draws = draw_page(app, &env(), area, 3, &mut scroll);
                    assert!(!draws.is_empty());
                    for draw in &draws {
                        assert!(drawn_inside(draw, area), "{draw:?} {area:?}");
                    }
                }
            }
        }
    }
}

#[test]
fn rows_stay_in_an_area_at_the_last_coordinate() {
    let app = App::new(cfg());
    for area in [rect(0, 65_533, 9, 9), rect(65_534, 0, 9, 9), rect(65_535, 65_535, 4, 4)] {
        for draw in draw_inline(&app, &env(), area, 3) {
            assert!(drawn_inside(&draw, area), "{draw:?} {area:?}");
        }
    }
}

#[test]
fn dialogs_stay_inside_their_margins() {
    for (width, height) in [(5, 3), (6, 4), (80, 3), (80, 4), (5, 24), (10, 6)] {
        let area = rect(0, 0, width, height);
        let draws = ModelDialog::new(&cfg()).render(area);
        let frame = centered_rect(area, 44, 7);
        assert!(draws[1..].iter().all(|d| drawn_inside(d, frame)), "{draws:?}");
        let draws = HelpDialog.render(area);
        let frame = centered_rect(area, 52, 16);
        assert!(draws[1..].iter().all(|d| drawn_inside(d, frame)), "{draws:?}");
    }
}

#[test]
fn page_goes_by_mode_and_route() {
    let area = rect(0, 0, 60, 20);
    let away = ScrollBoxState { viewport_top: 9, sticky_bottom: false };
    let mut scroll = away;
    let mut app = App::new(cfg());
    app.dialog_stack.open_help();
    let draws = draw_page(&app, &env(), area, 1, &mut scroll);
    assert_eq!(areas(&draws), areas(&draw_inline(&app, &env(), area, 1)));
    assert_eq!(scroll, away);
    assert!(draw_dialog(&app, area).is_empty());

    let mut app = App::new_fullscreen(cfg());
    let draws = draw_page(&app, &env(), area, 1, &mut scroll);
    assert_eq!(areas(&draws), areas(&draw_fullscreen_home(&app, &env(), area, 1)));
    assert_eq!(scroll, away);
    assert!(draw_dialog(&app, area).is_empty());
    app.dialog_stack.open_help();
    assert_eq!(areas(&draw_dialog(&app, area)), areas(&HelpDialog.render(area)));

    app.route = Route::Session;
    let mut other = away;
    let draws = draw_page(&app, &env(), area, 1, &mut scroll);
    let expected = draw_fullscreen_session(&app, &env(), area, 1, &mut other);
    assert_eq!(areas(&draws), areas(&expected));
    assert_eq!(scroll, other);
    assert_eq!(scroll.viewport_top, 0);
}

#[test]
fn model_dialog_moves_within_its_list() {
    let mut d = ModelDialog::new(&cfg());
    assert_eq!(d.models, vec!["my-model", "deepseek-v4-flash", "deepseek-v4-pro"]);
    assert_eq!(d.current_model(), "my-model");
    assert_eq!(d.handle_key(Action::DialogUp), None);
    assert_eq!(d.selected, 0);
    for _ in 0..5 {
        assert_eq!(d.handle_key(Action::DialogDown), None);
    }
    assert_eq!((d.selected, d.list_selected), (2, Some(2)));
    assert_eq!(d.handle_key(Action::DialogUp), None);
    assert_eq!(d.handle_key(Action::DialogConfirm).as_deref(), Some("deepseek-v4-flash"));
    assert_eq!(d.current_model(), "deepseek-v4-flash");
    assert_eq!(d.handle_key(Action::Submit), None);
}

#[test]
fn model_dialog_is_drawn_over_the_page() {
    let d = ModelDialog::new(&cfg());
    let draws = d.render(rect(0, 0, 80, 24));
    assert_eq!(
        areas(&draws),
        vec![rect(0, 0, 80, 24), rect(20, 9, 40, 1), rect(20, 10, 40, 4)]
    );
    match &draws[2] {
        Draw::Choices { items, marked, offset, .. } => {
            assert_eq!(items[0].spans[0].content, "  my-model  ");
            assert_eq!(items[0].spans[0].style, Style::bold(Color::LightCyan));
            assert_eq!(items[1].spans[0].style, Style::fg(Color::White));
            assert_eq!((*marked, *offset), (Some(0), 0));
        }
        other => panic!("{other:?}"),
    }
}

#[test]
fn help_lists_the_keys() {
    let lines = HelpDialog.lines();
    assert_eq!(lines.len(), 15);
    assert_eq!(lines[1].spans[0].content, format!("  {:14}", "Enter"));
    assert_eq!(lines[8].spans[0].content, format!("  {:14}", "/model [name]"));
    assert_eq!(lines[3].spans[1].content, "Cancel / Quit (×2)");
    let draws = HelpDialog.render(rect(0, 0, 80, 24));
    assert_eq!(
        areas(&draws),
        vec![rect(0, 0, 80, 24), rect(15, 5, 50, 1), rect(15, 6, 50, 13)]
    );
}

#[test]
fn one_dialog_is_open_at_most() {
    let mut stack = DialogStack::default();
    assert!(!stack.is_open());
    assert!(stack.render(rect(0, 0, 80, 24)).is_empty());
    stack.open_help();
    assert!(stack.is_open() && stack.model.is_none());
    stack.open_model(&cfg());
    assert!(stack.help.is_none());
    assert_eq!(stack.handle_key(Action::DialogConfirm).as_deref(), Some("my-model"));
    let taken = stack.take();
    assert!(taken.is_open() && !stack.is_open());
    stack = taken;
    stack.close();
    assert!(!stack.is_open());
    stack.open_help();
    assert_eq!(stack.handle_key(Action::DialogDown), None);
    assert!(!stack.is_open());
}

fn lines(n: usize) -> Vec<Line> {
    (0..n).map(|i| Line::raw(format!("{i}"))).collect()
}

#[test]
fn scrollbox_follows_the_bottom_until_let_go() {
    let area = rect(0, 0, 5, 3);
    let none = Thumb { position: 0, height: 0 };
    let mut state = ScrollBoxState::new();
    let shown = |n: usize, state: &mut ScrollBoxState| {
        let cells = ScrollBox::new(lines(n)).render(area, state, none);
        cells.iter().map(|c| c.symbol.clone()).collect::<Vec<_>>()
    };
    assert_eq!(shown(2, &mut state), vec!["0", "1"]);
    assert_eq!(shown(7, &mut state), vec!["4", "5", "6"]);
    assert_eq!(shown(8, &mut state), vec!["5", "6", "7"]);
    state.scroll_up(2);
    assert_eq!(shown(9, &mut state), vec!["3", "4", "5"]);
    state.scroll_down(2, 9, 3);
    assert!(!state.sticky_bottom);
    assert_eq!(shown(4, &mut state), vec!["1", "2", "3"]);
    assert_eq!(state.viewport_top, 1);
    assert!(ScrollBox::new(lines(0)).is_empty());
    assert!(!ScrollBox::new(lines(1)).scrollbar(true).is_empty());
}

#[test]
fn scrollbar_has_arrows_a_track_and_a_thumb() {
    let area = rect(0, 0, 4, 6);
    let cells = render_scrollbar(area, Thumb { position: 1, height: 2 });
    let mut column: Vec<(u16, &str)> = cells.iter().map(|c| (c.y, c.symbol.as_str())).collect();
    column.sort();
    assert_eq!(column, vec![(0, "▲"), (1, "│"), (2, "█"), (3, "█"), (4, "│"), (5, "▼")]);
    assert!(cells.iter().all(|c| c.x == 3));
    assert!(render_scrollbar(rect(0, 0, 4, 2), Thumb { position: 0, height: 1 }).is_empty());
    assert!(render_scrollbar(rect(5, 0, 0, 9), Thumb { position: 0, height: 1 }).is_empty());
    assert_eq!(thumb_height(0, area), 1);
    assert_eq!(thumb_height(3, area), 3);
    assert_eq!(thumb_height(9, area), 4);
    let mut state = ScrollBoxState::new();
    let thumb = Thumb { position: 0, height: 1 };
    let with_bar = ScrollBox::new(lines(9)).scrollbar(true).render(area, &mut state, thumb);
    assert_eq!(with_bar.len(), 12);
    let all_in_view = ScrollBox::new(lines(6)).scrollbar(true).render(area, &mut state, thumb);
    assert_eq!(all_in_view.len(), 6);
}
