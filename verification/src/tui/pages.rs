//! The pages of the interface: what is drawn, and where.
//!
//! The rows and columns of a page come from the layout solver. For each page there is
//! a function that draws it into given rows and columns, and one that asks the solver
//! for them first.
use vstd::prelude::*;

use crate::logo::{colored_logo, logo_height, logo_shape, logo_width, paragraph};
use crate::style::{styled_line, Alignment, Color, LineView, ParagraphView, Style};
use crate::tui::app::{App, AppState, Route};
use crate::tui::area::{
    centered, centered_rect, column_layout, columns, coordinate, row_layout, rows, Rect,
};
use crate::tui::area::{law_centered_inside, law_rows_divide_area};
use crate::tui::area::{numbers, shares, shares_fit, total, within};
use crate::tui::dialog::shows_dialog;
use crate::tui::draw::{draw_views, push_draw, Draw, DrawView};
use crate::tui::paint::{in_view, line_cells, lines_cells, symbols, visible_char};
use crate::tui::paint::{
    law_in_view, law_line_fills_row, law_line_of_one_span, law_lines_have_their_rows,
    law_lines_write_once, law_text_that_fits_is_painted,
};
use crate::tui::render::{
    build_message_lines, divider, info_bar, info_or_status, input_prompt, live_view, spinner_line,
};
use crate::tui::render::{
    divider_view, history_lines, info_view, live, prompt_view, spinner_view, status_view,
    Surroundings, SurroundingsView,
};
use crate::tui::scrollbox::{law_settled_in_range, settled, ScrollBox, ScrollBoxState, Thumb};
use crate::width::cols;

verus! {

/// The rows of what the user types: one to three, whatever the number of lines.
pub open spec fn composer_rows(lines: usize) -> u16 {
    if (lines as u16) < 1 {
        1
    } else if (lines as u16) > 3 {
        3
    } else {
        lines as u16
    }
}

/// The rows of what the user types: one to three, whatever the number of lines.
pub fn composer_height(lines: usize) -> (r: u16)
    ensures
        r == composer_rows(lines),
{
    let n: u16 = #[verifier::truncate]
    (lines as u16);
    if n < 1 {
        1
    } else if n > 3 {
        3
    } else {
        n
    }
}

/// The rows of the spinner: one while a reply is on its way.
pub open spec fn spinner_rows<F>(s: AppState<F>) -> u16 {
    if s.in_flight is Some {
        1
    } else {
        0
    }
}

fn spinner_height<F>(app: &App<F>) -> (r: u16)
    ensures
        r == spinner_rows(app@),
{
    if app.in_flight.is_some() {
        1
    } else {
        0
    }
}

/// The spinner, while a reply is on its way.
pub open spec fn spinner_draw<F>(s: AppState<F>, env: SurroundingsView, area: Rect) -> Seq<DrawView> {
    if s.in_flight is Some {
        seq![DrawView::Text(area, spinner_view(s, env))]
    } else {
        seq![]
    }
}

/// The lengths of the rows below the messages: spinner, line across, what the user
/// types, info bar.
pub open spec fn chat_rows<F>(s: AppState<F>, lines: usize) -> Seq<u16> {
    seq![spinner_rows(s), 1u16, composer_rows(lines), 1u16]
}

// ───────────────────────────── inline ─────────────────────────────
/// What is drawn below the scrollback.
pub open spec fn inline_page<F>(
    s: AppState<F>,
    env: SurroundingsView,
    area: Rect,
    parts: Seq<Rect>,
    prompt: Rect,
    composer: Rect,
) -> Seq<DrawView> {
    seq![
        DrawView::Blank(area),
        DrawView::Text(parts[0], live(s, parts[0].width as nat, parts[0].height as int)),
    ] + spinner_draw(s, env, parts[1]) + seq![
        DrawView::Text(parts[2], divider_view()),
        DrawView::Text(prompt, prompt_view()),
        DrawView::Composer(composer),
        DrawView::Text(parts[4], status_view(s, env)),
    ]
}

/// `draws` is what is drawn below the scrollback, its rows laid out in the area.
pub open spec fn shows_inline<F>(
    s: AppState<F>,
    env: SurroundingsView,
    area: Rect,
    lines: usize,
    draws: Seq<DrawView>,
) -> bool {
    exists|parts: Seq<Rect>, prompt: Rect, composer: Rect|
        #![trigger inline_page(s, env, area, parts, prompt, composer)]
        row_layout(area, 0, 0, seq![], chat_rows(s, lines), parts) && column_layout(
            parts[3],
            2,
            prompt,
            composer,
        ) && draws == inline_page(s, env, area, parts, prompt, composer)
}

/// Draws below the scrollback, into given rows and columns.
pub fn inline_draws<F>(
    app: &App<F>,
    env: &Surroundings,
    area: Rect,
    parts: &[Rect],
    prompt: Rect,
    composer: Rect,
) -> (r: Vec<Draw>)
    requires
        parts@.len() == 5,
    ensures
        draw_views(r@) == inline_page(app@, env@, area, parts@, prompt, composer),
{
    let mut out: Vec<Draw> = Vec::new();
    push_draw(&mut out, Draw::Blank(area));
    let text = live_view(app, parts[0].width as usize, parts[0].height as usize);
    push_draw(&mut out, Draw::Text { area: parts[0], text });
    if app.in_flight.is_some() {
        push_draw(&mut out, Draw::Text { area: parts[1], text: spinner_line(app, env) });
    }
    push_draw(&mut out, Draw::Text { area: parts[2], text: divider() });
    push_draw(&mut out, Draw::Text { area: prompt, text: input_prompt() });
    push_draw(&mut out, Draw::Composer(composer));
    push_draw(&mut out, Draw::Text { area: parts[4], text: info_or_status(app, env) });
    assert(draw_views(out@) == inline_page(app@, env@, area, parts@, prompt, composer));
    out
}

/// Draws below the scrollback: a reply on its way, what the user types, and a bar.
pub fn draw_inline<F>(app: &App<F>, env: &Surroundings, area: Rect, composer_lines: usize) -> (r: Vec<
    Draw,
>)
    ensures
        shows_inline(app@, env@, area, composer_lines, draw_views(r@)),
{
    let none: [u16; 0] = [];
    let below: [u16; 4] = [spinner_height(app), 1, composer_height(composer_lines), 1];
    let parts = rows(area, 0, 0, &none, &below);
    assert(none@ == Seq::<u16>::empty());
    assert(below@ == chat_rows(app@, composer_lines));
    let (prompt, composer) = columns(parts[3], 2);
    inline_draws(app, env, area, parts.as_slice(), prompt, composer)
}

// ───────────────────────────── session ─────────────────────────────
/// The area of the messages: two columns in from both sides.
pub open spec fn message_area(part: Rect) -> Rect {
    Rect {
        x: coordinate(part.x + 2),
        y: part.y,
        width: if part.width >= 4 {
            (part.width - 4) as u16
        } else {
            0
        },
        height: part.height,
    }
}

/// The lines of the messages in the first row of a page.
pub open spec fn session_lines<F>(s: AppState<F>, part: Rect) -> Seq<LineView> {
    history_lines(s.history, s.cfg.persona, message_area(part).width as nat)
}

/// The messages in the first row of a page, from line `top` on.
pub open spec fn messages_draw<F>(s: AppState<F>, part: Rect, top: int) -> DrawView {
    let messages = message_area(part);
    DrawView::Cells(
        lines_cells(
            in_view(session_lines(s, part), top, messages),
            messages.x as int,
            messages.y as int,
            coordinate(messages.right_edge()) as int,
        ),
    )
}

/// What is drawn of a session, with the messages from line `top` on.
pub open spec fn session_page<F>(
    s: AppState<F>,
    env: SurroundingsView,
    area: Rect,
    parts: Seq<Rect>,
    prompt: Rect,
    composer: Rect,
    top: int,
) -> Seq<DrawView> {
    seq![DrawView::Blank(area), messages_draw(s, parts[0], top)] + spinner_draw(s, env, parts[1]) + seq![
        DrawView::Text(parts[2], divider_view()),
        DrawView::Text(prompt, prompt_view()),
        DrawView::Composer(composer),
        DrawView::Text(parts[4], info_view(s, env)),
    ]
}

/// The view of the messages once it has settled in the first row of a page.
pub open spec fn session_scroll<F>(s: AppState<F>, state: ScrollBoxState, part: Rect) -> ScrollBoxState {
    settled(state, session_lines(s, part).len() as int, part.height as int)
}

/// `draws` is what is drawn of a session, its rows laid out in the area, once the view
/// of the messages has settled from `before` to `after`.
pub open spec fn shows_session<F>(
    s: AppState<F>,
    env: SurroundingsView,
    area: Rect,
    lines: usize,
    before: ScrollBoxState,
    after: ScrollBoxState,
    draws: Seq<DrawView>,
) -> bool {
    exists|parts: Seq<Rect>, prompt: Rect, composer: Rect|
        #![trigger session_page(s, env, area, parts, prompt, composer, after.viewport_top as int)]
        row_layout(area, 0, 0, seq![], chat_rows(s, lines), parts) && column_layout(
            parts[3],
            2,
            prompt,
            composer,
        ) && session_lines(s, parts[0]).len() <= usize::MAX && after == session_scroll(
            s,
            before,
            parts[0],
        ) && draws == session_page(
            s,
            env,
            area,
            parts,
            prompt,
            composer,
            after.viewport_top as int,
        )
}

/// Draws a session into given rows and columns, and settles the view of the
/// messages.
pub fn session_draws<F>(
    app: &App<F>,
    env: &Surroundings,
    area: Rect,
    parts: &[Rect],
    prompt: Rect,
    composer: Rect,
    state: &mut ScrollBoxState,
) -> (r: Vec<Draw>)
    requires
        parts@.len() == 5,
    ensures
        session_lines(app@, parts@[0]).len() <= usize::MAX,
        *final(state) == session_scroll(app@, *old(state), parts@[0]),
        draw_views(r@) == session_page(
            app@,
            env@,
            area,
            parts@,
            prompt,
            composer,
            final(state).viewport_top as int,
        ),
{
    let part = parts[0];
    let messages = Rect {
        x: part.x.saturating_add(2),
        y: part.y,
        width: part.width.saturating_sub(4),
        height: part.height,
    };
    let mut out: Vec<Draw> = Vec::new();
    push_draw(&mut out, Draw::Blank(area));
    let scrollbox = ScrollBox::new(build_message_lines(app, messages.width as usize));
    let cells = scrollbox.render(messages, state, Thumb { position: 0, height: 0 });
    push_draw(&mut out, Draw::Cells(cells));
    if app.in_flight.is_some() {
        push_draw(&mut out, Draw::Text { area: parts[1], text: spinner_line(app, env) });
    }
    push_draw(&mut out, Draw::Text { area: parts[2], text: divider() });
    push_draw(&mut out, Draw::Text { area: prompt, text: input_prompt() });
    push_draw(&mut out, Draw::Composer(composer));
    push_draw(&mut out, Draw::Text { area: parts[4], text: info_bar(app, env) });
    assert(draw_views(out@) == session_page(
        app@,
        env@,
        area,
        parts@,
        prompt,
        composer,
        state.viewport_top as int,
    ));
    out
}

/// Fullscreen session page: scrollable message history, and the prompt at the
/// bottom.
pub fn draw_fullscreen_session<F>(
    app: &App<F>,
    env: &Surroundings,
    area: Rect,
    composer_lines: usize,
    state: &mut ScrollBoxState,
) -> (r: Vec<Draw>)
    ensures
        shows_session(
            app@,
            env@,
            area,
            composer_lines,
            *old(state),
            *final(state),
            draw_views(r@),
        ),
{
    let none: [u16; 0] = [];
    let below: [u16; 4] = [spinner_height(app), 1, composer_height(composer_lines), 1];
    let parts = rows(area, 0, 0, &none, &below);
    assert(none@ == Seq::<u16>::empty());
    assert(below@ == chat_rows(app@, composer_lines));
    let (prompt, composer) = columns(parts[3], 2);
    session_draws(app, env, area, parts.as_slice(), prompt, composer, state)
}

// ───────────────────────────── home ─────────────────────────────
/// The smaller of two lengths.
pub open spec fn at_most(a: u16, b: u16) -> u16 {
    if a <= b {
        a
    } else {
        b
    }
}

/// The rows above the logo: a third of what is left.
pub open spec fn top_rows<F>(s: AppState<F>, height: u16, lines: usize) -> u16 {
    let fixed = 5 + 1 + composer_rows(lines) + 1 + spinner_rows(s) + 1;
    if height >= fixed {
        ((height - fixed) / 3) as u16
    } else {
        0
    }
}

/// The lengths of the rows of the home page: space, logo, a gap, what the user types,
/// spinner, info bar.
pub open spec fn home_rows<F>(s: AppState<F>, height: u16, lines: usize) -> Seq<u16> {
    seq![top_rows(s, height, lines), 5u16, 1u16, composer_rows(lines), spinner_rows(s), 1u16]
}

/// Where what the user types goes.
pub open spec fn home_composer(area: Rect, part: Rect, lines: usize) -> Rect {
    centered(part, at_most(75, area.width), composer_rows(lines))
}

/// The logo on the home page.
pub open spec fn logo_view() -> ParagraphView {
    ParagraphView {
        lines: colored_logo(Color::Rgb(255, 140, 155), Color::Rgb(255, 180, 190)),
        alignment: Alignment::Center,
    }
}

/// The note at the top of the home page, where there is one.
pub open spec fn note_draw<F>(s: AppState<F>, env: SurroundingsView, area: Rect) -> Seq<DrawView> {
    if s.status is Some {
        seq![
            DrawView::Text(
                Rect { y: area.y, height: 1, ..centered(area, at_most(80, area.width), 1) },
                status_view(s, env),
            ),
        ]
    } else {
        seq![]
    }
}

/// What is drawn of the home page.
pub open spec fn home_page<F>(
    s: AppState<F>,
    env: SurroundingsView,
    area: Rect,
    parts: Seq<Rect>,
    prompt: Rect,
    composer: Rect,
) -> Seq<DrawView> {
    seq![
        DrawView::Blank(area),
        DrawView::Text(centered(parts[1], 26, 5), logo_view()),
    ] + spinner_draw(s, env, centered(parts[4], 60, spinner_rows(s))) + seq![
        DrawView::Text(prompt, prompt_view()),
        DrawView::Composer(composer),
        DrawView::Text(centered(parts[5], at_most(75, area.width), 1), info_view(s, env)),
    ] + note_draw(s, env, area)
}

/// `draws` is what is drawn of the home page, its rows laid out in the area.
pub open spec fn shows_home<F>(
    s: AppState<F>,
    env: SurroundingsView,
    area: Rect,
    lines: usize,
    draws: Seq<DrawView>,
) -> bool {
    exists|parts: Seq<Rect>, prompt: Rect, composer: Rect|
        #![trigger home_page(s, env, area, parts, prompt, composer)]
        row_layout(area, 0, 0, home_rows(s, area.height, lines), seq![], parts) && column_layout(
            home_composer(area, parts[3], lines),
            2,
            prompt,
            composer,
        ) && draws == home_page(s, env, area, parts, prompt, composer)
}

/// Draws the home page into given rows and columns.
pub fn home_draws<F>(
    app: &App<F>,
    env: &Surroundings,
    area: Rect,
    parts: &[Rect],
    prompt: Rect,
    composer: Rect,
) -> (r: Vec<Draw>)
    requires
        parts@.len() == 7,
    ensures
        draw_views(r@) == home_page(app@, env@, area, parts@, prompt, composer),
{
    let shape = logo_shape();
    let mut out: Vec<Draw> = Vec::new();
    push_draw(&mut out, Draw::Blank(area));
    let logo_area = centered_rect(parts[1], logo_width(shape) as u16, logo_height(shape) as u16);
    let text = paragraph(shape, Color::Rgb(255, 140, 155), Color::Rgb(255, 180, 190));
    push_draw(&mut out, Draw::Text { area: logo_area, text });
    if app.in_flight.is_some() {
        let spinner_area = centered_rect(parts[4], 60, spinner_height(app));
        push_draw(&mut out, Draw::Text { area: spinner_area, text: spinner_line(app, env) });
    }
    push_draw(&mut out, Draw::Text { area: prompt, text: input_prompt() });
    push_draw(&mut out, Draw::Composer(composer));
    let w75: u16 = if area.width >= 75 {
        75
    } else {
        area.width
    };
    let info_area = centered_rect(parts[5], w75, 1);
    push_draw(&mut out, Draw::Text { area: info_area, text: info_bar(app, env) });
    if app.status_msg.is_some() {
        let w80: u16 = if area.width >= 80 {
            80
        } else {
            area.width
        };
        let middle = centered_rect(area, w80, 1);
        let status_area = Rect { x: middle.x, y: area.y, width: middle.width, height: 1 };
        push_draw(&mut out, Draw::Text { area: status_area, text: info_or_status(app, env) });
    }
    assert(draw_views(out@) == home_page(app@, env@, area, parts@, prompt, composer));
    out
}

/// Fullscreen home page: the logo, the prompt below it, and a bar.
pub fn draw_fullscreen_home<F>(
    app: &App<F>,
    env: &Surroundings,
    area: Rect,
    composer_lines: usize,
) -> (r: Vec<Draw>)
    ensures
        shows_home(app@, env@, area, composer_lines, draw_views(r@)),
{
    let shape = logo_shape();
    let logo_h = logo_height(shape) as u16;
    let composer_h = composer_height(composer_lines);
    let spinner_h = spinner_height(app);
    let fixed = logo_h + 1 + composer_h + 1 + spinner_h + 1;
    let top = area.height.saturating_sub(fixed) / 3;
    let none: [u16; 0] = [];
    let above: [u16; 6] = [top, logo_h, 1, composer_h, spinner_h, 1];
    let parts = rows(area, 0, 0, &above, &none);
    assert(none@ == Seq::<u16>::empty());
    assert(above@ == home_rows(app@, area.height, composer_lines));
    let w75: u16 = if area.width >= 75 {
        75
    } else {
        area.width
    };
    let (prompt, composer) = columns(centered_rect(parts[3], w75, composer_h), 2);
    home_draws(app, env, area, parts.as_slice(), prompt, composer)
}

// ───────────────────────────── the screen ─────────────────────────────
/// `draws` is the page of the application: below the scrollback, or with the whole
/// screen the home page or the session. Only a session moves the view of the messages.
pub open spec fn shows_page<F>(
    s: AppState<F>,
    env: SurroundingsView,
    area: Rect,
    lines: usize,
    before: ScrollBoxState,
    after: ScrollBoxState,
    draws: Seq<DrawView>,
) -> bool {
    if !s.is_fullscreen {
        after == before && shows_inline(s, env, area, lines, draws)
    } else {
        match s.route {
            Route::Home => after == before && shows_home(s, env, area, lines, draws),
            Route::Session => shows_session(s, env, area, lines, before, after, draws),
        }
    }
}

/// Draws the page of the application.
pub fn draw_page<F>(
    app: &App<F>,
    env: &Surroundings,
    area: Rect,
    composer_lines: usize,
    scroll: &mut ScrollBoxState,
) -> (r: Vec<Draw>)
    ensures
        shows_page(
            app@,
            env@,
            area,
            composer_lines,
            *old(scroll),
            *final(scroll),
            draw_views(r@),
        ),
{
    if !app.is_fullscreen {
        return draw_inline(app, env, area, composer_lines);
    }
    match app.route {
        Route::Home => draw_fullscreen_home(app, env, area, composer_lines),
        Route::Session => draw_fullscreen_session(app, env, area, composer_lines, scroll),
    }
}

/// Draws the dialog on top of the page: only with the whole screen is there one.
pub fn draw_dialog<F>(app: &App<F>, area: Rect) -> (r: Vec<Draw>)
    ensures
        app@.is_fullscreen ==> shows_dialog(app@.dialog, area, draw_views(r@)),
        !app@.is_fullscreen ==> r@.len() == 0,
{
    if app.is_fullscreen {
        app.dialog_stack.render(area)
    } else {
        Vec::new()
    }
}

/// What is drawn lies in `outer`.
pub open spec fn drawn_inside(d: DrawView, outer: Rect) -> bool {
    match d {
        DrawView::Blank(area) => area.inside(outer),
        DrawView::Erase(area) => area.inside(outer),
        DrawView::Text(area, _) => area.inside(outer),
        DrawView::Framed(area, _) => area.inside(outer),
        DrawView::Choices(area, _, _, _) => area.inside(outer),
        DrawView::Composer(area) => area.inside(outer),
        DrawView::Cells(cells) => forall|i: int|
            0 <= i < cells.len() ==> outer.x <= (#[trigger] cells[i]).x < outer.right_edge()
                && outer.y <= cells[i].y < outer.bottom_edge(),
    }
}

/// All that is drawn lies in `outer`.
pub open spec fn all_inside(draws: Seq<DrawView>, outer: Rect) -> bool {
    forall|i: int| 0 <= i < draws.len() ==> drawn_inside(#[trigger] draws[i], outer)
}

proof fn lemma_messages_inside<F>(s: AppState<F>, part: Rect, outer: Rect, top: int)
    requires
        part.inside(outer),
        outer.right_edge() <= 65535,
        outer.bottom_edge() <= 65535,
        0 <= top <= session_lines(s, part).len(),
    ensures
        drawn_inside(messages_draw(s, part, top), outer),
{
    let messages = message_area(part);
    let lines = in_view(session_lines(s, part), top, messages);
    assert(lines.len() <= part.height);
    law_lines_write_once(
        lines,
        messages.x as int,
        messages.y as int,
        coordinate(messages.right_edge()) as int,
    );
}

proof fn lemma_inline_inside<F>(
    s: AppState<F>,
    env: SurroundingsView,
    area: Rect,
    lines: usize,
    draws: Seq<DrawView>,
)
    requires
        shows_inline(s, env, area, lines, draws),
    ensures
        all_inside(draws, area),
{
    let (parts, prompt, composer) = choose|parts: Seq<Rect>, prompt: Rect, composer: Rect|
        #![trigger inline_page(s, env, area, parts, prompt, composer)]
        row_layout(area, 0, 0, seq![], chat_rows(s, lines), parts) && column_layout(
            parts[3],
            2,
            prompt,
            composer,
        ) && draws == inline_page(s, env, area, parts, prompt, composer);
    lemma_in_rows(area, seq![], chat_rows(s, lines), parts);
    let above = seq![
        DrawView::Blank(area),
        DrawView::Text(parts[0], live(s, parts[0].width as nat, parts[0].height as int)),
    ];
    let below = seq![
        DrawView::Text(parts[2], divider_view()),
        DrawView::Text(prompt, prompt_view()),
        DrawView::Composer(composer),
        DrawView::Text(parts[4], status_view(s, env)),
    ];
    assert(all_inside(above, area));
    assert(all_inside(spinner_draw(s, env, parts[1]), area));
    assert(all_inside(below, area));
    lemma_all_inside_add(above, spinner_draw(s, env, parts[1]), area);
    lemma_all_inside_add(above + spinner_draw(s, env, parts[1]), below, area);
}

proof fn lemma_session_inside<F>(
    s: AppState<F>,
    env: SurroundingsView,
    area: Rect,
    lines: usize,
    before: ScrollBoxState,
    after: ScrollBoxState,
    draws: Seq<DrawView>,
)
    requires
        shows_session(s, env, area, lines, before, after, draws),
        area.right_edge() <= 65535,
        area.bottom_edge() <= 65535,
    ensures
        all_inside(draws, area),
{
    let top = after.viewport_top as int;
    let (parts, prompt, composer) = choose|parts: Seq<Rect>, prompt: Rect, composer: Rect|
        #![trigger session_page(s, env, area, parts, prompt, composer, after.viewport_top as int)]
        row_layout(area, 0, 0, seq![], chat_rows(s, lines), parts) && column_layout(
            parts[3],
            2,
            prompt,
            composer,
        ) && session_lines(s, parts[0]).len() <= usize::MAX && after == session_scroll(
            s,
            before,
            parts[0],
        ) && draws == session_page(
            s,
            env,
            area,
            parts,
            prompt,
            composer,
            after.viewport_top as int,
        );
    lemma_in_rows(area, seq![], chat_rows(s, lines), parts);
    law_settled_in_range(before, session_lines(s, parts[0]).len() as int, parts[0].height as int);
    lemma_messages_inside(s, parts[0], area, top);
    let above = seq![DrawView::Blank(area), messages_draw(s, parts[0], top)];
    let below = seq![
        DrawView::Text(parts[2], divider_view()),
        DrawView::Text(prompt, prompt_view()),
        DrawView::Composer(composer),
        DrawView::Text(parts[4], info_view(s, env)),
    ];
    assert(all_inside(above, area));
    assert(all_inside(spinner_draw(s, env, parts[1]), area));
    assert(all_inside(below, area));
    lemma_all_inside_add(above, spinner_draw(s, env, parts[1]), area);
    lemma_all_inside_add(above + spinner_draw(s, env, parts[1]), below, area);
}

proof fn lemma_home_inside<F>(
    s: AppState<F>,
    env: SurroundingsView,
    area: Rect,
    lines: usize,
    draws: Seq<DrawView>,
)
    requires
        shows_home(s, env, area, lines, draws),
        area.right_edge() <= 65535,
        area.bottom_edge() <= 65535,
        s.status is Some ==> area.height > 0,
    ensures
        all_inside(draws, area),
{
    let (parts, prompt, composer) = choose|parts: Seq<Rect>, prompt: Rect, composer: Rect|
        #![trigger home_page(s, env, area, parts, prompt, composer)]
        row_layout(area, 0, 0, home_rows(s, area.height, lines), seq![], parts) && column_layout(
            home_composer(area, parts[3], lines),
            2,
            prompt,
            composer,
        ) && draws == home_page(s, env, area, parts, prompt, composer);
    let wide = at_most(75, area.width);
    lemma_in_rows(area, home_rows(s, area.height, lines), seq![], parts);
    law_centered_inside(parts[1], 26, 5);
    law_centered_inside(parts[3], wide, composer_rows(lines));
    law_centered_inside(parts[4], 60, spinner_rows(s));
    law_centered_inside(parts[5], wide, 1);
    law_centered_inside(area, at_most(80, area.width), 1);
    let spinner = spinner_draw(s, env, centered(parts[4], 60, spinner_rows(s)));
    let above = seq![
        DrawView::Blank(area),
        DrawView::Text(centered(parts[1], 26, 5), logo_view()),
    ];
    let below = seq![
        DrawView::Text(prompt, prompt_view()),
        DrawView::Composer(composer),
        DrawView::Text(centered(parts[5], wide, 1), info_view(s, env)),
    ];
    let note = note_draw(s, env, area);
    assert(all_inside(above, area));
    assert(all_inside(spinner, area));
    assert(all_inside(below, area));
    assert(all_inside(note, area));
    lemma_all_inside_add(above, spinner, area);
    lemma_all_inside_add(above + spinner, below, area);
    lemma_all_inside_add(above + spinner + below, note, area);
}

proof fn lemma_all_inside_add(a: Seq<DrawView>, b: Seq<DrawView>, outer: Rect)
    requires
        all_inside(a, outer),
        all_inside(b, outer),
    ensures
        all_inside(a + b, outer),
{
    assert forall|i: int| 0 <= i < (a + b).len() implies drawn_inside(#[trigger] (a + b)[i], outer) by {
        if i < a.len() {
            assert((a + b)[i] == a[i]);
        } else {
            assert((a + b)[i] == b[i - a.len()]);
        }
    }
}

proof fn lemma_in_rows(area: Rect, before: Seq<u16>, after: Seq<u16>, parts: Seq<Rect>)
    requires
        row_layout(area, 0, 0, before, after, parts),
    ensures
        forall|i: int| 0 <= i < parts.len() ==> (#[trigger] parts[i]).inside(area),
{
}

/// A page stays on the screen, however small that is: everything of it is drawn inside
/// the area that it has. (The note on the home page takes a row even where there is
/// none.)
pub proof fn law_page_stays_on_screen<F>(
    s: AppState<F>,
    env: SurroundingsView,
    area: Rect,
    lines: usize,
    before: ScrollBoxState,
    after: ScrollBoxState,
    draws: Seq<DrawView>,
)
    requires
        shows_page(s, env, area, lines, before, after, draws),
        area.right_edge() <= 65535,
        area.bottom_edge() <= 65535,
        s.is_fullscreen && s.route == Route::Home && s.status is Some ==> area.height > 0,
    ensures
        all_inside(draws, area),
{
    if !s.is_fullscreen {
        lemma_inline_inside(s, env, area, lines, draws);
    } else {
        match s.route {
            Route::Home => lemma_home_inside(s, env, area, lines, draws),
            Route::Session => lemma_session_inside(s, env, area, lines, before, after, draws),
        }
    }
}

/// What is in view is on the page: line `i` of the messages, where it is in view and its
/// text fits the columns for messages, has all of its text that can be seen in the
/// cells of its row.
pub proof fn law_message_line_is_on_the_page<F>(
    s: AppState<F>,
    part: Rect,
    top: int,
    i: int,
    text: Seq<char>,
    style: Style,
) -> (at: (int, int))
    requires
        part.right_edge() <= 65535,
        part.bottom_edge() <= 65535,
        part.width >= 4,
        0 <= top <= i < session_lines(s, part).len(),
        i < top + part.height,
        session_lines(s, part)[i] == styled_line(text, style),
        cols(text) <= part.width - 4,
    ensures
        ({
            let cells = messages_draw(s, part, top)->Cells_0;
            &&& messages_draw(s, part, top) is Cells
            &&& 0 <= at.0 <= at.1 <= cells.len()
            &&& symbols(cells.subrange(at.0, at.1)) == text.filter(|c: char| visible_char(c))
            &&& forall|k: int| at.0 <= k < at.1 ==> (#[trigger] cells[k]).y == part.y + i - top
        }),
{
    let area = message_area(part);
    let all = session_lines(s, part);
    law_in_view(all, top, area);
    let shown = in_view(all, top, area);
    let x = area.x as int;
    let y = area.y as int;
    let right = coordinate(area.right_edge()) as int;
    let row = i - top;
    let at = law_lines_have_their_rows(shown, x, y, right, row);
    let own = line_cells(shown[row], x, y + row, right);
    law_line_of_one_span(text, style, x, y + row, right);
    law_text_that_fits_is_painted(text, style, x, y + row, right);
    law_line_fills_row(shown[row], x, y + row, right);
    let cells = lines_cells(shown, x, y, right);
    assert forall|k: int| at <= k < at + own.len() implies (#[trigger] cells[k]).y == part.y + i - top by {
        assert(cells.subrange(at, at + own.len())[k - at] == own[k - at]);
    }
    (at, at + own.len())
}

/// The rows of a page, where they fit, are as high as they should be and stand one
/// below the other: below the messages, which take what is left, the spinner while a
/// reply is on its way, a line across, one to three rows for what the user types, and
/// the info bar in the last row.
pub proof fn law_chat_rows<F>(s: AppState<F>, area: Rect, lines: usize, parts: Seq<Rect>)
    requires
        row_layout(area, 0, 0, seq![], chat_rows(s, lines), parts),
        area.bottom_edge() <= 65535,
        lines <= 65535,
        area.height >= spinner_rows(s) + composer_rows(lines) + 2,
    ensures
        ({
            let spinner: int = if s.in_flight is Some {
                1
            } else {
                0
            };
            let typed: int = if lines < 1 {
                1
            } else if lines > 3 {
                3
            } else {
                lines as int
            };
            &&& parts.len() == 5
            &&& parts[0].y == area.y && parts[0].height == area.height - spinner - typed - 2
            &&& parts[1].y == parts[0].bottom_edge() && parts[1].height == spinner
            &&& parts[2].y == parts[1].bottom_edge() && parts[2].height == 1
            &&& parts[3].y == parts[2].bottom_edge() && parts[3].height == typed
            &&& parts[4].y == parts[3].bottom_edge() && parts[4].height == 1
            &&& parts[4].bottom_edge() == area.bottom_edge()
            &&& forall|i: int|
                0 <= i < 5 ==> (#[trigger] parts[i]).x == area.x && parts[i].width == area.width
        }),
{
    let below = chat_rows(s, lines);
    let n = numbers(below);
    let before = Seq::<u16>::empty();
    assert(numbers(before) == Seq::<int>::empty());
    lemma_total_four(n);
    assert(within(area, 0, 0) == area);
    assert(shares_fit(before, below, area.height as int));
    law_rows_divide_area(area, 0, 0, before, below, parts);
    let heights = shares(before, below, area.height as int);
    assert(parts[0].height == heights[0] && parts[1].height == heights[1]);
    assert(parts[2].height == heights[2] && parts[3].height == heights[3]);
    assert(parts[4].height == heights[4]);
    assert(parts[1].y == parts[0].bottom_edge() && parts[2].y == parts[1].bottom_edge());
    assert(parts[3].y == parts[2].bottom_edge() && parts[4].y == parts[3].bottom_edge());
}

proof fn lemma_total_four(n: Seq<int>)
    requires
        n.len() == 4,
    ensures
        total(n) == n[0] + n[1] + n[2] + n[3],
        total(Seq::<int>::empty()) == 0,
{
    reveal_with_fuel(total, 5);
}

/// What is drawn below the scrollback: the reply on its way above, the spinner while
/// there is one, a line across, the prompt and what the user types, and at the bottom
/// the status or the info bar.
pub proof fn law_inline_page<F>(
    s: AppState<F>,
    env: SurroundingsView,
    area: Rect,
    parts: Seq<Rect>,
    prompt: Rect,
    composer: Rect,
)
    ensures
        ({
            let draws = inline_page(s, env, area, parts, prompt, composer);
            let n = draws.len() as int;
            &&& n == if s.in_flight is Some {
                7int
            } else {
                6
            }
            &&& draws[0] == DrawView::Blank(area)
            &&& draws[1] == DrawView::Text(
                parts[0],
                live(s, parts[0].width as nat, parts[0].height as int),
            )
            &&& s.in_flight is Some ==> draws[2] == DrawView::Text(parts[1], spinner_view(s, env))
            &&& draws[n - 4] == DrawView::Text(parts[2], divider_view())
            &&& draws[n - 3] == DrawView::Text(prompt, prompt_view())
            &&& draws[n - 2] == DrawView::Composer(composer)
            &&& draws[n - 1] == DrawView::Text(parts[4], status_view(s, env))
        }),
{
}

/// What is drawn of a session: the messages above, the spinner while a reply is on its
/// way, a line across, the prompt and what the user types, and the info bar.
pub proof fn law_session_page<F>(
    s: AppState<F>,
    env: SurroundingsView,
    area: Rect,
    parts: Seq<Rect>,
    prompt: Rect,
    composer: Rect,
    top: int,
)
    ensures
        ({
            let draws = session_page(s, env, area, parts, prompt, composer, top);
            let n = draws.len() as int;
            &&& n == if s.in_flight is Some {
                7int
            } else {
                6
            }
            &&& draws[0] == DrawView::Blank(area)
            &&& draws[1] == messages_draw(s, parts[0], top)
            &&& s.in_flight is Some ==> draws[2] == DrawView::Text(parts[1], spinner_view(s, env))
            &&& draws[n - 4] == DrawView::Text(parts[2], divider_view())
            &&& draws[n - 3] == DrawView::Text(prompt, prompt_view())
            &&& draws[n - 2] == DrawView::Composer(composer)
            &&& draws[n - 1] == DrawView::Text(parts[4], info_view(s, env))
        }),
{
}

/// What is drawn of the home page: the logo, the spinner while a reply is on its way,
/// the prompt and what the user types, the info bar, and a status message at the top.
pub proof fn law_home_page<F>(
    s: AppState<F>,
    env: SurroundingsView,
    area: Rect,
    parts: Seq<Rect>,
    prompt: Rect,
    composer: Rect,
)
    ensures
        ({
            let draws = home_page(s, env, area, parts, prompt, composer);
            let at: int = if s.in_flight is Some {
                3
            } else {
                2
            };
            let wide: u16 = if area.width >= 75 {
                75
            } else {
                area.width
            };
            &&& draws[0] == DrawView::Blank(area)
            &&& draws[1] == DrawView::Text(centered(parts[1], 26, 5), logo_view())
            &&& s.in_flight is Some ==> draws[2] == DrawView::Text(
                centered(parts[4], 60, 1),
                spinner_view(s, env),
            )
            &&& draws[at] == DrawView::Text(prompt, prompt_view())
            &&& draws[at + 1] == DrawView::Composer(composer)
            &&& draws[at + 2] == DrawView::Text(centered(parts[5], wide, 1), info_view(s, env))
            &&& s.status is None ==> draws.len() == at + 3
            &&& s.status is Some ==> draws.len() == at + 4 && draws[at + 3] is Text
                && draws[at + 3]->Text_0.y == area.y && draws[at + 3]->Text_0.height == 1
                && draws[at + 3]->Text_1 == status_view(s, env)
        }),
{
}

/// The rows of the home page, where they fit: a third of what is left above the logo of
/// five rows, a gap, what the user types, the spinner, the info bar, and the rest below.
pub proof fn law_home_rows<F>(s: AppState<F>, height: u16, lines: usize)
    requires
        lines <= 65535,
    ensures
        ({
            let spinner: int = if s.in_flight is Some {
                1
            } else {
                0
            };
            let typed: int = if lines < 1 {
                1
            } else if lines > 3 {
                3
            } else {
                lines as int
            };
            let rows = home_rows(s, height, lines);
            &&& rows.len() == 6
            &&& rows[0] == if height >= 8 + typed + spinner {
                (height - 8 - typed - spinner) / 3
            } else {
                0
            }
            &&& rows[1] == 5 && rows[2] == 1 && rows[3] == typed
            &&& rows[4] == spinner && rows[5] == 1
        }),
{
}

/// Messages stand two columns in from both sides.
pub proof fn law_message_area(part: Rect)
    requires
        part.right_edge() <= 65535,
        part.width >= 4,
    ensures
        message_area(part).x == part.x + 2,
        message_area(part).right_edge() == part.right_edge() - 2,
        message_area(part).y == part.y,
        message_area(part).height == part.height,
{
}

/// What the user types takes as many rows as it has lines, one at least and three at
/// most.
pub proof fn law_composer_rows(lines: usize)
    requires
        lines <= 65535,
    ensures
        lines < 1 ==> composer_rows(lines) == 1,
        1 <= lines <= 3 ==> composer_rows(lines) == lines,
        lines > 3 ==> composer_rows(lines) == 3,
{
}

/// The page is the one for the mode and the route, and only a session moves the view.
pub proof fn law_page_goes_by_mode_and_route<F>(
    s: AppState<F>,
    env: SurroundingsView,
    area: Rect,
    lines: usize,
    before: ScrollBoxState,
    after: ScrollBoxState,
    draws: Seq<DrawView>,
)
    requires
        shows_page(s, env, area, lines, before, after, draws),
    ensures
        !s.is_fullscreen ==> after == before && shows_inline(s, env, area, lines, draws),
        s.is_fullscreen && s.route == Route::Home ==> after == before && shows_home(
            s,
            env,
            area,
            lines,
            draws,
        ),
        s.is_fullscreen && s.route == Route::Session ==> shows_session(
            s,
            env,
            area,
            lines,
            before,
            after,
            draws,
        ),
{
}

/// What the user types stands in the middle of its row, seventy-five columns wide or as
/// wide as the screen.
pub proof fn law_home_composer(area: Rect, part: Rect, lines: usize)
    ensures
        area.width >= 75 ==> home_composer(area, part, lines) == centered(
            part,
            75,
            composer_rows(lines),
        ),
        area.width < 75 ==> home_composer(area, part, lines) == centered(
            part,
            area.width,
            composer_rows(lines),
        ),
{
}

/// The messages on a session page are those of the history, laid out for the columns
/// that they have, and the view of them is settled for the rows that they have.
pub proof fn law_session_messages<F>(s: AppState<F>, state: ScrollBoxState, part: Rect)
    requires
        part.width >= 4,
    ensures
        session_lines(s, part) == history_lines(
            s.history,
            s.cfg.persona,
            (part.width - 4) as nat,
        ),
        session_scroll(s, state, part) == settled(
            state,
            history_lines(s.history, s.cfg.persona, (part.width - 4) as nat).len() as int,
            part.height as int,
        ),
{
}

} // verus!
