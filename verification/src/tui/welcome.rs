//! The welcome card and the welcome page.
use vstd::prelude::*;

use crate::config::ConfigView;
use crate::logo;
use crate::style::{
    in_bold, in_color, line_of, line_views, plain, plain_line, push_line, push_span, span_views,
    styled, styled_lines,
};
use crate::style::{Color, Line, LineView, Span, SpanView, Style};
use crate::text::{repeat, repeated};
use crate::tui::app::App;
use crate::tui::fit::{
    center_line_to_width, centered_line, in_fitted_frame, line_cols, line_width, push_spans,
    with_border_fit,
};
use crate::tui::fit::spans_text;
use crate::tui::render::{law_line_says_text, push_styled_lines, text_of, texts_of_lines};
use crate::tui::wrap::{wrap_text_block, wrapped_block};
use crate::width::unicode_str_width;

verus! {

/// The widest that the text of the card gets.
pub const MAX_TEXT_COLS: usize = 72;

/// A width held between one column and the widest.
pub open spec fn text_cols(width: int) -> nat {
    if width < 1 {
        1
    } else if width > MAX_TEXT_COLS {
        MAX_TEXT_COLS as nat
    } else {
        width as nat
    }
}

/// The text of the card: the program and its version, a greeting, the model and the
/// directory.
pub open spec fn card_content<F>(
    cfg: ConfigView<F>,
    version: Seq<char>,
    cwd: Seq<char>,
    width: int,
) -> Seq<LineView> {
    let w = text_cols(width);
    let blank = seq![plain_line(seq![])];
    seq![
        line_of(
            seq![
                styled("Aili"@, in_bold(Color::LightCyan)),
                styled(" v"@ + version, in_color(Color::DarkGray)),
            ],
        ),
    ] + blank + styled_lines(
        wrapped_block("Welcome back, "@ + cfg.persona.user_name + "!"@, w),
        in_color(Color::White),
    ) + blank + styled_lines(wrapped_block(cfg.model, w), in_bold(Color::LightCyan)) + styled_lines(
        wrapped_block(cwd, w),
        in_color(Color::DarkGray),
    ) + blank
}

/// The text of the card.
pub fn welcome_card_content<F>(app: &App<F>, version: &str, cwd: &str, width: usize) -> (r: Vec<Line>)
    ensures
        line_views(r@) == card_content(app@.cfg, version@, cwd@, width as int),
{
    let w = if width < 1 {
        1
    } else if width > MAX_TEXT_COLS {
        MAX_TEXT_COLS
    } else {
        width
    };
    let mut spans: Vec<Span> = Vec::new();
    push_span(&mut spans, Span::styled("Aili".to_owned(), Style::bold(Color::LightCyan)));
    let mut v = " v".to_owned();
    v.append(version);
    push_span(&mut spans, Span::styled(v, Style::fg(Color::DarkGray)));
    let head = Line::of(spans);
    assert(head@.spans == seq![
        styled("Aili"@, in_bold(Color::LightCyan)),
        styled(" v"@ + version@, in_color(Color::DarkGray)),
    ]);
    let mut lines: Vec<Line> = Vec::new();
    push_line(&mut lines, head);
    push_line(&mut lines, Line::blank());
    let mut greeting = "Welcome back, ".to_owned();
    greeting.append(app.cfg.persona.user_name.as_str());
    greeting.append("!");
    let texts = wrap_text_block(greeting.as_str(), w);
    push_styled_lines(&mut lines, texts.as_slice(), Style::fg(Color::White));
    push_line(&mut lines, Line::blank());
    let texts = wrap_text_block(app.cfg.model.as_str(), w);
    push_styled_lines(&mut lines, texts.as_slice(), Style::bold(Color::LightCyan));
    let texts = wrap_text_block(cwd, w);
    push_styled_lines(&mut lines, texts.as_slice(), Style::fg(Color::DarkGray));
    push_line(&mut lines, Line::blank());
    assert(line_views(lines@) == card_content(app@.cfg, version@, cwd@, width as int));
    lines
}

/// At least one column.
pub open spec fn at_least_one(width: int) -> int {
    if width < 1 {
        1
    } else {
        width
    }
}

/// The card: its text in a frame.
pub open spec fn card<F>(
    cfg: ConfigView<F>,
    version: Seq<char>,
    cwd: Seq<char>,
    width: int,
) -> Seq<LineView> {
    in_fitted_frame(
        card_content(cfg, version, cwd, at_least_one(at_least_one(width) - 4)),
        at_least_one(width),
    )
}

/// The card: its text in a frame.
pub fn welcome_card_lines<F>(app: &App<F>, version: &str, cwd: &str, width: usize) -> (r: Vec<Line>)
    ensures
        line_views(r@) == card(app@.cfg, version@, cwd@, width as int),
{
    let width = if width < 1 {
        1
    } else {
        width
    };
    let content_width = if width <= 4 {
        1
    } else {
        width - 4
    };
    let content = welcome_card_content(app, version, cwd, content_width);
    with_border_fit(content.as_slice(), width)
}

// ───────────────────────────── page ─────────────────────────────
/// The first and the last of a run of lines that show anything.
pub open spec fn visible_span(lines: Seq<LineView>) -> Option<(int, int)>
    decreases lines.len(),
{
    if lines.len() == 0 {
        None
    } else {
        let at = lines.len() - 1;
        if line_cols(lines.last()) == 0 {
            visible_span(lines.drop_last())
        } else {
            match visible_span(lines.drop_last()) {
                Some((first, _)) => Some((first, at)),
                None => Some((at, at)),
            }
        }
    }
}

/// Less by `b`, but not below nothing.
pub open spec fn less(a: int, b: int) -> int {
    if a >= b {
        a - b
    } else {
        0
    }
}

/// The row that a logo of some lines starts at to stand in the middle of a text.
pub open spec fn logo_start(lines: Seq<LineView>, logo_lines: int, rows: int) -> int {
    let center = match visible_span(lines) {
        Some((first, last)) => (first + last) / 2,
        None => rows / 2,
    };
    let start = less(center, logo_lines / 2);
    if logo_lines == 0 || rows == 0 {
        0
    } else if start <= less(rows, logo_lines) {
        start
    } else {
        less(rows, logo_lines)
    }
}

/// The row that a logo of some lines starts at to stand in the middle of a text.
pub fn centered_logo_start(text_lines: &[Line], logo_line_count: usize, total_rows: usize) -> (r:
    usize)
    ensures
        r == logo_start(line_views(text_lines@), logo_line_count as int, total_rows as int),
{
    if logo_line_count == 0 || total_rows == 0 {
        return 0;
    }
    let ghost all = line_views(text_lines@);
    let mut span: Option<(usize, usize)> = None;
    let mut i: usize = 0;
    while i < text_lines.len()
        invariant
            i <= text_lines@.len(),
            all == line_views(text_lines@),
            match span {
                Some((first, last)) => first <= last < i && visible_span(all.take(i as int)) == Some(
                    (first as int, last as int),
                ),
                None => visible_span(all.take(i as int)) is None,
            },
        decreases text_lines@.len() - i,
    {
        assert(all.take(i + 1).drop_last() == all.take(i as int));
        assert(all.take(i + 1).last() == text_lines@[i as int]@);
        if line_width(&text_lines[i]) > 0 {
            span = match span {
                Some((first, _)) => Some((first, i)),
                None => Some((i, i)),
            };
        }
        i += 1;
    }
    assert(all.take(all.len() as int) == all);
    let center = match span {
        Some((first, last)) => first + (last - first) / 2,
        None => total_rows / 2,
    };
    let start = center.saturating_sub(logo_line_count / 2);
    let latest = total_rows.saturating_sub(logo_line_count);
    if start <= latest {
        start
    } else {
        latest
    }
}

/// The columns of the small logo.
pub const LOGO_COLS: usize = 4;

/// The columns between the logo and the text.
pub const LOGO_GAP: usize = 3;

/// The columns that the text beside the logo takes at least.
pub const MIN_TEXT_COLS: usize = 18;

/// Text in no style.
pub open spec fn raw(text: Seq<char>) -> SpanView {
    styled(text, plain())
}

/// The columns of the text beside the logo; `None` where the page is too narrow.
pub open spec fn page_text_cols(width: int) -> Option<int> {
    let room = less(at_least_one(width), 4);
    if room < LOGO_COLS + LOGO_GAP + MIN_TEXT_COLS {
        None
    } else if room - LOGO_COLS - LOGO_GAP > MAX_TEXT_COLS {
        Some(MAX_TEXT_COLS as int)
    } else {
        Some(room - LOGO_COLS - LOGO_GAP)
    }
}

/// A row of the page: the logo or the space it takes, a gap, and a line of text set
/// in the middle of its columns.
pub open spec fn page_row(text: Seq<LineView>, start: int, cols: nat, i: int) -> LineView {
    let logo = if i == start {
        styled("Aili"@, in_color(Color::DarkGray))
    } else {
        raw(repeated(' ', LOGO_COLS as nat))
    };
    let set = centered_line(text[i], line_cols(text[i]), cols);
    line_of(
        seq![logo, raw(repeated(' ', LOGO_GAP as nat))] + set.spans + (if line_cols(set) < cols {
            seq![raw(repeated(' ', (cols - line_cols(set)) as nat))]
        } else {
            seq![]
        }),
    )
}

/// The rows of the page inside its frame.
pub open spec fn page_rows(text: Seq<LineView>, cols: nat) -> Seq<LineView> {
    Seq::new(
        text.len(),
        |i: int| page_row(text, logo_start(text, 1, text.len() as int), cols, i),
    )
}

/// The page: the small logo beside the text of the card, all in a frame. Where there
/// is no room for both it is the card.
pub open spec fn page<F>(
    cfg: ConfigView<F>,
    version: Seq<char>,
    cwd: Seq<char>,
    width: int,
) -> Seq<LineView> {
    match page_text_cols(width) {
        Some(cols) => in_fitted_frame(
            page_rows(card_content(cfg, version, cwd, cols), cols as nat),
            at_least_one(width),
        ),
        None => card(cfg, version, cwd, at_least_one(width)),
    }
}

fn push_raw(spans: &mut Vec<Span>, n: usize)
    ensures
        span_views(final(spans)@) == span_views(old(spans)@).push(raw(repeated(' ', n as nat))),
{
    push_span(spans, Span::raw(repeat(' ', n)));
}

/// A row of the page.
fn row_of_page(text: &[Line], start: usize, cols: usize, i: usize) -> (r: Line)
    requires
        i < text@.len(),
    ensures
        r@ == page_row(line_views(text@), start as int, cols as nat, i as int),
{
    let ghost all = line_views(text@);
    assert(all[i as int] == text@[i as int]@);
    let mut spans: Vec<Span> = Vec::new();
    if i == start {
        push_span(&mut spans, Span::styled("Aili".to_owned(), Style::fg(Color::DarkGray)));
    } else {
        push_raw(&mut spans, LOGO_COLS);
    }
    push_raw(&mut spans, LOGO_GAP);
    let set = center_line_to_width(&text[i], cols);
    let used = line_width(&set);
    push_spans(&mut spans, set.spans.as_slice());
    if used < cols {
        push_raw(&mut spans, cols - used);
    }
    let r = Line::of(spans);
    assert(r@.spans == page_row(all, start as int, cols as nat, i as int).spans);
    r
}

/// Full welcome page: the small logo on the left, centered vertically next to the
/// text content, all wrapped in a single border.
pub fn welcome_page_lines<F>(app: &App<F>, version: &str, cwd: &str, width: usize) -> (r: Vec<Line>)
    ensures
        line_views(r@) == page(app@.cfg, version@, cwd@, width as int),
{
    let width = if width < 1 {
        1
    } else {
        width
    };
    let logo_lines = logo::lines();
    let logo_w = unicode_str_width(logo_lines[0]);
    proof {
        reveal_strlit("Aili");
    }
    assert(logo_w == LOGO_COLS);
    let inner_width = width.saturating_sub(4);
    if inner_width < logo_w + LOGO_GAP + MIN_TEXT_COLS {
        return welcome_card_lines(app, version, cwd, width);
    }
    let room = inner_width - (logo_w + LOGO_GAP);
    let cols = if room > MAX_TEXT_COLS {
        MAX_TEXT_COLS
    } else {
        room
    };
    let text = welcome_card_content(app, version, cwd, cols);
    let rows = text.len();
    let start = centered_logo_start(text.as_slice(), logo_lines.len(), rows);
    let ghost all = page_rows(line_views(text@), cols as nat);
    let mut combined: Vec<Line> = Vec::new();
    let mut i: usize = 0;
    assert(line_views(combined@) == all.take(0));
    while i < rows
        invariant
            i <= rows == text@.len(),
            all == page_rows(line_views(text@), cols as nat),
            start == logo_start(line_views(text@), 1, rows as int),
            line_views(combined@) == all.take(i as int),
        decreases rows - i,
    {
        push_line(&mut combined, row_of_page(text.as_slice(), start, cols, i));
        assert(all.take(i + 1) == all.take(i as int).push(all[i as int]));
        i += 1;
    }
    assert(all.take(all.len() as int) == all);
    with_border_fit(combined.as_slice(), width)
}

// ───────────────────────────── what holds of the card and the page ─────────────────────────────
/// The text is as wide as there is room, one column at least and seventy-two at most.
pub proof fn law_text_cols(width: int)
    ensures
        1 <= width <= 72 ==> text_cols(width) == width,
        width < 1 ==> text_cols(width) == 1,
        width > 72 ==> text_cols(width) == 72,
{
}

/// The card tells the program and its version, greets the user, and tells the model and
/// the directory, each wrapped to the width and with nothing lost of it, with a blank
/// line after the first, before the model and at the end.
pub proof fn law_card_tells_all<F>(cfg: ConfigView<F>, version: Seq<char>, cwd: Seq<char>, width: int)
    ensures
        ({
            let w = text_cols(width);
            let user = cfg.persona.user_name;
            let greeting = wrapped_block("Welcome back, "@ + user + "!"@, w);
            let model = wrapped_block(cfg.model, w);
            let dir = wrapped_block(cwd, w);
            texts_of_lines(card_content(cfg, version, cwd, width)) == seq![
                "Aili"@ + (" v"@ + version),
                seq![],
            ] + greeting + seq![seq![]] + model + dir + seq![seq![]]
        }),
{
    let w = text_cols(width);
    let user = cfg.persona.user_name;
    let greeting = wrapped_block("Welcome back, "@ + user + "!"@, w);
    let model = wrapped_block(cfg.model, w);
    let dir = wrapped_block(cwd, w);
    let lines = card_content(cfg, version, cwd, width);
    let told = seq!["Aili"@ + (" v"@ + version), seq![]] + greeting + seq![seq![]] + model + dir + seq![
        seq![],
    ];
    let head = lines[0].spans;
    assert(head.drop_last().drop_last() == Seq::<SpanView>::empty());
    assert(spans_text(head.drop_last().drop_last()) == Seq::<char>::empty());
    assert(spans_text(head.drop_last()) == "Aili"@);
    assert(spans_text(head) == "Aili"@ + (" v"@ + version));
    assert(lines.len() == told.len());
    let none = Seq::<char>::empty();
    law_line_says_text(none, plain());
    let g = greeting.len() as int;
    let m = model.len() as int;
    let d = dir.len() as int;
    assert forall|i: int| 0 <= i < lines.len() implies text_of(lines[i]) == told[i] by {
        if i == 0 {
        } else if i == 1 || i == 2 + g || i == lines.len() - 1 {
            assert(lines[i] == plain_line(seq![]));
        } else if i < 2 + g {
            law_line_says_text(greeting[i - 2], in_color(Color::White));
        } else if i < 3 + g + m {
            law_line_says_text(model[i - 3 - g], in_bold(Color::LightCyan));
        } else {
            law_line_says_text(dir[i - 3 - g - m], in_color(Color::DarkGray));
        }
    }
    assert(texts_of_lines(lines) == told);
}

/// The card is its text in a frame with four columns for marks and spaces.
pub proof fn law_card<F>(cfg: ConfigView<F>, version: Seq<char>, cwd: Seq<char>, width: int)
    ensures
        width > 4 ==> card(cfg, version, cwd, width) == in_fitted_frame(
            card_content(cfg, version, cwd, width - 4),
            width,
        ),
        1 <= width <= 4 ==> card(cfg, version, cwd, width) == in_fitted_frame(
            card_content(cfg, version, cwd, 1),
            width,
        ),
        width < 1 ==> card(cfg, version, cwd, width) == card(cfg, version, cwd, 1),
{
}

/// The first and the last line that show anything do so, and none before or after.
pub proof fn law_visible_span(lines: Seq<LineView>)
    ensures
        match visible_span(lines) {
            Some((first, last)) => {
                &&& 0 <= first <= last < lines.len()
                &&& line_cols(lines[first]) > 0
                &&& line_cols(lines[last]) > 0
                &&& forall|i: int|
                    0 <= i < first || last < i < lines.len() ==> line_cols(#[trigger] lines[i]) == 0
            },
            None => forall|i: int| 0 <= i < lines.len() ==> line_cols(#[trigger] lines[i]) == 0,
        },
    decreases lines.len(),
{
    if lines.len() > 0 {
        let rest = lines.drop_last();
        law_visible_span(rest);
        assert forall|i: int| 0 <= i < rest.len() implies #[trigger] lines[i] == rest[i] by {}
        assert(lines[lines.len() - 1] == lines.last());
    }
}

/// The logo stands in the middle of the lines that show anything, as far as it fits.
pub proof fn law_logo_start(lines: Seq<LineView>, logo_lines: int, rows: int)
    requires
        0 < logo_lines <= rows,
    ensures
        0 <= logo_start(lines, logo_lines, rows),
        logo_start(lines, logo_lines, rows) + logo_lines <= rows,
        visible_span(lines) matches Some((first, last)) ==> ({
            let start = (first + last) / 2 - logo_lines / 2;
            0 <= start <= rows - logo_lines ==> logo_start(lines, logo_lines, rows) == start
        }),
{
    law_visible_span(lines);
}

/// A row of the page reads: the small logo in its row and as many spaces in the others,
/// a gap of three columns, the line of text set in the middle, and spaces up to the
/// width.
pub proof fn law_page_row(text: Seq<LineView>, start: int, cols: nat, i: int)
    requires
        0 <= i < text.len(),
    ensures
        ({
            let row = page_row(text, start, cols, i);
            let set = centered_line(text[i], line_cols(text[i]), cols);
            &&& row.spans[0].content == if i == start {
                "Aili"@
            } else {
                repeated(' ', 4)
            }
            &&& row.spans[1].content == repeated(' ', 3)
            &&& row.spans.subrange(2, 2 + set.spans.len() as int) == set.spans
            &&& line_cols(set) >= cols ==> row.spans.len() == 2 + set.spans.len()
            &&& line_cols(set) < cols ==> row.spans.len() == 3 + set.spans.len()
                && row.spans.last().content == repeated(' ', (cols - line_cols(set)) as nat)
        }),
{
}

/// The page has the logo beside the text of the card where there are twenty-five
/// columns for both inside the frame, and is the card where there are not.
pub proof fn law_page<F>(cfg: ConfigView<F>, version: Seq<char>, cwd: Seq<char>, width: int)
    requires
        width > 0,
    ensures
        width < 29 ==> page(cfg, version, cwd, width) == card(cfg, version, cwd, width),
        width >= 29 ==> ({
            let cols = if width - 11 > 72 {
                72
            } else {
                width - 11
            };
            let text = card_content(cfg, version, cwd, cols);
            page(cfg, version, cwd, width) == in_fitted_frame(
                Seq::new(
                    text.len(),
                    |i: int| page_row(text, logo_start(text, 1, text.len() as int), cols as nat, i),
                ),
                width,
            )
        }),
{
    if width >= 29 {
        let cols = if width - 11 > 72 {
            72
        } else {
            width - 11
        };
        let text = card_content(cfg, version, cwd, cols);
        assert(page_rows(text, cols as nat) == Seq::new(
            text.len(),
            |i: int| page_row(text, logo_start(text, 1, text.len() as int), cols as nat, i),
        ));
    }
}

} // verus!
