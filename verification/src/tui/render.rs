//! What the interface shows: messages, bars, the welcome card, and the pages.
use vstd::prelude::*;

use crate::style::{
    in_bold, in_color, line_of, line_views, one_line, plain_line, plain_lines, push_line, push_span,
    span_views, styled, styled_line, styled_lines,
};
use crate::style::{Alignment, Color, Line, LineView, Paragraph, ParagraphView, Span, Style};
use crate::config::PersonaView;
use crate::provider::model_info;
use crate::text::{concat, contains, decimal, lemma_concat_push, repeated, views};
use crate::text::{repeat, same, strip_prefix, to_decimal};
use crate::tui::app::{ui_views, App, AppState, InFlight, Role, UiMessageView};
use crate::tui::fit::spans_text;
use crate::tui::wrap::{keeps_to, lines_within, wrap_text_block, wrapped_block};
use crate::tui::wrap::{
    law_wrap_block_has_lines, law_wrap_block_keeps_text, law_wrap_block_keeps_to_width,
    law_wrap_block_of_one_paragraph, law_wrap_leaves_what_fits,
};
use crate::width::cols;

verus! {

// ───────────────────────────── messages ─────────────────────────────
/// Adds each text as a line of its own in no style.
fn push_plain_lines(lines: &mut Vec<Line>, texts: &[String])
    ensures
        line_views(final(lines)@) == line_views(old(lines)@) + plain_lines(views(texts@)),
{
    let ghost was = line_views(lines@);
    let ghost all = plain_lines(views(texts@));
    let mut i: usize = 0;
    assert(was + all.take(0) == was);
    while i < texts.len()
        invariant
            i <= texts@.len(),
            all == plain_lines(views(texts@)),
            line_views(lines@) == was + all.take(i as int),
        decreases texts@.len() - i,
    {
        push_line(lines, Line::raw(texts[i].clone()));
        assert((was + all.take(i as int)).push(all[i as int]) == was + all.take(i + 1));
        i += 1;
    }
    assert(all.take(all.len() as int) == all);
}

/// Adds each text as a line of its own in a style.
pub fn push_styled_lines(lines: &mut Vec<Line>, texts: &[String], style: Style)
    ensures
        line_views(final(lines)@) == line_views(old(lines)@) + styled_lines(views(texts@), style),
{
    let ghost was = line_views(lines@);
    let ghost all = styled_lines(views(texts@), style);
    let mut i: usize = 0;
    assert(was + all.take(0) == was);
    while i < texts.len()
        invariant
            i <= texts@.len(),
            all == styled_lines(views(texts@), style),
            line_views(lines@) == was + all.take(i as int),
        decreases texts@.len() - i,
    {
        push_line(lines, Line::styled(texts[i].clone(), style));
        assert((was + all.take(i as int)).push(all[i as int]) == was + all.take(i + 1));
        i += 1;
    }
    assert(all.take(all.len() as int) == all);
}

/// A message: who says it, the text in lines, and a blank line.
pub open spec fn message_lines(
    name: Seq<char>,
    text: Seq<char>,
    width: nat,
    color: Color,
) -> Seq<LineView> {
    seq![styled_line(name, in_bold(color))] + plain_lines(wrapped_block(text, width)) + seq![
        plain_line(seq![]),
    ]
}

fn lines_of_message(name: &str, text: &str, width: usize, color: Color) -> (r: Vec<Line>)
    ensures
        line_views(r@) == message_lines(name@, text@, width as nat, color),
{
    let mut out: Vec<Line> = Vec::new();
    push_line(&mut out, Line::styled(name.to_owned(), Style::bold(color)));
    assert(line_views(out@) == seq![styled_line(name@, in_bold(color))]);
    let texts = wrap_text_block(text, width);
    push_plain_lines(&mut out, texts.as_slice());
    push_line(&mut out, Line::blank());
    assert(line_views(out@) == message_lines(name@, text@, width as nat, color));
    out
}

/// A message of the user for terminal scrollback.
pub fn user_message_lines(user_name: &str, text: &str, width: usize) -> (r: Vec<Line>)
    ensures
        line_views(r@) == message_lines(user_name@, text@, width as nat, Color::Green),
{
    lines_of_message(user_name, text, width, Color::Green)
}

/// A message of the assistant for terminal scrollback.
pub fn assistant_message_lines(assistant_name: &str, text: &str, width: usize) -> (r: Vec<Line>)
    ensures
        line_views(r@) == message_lines(assistant_name@, text@, width as nat, Color::Cyan),
{
    lines_of_message(assistant_name, text, width, Color::Cyan)
}

/// A note, and a blank line.
pub open spec fn noted(note: Seq<char>) -> Seq<LineView> {
    seq![
        line_of(
            seq![
                styled("· "@, in_color(Color::DarkGray)),
                styled(note, in_color(Color::DarkGray)),
            ],
        ),
        plain_line(seq![]),
    ]
}

/// A note for terminal scrollback.
pub fn note_lines(note: &str) -> (r: Vec<Line>)
    ensures
        line_views(r@) == noted(note@),
{
    let mut spans: Vec<Span> = Vec::new();
    push_span(&mut spans, Span::styled("· ".to_owned(), Style::fg(Color::DarkGray)));
    push_span(&mut spans, Span::styled(note.to_owned(), Style::fg(Color::DarkGray)));
    let line = Line::of(spans);
    assert(line@.spans == noted(note@)[0].spans);
    let mut out: Vec<Line> = Vec::new();
    push_line(&mut out, line);
    push_line(&mut out, Line::blank());
    assert(line_views(out@) == noted(note@));
    out
}

/// The last `n` of a run of lines.
pub open spec fn last_lines(lines: Seq<LineView>, n: int) -> Seq<LineView> {
    if lines.len() <= n {
        lines
    } else {
        lines.skip(lines.len() - n)
    }
}

/// The last `max_len` lines.
pub fn trim_to_visible(lines: Vec<Line>, max_len: usize) -> (r: Vec<Line>)
    ensures
        line_views(r@) == last_lines(line_views(lines@), max_len as int),
{
    if lines.len() <= max_len {
        return lines;
    }
    let skip = lines.len() - max_len;
    let ghost kept = line_views(lines@).skip(skip as int);
    let mut out: Vec<Line> = Vec::new();
    let mut i: usize = skip;
    assert(line_views(out@) == kept.take(0));
    while i < lines.len()
        invariant
            skip <= i <= lines@.len(),
            kept == line_views(lines@).skip(skip as int),
            line_views(out@) == kept.take(i - skip),
        decreases lines@.len() - i,
    {
        push_line(&mut out, lines[i].clone());
        assert(kept.take(i - skip).push(kept[i - skip]) == kept.take(i + 1 - skip));
        i += 1;
    }
    assert(kept.take(kept.len() as int) == kept);
    out
}

// ───────────────────────────── bars ─────────────────────────────
/// A line across.
pub open spec fn divider_view() -> ParagraphView {
    one_line(styled_line(repeated('─', 2048), in_color(Color::Gray)), Alignment::Left)
}

/// A line across.
pub fn divider() -> (r: Paragraph)
    ensures
        r@ == divider_view(),
{
    Paragraph::of_line(Line::styled(repeat('─', 2048), Style::fg(Color::Gray)), Alignment::Left)
}

/// What stands before the text that the user types.
pub open spec fn prompt_view() -> ParagraphView {
    one_line(styled_line(">"@, in_bold(Color::LightCyan)), Alignment::Left)
}

/// What stands before the text that the user types.
pub fn input_prompt() -> (r: Paragraph)
    ensures
        r@ == prompt_view(),
{
    Paragraph::of_line(
        Line::styled(">".to_owned(), Style::bold(Color::LightCyan)),
        Alignment::Left,
    )
}

/// A directory as it is shown: `~` stands for the home directory, `?` for one that
/// is not known.
pub open spec fn shown_dir(cwd: Option<Seq<char>>, home: Option<Seq<char>>) -> Seq<char> {
    let dir = match cwd {
        Some(d) => d,
        None => "?"@,
    };
    match home {
        Some(h) => if dir == h {
            "~"@
        } else if crate::text::has_prefix(dir, h + "/"@) {
            "~/"@ + dir.skip((h + "/"@).len() as int)
        } else {
            dir
        },
        None => dir,
    }
}

/// The current directory as it is shown.
pub fn pretty_cwd(cwd: Option<String>, home: Option<String>) -> (r: String)
    ensures
        r@ == shown_dir(crate::config::opt_view(cwd), crate::config::opt_view(home)),
{
    let dir = match cwd {
        Some(d) => d,
        None => "?".to_owned(),
    };
    match home {
        Some(h) => {
            if same(dir.as_str(), h.as_str()) {
                return "~".to_owned();
            }
            let mut prefix = h;
            prefix.append("/");
            match strip_prefix(dir.as_str(), prefix.as_str()) {
                Some(rest) => {
                    let mut s = "~/".to_owned();
                    s.append(rest.as_str());
                    s
                },
                None => dir,
            }
        },
        None => dir,
    }
}

// ───────────────────────────── history ─────────────────────────────
/// Who said the last message that has text.
pub open spec fn last_shown(history: Seq<UiMessageView>) -> Option<Role>
    decreases history.len(),
{
    if history.len() == 0 {
        None
    } else if history.last().text.len() == 0 {
        last_shown(history.drop_last())
    } else {
        Some(history.last().role)
    }
}

/// A message on the full screen: who says it, and the text in lines.
pub open spec fn spoken(m: UiMessageView, persona: PersonaView, width: nat) -> Seq<LineView> {
    let (name, color) = match m.role {
        Role::User => (persona.user_name, Color::Green),
        Role::Assistant => (persona.assistant_name, Color::Cyan),
    };
    seq![styled_line(name + " >"@, in_bold(color))] + styled_lines(
        wrapped_block(m.text, width),
        in_color(Color::White),
    )
}

/// The messages that have text, with a blank line wherever the speaker changes.
pub open spec fn history_lines(history: Seq<UiMessageView>, persona: PersonaView, width: nat) -> Seq<
    LineView,
>
    decreases history.len(),
{
    if history.len() == 0 {
        seq![]
    } else {
        let rest = history.drop_last();
        let m = history.last();
        let lines = history_lines(rest, persona, width);
        if m.text.len() == 0 {
            lines
        } else {
            let spacer = if last_shown(rest) is Some && last_shown(rest) != Some(m.role) {
                seq![plain_line(seq![])]
            } else {
                seq![]
            };
            lines + spacer + spoken(m, persona, width)
        }
    }
}

/// No line of text is wider than `width`, where that is eight columns or more; the
/// bold lines with the names are left out.
pub open spec fn text_within(lines: Seq<LineView>, width: nat) -> bool {
    forall|i: int|
        0 <= i < lines.len() ==> {
            ||| (#[trigger] lines[i]).spans.len() > 0 && lines[i].spans[0].style.bold
            ||| cols(text_of(lines[i])) <= width
            ||| cols(text_of(lines[i])) <= 8
        }
}

proof fn lemma_within_add(a: Seq<LineView>, b: Seq<LineView>, width: nat)
    requires
        text_within(a, width),
        b.len() == 0 || text_within(b, width) || b == seq![plain_line(seq![])],
    ensures
        text_within(a + b, width),
{
    law_line_says_text(seq![], in_color(Color::White));
    assert(cols(Seq::<char>::empty()) == 0);
    assert forall|i: int| 0 <= i < (a + b).len() implies {
        ||| (#[trigger] (a + b)[i]).spans.len() > 0 && (a + b)[i].spans[0].style.bold
        ||| cols(text_of((a + b)[i])) <= width
        ||| cols(text_of((a + b)[i])) <= 8
    } by {
        if i < a.len() {
            assert((a + b)[i] == a[i]);
        } else {
            assert((a + b)[i] == b[i - a.len()]);
        }
    }
}

proof fn lemma_spoken_within(
    m: UiMessageView,
    persona: PersonaView,
    width: nat,
    texts: Seq<Seq<char>>,
)
    requires
        texts == wrapped_block(m.text, width),
        lines_within(texts, width),
    ensures
        text_within(spoken(m, persona, width), width),
{
    let lines = spoken(m, persona, width);
    assert forall|i: int| 0 <= i < lines.len() implies {
        ||| (#[trigger] lines[i]).spans.len() > 0 && lines[i].spans[0].style.bold
        ||| cols(text_of(lines[i])) <= width
        ||| cols(text_of(lines[i])) <= 8
    } by {
        if i > 0 {
            law_line_says_text(texts[i - 1], in_color(Color::White));
            assert(cols(texts[i - 1]) <= width || cols(texts[i - 1]) <= 8);
        }
    }
}

/// The lines of the message history on the full screen.
pub fn build_message_lines<F>(app: &App<F>, width: usize) -> (r: Vec<Line>)
    ensures
        line_views(r@) == history_lines(app@.history, app@.cfg.persona, width as nat),
        text_within(line_views(r@), width as nat),
{
    let ghost all = app@.history;
    let ghost persona = app@.cfg.persona;
    let mut lines: Vec<Line> = Vec::new();
    let mut last_role: Option<Role> = None;
    let mut i: usize = 0;
    assert(line_views(lines@) == history_lines(all.take(0), persona, width as nat));
    while i < app.history.len()
        invariant
            i <= app.history@.len(),
            all == ui_views(app.history@),
            persona == app@.cfg.persona,
            last_role == last_shown(all.take(i as int)),
            line_views(lines@) == history_lines(all.take(i as int), persona, width as nat),
            text_within(line_views(lines@), width as nat),
        decreases app.history@.len() - i,
    {
        let ghost rest = all.take(i as int);
        let ghost done = line_views(lines@);
        assert(all.take(i + 1).drop_last() == rest);
        assert(all.take(i + 1).last() == app.history@[i as int]@);
        let msg = &app.history[i];
        if !msg.text.as_str().is_empty() {
            let spaced = match last_role {
                Some(prev) => prev != msg.role,
                None => false,
            };
            let ghost spacer = if spaced {
                seq![plain_line(seq![])]
            } else {
                seq![]
            };
            if spaced {
                push_line(&mut lines, Line::blank());
            }
            assert(line_views(lines@) == done + spacer);
            last_role = Some(msg.role);
            let (mut name, color) = match msg.role {
                Role::User => (app.cfg.persona.user_name.clone(), Color::Green),
                Role::Assistant => (app.cfg.persona.assistant_name.clone(), Color::Cyan),
            };
            name.append(" >");
            push_line(&mut lines, Line::styled(name, Style::bold(color)));
            let texts = wrap_text_block(msg.text.as_str(), width);
            push_styled_lines(&mut lines, texts.as_slice(), Style::fg(Color::White));
            assert(line_views(lines@) == done + spacer + spoken(msg@, persona, width as nat));
            proof {
                lemma_spoken_within(msg@, persona, width as nat, views(texts@));
                lemma_within_add(done, spacer, width as nat);
                lemma_within_add(
                    done + spacer,
                    spoken(msg@, persona, width as nat),
                    width as nat,
                );
            }
        }
        i += 1;
    }
    assert(all.take(all.len() as int) == all);
    lines
}

/// The message history as far as its end fits.
pub fn message_history<F>(app: &App<F>, width: usize, height: usize) -> (r: Paragraph)
    ensures
        ({
            let lines = history_lines(app@.history, app@.cfg.persona, width as nat);
            r@ == ParagraphView {
                lines: if height > 0 {
                    last_lines(lines, height as int)
                } else {
                    lines
                },
                alignment: Alignment::Left,
            }
        }),
{
    let lines = build_message_lines(app, width);
    let visible = if height > 0 {
        trim_to_visible(lines, height)
    } else {
        lines
    };
    Paragraph { lines: visible, alignment: Alignment::Left }
}

/// What is shown of a reply on its way, as far as its end fits.
pub open spec fn live<F>(s: AppState<F>, width: nat, height: int) -> ParagraphView {
    ParagraphView {
        lines: last_lines(
            if s.in_flight is Some && s.reply().len() > 0 {
                message_lines(s.cfg.persona.assistant_name, s.reply(), width, Color::Cyan)
            } else {
                seq![]
            },
            height,
        ),
        alignment: Alignment::Left,
    }
}

/// What is shown of a reply on its way, as far as its end fits.
pub fn live_view<F>(app: &App<F>, width: usize, height: usize) -> (r: Paragraph)
    ensures
        r@ == live(app@, width as nat, height as int),
{
    let n = app.history.len();
    assert(app@.history.len() == n);
    let mut lines: Vec<Line> = Vec::new();
    assert(line_views(lines@) == Seq::<LineView>::empty());
    if app.in_flight.is_some() && n > 0 && app.history[n - 1].role == Role::Assistant
        && !app.history[n - 1].text.as_str().is_empty() {
        lines = assistant_message_lines(
            app.cfg.persona.assistant_name.as_str(),
            app.history[n - 1].text.as_str(),
            width,
        );
    }
    Paragraph { lines: trim_to_visible(lines, height), alignment: Alignment::Left }
}

// ───────────────────────────── state bars ─────────────────────────────
/// What the bars show besides the state: the moment, the directory as it is shown,
/// and numbers with one decimal as text. These are thousands of tokens in the
/// context, seconds since the reply was asked for, and thousands of tokens that the
/// reply is estimated at.
#[derive(Debug)]
pub struct Surroundings {
    pub now: u64,
    pub cwd: String,
    pub context_kilo: String,
    pub elapsed: String,
    pub reply_kilo: String,
}

/// What surroundings hold.
pub struct SurroundingsView {
    pub now: u64,
    pub cwd: Seq<char>,
    pub context_kilo: Seq<char>,
    pub elapsed: Seq<char>,
    pub reply_kilo: Seq<char>,
}

impl View for Surroundings {
    type V = SurroundingsView;

    open spec fn view(&self) -> SurroundingsView {
        SurroundingsView {
            now: self.now,
            cwd: self.cwd@,
            context_kilo: self.context_kilo@,
            elapsed: self.elapsed@,
            reply_kilo: self.reply_kilo@,
        }
    }
}

/// The larger of two numbers.
pub open spec fn larger(a: usize, b: usize) -> usize {
    if a >= b {
        a
    } else {
        b
    }
}

/// The tokens in the context and how many fit, as far as any turn told.
pub open spec fn context_of<F>(s: AppState<F>) -> (usize, usize) {
    match s.in_flight {
        Some(f) => (
            larger(f.context_tokens, s.last_context_tokens),
            larger(f.context_limit, s.last_context_limit),
        ),
        None => (s.last_context_tokens, s.last_context_limit),
    }
}

/// The tokens in the context and how many fit, as far as any turn told.
pub fn context_usage<F>(app: &App<F>) -> (r: (usize, usize))
    ensures
        r == context_of(app@),
{
    match app.in_flight {
        Some(f) => (
            if f.context_tokens >= app.last_context_tokens {
                f.context_tokens
            } else {
                app.last_context_tokens
            },
            if f.context_limit >= app.last_context_limit {
                f.context_limit
            } else {
                app.last_context_limit
            },
        ),
        None => (app.last_context_tokens, app.last_context_limit),
    }
}

/// The share of the context in use, in percent and below a hundred.
pub open spec fn percent(tokens: int, limit: int) -> int {
    if tokens * 100 / limit <= 99 {
        tokens * 100 / limit
    } else {
        99
    }
}

/// A bar of ten marks, as many of them full as there are tens of percent, rounded.
pub open spec fn usage_bar(pct: int) -> Seq<char> {
    Seq::new(
        10,
        |i: int|
            if i < (pct + 5) / 10 {
                '█'
            } else {
                '░'
            },
    )
}

/// A bar of ten marks, as many of them full as there are tens of percent, rounded.
pub fn progress_bar(pct: usize) -> (r: String)
    requires
        pct <= 100,
    ensures
        r@ == usage_bar(pct as int),
{
    let filled = (pct + 5) / 10;
    let mut s = String::new();
    let mut i: usize = 0;
    assert(s@ == usage_bar(pct as int).take(0));
    while i < 10
        invariant
            i <= 10,
            filled == (pct + 5) / 10,
            s@ == usage_bar(pct as int).take(i as int),
        decreases 10 - i,
    {
        let ghost bar = usage_bar(pct as int);
        if i < filled {
            s.push('█');
        } else {
            s.push('░');
        }
        assert(bar.take(i + 1) == bar.take(i as int).push(bar[i as int]));
        i += 1;
    }
    assert(usage_bar(pct as int).take(10) == usage_bar(pct as int));
    s
}

/// The share of the context in use, in percent and below a hundred.
pub fn usage_percent(tokens: usize, limit: usize) -> (r: usize)
    requires
        limit > 0,
    ensures
        r == percent(tokens as int, limit as int),
{
    let pct: u128 = tokens as u128 * 100 / limit as u128;
    if pct <= 99 {
        pct as usize
    } else {
        99
    }
}

/// The name of a model, for the user.
pub open spec fn model_name(model: Seq<char>) -> Seq<char> {
    if contains(model, "pro"@) {
        "DeepSeek V4 Pro"@
    } else {
        "DeepSeek V4 Flash"@
    }
}

/// The parts of the info bar, all in gray: model and directory; then, once any
/// turn has told, how full the context is; and while a reply is on its way, since
/// when.
pub open spec fn info_parts<F>(s: AppState<F>, env: SurroundingsView) -> Seq<Seq<char>> {
    let (tokens, limit) = context_of(s);
    let base = seq![model_name(s.cfg.model), "  ·  "@, env.cwd];
    if limit > 0 && tokens > 0 {
        let amount = if tokens >= 1000 {
            env.context_kilo + "K"@
        } else {
            decimal(tokens as nat)
        };
        let usage = "  ·  "@ + usage_bar(percent(tokens as int, limit as int)) + "  "@ + amount
            + " / 1M tokens"@;
        if s.in_flight is Some {
            base.push(usage).push("  ·  "@ + env.elapsed + "s"@)
        } else {
            base.push(usage)
        }
    } else {
        base
    }
}

/// The info bar.
pub open spec fn info_view<F>(s: AppState<F>, env: SurroundingsView) -> ParagraphView {
    one_line(
        line_of(
            info_parts(s, env).map_values(|t: Seq<char>| styled(t, in_color(Color::Gray))),
        ),
        Alignment::Center,
    )
}

fn push_gray(spans: &mut Vec<Span>, text: String)
    ensures
        span_views(final(spans)@) == span_views(old(spans)@).push(
            styled(text@, in_color(Color::Gray)),
        ),
{
    push_span(spans, Span::styled(text, Style::fg(Color::Gray)));
}

/// The info bar: model, directory, how full the context is, and since when a reply
/// is on its way.
pub fn info_bar<F>(app: &App<F>, env: &Surroundings) -> (r: Paragraph)
    ensures
        r@ == info_view(app@, env@),
{
    let mut spans: Vec<Span> = Vec::new();
    push_gray(&mut spans, model_info(app.cfg.model.as_str()).name.to_owned());
    push_gray(&mut spans, "  ·  ".to_owned());
    push_gray(&mut spans, env.cwd.clone());
    let (tokens, limit) = context_usage(app);
    if limit > 0 && tokens > 0 {
        let mut s = "  ·  ".to_owned();
        let pct = usage_percent(tokens, limit);
        s.append(progress_bar(pct).as_str());
        s.append("  ");
        let mut amount = if tokens >= 1000 {
            env.context_kilo.clone()
        } else {
            to_decimal(tokens as u64)
        };
        if tokens >= 1000 {
            amount.append("K");
        }
        s.append(amount.as_str());
        s.append(" / 1M tokens");
        push_gray(&mut spans, s);
        if app.in_flight.is_some() {
            let mut t = "  ·  ".to_owned();
            t.append(env.elapsed.as_str());
            t.append("s");
            push_gray(&mut spans, t);
        }
    }
    let line = Line::of(spans);
    assert(line@.spans == info_parts(app@, env@).map_values(
        |t: Seq<char>| styled(t, in_color(Color::Gray)),
    ));
    Paragraph::of_line(line, Alignment::Center)
}

/// The status message where there is one, else the info bar.
pub open spec fn status_view<F>(s: AppState<F>, env: SurroundingsView) -> ParagraphView {
    match s.status {
        Some((msg, _)) => one_line(styled_line(msg, in_color(Color::Yellow)), Alignment::Left),
        None => info_view(s, env),
    }
}

/// The status message where there is one, else the info bar.
pub fn info_or_status<F>(app: &App<F>, env: &Surroundings) -> (r: Paragraph)
    ensures
        r@ == status_view(app@, env@),
{
    match &app.status_msg {
        Some((msg, _)) => Paragraph::of_line(
            Line::styled(msg.clone(), Style::fg(Color::Yellow)),
            Alignment::Left,
        ),
        None => info_bar(app, env),
    }
}

/// The marks that the spinner goes through.
pub open spec fn spinner_mark(i: int) -> Seq<char> {
    if i == 0 {
        "✶"@
    } else if i == 1 || i == 5 {
        "✸"@
    } else if i == 2 || i == 4 {
        "✹"@
    } else {
        "✺"@
    }
}

/// A number below a hundred in two digits.
pub open spec fn two_digits(n: nat) -> Seq<char> {
    if n < 10 {
        "0"@ + decimal(n)
    } else {
        decimal(n)
    }
}

/// A time in seconds, for the user.
pub open spec fn time_text(secs: nat) -> Seq<char> {
    if secs / 60 > 0 {
        decimal(secs / 60) + "m "@ + two_digits(secs % 60) + "s"@
    } else {
        decimal(secs) + "s"@
    }
}

/// The nanoseconds from one moment to another, none where it comes before.
pub open spec fn nanos_between(from: u64, to: u64) -> nat {
    if to >= from {
        (to - from) as nat
    } else {
        0
    }
}

/// The spinner: a mark that changes every eighty milliseconds, the time since the
/// reply was asked for, and how much has come. Without a reply on its way it is
/// empty.
pub open spec fn spinner_view<F>(s: AppState<F>, env: SurroundingsView) -> ParagraphView {
    match s.in_flight {
        Some(f) => {
            let nanos = nanos_between(f.started, env.now);
            one_line(
                line_of(
                    seq![
                        styled(
                            spinner_mark((nanos / 1_000_000 / 80 % 6) as int) + " "@,
                            in_color(Color::LightCyan),
                        ),
                        styled("Calculating…"@, in_color(Color::LightCyan)),
                        styled(
                            " ("@ + time_text(nanos / 1_000_000_000) + " · ↓ "@ + env.reply_kilo
                                + "k tokens)"@,
                            in_color(Color::Gray),
                        ),
                    ],
                ),
                Alignment::Left,
            )
        },
        None => one_line(plain_line(seq![]), Alignment::Left),
    }
}

/// A time in seconds, for the user.
pub fn format_time(secs: u64) -> (r: String)
    ensures
        r@ == time_text(secs as nat),
{
    let mins = secs / 60;
    if mins > 0 {
        let mut s = to_decimal(mins);
        s.append("m ");
        if secs % 60 < 10 {
            s.append("0");
        }
        s.append(to_decimal(secs % 60).as_str());
        s.append("s");
        assert(s@ == time_text(secs as nat));
        s
    } else {
        let mut s = to_decimal(secs);
        s.append("s");
        s
    }
}

/// The spinner of a reply on its way.
pub fn spinner_line<F>(app: &App<F>, env: &Surroundings) -> (r: Paragraph)
    ensures
        r@ == spinner_view(app@, env@),
{
    let f = match app.in_flight {
        Some(f) => f,
        None => {
            return Paragraph::of_line(Line::blank(), Alignment::Left);
        },
    };
    let nanos: u64 = env.now.saturating_sub(f.started);
    let frame: u64 = nanos / 1_000_000 / 80 % 6;
    let mut mark = (match frame {
        0 => "✶",
        1 => "✸",
        2 => "✹",
        3 => "✺",
        4 => "✹",
        _ => "✸",
    }).to_owned();
    mark.append(" ");
    let mut told = " (".to_owned();
    told.append(format_time(nanos / 1_000_000_000).as_str());
    told.append(" · ↓ ");
    told.append(env.reply_kilo.as_str());
    told.append("k tokens)");
    let mut spans: Vec<Span> = Vec::new();
    push_span(&mut spans, Span::styled(mark, Style::fg(Color::LightCyan)));
    push_span(&mut spans, Span::styled("Calculating…".to_owned(), Style::fg(Color::LightCyan)));
    push_span(&mut spans, Span::styled(told, Style::fg(Color::Gray)));
    let line = Line::of(spans);
    assert(line@.spans == spinner_view(app@, env@).lines[0].spans);
    Paragraph::of_line(line, Alignment::Left)
}

// ───────────────────────────── what holds of messages ─────────────────────────────
/// The text of a line.
pub open spec fn text_of(line: LineView) -> Seq<char> {
    spans_text(line.spans)
}

/// The texts of lines.
pub open spec fn texts_of_lines(lines: Seq<LineView>) -> Seq<Seq<char>> {
    lines.map_values(|l: LineView| text_of(l))
}

/// A line of text says that text, whatever its style.
pub proof fn law_line_says_text(text: Seq<char>, style: Style)
    ensures
        text_of(styled_line(text, style)) == text,
        text_of(plain_line(text)) == text,
{
    let one = seq![styled(text, style)];
    let none = Seq::<crate::style::SpanView>::empty();
    assert(one.drop_last() == none);
    assert(spans_text(none) == Seq::<char>::empty());
    assert(spans_text(one) == text);
    let bare = seq![styled(text, crate::style::plain())];
    assert(bare.drop_last() == none);
    assert(spans_text(bare) == text);
    assert(text.len() == 0 ==> text == Seq::<char>::empty());
}

proof fn lemma_lines_say(texts: Seq<Seq<char>>, style: Style)
    ensures
        texts_of_lines(styled_lines(texts, style)) == texts,
        texts_of_lines(plain_lines(texts)) == texts,
{
    assert forall|i: int| 0 <= i < texts.len() implies texts_of_lines(styled_lines(texts, style))[i]
        == texts[i] && texts_of_lines(plain_lines(texts))[i] == texts[i] by {
        law_line_says_text(texts[i], style);
    }
}

/// A message in the history is shown in full and to the width: after a line with the
/// speaker's name, the lines put one after the other are its text without its line
/// feeds, they are the text wrapped to the width, and each keeps to it.
pub proof fn law_message_is_shown_in_full(m: UiMessageView, persona: PersonaView, width: nat)
    requires
        width > 0,
    ensures
        ({
            let lines = spoken(m, persona, width);
            let said = texts_of_lines(lines.skip(1));
            &&& lines.len() > 1
            &&& text_of(lines[0]) == (if m.role == Role::User {
                persona.user_name
            } else {
                persona.assistant_name
            }) + " >"@
            &&& concat(said) == m.text.filter(|c: char| c != '\n')
            &&& said == wrapped_block(m.text, width)
            &&& forall|i: int| 0 <= i < said.len() ==> keeps_to(#[trigger] said[i], width)
            &&& cols(m.text) <= width && !m.text.contains('\n') ==> said == seq![m.text]
        }),
{
    let texts = wrapped_block(m.text, width);
    let lines = spoken(m, persona, width);
    lemma_lines_say(texts, in_color(Color::White));
    assert(lines.skip(1) == styled_lines(texts, in_color(Color::White)));
    let name = if m.role == Role::User {
        persona.user_name
    } else {
        persona.assistant_name
    };
    law_line_says_text(name + " >"@, in_bold(Color::Green));
    law_line_says_text(name + " >"@, in_bold(Color::Cyan));
    law_wrap_block_keeps_text(m.text, width);
    law_wrap_block_keeps_to_width(m.text, width);
    law_wrap_block_has_lines(m.text, width);
    if cols(m.text) <= width && !m.text.contains('\n') {
        law_wrap_block_of_one_paragraph(m.text, width);
        law_wrap_leaves_what_fits(m.text, width);
    }
}

/// Who spoke last: the message before which only messages without text follow.
pub proof fn law_last_shown(history: Seq<UiMessageView>, i: int)
    requires
        0 <= i < history.len(),
        history[i].text.len() > 0,
        forall|j: int| i < j < history.len() ==> (#[trigger] history[j]).text.len() == 0,
    ensures
        last_shown(history) == Some(history[i].role),
    decreases history.len(),
{
    if i < history.len() - 1 {
        let rest = history.drop_last();
        assert forall|j: int| i < j < rest.len() implies (#[trigger] rest[j]).text.len() == 0 by {
            assert(rest[j] == history[j]);
        }
        assert(history[history.len() - 1].text.len() == 0);
        law_last_shown(rest, i);
    }
}

/// The history is shown message by message, in order: a message with text adds itself
/// at the end, after a blank line where someone else spoke before, and one without
/// adds nothing.
pub proof fn law_history_shows_all(
    history: Seq<UiMessageView>,
    m: UiMessageView,
    persona: PersonaView,
    width: nat,
)
    ensures
        history_lines(seq![], persona, width).len() == 0,
        m.text.len() == 0 ==> history_lines(history.push(m), persona, width) == history_lines(
            history,
            persona,
            width,
        ),
        m.text.len() > 0 ==> history_lines(history.push(m), persona, width) == history_lines(
            history,
            persona,
            width,
        ) + (if last_shown(history) is Some && last_shown(history)->0 != m.role {
            seq![plain_line(seq![])]
        } else {
            seq![]
        }) + spoken(m, persona, width),
{
    assert(history.push(m).drop_last() == history);
}

/// A message in the scrollback is shown in full and to the width: the name, the text
/// wrapped to the width with nothing lost but its line feeds, and a blank line.
pub proof fn law_scrollback_message(name: Seq<char>, text: Seq<char>, width: nat, color: Color)
    requires
        width > 0,
    ensures
        ({
            let lines = message_lines(name, text, width, color);
            let said = texts_of_lines(lines.subrange(1, lines.len() - 1));
            &&& lines.len() > 2
            &&& lines[0] == styled_line(name, in_bold(color))
            &&& text_of(lines[0]) == name
            &&& text_of(lines.last()).len() == 0
            &&& concat(said) == text.filter(|c: char| c != '\n')
            &&& said == wrapped_block(text, width)
            &&& forall|i: int| 0 <= i < said.len() ==> keeps_to(#[trigger] said[i], width)
        }),
{
    let texts = wrapped_block(text, width);
    let lines = message_lines(name, text, width, color);
    lemma_lines_say(texts, in_color(color));
    law_wrap_block_has_lines(text, width);
    assert(lines.subrange(1, lines.len() - 1) == plain_lines(texts));
    law_line_says_text(name, in_bold(color));
    law_line_says_text(seq![], in_bold(color));
    law_wrap_block_keeps_text(text, width);
    law_wrap_block_keeps_to_width(text, width);
}

/// A note says its text after a dot, and a blank line follows.
pub proof fn law_note(note: Seq<char>)
    ensures
        noted(note).len() == 2,
        text_of(noted(note)[0]) == "· "@ + note,
        text_of(noted(note)[1]).len() == 0,
{
    let spans = noted(note)[0].spans;
    let first = spans.drop_last();
    assert(first.drop_last() == Seq::<crate::style::SpanView>::empty());
    assert(spans_text(first.drop_last()) == Seq::<char>::empty());
    assert(spans_text(first) == "· "@);
    assert(spans_text(spans) == "· "@ + note);
    law_line_says_text(seq![], in_color(Color::DarkGray));
}

/// The last lines are the end of what there is: all of it where it fits, else as many
/// lines as there is room for.
pub proof fn law_last_lines(lines: Seq<LineView>, n: int)
    requires
        0 <= n,
    ensures
        lines.len() <= n ==> last_lines(lines, n) == lines,
        lines.len() > n ==> last_lines(lines, n) == lines.subrange(
            lines.len() - n,
            lines.len() as int,
        ),
{
}

/// What is shown of a reply on its way is the end of the reply as it will stand in the
/// scrollback; without a reply or without text nothing is shown.
pub proof fn law_live_reply<F>(s: AppState<F>, width: nat, height: int)
    requires
        0 <= height,
    ensures
        ({
            let shown = live(s, width, height).lines;
            let all = message_lines(
                s.cfg.persona.assistant_name,
                s.history.last().text,
                width,
                Color::Cyan,
            );
            let talks = s.in_flight is Some && s.history.len() > 0 && s.history.last().role
                == Role::Assistant && s.history.last().text.len() > 0;
            &&& !talks ==> shown.len() == 0
            &&& talks && all.len() <= height ==> shown == all
            &&& talks && all.len() > height ==> shown == all.skip(all.len() - height)
        }),
{
}

// ───────────────────────────── what holds of the bars ─────────────────────────────
/// The home directory is shown as `~`, what is in it after `~/`, and any other
/// directory as it is; a directory that is not known is a question mark.
pub proof fn law_shown_dir(dir: Seq<char>, home: Seq<char>, rest: Seq<char>)
    ensures
        shown_dir(Some(home), Some(home)) == "~"@,
        shown_dir(Some(home + "/"@ + rest), Some(home)) == "~/"@ + rest,
        shown_dir(Some(dir), None) == dir,
        dir != home && !(home + "/"@).is_prefix_of(dir) ==> shown_dir(Some(dir), Some(home)) == dir,
        shown_dir(None, None) == "?"@,
{
    reveal_strlit("/");
    let inner = home + "/"@ + rest;
    let start = home + "/"@;
    assert(inner.len() > home.len());
    assert(inner.subrange(0, start.len() as int) == start);
    assert(inner.skip(start.len() as int) == rest);
    if crate::text::has_prefix(dir, start) {
        assert(dir.subrange(0, start.len() as int) == start);
        assert(start.is_prefix_of(dir));
    }
}

/// The context is what any turn told: never less than the last turn or the one on its
/// way said, and one of the two.
pub proof fn law_context<F>(s: AppState<F>)
    ensures
        ({
            let (tokens, limit) = context_of(s);
            &&& s.in_flight is None ==> tokens == s.last_context_tokens && limit
                == s.last_context_limit
            &&& s.in_flight matches Some(f) ==> {
                &&& tokens >= f.context_tokens && tokens >= s.last_context_tokens
                &&& tokens == f.context_tokens || tokens == s.last_context_tokens
                &&& limit >= f.context_limit && limit >= s.last_context_limit
                &&& limit == f.context_limit || limit == s.last_context_limit
            }
        }),
{
}

/// The percentage is the whole part of the share in use, and ninety-nine at most.
pub proof fn law_percent(tokens: int, limit: int)
    requires
        0 <= tokens,
        0 < limit,
    ensures
        ({
            let p = percent(tokens, limit);
            &&& 0 <= p <= 99
            &&& p * limit <= tokens * 100
            &&& p < 99 ==> tokens * 100 < (p + 1) * limit
        }),
{
    let q = tokens * 100 / limit;
    let p = percent(tokens, limit);
    vstd::arithmetic::div_mod::lemma_fundamental_div_mod(tokens * 100, limit);
    let rest = (tokens * 100) % limit;
    assert(0 <= rest < limit);
    assert(tokens * 100 == q * limit + rest) by (nonlinear_arith)
        requires
            tokens * 100 == limit * q + rest,
    ;
    assert(q >= 0) by (nonlinear_arith)
        requires
            tokens * 100 == q * limit + rest,
            0 <= tokens,
            0 <= rest < limit,
    ;
    assert(p * limit <= q * limit) by (nonlinear_arith)
        requires
            p <= q,
            0 < limit,
    ;
    assert((q + 1) * limit == q * limit + limit) by (nonlinear_arith);
}

/// The bar has ten marks, full ones before empty ones; mark `i` is full where the
/// percentage is at least half way to the next ten.
pub proof fn law_usage_bar(pct: int, i: int)
    requires
        0 <= pct <= 100,
        0 <= i < 10,
    ensures
        usage_bar(pct).len() == 10,
        10 * i + 5 <= pct ==> usage_bar(pct)[i] == '█',
        10 * i + 5 > pct ==> usage_bar(pct)[i] == '░',
{
}

/// The model in the bar goes by its name: with `pro` in it, it is the large one.
pub proof fn law_model_name(before: Seq<char>, after: Seq<char>, other: Seq<char>)
    ensures
        model_name(before + "pro"@ + after) == "DeepSeek V4 Pro"@,
        !contains(other, "pro"@) ==> model_name(other) == "DeepSeek V4 Flash"@,
{
    let s = before + "pro"@ + after;
    let at = before.len() as int;
    assert(s.subrange(at, at + "pro"@.len()) == "pro"@);
    assert(crate::text::occurs_at(s, "pro"@, at));
}

/// The info bar reads: the model, the directory, then once a turn has told, the bar, the
/// tokens and their limit, and while a reply is on its way the seconds.
pub proof fn law_info_bar_reads<F>(s: AppState<F>, env: SurroundingsView)
    ensures
        ({
            let (tokens, limit) = context_of(s);
            let start = model_name(s.cfg.model) + "  ·  "@ + env.cwd;
            let amount = if tokens >= 1000 {
                env.context_kilo + "K"@
            } else {
                decimal(tokens as nat)
            };
            let usage = "  ·  "@ + usage_bar(percent(tokens as int, limit as int)) + "  "@ + amount
                + " / 1M tokens"@;
            let since = "  ·  "@ + env.elapsed + "s"@;
            &&& concat(info_parts(s, env)) == if limit == 0 || tokens == 0 {
                start
            } else if s.in_flight is Some {
                start + usage + since
            } else {
                start + usage
            }
            &&& info_view(s, env).lines.len() == 1
            &&& texts_of_spans(info_view(s, env).lines[0].spans) == info_parts(s, env)
        }),
{
    let parts = info_parts(s, env);
    let base = seq![model_name(s.cfg.model), "  ·  "@, env.cwd];
    let one = base.drop_last();
    let name = one.drop_last();
    assert(name.drop_last() == Seq::<Seq<char>>::empty());
    assert(concat(name.drop_last()) == Seq::<char>::empty());
    assert(concat(name) == model_name(s.cfg.model));
    assert(concat(one) == model_name(s.cfg.model) + "  ·  "@);
    assert(concat(base) == model_name(s.cfg.model) + "  ·  "@ + env.cwd);
    let (tokens, limit) = context_of(s);
    let amount = if tokens >= 1000 {
        env.context_kilo + "K"@
    } else {
        decimal(tokens as nat)
    };
    let usage = "  ·  "@ + usage_bar(percent(tokens as int, limit as int)) + "  "@ + amount
        + " / 1M tokens"@;
    let since = "  ·  "@ + env.elapsed + "s"@;
    lemma_concat_push(base, usage);
    lemma_concat_push(base.push(usage), since);
    assert(texts_of_spans(info_view(s, env).lines[0].spans) == parts);
}

/// The texts of spans.
pub open spec fn texts_of_spans(spans: Seq<crate::style::SpanView>) -> Seq<Seq<char>> {
    spans.map_values(|p: crate::style::SpanView| p.content)
}

/// A status message stands in for the info bar.
pub proof fn law_status_goes_first<F>(s: AppState<F>, env: SurroundingsView)
    ensures
        s.status matches Some((msg, _)) ==> status_view(s, env).lines.len() == 1 && text_of(
            status_view(s, env).lines[0],
        ) == msg,
        s.status is None ==> status_view(s, env) == info_view(s, env),
{
    match s.status {
        Some((msg, _)) => law_line_says_text(msg, in_color(Color::Yellow)),
        None => {},
    }
}

/// A time below a minute is its seconds; from a minute on it is the minutes, and the
/// seconds in two digits.
pub proof fn law_time_text(minutes: nat, seconds: nat)
    requires
        seconds < 60,
    ensures
        minutes == 0 ==> time_text(seconds) == decimal(seconds) + "s"@,
        minutes > 0 ==> time_text(60 * minutes + seconds) == decimal(minutes) + "m "@ + (
        if seconds < 10 {
            "0"@ + decimal(seconds)
        } else {
            decimal(seconds)
        }) + "s"@,
{
    assert((60 * minutes + seconds) / 60 == minutes);
    assert((60 * minutes + seconds) % 60 == seconds);
}

/// The spinner reads: a mark that changes every eighty milliseconds, `Calculating…`, the
/// time since the reply was asked for and how much has come.
pub proof fn law_spinner_reads<F>(s: AppState<F>, env: SurroundingsView, f: InFlight)
    requires
        s.in_flight == Some(f),
        f.started <= env.now,
    ensures
        ({
            let nanos = (env.now - f.started) as nat;
            let frame = nanos / 80_000_000 % 6;
            let spans = spinner_view(s, env).lines[0].spans;
            &&& spans.len() == 3
            &&& spans[0].content == (if frame == 0 {
                "✶"@
            } else if frame == 1 {
                "✸"@
            } else if frame == 2 {
                "✹"@
            } else if frame == 3 {
                "✺"@
            } else if frame == 4 {
                "✹"@
            } else {
                "✸"@
            }) + " "@
            &&& spans[1].content == "Calculating…"@
            &&& spans[2].content == " ("@ + time_text(nanos / 1_000_000_000) + " · ↓ "@
                + env.reply_kilo + "k tokens)"@
        }),
{
    let nanos = (env.now - f.started) as nat;
    assert(nanos / 1_000_000 / 80 == nanos / 80_000_000);
}

/// The prompt is a mark, and the line across is wider than any screen.
pub proof fn law_prompt_and_divider()
    ensures
        prompt_view().lines.len() == 1,
        text_of(prompt_view().lines[0]) == ">"@,
        divider_view().lines.len() == 1,
        text_of(divider_view().lines[0]) == repeated('─', 2048),
{
    law_line_says_text(">"@, in_bold(Color::LightCyan));
    law_line_says_text(repeated('─', 2048), in_color(Color::Gray));
}

} // verus!
