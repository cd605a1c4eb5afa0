//! Making lines fit: their widths, cutting, centering and framing.
use vstd::prelude::*;

use crate::style::{
    clone_spans, in_color, line_of, line_views, plain, push_line, push_span, span_views,
    styled, styled_line,
};
use crate::style::{Color, Line, LineView, Span, SpanView, Style};
use crate::text::{is_control, repeat, repeated};
use crate::tui::paint::visible_char;
use crate::width::{char_cols, char_width, cols, str_columns, unicode_str_width};

verus! {

/// The width of a run of spans: that of each by itself.
pub open spec fn spans_cols(spans: Seq<SpanView>) -> nat
    decreases spans.len(),
{
    if spans.len() == 0 {
        0
    } else {
        spans_cols(spans.drop_last()) + str_columns(spans.last().content) as nat
    }
}

/// The width of a line.
pub open spec fn line_cols(line: LineView) -> nat {
    spans_cols(line.spans)
}

/// The text of a run of spans.
pub open spec fn spans_text(spans: Seq<SpanView>) -> Seq<char>
    decreases spans.len(),
{
    if spans.len() == 0 {
        seq![]
    } else {
        spans_text(spans.drop_last()) + spans.last().content
    }
}

/// The number of characters of a line.
pub open spec fn chars_in(line: LineView) -> nat {
    spans_text(line.spans).len()
}

/// No line has more characters than `n`.
pub open spec fn no_longer(lines: Seq<LineView>, n: nat) -> bool {
    forall|i: int| 0 <= i < lines.len() ==> chars_in(#[trigger] lines[i]) <= n
}

/// A number held back at the last that a machine has.
pub open spec fn held(n: nat) -> usize {
    if n <= usize::MAX {
        n as usize
    } else {
        usize::MAX
    }
}

/// The width of a line in columns, held back at the last number there is.
pub fn line_width(line: &Line) -> (r: usize)
    ensures
        r == held(line_cols(line@)),
        r <= 3 * spans_text(line@.spans).len(),
{
    let ghost spans = line@.spans;
    let mut sum: usize = 0;
    let mut i: usize = 0;
    while i < line.spans.len()
        invariant
            i <= line.spans@.len(),
            spans == span_views(line.spans@),
            sum == held(spans_cols(spans.take(i as int))),
            sum <= 3 * spans_text(spans.take(i as int)).len(),
        decreases line.spans@.len() - i,
    {
        assert(spans.take(i + 1).drop_last() == spans.take(i as int));
        assert(spans[i as int] == line.spans@[i as int]@);
        sum = sum.saturating_add(unicode_str_width(line.spans[i].content.as_str()));
        i += 1;
    }
    assert(spans.take(spans.len() as int) == spans);
    sum
}

/// The width of the widest of a run of lines.
pub open spec fn widest(lines: Seq<LineView>) -> nat
    decreases lines.len(),
{
    if lines.len() == 0 {
        0
    } else {
        let rest = widest(lines.drop_last());
        if line_cols(lines.last()) > rest {
            line_cols(lines.last())
        } else {
            rest
        }
    }
}

/// The width of the widest of a run of lines, held back at the last number there
/// is.
pub fn widest_line(lines: &[Line]) -> (r: usize)
    ensures
        r == held(widest(line_views(lines@))),
        forall|n: nat| #[trigger] no_longer(line_views(lines@), n) ==> r <= 3 * n,
{
    let ghost all = line_views(lines@);
    let mut most: usize = 0;
    let mut i: usize = 0;
    while i < lines.len()
        invariant
            i <= lines@.len(),
            all == line_views(lines@),
            most == held(widest(all.take(i as int))),
            forall|n: nat| #[trigger] no_longer(all, n) ==> most <= 3 * n,
        decreases lines@.len() - i,
    {
        assert(all.take(i + 1).drop_last() == all.take(i as int));
        assert(all[i as int] == lines@[i as int]@);
        let w = line_width(&lines[i]);
        assert(w <= 3 * chars_in(all[i as int]));
        if w > most {
            most = w;
        }
        i += 1;
    }
    assert(all.take(all.len() as int) == all);
    most
}

// ───────────────────────────── cutting ─────────────────────────────
/// Characters from the front on, and the columns that are left. It stops before the
/// first character that is too wide for what is left: then nothing is left.
pub open spec fn taken(text: Seq<char>, room: int) -> (Seq<char>, Option<int>)
    decreases text.len(),
{
    if text.len() == 0 {
        (seq![], Some(room))
    } else {
        let (done, left) = taken(text.drop_last(), room);
        let c = text.last();
        match left {
            Some(left) => if !visible_char(c) {
                (done, Some(left))
            } else if char_cols(c) > left {
                (done, None)
            } else {
                (done.push(c), Some(left - char_cols(c)))
            },
            None => (done, None),
        }
    }
}

/// A span of its own unless it is empty.
pub open spec fn unless_empty(text: Seq<char>, style: Style) -> Seq<SpanView> {
    if text.len() == 0 {
        seq![]
    } else {
        seq![styled(text, style)]
    }
}

/// Spans from the front on, cut where the room ends.
pub open spec fn taken_spans(spans: Seq<SpanView>, room: int) -> (Seq<SpanView>, Option<int>)
    decreases spans.len(),
{
    if spans.len() == 0 {
        (seq![], Some(room))
    } else {
        let (done, left) = taken_spans(spans.drop_last(), room);
        match left {
            Some(left) => {
                let (text, rest) = taken(spans.last().content, left);
                (done + unless_empty(text, spans.last().style), rest)
            },
            None => (done, None),
        }
    }
}

/// A line cut to a width. What cannot be seen is left out.
pub open spec fn fitted(line: LineView, width: int) -> LineView {
    line_of(taken_spans(line.spans, width).0)
}

/// Takes characters from the front of a text. The second part of the result is the
/// columns that are left, `None` where the text does not all fit.
fn take_text(text: &str, room: usize) -> (r: (String, Option<usize>))
    ensures
        ({
            let (kept, left) = taken(text@, room as int);
            &&& r.0@ == kept
            &&& match r.1 {
                Some(n) => left == Some(n as int),
                None => left is None,
            }
        }),
{
    let mut kept = String::new();
    let mut left: usize = room;
    let mut fits = true;
    assert(kept@ == taken(text@.take(0), room as int).0);
    for c in it: text.chars()
        invariant
            it.seq() == text@,
            kept@ == taken(text@.take(it.index() as int), room as int).0,
            taken(text@.take(it.index() as int), room as int).1 == if fits {
                Some(left as int)
            } else {
                None
            },
    {
        assert(text@.take(it.index() + 1).drop_last() == text@.take(it.index() as int));
        if fits && !is_control(c) {
            let w = char_width(c);
            if w > 0 {
                if w > left {
                    fits = false;
                } else {
                    kept.push(c);
                    left = left - w;
                }
            }
        }
    }
    assert(text@.take(text@.len() as int) == text@);
    if fits {
        (kept, Some(left))
    } else {
        (kept, None)
    }
}

/// Text cut to a width. What cannot be seen is left out.
pub fn fit_text_to_width(text: &str, width: usize) -> (r: String)
    ensures
        r@ == taken(text@, width as int).0,
{
    take_text(text, width).0
}

/// A line cut to a width. What cannot be seen is left out.
pub fn fit_line_to_width(line: &Line, width: usize) -> (r: Line)
    ensures
        r@ == fitted(line@, width as int),
{
    let ghost all = line@.spans;
    let mut spans: Vec<Span> = Vec::new();
    let mut left: Option<usize> = Some(width);
    let mut i: usize = 0;
    assert(span_views(spans@) == taken_spans(all.take(0), width as int).0);
    while i < line.spans.len()
        invariant
            i <= line.spans@.len(),
            all == span_views(line.spans@),
            span_views(spans@) == taken_spans(all.take(i as int), width as int).0,
            match left {
                Some(n) => taken_spans(all.take(i as int), width as int).1 == Some(n as int),
                None => taken_spans(all.take(i as int), width as int).1 is None,
            },
        decreases line.spans@.len() - i,
    {
        assert(all.take(i + 1).drop_last() == all.take(i as int));
        assert(all[i as int] == line.spans@[i as int]@);
        match left {
            Some(n) => {
                let ghost done = span_views(spans@);
                let (text, rest) = take_text(line.spans[i].content.as_str(), n);
                left = rest;
                if !text.as_str().is_empty() {
                    let style = line.spans[i].style;
                    push_span(&mut spans, Span::styled(text, style));
                }
                assert(span_views(spans@) == done + unless_empty(text@, all[i as int].style));
            },
            None => {},
        }
        i += 1;
    }
    assert(all.take(all.len() as int) == all);
    Line::of(spans)
}

/// Cut text is no wider than it may be, shows only what can be seen, and is a
/// beginning of the text; all of it is there where it fits.
pub proof fn law_cut_text(text: Seq<char>, room: int)
    requires
        room >= 0,
    ensures
        ({
            let (kept, left) = taken(text, room);
            let seen = text.filter(|c: char| visible_char(c));
            &&& cols(kept) <= room
            &&& kept.is_prefix_of(seen)
            &&& left matches Some(n) ==> kept == seen && n == room - cols(kept)
            &&& left is None ==> cols(seen) > room
        }),
    decreases text.len(),
{
    reveal(Seq::filter);
    let (kept, left) = taken(text, room);
    let seen = text.filter(|c: char| visible_char(c));
    if text.len() > 0 {
        let c = text.last();
        let before = text.drop_last().filter(|c: char| visible_char(c));
        law_cut_text(text.drop_last(), room);
        let (done, at) = taken(text.drop_last(), room);
        if visible_char(c) {
            assert(seen == before.push(c));
            assert(seen.drop_last() == before);
        }
        if at is Some && visible_char(c) && char_cols(c) <= at->0 {
            assert(kept.drop_last() == done);
        }
    }
}

/// Cutting twice is cutting once.
pub proof fn law_cut_again(text: Seq<char>, room: int)
    requires
        room >= 0,
    ensures
        taken(taken(text, room).0, room).0 == taken(text, room).0,
{
    law_cut_text(text, room);
    let kept = taken(text, room).0;
    let seen = text.filter(|c: char| visible_char(c));
    assert forall|i: int| 0 <= i < kept.len() implies visible_char(#[trigger] kept[i]) by {
        broadcast use vstd::seq_lib::group_filter_ensures;

        assert(kept[i] == seen[i]);
    }
    lemma_takes_all(kept, room);
}

proof fn lemma_takes_all(text: Seq<char>, room: int)
    requires
        forall|i: int| 0 <= i < text.len() ==> visible_char(#[trigger] text[i]),
        cols(text) <= room,
    ensures
        taken(text, room) == (text, Some(room - cols(text))),
    decreases text.len(),
{
    if text.len() > 0 {
        assert forall|i: int| 0 <= i < text.drop_last().len() implies visible_char(
            #[trigger] text.drop_last()[i],
        ) by {
            assert(text.drop_last()[i] == text[i]);
        }
        assert(visible_char(text[text.len() - 1]));
        lemma_takes_all(text.drop_last(), room);
        assert(text.drop_last().push(text.last()) == text);
    } else {
        assert(taken(text, room).0 == text);
    }
}

/// A cut line is no wider than it may be, whatever the width of its spans.
pub proof fn law_cut_line(line: LineView, width: int)
    requires
        width >= 0,
    ensures
        cols(spans_text(fitted(line, width).spans)) <= width,
{
    lemma_cut_spans(line.spans, width);
}

proof fn lemma_cols_add(a: Seq<char>, b: Seq<char>)
    ensures
        cols(a + b) == cols(a) + cols(b),
    decreases b.len(),
{
    if b.len() == 0 {
        assert(a + b == a);
    } else {
        lemma_cols_add(a, b.drop_last());
        assert((a + b).drop_last() == a + b.drop_last());
    }
}

proof fn lemma_cut_spans(spans: Seq<SpanView>, room: int)
    requires
        room >= 0,
    ensures
        ({
            let (kept, left) = taken_spans(spans, room);
            &&& cols(spans_text(kept)) <= room
            &&& left matches Some(n) ==> n == room - cols(spans_text(kept))
        }),
    decreases spans.len(),
{
    if spans.len() > 0 {
        lemma_cut_spans(spans.drop_last(), room);
        let (done, left) = taken_spans(spans.drop_last(), room);
        match left {
            Some(n) => {
                let (text, rest) = taken(spans.last().content, n);
                let more = unless_empty(text, spans.last().style);
                law_cut_text(spans.last().content, n);
                lemma_cols_add(spans_text(done), text);
                if text.len() == 0 {
                    assert(done + more == done);
                    assert(spans_text(done) + text == spans_text(done));
                } else {
                    assert((done + more).drop_last() == done);
                }
            },
            None => {},
        }
    }
}

// ───────────────────────────── centering ─────────────────────────────
/// A span of spaces, none at all for no width.
pub open spec fn spaces(n: nat) -> Seq<SpanView> {
    unless_empty(repeated(' ', n), plain())
}

/// A line set in the middle of a width; one that is wider is left as it is.
pub open spec fn centered_line(line: LineView, used: nat, width: nat) -> LineView {
    if used >= width {
        line
    } else {
        let left = ((width - used) / 2) as nat;
        line_of(spaces(left) + line.spans + spaces((width - used - left) as nat))
    }
}

/// A copy of a line.
pub fn owned_line(line: &Line) -> (r: Line)
    ensures
        r@ == line@,
{
    line.clone()
}

/// Adds spaces, if any.
pub fn push_spaces(spans: &mut Vec<Span>, n: usize)
    ensures
        span_views(final(spans)@) == span_views(old(spans)@) + spaces(n as nat),
{
    if n > 0 {
        push_span(spans, Span::raw(repeat(' ', n)));
    }
    assert(span_views(spans@) == span_views(old(spans)@) + spaces(n as nat));
}

/// Adds a copy of each span.
pub fn push_spans(spans: &mut Vec<Span>, more: &[Span])
    ensures
        span_views(final(spans)@) == span_views(old(spans)@) + span_views(more@),
{
    let ghost was = spans@;
    let mut copy = clone_spans(more);
    let ghost copied = copy@;
    spans.append(&mut copy);
    assert(spans@ == was + copied);
    assert(span_views(spans@) == span_views(was) + span_views(copied));
}

/// Sets a line that is `used` columns wide in the middle of a width.
pub fn center_line(line: &Line, used: usize, width: usize) -> (r: Line)
    ensures
        r@ == centered_line(line@, used as nat, width as nat),
{
    if used >= width {
        return owned_line(line);
    }
    let left = (width - used) / 2;
    let right = width - used - left;
    let mut spans: Vec<Span> = Vec::new();
    push_spaces(&mut spans, left);
    push_spans(&mut spans, line.spans.as_slice());
    push_spaces(&mut spans, right);
    assert(span_views(spans@) == spaces(left as nat) + line@.spans + spaces(right as nat));
    Line::of(spans)
}

/// Sets a line in the middle of a width.
pub fn center_line_to_width(line: &Line, width: usize) -> (r: Line)
    ensures
        r@ == centered_line(line@, line_cols(line@), width as nat),
{
    center_line(line, line_width(line), width)
}

// ───────────────────────────── framing ─────────────────────────────
/// The style of a frame.
pub open spec fn frame_style() -> Style {
    in_color(Color::DarkGray)
}

/// The upper or lower edge of a frame around `n` columns.
pub open spec fn edge(left: char, right: char, n: nat) -> LineView {
    styled_line(seq![left] + repeated('─', n) + seq![right], frame_style())
}

/// A row of a frame: what is `used` columns wide, filled up to the width of the
/// content.
pub open spec fn framed_row(spans: Seq<SpanView>, used: nat, content: nat) -> LineView {
    line_of(
        seq![styled("│ "@, frame_style())] + spans + (if used < content {
            seq![styled(repeated(' ', (content - used) as nat), frame_style())]
        } else {
            seq![]
        }) + seq![styled(" │"@, frame_style())],
    )
}

/// Rows between the edges of a frame around content of a width.
pub open spec fn framed(rows: Seq<LineView>, content: nat) -> Seq<LineView> {
    seq![edge('╭', '╮', content + 2)] + rows + seq![edge('╰', '╯', content + 2)]
}

/// Lines in a frame as wide as the widest.
pub open spec fn in_frame(lines: Seq<LineView>) -> Seq<LineView> {
    framed(
        lines.map_values(|l: LineView| framed_row(l.spans, line_cols(l), widest(lines))),
        widest(lines),
    )
}

/// The width of the content of a frame that is at most `width` wide.
pub open spec fn content_cols(lines: Seq<LineView>, width: int) -> nat {
    if widest(lines) <= width - 4 {
        widest(lines)
    } else {
        (width - 4) as nat
    }
}

/// A row of a frame with a line cut to the width of the content.
pub open spec fn fitted_row(line: LineView, content: nat) -> LineView {
    let cut = fitted(line, content as int);
    framed_row(cut.spans, line_cols(cut), content)
}

/// Lines in a frame at most `width` wide, cut where they are wider. Where not even a
/// frame fits there is none.
pub open spec fn in_fitted_frame(lines: Seq<LineView>, width: int) -> Seq<LineView> {
    if width < 4 {
        lines.map_values(|l: LineView| fitted(l, width))
    } else {
        let content = content_cols(lines, width);
        framed(lines.map_values(|l: LineView| fitted_row(l, content)), content)
    }
}

/// A frame keeps to its width: its edges are as long as the content with a mark and
/// a space on both sides, which is not more than the width, and what stands between
/// is no wider than the content.
pub proof fn law_frame_keeps_width(lines: Seq<LineView>, width: int)
    requires
        width >= 4,
    ensures
        ({
            let frame = in_fitted_frame(lines, width);
            let content = content_cols(lines, width);
            &&& frame.len() == lines.len() + 2
            &&& chars_in(frame.first()) == content + 4
            &&& chars_in(frame.last()) == content + 4
            &&& content + 4 <= width
            &&& forall|i: int|
                0 <= i < lines.len() ==> #[trigger] frame[i + 1] == fitted_row(lines[i], content)
                    && cols(spans_text(fitted(lines[i], content as int).spans)) <= content
        }),
{
    let content = content_cols(lines, width);
    let top = edge('╭', '╮', content + 2);
    let bottom = edge('╰', '╯', content + 2);
    let frame = in_fitted_frame(lines, width);
    assert(spans_text(Seq::<SpanView>::empty()).len() == 0);
    assert(top.spans.drop_last() == Seq::<SpanView>::empty());
    assert(bottom.spans.drop_last() == Seq::<SpanView>::empty());
    assert(frame.first() == top);
    assert(frame.last() == bottom);
    assert forall|i: int| 0 <= i < lines.len() implies cols(
        spans_text(fitted(#[trigger] lines[i], content as int).spans),
    ) <= content by {
        law_cut_line(lines[i], content as int);
    }
}

fn edge_line(left: char, right: char, n: usize) -> (r: Line)
    ensures
        r@ == edge(left, right, n as nat),
{
    let mut s = String::new();
    s.push(left);
    assert(s@ == seq![left]);
    s.append(repeat('─', n).as_str());
    s.push(right);
    assert(s@ == seq![left] + repeated('─', n as nat) + seq![right]);
    Line::styled(s, Style::fg(Color::DarkGray))
}

/// A row of a frame around a line that is `used` columns wide.
pub fn frame_row(line: &Line, used: usize, content: usize) -> (r: Line)
    ensures
        r@ == framed_row(line@.spans, used as nat, content as nat),
{
    let border = Style::fg(Color::DarkGray);
    let mut spans: Vec<Span> = Vec::new();
    push_span(&mut spans, Span::styled("│ ".to_owned(), border));
    push_spans(&mut spans, line.spans.as_slice());
    if used < content {
        push_span(&mut spans, Span::styled(repeat(' ', content - used), border));
    }
    push_span(&mut spans, Span::styled(" │".to_owned(), border));
    let r = Line::of(spans);
    assert(r@.spans == framed_row(line@.spans, used as nat, content as nat).spans);
    r
}

/// Puts lines into a frame as wide as the widest.
pub fn with_border(lines: &[Line]) -> (r: Vec<Line>)
    requires
        no_longer(line_views(lines@), (usize::MAX / 3 - 1) as nat),
    ensures
        line_views(r@) == in_frame(line_views(lines@)),
{
    let ghost all = line_views(lines@);
    let content = widest_line(lines);
    assert(content + 3 <= usize::MAX);
    let ghost rows = all.map_values(
        |l: LineView| framed_row(l.spans, line_cols(l), widest(all)),
    );
    let ghost top = seq![edge('╭', '╮', (content + 2) as nat)];
    let mut out: Vec<Line> = Vec::new();
    push_line(&mut out, edge_line('╭', '╮', content + 2));
    assert(line_views(out@) == top + rows.take(0));
    let mut i: usize = 0;
    while i < lines.len()
        invariant
            i <= lines@.len(),
            all == line_views(lines@),
            content == widest(all),
            no_longer(all, (usize::MAX / 3 - 1) as nat),
            content + 3 <= usize::MAX,
            rows == all.map_values(|l: LineView| framed_row(l.spans, line_cols(l), widest(all))),
            line_views(out@) == top + rows.take(i as int),
        decreases lines@.len() - i,
    {
        let used = line_width(&lines[i]);
        assert(all[i as int] == lines@[i as int]@);
        push_line(&mut out, frame_row(&lines[i], used, content));
        assert((top + rows.take(i as int)).push(rows[i as int]) == top + rows.take(i + 1));
        i += 1;
    }
    push_line(&mut out, edge_line('╰', '╯', content + 2));
    assert(line_views(out@) == in_frame(all));
    out
}

/// Puts lines into a frame at most `width` wide, cut where they are wider. Where not
/// even a frame fits there is none.
pub fn with_border_fit(lines: &[Line], width: usize) -> (r: Vec<Line>)
    ensures
        line_views(r@) == in_fitted_frame(line_views(lines@), width as int),
{
    let ghost all = line_views(lines@);
    let mut out: Vec<Line> = Vec::new();
    let mut i: usize = 0;
    if width < 4 {
        let ghost rows = all.map_values(|l: LineView| fitted(l, width as int));
        assert(line_views(out@) == rows.take(0));
        while i < lines.len()
            invariant
                i <= lines@.len(),
                all == line_views(lines@),
                rows == all.map_values(|l: LineView| fitted(l, width as int)),
                line_views(out@) == rows.take(i as int),
            decreases lines@.len() - i,
        {
            assert(all[i as int] == lines@[i as int]@);
            push_line(&mut out, fit_line_to_width(&lines[i], width));
            assert(rows.take(i as int).push(rows[i as int]) == rows.take(i + 1));
            i += 1;
        }
        assert(rows.take(rows.len() as int) == rows);
        return out;
    }
    let most = widest_line(lines);
    let content = if most <= width - 4 {
        most
    } else {
        width - 4
    };
    assert(content == content_cols(all, width as int));
    let ghost rows = all.map_values(|l: LineView| fitted_row(l, content as nat));
    let ghost top = seq![edge('╭', '╮', (content + 2) as nat)];
    push_line(&mut out, edge_line('╭', '╮', content + 2));
    assert(line_views(out@) == top + rows.take(0));
    while i < lines.len()
        invariant
            i <= lines@.len(),
            all == line_views(lines@),
            content <= usize::MAX - 4,
            rows == all.map_values(|l: LineView| fitted_row(l, content as nat)),
            line_views(out@) == top + rows.take(i as int),
        decreases lines@.len() - i,
    {
        assert(all[i as int] == lines@[i as int]@);
        let cut = fit_line_to_width(&lines[i], content);
        let used = line_width(&cut);
        let row = frame_row(&cut, used, content);
        assert(row@ == rows[i as int]);
        push_line(&mut out, row);
        assert((top + rows.take(i as int)).push(rows[i as int]) == top + rows.take(i + 1));
        i += 1;
    }
    push_line(&mut out, edge_line('╰', '╯', content + 2));
    assert(line_views(out@) == in_fitted_frame(all, width as int));
    out
}

// ───────────────────────────── what holds of cutting and framing ─────────────────────────────
/// Text is cut as late as can be: the next character that can be seen would not have
/// fitted.
pub proof fn law_cut_is_greedy(text: Seq<char>, room: int)
    requires
        room >= 0,
    ensures
        ({
            let (kept, left) = taken(text, room);
            let seen = text.filter(|c: char| visible_char(c));
            left is None ==> kept.len() < seen.len() && cols(kept) + char_cols(seen[kept.len() as int])
                > room
        }),
    decreases text.len(),
{
    reveal(Seq::filter);
    if text.len() > 0 {
        let rest = text.drop_last();
        let c = text.last();
        let before = rest.filter(|c: char| visible_char(c));
        law_cut_is_greedy(rest, room);
        law_cut_text(rest, room);
        let (done, at) = taken(rest, room);
        if at is None {
            let seen = text.filter(|c: char| visible_char(c));
            assert(seen[done.len() as int] == before[done.len() as int]);
        }
    }
}

proof fn lemma_spans_text_add(a: Seq<SpanView>, b: Seq<SpanView>)
    ensures
        spans_text(a + b) == spans_text(a) + spans_text(b),
    decreases b.len(),
{
    if b.len() == 0 {
        assert(a + b == a);
        assert(spans_text(a) + spans_text(b) == spans_text(a));
    } else {
        lemma_spans_text_add(a, b.drop_last());
        assert((a + b).drop_last() == a + b.drop_last());
        assert(spans_text(a + b) == spans_text(a) + spans_text(b));
    }
}

proof fn lemma_one_span(text: Seq<char>, style: Style)
    ensures
        spans_text(seq![styled(text, style)]) == text,
        spans_text(unless_empty(text, style)) == text,
{
    let one = seq![styled(text, style)];
    let none = Seq::<SpanView>::empty();
    assert(one.drop_last() == none);
    assert(spans_text(none) == Seq::<char>::empty());
    assert(spans_text(one) == text);
    assert(text.len() == 0 ==> text == Seq::<char>::empty());
}

proof fn lemma_cut_spans_show(spans: Seq<SpanView>, room: int)
    requires
        room >= 0,
    ensures
        ({
            let (kept, left) = taken_spans(spans, room);
            let shown = spans_text(kept);
            let seen = spans_text(spans).filter(|c: char| visible_char(c));
            &&& shown.is_prefix_of(seen)
            &&& left is Some ==> shown == seen
            &&& left is None ==> shown.len() < seen.len() && cols(shown) + char_cols(
                seen[shown.len() as int],
            ) > room
        }),
    decreases spans.len(),
{
    let vis = |c: char| visible_char(c);
    if spans.len() == 0 {
        reveal(Seq::filter);
        assert(spans_text(taken_spans(spans, room).0) == spans_text(spans).filter(vis));
    } else {
        let rest = spans.drop_last();
        let content = spans.last().content;
        lemma_cut_spans_show(rest, room);
        lemma_cut_spans(rest, room);
        Seq::filter_distributes_over_add(spans_text(rest), content, vis);
        let before = spans_text(rest).filter(vis);
        let own = content.filter(vis);
        let seen = spans_text(spans).filter(vis);
        assert(seen == before + own);
        let (done, left) = taken_spans(rest, room);
        match left {
            Some(n) => {
                let (text, end) = taken(content, n);
                law_cut_text(content, n);
                law_cut_is_greedy(content, n);
                lemma_one_span(text, spans.last().style);
                lemma_spans_text_add(done, unless_empty(text, spans.last().style));
                let shown = spans_text(done) + text;
                lemma_cols_add(spans_text(done), text);
                assert(shown.is_prefix_of(seen));
                if end is None {
                    assert(seen[shown.len() as int] == own[text.len() as int]);
                }
            },
            None => {
                let shown = spans_text(done);
                assert(seen[shown.len() as int] == before[shown.len() as int]);
            },
        }
    }
}

/// A cut line shows what can be seen of the line from its start on, all of it where it
/// fits, and is cut as late as can be.
pub proof fn law_cut_line_shows_text(line: LineView, width: int)
    requires
        width >= 0,
    ensures
        ({
            let shown = spans_text(fitted(line, width).spans);
            let seen = spans_text(line.spans).filter(|c: char| visible_char(c));
            &&& shown.is_prefix_of(seen)
            &&& shown == seen || cols(shown) + char_cols(seen[shown.len() as int]) > width
        }),
{
    lemma_cut_spans_show(line.spans, width);
}

/// A row of a frame reads: a mark, the text, spaces up to the width of the content, and
/// a mark.
pub proof fn law_framed_row(spans: Seq<SpanView>, used: nat, content: nat)
    ensures
        spans_text(framed_row(spans, used, content).spans) == "│ "@ + spans_text(spans) + (
        if used < content {
            repeated(' ', (content - used) as nat)
        } else {
            seq![]
        }) + " │"@,
{
    let left = seq![styled("│ "@, frame_style())];
    let right = seq![styled(" │"@, frame_style())];
    let fill = if used < content {
        seq![styled(repeated(' ', (content - used) as nat), frame_style())]
    } else {
        seq![]
    };
    lemma_one_span("│ "@, frame_style());
    lemma_one_span(" │"@, frame_style());
    lemma_one_span(repeated(' ', (content - used) as nat), frame_style());
    lemma_spans_text_add(left, spans);
    lemma_spans_text_add(left + spans, fill);
    lemma_spans_text_add(left + spans + fill, right);
    assert(spans_text(Seq::<SpanView>::empty()) == Seq::<char>::empty());
}

/// A frame has its rows between two edges with round corners, drawn across the content
/// and the space on both sides of it.
pub proof fn law_framed(rows: Seq<LineView>, content: nat)
    ensures
        framed(rows, content).len() == rows.len() + 2,
        spans_text(framed(rows, content).first().spans) == seq!['╭'] + repeated('─', content + 2)
            + seq!['╮'],
        spans_text(framed(rows, content).last().spans) == seq!['╰'] + repeated('─', content + 2)
            + seq!['╯'],
        framed(rows, content).subrange(1, rows.len() as int + 1) == rows,
{
    lemma_one_span(seq!['╭'] + repeated('─', content + 2) + seq!['╮'], frame_style());
    lemma_one_span(seq!['╰'] + repeated('─', content + 2) + seq!['╯'], frame_style());
}

/// The widest of lines is as wide as one of them, and none is wider.
pub proof fn law_widest(lines: Seq<LineView>)
    ensures
        forall|i: int| 0 <= i < lines.len() ==> line_cols(#[trigger] lines[i]) <= widest(lines),
        lines.len() > 0 ==> exists|i: int|
            0 <= i < lines.len() && line_cols(#[trigger] lines[i]) == widest(lines),
    decreases lines.len(),
{
    if lines.len() > 0 {
        let rest = lines.drop_last();
        law_widest(rest);
        assert(lines[lines.len() - 1] == lines.last());
        if rest.len() > 0 && widest(lines) == widest(rest) {
            let k = choose|k: int| 0 <= k < rest.len() && line_cols(#[trigger] rest[k]) == widest(rest);
            assert(lines[k] == rest[k]);
        }
        assert forall|i: int| 0 <= i < lines.len() implies line_cols(#[trigger] lines[i]) <= widest(
            lines,
        ) by {
            if i < rest.len() {
                assert(rest[i] == lines[i]);
            }
        }
    }
}

/// A frame is as wide as the widest line and leaves all of them as they are.
pub proof fn law_frame_around_all(lines: Seq<LineView>, i: int)
    requires
        0 <= i < lines.len(),
    ensures
        in_frame(lines).len() == lines.len() + 2,
        in_frame(lines)[i + 1] == framed_row(lines[i].spans, line_cols(lines[i]), widest(lines)),
{
}

/// A frame that has to fit is as wide as the widest line where there is room, and its
/// lines are cut where there is not; where not even a frame fits there is none.
pub proof fn law_frame_that_fits(lines: Seq<LineView>, width: int, i: int)
    requires
        0 <= i < lines.len(),
        0 <= width,
    ensures
        width < 4 ==> in_fitted_frame(lines, width).len() == lines.len() && in_fitted_frame(
            lines,
            width,
        )[i] == fitted(lines[i], width),
        width >= 4 && widest(lines) + 4 <= width ==> content_cols(lines, width) == widest(lines),
        width >= 4 && widest(lines) + 4 > width ==> content_cols(lines, width) == width - 4,
        width >= 4 ==> in_fitted_frame(lines, width)[i + 1] == framed_row(
            fitted(lines[i], content_cols(lines, width) as int).spans,
            line_cols(fitted(lines[i], content_cols(lines, width) as int)),
            content_cols(lines, width),
        ),
{
}

/// A line is set in the middle: it keeps its text, with spaces on both sides that fill
/// up the width and differ by one at most. One that is too wide stays as it is.
pub proof fn law_centered_line(line: LineView, used: nat, width: nat) -> (sides: (nat, nat))
    ensures
        used >= width ==> centered_line(line, used, width) == line,
        used < width ==> {
            &&& sides.0 + used + sides.1 == width
            &&& 0 <= sides.1 - sides.0 <= 1
            &&& spans_text(centered_line(line, used, width).spans) == repeated(' ', sides.0)
                + spans_text(line.spans) + repeated(' ', sides.1)
        },
{
    if used < width {
        let left = ((width - used) / 2) as nat;
        let right = (width - used - left) as nat;
        lemma_one_span(repeated(' ', left), plain());
        lemma_one_span(repeated(' ', right), plain());
        lemma_spans_text_add(spaces(left), line.spans);
        lemma_spans_text_add(spaces(left) + line.spans, spaces(right));
        (left, right)
    } else {
        (0, 0)
    }
}

/// The text of spans is their texts, one after the other.
pub proof fn law_spans_text(spans: Seq<SpanView>, span: SpanView)
    ensures
        spans_text(seq![]).len() == 0,
        spans_text(spans.push(span)) == spans_text(spans) + span.content,
{
    assert(spans.push(span).drop_last() == spans);
}

/// A number is held back only at the last that a machine has.
pub proof fn law_held(n: nat)
    ensures
        n <= usize::MAX ==> held(n) == n,
        n > usize::MAX ==> held(n) == usize::MAX,
{
}

} // verus!
