//! Putting styled text into the cells of the screen.
use vstd::prelude::*;

use crate::style::{line_of, line_views, span_views, styled};
use crate::style::{Line, LineView, Span, SpanView, Style};
use crate::text::{control, is_control};
use crate::tui::area::{coordinate, Rect};
use crate::width::{char_cols, char_width, cols};

verus! {

/// A cell that gets a symbol and a style. The cells that a wide character covers
/// besides its first get an empty symbol.
#[derive(Debug, PartialEq, Eq)]
pub struct Cell {
    pub x: u16,
    pub y: u16,
    pub symbol: String,
    pub style: Style,
}

/// What a cell gets.
pub struct CellView {
    pub x: int,
    pub y: int,
    pub symbol: Seq<char>,
    pub style: Style,
}

impl View for Cell {
    type V = CellView;

    open spec fn view(&self) -> CellView {
        CellView { x: self.x as int, y: self.y as int, symbol: self.symbol@, style: self.style }
    }
}

/// What each of a run of cells gets.
pub open spec fn cell_views(cells: Seq<Cell>) -> Seq<CellView> {
    cells.map_values(|c: Cell| c@)
}

/// The cells of a character: its symbol in the first, nothing in the others.
pub open spec fn glyph(c: char, style: Style, x: int, y: int) -> Seq<CellView> {
    Seq::new(
        char_cols(c),
        |i: int|
            CellView {
                x: x + i,
                y,
                symbol: if i == 0 {
                    seq![c]
                } else {
                    seq![]
                },
                style,
            },
    )
}

/// A character takes cells: it is none that controls, and has a width.
pub open spec fn visible_char(c: char) -> bool {
    !control(c) && char_cols(c) > 0
}

/// The cells of text from column `x` on, and the column after it. Text stops before
/// the first character that would reach past the column `right`: then there is no
/// column after it.
pub open spec fn text_cells(text: Seq<char>, style: Style, x: int, y: int, right: int) -> (
    Seq<CellView>,
    Option<int>,
)
    decreases text.len(),
{
    if text.len() == 0 {
        (seq![], Some(x))
    } else {
        let (done, at) = text_cells(text.drop_last(), style, x, y, right);
        let c = text.last();
        match at {
            Some(at) => if !visible_char(c) {
                (done, Some(at))
            } else if at + char_cols(c) > right {
                (done, None)
            } else {
                (done + glyph(c, style, at, y), Some(at + char_cols(c)))
            },
            None => (done, None),
        }
    }
}

/// The cells of a run of spans, one after the other.
pub open spec fn span_cells(spans: Seq<SpanView>, x: int, y: int, right: int) -> (
    Seq<CellView>,
    Option<int>,
)
    decreases spans.len(),
{
    if spans.len() == 0 {
        (seq![], Some(x))
    } else {
        let (done, at) = span_cells(spans.drop_last(), x, y, right);
        match at {
            Some(at) => {
                let (more, end) = text_cells(
                    spans.last().content,
                    spans.last().style,
                    at,
                    y,
                    right,
                );
                (done + more, end)
            },
            None => (done, None),
        }
    }
}

/// The cells of a line.
pub open spec fn line_cells(line: LineView, x: int, y: int, right: int) -> Seq<CellView> {
    span_cells(line.spans, x, y, right).0
}

/// The cells of lines, one per row from `y` on.
pub open spec fn lines_cells(lines: Seq<LineView>, x: int, y: int, right: int) -> Seq<CellView>
    decreases lines.len(),
{
    if lines.len() == 0 {
        seq![]
    } else {
        lines_cells(lines.drop_last(), x, y, right) + line_cells(
            lines.last(),
            x,
            y + lines.len() - 1,
            right,
        )
    }
}

/// The number of lines that have a row in an area.
pub open spec fn rows_shown(n: int, area: Rect) -> int {
    let room = if area.bottom_edge() <= 65536 {
        area.height as int
    } else {
        65536 - area.y
    };
    if n <= room {
        n
    } else {
        room
    }
}

/// Adds one cell.
pub fn push_cell(cells: &mut Vec<Cell>, cell: Cell)
    ensures
        cell_views(final(cells)@) == cell_views(old(cells)@).push(cell@),
{
    cells.push(cell);
    assert(cell_views(cells@) == cell_views(old(cells)@).push(cell@));
}

/// Puts a character into its cells.
fn push_glyph(cells: &mut Vec<Cell>, c: char, style: Style, x: u16, y: u16, width: usize)
    requires
        width == char_cols(c),
        0 < width,
        x + width <= 65536,
    ensures
        cell_views(final(cells)@) == cell_views(old(cells)@) + glyph(c, style, x as int, y as int),
{
    let ghost was = cell_views(cells@);
    let ghost all = glyph(c, style, x as int, y as int);
    let mut symbol = String::new();
    symbol.push(c);
    assert(symbol@ == seq![c]);
    push_cell(cells, Cell { x, y, symbol, style });
    assert(cell_views(cells@) == was + all.take(1));
    let mut i: usize = 1;
    while i < width
        invariant
            1 <= i <= width,
            width == char_cols(c),
            x + width <= 65536,
            all == glyph(c, style, x as int, y as int),
            cell_views(cells@) == was + all.take(i as int),
        decreases width - i,
    {
        let cell = Cell { x: x + i as u16, y, symbol: String::new(), style };
        assert(cell@.symbol == Seq::<char>::empty());
        push_cell(cells, cell);
        assert((was + all.take(i as int)).push(all[i as int]) == was + all.take(i + 1));
        i += 1;
    }
    assert(all.take(width as int) == all);
}

/// Puts text into cells from column `x` on. The result is the column after it,
/// `None` where the text does not all fit.
fn paint_text(
    cells: &mut Vec<Cell>,
    text: &str,
    style: Style,
    x: u16,
    y: u16,
    right: u16,
) -> (r: Option<u16>)
    ensures
        ({
            let (more, end) = text_cells(text@, style, x as int, y as int, right as int);
            &&& cell_views(final(cells)@) == cell_views(old(cells)@) + more
            &&& match r {
                Some(at) => end == Some(at as int),
                None => end is None,
            }
        }),
{
    let ghost was = cell_views(cells@);
    let mut at: u16 = x;
    let mut fits = true;
    assert(was + text_cells(text@.take(0), style, x as int, y as int, right as int).0 == was);
    for c in it: text.chars()
        invariant
            it.seq() == text@,
            ({
                let (more, end) = text_cells(
                    text@.take(it.index() as int),
                    style,
                    x as int,
                    y as int,
                    right as int,
                );
                &&& cell_views(cells@) == was + more
                &&& end == if fits {
                    Some(at as int)
                } else {
                    None
                }
            }),
    {
        assert(text@.take(it.index() + 1).drop_last() == text@.take(it.index() as int));
        let ghost now = text_cells(
            text@.take(it.index() as int),
            style,
            x as int,
            y as int,
            right as int,
        ).0;
        if fits && !is_control(c) {
            let width = char_width(c);
            if width > 0 {
                if at as usize + width > right as usize {
                    fits = false;
                } else {
                    push_glyph(cells, c, style, at, y, width);
                    assert(was + now + glyph(c, style, at as int, y as int) == was + (now + glyph(
                        c,
                        style,
                        at as int,
                        y as int,
                    )));
                    at = at + width as u16;
                }
            }
        }
    }
    assert(text@.take(text@.len() as int) == text@);
    if fits {
        Some(at)
    } else {
        None
    }
}

/// Puts a line into cells from column `x` on, as far as it goes before the column
/// `right`.
pub fn paint_line(cells: &mut Vec<Cell>, line: &Line, x: u16, y: u16, right: u16)
    ensures
        cell_views(final(cells)@) == cell_views(old(cells)@) + line_cells(
            line@,
            x as int,
            y as int,
            right as int,
        ),
{
    let ghost was = cell_views(cells@);
    let ghost spans = line@.spans;
    let mut at: Option<u16> = Some(x);
    let mut i: usize = 0;
    assert(was + span_cells(spans.take(0), x as int, y as int, right as int).0 == was);
    while i < line.spans.len()
        invariant
            i <= line.spans@.len(),
            spans == span_views(line.spans@),
            ({
                let (more, end) = span_cells(
                    spans.take(i as int),
                    x as int,
                    y as int,
                    right as int,
                );
                &&& cell_views(cells@) == was + more
                &&& match at {
                    Some(a) => end == Some(a as int),
                    None => end is None,
                }
            }),
        decreases line.spans@.len() - i,
    {
        assert(spans.take(i + 1).drop_last() == spans.take(i as int));
        assert(spans[i as int] == line.spans@[i as int]@);
        let ghost now = span_cells(spans.take(i as int), x as int, y as int, right as int).0;
        match at {
            Some(a) => {
                let span: &Span = &line.spans[i];
                at = paint_text(cells, span.content.as_str(), span.style, a, y, right);
                assert(cell_views(cells@) == was + (now + text_cells(
                    span.content@,
                    span.style,
                    a as int,
                    y as int,
                    right as int,
                ).0));
            },
            None => {},
        }
        i += 1;
    }
    assert(spans.take(spans.len() as int) == spans);
}

/// The lines from the line `from` on that have a row in an area.
pub open spec fn in_view(lines: Seq<LineView>, from: int, area: Rect) -> Seq<LineView> {
    lines.subrange(from, from + rows_shown(lines.len() - from, area))
}

/// Puts lines from the line `from` on into the rows of an area, from the top on,
/// without printable spaces where a wide character goes on.
pub fn paint_lines_from(area: Rect, lines: &[Line], from: usize) -> (r: Vec<Cell>)
    requires
        from <= lines@.len(),
    ensures
        cell_views(r@) == lines_cells(
            in_view(line_views(lines@), from as int, area),
            area.x as int,
            area.y as int,
            coordinate(area.right_edge()) as int,
        ),
{
    let right = area.right();
    let n: usize = lines.len();
    let ghost all = line_views(lines@).subrange(from as int, n as int);
    let mut cells: Vec<Cell> = Vec::new();
    let mut row: usize = 0;
    assert(cell_views(cells@) == lines_cells(
        all.take(0),
        area.x as int,
        area.y as int,
        right as int,
    ));
    while row < n - from && row < area.height as usize && row <= 65535 - area.y as usize
        invariant
            n == lines@.len(),
            from <= n,
            row <= rows_shown(n - from, area),
            all == line_views(lines@).subrange(from as int, n as int),
            cell_views(cells@) == lines_cells(
                all.take(row as int),
                area.x as int,
                area.y as int,
                right as int,
            ),
        decreases n - from - row,
    {
        assert(all.take(row + 1).drop_last() == all.take(row as int));
        assert(all[row as int] == lines@[from + row]@);
        paint_line(&mut cells, &lines[from + row], area.x, area.y + row as u16, right);
        row += 1;
    }
    assert(all.take(row as int) == in_view(line_views(lines@), from as int, area));
    cells
}

/// Puts lines into the rows of an area, from the top on, without printable spaces
/// where a wide character goes on.
pub fn paint_lines(area: Rect, lines: &[Line]) -> (r: Vec<Cell>)
    ensures
        cell_views(r@) == lines_cells(
            in_view(line_views(lines@), 0, area),
            area.x as int,
            area.y as int,
            coordinate(area.right_edge()) as int,
        ),
{
    paint_lines_from(area, lines, 0)
}

/// Cells that follow one another along a row from column `x` on.
pub open spec fn along_row(cells: Seq<CellView>, x: int, y: int) -> bool {
    forall|i: int|
        0 <= i < cells.len() ==> (#[trigger] cells[i]).x == x + i && cells[i].y == y
}

proof fn lemma_text_along_row(text: Seq<char>, style: Style, x: int, y: int, right: int)
    requires
        x <= right,
    ensures
        ({
            let (cells, end) = text_cells(text, style, x, y, right);
            &&& along_row(cells, x, y)
            &&& x + cells.len() <= right
            &&& end matches Some(at) ==> at == x + cells.len()
        }),
    decreases text.len(),
{
    if text.len() > 0 {
        lemma_text_along_row(text.drop_last(), style, x, y, right);
    }
}

proof fn lemma_spans_along_row(spans: Seq<SpanView>, x: int, y: int, right: int)
    requires
        x <= right,
    ensures
        ({
            let (cells, end) = span_cells(spans, x, y, right);
            &&& along_row(cells, x, y)
            &&& x + cells.len() <= right
            &&& end matches Some(at) ==> at == x + cells.len()
        }),
    decreases spans.len(),
{
    if spans.len() > 0 {
        lemma_spans_along_row(spans.drop_last(), x, y, right);
        match span_cells(spans.drop_last(), x, y, right).1 {
            Some(at) => {
                lemma_text_along_row(spans.last().content, spans.last().style, at, y, right);
            },
            None => {},
        }
    }
}

/// A line fills its row from the left without a gap, writes no cell twice and none
/// outside of the columns that it has.
pub proof fn law_line_fills_row(line: LineView, x: int, y: int, right: int)
    requires
        x <= right,
    ensures
        along_row(line_cells(line, x, y, right), x, y),
        x + line_cells(line, x, y, right).len() <= right,
{
    lemma_spans_along_row(line.spans, x, y, right);
}

/// Lines stay inside of the rows and columns that they have, and write no cell
/// twice.
pub proof fn law_lines_write_once(lines: Seq<LineView>, x: int, y: int, right: int)
    requires
        x <= right,
    ensures
        ({
            let cells = lines_cells(lines, x, y, right);
            &&& forall|i: int|
                0 <= i < cells.len() ==> x <= (#[trigger] cells[i]).x < right && y <= cells[i].y < y
                    + lines.len()
            &&& forall|i: int, j: int|
                0 <= i < j < cells.len() ==> (#[trigger] cells[i]).x != (#[trigger] cells[j]).x
                    || cells[i].y != cells[j].y
        }),
    decreases lines.len(),
{
    if lines.len() > 0 {
        law_lines_write_once(lines.drop_last(), x, y, right);
        law_line_fills_row(lines.last(), x, y + lines.len() - 1, right);
    }
}

/// The symbols of cells, one after the other.
pub open spec fn symbols(cells: Seq<CellView>) -> Seq<char>
    decreases cells.len(),
{
    if cells.len() == 0 {
        seq![]
    } else {
        symbols(cells.drop_last()) + cells.last().symbol
    }
}

proof fn lemma_symbols_add(a: Seq<CellView>, b: Seq<CellView>)
    ensures
        symbols(a + b) == symbols(a) + symbols(b),
    decreases b.len(),
{
    if b.len() == 0 {
        assert(a + b == a);
        assert(symbols(a) + symbols(b) == symbols(a));
    } else {
        lemma_symbols_add(a, b.drop_last());
        assert((a + b).drop_last() == a + b.drop_last());
        assert(symbols(a) + symbols(b) == symbols(a) + symbols(b.drop_last()) + b.last().symbol);
    }
}

proof fn lemma_glyph_symbols(c: char, style: Style, x: int, y: int, n: int)
    requires
        0 < n <= char_cols(c),
    ensures
        symbols(glyph(c, style, x, y).take(n)) == seq![c],
    decreases n,
{
    let cells = glyph(c, style, x, y);
    assert(cells.take(n).drop_last() == cells.take(n - 1));
    if n > 1 {
        lemma_glyph_symbols(c, style, x, y, n - 1);
        assert(symbols(cells.take(n)) == seq![c]);
    } else {
        assert(symbols(cells.take(0)) == Seq::<char>::empty());
        assert(symbols(cells.take(1)) == seq![c]);
    }
}

/// What is painted is what can be seen of the text, all of it where it fits: no
/// character is changed, doubled or moved, and wide ones add no spaces.
pub proof fn law_paint_shows_text(text: Seq<char>, style: Style, x: int, y: int, right: int)
    ensures
        ({
            let (cells, end) = text_cells(text, style, x, y, right);
            let seen = text.filter(|c: char| visible_char(c));
            &&& symbols(cells).is_prefix_of(seen)
            &&& end is Some ==> symbols(cells) == seen
        }),
    decreases text.len(),
{
    reveal(Seq::filter);
    let seen = text.filter(|c: char| visible_char(c));
    let (cells, end) = text_cells(text, style, x, y, right);
    if text.len() > 0 {
        let c = text.last();
        let before = text.drop_last().filter(|c: char| visible_char(c));
        law_paint_shows_text(text.drop_last(), style, x, y, right);
        let (done, at) = text_cells(text.drop_last(), style, x, y, right);
        match at {
            Some(at) => {
                if visible_char(c) && at + char_cols(c) <= right {
                    let more = glyph(c, style, at, y);
                    lemma_symbols_add(done, more);
                    lemma_glyph_symbols(c, style, at, y, more.len() as int);
                    assert(more.take(more.len() as int) == more);
                    assert(symbols(cells) == before.push(c));
                }
            },
            None => {},
        }
    } else {
        assert(symbols(cells) == seen);
    }
}

/// Text that fits is painted in full: where its columns do not reach past the last one,
/// all of it that can be seen is in its cells.
pub proof fn law_text_that_fits_is_painted(text: Seq<char>, style: Style, x: int, y: int, right: int)
    requires
        x + cols(text) <= right,
    ensures
        ({
            let (cells, end) = text_cells(text, style, x, y, right);
            &&& end is Some
            &&& symbols(cells) == text.filter(|c: char| visible_char(c))
        }),
{
    lemma_text_fits(text, style, x, y, right);
    law_paint_shows_text(text, style, x, y, right);
}

proof fn lemma_text_fits(text: Seq<char>, style: Style, x: int, y: int, right: int)
    requires
        x + cols(text) <= right,
    ensures
        text_cells(text, style, x, y, right).1 matches Some(at) && at <= x + cols(text),
    decreases text.len(),
{
    if text.len() > 0 {
        lemma_text_fits(text.drop_last(), style, x, y, right);
    }
}

/// A line of one span is painted as its text is.
pub proof fn law_line_of_one_span(content: Seq<char>, style: Style, x: int, y: int, right: int)
    ensures
        line_cells(line_of(seq![styled(content, style)]), x, y, right) == text_cells(
            content,
            style,
            x,
            y,
            right,
        ).0,
{
    let spans = seq![styled(content, style)];
    assert(spans.drop_last() == Seq::<SpanView>::empty());
    assert(span_cells(spans.drop_last(), x, y, right) == (Seq::<CellView>::empty(), Some(x)));
    assert(line_cells(line_of(spans), x, y, right) == text_cells(content, style, x, y, right).0);
}

/// Each line has its row: the cells of line `i` are there in one piece, in the row that
/// is `i` below the first.
pub proof fn law_lines_have_their_rows(lines: Seq<LineView>, x: int, y: int, right: int, i: int) -> (
    at: int)
    requires
        0 <= i < lines.len(),
    ensures
        ({
            let all = lines_cells(lines, x, y, right);
            let own = line_cells(lines[i], x, y + i, right);
            0 <= at && at + own.len() <= all.len() && all.subrange(at, at + own.len()) == own
        }),
    decreases lines.len(),
{
    let rest = lines_cells(lines.drop_last(), x, y, right);
    let all = lines_cells(lines, x, y, right);
    let own = line_cells(lines[i], x, y + i, right);
    if i == lines.len() - 1 {
        assert(all.subrange(rest.len() as int, rest.len() as int + own.len()) == own);
        rest.len() as int
    } else {
        let at = law_lines_have_their_rows(lines.drop_last(), x, y, right, i);
        assert(all.subrange(at, at + own.len()) == rest.subrange(at, at + own.len()));
        at
    }
}

/// A character takes as many cells as it is wide, the first with the character and the
/// others with nothing, all in its style.
pub proof fn law_glyph(c: char, style: Style, x: int, y: int, i: int)
    requires
        0 <= i < char_cols(c),
    ensures
        glyph(c, style, x, y).len() == char_cols(c),
        glyph(c, style, x, y)[i] == (CellView {
            x: x + i,
            y,
            symbol: if i == 0 {
                seq![c]
            } else {
                seq![]
            },
            style,
        }),
{
}

/// Painting keeps the style: every cell of a text has the text's.
pub proof fn law_paint_keeps_style(text: Seq<char>, style: Style, x: int, y: int, right: int)
    ensures
        forall|i: int|
            0 <= i < text_cells(text, style, x, y, right).0.len() ==> (#[trigger] text_cells(
                text,
                style,
                x,
                y,
                right,
            ).0[i]).style == style,
    decreases text.len(),
{
    if text.len() > 0 {
        law_paint_keeps_style(text.drop_last(), style, x, y, right);
    }
}

/// What is in view: as many lines as there are rows, or as there are lines from the
/// first on, each at its place.
pub proof fn law_in_view(lines: Seq<LineView>, from: int, area: Rect)
    requires
        0 <= from <= lines.len(),
        area.bottom_edge() <= 65536,
    ensures
        in_view(lines, from, area).len() == if lines.len() - from <= area.height {
            lines.len() - from
        } else {
            area.height as int
        },
        forall|i: int|
            0 <= i < in_view(lines, from, area).len() ==> #[trigger] in_view(lines, from, area)[i]
                == lines[from + i],
{
}

} // verus!
