//! Virtual scrollbox for the message history of the fullscreen interface.
//!
//! Holds a flat list of lines and shows a window of them, driven by
//! `ScrollBoxState`. Supports keyboard scrolling, sticky-bottom auto-follow, and an
//! optional scrollbar.
use vstd::prelude::*;

use crate::style::{in_color, line_views, Color, Line, LineView, Style};
use crate::tui::area::{coordinate, Rect};
use crate::tui::paint::{
    cell_views, in_view, lines_cells, paint_lines_from, push_cell, Cell, CellView,
};

verus! {

/// The mutable state of a ScrollBox, tracking which portion is visible.
#[derive(Debug, Clone, Copy, PartialEq, Eq, Structural)]
pub struct ScrollBoxState {
    /// Index of the top-most visible line (0 = top of content).
    pub viewport_top: usize,
    /// When true, new lines appended automatically scroll to the bottom.
    pub sticky_bottom: bool,
}

/// The furthest that a view of `visible` lines can go down `total` lines.
pub open spec fn max_top(total: int, visible: int) -> int {
    if total >= visible {
        total - visible
    } else {
        0
    }
}

/// At the top, and following what is appended.
pub open spec fn fresh_scroll() -> ScrollBoxState {
    ScrollBoxState { viewport_top: 0, sticky_bottom: true }
}

/// The view moved up, at most to the first line. It lets go of the bottom.
pub open spec fn scrolled_up(s: ScrollBoxState, lines: int) -> ScrollBoxState {
    ScrollBoxState {
        viewport_top: max_top(s.viewport_top as int, lines) as usize,
        sticky_bottom: false,
    }
}

/// The view moved down, at most to the last line. There it holds on to the bottom
/// again.
pub open spec fn scrolled_down(s: ScrollBoxState, lines: int, total: int, visible: int) -> ScrollBoxState {
    let bottom = max_top(total, visible);
    let wanted = s.viewport_top + lines;
    ScrollBoxState {
        viewport_top: (if wanted <= bottom {
            wanted
        } else {
            bottom
        }) as usize,
        sticky_bottom: s.sticky_bottom || wanted >= bottom,
    }
}

/// The view on a screen: at the bottom where it holds on to it, and never further
/// down.
pub open spec fn settled(s: ScrollBoxState, total: int, visible: int) -> ScrollBoxState {
    ScrollBoxState {
        viewport_top: if s.sticky_bottom && total > visible || s.viewport_top > max_top(
            total,
            visible,
        ) {
            max_top(total, visible) as usize
        } else {
            s.viewport_top
        },
        sticky_bottom: s.sticky_bottom,
    }
}

fn bottom_top(total: usize, visible: usize) -> (r: usize)
    ensures
        r == max_top(total as int, visible as int),
{
    if total >= visible {
        total - visible
    } else {
        0
    }
}

impl ScrollBoxState {
    pub fn new() -> (r: Self)
        ensures
            r == fresh_scroll(),
    {
        ScrollBoxState { viewport_top: 0, sticky_bottom: true }
    }

    pub fn scroll_up(&mut self, lines: usize)
        ensures
            *final(self) == scrolled_up(*old(self), lines as int),
    {
        self.viewport_top = bottom_top(self.viewport_top, lines);
        self.sticky_bottom = false;
    }

    pub fn scroll_down(&mut self, lines: usize, total_lines: usize, visible_height: usize)
        ensures
            *final(self) == scrolled_down(
                *old(self),
                lines as int,
                total_lines as int,
                visible_height as int,
            ),
    {
        let bottom = bottom_top(total_lines, visible_height);
        if self.viewport_top >= bottom || lines >= bottom - self.viewport_top {
            self.viewport_top = bottom;
            self.sticky_bottom = true;
        } else {
            self.viewport_top = self.viewport_top + lines;
        }
    }

    pub fn scroll_to_top(&mut self)
        ensures
            *final(self) == (ScrollBoxState { viewport_top: 0, sticky_bottom: false }),
    {
        self.viewport_top = 0;
        self.sticky_bottom = false;
    }

    pub fn scroll_to_bottom(&mut self, total_lines: usize, visible_height: usize)
        ensures
            final(self).viewport_top == max_top(total_lines as int, visible_height as int),
            final(self).sticky_bottom,
    {
        self.viewport_top = bottom_top(total_lines, visible_height);
        self.sticky_bottom = true;
    }

    /// Settles the view for a screen of `visible` lines.
    pub fn settle(&mut self, total: usize, visible: usize)
        ensures
            *final(self) == settled(*old(self), total as int, visible as int),
    {
        if self.sticky_bottom && total > visible {
            self.viewport_top = total - visible;
        }
        let bottom = bottom_top(total, visible);
        if self.viewport_top > bottom {
            self.viewport_top = bottom;
        }
    }
}

/// What is settled is in range, and stays as it is when settled again.
pub proof fn law_settled_in_range(s: ScrollBoxState, total: int, visible: int)
    requires
        0 <= total <= usize::MAX,
        0 <= visible,
    ensures
        settled(s, total, visible).viewport_top <= max_top(total, visible),
        settled(settled(s, total, visible), total, visible) == settled(s, total, visible),
{
}

/// A view that holds on to the bottom shows the last line, however many there are.
pub proof fn law_sticky_shows_last_line(s: ScrollBoxState, total: int, visible: int)
    requires
        s.sticky_bottom,
        0 < total <= usize::MAX,
        0 < visible,
    ensures
        ({
            let top = settled(s, total, visible).viewport_top;
            top < total <= top + visible
        }),
{
}

/// Scrolling down takes back scrolling up, as far as neither end is reached; at the
/// bottom the view holds on again.
pub proof fn law_down_undoes_up(s: ScrollBoxState, lines: int, total: int, visible: int)
    requires
        0 <= lines <= s.viewport_top,
        s.viewport_top <= max_top(total, visible),
        0 <= total <= usize::MAX,
        0 <= visible,
    ensures
        ({
            let back = scrolled_down(scrolled_up(s, lines), lines, total, visible);
            &&& back.viewport_top == s.viewport_top
            &&& back.sticky_bottom == (s.viewport_top == max_top(total, visible))
        }),
{
}

/// A scrollable list of styled lines.
#[derive(Debug)]
pub struct ScrollBox {
    lines: Vec<Line>,
    scrollbar: bool,
}

/// The part of a scrollbar that stands for what is in view.
#[derive(Debug, Clone, Copy, PartialEq, Eq, Structural)]
pub struct Thumb {
    pub position: usize,
    pub height: usize,
}

/// The column of a scrollbar.
pub open spec fn bar_column(area: Rect) -> int {
    let right = coordinate(area.right_edge());
    if right == 0 {
        0
    } else {
        right - 1
    }
}

/// There is room for a scrollbar.
pub open spec fn bar_fits(area: Rect) -> bool {
    bar_column(area) >= area.x && area.height >= 3
}

/// The height of the thumb on a track, given the share of the track that is its due.
pub open spec fn thumb_rows(share: int, track: int) -> int {
    if share < 1 {
        if track < 1 { track } else { 1 }
    } else if share > track {
        track
    } else {
        share
    }
}

/// A cell of a scrollbar.
pub open spec fn bar_cell(area: Rect, row: int, symbol: char, color: Color) -> CellView {
    CellView {
        x: bar_column(area),
        y: coordinate(area.y + row) as int,
        symbol: seq![symbol],
        style: in_color(color),
    }
}

/// The track of a scrollbar with its thumb.
pub open spec fn track_cells(area: Rect, thumb: Thumb) -> Seq<CellView> {
    Seq::new(
        (area.height - 2) as nat,
        |i: int|
            if thumb.position <= i < thumb.position + thumb.height {
                bar_cell(area, i + 1, '█', Color::DarkGray)
            } else {
                bar_cell(area, i + 1, '│', Color::Rgb(60, 60, 60))
            },
    )
}

/// The cells of a scrollbar: an arrow at both ends, the track between.
pub open spec fn bar_cells(area: Rect, thumb: Thumb) -> Seq<CellView> {
    if bar_fits(area) {
        seq![
            bar_cell(area, 0, '▲', Color::DarkGray),
            bar_cell(area, area.height - 1, '▼', Color::DarkGray),
        ] + track_cells(area, thumb)
    } else {
        seq![]
    }
}

/// The height of the thumb on the track of an area, given the share of the track
/// that is its due.
pub fn thumb_height(share: usize, area: Rect) -> (r: usize)
    ensures
        r == thumb_rows(share as int, max_top(area.height as int, 2)),
{
    let track = bottom_top(area.height as usize, 2);
    let least = if share < 1 {
        1
    } else {
        share
    };
    if least > track {
        track
    } else {
        least
    }
}

fn push_bar_cell(cells: &mut Vec<Cell>, x: u16, y: u16, row: u16, symbol: char, color: Color)
    ensures
        cell_views(final(cells)@) == cell_views(old(cells)@).push(
            CellView {
                x: x as int,
                y: coordinate(y + row) as int,
                symbol: seq![symbol],
                style: in_color(color),
            },
        ),
{
    let mut s = String::new();
    s.push(symbol);
    assert(s@ == seq![symbol]);
    push_cell(cells, Cell { x, y: y.saturating_add(row), symbol: s, style: Style::fg(color) });
}

/// The cells of a scrollbar along the right edge of an area.
pub fn render_scrollbar(area: Rect, thumb: Thumb) -> (r: Vec<Cell>)
    ensures
        cell_views(r@) == bar_cells(area, thumb),
{
    let mut cells: Vec<Cell> = Vec::new();
    let x = area.right().saturating_sub(1);
    if x < area.x || area.height < 3 {
        assert(cell_views(cells@) == bar_cells(area, thumb));
        return cells;
    }
    push_bar_cell(&mut cells, x, area.y, 0, '▲', Color::DarkGray);
    push_bar_cell(&mut cells, x, area.y, area.height - 1, '▼', Color::DarkGray);
    let ghost ends = seq![
        bar_cell(area, 0, '▲', Color::DarkGray),
        bar_cell(area, area.height - 1, '▼', Color::DarkGray),
    ];
    let ghost track = track_cells(area, thumb);
    assert(cell_views(cells@) == ends + track.take(0));
    let mut i: u16 = 0;
    while i < area.height - 2
        invariant
            area.height >= 3,
            i <= area.height - 2,
            x == bar_column(area),
            track == track_cells(area, thumb),
            cell_views(cells@) == ends + track.take(i as int),
        decreases area.height - i,
    {
        if i as usize >= thumb.position && i as usize - thumb.position < thumb.height {
            push_bar_cell(&mut cells, x, area.y, i + 1, '█', Color::DarkGray);
        } else {
            push_bar_cell(&mut cells, x, area.y, i + 1, '│', Color::Rgb(60, 60, 60));
        }
        assert((ends + track.take(i as int)).push(track[i as int]) == ends + track.take(i + 1));
        i += 1;
    }
    assert(track.take(i as int) == track);
    cells
}

impl ScrollBox {
    /// The lines in the box.
    pub closed spec fn content(self) -> Seq<LineView> {
        line_views(self.lines@)
    }

    /// The lines in a box can be counted.
    pub proof fn lemma_content_len(self)
        ensures
            self.content().len() <= usize::MAX,
    {
        assert(self.lines.len() == self.lines@.len());
    }

    /// A scrollbar is wanted.
    pub closed spec fn has_scrollbar(self) -> bool {
        self.scrollbar
    }

    pub fn new(lines: Vec<Line>) -> (r: Self)
        ensures
            r.content() == line_views(lines@),
            !r.has_scrollbar(),
    {
        ScrollBox { lines, scrollbar: false }
    }

    pub fn scrollbar(self, visible: bool) -> (r: Self)
        ensures
            r.content() == self.content(),
            r.has_scrollbar() == visible,
    {
        ScrollBox { lines: self.lines, scrollbar: visible }
    }

    pub fn is_empty(&self) -> (r: bool)
        ensures
            r == (self.content().len() == 0),
            self.content().len() <= usize::MAX,
    {
        self.lines.len() == 0
    }

    /// Settles the view, and gives the cells of the lines in view and those of the
    /// scrollbar, where one is wanted and not all lines are in view.
    pub fn render(&self, area: Rect, state: &mut ScrollBoxState, thumb: Thumb) -> (r: Vec<Cell>)
        ensures
            self.content().len() <= usize::MAX,
            *final(state) == settled(
                *old(state),
                self.content().len() as int,
                area.height as int,
            ),
            cell_views(r@) == lines_cells(
                in_view(self.content(), final(state).viewport_top as int, area),
                area.x as int,
                area.y as int,
                coordinate(area.right_edge()) as int,
            ) + if self.has_scrollbar() && self.content().len() > area.height {
                bar_cells(area, thumb)
            } else {
                seq![]
            },
    {
        let total = self.lines.len();
        let visible = area.height as usize;
        state.settle(total, visible);
        let mut cells = paint_lines_from(area, self.lines.as_slice(), state.viewport_top);
        let ghost shown = cells@;
        if self.scrollbar && total > visible {
            let mut bar = render_scrollbar(area, thumb);
            let ghost added = bar@;
            cells.append(&mut bar);
            assert(cells@ == shown + added);
            assert(cell_views(cells@) == cell_views(shown) + cell_views(added));
        } else {
            assert(cell_views(shown) + Seq::<CellView>::empty() == cell_views(shown));
        }
        cells
    }
}

/// Every line can be brought into view: there is a place for the view, which stays as
/// it is when settled, that shows it.
pub proof fn law_every_line_can_be_seen(total: int, visible: int, line: int) -> (s: ScrollBoxState)
    requires
        0 <= line < total <= usize::MAX,
        0 < visible,
    ensures
        !s.sticky_bottom,
        settled(s, total, visible) == s,
        s.viewport_top <= line < s.viewport_top + visible,
{
    let top = if line <= max_top(total, visible) {
        line
    } else {
        max_top(total, visible)
    };
    ScrollBoxState { viewport_top: top as usize, sticky_bottom: false }
}

/// Scrolling moves the view by as many lines as it is told, to the ends at most: up lets
/// go of the bottom, down takes hold of it once it is there and keeps hold of it.
pub proof fn law_scrolling_moves(s: ScrollBoxState, lines: int, total: int, visible: int)
    requires
        0 <= lines,
        0 <= visible,
        0 <= total <= usize::MAX,
    ensures
        ({
            let up = scrolled_up(s, lines);
            let down = scrolled_down(s, lines, total, visible);
            let bottom = if total > visible {
                total - visible
            } else {
                0
            };
            &&& !up.sticky_bottom
            &&& lines <= s.viewport_top ==> up.viewport_top == s.viewport_top - lines
            &&& lines > s.viewport_top ==> up.viewport_top == 0
            &&& s.viewport_top + lines <= bottom ==> down.viewport_top == s.viewport_top + lines
            &&& s.viewport_top + lines > bottom ==> down.viewport_top == bottom
            &&& down.sticky_bottom <==> s.sticky_bottom || s.viewport_top + lines >= bottom
        }),
{
}

/// A view is settled without being moved where it may stay: one that follows the
/// bottom goes there once there are more lines than rows, and one that is too far down
/// goes up to the last place there is.
pub proof fn law_settling(s: ScrollBoxState, total: int, visible: int)
    requires
        0 <= total <= usize::MAX,
        0 <= visible,
    ensures
        ({
            let t = settled(s, total, visible);
            &&& t.sticky_bottom == s.sticky_bottom
            &&& s.sticky_bottom && total > visible ==> t.viewport_top == total - visible
            &&& !s.sticky_bottom && s.viewport_top + visible <= total ==> t.viewport_top
                == s.viewport_top
            &&& total <= visible ==> t.viewport_top == 0
            &&& !s.sticky_bottom && s.viewport_top + visible > total > visible ==> t.viewport_top
                == total - visible
        }),
{
}

/// A view starts at the top and follows the bottom.
pub proof fn law_fresh_scroll()
    ensures
        fresh_scroll().viewport_top == 0,
        fresh_scroll().sticky_bottom,
{
}

/// A scrollbar stands in the last column of its area, an arrow in the first and the
/// last row and the track between; the thumb is full where it is.
pub proof fn law_scrollbar(area: Rect, thumb: Thumb, i: int)
    requires
        area.width > 0,
        area.height >= 3,
        area.right_edge() <= 65535,
        area.bottom_edge() <= 65535,
        0 <= i < area.height - 2,
    ensures
        ({
            let cells = bar_cells(area, thumb);
            &&& cells.len() == area.height
            &&& cells[0].y == area.y && cells[0].symbol == seq!['▲']
            &&& cells[1].y == area.y + area.height - 1 && cells[1].symbol == seq!['▼']
            &&& cells[2 + i].y == area.y + 1 + i
            &&& thumb.position <= i < thumb.position + thumb.height ==> cells[2 + i].symbol == seq!['█']
            &&& !(thumb.position <= i < thumb.position + thumb.height) ==> cells[2 + i].symbol
                == seq!['│']
            &&& forall|k: int| 0 <= k < cells.len() ==> (#[trigger] cells[k]).x == area.x + area.width
                - 1
        }),
{
}

/// The thumb takes its share of the track, a row of it at least and the track at most.
pub proof fn law_thumb(share: int, track: int)
    requires
        0 < track,
        0 <= share,
    ensures
        1 <= thumb_rows(share, track) <= track,
        1 <= share <= track ==> thumb_rows(share, track) == share,
        share > track ==> thumb_rows(share, track) == track,
{
}

} // verus!
