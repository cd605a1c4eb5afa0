//! What is to be drawn, and where.
use vstd::prelude::*;

use crate::style::{line_views, Line, LineView, Paragraph, ParagraphView};
use crate::tui::area::Rect;
use crate::tui::paint::{cell_views, Cell, CellView};

verus! {

/// Something to draw.
#[derive(Debug)]
pub enum Draw {
    /// The background.
    Blank(Rect),
    /// Whatever stands there is wiped out.
    Erase(Rect),
    Text { area: Rect, text: Paragraph },
    /// Lines in a frame.
    Framed { area: Rect, lines: Vec<Line> },
    /// A list in a frame, one item of it marked, from the item `offset` on.
    Choices { area: Rect, items: Vec<Line>, marked: Option<usize>, offset: usize },
    /// What the user types.
    Composer(Rect),
    Cells(Vec<Cell>),
}

/// What there is to draw.
pub enum DrawView {
    Blank(Rect),
    Erase(Rect),
    Text(Rect, ParagraphView),
    Framed(Rect, Seq<LineView>),
    Choices(Rect, Seq<LineView>, Option<usize>, usize),
    Composer(Rect),
    Cells(Seq<CellView>),
}

impl View for Draw {
    type V = DrawView;

    open spec fn view(&self) -> DrawView {
        match *self {
            Draw::Blank(area) => DrawView::Blank(area),
            Draw::Erase(area) => DrawView::Erase(area),
            Draw::Text { area, text } => DrawView::Text(area, text@),
            Draw::Framed { area, lines } => DrawView::Framed(area, line_views(lines@)),
            Draw::Choices { area, items, marked, offset } => DrawView::Choices(
                area,
                line_views(items@),
                marked,
                offset,
            ),
            Draw::Composer(area) => DrawView::Composer(area),
            Draw::Cells(cells) => DrawView::Cells(cell_views(cells@)),
        }
    }
}

/// What there is to draw, one after the other.
pub open spec fn draw_views(draws: Seq<Draw>) -> Seq<DrawView> {
    draws.map_values(|d: Draw| d@)
}

/// Adds one thing to draw.
pub fn push_draw(draws: &mut Vec<Draw>, draw: Draw)
    ensures
        draw_views(final(draws)@) == draw_views(old(draws)@).push(draw@),
{
    draws.push(draw);
    assert(draw_views(draws@) == draw_views(old(draws)@).push(draw@));
}

} // verus!
