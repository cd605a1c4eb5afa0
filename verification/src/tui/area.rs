//! Rectangles of the screen, and how they are divided.
use vstd::prelude::*;

verus! {

/// A part of the screen, in cells.
#[derive(Debug, Clone, Copy, PartialEq, Eq, Structural)]
pub struct Rect {
    pub x: u16,
    pub y: u16,
    pub width: u16,
    pub height: u16,
}

/// A coordinate, held back at the last there is.
pub open spec fn coordinate(n: int) -> u16 {
    if n <= 65535 {
        n as u16
    } else {
        65535
    }
}

impl Rect {
    /// The first column to the right.
    pub open spec fn right_edge(self) -> int {
        self.x + self.width
    }

    /// The first row below.
    pub open spec fn bottom_edge(self) -> int {
        self.y + self.height
    }

    /// All of it lies inside `outer`.
    pub open spec fn inside(self, outer: Rect) -> bool {
        &&& outer.x <= self.x
        &&& outer.y <= self.y
        &&& self.right_edge() <= outer.right_edge()
        &&& self.bottom_edge() <= outer.bottom_edge()
    }

    /// The first column to the right, held back at the last there is.
    pub fn right(&self) -> (r: u16)
        ensures
            r == coordinate(self.right_edge()),
    {
        self.x.saturating_add(self.width)
    }
}

/// Where a rectangle of this size stands in the middle of an area; it is no larger
/// than the area.
pub open spec fn centered(area: Rect, width: u16, height: u16) -> Rect {
    Rect {
        x: coordinate(area.x + (if area.width >= width { (area.width - width) / 2 } else { 0 })),
        y: coordinate(area.y + (if area.height >= height { (area.height - height) / 2 } else { 0 })),
        width: if width <= area.width { width } else { area.width },
        height: if height <= area.height { height } else { area.height },
    }
}

/// The rectangle of this size in the middle of an area.
pub fn centered_rect(area: Rect, width: u16, height: u16) -> (r: Rect)
    ensures
        r == centered(area, width, height),
{
    Rect {
        x: area.x.saturating_add(area.width.saturating_sub(width) / 2),
        y: area.y.saturating_add(area.height.saturating_sub(height) / 2),
        width: if width <= area.width { width } else { area.width },
        height: if height <= area.height { height } else { area.height },
    }
}

/// What is centered stays inside the area, with margins that differ by one cell at
/// most.
pub proof fn law_centered_inside(area: Rect, width: u16, height: u16)
    requires
        area.right_edge() <= 65535,
        area.bottom_edge() <= 65535,
    ensures
        ({
            let r = centered(area, width, height);
            let left = r.x - area.x;
            let right = area.right_edge() - r.right_edge();
            let above = r.y - area.y;
            let below = area.bottom_edge() - r.bottom_edge();
            &&& r.inside(area)
            &&& 0 <= right - left <= 1
            &&& 0 <= below - above <= 1
        }),
{
}

/// What is left of an area inside margins: nothing at all where they do not fit.
pub open spec fn within(area: Rect, vertical: u16, horizontal: u16) -> Rect {
    if area.width < 2 * horizontal || area.height < 2 * vertical {
        Rect { x: 0, y: 0, width: 0, height: 0 }
    } else {
        Rect {
            x: coordinate(area.x + horizontal),
            y: coordinate(area.y + vertical),
            width: (area.width - 2 * horizontal) as u16,
            height: (area.height - 2 * vertical) as u16,
        }
    }
}

/// The sum of a run of lengths.
pub open spec fn total(lengths: Seq<int>) -> int
    decreases lengths.len(),
{
    if lengths.len() == 0 {
        0
    } else {
        total(lengths.drop_last()) + lengths.last()
    }
}

/// Lengths of the machine as numbers.
pub open spec fn numbers(lengths: Seq<u16>) -> Seq<int> {
    lengths.map_values(|n: u16| n as int)
}

/// How a length is shared between parts of fixed length and one that takes what
/// they leave.
pub open spec fn shares(before: Seq<u16>, after: Seq<u16>, room: int) -> Seq<int> {
    numbers(before).push(room - total(numbers(before)) - total(numbers(after))) + numbers(after)
}

/// The parts of fixed length leave something, or just nothing, of the room.
pub open spec fn shares_fit(before: Seq<u16>, after: Seq<u16>, room: int) -> bool {
    total(numbers(before)) + total(numbers(after)) <= room
}

/// Rectangles for rows inside margins: rows of the lengths `before`, a row with the
/// rest, rows of the lengths `after`. All are as wide as the area inside the margins
/// and lie in it. Where all fixed lengths fit, each of these rows has its length, and they follow one
/// another from the top.
pub open spec fn row_layout(
    area: Rect,
    vertical: u16,
    horizontal: u16,
    before: Seq<u16>,
    after: Seq<u16>,
    rows: Seq<Rect>,
) -> bool {
    let inner = within(area, vertical, horizontal);
    let heights = shares(before, after, inner.height as int);
    &&& rows.len() == before.len() + 1 + after.len()
    &&& forall|i: int|
        0 <= i < rows.len() ==> (#[trigger] rows[i]).x == inner.x && rows[i].width == inner.width
    &&& forall|i: int| 0 <= i < rows.len() ==> (#[trigger] rows[i]).inside(inner)
    &&& inner.bottom_edge() <= 65535 && shares_fit(before, after, inner.height as int) ==> forall|
        i: int,
    |
        0 <= i < rows.len() ==> (#[trigger] rows[i]).height == heights[i] && rows[i].y == inner.y
            + total(heights.take(i))
}

/// Rectangles for a column of the width `first` and one with the rest. Both are as
/// high as the area and lie in it. Where the first fits it has its width.
pub open spec fn column_layout(area: Rect, first: u16, left: Rect, right: Rect) -> bool {
    &&& left.y == area.y && left.height == area.height
    &&& right.y == area.y && right.height == area.height
    &&& left.inside(area) && right.inside(area)
    &&& area.right_edge() <= 65535 && first <= area.width ==> left.x == area.x && left.width == first
        && right.x == area.x + first && right.width == area.width - first
}

/// Calls `ratatui::layout::Layout::split` for rows of the lengths `before`, a row
/// with the rest, and rows of the lengths `after`, inside margins. There is one
/// rectangle for each row, as wide as the area inside the margins and nowhere outside
/// of it: the solver is required to keep both ends of each part between the ends of
/// the area. Where all fixed lengths fit, each of these rows has its length, the one
/// between takes the rest, and they follow one another from the top. Nothing is said
/// of how rows that do not fit share the height: what the solver finds then can differ
/// from run to run.
#[verifier::external_body]
pub(crate) fn rows(
    area: Rect,
    vertical: u16,
    horizontal: u16,
    before: &[u16],
    after: &[u16],
) -> (r: Vec<Rect>)
    requires
        vertical <= 100,
        horizontal <= 100,
        before@.len() + after@.len() <= 8,
    ensures
        row_layout(area, vertical, horizontal, before@, after@, r@),
{
    let lengths = ratatui::layout::Constraint::from_lengths;
    let mut parts = lengths(before.iter().copied());
    parts.push(ratatui::layout::Constraint::Min(0));
    parts.extend(lengths(after.iter().copied()));
    ratatui::layout::Layout::vertical(parts)
        .vertical_margin(vertical)
        .horizontal_margin(horizontal)
        .split(ratatui::layout::Rect { x: area.x, y: area.y, width: area.width, height: area.height })
        .iter()
        .map(|r| Rect { x: r.x, y: r.y, width: r.width, height: r.height })
        .collect()
}

/// Calls `ratatui::layout::Layout::split` for a column of the width `first` and one
/// with the rest. There are two rectangles, as high as the area and nowhere outside of
/// it: the solver is required to keep both ends of each part between the ends of the
/// area. Where the first fits, it has its width and the other takes the rest. Nothing
/// is said of how the two share the width where it does not fit.
#[verifier::external_body]
pub(crate) fn columns(area: Rect, first: u16) -> (r: (Rect, Rect))
    ensures
        column_layout(area, first, r.0, r.1),
{
    let (len, min) = (ratatui::layout::Constraint::Length, ratatui::layout::Constraint::Min);
    let parts = ratatui::layout::Layout::horizontal([len(first), min(0)])
        .split(ratatui::layout::Rect { x: area.x, y: area.y, width: area.width, height: area.height });
    let (a, b) = (parts[0], parts[1]);
    (
        Rect { x: a.x, y: a.y, width: a.width, height: a.height },
        Rect { x: b.x, y: b.y, width: b.width, height: b.height },
    )
}

proof fn lemma_total_add(a: Seq<int>, b: Seq<int>)
    ensures
        total(a + b) == total(a) + total(b),
    decreases b.len(),
{
    if b.len() == 0 {
        assert(a + b == a);
    } else {
        lemma_total_add(a, b.drop_last());
        assert((a + b).drop_last() == a + b.drop_last());
    }
}

proof fn lemma_total_grows(lengths: Seq<int>, i: int, j: int)
    requires
        0 <= i <= j <= lengths.len(),
        forall|k: int| 0 <= k < lengths.len() ==> #[trigger] lengths[k] >= 0,
    ensures
        0 <= total(lengths.take(i)) <= total(lengths.take(j)),
    decreases j,
{
    if j > 0 {
        assert(lengths.take(j).drop_last() == lengths.take(j - 1));
        assert(lengths.take(j).last() == lengths[j - 1]);
        if i < j {
            lemma_total_grows(lengths, i, j - 1);
        } else {
            lemma_total_grows(lengths, i - 1, j - 1);
        }
    }
}

/// Rows whose fixed lengths fit divide the area inside the margins without gap or
/// overlap: the first starts at its top, each other where the one before ends, and
/// the last ends at its bottom.
pub proof fn law_rows_divide_area(
    area: Rect,
    vertical: u16,
    horizontal: u16,
    before: Seq<u16>,
    after: Seq<u16>,
    rows: Seq<Rect>,
)
    requires
        row_layout(area, vertical, horizontal, before, after, rows),
        within(area, vertical, horizontal).bottom_edge() <= 65535,
        shares_fit(before, after, within(area, vertical, horizontal).height as int),
    ensures
        ({
            let inner = within(area, vertical, horizontal);
            &&& rows.first().y == inner.y
            &&& rows.last().bottom_edge() == inner.bottom_edge()
            &&& forall|i: int|
                0 < i < rows.len() ==> (#[trigger] rows[i]).y == rows[i - 1].bottom_edge()
            &&& forall|i: int| 0 <= i < rows.len() ==> (#[trigger] rows[i]).inside(inner)
        }),
{
    let inner = within(area, vertical, horizontal);
    let heights = shares(before, after, inner.height as int);
    let rest = inner.height - total(numbers(before)) - total(numbers(after));
    assert(numbers(before).push(rest).drop_last() == numbers(before));
    lemma_total_add(numbers(before).push(rest), numbers(after));
    assert(total(heights) == inner.height);
    assert(heights.take(heights.len() as int) == heights);
    assert(total(heights.take(0)) == 0);
    assert forall|k: int| 0 <= k < heights.len() implies #[trigger] heights[k] >= 0 by {
        if k < before.len() {
            assert(heights[k] == before[k]);
        } else if k > before.len() {
            assert(heights[k] == after[k - before.len() - 1]);
        }
    }
    assert forall|i: int| 0 <= i < rows.len() implies (#[trigger] rows[i]).inside(inner)
        && rows[i].bottom_edge() == inner.y + total(heights.take(i + 1)) by {
        assert(heights.take(i + 1).drop_last() == heights.take(i));
        assert(heights.take(i + 1).last() == heights[i]);
        lemma_total_grows(heights, i, i + 1);
        lemma_total_grows(heights, i + 1, heights.len() as int);
    }
}

/// What is centered is as large as it should be, or as the area where that is smaller.
pub proof fn law_centered_size(area: Rect, width: u16, height: u16)
    ensures
        width <= area.width ==> centered(area, width, height).width == width,
        width > area.width ==> centered(area, width, height).width == area.width,
        height <= area.height ==> centered(area, width, height).height == height,
        height > area.height ==> centered(area, width, height).height == area.height,
{
}

/// Margins take their cells off all four sides, and leave nothing where they do not fit.
pub proof fn law_within(area: Rect, vertical: u16, horizontal: u16)
    requires
        area.right_edge() <= 65535,
        area.bottom_edge() <= 65535,
    ensures
        ({
            let inner = within(area, vertical, horizontal);
            if 2 * horizontal <= area.width && 2 * vertical <= area.height {
                &&& inner.x == area.x + horizontal
                &&& inner.y == area.y + vertical
                &&& inner.right_edge() == area.right_edge() - horizontal
                &&& inner.bottom_edge() == area.bottom_edge() - vertical
            } else {
                inner.width == 0 && inner.height == 0
            }
        }),
{
}

} // verus!
