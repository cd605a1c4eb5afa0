//! Aili logo: unicode block-art using special character markers.
//!
//! Markers:
//!   `█`   full-block glyph (fg=brand, bg=transparent)
//!   `_`   shadow cell (space with bg=shadow, renders as a tinted block)
//!   `^`   half-block top-lit (▀ with fg=brand, bg=shadow)
//!   `~`   half-block shadow-only top (▀ with fg=shadow)
//!   `,`   half-block shadow-only bottom (▄ with fg=shadow)
use vstd::prelude::*;

use crate::style::{in_color, line_of, line_views, plain, push_line, push_span, span_views, styled};
use crate::style::{
    Alignment, Color, Line, LineView, Paragraph, ParagraphView, Span, SpanView, Style,
};
use crate::text::{chars_of, repeat};
use crate::text::{joined, repeated};

verus! {

/// The rows of a logo, in a left and a right half.
pub struct LogoShape {
    pub left: &'static [&'static str],
    pub right: &'static [&'static str],
}

const GAP: usize = 2;

/// The small logo.
pub const WELCOME_LOGO: &'static str = "Aili";

/// The characters of row `i`; a half that is too short has empty rows.
pub open spec fn row_at(rows: Seq<&'static str>, i: int) -> Seq<char> {
    if 0 <= i < rows.len() {
        rows[i]@
    } else {
        seq![]
    }
}

/// The length of the longest row.
pub open spec fn longest(rows: Seq<&'static str>) -> nat
    decreases rows.len(),
{
    if rows.len() == 0 {
        0
    } else {
        let rest = longest(rows.drop_last());
        if rest >= rows.last()@.len() {
            rest
        } else {
            rows.last()@.len()
        }
    }
}

/// The number of rows of the taller half.
pub open spec fn height(shape: LogoShape) -> nat {
    if shape.left@.len() >= shape.right@.len() {
        shape.left@.len()
    } else {
        shape.right@.len()
    }
}

/// What stands for a marker where there are no colours.
pub open spec fn plain_glyph(c: char) -> char {
    if c == '_' {
        '█'
    } else if c == '^' || c == '~' {
        '▀'
    } else if c == ',' {
        '▄'
    } else {
        c
    }
}

/// A row without colours.
pub open spec fn plain_row(left: Seq<char>, right: Seq<char>) -> Seq<char> {
    (left + repeated(' ', 2) + right).map_values(|c: char| plain_glyph(c))
}

/// The logo without colours, row by row.
pub open spec fn plain_rows(shape: LogoShape) -> Seq<Seq<char>> {
    Seq::new(height(shape), |i: int| plain_row(row_at(shape.left@, i), row_at(shape.right@, i)))
}

/// What stands for a marker in colour.
pub open spec fn glyph(c: char, fg: Color, shadow: Color) -> SpanView {
    if c == '_' {
        styled(seq![' '], Style { fg: None, bg: Some(shadow), bold: false })
    } else if c == '^' {
        styled(seq!['▀'], Style { fg: Some(fg), bg: Some(shadow), bold: false })
    } else if c == '~' {
        styled(seq!['▀'], in_color(shadow))
    } else if c == ',' {
        styled(seq!['▄'], in_color(shadow))
    } else if c == ' ' {
        styled(seq![' '], plain())
    } else {
        styled(seq![c], in_color(fg))
    }
}

/// The glyphs of half a row.
pub open spec fn glyphs(row: Seq<char>, fg: Color, shadow: Color) -> Seq<SpanView> {
    row.map_values(|c: char| glyph(c, fg, shadow))
}

/// A row in colour.
pub open spec fn colored_row(left: Seq<char>, right: Seq<char>, fg: Color, shadow: Color) -> LineView {
    line_of(
        glyphs(left, fg, shadow).push(styled(repeated(' ', 2), plain())) + glyphs(right, fg, shadow),
    )
}

/// The logo in colour, row by row.
pub open spec fn colored_rows(shape: LogoShape, fg: Color, shadow: Color) -> Seq<LineView> {
    Seq::new(
        height(shape),
        |i: int| colored_row(row_at(shape.left@, i), row_at(shape.right@, i), fg, shadow),
    )
}

/// The rows of the logo of Aili.
pub open spec fn logo_rows() -> Seq<Seq<char>> {
    seq![
        " ██████    ██  ██     ██"@,
        "██    ██       ██       "@,
        "████████   ██  ██     ██"@,
        "██    ██   ██  ██     ██"@,
        "██    ██   ██  █████  ██"@,
    ]
}

/// The logo of Aili in colour, row by row.
pub open spec fn colored_logo(fg: Color, shadow: Color) -> Seq<LineView> {
    logo_rows().map_values(|row: Seq<char>| colored_row(row, ""@, fg, shadow))
}

/// The logo of Aili.
pub fn logo_shape() -> (r: &'static LogoShape)
    ensures
        r.left@.len() == 5,
        forall|i: int| 0 <= i < 5 ==> (#[trigger] r.left@[i])@ == logo_rows()[i],
        r.right@.len() == 5,
        forall|i: int| 0 <= i < 5 ==> (#[trigger] r.right@[i])@ == ""@,
        forall|fg: Color, shadow: Color| #[trigger]
            colored_rows(*r, fg, shadow) == colored_logo(fg, shadow),
        longest(r.left@) == 24,
        longest(r.right@) == 0,
{
    let r = &LogoShape {
        left: &[
            " ██████    ██  ██     ██",
            "██    ██       ██       ",
            "████████   ██  ██     ██",
            "██    ██   ██  ██     ██",
            "██    ██   ██  █████  ██",
        ],
        right: &["", "", "", "", ""],
    };
    assert forall|fg: Color, shadow: Color| #[trigger]
        colored_rows(*r, fg, shadow) == colored_logo(fg, shadow) by {
        assert(colored_rows(*r, fg, shadow) == colored_logo(fg, shadow));
    }
    proof {
        reveal_strlit(" ██████    ██  ██     ██");
        reveal_strlit("██    ██       ██       ");
        reveal_strlit("████████   ██  ██     ██");
        reveal_strlit("██    ██   ██  ██     ██");
        reveal_strlit("██    ██   ██  █████  ██");
        reveal_strlit("");
        reveal_with_fuel(longest, 6);
    }
    r
}

fn longest_row(rows: &[&'static str]) -> (r: usize)
    ensures
        r == longest(rows@),
{
    let mut best: usize = 0;
    let mut i: usize = 0;
    while i < rows.len()
        invariant
            i <= rows@.len(),
            best == longest(rows@.take(i as int)),
        decreases rows@.len() - i,
    {
        let n = chars_of(rows[i]).len();
        if n > best {
            best = n;
        }
        i += 1;
        assert(rows@.take(i as int).drop_last() == rows@.take(i - 1));
    }
    assert(rows@.take(rows@.len() as int) == rows@);
    best
}

/// The columns that a logo takes when each of its characters takes one.
pub fn logo_width(shape: &LogoShape) -> (r: usize)
    requires
        longest(shape.left@) + 2 + longest(shape.right@) <= usize::MAX,
    ensures
        r == longest(shape.left@) + 2 + longest(shape.right@),
{
    let left_w = longest_row(shape.left);
    let right_w = longest_row(shape.right);
    left_w + GAP + right_w
}

/// The rows that a logo takes.
pub fn logo_height(shape: &LogoShape) -> (r: usize)
    ensures
        r == height(*shape),
{
    if shape.left.len() >= shape.right.len() {
        shape.left.len()
    } else {
        shape.right.len()
    }
}

fn row(rows: &'static [&'static str], i: usize) -> (r: &'static str)
    ensures
        r@ == row_at(rows@, i as int),
{
    if i < rows.len() {
        rows[i]
    } else {
        let r = "";
        proof {
            reveal_strlit("");
        }
        assert(r@ == Seq::<char>::empty());
        r
    }
}

fn push_glyphs(spans: &mut Vec<Span>, row: &str, fg: Color, shadow: Color)
    ensures
        span_views(final(spans)@) == span_views(old(spans)@) + glyphs(row@, fg, shadow),
{
    let cs = chars_of(row);
    let mut i: usize = 0;
    assert(span_views(spans@) == span_views(old(spans)@) + glyphs(row@, fg, shadow).take(0));
    while i < cs.len()
        invariant
            i <= cs@.len(),
            cs@ == row@,
            span_views(spans@) == span_views(old(spans)@) + glyphs(row@, fg, shadow).take(i as int),
        decreases cs@.len() - i,
    {
        let c = cs[i];
        let (symbol, style) = match c {
            '_' => (' ', Style { fg: None, bg: Some(shadow), bold: false }),
            '^' => ('▀', Style { fg: Some(fg), bg: Some(shadow), bold: false }),
            '~' => ('▀', Style::fg(shadow)),
            ',' => ('▄', Style::fg(shadow)),
            ' ' => (' ', Style::default()),
            _ => (c, Style::fg(fg)),
        };
        let content = repeat(symbol, 1);
        assert(content@ == seq![symbol]);
        push_span(spans, Span::styled(content, style));
        i += 1;
        assert(glyphs(row@, fg, shadow).take(i as int) == glyphs(row@, fg, shadow).take(i - 1).push(
            glyph(c, fg, shadow),
        ));
    }
    assert(glyphs(row@, fg, shadow).take(cs@.len() as int) == glyphs(row@, fg, shadow));
}

/// The logo as styled lines: in the brand tint, with the shadow blended in.
pub fn lines_for_scrollback(shape: &LogoShape, fg: Color, shadow: Color) -> (r: Vec<Line>)
    ensures
        line_views(r@) == colored_rows(*shape, fg, shadow),
{
    let rows = logo_height(shape);
    let ghost all = colored_rows(*shape, fg, shadow);
    let mut out: Vec<Line> = Vec::new();
    let mut i: usize = 0;
    while i < rows
        invariant
            i <= rows == height(*shape),
            all == colored_rows(*shape, fg, shadow),
            line_views(out@) == all.take(i as int),
        decreases rows - i,
    {
        let mut spans: Vec<Span> = Vec::new();
        push_glyphs(&mut spans, row(shape.left, i), fg, shadow);
        push_span(&mut spans, Span::raw(repeat(' ', GAP)));
        push_glyphs(&mut spans, row(shape.right, i), fg, shadow);
        let line = Line::of(spans);
        assert(line@ == all[i as int]);
        push_line(&mut out, line);
        i += 1;
        assert(all.take(i as int) == all.take(i - 1).push(all[i - 1]));
    }
    assert(all.take(all.len() as int) == all);
    out
}

/// The logo as a paragraph for the fullscreen interface.
pub fn paragraph(shape: &LogoShape, fg: Color, shadow: Color) -> (r: Paragraph)
    ensures
        r@ == (ParagraphView {
            lines: colored_rows(*shape, fg, shadow),
            alignment: Alignment::Center,
        }),
{
    Paragraph { lines: lines_for_scrollback(shape, fg, shadow), alignment: Alignment::Center }
}

fn push_plain(s: &mut String, row: &str)
    ensures
        final(s)@ == old(s)@ + row@.map_values(|c: char| plain_glyph(c)),
{
    let cs = chars_of(row);
    let ghost all = row@.map_values(|c: char| plain_glyph(c));
    let mut i: usize = 0;
    assert(s@ == old(s)@ + all.take(0));
    while i < cs.len()
        invariant
            i <= cs@.len(),
            cs@ == row@,
            all == row@.map_values(|c: char| plain_glyph(c)),
            s@ == old(s)@ + all.take(i as int),
        decreases cs@.len() - i,
    {
        let c = match cs[i] {
            '_' => '█',
            '^' => '▀',
            '~' => '▀',
            ',' => '▄',
            other => other,
        };
        s.push(c);
        i += 1;
        assert(all.take(i as int) == all.take(i - 1).push(c));
    }
    assert(all.take(cs@.len() as int) == all);
}

/// A plain-text version of the logo, without shadow markers.
pub fn plain_text(shape: &LogoShape) -> (r: String)
    ensures
        r@ == joined(plain_rows(*shape), seq!['\n']),
{
    let rows = logo_height(shape);
    let ghost all = plain_rows(*shape);
    let mut s = String::new();
    let mut i: usize = 0;
    while i < rows
        invariant
            i <= rows == height(*shape),
            all == plain_rows(*shape),
            s@ == joined(all.take(i as int), seq!['\n']),
        decreases rows - i,
    {
        if i > 0 {
            s.push('\n');
        }
        let ghost before = s@;
        let left_line = row(shape.left, i);
        let right_line = row(shape.right, i);
        push_plain(&mut s, left_line);
        s.append(repeat(' ', GAP).as_str());
        push_plain(&mut s, right_line);
        assert(s@ == before + all[i as int]);
        i += 1;
        assert(all.take(i as int).drop_last() == all.take(i - 1));
        assert(i > 1 ==> s@ == joined(all.take(i - 1), seq!['\n']) + seq!['\n'] + all[i - 1]);
        assert(i == 1 ==> s@ == all[0]);
    }
    assert(all.take(all.len() as int) == all);
    s
}

/// The lines of the small logo.
pub fn lines() -> (r: Vec<&'static str>)
    ensures
        r@.len() == 1,
        r@[0]@ == WELCOME_LOGO@,
{
    vec![WELCOME_LOGO]
}

/// A character of a joined text is one of its parts' or the separator's.
proof fn lemma_joined_chars(parts: Seq<Seq<char>>, sep: Seq<char>, i: int)
    requires
        0 <= i < joined(parts, sep).len(),
    ensures
        sep.contains(joined(parts, sep)[i]) || exists|k: int|
            0 <= k < parts.len() && (#[trigger] parts[k]).contains(joined(parts, sep)[i]),
    decreases parts.len(),
{
    let all = joined(parts, sep);
    if parts.len() == 1 {
        assert(parts[0].contains(all[i]));
    } else if parts.len() > 1 {
        let head = joined(parts.drop_last(), sep);
        if i < head.len() {
            lemma_joined_chars(parts.drop_last(), sep, i);
            if !sep.contains(all[i]) {
                let k = choose|k: int|
                    0 <= k < parts.drop_last().len() && (#[trigger] parts.drop_last()[k]).contains(
                        head[i],
                    );
                assert(parts[k] == parts.drop_last()[k]);
            }
        } else if i < head.len() + sep.len() {
            assert(sep[i - head.len()] == all[i]);
        } else {
            assert(parts.last()[i - head.len() - sep.len()] == all[i]);
            assert(parts[parts.len() - 1].contains(all[i]));
        }
    }
}

/// The plain text of no logo holds a marker.
pub proof fn law_plain_text_has_no_markers(shape: LogoShape, i: int)
    requires
        0 <= i < joined(plain_rows(shape), seq!['\n']).len(),
    ensures
        ({
            let c = joined(plain_rows(shape), seq!['\n'])[i];
            c != '_' && c != '^' && c != '~' && c != ','
        }),
{
    let rows = plain_rows(shape);
    let c = joined(rows, seq!['\n'])[i];
    lemma_joined_chars(rows, seq!['\n'], i);
    if !seq!['\n'].contains(c) {
        let k = choose|k: int| 0 <= k < rows.len() && (#[trigger] rows[k]).contains(c);
        let row = rows[k];
        let j = choose|j: int| 0 <= j < row.len() && row[j] == c;
        let from = row_at(shape.left@, k) + repeated(' ', 2) + row_at(shape.right@, k);
        assert(row[j] == plain_glyph(from[j]));
    }
}

/// A row of the logo in colour has a span for each character and one for the gap of two
/// columns between the halves; a block keeps its character and a space stays one.
pub proof fn law_colored_row(left: Seq<char>, right: Seq<char>, fg: Color, shadow: Color, i: int)
    requires
        0 <= i < left.len(),
    ensures
        colored_row(left, right, fg, shadow).spans.len() == left.len() + 1 + right.len(),
        left[i] == '█' ==> colored_row(left, right, fg, shadow).spans[i] == styled(
            seq!['█'],
            in_color(fg),
        ),
        left[i] == ' ' ==> colored_row(left, right, fg, shadow).spans[i].content == seq![' '],
        colored_row(left, right, fg, shadow).spans[left.len() as int].content == repeated(' ', 2),
{
}

/// The logo spells the name in five rows of blocks.
pub proof fn law_logo_rows(fg: Color, shadow: Color)
    ensures
        logo_rows() == seq![
            " ██████    ██  ██     ██"@,
            "██    ██       ██       "@,
            "████████   ██  ██     ██"@,
            "██    ██   ██  ██     ██"@,
            "██    ██   ██  █████  ██"@,
        ],
        colored_logo(fg, shadow).len() == 5,
{
}

/// A row without colours has both halves with two spaces between them, each marker
/// replaced by the block that it stands for and every other character as it is.
pub proof fn law_plain_row(left: Seq<char>, right: Seq<char>, i: int)
    requires
        0 <= i < left.len(),
    ensures
        plain_row(left, right).len() == left.len() + 2 + right.len(),
        plain_row(left, right)[i] == if left[i] == '_' {
            '█'
        } else if left[i] == '^' || left[i] == '~' {
            '▀'
        } else if left[i] == ',' {
            '▄'
        } else {
            left[i]
        },
        plain_row(left, right)[left.len() as int] == ' ',
        plain_row(left, right)[left.len() as int + 1] == ' ',
{
}

/// A logo is as high as its taller half, and a missing row of the other is empty.
pub proof fn law_logo_height(shape: LogoShape, i: int)
    requires
        0 <= i < height(shape),
    ensures
        height(shape) >= shape.left@.len() && height(shape) >= shape.right@.len(),
        height(shape) == shape.left@.len() || height(shape) == shape.right@.len(),
        plain_rows(shape).len() == height(shape),
        i < shape.left@.len() ==> row_at(shape.left@, i) == shape.left@[i]@,
        i >= shape.left@.len() ==> row_at(shape.left@, i).len() == 0,
        plain_rows(shape)[i] == plain_row(row_at(shape.left@, i), row_at(shape.right@, i)),
{
}

/// The longest row is as long as one of the rows, and none is longer.
pub proof fn law_longest(rows: Seq<&'static str>)
    ensures
        forall|i: int| 0 <= i < rows.len() ==> (#[trigger] rows[i])@.len() <= longest(rows),
        rows.len() > 0 ==> exists|i: int|
            0 <= i < rows.len() && (#[trigger] rows[i])@.len() == longest(rows),
    decreases rows.len(),
{
    if rows.len() > 0 {
        let rest = rows.drop_last();
        law_longest(rest);
        assert(rows[rows.len() - 1] == rows.last());
        if rest.len() > 0 && longest(rows) == longest(rest) {
            let k = choose|k: int| 0 <= k < rest.len() && (#[trigger] rest[k])@.len() == longest(rest);
            assert(rows[k] == rest[k]);
        }
        assert forall|i: int| 0 <= i < rows.len() implies (#[trigger] rows[i])@.len() <= longest(
            rows,
        ) by {
            if i < rest.len() {
                assert(rest[i] == rows[i]);
            }
        }
    }
}

} // verus!
