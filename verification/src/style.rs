//! Styled text: what is shown, and in which colours.
use vstd::prelude::*;

verus! {

#[derive(Debug, Clone, Copy, PartialEq, Eq, Structural)]
pub enum Color {
    Reset,
    Green,
    Yellow,
    Cyan,
    Gray,
    DarkGray,
    LightCyan,
    White,
    Rgb(u8, u8, u8),
}

#[derive(Debug, Clone, Copy, PartialEq, Eq, Structural)]
pub enum Alignment {
    Left,
    Center,
    Right,
}

#[derive(Debug, Clone, Copy, PartialEq, Eq, Structural)]
pub struct Style {
    pub fg: Option<Color>,
    pub bg: Option<Color>,
    pub bold: bool,
}

/// A run of text in one style.
#[derive(Debug, PartialEq, Eq)]
pub struct Span {
    pub content: String,
    pub style: Style,
}

/// A line of text.
#[derive(Debug, PartialEq, Eq)]
pub struct Line {
    pub style: Style,
    pub alignment: Option<Alignment>,
    pub spans: Vec<Span>,
}

/// What a span holds.
pub struct SpanView {
    pub content: Seq<char>,
    pub style: Style,
}

/// What a line holds.
#[verifier::ext_equal]
pub struct LineView {
    pub style: Style,
    pub alignment: Option<Alignment>,
    pub spans: Seq<SpanView>,
}

impl View for Span {
    type V = SpanView;

    open spec fn view(&self) -> SpanView {
        SpanView { content: self.content@, style: self.style }
    }
}

impl View for Line {
    type V = LineView;

    open spec fn view(&self) -> LineView {
        LineView {
            style: self.style,
            alignment: self.alignment,
            spans: span_views(self.spans@),
        }
    }
}

/// What each of a run of spans holds.
pub open spec fn span_views(spans: Seq<Span>) -> Seq<SpanView> {
    spans.map_values(|s: Span| s@)
}

/// What each of a run of lines holds.
pub open spec fn line_views(lines: Seq<Line>) -> Seq<LineView> {
    lines.map_values(|l: Line| l@)
}

/// No colour and no emphasis.
pub open spec fn plain() -> Style {
    Style { fg: None, bg: None, bold: false }
}

/// Text in one colour.
pub open spec fn in_color(c: Color) -> Style {
    Style { fg: Some(c), bg: None, bold: false }
}

/// Bold text in one colour.
pub open spec fn in_bold(c: Color) -> Style {
    Style { fg: Some(c), bg: None, bold: true }
}

/// A run of text in a style.
pub open spec fn styled(content: Seq<char>, style: Style) -> SpanView {
    SpanView { content, style }
}

/// A line of spans.
pub open spec fn line_of(spans: Seq<SpanView>) -> LineView {
    LineView { style: plain(), alignment: None, spans }
}

/// A line of text in one style.
pub open spec fn styled_line(content: Seq<char>, style: Style) -> LineView {
    line_of(seq![styled(content, style)])
}

/// A line of text in no style; without text it has no span either.
pub open spec fn plain_line(content: Seq<char>) -> LineView {
    if content.len() == 0 {
        line_of(seq![])
    } else {
        styled_line(content, plain())
    }
}

/// Lines of text in one style.
pub open spec fn styled_lines(texts: Seq<Seq<char>>, style: Style) -> Seq<LineView> {
    texts.map_values(|t: Seq<char>| styled_line(t, style))
}

/// Lines of text in no style.
pub open spec fn plain_lines(texts: Seq<Seq<char>>) -> Seq<LineView> {
    texts.map_values(|t: Seq<char>| plain_line(t))
}

impl Style {
    /// Text in one colour.
    pub fn fg(c: Color) -> (r: Style)
        ensures
            r == in_color(c),
    {
        Style { fg: Some(c), bg: None, bold: false }
    }

    /// Bold text in one colour.
    pub fn bold(c: Color) -> (r: Style)
        ensures
            r == in_bold(c),
    {
        Style { fg: Some(c), bg: None, bold: true }
    }
}

impl Default for Style {
    fn default() -> (r: Style)
        ensures
            r == plain(),
    {
        Style { fg: None, bg: None, bold: false }
    }
}

impl Span {
    pub fn styled(content: String, style: Style) -> (r: Span)
        ensures
            r@ == styled(content@, style),
    {
        Span { content, style }
    }

    pub fn raw(content: String) -> (r: Span)
        ensures
            r@ == styled(content@, plain()),
    {
        Span { content, style: Style::default() }
    }
}

impl Clone for Span {
    fn clone(&self) -> (r: Span)
        ensures
            r@ == self@,
    {
        Span { content: self.content.clone(), style: self.style }
    }
}

impl Line {
    /// A line of spans.
    pub fn of(spans: Vec<Span>) -> (r: Line)
        ensures
            r@ == line_of(span_views(spans@)),
    {
        Line { style: Style::default(), alignment: None, spans }
    }

    /// A line of text in one style.
    pub fn styled(content: String, style: Style) -> (r: Line)
        ensures
            r@ == styled_line(content@, style),
    {
        let r = Line::of(vec![Span::styled(content, style)]);
        assert(r@.spans == seq![styled(content@, style)]);
        r
    }

    /// A line of text in no style; without text it has no span either.
    pub fn raw(content: String) -> (r: Line)
        ensures
            r@ == plain_line(content@),
    {
        if content.as_str().is_empty() {
            let r = Line::of(Vec::new());
            assert(r@.spans == Seq::<SpanView>::empty());
            r
        } else {
            Line::styled(content, Style::default())
        }
    }

    /// An empty line.
    pub fn blank() -> (r: Line)
        ensures
            r@ == plain_line(seq![]),
    {
        Line::raw(String::new())
    }
}

/// A copy of a run of spans.
pub fn clone_spans(spans: &[Span]) -> (r: Vec<Span>)
    ensures
        span_views(r@) == span_views(spans@),
{
    let mut out: Vec<Span> = Vec::new();
    let mut i: usize = 0;
    while i < spans.len()
        invariant
            i <= spans@.len(),
            span_views(out@) == span_views(spans@).take(i as int),
        decreases spans@.len() - i,
    {
        let ghost done = span_views(out@);
        out.push(spans[i].clone());
        i += 1;
        assert(span_views(out@) == done.push(spans@[i - 1]@));
        assert(span_views(spans@).take(i as int) == done.push(spans@[i - 1]@));
    }
    assert(span_views(spans@).take(spans@.len() as int) == span_views(spans@));
    out
}

impl Clone for Line {
    fn clone(&self) -> (r: Line)
        ensures
            r@ == self@,
    {
        Line {
            style: self.style,
            alignment: self.alignment,
            spans: clone_spans(self.spans.as_slice()),
        }
    }
}

/// Lines of text, set one way.
#[derive(Debug, PartialEq, Eq)]
pub struct Paragraph {
    pub lines: Vec<Line>,
    pub alignment: Alignment,
}

/// What a paragraph holds.
#[verifier::ext_equal]
pub struct ParagraphView {
    pub lines: Seq<LineView>,
    pub alignment: Alignment,
}

impl View for Paragraph {
    type V = ParagraphView;

    open spec fn view(&self) -> ParagraphView {
        ParagraphView { lines: line_views(self.lines@), alignment: self.alignment }
    }
}

/// A paragraph of one line.
pub open spec fn one_line(line: LineView, alignment: Alignment) -> ParagraphView {
    ParagraphView { lines: seq![line], alignment }
}

impl Paragraph {
    /// A paragraph of one line.
    pub fn of_line(line: Line, alignment: Alignment) -> (r: Paragraph)
        ensures
            r@ == one_line(line@, alignment),
    {
        let r = Paragraph { lines: vec![line], alignment };
        assert(r@.lines == seq![line@]);
        r
    }
}

/// Adds one span.
pub fn push_span(spans: &mut Vec<Span>, span: Span)
    ensures
        span_views(final(spans)@) == span_views(old(spans)@).push(span@),
{
    spans.push(span);
    assert(span_views(spans@) == span_views(old(spans)@).push(span@));
}

/// Adds one line.
pub fn push_line(lines: &mut Vec<Line>, line: Line)
    ensures
        line_views(final(lines)@) == line_views(old(lines)@).push(line@),
{
    lines.push(line);
    assert(line_views(lines@) == line_views(old(lines)@).push(line@));
}

/// Text has the colour that it is set in, on no ground of its own, and is bold only
/// where it should be.
pub proof fn law_styles(c: Color, text: Seq<char>, style: Style)
    ensures
        in_color(c).fg == Some(c) && in_color(c).bg is None && !in_color(c).bold,
        in_bold(c).fg == Some(c) && in_bold(c).bg is None && in_bold(c).bold,
        plain().fg is None && plain().bg is None && !plain().bold,
        styled_line(text, style).spans.len() == 1,
        styled_line(text, style).spans[0].content == text,
        styled_line(text, style).spans[0].style == style,
        styled_line(text, style).alignment is None,
{
}

/// Texts make a line each, in order.
pub proof fn law_lines_of_texts(texts: Seq<Seq<char>>, style: Style, i: int)
    requires
        0 <= i < texts.len(),
    ensures
        styled_lines(texts, style).len() == texts.len(),
        styled_lines(texts, style)[i] == styled_line(texts[i], style),
        plain_lines(texts).len() == texts.len(),
        plain_lines(texts)[i] == plain_line(texts[i]),
{
}

} // verus!
