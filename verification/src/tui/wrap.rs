//! Breaking text into lines of a given width.
use vstd::prelude::*;

use crate::text::{chars_of, split_char, string_of};
use crate::text::{concat, split_on, views};
use crate::text::{
    law_split_at_separator, law_split_drops_separators, law_split_has_pieces,
    law_split_without_separator,
};
use crate::text::{lemma_concat_add, lemma_concat_push};
use crate::width::char_width;
use crate::width::{char_cols, cols};

verus! {

/// Marks that close what stands before them and look wrong at the start of a line.
pub open spec fn closing_mark(c: char) -> bool {
    ||| c == '，'
    ||| c == '。'
    ||| c == '、'
    ||| c == '？'
    ||| c == '！'
    ||| c == '：'
    ||| c == '；'
    ||| c == ')'
    ||| c == ']'
    ||| c == '}'
    ||| c == '）'
    ||| c == '】'
    ||| c == '》'
    ||| c == '」'
    ||| c == '』'
}

/// The lines after one more character: it goes to the last line while that line
/// has room, else to a new one. A closing mark takes the character before it
/// along, unless that is the only one of its line.
pub open spec fn placed(lines: Seq<Seq<char>>, c: char, width: nat) -> Seq<Seq<char>> {
    let line = lines.last();
    if cols(line) == 0 || cols(line) + char_cols(c) <= width {
        lines.drop_last().push(line.push(c))
    } else if closing_mark(c) && line.len() > 1 {
        lines.drop_last().push(line.drop_last()).push(seq![line.last(), c])
    } else {
        lines.push(seq![c])
    }
}

/// The lines of a paragraph. An empty paragraph is one empty line, and a width of
/// nothing counts as one column.
pub open spec fn wrapped(text: Seq<char>, width: nat) -> Seq<Seq<char>>
    decreases text.len(),
{
    if text.len() == 0 {
        seq![seq![]]
    } else {
        placed(
            wrapped(text.drop_last(), width),
            text.last(),
            if width == 0 {
                1
            } else {
                width
            },
        )
    }
}

/// The lines of several paragraphs.
pub open spec fn wrapped_all(paragraphs: Seq<Seq<char>>, width: nat) -> Seq<Seq<char>>
    decreases paragraphs.len(),
{
    if paragraphs.len() == 0 {
        seq![]
    } else {
        wrapped_all(paragraphs.drop_last(), width) + wrapped(paragraphs.last(), width)
    }
}

/// The lines of a text whose paragraphs end at line feeds.
pub open spec fn wrapped_block(text: Seq<char>, width: nat) -> Seq<Seq<char>> {
    wrapped_all(split_on(text, '\n'), width)
}

/// No line is wider than `width`, where that is eight columns or more: room for
/// two characters of any width.
pub open spec fn lines_within(lines: Seq<Seq<char>>, width: nat) -> bool {
    forall|i: int| 0 <= i < lines.len() ==> cols(#[trigger] lines[i]) <= width || cols(lines[i]) <= 8
}

/// A closing mark that no other closing mark follows starts a line only where the
/// line before it is a single character.
pub open spec fn marks_kept(lines: Seq<Seq<char>>) -> bool {
    forall|i: int|
        1 <= i < lines.len() && closing_mark(#[trigger] lines[i][0]) && !mark_follows(lines, i)
            ==> lines[i - 1].len() == 1
}

/// The second character of line `i` and what comes after it is a closing mark.
pub open spec fn mark_follows(lines: Seq<Seq<char>>, i: int) -> bool {
    if lines[i].len() > 1 {
        closing_mark(lines[i][1])
    } else {
        i + 1 < lines.len() && closing_mark(lines[i + 1][0])
    }
}

pub fn starts_with_leading_punctuation(ch: char) -> (r: bool)
    ensures
        r == closing_mark(ch),
{
    matches!(
        ch,
        '，' | '。' | '、' | '？' | '！' | '：' | '；' | ')' | ']' | '}' | '）' | '】' | '》' | '」' | '』'
    )
}

/// Takes the last character off a line that has more than one, with its width.
pub fn pop_last_char_from_line(line: &mut Vec<char>, line_width: &mut usize) -> (r: Option<
    (char, usize),
>)
    ensures
        old(line)@.len() <= 1 ==> r is None && final(line)@ == old(line)@ && *final(line_width)
            == *old(line_width),
        old(line)@.len() > 1 ==> {
            &&& r matches Some(moved)
            &&& moved.0 == old(line)@.last()
            &&& moved.1 == char_cols(moved.0) <= 4
            &&& final(line)@ == old(line)@.drop_last()
            &&& *final(line_width) == if *old(line_width) >= moved.1 {
                *old(line_width) - moved.1
            } else {
                0
            }
        },
{
    if line.len() <= 1 {
        return None;
    }
    let at: usize = line.len() - 1;
    let ch = line[at];
    line.truncate(at);
    assert(line@ == old(line)@.drop_last());
    let width = char_width(ch);
    *line_width = if *line_width >= width {
        *line_width - width
    } else {
        0
    };
    Some((ch, width))
}

/// Breaks one paragraph into lines.
pub fn wrap_paragraph(text: &str, width: usize) -> (r: Vec<String>)
    ensures
        views(r@) == wrapped(text@, width as nat),
        lines_within(views(r@), width as nat),
{
    let cs = chars_of(text);
    let width: usize = if width == 0 {
        1
    } else {
        width
    };
    let mut out: Vec<String> = Vec::new();
    let mut line: Vec<char> = Vec::new();
    let mut line_width: usize = 0;
    let mut i: usize = 0;
    let ghost w = width as nat;
    assert(views(out@).push(line@) == wrapped(cs@.take(0), w));
    while i < cs.len()
        invariant
            i <= cs@.len(),
            w == width > 0,
            line_width == cols(line@),
            line_width <= width || line_width <= 8,
            wrapped(cs@.take(i as int), w) == views(out@).push(line@),
            lines_within(views(out@), w),
        decreases cs@.len() - i,
    {
        let ch = cs[i];
        let ch_width = char_width(ch);
        let ghost lines = views(out@).push(line@);
        let ghost done = views(out@);
        let ghost l = line@;
        assert(lines.drop_last() == done);
        assert(cs@.take(i + 1).drop_last() == cs@.take(i as int));
        let full = line_width > 0 && (line_width > width || ch_width > width - line_width);
        if full {
            if starts_with_leading_punctuation(ch) {
                match pop_last_char_from_line(&mut line, &mut line_width) {
                    Some((moved, moved_width)) => {
                        out.push(string_of(line.as_slice()));
                        assert(views(out@) == done.push(l.drop_last()));
                        line = Vec::new();
                        line.push(moved);
                        line_width = moved_width;
                        assert(line@ == seq![moved]);
                        assert(cols(seq![moved].drop_last()) == 0);
                        assert(cols(line@) == line_width);
                        assert(seq![moved].push(ch) == seq![moved, ch]);
                    },
                    None => {
                        out.push(string_of(line.as_slice()));
                        assert(views(out@) == lines);
                        line = Vec::new();
                        line_width = 0;
                    },
                }
            } else {
                out.push(string_of(line.as_slice()));
                assert(views(out@) == lines);
                line = Vec::new();
                line_width = 0;
                assert(cols(line@) == line_width);
            }
        }
        let ghost l1 = line@;
        assert(line_width == cols(l1));
        line.push(ch);
        line_width += ch_width;
        assert(line@.drop_last() == l1);
        assert(l1.len() == 0 ==> line@ == seq![ch]);
        i += 1;
    }
    assert(cs@.take(cs@.len() as int) == cs@);
    let ghost done = views(out@);
    out.push(string_of(line.as_slice()));
    assert(views(out@) == done.push(line@));
    proof {
        lemma_zero_width(text@);
    }
    out
}

/// A width of nothing wraps as one column does.
proof fn lemma_zero_width(text: Seq<char>)
    ensures
        wrapped(text, 0) == wrapped(text, 1),
    decreases text.len(),
{
    if text.len() > 0 {
        lemma_zero_width(text.drop_last());
    }
}

/// Breaks a text into lines, paragraph by paragraph.
pub fn wrap_text_block(text: &str, width: usize) -> (r: Vec<String>)
    ensures
        views(r@) == wrapped_block(text@, width as nat),
        lines_within(views(r@), width as nat),
{
    let paragraphs = split_char(text, '\n');
    let ghost all = views(paragraphs@);
    let mut out: Vec<String> = Vec::new();
    let mut i: usize = 0;
    assert(views(out@) == wrapped_all(all.take(0), width as nat));
    while i < paragraphs.len()
        invariant
            i <= paragraphs@.len(),
            all == views(paragraphs@),
            views(out@) == wrapped_all(all.take(i as int), width as nat),
            lines_within(views(out@), width as nat),
        decreases paragraphs@.len() - i,
    {
        let mut lines = wrap_paragraph(paragraphs[i].as_str(), width);
        let ghost done = views(out@);
        let ghost more = views(lines@);
        out.append(&mut lines);
        assert(views(out@) == done + more);
        assert(all.take(i + 1).drop_last() == all.take(i as int));
        assert(all.take(i + 1).last() == paragraphs@[i as int]@);
        i += 1;
    }
    assert(all.take(all.len() as int) == all);
    out
}

/// Wrapping loses and adds nothing: the lines of a paragraph, put one after the
/// other, are the paragraph.
pub proof fn law_wrap_keeps_text(text: Seq<char>, width: nat)
    ensures
        wrapped(text, width).len() > 0,
        concat(wrapped(text, width)) == text,
    decreases text.len(),
{
    let empty = Seq::<Seq<char>>::empty();
    if text.len() == 0 {
        lemma_concat_push(empty, seq![]);
        assert(empty.push(seq![]) == wrapped(text, width));
    } else {
        law_wrap_keeps_text(text.drop_last(), width);
        let lines = wrapped(text.drop_last(), width);
        let line = lines.last();
        let c = text.last();
        assert(lines.drop_last().push(line) == lines);
        let head = concat(lines.drop_last());
        lemma_concat_push(lines.drop_last(), line);
        assert(head + line == text.drop_last());
        assert(text == text.drop_last().push(c));
        lemma_concat_push(lines.drop_last(), line.push(c));
        assert(head + line.push(c) == text);
        lemma_concat_push(lines, seq![c]);
        assert(head + line + seq![c] == text);
        if line.len() > 1 {
            let kept = lines.drop_last().push(line.drop_last());
            lemma_concat_push(lines.drop_last(), line.drop_last());
            lemma_concat_push(kept, seq![line.last(), c]);
            assert(head + line.drop_last() + seq![line.last(), c] == text);
        }
    }
}

/// No line of a paragraph that has text is empty.
pub proof fn law_wrap_no_empty_line(text: Seq<char>, width: nat)
    requires
        text.len() > 0,
    ensures
        forall|i: int| 0 <= i < wrapped(text, width).len() ==> (#[trigger] wrapped(text, width)[i]).len() > 0,
    decreases text.len(),
{
    law_wrap_keeps_text(text.drop_last(), width);
    if text.len() > 1 {
        law_wrap_no_empty_line(text.drop_last(), width);
    } else {
        assert(wrapped(text.drop_last(), width) == seq![Seq::<char>::empty()]);
        assert(cols(Seq::<char>::empty()) == 0);
    }
}

/// Wrapping keeps a closing mark with the character before it: one that no other
/// closing mark follows starts a line only where the line before holds a single
/// character.
pub proof fn law_wrap_keeps_marks(text: Seq<char>, width: nat)
    ensures
        marks_kept(wrapped(text, width)),
    decreases text.len(),
{
    if text.len() > 0 {
        law_wrap_keeps_marks(text.drop_last(), width);
        law_wrap_keeps_text(text.drop_last(), width);
        if text.len() > 1 {
            law_wrap_no_empty_line(text.drop_last(), width);
        }
        let lines = wrapped(text.drop_last(), width);
        let after = wrapped(text, width);
        let k = lines.len() - 1;
        assert forall|i: int|
            1 <= i < after.len() && closing_mark(#[trigger] after[i][0]) && !mark_follows(
                after,
                i,
            ) implies after[i - 1].len() == 1 by {
            if i < k {
                assert(after[i] == lines[i]);
                assert(after[i - 1] == lines[i - 1]);
                assert(mark_follows(lines, i) == mark_follows(after, i));
            } else if i == k {
                assert(after[i - 1] == lines[i - 1]);
                assert(after[i][0] == lines[i][0]);
                assert(mark_follows(lines, i) ==> mark_follows(after, i));
            }
        }
    }
}

/// The marks that look wrong at the start of a line, and no others.
pub proof fn law_closing_marks(c: char)
    ensures
        closing_mark(c) <==> "，。、？！：；)]}）】》」』"@.contains(c),
{
    reveal_strlit("，。、？！：；)]}）】》」』");
    let all = "，。、？！：；)]}）】》」』"@;
    assert(all[0] == '，' && all[1] == '。' && all[2] == '、' && all[3] == '？');
    assert(all[4] == '！' && all[5] == '：' && all[6] == '；' && all[7] == ')');
    assert(all[8] == ']' && all[9] == '}' && all[10] == '）' && all[11] == '】');
    assert(all[12] == '》' && all[13] == '」' && all[14] == '』');
    assert(all.len() == 15);
}

/// A width of nothing wraps as one column does.
pub proof fn law_wrap_to_no_width(text: Seq<char>)
    ensures
        wrapped(text, 0) == wrapped(text, 1),
{
    lemma_zero_width(text);
}

/// What fits is not broken: a paragraph no wider than the width is its only line.
pub proof fn law_wrap_leaves_what_fits(text: Seq<char>, width: nat)
    requires
        cols(text) <= width,
    ensures
        wrapped(text, width) == seq![text],
    decreases text.len(),
{
    if text.len() == 0 {
        assert(text == Seq::<char>::empty());
    } else {
        law_wrap_leaves_what_fits(text.drop_last(), width);
        let lines = wrapped(text.drop_last(), width);
        assert(lines == seq![text.drop_last()]);
        assert(text == text.drop_last().push(text.last()));
        assert(lines.drop_last().push(text) == seq![text]);
    }
}

/// The character after the first of line `i`, where there is one.
pub open spec fn second_char(lines: Seq<Seq<char>>, i: int) -> Option<char> {
    if lines[i].len() > 1 {
        Some(lines[i][1])
    } else if i + 1 < lines.len() {
        Some(lines[i + 1][0])
    } else {
        None
    }
}

/// Line `i` is full: the character that comes next does not fit any more, or it went
/// along with a closing mark that does not.
pub open spec fn line_full(lines: Seq<Seq<char>>, i: int, width: nat) -> bool {
    let next = cols(lines[i]) + char_cols(lines[i + 1][0]);
    next > width || (second_char(lines, i + 1) matches Some(m) && closing_mark(m) && next
        + char_cols(m) > width)
}

/// A line is broken only where it is full: to every line but the last, the next
/// character does not fit any more, or it went along with a closing mark that does not.
pub proof fn law_wrap_breaks_full_lines(text: Seq<char>, width: nat)
    requires
        width > 0,
    ensures
        forall|i: int|
            0 <= i < wrapped(text, width).len() - 1 ==> #[trigger] line_full(
                wrapped(text, width),
                i,
                width,
            ),
    decreases text.len(),
{
    if text.len() > 0 {
        law_wrap_breaks_full_lines(text.drop_last(), width);
        law_wrap_keeps_text(text.drop_last(), width);
        if text.len() > 1 {
            law_wrap_no_empty_line(text.drop_last(), width);
        }
        let lines = wrapped(text.drop_last(), width);
        let after = wrapped(text, width);
        let k = lines.len() - 1;
        let line = lines.last();
        let c = text.last();
        if text.len() == 1 {
            assert(lines == seq![Seq::<char>::empty()]);
        }
        assert forall|i: int| 0 <= i < after.len() - 1 implies #[trigger] line_full(
            after,
            i,
            width,
        ) by {
            if i < k {
                assert(line_full(lines, i, width));
                assert(after[i] == lines[i]);
                assert(after[i + 1][0] == lines[i + 1][0]);
                assert(second_char(lines, i + 1) is Some ==> second_char(after, i + 1)
                    == second_char(lines, i + 1));
            } else {
                assert(i == k);
                assert(cols(line) + char_cols(c) > width);
            }
        }
    }
}

/// A line keeps to a width: it is wider only where it is a character by itself, or one
/// with the closing mark that it goes along with.
pub open spec fn keeps_to(line: Seq<char>, width: nat) -> bool {
    ||| cols(line) <= width
    ||| cols(line.drop_last()) == 0
    ||| line.len() == 2 && closing_mark(line[1])
}

/// The lines of a paragraph keep to the width.
pub proof fn law_wrap_keeps_to_width(text: Seq<char>, width: nat)
    requires
        width > 0,
    ensures
        forall|i: int|
            0 <= i < wrapped(text, width).len() ==> keeps_to(
                #[trigger] wrapped(text, width)[i],
                width,
            ),
    decreases text.len(),
{
    let empty = Seq::<char>::empty();
    assert(cols(empty) == 0);
    if text.len() > 0 {
        law_wrap_keeps_to_width(text.drop_last(), width);
        law_wrap_keeps_text(text.drop_last(), width);
        let lines = wrapped(text.drop_last(), width);
        let after = wrapped(text, width);
        let line = lines[lines.len() - 1];
        let c = text.last();
        assert forall|i: int| 0 <= i < after.len() implies keeps_to(#[trigger] after[i], width) by {
            if i < lines.len() - 1 {
                assert(after[i] == lines[i]);
            } else {
                assert(line.push(c).drop_last() == line);
                assert(seq![c].drop_last() == empty);
                if line.len() == 2 {
                    assert(line.drop_last().drop_last() == empty);
                }
            }
        }
    }
}

/// The lines of a text keep to the width.
pub proof fn law_wrap_block_keeps_to_width(text: Seq<char>, width: nat)
    requires
        width > 0,
    ensures
        forall|i: int|
            0 <= i < wrapped_block(text, width).len() ==> keeps_to(
                #[trigger] wrapped_block(text, width)[i],
                width,
            ),
{
    lemma_wrapped_all_keeps_to_width(split_on(text, '\n'), width);
}

proof fn lemma_wrapped_all_keeps_to_width(paragraphs: Seq<Seq<char>>, width: nat)
    requires
        width > 0,
    ensures
        forall|i: int|
            0 <= i < wrapped_all(paragraphs, width).len() ==> keeps_to(
                #[trigger] wrapped_all(paragraphs, width)[i],
                width,
            ),
    decreases paragraphs.len(),
{
    if paragraphs.len() > 0 {
        lemma_wrapped_all_keeps_to_width(paragraphs.drop_last(), width);
        law_wrap_keeps_to_width(paragraphs.last(), width);
        let before = wrapped_all(paragraphs.drop_last(), width);
        let more = wrapped(paragraphs.last(), width);
        assert forall|i: int| 0 <= i < (before + more).len() implies keeps_to(
            #[trigger] (before + more)[i],
            width,
        ) by {
            if i < before.len() {
                assert((before + more)[i] == before[i]);
            } else {
                assert((before + more)[i] == more[i - before.len()]);
            }
        }
    }
}

/// A paragraph by itself is a text of one paragraph.
pub proof fn law_wrap_block_of_one_paragraph(text: Seq<char>, width: nat)
    requires
        !text.contains('\n'),
    ensures
        wrapped_block(text, width) == wrapped(text, width),
{
    law_split_without_separator(text, '\n');
    let one = split_on(text, '\n');
    assert(one.drop_last() == Seq::<Seq<char>>::empty());
    assert(wrapped_all(one.drop_last(), width).len() == 0);
    assert(wrapped_all(one, width) == wrapped(text, width));
}

/// Wrapping a text loses nothing but its line feeds: the lines, put one after the
/// other, are the text without them.
pub proof fn law_wrap_block_keeps_text(text: Seq<char>, width: nat)
    ensures
        concat(wrapped_block(text, width)) == text.filter(|c: char| c != '\n'),
{
    law_split_drops_separators(text, '\n');
    lemma_wrap_all_keeps_text(split_on(text, '\n'), width);
}

/// Line feeds are kept as breaks: a text wraps to what stands before a line feed,
/// wrapped, and then what stands behind it, wrapped.
pub proof fn law_wrap_block_breaks_at_line_feeds(a: Seq<char>, b: Seq<char>, width: nat)
    ensures
        wrapped_block(a + seq!['\n'] + b, width) == wrapped_block(a, width) + wrapped_block(b, width),
{
    law_split_at_separator(a, b, '\n');
    lemma_wrapped_all_add(split_on(a, '\n'), split_on(b, '\n'), width);
}

/// A text has a line at least.
pub proof fn law_wrap_block_has_lines(text: Seq<char>, width: nat)
    ensures
        wrapped_block(text, width).len() > 0,
{
    let paragraphs = split_on(text, '\n');
    law_split_has_pieces(text, '\n');
    law_wrap_keeps_text(paragraphs.last(), width);
}

/// An empty line stays one: a text of nothing wraps to one empty line.
pub proof fn law_wrap_block_keeps_empty_lines(width: nat)
    ensures
        wrapped_block(seq![], width) == seq![Seq::<char>::empty()],
{
    let none = Seq::<char>::empty();
    let one = split_on(none, '\n');
    assert(one == seq![none]);
    assert(one.drop_last() == Seq::<Seq<char>>::empty());
    assert(wrapped_all(one.drop_last(), width).len() == 0);
    assert(wrapped(one.last(), width) == seq![none]);
    assert(wrapped_all(one, width) == seq![none]);
}

/// No line that wrapping makes has a line feed in it.
pub proof fn law_wrap_block_has_no_line_feed(text: Seq<char>, width: nat)
    ensures
        forall|i: int|
            0 <= i < wrapped_block(text, width).len() ==> !(#[trigger] wrapped_block(text, width)[i]).contains(
                '\n',
            ),
{
    law_wrap_block_keeps_text(text, width);
    let lines = wrapped_block(text, width);
    let other = |c: char| c != '\n';
    assert forall|i: int| 0 <= i < lines.len() implies !(#[trigger] lines[i]).contains('\n') by {
        if lines[i].contains('\n') {
            let k = choose|k: int| 0 <= k < lines[i].len() && lines[i][k] == '\n';
            let at = lemma_part_of_concat(lines, i, k);
            text.lemma_filter_pred(other, at);
        }
    }
}

/// Where a character of a part stands in all the parts put one after the other.
proof fn lemma_part_of_concat(parts: Seq<Seq<char>>, i: int, k: int) -> (at: int)
    requires
        0 <= i < parts.len(),
        0 <= k < parts[i].len(),
    ensures
        0 <= at < concat(parts).len(),
        concat(parts)[at] == parts[i][k],
    decreases parts.len(),
{
    if i == parts.len() - 1 {
        concat(parts.drop_last()).len() + k
    } else {
        lemma_part_of_concat(parts.drop_last(), i, k)
    }
}

proof fn lemma_wrapped_all_add(a: Seq<Seq<char>>, b: Seq<Seq<char>>, width: nat)
    ensures
        wrapped_all(a + b, width) == wrapped_all(a, width) + wrapped_all(b, width),
    decreases b.len(),
{
    if b.len() == 0 {
        assert(a + b == a);
        assert(wrapped_all(a, width) + wrapped_all(b, width) == wrapped_all(a, width));
    } else {
        lemma_wrapped_all_add(a, b.drop_last(), width);
        assert((a + b).drop_last() == a + b.drop_last());
        assert(wrapped_all(a + b, width) == wrapped_all(a, width) + wrapped_all(b, width));
    }
}

proof fn lemma_wrap_all_keeps_text(paragraphs: Seq<Seq<char>>, width: nat)
    ensures
        concat(wrapped_all(paragraphs, width)) == concat(paragraphs),
    decreases paragraphs.len(),
{
    if paragraphs.len() > 0 {
        lemma_wrap_all_keeps_text(paragraphs.drop_last(), width);
        law_wrap_keeps_text(paragraphs.last(), width);
        lemma_concat_add(
            wrapped_all(paragraphs.drop_last(), width),
            wrapped(paragraphs.last(), width),
        );
    }
}

} // verus!
