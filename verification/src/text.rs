//! Characters and strings: white space, splitting, joining, decimal numbers.
//!
//! Strings are modelled by their characters, a `Seq<char>`.
use vstd::prelude::*;

verus! {

/// `String::push` of std appends one character.
pub assume_specification[ String::push ](s: &mut String, c: char)
    ensures
        final(s)@ == old(s)@.push(c),
;

/// The characters of each of a run of strings.
pub open spec fn views(parts: Seq<String>) -> Seq<Seq<char>> {
    parts.map_values(|s: String| s@)
}

/// The Unicode property `White_Space`.
pub open spec fn white_space(c: char) -> bool {
    ||| '\u{9}' <= c <= '\u{d}'
    ||| c == '\u{20}'
    ||| c == '\u{85}'
    ||| c == '\u{a0}'
    ||| c == '\u{1680}'
    ||| '\u{2000}' <= c <= '\u{200a}'
    ||| c == '\u{2028}'
    ||| c == '\u{2029}'
    ||| c == '\u{202f}'
    ||| c == '\u{205f}'
    ||| c == '\u{3000}'
}

/// The control codes, general category `Cc`.
pub open spec fn control(c: char) -> bool {
    c <= '\u{1f}' || '\u{7f}' <= c <= '\u{9f}'
}

/// What is left of `s` without its leading white space.
pub open spec fn trim_start(s: Seq<char>) -> Seq<char>
    decreases s.len(),
{
    if s.len() > 0 && white_space(s[0]) {
        trim_start(s.drop_first())
    } else {
        s
    }
}

/// What is left of `s` without its trailing white space.
pub open spec fn trim_end(s: Seq<char>) -> Seq<char>
    decreases s.len(),
{
    if s.len() > 0 && white_space(s.last()) {
        trim_end(s.drop_last())
    } else {
        s
    }
}

/// `s` without white space at either end.
pub open spec fn trimmed(s: Seq<char>) -> Seq<char> {
    trim_end(trim_start(s))
}

/// The runs of characters of `s` between white space, in order.
pub open spec fn words(s: Seq<char>) -> Seq<Seq<char>>
    decreases s.len(),
{
    if s.len() == 0 {
        seq![]
    } else {
        let rest = words(s.drop_last());
        if white_space(s.last()) {
            rest
        } else if s.len() == 1 || white_space(s[s.len() - 2]) {
            rest.push(seq![s.last()])
        } else {
            rest.drop_last().push(rest.last().push(s.last()))
        }
    }
}

/// The pieces of `s` between the occurrences of `sep`: one more than there are
/// occurrences.
pub open spec fn split_on(s: Seq<char>, sep: char) -> Seq<Seq<char>>
    decreases s.len(),
{
    if s.len() == 0 {
        seq![seq![]]
    } else {
        let rest = split_on(s.drop_last(), sep);
        if s.last() == sep {
            rest.push(seq![])
        } else {
            rest.drop_last().push(rest.last().push(s.last()))
        }
    }
}

/// The parts one after the other.
pub open spec fn concat(parts: Seq<Seq<char>>) -> Seq<char>
    decreases parts.len(),
{
    if parts.len() == 0 {
        seq![]
    } else {
        concat(parts.drop_last()) + parts.last()
    }
}

/// The parts one after the other with `sep` between each two.
pub open spec fn joined(parts: Seq<Seq<char>>, sep: Seq<char>) -> Seq<char>
    decreases parts.len(),
{
    if parts.len() == 0 {
        seq![]
    } else if parts.len() == 1 {
        parts[0]
    } else {
        joined(parts.drop_last(), sep) + sep + parts.last()
    }
}

/// `n` times the character `c`.
pub open spec fn repeated(c: char, n: nat) -> Seq<char> {
    Seq::new(n, |i: int| c)
}

/// The decimal digit of a number below ten.
pub open spec fn digit(d: nat) -> char {
    (48 + d) as char
}

/// A number in decimal notation.
pub open spec fn decimal(n: nat) -> Seq<char>
    decreases n,
{
    if n < 10 {
        seq![digit(n)]
    } else {
        decimal(n / 10).push(digit(n % 10))
    }
}

/// `part` occurs in `s` at position `i`.
pub open spec fn occurs_at(s: Seq<char>, part: Seq<char>, i: int) -> bool {
    0 <= i && i + part.len() <= s.len() && s.subrange(i, i + part.len()) == part
}

/// `part` occurs somewhere in `s`.
pub open spec fn contains(s: Seq<char>, part: Seq<char>) -> bool {
    exists|i: int| occurs_at(s, part, i)
}

/// `s` starts with `prefix`.
pub open spec fn has_prefix(s: Seq<char>, prefix: Seq<char>) -> bool {
    occurs_at(s, prefix, 0)
}

/// The characters of a string slice.
pub fn chars_of(s: &str) -> (r: Vec<char>)
    ensures
        r@ == s@,
{
    let mut out: Vec<char> = Vec::new();
    for c in it: s.chars()
        invariant
            it.seq() == s@,
            out@ == s@.take(it.index() as int),
    {
        out.push(c);
        assert(s@.take(it.index() + 1) == s@.take(it.index() as int).push(c));
    }
    assert(s@.take(s@.len() as int) == s@);
    out
}

/// The string made of the characters from `from` up to `to`.
pub fn string_between(cs: &[char], from: usize, to: usize) -> (r: String)
    requires
        from <= to <= cs@.len(),
    ensures
        r@ == cs@.subrange(from as int, to as int),
{
    let mut out = String::new();
    let mut i: usize = from;
    while i < to
        invariant
            from <= i <= to <= cs@.len(),
            out@ == cs@.subrange(from as int, i as int),
        decreases to - i,
    {
        out.push(cs[i]);
        i += 1;
        assert(cs@.subrange(from as int, i as int) == cs@.subrange(from as int, i - 1).push(
            cs@[i - 1],
        ));
    }
    out
}

/// The string made of a run of characters.
pub fn string_of(cs: &[char]) -> (r: String)
    ensures
        r@ == cs@,
{
    let r = string_between(cs, 0, cs.len());
    assert(cs@.subrange(0, cs@.len() as int) == cs@);
    r
}

/// Whether two strings have the same characters.
pub fn same(a: &str, b: &str) -> (r: bool)
    ensures
        r == (a@ == b@),
{
    a.to_owned() == b.to_owned()
}

pub fn is_white_space(c: char) -> (r: bool)
    ensures
        r == white_space(c),
{
    ('\u{9}' <= c && c <= '\u{d}') || c == '\u{20}' || c == '\u{85}' || c == '\u{a0}' || c
        == '\u{1680}' || ('\u{2000}' <= c && c <= '\u{200a}') || c == '\u{2028}' || c == '\u{2029}'
        || c == '\u{202f}' || c == '\u{205f}' || c == '\u{3000}'
}

pub fn is_control(c: char) -> (r: bool)
    ensures
        r == control(c),
{
    c <= '\u{1f}' || ('\u{7f}' <= c && c <= '\u{9f}')
}

/// The string without white space at either end.
pub fn trim(s: &str) -> (r: String)
    ensures
        r@ == trimmed(s@),
{
    let cs = chars_of(s);
    let mut from: usize = 0;
    assert(cs@.skip(0) == cs@);
    while from < cs.len() && is_white_space(cs[from])
        invariant
            from <= cs@.len(),
            trim_start(cs@) == trim_start(cs@.skip(from as int)),
        decreases cs@.len() - from,
    {
        assert(cs@.skip(from as int).drop_first() == cs@.skip(from + 1));
        from += 1;
    }
    assert(trim_start(cs@) == cs@.skip(from as int));
    let mut to: usize = cs.len();
    assert(cs@.subrange(from as int, to as int) == cs@.skip(from as int));
    while to > from && is_white_space(cs[to - 1])
        invariant
            from <= to <= cs@.len(),
            trim_end(cs@.skip(from as int)) == trim_end(cs@.subrange(from as int, to as int)),
        decreases to,
    {
        assert(cs@.subrange(from as int, to as int).drop_last() == cs@.subrange(
            from as int,
            to - 1,
        ));
        to -= 1;
    }
    string_between(cs.as_slice(), from, to)
}

/// A copy of a run of strings.
pub fn clone_strings(parts: &[String]) -> (r: Vec<String>)
    ensures
        views(r@) == views(parts@),
{
    let mut out: Vec<String> = Vec::new();
    let mut i: usize = 0;
    while i < parts.len()
        invariant
            i <= parts@.len(),
            views(out@) == views(parts@).take(i as int),
        decreases parts@.len() - i,
    {
        let ghost done = views(out@);
        out.push(parts[i].clone());
        i += 1;
        assert(views(out@) == done.push(parts@[i - 1]@));
        assert(views(parts@).take(i as int) == done.push(parts@[i - 1]@));
    }
    assert(views(parts@).take(parts@.len() as int) == views(parts@));
    out
}

/// The words of a string.
pub fn split_words(s: &str) -> (r: Vec<String>)
    ensures
        views(r@) == words(s@),
{
    let cs = chars_of(s);
    let mut out: Vec<String> = Vec::new();
    let mut word = String::new();
    let mut i: usize = 0;
    assert(views(out@) == words(cs@.take(0)));
    while i < cs.len()
        invariant
            i <= cs@.len(),
            word@.len() > 0 <==> i > 0 && !white_space(cs@[i - 1]),
            words(cs@.take(i as int)) == if word@.len() > 0 {
                views(out@).push(word@)
            } else {
                views(out@)
            },
        decreases cs@.len() - i,
    {
        let c = cs[i];
        let ghost before = cs@.take(i as int);
        let ghost done = views(out@);
        assert(cs@.take(i + 1).drop_last() == before);
        if is_white_space(c) {
            if !word.as_str().is_empty() {
                let ghost w = word@;
                out.push(word);
                assert(views(out@) == done.push(w));
                word = String::new();
            }
        } else {
            let ghost w = word@;
            word.push(c);
            assert(done.push(w).drop_last() == done);
            assert(w.len() == 0 ==> word@ == seq![c]);
        }
        i += 1;
    }
    assert(cs@.take(cs@.len() as int) == cs@);
    if !word.as_str().is_empty() {
        let ghost done = views(out@);
        let ghost w = word@;
        out.push(word);
        assert(views(out@) == done.push(w));
    }
    out
}

/// The pieces of a string between the occurrences of a character.
pub fn split_char(s: &str, sep: char) -> (r: Vec<String>)
    ensures
        views(r@) == split_on(s@, sep),
{
    let cs = chars_of(s);
    let mut out: Vec<String> = Vec::new();
    let mut piece = String::new();
    let mut i: usize = 0;
    assert(views(out@).push(piece@) == split_on(cs@.take(0), sep));
    while i < cs.len()
        invariant
            i <= cs@.len(),
            split_on(cs@.take(i as int), sep) == views(out@).push(piece@),
        decreases cs@.len() - i,
    {
        let c = cs[i];
        let ghost done = views(out@);
        let ghost p = piece@;
        assert(cs@.take(i + 1).drop_last() == cs@.take(i as int));
        if c == sep {
            out.push(piece);
            assert(views(out@) == done.push(p));
            piece = String::new();
        } else {
            piece.push(c);
            assert(done.push(p).drop_last() == done);
        }
        i += 1;
    }
    assert(cs@.take(cs@.len() as int) == cs@);
    let ghost done = views(out@);
    let ghost p = piece@;
    out.push(piece);
    assert(views(out@) == done.push(p));
    out
}

/// The strings one after the other with `sep` between each two.
pub fn join(parts: &[String], sep: &str) -> (r: String)
    ensures
        r@ == joined(views(parts@), sep@),
{
    let mut out = String::new();
    let mut i: usize = 0;
    while i < parts.len()
        invariant
            i <= parts@.len(),
            out@ == joined(views(parts@).take(i as int), sep@),
        decreases parts@.len() - i,
    {
        let ghost all = views(parts@);
        if i > 0 {
            out.append(sep);
        }
        out.append(parts[i].as_str());
        i += 1;
        assert(all.take(i as int).drop_last() == all.take(i - 1));
        assert(all.take(i as int).last() == parts@[i - 1]@);
        if i == 1 {
            assert(out@ == parts@[0]@);
        }
    }
    assert(views(parts@).take(parts@.len() as int) == views(parts@));
    out
}

/// `n` times the character `c`.
pub fn repeat(c: char, n: usize) -> (r: String)
    ensures
        r@ == repeated(c, n as nat),
{
    let mut out = String::new();
    let mut i: usize = 0;
    assert(out@ == repeated(c, 0));
    while i < n
        invariant
            i <= n,
            out@ == repeated(c, i as nat),
        decreases n - i,
    {
        out.push(c);
        i += 1;
        assert(repeated(c, i as nat) == repeated(c, (i - 1) as nat).push(c));
    }
    out
}

/// A number in decimal notation.
pub fn to_decimal(n: u64) -> (r: String)
    ensures
        r@ == decimal(n as nat),
    decreases n,
{
    let last = (48u8 + (n % 10) as u8) as char;
    let mut out = if n < 10 {
        String::new()
    } else {
        to_decimal(n / 10)
    };
    out.push(last);
    assert(n < 10 ==> out@ == seq![digit(n as nat)]);
    out
}

/// Whether `part` occurs in `s` at position `at`.
fn matches_at(s: &[char], part: &[char], at: usize) -> (r: bool)
    requires
        at + part@.len() <= s@.len(),
    ensures
        r == occurs_at(s@, part@, at as int),
{
    let n: usize = s.len();
    let mut i: usize = 0;
    while i < part.len()
        invariant
            i <= part@.len(),
            at + part@.len() <= s@.len() == n,
            forall|j: int| 0 <= j < i ==> s@[at + j] == #[trigger] part@[j],
        decreases part@.len() - i,
    {
        if s[at + i] != part[i] {
            assert(s@.subrange(at as int, at + part@.len())[i as int] != part@[i as int]);
            return false;
        }
        i += 1;
    }
    assert(s@.subrange(at as int, at + part@.len()) == part@);
    true
}

/// Whether `part` occurs in `s`.
pub fn has_part(s: &str, part: &str) -> (r: bool)
    ensures
        r == contains(s@, part@),
{
    let cs = chars_of(s);
    let ps = chars_of(part);
    if ps.len() > cs.len() {
        return false;
    }
    let last: usize = cs.len() - ps.len();
    let mut i: usize = 0;
    loop
        invariant
            ps@ == part@,
            cs@ == s@,
            last == cs@.len() - ps@.len(),
            i <= last,
            forall|j: int| 0 <= j < i ==> !occurs_at(s@, part@, j),
        decreases last - i,
    {
        if matches_at(cs.as_slice(), ps.as_slice(), i) {
            return true;
        }
        if i == last {
            return false;
        }
        i += 1;
    }
}

/// What follows `prefix` in `s`, where `s` starts with it.
pub fn strip_prefix(s: &str, prefix: &str) -> (r: Option<String>)
    ensures
        match r {
            Some(rest) => has_prefix(s@, prefix@) && rest@ == s@.skip(prefix@.len() as int),
            None => !has_prefix(s@, prefix@),
        },
{
    let cs = chars_of(s);
    let ps = chars_of(prefix);
    if ps.len() > cs.len() || !matches_at(cs.as_slice(), ps.as_slice(), 0) {
        return None;
    }
    let rest = string_between(cs.as_slice(), ps.len(), cs.len());
    assert(rest@ == s@.skip(prefix@.len() as int));
    Some(rest)
}

pub proof fn lemma_concat_push(lines: Seq<Seq<char>>, line: Seq<char>)
    ensures
        concat(lines.push(line)) == concat(lines) + line,
{
    assert(lines.push(line).drop_last() == lines);
}

pub proof fn lemma_concat_add(a: Seq<Seq<char>>, b: Seq<Seq<char>>)
    ensures
        concat(a + b) == concat(a) + concat(b),
    decreases b.len(),
{
    if b.len() == 0 {
        assert(a + b == a);
    } else {
        lemma_concat_add(a, b.drop_last());
        assert((a + b).drop_last() == a + b.drop_last());
        assert(concat(a + b) == concat(a) + concat(b));
    }
}

/// A text has at least one piece.
proof fn lemma_split_len(s: Seq<char>, sep: char)
    ensures
        split_on(s, sep).len() > 0,
    decreases s.len(),
{
    if s.len() > 0 {
        lemma_split_len(s.drop_last(), sep);
    }
}

/// The pieces of a text, put one after the other, are the text without its
/// separators.
pub proof fn law_split_drops_separators(s: Seq<char>, sep: char)
    ensures
        concat(split_on(s, sep)) == s.filter(|c: char| c != sep),
    decreases s.len(),
{
    reveal(Seq::filter);
    if s.len() == 0 {
        lemma_concat_push(seq![], seq![]);
        assert(Seq::<Seq<char>>::empty().push(seq![]) == split_on(s, sep));
    } else {
        law_split_drops_separators(s.drop_last(), sep);
        lemma_split_len(s.drop_last(), sep);
        let rest = split_on(s.drop_last(), sep);
        assert(rest.drop_last().push(rest.last()) == rest);
        lemma_concat_push(rest.drop_last(), rest.last());
        lemma_concat_push(rest, seq![]);
        lemma_concat_push(rest.drop_last(), rest.last().push(s.last()));
        assert(concat(split_on(s, sep)) == s.filter(|c: char| c != sep));
    }
}

/// A text has a piece at least.
pub proof fn law_split_has_pieces(s: Seq<char>, sep: char)
    ensures
        split_on(s, sep).len() > 0,
{
    lemma_split_len(s, sep);
}

/// A text without the separator is its only piece.
pub proof fn law_split_without_separator(s: Seq<char>, sep: char)
    requires
        !s.contains(sep),
    ensures
        split_on(s, sep) == seq![s],
    decreases s.len(),
{
    if s.len() == 0 {
        assert(s == Seq::<char>::empty());
    } else {
        assert(s.last() != sep) by {
            assert(s[s.len() - 1] == s.last());
        }
        assert(!s.drop_last().contains(sep)) by {
            assert forall|i: int| 0 <= i < s.drop_last().len() implies s.drop_last()[i] != sep by {
                assert(s[i] == s.drop_last()[i]);
            }
        }
        law_split_without_separator(s.drop_last(), sep);
        assert(s == s.drop_last().push(s.last()));
        assert(split_on(s, sep) == seq![s]);
    }
}

/// Splitting goes piece by piece: what stands before a separator and what stands
/// behind it are split on their own.
pub proof fn law_split_at_separator(a: Seq<char>, b: Seq<char>, sep: char)
    ensures
        split_on(a + seq![sep] + b, sep) == split_on(a, sep) + split_on(b, sep),
    decreases b.len(),
{
    let s = a + seq![sep] + b;
    if b.len() == 0 {
        assert(s.drop_last() == a);
        assert(split_on(s, sep) == split_on(a, sep) + split_on(b, sep));
    } else {
        let c = b.last();
        assert(s.drop_last() == a + seq![sep] + b.drop_last());
        law_split_at_separator(a, b.drop_last(), sep);
        lemma_split_len(b.drop_last(), sep);
        let rest = split_on(b.drop_last(), sep);
        let before = split_on(a, sep);
        assert((before + rest).drop_last() == before + rest.drop_last());
        assert(split_on(s, sep) == before + split_on(b, sep));
    }
}

/// Joining undoes splitting: the pieces of a text with the separator between each
/// two are the text.
pub proof fn law_join_undoes_split(s: Seq<char>, sep: char)
    ensures
        joined(split_on(s, sep), seq![sep]) == s,
    decreases s.len(),
{
    if s.len() > 0 {
        law_join_undoes_split(s.drop_last(), sep);
        lemma_split_len(s.drop_last(), sep);
        let rest = split_on(s.drop_last(), sep);
        assert(rest.push(seq![]).drop_last() == rest);
        assert(rest.drop_last().push(rest.last().push(s.last())).drop_last() == rest.drop_last());
        assert(s == s.drop_last().push(s.last()));
        assert(joined(split_on(s, sep), seq![sep]) == s);
    }
}

/// Splitting undoes joining, where no part has the separator in it.
pub proof fn law_split_undoes_join(parts: Seq<Seq<char>>, sep: char)
    requires
        parts.len() > 0,
        forall|i: int| 0 <= i < parts.len() ==> !(#[trigger] parts[i]).contains(sep),
    ensures
        split_on(joined(parts, seq![sep]), sep) == parts,
    decreases parts.len(),
{
    if parts.len() == 1 {
        law_split_without_separator(parts[0], sep);
        assert(parts == seq![parts[0]]);
    } else {
        let rest = parts.drop_last();
        let last = parts[parts.len() - 1];
        assert forall|i: int| 0 <= i < rest.len() implies !(#[trigger] rest[i]).contains(sep) by {
            assert(rest[i] == parts[i]);
        }
        law_split_undoes_join(rest, sep);
        law_split_without_separator(last, sep);
        law_split_at_separator(joined(rest, seq![sep]), last, sep);
        assert(parts == rest + seq![last]);
    }
}

/// One part by itself is all there is, and parts go one after the other.
pub proof fn law_concat(part: Seq<char>, a: Seq<Seq<char>>, b: Seq<Seq<char>>)
    ensures
        concat(seq![part]) == part,
        concat(a + b) == concat(a) + concat(b),
{
    lemma_concat_push(seq![], part);
    assert(Seq::<Seq<char>>::empty().push(part) == seq![part]);
    lemma_concat_add(a, b);
}

proof fn lemma_trim_start(s: Seq<char>) -> (n: int)
    ensures
        0 <= n <= s.len(),
        trim_start(s) == s.skip(n),
        forall|i: int| 0 <= i < n ==> white_space(#[trigger] s[i]),
        n < s.len() ==> !white_space(s[n]),
    decreases s.len(),
{
    if s.len() > 0 && white_space(s[0]) {
        let rest = s.drop_first();
        let n = lemma_trim_start(rest);
        assert(rest.skip(n) == s.skip(n + 1));
        assert forall|i: int| 0 <= i < n + 1 implies white_space(#[trigger] s[i]) by {
            if i > 0 {
                assert(rest[i - 1] == s[i]);
            }
        }
        assert(n < rest.len() ==> rest[n] == s[n + 1]);
        n + 1
    } else {
        assert(s.skip(0) == s);
        0
    }
}

proof fn lemma_trim_end(s: Seq<char>) -> (n: int)
    ensures
        0 <= n <= s.len(),
        trim_end(s) == s.take(n),
        forall|i: int| n <= i < s.len() ==> white_space(#[trigger] s[i]),
        n > 0 ==> !white_space(s[n - 1]),
    decreases s.len(),
{
    if s.len() > 0 && white_space(s.last()) {
        let rest = s.drop_last();
        let n = lemma_trim_end(rest);
        assert(rest.take(n) == s.take(n));
        assert forall|i: int| n <= i < s.len() implies white_space(#[trigger] s[i]) by {
            if i < rest.len() {
                assert(rest[i] == s[i]);
            }
        }
        n
    } else {
        assert(s.take(s.len() as int) == s);
        s.len() as int
    }
}

/// Trimming takes off white space at both ends, all of it, and nothing else: what is
/// left is a part of the text with only white space before and behind it, and neither
/// starts nor ends with any.
pub proof fn law_trimmed(s: Seq<char>) -> (bounds: (int, int))
    ensures
        0 <= bounds.0 <= bounds.1 <= s.len(),
        trimmed(s) == s.subrange(bounds.0, bounds.1),
        forall|i: int| 0 <= i < bounds.0 ==> white_space(#[trigger] s[i]),
        forall|i: int| bounds.1 <= i < s.len() ==> white_space(#[trigger] s[i]),
        trimmed(s).len() > 0 ==> !white_space(trimmed(s).first()) && !white_space(
            trimmed(s).last(),
        ),
{
    let from = lemma_trim_start(s);
    let rest = s.skip(from);
    let n = lemma_trim_end(rest);
    assert(rest.take(n) == s.subrange(from, from + n));
    assert forall|i: int| from + n <= i < s.len() implies white_space(#[trigger] s[i]) by {
        assert(rest[i - from] == s[i]);
    }
    if n > 0 {
        assert(rest[0] == s[from]);
        if white_space(s[from]) {
            assert(from < s.len());
        }
    }
    (from, from + n)
}

proof fn lemma_words_some(s: Seq<char>)
    requires
        s.len() > 0,
        !white_space(s.last()),
    ensures
        words(s).len() > 0,
    decreases s.len(),
{
    if s.len() > 1 && !white_space(s[s.len() - 2]) {
        lemma_words_some(s.drop_last());
    }
}

/// White space parts words: what stands before it and what stands behind it have
/// their words on their own.
pub proof fn law_words_at_space(a: Seq<char>, space: char, b: Seq<char>)
    requires
        white_space(space),
    ensures
        words(a + seq![space] + b) == words(a) + words(b),
    decreases b.len(),
{
    let s = a + seq![space] + b;
    if b.len() == 0 {
        assert(s.drop_last() == a);
        assert(words(a) + words(b) == words(a));
    } else {
        let rest = b.drop_last();
        let c = b.last();
        law_words_at_space(a, space, rest);
        assert(s.drop_last() == a + seq![space] + rest);
        assert(s.last() == c);
        if !white_space(c) {
            if b.len() == 1 {
                assert(s[s.len() - 2] == space);
                assert(words(rest) == Seq::<Seq<char>>::empty());
            } else {
                assert(s[s.len() - 2] == b[b.len() - 2]);
                assert(b[b.len() - 2] == rest.last());
                if !white_space(rest.last()) {
                    lemma_words_some(rest);
                    assert((words(a) + words(rest)).drop_last() == words(a) + words(rest).drop_last());
                }
            }
        }
        assert(words(s) == words(a) + words(b));
    }
}

/// A text without white space is one word; a text of nothing has none.
pub proof fn law_word(s: Seq<char>)
    requires
        forall|i: int| 0 <= i < s.len() ==> !white_space(#[trigger] s[i]),
    ensures
        s.len() > 0 ==> words(s) == seq![s],
        s.len() == 0 ==> words(s).len() == 0,
    decreases s.len(),
{
    if s.len() > 0 {
        let rest = s.drop_last();
        assert forall|i: int| 0 <= i < rest.len() implies !white_space(#[trigger] rest[i]) by {
            assert(rest[i] == s[i]);
        }
        law_word(rest);
        assert(!white_space(s[s.len() - 1]));
        assert(s == rest.push(s.last()));
        if s.len() > 1 {
            assert(!white_space(s[s.len() - 2]));
            assert(words(s) == seq![s]);
        } else {
            assert(s == seq![s.last()]);
            assert(words(s) == seq![s]);
        }
    }
}

/// The number that decimal digits stand for.
pub open spec fn value_of(digits: Seq<char>) -> int
    decreases digits.len(),
{
    if digits.len() == 0 {
        0
    } else {
        10 * value_of(digits.drop_last()) + (digits.last() as int - 48)
    }
}

/// A number in decimal notation is read as that number; it is made of digits, and
/// starts with a zero only where it is one.
pub proof fn law_decimal_reads_back(n: nat)
    ensures
        value_of(decimal(n)) == n,
        decimal(n).len() > 0,
        forall|i: int| 0 <= i < decimal(n).len() ==> '0' <= #[trigger] decimal(n)[i] <= '9',
        n > 0 ==> decimal(n)[0] != '0',
    decreases n,
{
    assert(value_of(Seq::<char>::empty()) == 0);
    if n < 10 {
        assert(decimal(n).drop_last() == Seq::<char>::empty());
    } else {
        law_decimal_reads_back(n / 10);
        assert(decimal(n).drop_last() == decimal(n / 10));
    }
}

/// A character repeated is that character as often as it should be, and nothing else.
pub proof fn law_repeated(c: char, n: nat, i: int)
    requires
        0 <= i < n,
    ensures
        repeated(c, n).len() == n,
        repeated(c, n)[i] == c,
{
}

/// A part occurs where it stands between what is before and what is behind it, and a
/// text starts with its prefix.
pub proof fn law_contains(before: Seq<char>, part: Seq<char>, after: Seq<char>)
    ensures
        contains(before + part + after, part),
        has_prefix(part + after, part),
        contains(before, part) ==> part.len() <= before.len(),
{
    let s = before + part + after;
    let at = before.len() as int;
    assert(s.subrange(at, at + part.len()) == part);
    assert(occurs_at(s, part, at));
    assert((part + after).subrange(0, part.len() as int) == part);
}

} // verus!
