//! The file of API keys: its entries, in the order of their names, as TOML.
use vstd::prelude::*;

use crate::provider::API_KEY_ENV;
use crate::text::chars_of;
use crate::text::same;

verus! {

/// An entry: a name and its value.
pub type EntryView = (Seq<char>, Seq<char>);

/// The access mode of the file: nobody but its owner reads or writes it.
pub const SECRETS_MODE: u32 = 0o600;

/// What the file starts with.
pub const SECRETS_HEADER: &'static str = "# Aili secrets — chmod 600. Do not commit.\n[keys]\n";

/// The names and values of a run of entries.
pub open spec fn entry_views(entries: Seq<(String, String)>) -> Seq<EntryView> {
    entries.map_values(|e: (String, String)| (e.0@, e.1@))
}

/// No name occurs twice.
pub open spec fn distinct(entries: Seq<EntryView>) -> bool {
    forall|i: int, j: int|
        0 <= i < j < entries.len() ==> (#[trigger] entries[i]).0 != (#[trigger] entries[j]).0
}

/// The entry `name = value` is among `entries`.
pub open spec fn holds(entries: Seq<EntryView>, name: Seq<char>, value: Seq<char>) -> bool {
    entries.contains((name, value))
}

/// Some entry is called `name`.
pub open spec fn names(entries: Seq<EntryView>, name: Seq<char>) -> bool {
    exists|i: int| 0 <= i < entries.len() && (#[trigger] entries[i]).0 == name
}

/// `a` comes before `b` in the order of strings: by the first character in which
/// they differ, a prefix first.
pub open spec fn before(a: Seq<char>, b: Seq<char>) -> bool
    decreases a.len(),
{
    if b.len() == 0 {
        false
    } else if a.len() == 0 {
        true
    } else {
        a[0] < b[0] || (a[0] == b[0] && before(a.drop_first(), b.drop_first()))
    }
}

/// Each entry's name comes before the names of those after it.
pub open spec fn sorted(entries: Seq<EntryView>) -> bool {
    forall|i: int, j: int|
        0 <= i < j < entries.len() ==> before((#[trigger] entries[i]).0, (#[trigger] entries[j]).0)
}

/// `after` holds what `entries` holds, with `name` set to `value`.
pub open spec fn updated(
    entries: Seq<EntryView>,
    name: Seq<char>,
    value: Seq<char>,
    after: Seq<EntryView>,
) -> bool {
    forall|n: Seq<char>, v: Seq<char>| #[trigger]
        holds(after, n, v) <==> if n == name {
            v == value
        } else {
            holds(entries, n, v)
        }
}

/// `value` as the inside of a quoted TOML string: a backslash before each
/// backslash and each quote.
pub open spec fn escaped(value: Seq<char>) -> Seq<char>
    decreases value.len(),
{
    if value.len() == 0 {
        seq![]
    } else {
        escape(value[0]) + escaped(value.drop_first())
    }
}

/// One character of a quoted TOML string.
pub open spec fn escape(c: char) -> Seq<char> {
    if c == '\\' || c == '"' {
        seq!['\\', c]
    } else {
        seq![c]
    }
}

/// A quoted TOML string from behind its opening quote.
pub open spec fn quoted(value: Seq<char>) -> Seq<char> {
    escaped(value).push('"')
}

/// A character that a quoted TOML string may hold: none of control but the tab.
pub open spec fn quotable_char(c: char) -> bool {
    c == '\t' || (c >= '\u{20}' && c != '\u{7f}')
}

/// A value that a quoted TOML string may hold.
pub open spec fn quotable(value: Seq<char>) -> bool {
    forall|i: int| 0 <= i < value.len() ==> quotable_char(#[trigger] value[i])
}

/// What a quoted TOML string says, read from behind its opening quote, and what stands
/// behind its closing one. Of the escapes it knows the two that are written here.
pub open spec fn read_quoted(s: Seq<char>) -> Option<(Seq<char>, Seq<char>)>
    decreases s.len(),
{
    if s.len() == 0 {
        None
    } else if s[0] == '"' {
        Some((seq![], s.skip(1)))
    } else if s[0] == '\\' {
        if s.len() > 1 && (s[1] == '\\' || s[1] == '"') {
            match read_quoted(s.skip(2)) {
                Some((value, rest)) => Some((seq![s[1]] + value, rest)),
                None => None,
            }
        } else {
            None
        }
    } else if quotable_char(s[0]) {
        match read_quoted(s.skip(1)) {
            Some((value, rest)) => Some((seq![s[0]] + value, rest)),
            None => None,
        }
    } else {
        None
    }
}

/// A character of a TOML name that needs no quotes.
pub open spec fn bare_char(c: char) -> bool {
    'a' <= c <= 'z' || 'A' <= c <= 'Z' || '0' <= c <= '9' || c == '_' || c == '-'
}

/// A TOML name that needs no quotes.
pub open spec fn bare(name: Seq<char>) -> bool {
    name.len() > 0 && forall|i: int| 0 <= i < name.len() ==> bare_char(#[trigger] name[i])
}

/// How many characters of a name `s` starts with.
pub open spec fn bare_len(s: Seq<char>) -> nat
    decreases s.len(),
{
    if s.len() == 0 || !bare_char(s[0]) {
        0
    } else {
        1 + bare_len(s.skip(1))
    }
}

/// The entry in the first line of `s`, and what stands behind that line.
pub open spec fn read_entry(s: Seq<char>) -> Option<(EntryView, Seq<char>)> {
    let n = bare_len(s) as int;
    if n > 0 && " = \""@.is_prefix_of(s.skip(n)) {
        match read_quoted(s.skip(n).skip(" = \""@.len() as int)) {
            Some((value, rest)) => if rest.len() > 0 && rest[0] == '\n' {
                Some(((s.take(n), value), rest.skip(1)))
            } else {
                None
            },
            None => None,
        }
    } else {
        None
    }
}

/// The entries in the lines of `s`, of which there are `count`.
pub open spec fn read_entries(s: Seq<char>, count: nat) -> Option<Seq<EntryView>>
    decreases count,
{
    if count == 0 {
        if s.len() == 0 {
            Some(seq![])
        } else {
            None
        }
    } else {
        match read_entry(s) {
            Some((e, rest)) => match read_entries(rest, (count - 1) as nat) {
                Some(es) => Some(seq![e] + es),
                None => None,
            },
            None => None,
        }
    }
}

/// `body` is a file that says `entries`.
pub open spec fn file_says(body: Seq<char>, entries: Seq<EntryView>) -> bool {
    SECRETS_HEADER@.is_prefix_of(body) && read_entries(
        body.skip(SECRETS_HEADER@.len() as int),
        entries.len(),
    ) == Some(entries)
}

/// Entries that can be written: the names need no quotes, and the values fit into
/// quoted strings.
pub open spec fn writable(entries: Seq<EntryView>) -> bool {
    forall|i: int|
        0 <= i < entries.len() ==> bare((#[trigger] entries[i]).0) && quotable(entries[i].1)
}

/// One line of the file.
pub open spec fn entry_line(e: EntryView) -> Seq<char> {
    e.0 + " = \""@ + quoted(e.1) + "\n"@
}

/// The lines of the file.
pub open spec fn entry_lines(entries: Seq<EntryView>) -> Seq<char>
    decreases entries.len(),
{
    if entries.len() == 0 {
        seq![]
    } else {
        entry_lines(entries.drop_last()) + entry_line(entries.last())
    }
}

/// The whole file.
pub open spec fn secrets_file(entries: Seq<EntryView>) -> Seq<char> {
    SECRETS_HEADER@ + entry_lines(entries)
}

/// `body` is the file of what `current` holds with the API key set to `key`, its
/// entries in order.
pub open spec fn merged(current: Seq<EntryView>, key: Seq<char>, body: Seq<char>) -> bool {
    exists|entries: Seq<EntryView>| #[trigger]
        sorted(entries) && updated(current, API_KEY_ENV@, key, entries) && body == secrets_file(
            entries,
        )
}

proof fn lemma_before_irreflexive(a: Seq<char>)
    ensures
        !before(a, a),
    decreases a.len(),
{
    if a.len() > 0 {
        lemma_before_irreflexive(a.drop_first());
    }
}

proof fn lemma_before_transitive(a: Seq<char>, b: Seq<char>, c: Seq<char>)
    requires
        before(a, b),
        before(b, c),
    ensures
        before(a, c),
    decreases a.len(),
{
    if a.len() > 0 && b.len() > 0 && c.len() > 0 && a[0] == b[0] && b[0] == c[0] {
        lemma_before_transitive(a.drop_first(), b.drop_first(), c.drop_first());
    }
}

proof fn lemma_before_total(a: Seq<char>, b: Seq<char>)
    ensures
        before(a, b) || a == b || before(b, a),
    decreases a.len(),
{
    if a.len() > 0 && b.len() > 0 && a[0] == b[0] {
        lemma_before_total(a.drop_first(), b.drop_first());
        if a.drop_first() == b.drop_first() {
            assert(a == seq![a[0]] + a.drop_first());
            assert(b == seq![b[0]] + b.drop_first());
        }
    } else if a.len() == 0 && b.len() == 0 {
        assert(a == b);
    }
}

proof fn lemma_sorted_distinct(entries: Seq<EntryView>)
    requires
        sorted(entries),
    ensures
        distinct(entries),
{
    assert forall|i: int, j: int| 0 <= i < j < entries.len() implies (#[trigger] entries[i]).0 != (
    #[trigger] entries[j]).0 by {
        lemma_before_irreflexive(entries[i].0);
    }
}

/// Whether `a` comes before `b`.
pub fn comes_before(a: &str, b: &str) -> (r: bool)
    ensures
        r == before(a@, b@),
{
    let x = chars_of(a);
    let y = chars_of(b);
    let mut i: usize = 0;
    assert(x@.skip(0) == x@);
    assert(y@.skip(0) == y@);
    while i < x.len() && i < y.len()
        invariant
            x@ == a@,
            y@ == b@,
            i <= x@.len(),
            i <= y@.len(),
            before(a@, b@) == before(x@.skip(i as int), y@.skip(i as int)),
        decreases x@.len() - i,
    {
        if x[i] != y[i] {
            return x[i] < y[i];
        }
        assert(x@.skip(i as int).drop_first() == x@.skip(i + 1));
        assert(y@.skip(i as int).drop_first() == y@.skip(i + 1));
        i += 1;
    }
    i < y.len()
}

/// A value as the inside of a quoted TOML string.
pub fn escape_toml_string(s: &str) -> (r: String)
    ensures
        r@ == escaped(s@),
{
    let cs = chars_of(s);
    let mut out = String::new();
    let mut i: usize = 0;
    assert(cs@.skip(0) == cs@);
    assert(out@ + escaped(cs@.skip(0)) == escaped(cs@));
    while i < cs.len()
        invariant
            i <= cs@.len(),
            out@ + escaped(cs@.skip(i as int)) == escaped(cs@),
        decreases cs@.len() - i,
    {
        let c = cs[i];
        let ghost done = out@;
        if c == '\\' || c == '"' {
            out.push('\\');
        }
        out.push(c);
        assert(out@ == done + escape(c));
        assert(cs@.skip(i as int).drop_first() == cs@.skip(i + 1));
        i += 1;
        assert(out@ + escaped(cs@.skip(i as int)) == done + (escape(c) + escaped(
            cs@.skip(i as int),
        )));
    }
    assert(out@ + escaped(cs@.skip(cs@.len() as int)) == out@);
    out
}

/// Quoting loses nothing: what is read of a quoted value is the value, and no quote
/// of the value ends the string early.
pub proof fn law_quoted_reads_back(value: Seq<char>, rest: Seq<char>)
    requires
        quotable(value),
    ensures
        read_quoted(quoted(value) + rest) == Some((value, rest)),
    decreases value.len(),
{
    let s = quoted(value) + rest;
    if value.len() == 0 {
        assert(s[0] == '"');
        assert(s.skip(1) == rest);
        assert(value == Seq::<char>::empty());
    } else {
        let more = value.drop_first();
        let c = value[0];
        assert(quotable(more)) by {
            assert forall|i: int| 0 <= i < more.len() implies quotable_char(#[trigger] more[i]) by {
                assert(more[i] == value[i + 1]);
            }
        }
        law_quoted_reads_back(more, rest);
        assert(value == seq![c] + more);
        if c == '\\' || c == '"' {
            assert(s[0] == '\\' && s[1] == c);
            assert(s.skip(2) == quoted(more) + rest);
        } else {
            assert(s[0] == c);
            assert(s.skip(1) == quoted(more) + rest);
        }
    }
}

proof fn lemma_bare_len(name: Seq<char>, rest: Seq<char>)
    requires
        forall|i: int| 0 <= i < name.len() ==> bare_char(#[trigger] name[i]),
        rest.len() > 0,
        !bare_char(rest[0]),
    ensures
        bare_len(name + rest) == name.len(),
    decreases name.len(),
{
    let s = name + rest;
    if name.len() > 0 {
        assert(s[0] == name[0]);
        assert(s.skip(1) == name.skip(1) + rest);
        lemma_bare_len(name.skip(1), rest);
    } else {
        assert(s[0] == rest[0]);
    }
}

proof fn lemma_entry_reads_back(e: EntryView, rest: Seq<char>)
    requires
        bare(e.0),
        quotable(e.1),
    ensures
        read_entry(entry_line(e) + rest) == Some((e, rest)),
{
    reveal_strlit(" = \"");
    reveal_strlit("\n");
    let s = entry_line(e) + rest;
    let end = "\n"@ + rest;
    let value = quoted(e.1) + end;
    let after = " = \""@ + value;
    assert(s == e.0 + after);
    lemma_bare_len(e.0, after);
    let n = e.0.len() as int;
    assert(s.skip(n) == after);
    assert(s.take(n) == e.0);
    assert(after.skip(" = \""@.len() as int) == value);
    law_quoted_reads_back(e.1, end);
    assert(end.skip(1) == rest);
}

proof fn lemma_entry_lines_first(entries: Seq<EntryView>)
    requires
        entries.len() > 0,
    ensures
        entry_lines(entries) == entry_line(entries[0]) + entry_lines(entries.skip(1)),
    decreases entries.len(),
{
    let rest = entries.skip(1);
    if entries.len() == 1 {
        assert(entry_lines(entries.drop_last()) == Seq::<char>::empty());
        assert(entry_lines(rest) == Seq::<char>::empty());
        assert(entry_lines(entries) == entry_line(entries[0]) + entry_lines(rest));
    } else {
        lemma_entry_lines_first(entries.drop_last());
        assert(entries.drop_last().skip(1) == rest.drop_last());
        assert(entry_lines(entries) == entry_line(entries[0]) + entry_lines(rest));
    }
}

proof fn lemma_entries_read_back(entries: Seq<EntryView>)
    requires
        writable(entries),
    ensures
        read_entries(entry_lines(entries), entries.len()) == Some(entries),
    decreases entries.len(),
{
    if entries.len() == 0 {
        assert(entries == Seq::<EntryView>::empty());
    } else {
        let rest = entries.skip(1);
        assert(writable(rest)) by {
            assert forall|i: int| 0 <= i < rest.len() implies bare((#[trigger] rest[i]).0) && quotable(
                rest[i].1,
            ) by {
                assert(rest[i] == entries[i + 1]);
            }
        }
        lemma_entries_read_back(rest);
        lemma_entry_lines_first(entries);
        assert(bare(entries[0].0));
        lemma_entry_reads_back(entries[0], entry_lines(rest));
        assert(entries == seq![entries[0]] + rest);
    }
}

proof fn lemma_read_entries_count(s: Seq<char>, m: nat, n: nat)
    requires
        read_entries(s, m) is Some,
        read_entries(s, n) is Some,
    ensures
        m == n,
    decreases m,
{
    if m > 0 && n > 0 {
        match read_entry(s) {
            Some((_, rest)) => {
                lemma_read_entries_count(rest, (m - 1) as nat, (n - 1) as nat);
            },
            None => {},
        }
    }
}

/// A file says one run of entries.
pub proof fn lemma_file_says_one(body: Seq<char>, one: Seq<EntryView>, other: Seq<EntryView>)
    requires
        file_says(body, one),
        file_says(body, other),
    ensures
        one == other,
{
    let s = body.skip(SECRETS_HEADER@.len() as int);
    lemma_read_entries_count(s, one.len(), other.len());
}

/// What is written is what is read: the file of some entries says those entries.
pub proof fn law_secrets_file_reads_back(entries: Seq<EntryView>)
    requires
        writable(entries),
    ensures
        file_says(secrets_file(entries), entries),
{
    let body = secrets_file(entries);
    lemma_entries_read_back(entries);
    assert(body.skip(SECRETS_HEADER@.len() as int) == entry_lines(entries));
}

/// The value of a name, where the entries have it.
pub fn read_secret(entries: &[(String, String)], name: &str) -> (r: Option<String>)
    requires
        distinct(entry_views(entries@)),
    ensures
        match r {
            Some(value) => holds(entry_views(entries@), name@, value@),
            None => !names(entry_views(entries@), name@),
        },
{
    let ghost all = entry_views(entries@);
    let mut i: usize = 0;
    while i < entries.len()
        invariant
            i <= entries@.len(),
            all == entry_views(entries@),
            forall|j: int| 0 <= j < i ==> (#[trigger] all[j]).0 != name@,
        decreases entries@.len() - i,
    {
        assert(all[i as int] == (entries@[i as int].0@, entries@[i as int].1@));
        if same(entries[i].0.as_str(), name) {
            return Some(entries[i].1.clone());
        }
        i += 1;
    }
    None
}

/// Putting an entry that is not there yet at its place sets it and nothing else.
proof fn lemma_inserted(es: Seq<EntryView>, at: int, e: EntryView)
    requires
        sorted(es),
        0 <= at <= es.len(),
        forall|j: int| 0 <= j < at ==> before((#[trigger] es[j]).0, e.0),
        at < es.len() ==> before(e.0, es[at].0),
    ensures
        sorted(es.insert(at, e)),
        updated(es, e.0, e.1, es.insert(at, e)),
{
    let after = es.insert(at, e);
    assert forall|j: int| at <= j < es.len() implies before(e.0, (#[trigger] es[j]).0) by {
        if j > at {
            lemma_before_transitive(e.0, es[at].0, es[j].0);
        }
    }
    assert forall|j: int| 0 <= j < es.len() implies (#[trigger] es[j]).0 != e.0 by {
        lemma_before_irreflexive(e.0);
    }
    assert forall|i: int, j: int| 0 <= i < j < after.len() implies before(
        (#[trigger] after[i]).0,
        (#[trigger] after[j]).0,
    ) by {
        let a = if i < at {
            i
        } else {
            i - 1
        };
        let b = if j < at {
            j
        } else {
            j - 1
        };
        if i != at {
            assert(after[i] == es[a]);
        }
        if j != at {
            assert(after[j] == es[b]);
        }
    }
    assert forall|n: Seq<char>, v: Seq<char>| #[trigger] holds(after, n, v) <==> if n == e.0 {
        v == e.1
    } else {
        holds(es, n, v)
    } by {
        assert(after[at] == e);
        if holds(after, n, v) {
            let k = choose|k: int| 0 <= k < after.len() && after[k] == (n, v);
            if k < at {
                assert(es[k] == (n, v));
            } else if k > at {
                assert(es[k - 1] == (n, v));
            }
        }
        if holds(es, n, v) {
            let k = choose|k: int| 0 <= k < es.len() && es[k] == (n, v);
            assert(after[if k < at {
                k
            } else {
                k + 1
            }] == (n, v));
        }
    }
}

/// Changing the value of an entry sets it and nothing else.
proof fn lemma_replaced(es: Seq<EntryView>, at: int, e: EntryView)
    requires
        sorted(es),
        0 <= at < es.len(),
        es[at].0 == e.0,
    ensures
        sorted(es.update(at, e)),
        updated(es, e.0, e.1, es.update(at, e)),
{
    let after = es.update(at, e);
    lemma_sorted_distinct(es);
    assert forall|i: int, j: int| 0 <= i < j < after.len() implies before(
        (#[trigger] after[i]).0,
        (#[trigger] after[j]).0,
    ) by {
        assert(after[i].0 == es[i].0);
        assert(after[j].0 == es[j].0);
    }
    assert forall|n: Seq<char>, v: Seq<char>| #[trigger] holds(after, n, v) <==> if n == e.0 {
        v == e.1
    } else {
        holds(es, n, v)
    } by {
        assert(after[at] == e);
        if holds(after, n, v) {
            let k = choose|k: int| 0 <= k < after.len() && after[k] == (n, v);
            if k != at {
                assert(es[k] == (n, v));
                assert(es[k].0 != es[at].0);
            }
        }
        if holds(es, n, v) {
            let k = choose|k: int| 0 <= k < es.len() && es[k] == (n, v);
            if k != at {
                assert(after[k] == (n, v));
            }
        }
    }
}

/// Sets an entry of a sorted run of entries.
fn set_entry(entries: &mut Vec<(String, String)>, name: String, value: String)
    requires
        sorted(entry_views(old(entries)@)),
    ensures
        sorted(entry_views(final(entries)@)),
        updated(entry_views(old(entries)@), name@, value@, entry_views(final(entries)@)),
{
    let ghost es = entry_views(entries@);
    let ghost e = (name@, value@);
    let mut at: usize = 0;
    while at < entries.len() && comes_before(entries[at].0.as_str(), name.as_str())
        invariant
            at <= entries@.len(),
            es == entry_views(entries@),
            forall|j: int| 0 <= j < at ==> before((#[trigger] es[j]).0, name@),
        decreases entries@.len() - at,
    {
        assert(es[at as int].0 == entries@[at as int].0@);
        at += 1;
    }
    if at < entries.len() && same(entries[at].0.as_str(), name.as_str()) {
        assert(es[at as int].0 == entries@[at as int].0@);
        entries.set(at, (name, value));
        proof {
            lemma_replaced(es, at as int, e);
        }
        assert(entry_views(entries@) == es.update(at as int, e));
    } else {
        proof {
            if at < es.len() {
                assert(es[at as int].0 == entries@[at as int].0@);
                lemma_before_total(es[at as int].0, name@);
            }
            lemma_inserted(es, at as int, e);
        }
        entries.insert(at, (name, value));
        assert(entry_views(entries@) == es.insert(at as int, e));
    }
}

/// The body of the file of API keys after setting the key of the provider: the
/// entries that were there stay, in the order of their names.
pub fn merge_secret(current: Vec<(String, String)>, key: &str) -> (r: String)
    requires
        distinct(entry_views(current@)),
    ensures
        merged(entry_views(current@), key@, r@),
{
    let ghost cur = entry_views(current@);
    let mut entries: Vec<(String, String)> = Vec::new();
    let mut i: usize = 0;
    assert(entry_views(entries@) == cur.take(0));
    while i < current.len()
        invariant
            i <= current@.len(),
            cur == entry_views(current@),
            distinct(cur),
            sorted(entry_views(entries@)),
            forall|n: Seq<char>, v: Seq<char>| #[trigger]
                holds(entry_views(entries@), n, v) <==> holds(cur.take(i as int), n, v),
        decreases current@.len() - i,
    {
        let ghost es = entry_views(entries@);
        let ghost e = cur[i as int];
        let name = current[i].0.clone();
        let value = current[i].1.clone();
        set_entry(&mut entries, name, value);
        let ghost after = entry_views(entries@);
        assert forall|n: Seq<char>, v: Seq<char>| #[trigger] holds(after, n, v) <==> holds(
            cur.take(i + 1),
            n,
            v,
        ) by {
            let now = cur.take(i + 1);
            let was = cur.take(i as int);
            assert(now == was.push(e));
            assert(now[i as int] == e);
            if holds(now, n, v) {
                let k = choose|k: int| 0 <= k < now.len() && now[k] == (n, v);
                if k < i {
                    assert(was[k] == (n, v));
                    assert(cur[k].0 != cur[i as int].0);
                }
            }
            if holds(was, n, v) {
                let k = choose|k: int| 0 <= k < was.len() && was[k] == (n, v);
                assert(now[k] == (n, v));
                assert(cur[k].0 != cur[i as int].0);
            }
        }
        i += 1;
    }
    assert(cur.take(cur.len() as int) == cur);
    let ghost es = entry_views(entries@);
    set_entry(&mut entries, API_KEY_ENV.to_owned(), key.to_owned());
    let ghost after = entry_views(entries@);
    assert(updated(cur, API_KEY_ENV@, key@, after)) by {
        assert forall|n: Seq<char>, v: Seq<char>| #[trigger]
            holds(after, n, v) <==> if n == API_KEY_ENV@ {
                v == key@
            } else {
                holds(cur, n, v)
            } by {
            assert(holds(es, n, v) == holds(cur, n, v));
        }
    }
    let mut body = SECRETS_HEADER.to_owned();
    let mut j: usize = 0;
    assert(body@ == SECRETS_HEADER@ + entry_lines(after.take(0)));
    while j < entries.len()
        invariant
            j <= entries@.len(),
            after == entry_views(entries@),
            body@ == SECRETS_HEADER@ + entry_lines(after.take(j as int)),
        decreases entries@.len() - j,
    {
        let ghost done = body@;
        body.append(entries[j].0.as_str());
        body.append(" = \"");
        body.append(escape_toml_string(entries[j].1.as_str()).as_str());
        body.push('"');
        body.append("\n");
        assert(after.take(j + 1).drop_last() == after.take(j as int));
        assert(after[j as int] == (entries@[j as int].0@, entries@[j as int].1@));
        assert(body@ == done + entry_line(after[j as int]));
        j += 1;
        assert(body@ == SECRETS_HEADER@ + entry_lines(after.take(j as int)));
    }
    assert(after.take(after.len() as int) == after);
    assert(sorted(after) && updated(cur, API_KEY_ENV@, key@, after) && body@ == secrets_file(after));
    body
}

/// The order of the file leaves no choice: two sorted runs that hold the same
/// entries are the same, so a merge determines the file.
pub proof fn law_merge_determines_file(
    current: Seq<EntryView>,
    key: Seq<char>,
    one: Seq<char>,
    other: Seq<char>,
)
    requires
        merged(current, key, one),
        merged(current, key, other),
    ensures
        one == other,
{
    let a = choose|entries: Seq<EntryView>| #[trigger]
        sorted(entries) && updated(current, API_KEY_ENV@, key, entries) && one == secrets_file(
            entries,
        );
    let b = choose|entries: Seq<EntryView>| #[trigger]
        sorted(entries) && updated(current, API_KEY_ENV@, key, entries) && other == secrets_file(
            entries,
        );
    assert forall|n: Seq<char>, v: Seq<char>| #[trigger] holds(a, n, v) <==> holds(b, n, v) by {}
    lemma_same_entries(a, b);
}

/// A sorted run is determined by what it holds.
proof fn lemma_same_entries(a: Seq<EntryView>, b: Seq<EntryView>)
    requires
        sorted(a),
        sorted(b),
        forall|n: Seq<char>, v: Seq<char>| #[trigger] holds(a, n, v) <==> holds(b, n, v),
    ensures
        a == b,
    decreases a.len(),
{
    if a.len() == 0 {
        if b.len() > 0 {
            assert(holds(b, b[0].0, b[0].1));
            assert(holds(a, b[0].0, b[0].1));
        }
        assert(a == b);
    } else {
        let x = a.last();
        assert(holds(a, x.0, x.1));
        assert(holds(b, x.0, x.1));
        let k = choose|k: int| 0 <= k < b.len() && b[k] == (x.0, x.1);
        let y = b.last();
        assert(holds(b, y.0, y.1));
        assert(holds(a, y.0, y.1));
        let m = choose|m: int| 0 <= m < a.len() && a[m] == (y.0, y.1);
        if k < b.len() - 1 {
            assert(before(b[k].0, b[b.len() - 1].0));
            if m < a.len() - 1 {
                assert(before(a[m].0, a[a.len() - 1].0));
                lemma_before_transitive(x.0, y.0, x.0);
            }
            lemma_before_irreflexive(x.0);
        }
        assert(x == y);
        let a1 = a.drop_last();
        let b1 = b.drop_last();
        lemma_sorted_distinct(a);
        lemma_sorted_distinct(b);
        assert forall|n: Seq<char>, v: Seq<char>| #[trigger] holds(a1, n, v) <==> holds(b1, n, v) by {
            lemma_holds_drop_last(a, n, v);
            lemma_holds_drop_last(b, n, v);
            assert(holds(a, n, v) == holds(b, n, v));
        }
        assert(sorted(a1)) by {
            assert forall|i: int, j: int| 0 <= i < j < a1.len() implies before(
                (#[trigger] a1[i]).0,
                (#[trigger] a1[j]).0,
            ) by {
                assert(a1[i] == a[i] && a1[j] == a[j]);
            }
        }
        assert(sorted(b1)) by {
            assert forall|i: int, j: int| 0 <= i < j < b1.len() implies before(
                (#[trigger] b1[i]).0,
                (#[trigger] b1[j]).0,
            ) by {
                assert(b1[i] == b[i] && b1[j] == b[j]);
            }
        }
        lemma_same_entries(a1, b1);
        assert(a == a1.push(x));
        assert(b == b1.push(y));
    }
}

proof fn lemma_holds_drop_last(es: Seq<EntryView>, n: Seq<char>, v: Seq<char>)
    requires
        es.len() > 0,
        distinct(es),
    ensures
        holds(es.drop_last(), n, v) <==> holds(es, n, v) && es.last() != (n, v),
{
    let rest = es.drop_last();
    if holds(rest, n, v) {
        let k = choose|k: int| 0 <= k < rest.len() && rest[k] == (n, v);
        assert(es[k] == (n, v));
        assert(es[k].0 != es[es.len() - 1].0);
    }
    if holds(es, n, v) && es.last() != (n, v) {
        let k = choose|k: int| 0 <= k < es.len() && es[k] == (n, v);
        assert(rest[k] == (n, v));
    }
}

/// What was merged is what is read: the new file says entries in which the API key
/// has the new value and every other name has the value that it had, and nothing else.
pub proof fn law_merge_reads_back(current: Seq<EntryView>, key: Seq<char>, body: Seq<char>)
    requires
        merged(current, key, body),
        writable(current),
        quotable(key),
    ensures
        exists|entries: Seq<EntryView>| #[trigger]
            file_says(body, entries) && sorted(entries) && updated(
                current,
                API_KEY_ENV@,
                key,
                entries,
            ),
{
    reveal_strlit("DEEPSEEK_API_KEY");
    let entries = choose|entries: Seq<EntryView>| #[trigger]
        sorted(entries) && updated(current, API_KEY_ENV@, key, entries) && body == secrets_file(
            entries,
        );
    assert(bare(API_KEY_ENV@));
    assert forall|i: int| 0 <= i < entries.len() implies bare((#[trigger] entries[i]).0) && quotable(
        entries[i].1,
    ) by {
        let e = entries[i];
        assert(holds(entries, e.0, e.1));
        if e.0 != API_KEY_ENV@ {
            assert(holds(current, e.0, e.1));
        }
    }
    law_secrets_file_reads_back(entries);
}

/// Escaping goes character by character: a quote and a backslash get a backslash before
/// them, and any other character stays as it is.
pub proof fn law_escaping(c: char, rest: Seq<char>)
    ensures
        escaped(seq![]).len() == 0,
        c == '"' || c == '\\' ==> escaped(seq![c] + rest) == seq!['\\', c] + escaped(rest),
        c != '"' && c != '\\' ==> escaped(seq![c] + rest) == seq![c] + escaped(rest),
{
    assert((seq![c] + rest).drop_first() == rest);
}

/// The order of names: by the first character in which they differ, and a name that
/// another starts with comes before it.
pub proof fn law_before(start: Seq<char>, a: Seq<char>, b: Seq<char>)
    requires
        b.len() > 0,
        a.len() == 0 || a[0] < b[0],
    ensures
        before(start + a, start + b),
        !before(start + b, start + a),
    decreases start.len(),
{
    if start.len() == 0 {
        assert(start + a == a);
        assert(start + b == b);
    } else {
        let rest = start.drop_first();
        assert((start + a).drop_first() == rest + a);
        assert((start + b).drop_first() == rest + b);
        assert((start + a)[0] == (start + b)[0]);
        law_before(rest, a, b);
    }
}

/// The file is its head and a line for each entry, in order: the name, an equals sign
/// and the value in quotes.
pub proof fn law_secrets_file(entries: Seq<EntryView>, e: EntryView)
    ensures
        secrets_file(seq![]) == "# Aili secrets — chmod 600. Do not commit.\n[keys]\n"@,
        secrets_file(entries.push(e)) == secrets_file(entries) + (e.0 + " = \""@ + escaped(e.1)
            + "\"\n"@),
{
    reveal_strlit("\"\n");
    reveal_strlit("\n");
    assert(entries.push(e).drop_last() == entries);
    assert(secrets_file(seq![]) == SECRETS_HEADER@);
    assert(quoted(e.1) + "\n"@ == escaped(e.1) + "\"\n"@);
    assert(entry_line(e) == e.0 + " = \""@ + escaped(e.1) + "\"\n"@);
    assert(secrets_file(entries.push(e)) == secrets_file(entries) + entry_line(e));
}

/// Nobody but its owner reads or writes the file.
pub proof fn law_secrets_mode()
    ensures
        SECRETS_MODE == 384,
{
}

/// Merging sets the key and loses nothing: the file is that of entries, in the order of
/// their names and none of them twice, among which is the new key and every other entry
/// that was there, as it was, and no other.
pub proof fn law_merge_keeps_the_others(current: Seq<EntryView>, key: Seq<char>, body: Seq<char>) -> (
    entries: Seq<EntryView>)
    requires
        merged(current, key, body),
    ensures
        body == secrets_file(entries),
        entries.contains(("DEEPSEEK_API_KEY"@, key)),
        forall|i: int|
            0 <= i < current.len() && (#[trigger] current[i]).0 != "DEEPSEEK_API_KEY"@
                ==> entries.contains(current[i]),
        forall|i: int|
            0 <= i < entries.len() ==> (#[trigger] entries[i]) == ("DEEPSEEK_API_KEY"@, key) || (
            entries[i].0 != "DEEPSEEK_API_KEY"@ && current.contains(entries[i])),
        forall|i: int, j: int|
            0 <= i < j < entries.len() ==> (#[trigger] entries[i]).0 != (#[trigger] entries[j]).0
                && before(entries[i].0, entries[j].0),
{
    let entries = choose|entries: Seq<EntryView>| #[trigger]
        sorted(entries) && updated(current, API_KEY_ENV@, key, entries) && body == secrets_file(
            entries,
        );
    lemma_sorted_distinct(entries);
    assert(holds(entries, API_KEY_ENV@, key));
    assert forall|i: int|
        0 <= i < current.len() && (#[trigger] current[i]).0 != "DEEPSEEK_API_KEY"@ implies entries.contains(
        current[i],
    ) by {
        let e = current[i];
        assert(holds(current, e.0, e.1));
        assert(holds(entries, e.0, e.1));
    }
    assert forall|i: int| 0 <= i < entries.len() implies (#[trigger] entries[i]) == (
        "DEEPSEEK_API_KEY"@,
        key,
    ) || (entries[i].0 != "DEEPSEEK_API_KEY"@ && current.contains(entries[i])) by {
        let e = entries[i];
        assert(holds(entries, e.0, e.1));
        if e.0 != API_KEY_ENV@ {
            assert(holds(current, e.0, e.1));
        }
    }
    entries
}

/// An entry is held where it is among the entries, and a name is known where an entry
/// has it.
pub proof fn law_entries(entries: Seq<EntryView>, name: Seq<char>, value: Seq<char>)
    ensures
        holds(entries, name, value) <==> entries.contains((name, value)),
        !names(entries, name) ==> !entries.contains((name, value)),
{
    if entries.contains((name, value)) {
        let i = choose|i: int| 0 <= i < entries.len() && entries[i] == (name, value);
        assert(entries[i].0 == name);
    }
}

} // verus!
