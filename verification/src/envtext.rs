//! Parsing of `.env` text into key/value pairs: lines split at newlines,
//! comments and blanks dropped, keys and values trimmed, surrounding
//! quotes removed, duplicate keys resolved last-wins, and the result
//! ordered by key.

use vstd::prelude::*;
use crate::text::{is_wsp, lex_lt};

verus! {

/// Index of the first occurrence of `c` in `s` at or after `from`, or
/// the length when there is none.
pub open spec fn spec_find_char(s: Seq<char>, c: char, from: int) -> int
    decreases s.len() - from,
{
    if from < 0 || from >= s.len() {
        s.len() as int
    } else if s[from] == c {
        from
    } else {
        spec_find_char(s, c, from + 1)
    }
}

pub proof fn lemma_find_char_bounds(s: Seq<char>, c: char, from: int)
    requires
        0 <= from <= s.len(),
    ensures
        from <= spec_find_char(s, c, from) <= s.len(),
        forall|j: int| from <= j < spec_find_char(s, c, from) ==> s[j] != c,
        spec_find_char(s, c, from) < s.len() ==> s[spec_find_char(s, c, from)] == c,
    decreases s.len() - from,
{
    if from < s.len() && s[from] != c {
        lemma_find_char_bounds(s, c, from + 1);
    }
}

/// The text split at newline characters; a final newline closes the last
/// line rather than opening an empty one.
pub open spec fn spec_lines(s: Seq<char>) -> Seq<Seq<char>>
    decreases s.len(),
    via spec_lines_decreases
{
    if s.len() == 0 {
        Seq::empty()
    } else {
        let i = spec_find_char(s, '\n', 0);
        if i == s.len() {
            seq![s]
        } else {
            seq![s.take(i)] + spec_lines(s.skip(i + 1))
        }
    }
}

#[via_fn]
proof fn spec_lines_decreases(s: Seq<char>) {
    if s.len() > 0 {
        lemma_find_char_bounds(s, '\n', 0);
    }
}

/// Leading whitespace removed.
pub open spec fn spec_trim_start(s: Seq<char>) -> Seq<char>
    decreases s.len(),
{
    if s.len() > 0 && is_wsp(s[0]) {
        spec_trim_start(s.drop_first())
    } else {
        s
    }
}

/// Trailing whitespace removed.
pub open spec fn spec_trim_end(s: Seq<char>) -> Seq<char>
    decreases s.len(),
{
    if s.len() > 0 && is_wsp(s.last()) {
        spec_trim_end(s.drop_last())
    } else {
        s
    }
}

/// Whitespace removed from both ends.
pub open spec fn spec_trim(s: Seq<char>) -> Seq<char> {
    spec_trim_end(spec_trim_start(s))
}

pub proof fn lemma_trim_start_skip(s: Seq<char>, k: int)
    requires
        0 <= k <= s.len(),
        forall|j: int| 0 <= j < k ==> is_wsp(s[j]),
    ensures
        spec_trim_start(s) == spec_trim_start(s.skip(k)),
    decreases k,
{
    if k > 0 {
        assert(is_wsp(s[0]));
        assert(s.drop_first().skip(k - 1) =~= s.skip(k));
        lemma_trim_start_skip(s.drop_first(), k - 1);
    } else {
        assert(s.skip(0) =~= s);
    }
}

proof fn lemma_trim_end_take(s: Seq<char>, k: int)
    requires
        0 <= k <= s.len(),
        forall|j: int| k <= j < s.len() ==> is_wsp(s[j]),
    ensures
        spec_trim_end(s) == spec_trim_end(s.take(k)),
    decreases s.len() - k,
{
    if k < s.len() {
        assert(is_wsp(s.last()));
        assert(s.drop_last() =~= s.take(s.len() - 1));
        assert(s.take(s.len() - 1).take(k) =~= s.take(k));
        lemma_trim_end_take(s.take(s.len() - 1), k);
    } else {
        assert(s.take(s.len() as int) =~= s);
    }
}

/// Trim whitespace from both ends of a string.
#[verifier::loop_isolation(false)]
pub fn trim(s: &str) -> (r: String)
    ensures
        r@ == spec_trim(s@),
{
    let n = s.unicode_len();
    let mut start: usize = 0;
    while start < n && crate::text::wsp(s.get_char(start))
        invariant
            start <= n,
            forall|j: int| 0 <= j < start ==> is_wsp(s@[j]),
        decreases n - start,
    {
        start = start + 1;
    }
    proof {
        lemma_trim_start_skip(s@, start as int);
    }
    if start == n {
        proof {
            assert(s@.skip(n as int) =~= Seq::<char>::empty());
            assert(spec_trim_start(s@) == Seq::<char>::empty());
            assert(spec_trim_end(Seq::<char>::empty()) == Seq::<char>::empty());
        }
        return String::new();
    }
    let ghost tail = s@.skip(start as int);
    proof {
        assert(tail[0] == s@[start as int]);
        assert(spec_trim_start(s@) == tail);
    }
    let mut end: usize = n;
    while end > start + 1 && crate::text::wsp(s.get_char(end - 1))
        invariant
            start < end <= n,
            forall|j: int| end <= j < n ==> is_wsp(s@[j]),
        decreases end,
    {
        end = end - 1;
    }
    let piece = s.substring_char(start, end);
    proof {
        assert(piece@ =~= tail.take(end - start as int));
        lemma_trim_end_take(tail, end - start as int);
        if end < n {
            assert(tail.take(end - start as int).last() == s@[end - 1]);
        }
        if is_wsp(s@[end - 1]) {
            assert(end == start + 1);
            assert(!is_wsp(s@[start as int]));
        }
        assert(spec_trim_end(tail.take(end - start as int)) == tail.take(end - start as int));
    }
    piece.to_owned()
}

/// One matching pair of surrounding quotes removed.
pub open spec fn spec_unquote(v: Seq<char>) -> Seq<char> {
    if v.len() >= 2 && ((v[0] == '"' && v[v.len() - 1] == '"') || (v[0] == '\'' && v[v.len() - 1]
        == '\'')) {
        v.subrange(1, v.len() - 1)
    } else {
        v
    }
}

/// Remove one pair of surrounding double or single quotes, if present.
pub fn unquote(v: &str) -> (r: String)
    ensures
        r@ == spec_unquote(v@),
{
    let n = v.unicode_len();
    if n >= 2 {
        let first = v.get_char(0);
        let last = v.get_char(n - 1);
        if (first == '"' && last == '"') || (first == '\'' && last == '\'') {
            let inner = v.substring_char(1, n - 1);
            return inner.to_owned();
        }
    }
    v.to_owned()
}

/// The key/value pair an `.env` line defines, if any: comments, blank
/// lines, lines without `=` and lines with an empty key define none.
pub open spec fn spec_env_line(line: Seq<char>) -> Option<(Seq<char>, Seq<char>)> {
    let t = spec_trim(line);
    if t.len() == 0 || t[0] == '#' {
        None
    } else {
        let eq = spec_find_char(t, '=', 0);
        if eq == t.len() {
            None
        } else {
            let key = spec_trim(t.take(eq));
            let value = spec_unquote(spec_trim(t.skip(eq + 1)));
            if key.len() == 0 {
                None
            } else {
                Some((key, value))
            }
        }
    }
}

/// Parse one `.env` line.
pub fn env_line(line: &str) -> (r: Option<(String, String)>)
    ensures
        match r {
            Some(kv) => spec_env_line(line@) == Some((kv.0@, kv.1@)),
            None => spec_env_line(line@) is None,
        },
{
    let t = trim(line);
    let tn = t.as_str().unicode_len();
    if tn == 0 {
        return None;
    }
    if t.as_str().get_char(0) == '#' {
        return None;
    }
    let ghost tv = t@;
    let mut eq: usize = 0;
    while eq < tn && t.as_str().get_char(eq) != '='
        invariant
            eq <= tn,
            tn == tv.len(),
            t@ == tv,
            forall|j: int| 0 <= j < eq ==> tv[j] != '=',
            spec_find_char(tv, '=', 0) == spec_find_char(tv, '=', eq as int),
        decreases tn - eq,
    {
        eq = eq + 1;
    }
    if eq == tn {
        return None;
    }
    let before = t.as_str().substring_char(0, eq);
    let after = t.as_str().substring_char(eq + 1, tn);
    proof {
        assert(before@ =~= tv.take(eq as int));
        assert(after@ =~= tv.skip(eq + 1));
    }
    let key = trim(before);
    let value_trimmed = trim(after);
    let value = unquote(value_trimmed.as_str());
    if key.as_str().unicode_len() == 0 {
        return None;
    }
    Some((key, value))
}

/// Insertion into a key-ordered pair list, replacing an equal key.
pub open spec fn spec_env_insert(
    acc: Seq<(Seq<char>, Seq<char>)>,
    k: Seq<char>,
    v: Seq<char>,
) -> Seq<(Seq<char>, Seq<char>)>
    decreases acc.len(),
{
    if acc.len() == 0 {
        seq![(k, v)]
    } else if k == acc[0].0 {
        seq![(k, v)] + acc.drop_first()
    } else if lex_lt(k, acc[0].0) {
        seq![(k, v)] + acc
    } else {
        seq![acc[0]] + spec_env_insert(acc.drop_first(), k, v)
    }
}

/// Folding the lines of an `.env` text into ordered pairs, later
/// definitions of a key replacing earlier ones.
pub open spec fn spec_env_fold(
    lines: Seq<Seq<char>>,
    acc: Seq<(Seq<char>, Seq<char>)>,
) -> Seq<(Seq<char>, Seq<char>)>
    decreases lines.len(),
{
    if lines.len() == 0 {
        acc
    } else {
        let next = match spec_env_line(lines[0]) {
            Some(kv) => spec_env_insert(acc, kv.0, kv.1),
            None => acc,
        };
        spec_env_fold(lines.drop_first(), next)
    }
}

/// The key/value pairs an `.env` text defines, ordered by key.
pub open spec fn spec_parse_env(s: Seq<char>) -> Seq<(Seq<char>, Seq<char>)> {
    spec_env_fold(spec_lines(s), Seq::empty())
}

/// The view of an owned pair list.
pub open spec fn pairs_view(v: Seq<(String, String)>) -> Seq<(Seq<char>, Seq<char>)> {
    Seq::new(v.len(), |i: int| (v[i].0@, v[i].1@))
}

pub proof fn lemma_lex_connex(a: Seq<char>, b: Seq<char>)
    ensures
        lex_lt(a, b) || lex_lt(b, a) || a == b,
    decreases a.len(),
{
    if a.len() == 0 && b.len() == 0 {
        assert(a =~= b);
    } else if b.len() == 0 {
        assert(lex_lt(b, a));
    } else if a.len() == 0 {
        assert(lex_lt(a, b));
    } else if a[0] != b[0] {
        if (a[0] as int) < (b[0] as int) {
            assert(lex_lt(a, b));
        } else {
            assert((b[0] as int) < (a[0] as int));
            assert(lex_lt(b, a));
        }
    } else if b.len() != 0 && a.len() != 0 && a[0] == b[0] {
        lemma_lex_connex(a.drop_first(), b.drop_first());
        if a.drop_first() == b.drop_first() {
            assert(a.drop_first().len() == a.len() - 1);
            assert(b.drop_first().len() == b.len() - 1);
            assert(a =~= b) by {
                assert forall|i: int| 0 <= i < a.len() implies a[i] == b[i] by {
                    if i > 0 {
                        assert(a[i] == a.drop_first()[i - 1]);
                        assert(b[i] == b.drop_first()[i - 1]);
                    }
                }
            }
        }
    }
}

pub proof fn lemma_lex_asym(a: Seq<char>, b: Seq<char>)
    ensures
        lex_lt(a, b) ==> !lex_lt(b, a) && a != b,
    decreases a.len(),
{
    if a.len() != 0 && b.len() != 0 && a[0] == b[0] {
        lemma_lex_asym(a.drop_first(), b.drop_first());
        assert(a.drop_first().len() == a.len() - 1);
        assert(b.drop_first().len() == b.len() - 1);
        if lex_lt(a, b) && a == b {
            assert(a.drop_first() =~= b.drop_first());
        }
    }
}

proof fn lemma_env_insert_split(
    acc: Seq<(Seq<char>, Seq<char>)>,
    k: Seq<char>,
    v: Seq<char>,
    i: int,
)
    requires
        0 <= i <= acc.len(),
        forall|j: int| 0 <= j < i ==> lex_lt(#[trigger] acc[j].0, k),
        i < acc.len() ==> !lex_lt(acc[i].0, k),
    ensures
        spec_env_insert(acc, k, v) == (if i < acc.len() && acc[i].0 == k {
            acc.take(i) + seq![(k, v)] + acc.skip(i + 1)
        } else {
            acc.take(i) + seq![(k, v)] + acc.skip(i)
        }),
    decreases acc.len(),
{
    if acc.len() == 0 {
        assert(spec_env_insert(acc, k, v) =~= acc.take(0) + seq![(k, v)] + acc.skip(0));
    } else if i == 0 {
        lemma_lex_connex(k, acc[0].0);
        if acc[0].0 == k {
            assert(spec_env_insert(acc, k, v) =~= acc.take(0) + seq![(k, v)] + acc.skip(1));
        } else {
            assert(lex_lt(k, acc[0].0));
            assert(spec_env_insert(acc, k, v) =~= acc.take(0) + seq![(k, v)] + acc.skip(0));
        }
    } else {
        lemma_lex_asym(acc[0].0, k);
        assert(spec_env_insert(acc, k, v) == seq![acc[0]] + spec_env_insert(
            acc.drop_first(),
            k,
            v,
        ));
        lemma_env_insert_split(acc.drop_first(), k, v, i - 1);
        if i < acc.len() && acc[i].0 == k {
            assert(acc.drop_first()[i - 1].0 == k);
            assert(seq![acc[0]] + (acc.drop_first().take(i - 1) + seq![(k, v)]
                + acc.drop_first().skip(i)) =~= acc.take(i) + seq![(k, v)] + acc.skip(i + 1));
        } else {
            assert(seq![acc[0]] + (acc.drop_first().take(i - 1) + seq![(k, v)]
                + acc.drop_first().skip(i - 1)) =~= acc.take(i) + seq![(k, v)] + acc.skip(i));
        }
    }
}

/// Insert a pair into a key-ordered list, replacing an equal key.
#[verifier::loop_isolation(false)]
pub fn env_insert(acc: &mut Vec<(String, String)>, k: String, v: String)
    ensures
        pairs_view(final(acc)@) == spec_env_insert(pairs_view(old(acc)@), k@, v@),
{
    let ghost gk = k@;
    let ghost gv = v@;
    let ghost acc0 = pairs_view(acc@);
    let mut i: usize = 0;
    while i < acc.len() && crate::text::str_lt(acc[i].0.as_str(), k.as_str())
        invariant
            i <= acc@.len(),
            acc@ == old(acc)@,
            forall|j: int| 0 <= j < i ==> lex_lt(#[trigger] acc0[j].0, gk),
        decreases acc@.len() - i,
    {
        proof {
            assert(acc0[i as int].0 == acc@[i as int].0@);
        }
        i = i + 1;
    }
    proof {
        if i < acc@.len() {
            assert(acc0[i as int].0 == acc@[i as int].0@);
        }
        lemma_env_insert_split(acc0, gk, gv, i as int);
    }
    if i < acc.len() && crate::text::str_eq(acc[i].0.as_str(), k.as_str()) {
        acc.set(i, (k, v));
        proof {
            assert(pairs_view(acc@) =~= acc0.take(i as int) + seq![(gk, gv)] + acc0.skip(
                i + 1,
            )) by {
                assert forall|j: int| 0 <= j < acc@.len() implies pairs_view(acc@)[j] == (acc0.take(
                    i as int,
                ) + seq![(gk, gv)] + acc0.skip(i + 1))[j] by {
                    assert(pairs_view(acc@)[j] == (acc@[j].0@, acc@[j].1@));
                }
            }
        }
    } else {
        acc.insert(i, (k, v));
        proof {
            assert(pairs_view(acc@) =~= acc0.take(i as int) + seq![(gk, gv)] + acc0.skip(
                i as int,
            )) by {
                assert forall|j: int| 0 <= j < acc@.len() implies pairs_view(acc@)[j] == (acc0.take(
                    i as int,
                ) + seq![(gk, gv)] + acc0.skip(i as int))[j] by {
                    assert(pairs_view(acc@)[j] == (acc@[j].0@, acc@[j].1@));
                }
            }
        }
    }
}

/// Split a text into its lines.
#[verifier::loop_isolation(false)]
pub fn split_lines(s: &str) -> (r: Vec<String>)
    ensures
        r.deep_view() == spec_lines(s@),
{
    let n = s.unicode_len();
    let mut out: Vec<String> = Vec::new();
    let mut start: usize = 0;
    proof {
        assert(out.deep_view() =~= Seq::<Seq<char>>::empty());
        assert(s@.skip(0) =~= s@);
        assert(Seq::<Seq<char>>::empty() + spec_lines(s@) =~= spec_lines(s@));
    }
    while start < n
        invariant
            start <= n,
            n == s@.len(),
            spec_lines(s@) == out.deep_view() + spec_lines(s@.skip(start as int)),
        decreases n - start,
    {
        let ghost tail = s@.skip(start as int);
        let mut j: usize = start;
        while j < n && s.get_char(j) != '\n'
            invariant
                start <= j <= n,
                n == s@.len(),
                forall|w: int| start <= w < j ==> s@[w] != '\n',
            decreases n - j,
        {
            j = j + 1;
        }
        proof {
            assert forall|w: int| 0 <= w < j - start implies tail[w] != '\n' by {
                assert(tail[w] == s@[start + w]);
            }
            lemma_find_char_bounds(tail, '\n', 0);
            assert(spec_find_char(tail, '\n', 0) == j - start) by {
                if j < n {
                    assert(tail[j - start as int] == '\n');
                    if spec_find_char(tail, '\n', 0) > j - start {
                        assert(tail[j - start as int] != '\n');
                    }
                } else {
                    assert(spec_find_char(tail, '\n', 0) == tail.len());
                }
                if spec_find_char(tail, '\n', 0) < j - start {
                    assert(tail[spec_find_char(tail, '\n', 0)] == '\n');
                }
            }
        }
        let piece = s.substring_char(start, j);
        let ghost out0 = out.deep_view();
        out.push(piece.to_owned());
        proof {
            assert(out.deep_view() =~= out0.push(tail.take(j - start as int))) by {
                assert(piece@ =~= tail.take(j - start as int));
                assert forall|w: int| 0 <= w < out@.len() implies out.deep_view()[w] == out0.push(
                    tail.take(j - start as int),
                )[w] by {
                    assert(out.deep_view()[w] == out@[w]@);
                    if w < out@.len() - 1 {
                        assert(out0[w] == out@[w]@);
                    }
                }
            }
            if j < n {
                assert(spec_lines(tail) == seq![tail.take(j - start as int)] + spec_lines(
                    tail.skip(j - start + 1),
                ));
                assert(tail.skip(j - start + 1) =~= s@.skip(j + 1));
                assert(out.deep_view() + spec_lines(s@.skip(j + 1)) =~= out0 + spec_lines(tail));
            } else {
                assert(tail.take(j - start as int) =~= tail);
                assert(spec_lines(tail) == seq![tail]);
                assert(s@.skip(n as int) =~= Seq::<char>::empty());
                assert(out.deep_view() + spec_lines(s@.skip(n as int)) =~= out0 + spec_lines(tail));
            }
        }
        if j < n {
            start = j + 1;
        } else {
            start = n;
        }
    }
    proof {
        assert(s@.skip(n as int) =~= Seq::<char>::empty());
        assert(out.deep_view() + Seq::<Seq<char>>::empty() =~= out.deep_view());
    }
    out
}

/// Parse `.env` text into key/value pairs, ordered by key, comments and
/// blank lines dropped, values unquoted, the last definition of a key
/// winning.
#[verifier::loop_isolation(false)]
pub fn parse_env_content(content: &str) -> (r: Vec<(String, String)>)
    ensures
        pairs_view(r@) == spec_parse_env(content@),
{
    let lines = split_lines(content);
    let ghost lv = lines.deep_view();
    let mut out: Vec<(String, String)> = Vec::new();
    let mut i: usize = 0;
    proof {
        assert(pairs_view(out@) =~= Seq::<(Seq<char>, Seq<char>)>::empty());
        assert(lv.skip(0) =~= lv);
    }
    while i < lines.len()
        invariant
            i <= lines@.len(),
            lv == lines.deep_view(),
            spec_parse_env(content@) == spec_env_fold(lv.skip(i as int), pairs_view(out@)),
        decreases lines@.len() - i,
    {
        proof {
            assert(lv.skip(i as int)[0] == lv[i as int]);
            assert(lv.skip(i as int).drop_first() =~= lv.skip(i + 1));
            assert(lv[i as int] == lines@[i as int]@);
        }
        match env_line(lines[i].as_str()) {
            Some(kv) => {
                env_insert(&mut out, kv.0, kv.1);
            },
            None => {},
        }
        i = i + 1;
    }
    proof {
        assert(lv.skip(lv.len() as int) =~= Seq::<Seq<char>>::empty());
    }
    out
}


/// The value of the first pair carrying a key.
pub open spec fn spec_lookup(
    entries: Seq<(Seq<char>, Seq<char>)>,
    k: Seq<char>,
) -> Option<Seq<char>>
    decreases entries.len(),
{
    if entries.len() == 0 {
        None
    } else if entries[0].0 == k {
        Some(entries[0].1)
    } else {
        spec_lookup(entries.drop_first(), k)
    }
}

/// The required keys that are absent.
pub open spec fn spec_missing(
    entries: Seq<(Seq<char>, Seq<char>)>,
    keys: Seq<Seq<char>>,
) -> Seq<Seq<char>>
    decreases keys.len(),
{
    if keys.len() == 0 {
        Seq::empty()
    } else {
        (if spec_lookup(entries, keys[0]) is None {
            seq![keys[0]]
        } else {
            Seq::empty()
        }) + spec_missing(entries, keys.drop_first())
    }
}

/// The required keys that are present but empty.
pub open spec fn spec_empty_valued(
    entries: Seq<(Seq<char>, Seq<char>)>,
    keys: Seq<Seq<char>>,
) -> Seq<Seq<char>>
    decreases keys.len(),
{
    if keys.len() == 0 {
        Seq::empty()
    } else {
        (if spec_lookup(entries, keys[0]) matches Some(v) && v.len() == 0 {
            seq![keys[0]]
        } else {
            Seq::empty()
        }) + spec_empty_valued(entries, keys.drop_first())
    }
}

/// What checking an environment against its requirements found.
#[derive(Debug)]
pub struct EnvReport {
    pub missing_required: Vec<String>,
    pub empty_required: Vec<String>,
    pub missing_optional: Vec<String>,
}

impl EnvReport {
    /// The environment passes when no required key is missing or empty.
    pub fn passes(&self) -> (r: bool)
        ensures
            r == (self.missing_required@.len() == 0 && self.empty_required@.len() == 0),
    {
        self.missing_required.len() == 0 && self.empty_required.len() == 0
    }
}

/// Find the first pair carrying a key.
fn lookup<'a>(entries: &'a Vec<(String, String)>, k: &str) -> (r: Option<&'a String>)
    ensures
        match r {
            Some(v) => spec_lookup(pairs_view(entries@), k@) == Some(v@),
            None => spec_lookup(pairs_view(entries@), k@) is None,
        },
{
    let ghost ev = pairs_view(entries@);
    let mut i: usize = 0;
    proof {
        assert(ev.skip(0) =~= ev);
    }
    while i < entries.len()
        invariant
            i <= ev.len(),
            ev == pairs_view(entries@),
            ev.len() == entries@.len(),
            spec_lookup(ev, k@) == spec_lookup(ev.skip(i as int), k@),
        decreases ev.len() - i,
    {
        proof {
            assert(ev.skip(i as int)[0] == ev[i as int]);
            assert(ev.skip(i as int).drop_first() =~= ev.skip(i + 1));
            assert(ev[i as int] == (entries@[i as int].0@, entries@[i as int].1@));
        }
        if crate::text::str_eq(entries[i].0.as_str(), k) {
            return Some(&entries[i].1);
        }
        i = i + 1;
    }
    proof {
        assert(ev.skip(ev.len() as int) =~= Seq::<(Seq<char>, Seq<char>)>::empty());
    }
    None
}

/// Check the environment's pairs against the configured required and
/// optional keys: which required keys are missing, which are present but
/// empty, and which optional keys are missing, each in configured order.
#[verifier::loop_isolation(false)]
pub fn check_env(
    entries: &Vec<(String, String)>,
    required: &Vec<String>,
    optional: &Vec<String>,
) -> (r: EnvReport)
    ensures
        r.missing_required.deep_view() == spec_missing(pairs_view(entries@), required.deep_view()),
        r.empty_required.deep_view() == spec_empty_valued(
            pairs_view(entries@),
            required.deep_view(),
        ),
        r.missing_optional.deep_view() == spec_missing(pairs_view(entries@), optional.deep_view()),
{
    let ghost ev = pairs_view(entries@);
    let ghost rv = required.deep_view();
    let ghost ov = optional.deep_view();
    let mut missing_required: Vec<String> = Vec::new();
    let mut empty_required: Vec<String> = Vec::new();
    let mut missing_optional: Vec<String> = Vec::new();
    proof {
        assert(rv.skip(0) =~= rv);
        assert(missing_required.deep_view() =~= Seq::<Seq<char>>::empty());
        assert(empty_required.deep_view() =~= Seq::<Seq<char>>::empty());
        assert(Seq::<Seq<char>>::empty() + spec_missing(ev, rv) =~= spec_missing(ev, rv));
        assert(Seq::<Seq<char>>::empty() + spec_empty_valued(ev, rv) =~= spec_empty_valued(
            ev,
            rv,
        ));
    }
    let mut i: usize = 0;
    while i < required.len()
        invariant
            i <= rv.len(),
            rv == required.deep_view(),
            rv.len() == required@.len(),
            ev == pairs_view(entries@),
            spec_missing(ev, rv) =~= missing_required.deep_view() + spec_missing(
                ev,
                rv.skip(i as int),
            ),
            spec_empty_valued(ev, rv) =~= empty_required.deep_view() + spec_empty_valued(
                ev,
                rv.skip(i as int),
            ),
        decreases rv.len() - i,
    {
        proof {
            assert(rv.skip(i as int)[0] == rv[i as int]);
            assert(rv.skip(i as int).drop_first() =~= rv.skip(i + 1));
            assert(rv[i as int] == required@[i as int]@);
        }
        let ghost m0 = missing_required.deep_view();
        let ghost e0 = empty_required.deep_view();
        match lookup(entries, required[i].as_str()) {
            None => {
                missing_required.push(required[i].clone());
                proof {
                    assert(missing_required.deep_view() =~= m0.push(rv[i as int])) by {
                        assert forall|w: int|
                            0 <= w < missing_required@.len() implies missing_required.deep_view()[w]
                            == m0.push(rv[i as int])[w] by {
                            assert(missing_required.deep_view()[w] == missing_required@[w]@);
                        }
                    }
                    assert(m0 + (seq![rv[i as int]] + spec_missing(ev, rv.skip(i + 1))) =~= m0.push(
                        rv[i as int],
                    ) + spec_missing(ev, rv.skip(i + 1)));
                }
            },
            Some(value) => {
                if value.as_str().unicode_len() == 0 {
                    empty_required.push(required[i].clone());
                    proof {
                        assert(empty_required.deep_view() =~= e0.push(rv[i as int])) by {
                            assert forall|w: int|
                                0 <= w < empty_required@.len() implies empty_required.deep_view()[w]
                                == e0.push(rv[i as int])[w] by {
                                assert(empty_required.deep_view()[w] == empty_required@[w]@);
                            }
                        }
                        assert(e0 + (seq![rv[i as int]] + spec_empty_valued(ev, rv.skip(i + 1)))
                            =~= e0.push(rv[i as int]) + spec_empty_valued(ev, rv.skip(i + 1)));
                    }
                }
            },
        }
        i = i + 1;
    }
    proof {
        assert(rv.skip(rv.len() as int) =~= Seq::<Seq<char>>::empty());
        assert(missing_required.deep_view() + Seq::<Seq<char>>::empty()
            =~= missing_required.deep_view());
        assert(empty_required.deep_view() + Seq::<Seq<char>>::empty()
            =~= empty_required.deep_view());
        assert(ov.skip(0) =~= ov);
        assert(missing_optional.deep_view() =~= Seq::<Seq<char>>::empty());
        assert(Seq::<Seq<char>>::empty() + spec_missing(ev, ov) =~= spec_missing(ev, ov));
    }
    let mut j: usize = 0;
    while j < optional.len()
        invariant
            j <= ov.len(),
            ov == optional.deep_view(),
            ov.len() == optional@.len(),
            ev == pairs_view(entries@),
            spec_missing(ev, ov) =~= missing_optional.deep_view() + spec_missing(
                ev,
                ov.skip(j as int),
            ),
        decreases ov.len() - j,
    {
        proof {
            assert(ov.skip(j as int)[0] == ov[j as int]);
            assert(ov.skip(j as int).drop_first() =~= ov.skip(j + 1));
            assert(ov[j as int] == optional@[j as int]@);
        }
        let ghost m0 = missing_optional.deep_view();
        match lookup(entries, optional[j].as_str()) {
            None => {
                missing_optional.push(optional[j].clone());
                proof {
                    assert(missing_optional.deep_view() =~= m0.push(ov[j as int])) by {
                        assert forall|w: int|
                            0 <= w < missing_optional@.len() implies missing_optional.deep_view()[w]
                            == m0.push(ov[j as int])[w] by {
                            assert(missing_optional.deep_view()[w] == missing_optional@[w]@);
                        }
                    }
                    assert(m0 + (seq![ov[j as int]] + spec_missing(ev, ov.skip(j + 1))) =~= m0.push(
                        ov[j as int],
                    ) + spec_missing(ev, ov.skip(j + 1)));
                }
            },
            Some(_) => {},
        }
        j = j + 1;
    }
    proof {
        assert(ov.skip(ov.len() as int) =~= Seq::<Seq<char>>::empty());
        assert(missing_optional.deep_view() + Seq::<Seq<char>>::empty()
            =~= missing_optional.deep_view());
    }
    EnvReport { missing_required, empty_required, missing_optional }
}

} // verus!
