//! Small verified building blocks for text handling: equality, decimal
//! rendering of integers, joining, and whitespace-aware quoting of
//! command arguments.

use vstd::prelude::*;

verus! {

/// ASCII whitespace, the set this library quotes command arguments for.
pub open spec fn is_wsp(c: char) -> bool {
    c == ' ' || c == '\t' || c == '\r' || c == '\n'
}

/// Executable test for [`is_wsp`].
pub fn wsp(c: char) -> (r: bool)
    ensures
        r == is_wsp(c),
{
    c == ' ' || c == '\t' || c == '\r' || c == '\n'
}

/// String equality by view.
pub fn str_eq(a: &str, b: &str) -> (r: bool)
    ensures
        r == (a@ == b@),
{
    let a_owned = a.to_owned();
    let b_owned = b.to_owned();
    a_owned == b_owned
}

/// The decimal digit character for a value below ten.
pub open spec fn spec_digit(d: nat) -> char {
    if d == 0 {
        '0'
    } else if d == 1 {
        '1'
    } else if d == 2 {
        '2'
    } else if d == 3 {
        '3'
    } else if d == 4 {
        '4'
    } else if d == 5 {
        '5'
    } else if d == 6 {
        '6'
    } else if d == 7 {
        '7'
    } else if d == 8 {
        '8'
    } else {
        '9'
    }
}

/// Decimal rendering of a natural number, most significant digit first.
pub open spec fn spec_u64_dec(n: nat) -> Seq<char>
    decreases n,
{
    if n < 10 {
        seq![spec_digit(n)]
    } else {
        spec_u64_dec(n / 10).push(spec_digit(n % 10))
    }
}

fn digit_str(d: u64) -> (r: &'static str)
    requires
        d < 10,
    ensures
        r@ =~= seq![spec_digit(d as nat)],
{
    proof {
        reveal_strlit("0");
        reveal_strlit("1");
        reveal_strlit("2");
        reveal_strlit("3");
        reveal_strlit("4");
        reveal_strlit("5");
        reveal_strlit("6");
        reveal_strlit("7");
        reveal_strlit("8");
        reveal_strlit("9");
    }
    match d {
        0 => "0",
        1 => "1",
        2 => "2",
        3 => "3",
        4 => "4",
        5 => "5",
        6 => "6",
        7 => "7",
        8 => "8",
        _ => "9",
    }
}

/// Render an unsigned integer in decimal.
pub fn u64_dec(n: u64) -> (r: String)
    ensures
        r@ == spec_u64_dec(n as nat),
    decreases n,
{
    if n < 10 {
        digit_str(n).to_owned()
    } else {
        let mut prefix = u64_dec(n / 10);
        prefix.append(digit_str(n % 10));
        prefix
    }
}

/// Clone a vector of strings.
pub fn clone_string_vec(v: &Vec<String>) -> (r: Vec<String>)
    ensures
        r.deep_view() == v.deep_view(),
{
    let mut out: Vec<String> = Vec::new();
    let mut i: usize = 0;
    while i < v.len()
        invariant
            i <= v.len(),
            out@.len() == i,
            forall|j: int| 0 <= j < i ==> out@[j]@ == v@[j]@,
        decreases v.len() - i,
    {
        out.push(v[i].clone());
        i = i + 1;
    }
    proof {
        assert(out.deep_view() =~= v.deep_view());
    }
    out
}

/// Whether a vector of strings holds one equal to `s`.
pub fn vec_contains_str(v: &Vec<String>, s: &str) -> (r: bool)
    ensures
        r == v.deep_view().contains(s@),
{
    let mut i: usize = 0;
    while i < v.len()
        invariant
            i <= v.len(),
            forall|j: int| 0 <= j < i ==> v@[j]@ != s@,
        decreases v.len() - i,
    {
        if str_eq(v[i].as_str(), s) {
            proof {
                assert(v.deep_view()[i as int] == s@);
            }
            return true;
        }
        i = i + 1;
    }
    proof {
        assert forall|j: int| 0 <= j < v.deep_view().len() implies v.deep_view()[j] != s@ by {
            assert(v.deep_view()[j] == v@[j]@);
        }
    }
    false
}

/// Joining a sequence of pieces with a separator between neighbours.
pub open spec fn spec_join(items: Seq<Seq<char>>, sep: Seq<char>) -> Seq<char>
    decreases items.len(),
{
    if items.len() == 0 {
        Seq::empty()
    } else if items.len() == 1 {
        items[0]
    } else {
        items[0] + sep + spec_join(items.drop_first(), sep)
    }
}

pub proof fn lemma_join_push(items: Seq<Seq<char>>, sep: Seq<char>, last: Seq<char>)
    ensures
        spec_join(items.push(last), sep) == if items.len() == 0 {
            last
        } else {
            spec_join(items, sep) + sep + last
        },
    decreases items.len(),
{
    if items.len() == 0 {
        assert(spec_join(items.push(last), sep) =~= last);
    } else if items.len() == 1 {
        let p = items.push(last);
        assert(p.drop_first() =~= seq![last]);
        assert(spec_join(seq![last], sep) == last);
        assert(spec_join(p, sep) == p[0] + sep + spec_join(p.drop_first(), sep));
        assert(p[0] == items[0]);
    } else {
        lemma_join_push(items.drop_first(), sep, last);
        assert(items.push(last).drop_first() =~= items.drop_first().push(last));
        assert(spec_join(items.push(last), sep) =~= items[0] + sep + (spec_join(
            items.drop_first(),
            sep,
        ) + sep + last));
        assert(spec_join(items, sep) + sep + last =~= items[0] + sep + (spec_join(
            items.drop_first(),
            sep,
        ) + sep + last));
    }
}

/// Join pieces with a separator.
pub fn join(items: &Vec<String>, sep: &str) -> (r: String)
    ensures
        r@ == spec_join(items.deep_view(), sep@),
{
    let ghost all = items.deep_view();
    let mut out = String::new();
    let mut i: usize = 0;
    while i < items.len()
        invariant
            i <= items.len(),
            all == items.deep_view(),
            out@ == spec_join(all.take(i as int), sep@),
        decreases items.len() - i,
    {
        if i > 0 {
            out.append(sep);
        }
        out.append(items[i].as_str());
        proof {
            lemma_join_push(all.take(i as int), sep@, all[i as int]);
            assert(all.take(i + 1 as int) =~= all.take(i as int).push(all[i as int]));
            assert(all[i as int] == items@[i as int]@);
        }
        i = i + 1;
    }
    proof {
        assert(all.take(items@.len() as int) =~= all);
    }
    out
}

/// How one character is escaped inside a quoted command argument.
pub open spec fn spec_esc_char(c: char) -> Seq<char> {
    if c == '"' {
        seq!['\\', '"']
    } else {
        seq![c]
    }
}

/// Backslash-escaping of double quotes.
pub open spec fn spec_escape(s: Seq<char>) -> Seq<char>
    decreases s.len(),
{
    if s.len() == 0 {
        Seq::empty()
    } else {
        spec_esc_char(s[0]) + spec_escape(s.drop_first())
    }
}

pub proof fn lemma_escape_concat(a: Seq<char>, b: Seq<char>)
    ensures
        spec_escape(a + b) == spec_escape(a) + spec_escape(b),
    decreases a.len(),
{
    if a.len() == 0 {
        assert(a + b =~= b);
        assert(spec_escape(a) + spec_escape(b) =~= spec_escape(b));
    } else {
        lemma_escape_concat(a.drop_first(), b);
        assert((a + b).drop_first() =~= a.drop_first() + b);
        assert(spec_escape(a + b) =~= spec_esc_char(a[0]) + (spec_escape(a.drop_first())
            + spec_escape(b)));
        assert(spec_escape(a) + spec_escape(b) =~= spec_esc_char(a[0]) + (spec_escape(
            a.drop_first(),
        ) + spec_escape(b)));
    }
}

pub proof fn lemma_escape_single(c: char)
    ensures
        spec_escape(seq![c]) == spec_esc_char(c),
{
    assert(seq![c].drop_first() =~= Seq::<char>::empty());
    assert(spec_escape(Seq::<char>::empty()) =~= Seq::<char>::empty());
    assert(spec_esc_char(c) + Seq::<char>::empty() =~= spec_esc_char(c));
}

pub proof fn lemma_escape_clean(s: Seq<char>)
    requires
        forall|j: int| 0 <= j < s.len() ==> s[j] != '"',
    ensures
        spec_escape(s) == s,
    decreases s.len(),
{
    if s.len() == 0 {
        assert(spec_escape(s) =~= s);
    } else {
        lemma_escape_clean(s.drop_first());
        assert(spec_escape(s) =~= seq![s[0]] + s.drop_first());
        assert(seq![s[0]] + s.drop_first() =~= s);
    }
}

/// Escape double quotes in an argument with a backslash.
pub fn escape_quotes(arg: &str) -> (r: String)
    ensures
        r@ == spec_escape(arg@),
{
    let n = arg.unicode_len();
    let mut out = String::new();
    let mut start: usize = 0;
    let mut i: usize = 0;
    while i < n
        invariant
            start <= i <= n,
            n == arg@.len(),
            out@ == spec_escape(arg@.take(start as int)),
            forall|j: int| start <= j < i ==> arg@[j] != '"',
        decreases n - i,
    {
        let c = arg.get_char(i);
        if c == '"' {
            let seg = arg.substring_char(start, i);
            out.append(seg);
            out.append("\\\"");
            proof {
                reveal_strlit("\\\"");
                lemma_escape_concat(arg@.take(start as int), arg@.subrange(start as int, i as int));
                lemma_escape_clean(arg@.subrange(start as int, i as int));
                assert(arg@.take(start as int) + arg@.subrange(start as int, i as int) =~= arg@.take(
                    i as int,
                ));
                lemma_escape_concat(arg@.take(i as int), seq![arg@[i as int]]);
                assert(arg@.take(i as int) + seq![arg@[i as int]] =~= arg@.take(i + 1 as int));
                lemma_escape_single(arg@[i as int]);
                assert("\\\""@ =~= spec_esc_char('"'));
            }
            start = i + 1;
        }
        i = i + 1;
    }
    let seg = arg.substring_char(start, n);
    out.append(seg);
    proof {
        lemma_escape_concat(arg@.take(start as int), arg@.subrange(start as int, n as int));
        lemma_escape_clean(arg@.subrange(start as int, n as int));
        assert(arg@.take(start as int) + arg@.subrange(start as int, n as int) =~= arg@);
    }
    out
}

/// An argument is quoted when it holds whitespace.
pub open spec fn spec_needs_quoting(arg: Seq<char>) -> bool {
    exists|i: int| 0 <= i < arg.len() && is_wsp(arg[i])
}

/// One argument as it appears in a rendered command line.
pub open spec fn spec_render_arg(arg: Seq<char>) -> Seq<char> {
    if spec_needs_quoting(arg) {
        seq!['"'] + spec_escape(arg) + seq!['"']
    } else {
        arg
    }
}

/// Render one argument, quoting and escaping when it holds whitespace.
pub fn render_arg(arg: &str) -> (r: String)
    ensures
        r@ == spec_render_arg(arg@),
{
    let n = arg.unicode_len();
    let mut has_wsp = false;
    let mut i: usize = 0;
    while i < n
        invariant
            i <= n,
            n == arg@.len(),
            has_wsp == exists|j: int| 0 <= j < i && is_wsp(arg@[j]),
        decreases n - i,
    {
        if wsp(arg.get_char(i)) {
            has_wsp = true;
        }
        i = i + 1;
    }
    if has_wsp {
        let mut out = String::new();
        out.append("\"");
        let escaped = escape_quotes(arg);
        out.append(escaped.as_str());
        out.append("\"");
        proof {
            reveal_strlit("\"");
            assert(out@ =~= seq!['"'] + spec_escape(arg@) + seq!['"']);
        }
        out
    } else {
        arg.to_owned()
    }
}

/// A full command line: arguments rendered and joined by single spaces.
pub open spec fn spec_format_command(argv: Seq<Seq<char>>) -> Seq<char> {
    spec_join(Seq::new(argv.len(), |i: int| spec_render_arg(argv[i])), seq![' '])
}

/// Render an argv vector as one readable line, quoting arguments that
/// hold whitespace.
pub fn format_command(argv: &Vec<String>) -> (r: String)
    ensures
        r@ == spec_format_command(argv.deep_view()),
{
    let ghost all = argv.deep_view();
    let mut rendered: Vec<String> = Vec::new();
    let mut i: usize = 0;
    while i < argv.len()
        invariant
            i <= argv.len(),
            all == argv.deep_view(),
            rendered@.len() == i,
            forall|j: int| 0 <= j < i ==> rendered@[j]@ == spec_render_arg(all[j]),
        decreases argv.len() - i,
    {
        let one = render_arg(argv[i].as_str());
        proof {
            assert(all[i as int] == argv@[i as int]@);
        }
        rendered.push(one);
        i = i + 1;
    }
    let sep = " ";
    let out = join(&rendered, sep);
    proof {
        reveal_strlit(" ");
        assert(sep@ =~= seq![' ']);
        assert(rendered.deep_view() =~= Seq::new(all.len(), |j: int| spec_render_arg(all[j])));
    }
    out
}

/// Whether `pat` occurs in `s` as a contiguous run.
pub open spec fn spec_has_sub(s: Seq<char>, pat: Seq<char>) -> bool {
    exists|i: int| 0 <= i <= s.len() - pat.len() && #[trigger] s.subrange(i, i + pat.len()) == pat
}

/// Whether one string holds another as a substring.
#[verifier::loop_isolation(false)]
pub fn contains_sub(s: &str, pat: &str) -> (r: bool)
    ensures
        r == spec_has_sub(s@, pat@),
{
    let n = s.unicode_len();
    let m = pat.unicode_len();
    if m > n {
        proof {
            assert(!spec_has_sub(s@, pat@));
        }
        return false;
    }
    let mut i: usize = 0;
    while i <= n - m
        invariant
            0 <= i <= n - m + 1,
            forall|w: int| 0 <= w < i ==> #[trigger] s@.subrange(w, w + pat@.len()) != pat@,
        decreases n - m + 1 - i,
    {
        let mut j: usize = 0;
        let mut matched = true;
        while j < m && matched
            invariant
                0 <= j <= m,
                matched <==> (forall|w: int| 0 <= w < j ==> s@[i + w] == #[trigger] pat@[w]),
            decreases m - j,
        {
            if s.get_char(i + j) != pat.get_char(j) {
                matched = false;
            }
            j = j + 1;
        }
        if matched {
            proof {
                assert(s@.subrange(i as int, i + pat@.len()) =~= pat@);
            }
            return true;
        }
        proof {
            let w = choose|w: int| 0 <= w < j && s@[i + w] != pat@[w];
            assert(s@.subrange(i as int, i + pat@.len())[w] == s@[i + w]);
            assert(s@.subrange(i as int, i + pat@.len()) != pat@);
        }
        i = i + 1;
    }
    proof {
        assert forall|w: int| 0 <= w <= s@.len() - pat@.len() implies #[trigger] s@.subrange(
            w,
            w + pat@.len(),
        ) != pat@ by {}
    }
    false
}

/// Index of the first occurrence of `pat` in `s` at or after `from`, or
/// -1 when there is none.
pub open spec fn spec_find_sub(s: Seq<char>, pat: Seq<char>, from: int) -> int
    decreases s.len() - pat.len() - from + 1,
{
    if from < 0 || from > s.len() - pat.len() {
        -1
    } else if s.subrange(from, from + pat.len()) == pat {
        from
    } else {
        spec_find_sub(s, pat, from + 1)
    }
}

/// Find the first occurrence of a substring.
#[verifier::loop_isolation(false)]
pub fn find_sub(s: &str, pat: &str) -> (r: Option<usize>)
    ensures
        match r {
            Some(i) => spec_find_sub(s@, pat@, 0) == i as int,
            None => spec_find_sub(s@, pat@, 0) == -1,
        },
{
    let n = s.unicode_len();
    let m = pat.unicode_len();
    if m > n {
        return None;
    }
    let mut i: usize = 0;
    while i <= n - m
        invariant
            0 <= i <= n - m + 1,
            spec_find_sub(s@, pat@, 0) == spec_find_sub(s@, pat@, i as int),
        decreases n - m + 1 - i,
    {
        let mut j: usize = 0;
        let mut matched = true;
        while j < m && matched
            invariant
                0 <= j <= m,
                matched <==> (forall|w: int| 0 <= w < j ==> s@[i + w] == #[trigger] pat@[w]),
            decreases m - j,
        {
            if s.get_char(i + j) != pat.get_char(j) {
                matched = false;
            }
            j = j + 1;
        }
        if matched {
            proof {
                assert(s@.subrange(i as int, i + pat@.len()) =~= pat@);
            }
            return Some(i);
        }
        proof {
            let w = choose|w: int| 0 <= w < j && s@[i + w] != pat@[w];
            assert(s@.subrange(i as int, i + pat@.len())[w] == s@[i + w]);
            assert(s@.subrange(i as int, i + pat@.len()) != pat@);
        }
        i = i + 1;
    }
    None
}

/// Lexicographic order on character sequences, by code point.
pub open spec fn lex_lt(a: Seq<char>, b: Seq<char>) -> bool
    decreases a.len(),
{
    if b.len() == 0 {
        false
    } else if a.len() == 0 {
        true
    } else if a[0] != b[0] {
        (a[0] as int) < (b[0] as int)
    } else {
        lex_lt(a.drop_first(), b.drop_first())
    }
}

pub proof fn lemma_lex_lt_skip(a: Seq<char>, b: Seq<char>, i: int)
    requires
        0 <= i <= a.len(),
        i <= b.len(),
        forall|j: int| 0 <= j < i ==> a[j] == b[j],
    ensures
        lex_lt(a, b) == lex_lt(a.skip(i), b.skip(i)),
    decreases i,
{
    if i > 0 {
        assert(a.len() > 0 && b.len() > 0);
        assert(a[0] == b[0]);
        assert(a.drop_first().skip(i - 1) =~= a.skip(i));
        assert(b.drop_first().skip(i - 1) =~= b.skip(i));
        lemma_lex_lt_skip(a.drop_first(), b.drop_first(), i - 1);
    } else {
        assert(a.skip(0) =~= a);
        assert(b.skip(0) =~= b);
    }
}

/// Lexicographic comparison of two strings by code point.
#[verifier::loop_isolation(false)]
pub fn str_lt(a: &str, b: &str) -> (r: bool)
    ensures
        r == lex_lt(a@, b@),
{
    let an = a.unicode_len();
    let bn = b.unicode_len();
    let mut i: usize = 0;
    while i < an && i < bn
        invariant
            i <= an,
            i <= bn,
            forall|j: int| 0 <= j < i ==> a@[j] == b@[j],
        decreases an - i,
    {
        let ca = a.get_char(i);
        let cb = b.get_char(i);
        if ca != cb {
            proof {
                lemma_lex_lt_skip(a@, b@, i as int);
            }
            return ca < cb;
        }
        i = i + 1;
    }
    proof {
        lemma_lex_lt_skip(a@, b@, i as int);
    }
    an < bn
}


/// Every occurrence of a pattern replaced, scanning left to right
/// without overlap; an empty pattern replaces nothing.
pub open spec fn spec_replace(s: Seq<char>, pat: Seq<char>, with: Seq<char>) -> Seq<char>
    decreases s.len(),
    via spec_replace_decreases
{
    if pat.len() == 0 {
        s
    } else {
        let i = spec_find_sub(s, pat, 0);
        if i < 0 {
            s
        } else {
            s.take(i) + with + spec_replace(s.skip(i + pat.len()), pat, with)
        }
    }
}

#[via_fn]
proof fn spec_replace_decreases(s: Seq<char>, pat: Seq<char>, with: Seq<char>) {
    if pat.len() > 0 && spec_find_sub(s, pat, 0) >= 0 {
        lemma_find_sub_bounds(s, pat, 0);
    }
}

pub proof fn lemma_find_sub_bounds(s: Seq<char>, pat: Seq<char>, from: int)
    requires
        0 <= from,
    ensures
        spec_find_sub(s, pat, from) >= 0 ==> from <= spec_find_sub(s, pat, from) <= s.len()
            - pat.len() && s.subrange(
            spec_find_sub(s, pat, from),
            spec_find_sub(s, pat, from) + pat.len(),
        ) == pat,
        spec_find_sub(s, pat, from) == -1 ==> forall|i: int|
            from <= i <= s.len() - pat.len() ==> #[trigger] s.subrange(i, i + pat.len()) != pat,
    decreases s.len() - pat.len() - from + 1,
{
    if !(from < 0 || from > s.len() - pat.len()) {
        if s.subrange(from, from + pat.len()) != pat {
            lemma_find_sub_bounds(s, pat, from + 1);
        }
    }
}

/// Replace every occurrence of a pattern, left to right.
#[verifier::loop_isolation(false)]
pub fn replace_all(s: &str, pat: &str, with: &str) -> (r: String)
    ensures
        r@ == spec_replace(s@, pat@, with@),
{
    let n = s.unicode_len();
    let m = pat.unicode_len();
    if m == 0 {
        return s.to_owned();
    }
    let mut out = String::new();
    let mut start: usize = 0;
    proof {
        assert(s@.skip(0) =~= s@);
        assert(Seq::<char>::empty() + spec_replace(s@, pat@, with@) =~= spec_replace(
            s@,
            pat@,
            with@,
        ));
    }
    loop
        invariant
            start <= n,
            n == s@.len(),
            m == pat@.len(),
            m > 0,
            spec_replace(s@, pat@, with@) == out@ + spec_replace(s@.skip(start as int), pat@, with@),
        decreases n - start,
    {
        let tail = s.substring_char(start, n);
        let ghost tv = s@.skip(start as int);
        proof {
            assert(tail@ =~= tv);
        }
        match find_sub(tail, pat) {
            Some(i) => {
                proof {
                    lemma_find_sub_bounds(tv, pat@, 0);
                }
                let piece = tail.substring_char(0, i);
                out.append(piece);
                out.append(with);
                proof {
                    assert(piece@ =~= tv.take(i as int));
                    assert(tv.skip(i + pat@.len()) =~= s@.skip(start + i + pat@.len()));
                }
                start = start + i + m;
            },
            None => {
                out.append(tail);
                proof {
                    assert(spec_replace(tv, pat@, with@) == tv);
                }
                return out;
            },
        }
    }
}

} // verus!
