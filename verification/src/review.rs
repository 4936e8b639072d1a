//! Parsing of unified diff text into hunks: each `@@` header opens a
//! hunk, the lines until the next header are its content, and the
//! header's `+start` field gives the first line number of the new file
//! (kept from the previous header when a header carries none).

use vstd::prelude::*;
use crate::envtext::{spec_find_char, spec_lines, spec_trim_start};
use crate::text::is_wsp;
use crate::versioning::{all_digits, spec_digits_val};

verus! {

/// One hunk of a unified diff.
#[derive(Debug)]
pub struct DiffHunk {
    pub header: String,
    pub content: Vec<String>,
    pub new_start: u64,
}

/// Mathematical image of a [`DiffHunk`].
pub struct HunkModel {
    pub header: Seq<char>,
    pub content: Seq<Seq<char>>,
    pub new_start: u64,
}

impl View for DiffHunk {
    type V = HunkModel;

    open spec fn view(&self) -> HunkModel {
        HunkModel {
            header: self.header@,
            content: self.content.deep_view(),
            new_start: self.new_start,
        }
    }
}

impl DeepView for DiffHunk {
    type V = HunkModel;

    open spec fn deep_view(&self) -> HunkModel {
        self@
    }
}

/// Whether a line opens a hunk.
pub open spec fn spec_is_header(l: Seq<char>) -> bool {
    l.len() >= 2 && l[0] == '@' && l[1] == '@'
}

/// Index of the first whitespace character at or after `from`, or the
/// length when there is none.
pub open spec fn spec_find_wsp(s: Seq<char>, from: int) -> int
    decreases s.len() - from,
{
    if from < 0 || from >= s.len() {
        s.len() as int
    } else if is_wsp(s[from]) {
        from
    } else {
        spec_find_wsp(s, from + 1)
    }
}

pub proof fn lemma_find_wsp_bounds(s: Seq<char>, from: int)
    requires
        0 <= from <= s.len(),
    ensures
        from <= spec_find_wsp(s, from) <= s.len(),
        forall|j: int| from <= j < spec_find_wsp(s, from) ==> !is_wsp(s[j]),
        spec_find_wsp(s, from) < s.len() ==> is_wsp(s[spec_find_wsp(s, from)]),
    decreases s.len() - from,
{
    if from < s.len() && !is_wsp(s[from]) {
        lemma_find_wsp_bounds(s, from + 1);
    }
}

pub proof fn lemma_trim_start_shrinks(s: Seq<char>)
    ensures
        spec_trim_start(s).len() <= s.len(),
        spec_trim_start(s).len() > 0 ==> !is_wsp(spec_trim_start(s)[0]),
    decreases s.len(),
{
    if s.len() > 0 && is_wsp(s[0]) {
        lemma_trim_start_shrinks(s.drop_first());
    }
}

/// The whitespace-separated fields of a line, in order.
pub open spec fn spec_fields(s: Seq<char>) -> Seq<Seq<char>>
    decreases s.len(),
    via spec_fields_decreases
{
    let t = spec_trim_start(s);
    if t.len() == 0 {
        Seq::empty()
    } else {
        let w = spec_find_wsp(t, 0);
        seq![t.take(w)] + spec_fields(t.skip(w))
    }
}

#[via_fn]
proof fn spec_fields_decreases(s: Seq<char>) {
    let t = spec_trim_start(s);
    lemma_trim_start_shrinks(s);
    if t.len() > 0 {
        lemma_find_wsp_bounds(t, 0);
        assert(!is_wsp(t[0]));
        assert(spec_find_wsp(t, 0) >= 1);
    }
}

/// The first field that starts with `+`.
pub open spec fn spec_plus_field(fields: Seq<Seq<char>>) -> Option<Seq<char>>
    decreases fields.len(),
{
    if fields.len() == 0 {
        None
    } else if fields[0].len() > 0 && fields[0][0] == '+' {
        Some(fields[0])
    } else {
        spec_plus_field(fields.drop_first())
    }
}

/// Leading plus signs removed.
pub open spec fn spec_strip_plus(s: Seq<char>) -> Seq<char>
    decreases s.len(),
{
    if s.len() > 0 && s[0] == '+' {
        spec_strip_plus(s.drop_first())
    } else {
        s
    }
}

/// The new-file start a header carries: its `+` field with the pluses
/// removed, up to a comma, as a number; the previous start when the
/// header has no readable one.
pub open spec fn spec_header_start(line: Seq<char>, prev: u64) -> u64 {
    match spec_plus_field(spec_fields(line)) {
        None => prev,
        Some(f) => {
            let raw = spec_strip_plus(f);
            let num = raw.take(spec_find_char(raw, ',', 0));
            if num.len() > 0 && all_digits(num) && spec_digits_val(num) <= u64::MAX {
                spec_digits_val(num) as u64
            } else {
                prev
            }
        },
    }
}

/// Folding the diff's lines into hunks: a header flushes the open hunk
/// and opens a new one; other lines extend the open hunk and are dropped
/// before the first header.
pub open spec fn spec_hunks_fold(
    lines: Seq<Seq<char>>,
    cur: Option<(Seq<char>, Seq<Seq<char>>)>,
    start: u64,
    acc: Seq<HunkModel>,
) -> Seq<HunkModel>
    decreases lines.len(),
{
    if lines.len() == 0 {
        match cur {
            Some(open_hunk) => acc.push(
                HunkModel { header: open_hunk.0, content: open_hunk.1, new_start: start },
            ),
            None => acc,
        }
    } else if spec_is_header(lines[0]) {
        let flushed = match cur {
            Some(open_hunk) => acc.push(
                HunkModel { header: open_hunk.0, content: open_hunk.1, new_start: start },
            ),
            None => acc,
        };
        spec_hunks_fold(
            lines.drop_first(),
            Some((lines[0], Seq::empty())),
            spec_header_start(lines[0], start),
            flushed,
        )
    } else {
        match cur {
            Some(open_hunk) => spec_hunks_fold(
                lines.drop_first(),
                Some((open_hunk.0, open_hunk.1.push(lines[0]))),
                start,
                acc,
            ),
            None => spec_hunks_fold(lines.drop_first(), None, start, acc),
        }
    }
}

/// The hunks of a unified diff text.
pub open spec fn spec_parse_hunks(text: Seq<char>) -> Seq<HunkModel> {
    spec_hunks_fold(spec_lines(text), None, 1, Seq::empty())
}

/// The whitespace-separated fields of a line.
#[verifier::loop_isolation(false)]
pub fn fields(s: &str) -> (r: Vec<String>)
    ensures
        r.deep_view() == spec_fields(s@),
    decreases s@.len(),
{
    let n = s.unicode_len();
    let mut start: usize = 0;
    while start < n && crate::text::wsp(s.get_char(start))
        invariant
            start <= n,
            n == s@.len(),
            forall|j: int| 0 <= j < start ==> is_wsp(s@[j]),
        decreases n - start,
    {
        start = start + 1;
    }
    proof {
        crate::envtext::lemma_trim_start_skip(s@, start as int);
    }
    let mut out: Vec<String> = Vec::new();
    if start == n {
        proof {
            assert(s@.skip(n as int) =~= Seq::<char>::empty());
            assert(out.deep_view() =~= Seq::<Seq<char>>::empty());
        }
        return out;
    }
    let ghost t = s@.skip(start as int);
    proof {
        assert(t[0] == s@[start as int]);
    }
    let mut w: usize = start;
    while w < n && !crate::text::wsp(s.get_char(w))
        invariant
            start <= w <= n,
            n == s@.len(),
            forall|j: int| start <= j < w ==> !is_wsp(s@[j]),
        decreases n - w,
    {
        w = w + 1;
    }
    proof {
        assert forall|j: int| 0 <= j < w - start implies !is_wsp(t[j]) by {
            assert(t[j] == s@[start + j]);
        }
        lemma_find_wsp_bounds(t, 0);
        assert(spec_find_wsp(t, 0) == w - start) by {
            if w < n {
                assert(t[w - start as int] == s@[w as int]);
                if spec_find_wsp(t, 0) > w - start {
                    assert(!is_wsp(t[w - start as int]));
                }
            } else {
                assert(spec_find_wsp(t, 0) == t.len());
            }
            if spec_find_wsp(t, 0) < w - start {
                assert(is_wsp(t[spec_find_wsp(t, 0)]));
            }
        }
    }
    let field = s.substring_char(start, w);
    let rest = s.substring_char(w, n);
    proof {
        assert(field@ =~= t.take(w - start as int));
        assert(rest@ =~= t.skip(w - start as int));
        assert(rest@.len() < s@.len());
    }
    let mut tail_fields = fields(rest);
    let ghost tf = tail_fields.deep_view();
    let mut combined: Vec<String> = Vec::new();
    combined.push(field.to_owned());
    let ghost c0 = combined.deep_view();
    proof {
        assert(c0 =~= seq![t.take(w - start as int)]);
    }
    let mut k: usize = 0;
    while k < tail_fields.len()
        invariant
            k <= tf.len(),
            tf == tail_fields.deep_view(),
            tf.len() == tail_fields@.len(),
            combined.deep_view() =~= c0 + tf.take(k as int),
        decreases tf.len() - k,
    {
        let ghost cur = combined.deep_view();
        combined.push(tail_fields[k].clone());
        proof {
            assert(combined.deep_view() =~= cur.push(tf[k as int])) by {
                assert forall|j: int| 0 <= j < combined@.len() implies combined.deep_view()[j]
                    == cur.push(tf[k as int])[j] by {
                    assert(combined.deep_view()[j] == combined@[j]@);
                }
            }
            assert(tf.take(k + 1) =~= tf.take(k as int).push(tf[k as int]));
        }
        k = k + 1;
    }
    proof {
        assert(tf.take(tf.len() as int) =~= tf);
        assert(combined.deep_view() =~= seq![t.take(w - start as int)] + spec_fields(
            t.skip(w - start as int),
        ));
    }
    combined
}

/// The new-file start of a hunk header, keeping the previous start when
/// the header carries no readable one.
#[verifier::loop_isolation(false)]
pub fn header_start(line: &str, prev: u64) -> (r: u64)
    ensures
        r == spec_header_start(line@, prev),
{
    let parts = fields(line);
    let ghost pv = parts.deep_view();
    proof {
        assert(pv.skip(0) =~= pv);
    }
    let mut i: usize = 0;
    while i < parts.len()
        invariant
            i <= pv.len(),
            pv == parts.deep_view(),
            pv.len() == parts@.len(),
            spec_plus_field(pv) == spec_plus_field(pv.skip(i as int)),
        decreases pv.len() - i,
    {
        proof {
            assert(pv.skip(i as int)[0] == pv[i as int]);
            assert(pv.skip(i as int).drop_first() =~= pv.skip(i + 1));
            assert(pv[i as int] == parts@[i as int]@);
        }
        let part = &parts[i];
        let pn = part.as_str().unicode_len();
        if pn > 0 && part.as_str().get_char(0) == '+' {
            let ghost fv = part@;
            proof {
                assert(fv.skip(0) =~= fv);
            }
            let mut p: usize = 0;
            while p < pn && part.as_str().get_char(p) == '+'
                invariant
                    p <= pn,
                    pn == fv.len(),
                    part@ == fv,
                    spec_strip_plus(fv) == spec_strip_plus(fv.skip(p as int)),
                decreases pn - p,
            {
                proof {
                    assert(fv.skip(p as int)[0] == fv[p as int]);
                    assert(fv.skip(p as int).drop_first() =~= fv.skip(p + 1));
                }
                p = p + 1;
            }
            proof {
                if p < pn {
                    assert(fv.skip(p as int)[0] == fv[p as int]);
                }
                assert(spec_strip_plus(fv.skip(p as int)) == fv.skip(p as int));
            }
            let raw = part.as_str().substring_char(p, pn);
            let ghost rv = fv.skip(p as int);
            proof {
                assert(raw@ =~= rv);
            }
            let rn = raw.unicode_len();
            let mut c: usize = 0;
            while c < rn && raw.get_char(c) != ','
                invariant
                    c <= rn,
                    rn == rv.len(),
                    raw@ == rv,
                    spec_find_char(rv, ',', 0) == spec_find_char(rv, ',', c as int),
                decreases rn - c,
            {
                c = c + 1;
            }
            let num = raw.substring_char(0, c);
            proof {
                assert(num@ =~= rv.take(c as int));
            }
            return match crate::versioning::parse_u64(num) {
                Some(v) => v,
                None => prev,
            };
        }
        i = i + 1;
    }
    proof {
        assert(pv.skip(pv.len() as int) =~= Seq::<Seq<char>>::empty());
    }
    prev
}

/// Whether a line opens a hunk.
pub fn is_header(line: &str) -> (r: bool)
    ensures
        r == spec_is_header(line@),
{
    line.unicode_len() >= 2 && line.get_char(0) == '@' && line.get_char(1) == '@'
}

/// Parse a unified diff into its hunks.
#[verifier::loop_isolation(false)]
pub fn parse_hunks(diff_text: &str) -> (r: Vec<DiffHunk>)
    ensures
        r.deep_view() == spec_parse_hunks(diff_text@),
{
    let lines = crate::envtext::split_lines(diff_text);
    let ghost lv = lines.deep_view();
    let mut out: Vec<DiffHunk> = Vec::new();
    let mut has_open = false;
    let mut open_header = String::new();
    let mut open_content: Vec<String> = Vec::new();
    let mut start: u64 = 1;
    proof {
        assert(lv.skip(0) =~= lv);
        assert(out.deep_view() =~= Seq::<HunkModel>::empty());
    }
    let mut i: usize = 0;
    while i < lines.len()
        invariant
            i <= lv.len(),
            lv == lines.deep_view(),
            lv.len() == lines@.len(),
            spec_parse_hunks(diff_text@) == spec_hunks_fold(
                lv.skip(i as int),
                if has_open {
                    Some((open_header@, open_content.deep_view()))
                } else {
                    None
                },
                start,
                out.deep_view(),
            ),
        decreases lv.len() - i,
    {
        proof {
            assert(lv.skip(i as int)[0] == lv[i as int]);
            assert(lv.skip(i as int).drop_first() =~= lv.skip(i + 1));
            assert(lv[i as int] == lines@[i as int]@);
        }
        let line = &lines[i];
        if is_header(line.as_str()) {
            if has_open {
                let ghost out0 = out.deep_view();
                let hunk = DiffHunk {
                    header: open_header.clone(),
                    content: crate::text::clone_string_vec(&open_content),
                    new_start: start,
                };
                proof {
                    assert(hunk@ == (HunkModel {
                        header: open_header@,
                        content: open_content.deep_view(),
                        new_start: start,
                    }));
                }
                out.push(hunk);
                proof {
                    assert(out.deep_view() =~= out0.push(
                        HunkModel {
                            header: open_header@,
                            content: open_content.deep_view(),
                            new_start: start,
                        },
                    )) by {
                        assert forall|j: int| 0 <= j < out@.len() implies out.deep_view()[j]
                            == out0.push(
                            HunkModel {
                                header: open_header@,
                                content: open_content.deep_view(),
                                new_start: start,
                            },
                        )[j] by {
                            assert(out.deep_view()[j] == out@[j]@);
                        }
                    }
                }
            }
            start = header_start(line.as_str(), start);
            open_header = line.clone();
            open_content = Vec::new();
            has_open = true;
            proof {
                assert(open_content.deep_view() =~= Seq::<Seq<char>>::empty());
            }
        } else {
            if has_open {
                let ghost cc = open_content.deep_view();
                open_content.push(line.clone());
                proof {
                    assert(open_content.deep_view() =~= cc.push(lv[i as int])) by {
                        assert forall|j: int|
                            0 <= j < open_content@.len() implies open_content.deep_view()[j]
                            == cc.push(lv[i as int])[j] by {
                            assert(open_content.deep_view()[j] == open_content@[j]@);
                        }
                    }
                }
            }
        }
        i = i + 1;
    }
    proof {
        assert(lv.skip(lv.len() as int) =~= Seq::<Seq<char>>::empty());
    }
    if has_open {
        let ghost out0 = out.deep_view();
        let hunk = DiffHunk { header: open_header, content: open_content, new_start: start };
        let ghost hm = hunk@;
        out.push(hunk);
        proof {
            assert(out.deep_view() =~= out0.push(hm)) by {
                assert forall|j: int| 0 <= j < out@.len() implies out.deep_view()[j] == out0.push(
                    hm,
                )[j] by {
                    assert(out.deep_view()[j] == out@[j]@);
                }
            }
        }
    }
    out
}

} // verus!
