//! A line-preserving model of an `.env` file: every line is kept as an
//! entry, a comment or a blank, so edits touch only the entry they are
//! about and the file round-trips otherwise unchanged.

use vstd::prelude::*;
use crate::envtext::{spec_find_char, spec_lines, spec_trim, spec_trim_start};

verus! {

/// One line of the file.
#[derive(Debug)]
pub enum Line {
    Entry { key: String, value: String },
    Comment(String),
    Blank,
}

/// Mathematical image of a [`Line`].
pub enum LineModel {
    Entry(Seq<char>, Seq<char>),
    Comment(Seq<char>),
    Blank,
}

impl View for Line {
    type V = LineModel;

    open spec fn view(&self) -> LineModel {
        match self {
            Line::Entry { key, value } => LineModel::Entry(key@, value@),
            Line::Comment(text) => LineModel::Comment(text@),
            Line::Blank => LineModel::Blank,
        }
    }
}

impl DeepView for Line {
    type V = LineModel;

    open spec fn deep_view(&self) -> LineModel {
        self@
    }
}

/// Trailing carriage returns removed.
pub open spec fn spec_strip_cr(s: Seq<char>) -> Seq<char>
    decreases s.len(),
{
    if s.len() > 0 && s.last() == '\r' {
        spec_strip_cr(s.drop_last())
    } else {
        s
    }
}

/// What one raw line is: a comment when its first non-blank character is
/// `#`, blank when nothing is left, otherwise an entry split at the
/// first `=` with the key trimmed and the value kept as written (empty
/// when there is no `=`).
pub open spec fn spec_parse_line(raw: Seq<char>) -> LineModel {
    let t = spec_strip_cr(raw);
    let lead = spec_trim_start(t);
    if lead.len() > 0 && lead[0] == '#' {
        LineModel::Comment(t)
    } else if t.len() == 0 {
        LineModel::Blank
    } else {
        let eq = spec_find_char(t, '=', 0);
        if eq == t.len() {
            LineModel::Entry(spec_trim(t), Seq::empty())
        } else {
            LineModel::Entry(spec_trim(t.take(eq)), t.skip(eq + 1))
        }
    }
}

/// The key/value pairs of the entry lines, in file order.
pub open spec fn spec_entries(lines: Seq<LineModel>) -> Seq<(Seq<char>, Seq<char>)>
    decreases lines.len(),
{
    if lines.len() == 0 {
        Seq::empty()
    } else {
        (match lines[0] {
            LineModel::Entry(k, v) => seq![(k, v)],
            _ => Seq::empty(),
        }) + spec_entries(lines.drop_first())
    }
}

/// The lines after setting a key: the first entry with that key gets the
/// new value; without one, a new entry is appended.
pub open spec fn spec_upsert(lines: Seq<LineModel>, k: Seq<char>, v: Seq<char>) -> Seq<LineModel>
    decreases lines.len(),
{
    if lines.len() == 0 {
        seq![LineModel::Entry(k, v)]
    } else if (lines[0] matches LineModel::Entry(k0, _) && k0 == k) {
        seq![LineModel::Entry(k, v)] + lines.drop_first()
    } else {
        seq![lines[0]] + spec_upsert(lines.drop_first(), k, v)
    }
}

/// The lines after removing a key: every entry with that key is dropped,
/// everything else stays.
pub open spec fn spec_remove(lines: Seq<LineModel>, k: Seq<char>) -> Seq<LineModel>
    decreases lines.len(),
{
    if lines.len() == 0 {
        Seq::empty()
    } else {
        (if (lines[0] matches LineModel::Entry(k0, _) && k0 == k) {
            Seq::empty()
        } else {
            seq![lines[0]]
        }) + spec_remove(lines.drop_first(), k)
    }
}

/// Whether some entry line carries the key.
pub open spec fn spec_has_key(lines: Seq<LineModel>, k: Seq<char>) -> bool {
    exists|i: int|
        0 <= i < lines.len() && ((#[trigger] lines[i]) matches LineModel::Entry(k0, _) && k0 == k)
}

/// One line as it is written back.
pub open spec fn spec_render_line(l: LineModel) -> Seq<char> {
    match l {
        LineModel::Entry(k, v) => k + seq!['='] + v,
        LineModel::Comment(t) => t,
        LineModel::Blank => Seq::empty(),
    }
}

/// The whole file as it is written back: the rendered lines joined by
/// newlines.
pub open spec fn spec_render(lines: Seq<LineModel>) -> Seq<char> {
    crate::text::spec_join(Seq::new(lines.len(), |i: int| spec_render_line(lines[i])), seq!['\n'])
}

/// Parse one raw line of an `.env` file.
#[verifier::loop_isolation(false)]
pub fn parse_line(raw: &str) -> (r: Line)
    ensures
        r@ == spec_parse_line(raw@),
{
    let n = raw.unicode_len();
    let mut end: usize = n;
    proof {
        assert(raw@.take(n as int) =~= raw@);
    }
    while end > 0 && raw.get_char(end - 1) == '\r'
        invariant
            end <= n,
            n == raw@.len(),
            spec_strip_cr(raw@) == spec_strip_cr(raw@.take(end as int)),
        decreases end,
    {
        proof {
            assert(raw@.take(end as int).last() == raw@[end - 1]);
            assert(raw@.take(end as int).drop_last() =~= raw@.take(end - 1));
        }
        end = end - 1;
    }
    let stripped = raw.substring_char(0, end);
    proof {
        assert(raw@.take(n as int) =~= raw@);
        assert(stripped@ =~= raw@.take(end as int));
        if end > 0 {
            assert(raw@.take(end as int).last() == raw@[end - 1]);
        }
        assert(spec_strip_cr(raw@.take(end as int)) == raw@.take(end as int));
    }
    let ghost t = stripped@;
    let lead = crate::envtext::trim(stripped);
    let lead_n = lead.as_str().unicode_len();
    if lead_n > 0 && lead.as_str().get_char(0) == '#' {
        proof {
            lemma_trim_is_trim_start_then_end(t);
        }
        return Line::Comment(stripped.to_owned());
    }
    proof {
        lemma_trim_is_trim_start_then_end(t);
    }
    let tn = stripped.unicode_len();
    if tn == 0 {
        return Line::Blank;
    }
    let mut eq: usize = 0;
    while eq < tn && stripped.get_char(eq) != '='
        invariant
            eq <= tn,
            tn == t.len(),
            spec_find_char(t, '=', 0) == spec_find_char(t, '=', eq as int),
        decreases tn - eq,
    {
        eq = eq + 1;
    }
    if eq == tn {
        let key = crate::envtext::trim(stripped);
        return Line::Entry { key, value: String::new() };
    }
    let before = stripped.substring_char(0, eq);
    let value = stripped.substring_char(eq + 1, tn).to_owned();
    proof {
        assert(before@ =~= t.take(eq as int));
        assert(value@ =~= t.skip(eq + 1));
    }
    let key = crate::envtext::trim(before);
    Line::Entry { key, value }
}

proof fn lemma_trim_is_trim_start_then_end(s: Seq<char>)
    ensures
        spec_trim(s).len() > 0 ==> spec_trim_start(s).len() > 0 && spec_trim(s)[0]
            == spec_trim_start(s)[0],
        spec_trim(s).len() == 0 ==> (spec_trim_start(s).len() == 0 || (forall|i: int|
            0 <= i < spec_trim_start(s).len() ==> crate::text::is_wsp(
                #[trigger] spec_trim_start(s)[i],
            ))),
{
    lemma_trim_end_prefix(spec_trim_start(s));
}

proof fn lemma_trim_end_prefix(s: Seq<char>)
    ensures
        crate::envtext::spec_trim_end(s).len() <= s.len(),
        forall|i: int|
            0 <= i < crate::envtext::spec_trim_end(s).len()
                ==> #[trigger] crate::envtext::spec_trim_end(s)[i] == s[i],
        crate::envtext::spec_trim_end(s).len() == 0 ==> forall|i: int|
            0 <= i < s.len() ==> crate::text::is_wsp(#[trigger] s[i]),
    decreases s.len(),
{
    if s.len() > 0 && crate::text::is_wsp(s.last()) {
        lemma_trim_end_prefix(s.drop_last());
        if crate::envtext::spec_trim_end(s).len() == 0 {
            assert forall|i: int| 0 <= i < s.len() implies crate::text::is_wsp(
                #[trigger] s[i],
            ) by {
                if i < s.len() - 1 {
                    assert(s.drop_last()[i] == s[i]);
                }
            }
        }
    }
}

/// The file, held as its path and its lines.
#[derive(Debug)]
pub struct EnvFile {
    path: String,
    lines: Vec<Line>,
}

impl EnvFile {
    /// The lines the file holds.
    pub closed spec fn spec_lines_of(&self) -> Seq<LineModel> {
        self.lines.deep_view()
    }

    /// The path the file was read from.
    pub closed spec fn spec_path(&self) -> Seq<char> {
        self.path@
    }

    /// Parse a file's text, keeping every line.
    #[verifier::loop_isolation(false)]
    pub fn from_content(path: String, content: &str) -> (r: EnvFile)
        ensures
            r.spec_path() == path@,
            r.spec_lines_of() =~= Seq::new(
                spec_lines(content@).len(),
                |i: int| spec_parse_line(spec_lines(content@)[i]),
            ),
    {
        let raw_lines = crate::envtext::split_lines(content);
        let ghost lv = raw_lines.deep_view();
        let mut lines: Vec<Line> = Vec::new();
        let mut i: usize = 0;
        while i < raw_lines.len()
            invariant
                i <= lv.len(),
                lv == raw_lines.deep_view(),
                lines@.len() == i,
                forall|j: int| 0 <= j < i ==> #[trigger] lines@[j]@ == spec_parse_line(lv[j]),
            decreases lv.len() - i,
        {
            proof {
                assert(lv[i as int] == raw_lines@[i as int]@);
            }
            let line = parse_line(raw_lines[i].as_str());
            lines.push(line);
            i = i + 1;
        }
        EnvFile { path, lines }
    }

    /// The path the file came from.
    pub fn path(&self) -> (r: &str)
        ensures
            r@ == self.spec_path(),
    {
        self.path.as_str()
    }

    /// The key/value pairs of the entry lines, in file order.
    #[verifier::loop_isolation(false)]
    pub fn entries(&self) -> (r: Vec<(String, String)>)
        ensures
            crate::envtext::pairs_view(r@) == spec_entries(self.spec_lines_of()),
    {
        let ghost lm = self.spec_lines_of();
        let mut out: Vec<(String, String)> = Vec::new();
        proof {
            assert(lm.skip(0) =~= lm);
            assert(crate::envtext::pairs_view(out@) =~= Seq::<(Seq<char>, Seq<char>)>::empty());
            assert(Seq::<(Seq<char>, Seq<char>)>::empty() + spec_entries(lm) =~= spec_entries(lm));
        }
        let mut i: usize = 0;
        while i < self.lines.len()
            invariant
                i <= lm.len(),
                lm == self.spec_lines_of(),
                lm.len() == self.lines@.len(),
                spec_entries(lm) =~= crate::envtext::pairs_view(out@) + spec_entries(
                    lm.skip(i as int),
                ),
            decreases lm.len() - i,
        {
            proof {
                assert(lm.skip(i as int)[0] == lm[i as int]);
                assert(lm.skip(i as int).drop_first() =~= lm.skip(i + 1));
                assert(lm[i as int] == self.lines@[i as int]@);
            }
            let ghost out0 = crate::envtext::pairs_view(out@);
            match &self.lines[i] {
                Line::Entry { key, value } => {
                    out.push((key.clone(), value.clone()));
                    proof {
                        assert(crate::envtext::pairs_view(out@) =~= out0.push((key@, value@)));
                        assert(out0 + (seq![(key@, value@)] + spec_entries(lm.skip(i + 1)))
                            =~= out0.push((key@, value@)) + spec_entries(lm.skip(i + 1)));
                    }
                },
                _ => {},
            }
            i = i + 1;
        }
        proof {
            assert(lm.skip(lm.len() as int) =~= Seq::<LineModel>::empty());
        }
        out
    }

    /// Set a key: the first entry with it gets the new value, or a new
    /// entry is appended at the end.
    #[verifier::loop_isolation(false)]
    pub fn upsert(&mut self, key: &str, value: &str)
        ensures
            final(self).spec_path() == old(self).spec_path(),
            final(self).spec_lines_of() =~= spec_upsert(old(self).spec_lines_of(), key@, value@),
    {
        let ghost lm = self.spec_lines_of();
        proof {
            assert(lm.take(0) =~= Seq::<LineModel>::empty());
            assert(lm.skip(0) =~= lm);
            assert(Seq::<LineModel>::empty() + spec_upsert(lm, key@, value@) =~= spec_upsert(
                lm,
                key@,
                value@,
            ));
        }
        let mut i: usize = 0;
        while i < self.lines.len()
            invariant
                i <= lm.len(),
                lm == self.spec_lines_of(),
                lm.len() == self.lines@.len(),
                self.spec_path() == old(self).spec_path(),
                lm == old(self).spec_lines_of(),
                forall|j: int|
                    0 <= j < i ==> !((#[trigger] lm[j]) matches LineModel::Entry(k0, _) && k0
                        == key@),

                spec_upsert(lm, key@, value@) =~= lm.take(i as int) + spec_upsert(
                    lm.skip(i as int),
                    key@,
                    value@,
                ),
            decreases lm.len() - i,
        {
            proof {
                assert(lm.skip(i as int)[0] == lm[i as int]);
                assert(lm.skip(i as int).drop_first() =~= lm.skip(i + 1));
                assert(lm[i as int] == self.lines@[i as int]@);
            }
            let matched = match &self.lines[i] {
                Line::Entry { key: k0, .. } => crate::text::str_eq(k0.as_str(), key),
                _ => false,
            };
            if matched {
                self.lines.set(i, Line::Entry { key: key.to_owned(), value: value.to_owned() });
                proof {
                    assert(spec_upsert(lm.skip(i as int), key@, value@) =~= seq![
                        LineModel::Entry(key@, value@),
                    ] + lm.skip(i + 1));
                    assert(self.spec_lines_of() =~= lm.take(i as int) + (seq![
                        LineModel::Entry(key@, value@),
                    ] + lm.skip(i + 1))) by {
                        assert forall|w: int| 0 <= w < self.lines@.len() implies self.spec_lines_of()[w]
                            == (lm.take(i as int) + (seq![LineModel::Entry(key@, value@)] + lm.skip(
                            i + 1,
                        )))[w] by {
                            assert(self.spec_lines_of()[w] == self.lines@[w]@);
                            if w != i {
                                assert(self.lines@[w]@ == lm[w]);
                            }
                        }
                    }
                }
                return ;
            }
            proof {
                assert(lm.take(i + 1) =~= lm.take(i as int) + seq![lm[i as int]]);
                assert(lm.take(i as int) + (seq![lm[i as int]] + spec_upsert(
                    lm.skip(i + 1),
                    key@,
                    value@,
                )) =~= lm.take(i + 1) + spec_upsert(lm.skip(i + 1), key@, value@));
            }
            i = i + 1;
        }
        let ghost pre = self.spec_lines_of();
        self.lines.push(Line::Entry { key: key.to_owned(), value: value.to_owned() });
        proof {
            assert(lm.skip(lm.len() as int) =~= Seq::<LineModel>::empty());
            assert(spec_upsert(Seq::<LineModel>::empty(), key@, value@) =~= seq![
                LineModel::Entry(key@, value@),
            ]);
            assert(self.spec_lines_of() =~= pre.push(LineModel::Entry(key@, value@))) by {
                assert forall|w: int| 0 <= w < self.lines@.len() implies self.spec_lines_of()[w]
                    == pre.push(LineModel::Entry(key@, value@))[w] by {
                    assert(self.spec_lines_of()[w] == self.lines@[w]@);
                }
            }
            assert(lm.take(lm.len() as int) =~= lm);
            assert(self.spec_lines_of() =~= lm + seq![LineModel::Entry(key@, value@)]);
        }
    }

    /// Remove a key: every entry with it is dropped. Returns whether any
    /// entry was removed.
    #[verifier::loop_isolation(false)]
    pub fn remove(&mut self, key: &str) -> (r: bool)
        ensures
            final(self).spec_path() == old(self).spec_path(),
            final(self).spec_lines_of() =~= spec_remove(old(self).spec_lines_of(), key@),
            r == spec_has_key(old(self).spec_lines_of(), key@),
    {
        let ghost lm = self.spec_lines_of();
        let mut kept: Vec<Line> = Vec::new();
        let mut removed = false;
        proof {
            assert(lm.skip(0) =~= lm);
            assert(kept.deep_view() =~= Seq::<LineModel>::empty());
            assert(Seq::<LineModel>::empty() + spec_remove(lm, key@) =~= spec_remove(lm, key@));
        }
        let mut i: usize = 0;
        while i < self.lines.len()
            invariant
                i <= lm.len(),
                lm == self.spec_lines_of(),
                lm.len() == self.lines@.len(),
                self.spec_path() == old(self).spec_path(),
                lm == old(self).spec_lines_of(),
                spec_remove(lm, key@) =~= kept.deep_view() + spec_remove(lm.skip(i as int), key@),
                removed == exists|j: int|
                    0 <= j < i && ((#[trigger] lm[j]) matches LineModel::Entry(k0, _) && k0
                        == key@),
            decreases lm.len() - i,
        {
            proof {
                assert(lm.skip(i as int)[0] == lm[i as int]);
                assert(lm.skip(i as int).drop_first() =~= lm.skip(i + 1));
                assert(lm[i as int] == self.lines@[i as int]@);
            }
            let ghost kept0 = kept.deep_view();
            let matched = match &self.lines[i] {
                Line::Entry { key: k0, .. } => crate::text::str_eq(k0.as_str(), key),
                _ => false,
            };
            if matched {
                removed = true;
            } else {
                let copy = match &self.lines[i] {
                    Line::Entry { key: k0, value } => Line::Entry {
                        key: k0.clone(),
                        value: value.clone(),
                    },
                    Line::Comment(text) => Line::Comment(text.clone()),
                    Line::Blank => Line::Blank,
                };
                proof {
                    assert(copy@ == lm[i as int]);
                }
                kept.push(copy);
                proof {
                    assert(kept.deep_view() =~= kept0.push(lm[i as int])) by {
                        assert forall|w: int| 0 <= w < kept@.len() implies kept.deep_view()[w]
                            == kept0.push(lm[i as int])[w] by {
                            assert(kept.deep_view()[w] == kept@[w]@);
                        }
                    }
                    assert(kept0 + (seq![lm[i as int]] + spec_remove(lm.skip(i + 1), key@))
                        =~= kept0.push(lm[i as int]) + spec_remove(lm.skip(i + 1), key@));
                }
            }
            i = i + 1;
        }
        proof {
            assert(lm.skip(lm.len() as int) =~= Seq::<LineModel>::empty());
            assert(kept.deep_view() + Seq::<LineModel>::empty() =~= kept.deep_view());
        }
        self.lines = kept;
        removed
    }

    /// The file's text as written back: the lines joined by newlines.
    #[verifier::loop_isolation(false)]
    pub fn render(&self) -> (r: String)
        ensures
            r@ == spec_render(self.spec_lines_of()),
    {
        let ghost lm = self.spec_lines_of();
        let mut rendered: Vec<String> = Vec::new();
        let mut i: usize = 0;
        while i < self.lines.len()
            invariant
                i <= lm.len(),
                lm == self.spec_lines_of(),
                lm.len() == self.lines@.len(),
                rendered@.len() == i,
                forall|j: int|
                    0 <= j < i ==> #[trigger] rendered@[j]@ == spec_render_line(lm[j]),
            decreases lm.len() - i,
        {
            proof {
                assert(lm[i as int] == self.lines@[i as int]@);
            }
            let text = match &self.lines[i] {
                Line::Entry { key, value } => {
                    let mut s = String::new();
                    s.append(key.as_str());
                    s.append("=");
                    s.append(value.as_str());
                    proof {
                        reveal_strlit("=");
                        assert("="@ =~= seq!['=']);
                        assert(s@ =~= key@ + seq!['='] + value@);
                    }
                    s
                },
                Line::Comment(text) => text.clone(),
                Line::Blank => String::new(),
            };
            rendered.push(text);
            i = i + 1;
        }
        let out = crate::text::join(&rendered, "\n");
        proof {
            reveal_strlit("\n");
            assert("\n"@ =~= seq!['\n']);
            assert(rendered.deep_view() =~= Seq::new(lm.len(), |j: int| spec_render_line(lm[j])));
        }
        out
    }
}

} // verus!
