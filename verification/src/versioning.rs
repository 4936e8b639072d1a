//! Semantic-version bumping: the version model, parsing through the
//! semver crate, level increments, and prerelease advancement.

use vstd::prelude::*;
use crate::text::{spec_join, spec_u64_dec};
use crate::envtext::spec_find_char;

verus! {

/// A semantic version: numeric triple plus prerelease and build text.
#[derive(Clone, Debug)]
pub struct Version {
    pub major: u64,
    pub minor: u64,
    pub patch: u64,
    pub pre: String,
    pub build: String,
}

/// Mathematical image of a [`Version`].
#[verifier::ext_equal]
pub struct VersionModel {
    pub major: u64,
    pub minor: u64,
    pub patch: u64,
    pub pre: Seq<char>,
    pub build: Seq<char>,
}

impl View for Version {
    type V = VersionModel;

    open spec fn view(&self) -> VersionModel {
        VersionModel {
            major: self.major,
            minor: self.minor,
            patch: self.patch,
            pre: self.pre@,
            build: self.build@,
        }
    }
}

/// A rejected version or prerelease text, with the parser's message.
#[derive(Clone, Debug)]
pub struct VersionError {
    pub message: String,
}

/// What the semantic-version grammar makes of a text: its parsed parts,
/// or nothing when the text is not a version.
pub uninterp spec fn parsed_version(s: Seq<char>) -> Option<VersionModel>;

/// Whether a text is a valid prerelease identifier.
pub uninterp spec fn prerelease_valid(s: Seq<char>) -> bool;

/// Relies on semver::Version::parse: the semantic-version grammar. The
/// parsed parts are moved into the library's version value.
#[verifier::external_body]
pub fn parse_version(s: &str) -> (r: Result<Version, VersionError>)
    ensures
        match r {
            Ok(v) => parsed_version(s@) == Some(v@),
            Err(_) => parsed_version(s@) is None,
        },
{
    match semver::Version::parse(s) {
        Ok(v) => Ok(
            Version {
                major: v.major,
                minor: v.minor,
                patch: v.patch,
                pre: v.pre.as_str().to_owned(),
                build: v.build.as_str().to_owned(),
            },
        ),
        Err(e) => Err(VersionError { message: e.to_string() }),
    }
}

/// Relies on semver::Prerelease::new: whether a text is a valid
/// prerelease identifier.
#[verifier::external_body]
pub fn check_prerelease(s: &str) -> (r: bool)
    ensures
        r == prerelease_valid(s@),
{
    semver::Prerelease::new(s).is_ok()
}

/// The rendered form of a version: the dotted triple, `-pre` when a
/// prerelease is set, `+build` when build metadata is set.
pub open spec fn spec_render_version(v: VersionModel) -> Seq<char> {
    spec_u64_dec(v.major as nat) + seq!['.'] + spec_u64_dec(v.minor as nat) + seq!['.']
        + spec_u64_dec(v.patch as nat) + (if v.pre.len() > 0 {
        seq!['-'] + v.pre
    } else {
        Seq::empty()
    }) + (if v.build.len() > 0 {
        seq!['+'] + v.build
    } else {
        Seq::empty()
    })
}

impl Version {
    /// A bare numeric version.
    pub fn new(major: u64, minor: u64, patch: u64) -> (r: Version)
        ensures
            r@.major == major,
            r@.minor == minor,
            r@.patch == patch,
            r@.pre == Seq::<char>::empty(),
            r@.build == Seq::<char>::empty(),
    {
        Version { major, minor, patch, pre: String::new(), build: String::new() }
    }

    /// Render the version.
    pub fn render(&self) -> (r: String)
        ensures
            r@ == spec_render_version(self@),
    {
        let mut out = crate::text::u64_dec(self.major);
        out.append(".");
        let minor = crate::text::u64_dec(self.minor);
        out.append(minor.as_str());
        out.append(".");
        let patch = crate::text::u64_dec(self.patch);
        out.append(patch.as_str());
        proof {
            reveal_strlit(".");
        }
        if self.pre.as_str().unicode_len() > 0 {
            out.append("-");
            out.append(self.pre.as_str());
            proof {
                reveal_strlit("-");
            }
        }
        if self.build.as_str().unicode_len() > 0 {
            out.append("+");
            out.append(self.build.as_str());
            proof {
                reveal_strlit("+");
            }
        }
        proof {
            assert(out@ =~= spec_render_version(self@));
        }
        out
    }
}

/// The levels a version can be bumped by.
#[derive(Copy, Clone, Debug, PartialEq, Eq, Structural)]
pub enum BumpLevel {
    Major,
    Minor,
    Patch,
    Prerelease,
}

/// Whether a character is a decimal digit.
pub open spec fn is_digit(c: char) -> bool {
    c == '0' || c == '1' || c == '2' || c == '3' || c == '4' || c == '5' || c == '6' || c == '7'
        || c == '8' || c == '9'
}

/// The value of a decimal digit.
pub open spec fn digit_val(c: char) -> nat {
    if c == '0' {
        0
    } else if c == '1' {
        1
    } else if c == '2' {
        2
    } else if c == '3' {
        3
    } else if c == '4' {
        4
    } else if c == '5' {
        5
    } else if c == '6' {
        6
    } else if c == '7' {
        7
    } else if c == '8' {
        8
    } else {
        9
    }
}

/// The numeric value of a digit string, most significant digit first.
pub open spec fn spec_digits_val(s: Seq<char>) -> nat
    decreases s.len(),
{
    if s.len() == 0 {
        0
    } else {
        spec_digits_val(s.drop_last()) * 10 + digit_val(s.last())
    }
}

/// Whether every character of the text is a decimal digit.
pub open spec fn all_digits(s: Seq<char>) -> bool {
    forall|i: int| 0 <= i < s.len() ==> is_digit(#[trigger] s[i])
}

proof fn lemma_digits_val_monotone(s: Seq<char>, k: int)
    requires
        0 <= k <= s.len(),
    ensures
        spec_digits_val(s) >= spec_digits_val(s.take(k)),
    decreases s.len() - k,
{
    if k < s.len() {
        lemma_digits_val_monotone(s, k + 1);
        assert(s.take(k + 1).drop_last() =~= s.take(k));
        assert(spec_digits_val(s.take(k + 1)) == spec_digits_val(s.take(k)) * 10 + digit_val(
            s.take(k + 1).last(),
        ));
    } else {
        assert(s.take(s.len() as int) =~= s);
    }
}

/// Parse a decimal digit string into a number: defined exactly for
/// non-empty all-digit texts whose value fits.
#[verifier::loop_isolation(false)]
pub fn parse_u64(s: &str) -> (r: Option<u64>)
    ensures
        match r {
            Some(n) => s@.len() > 0 && all_digits(s@) && n == spec_digits_val(s@),
            None => s@.len() == 0 || !all_digits(s@) || spec_digits_val(s@) > u64::MAX,
        },
{
    let n = s.unicode_len();
    if n == 0 {
        return None;
    }
    let mut acc: u64 = 0;
    let mut i: usize = 0;
    while i < n
        invariant
            i <= n,
            n == s@.len(),
            acc == spec_digits_val(s@.take(i as int)),
            forall|j: int| 0 <= j < i ==> is_digit(#[trigger] s@[j]),
        decreases n - i,
    {
        let c = s.get_char(i);
        let d: u64 = match c {
            '0' => 0,
            '1' => 1,
            '2' => 2,
            '3' => 3,
            '4' => 4,
            '5' => 5,
            '6' => 6,
            '7' => 7,
            '8' => 8,
            '9' => 9,
            _ => {
                return None;
            },
        };
        proof {
            assert(is_digit(s@[i as int]) && d == digit_val(s@[i as int]));
            assert(s@.take(i + 1).drop_last() =~= s@.take(i as int));
        }
        if acc > u64::MAX / 10 {
            proof {
                lemma_digits_val_monotone(s@, i + 1);
                assert(spec_digits_val(s@.take(i + 1)) == acc * 10 + d);
            }
            return None;
        }
        let shifted = acc * 10;
        if d > u64::MAX - shifted {
            proof {
                lemma_digits_val_monotone(s@, i + 1);
                assert(spec_digits_val(s@.take(i + 1)) == acc * 10 + d);
            }
            return None;
        }
        acc = shifted + d;
        i = i + 1;
    }
    proof {
        assert(s@.take(n as int) =~= s@);
    }
    Some(acc)
}

/// The text split at every occurrence of a separator character; an empty
/// text gives one empty piece.
pub open spec fn spec_split(s: Seq<char>, sep: char) -> Seq<Seq<char>>
    decreases s.len(),
    via spec_split_decreases
{
    let i = spec_find_char(s, sep, 0);
    if i == s.len() {
        seq![s]
    } else {
        seq![s.take(i)] + spec_split(s.skip(i + 1), sep)
    }
}

#[via_fn]
proof fn spec_split_decreases(s: Seq<char>, sep: char) {
    crate::envtext::lemma_find_char_bounds(s, sep, 0);
}

/// Split a text at every occurrence of a separator.
#[verifier::loop_isolation(false)]
pub fn split_on(s: &str, sep: char) -> (r: Vec<String>)
    ensures
        r.deep_view() == spec_split(s@, sep),
{
    let n = s.unicode_len();
    let mut out: Vec<String> = Vec::new();
    let mut start: usize = 0;
    proof {
        assert(out.deep_view() =~= Seq::<Seq<char>>::empty());
        assert(s@.skip(0) =~= s@);
        assert(Seq::<Seq<char>>::empty() + spec_split(s@, sep) =~= spec_split(s@, sep));
    }
    loop
        invariant
            start <= n,
            n == s@.len(),
            spec_split(s@, sep) == out.deep_view() + spec_split(s@.skip(start as int), sep),
        decreases n - start + 1,
    {
        let ghost tail = s@.skip(start as int);
        let mut j: usize = start;
        while j < n && s.get_char(j) != sep
            invariant
                start <= j <= n,
                n == s@.len(),
                forall|w: int| start <= w < j ==> s@[w] != sep,
            decreases n - j,
        {
            j = j + 1;
        }
        proof {
            assert forall|w: int| 0 <= w < j - start implies tail[w] != sep by {
                assert(tail[w] == s@[start + w]);
            }
            crate::envtext::lemma_find_char_bounds(tail, sep, 0);
            assert(spec_find_char(tail, sep, 0) == j - start) by {
                if j < n {
                    assert(tail[j - start as int] == sep);
                    if spec_find_char(tail, sep, 0) > j - start {
                        assert(tail[j - start as int] != sep);
                    }
                } else {
                    assert(spec_find_char(tail, sep, 0) == tail.len());
                }
                if spec_find_char(tail, sep, 0) < j - start {
                    assert(tail[spec_find_char(tail, sep, 0)] == sep);
                }
            }
        }
        let piece = s.substring_char(start, j);
        let ghost out0 = out.deep_view();
        out.push(piece.to_owned());
        proof {
            assert(out.deep_view() =~= out0.push(tail.take(j - start as int))) by {
                assert(piece@ =~= tail.take(j - start as int));
                assert forall|w: int| 0 <= w < out@.len() implies out.deep_view()[w] == out0.push(
                    tail.take(j - start as int),
                )[w] by {
                    assert(out.deep_view()[w] == out@[w]@);
                    if w < out@.len() - 1 {
                        assert(out0[w] == out@[w]@);
                    }
                }
            }
            if j < n {
                assert(spec_split(tail, sep) == seq![tail.take(j - start as int)] + spec_split(
                    tail.skip(j - start + 1),
                    sep,
                ));
                assert(tail.skip(j - start + 1) =~= s@.skip(j + 1));
                assert(out.deep_view() + spec_split(s@.skip(j + 1), sep) =~= out0 + spec_split(
                    tail,
                    sep,
                ));
            } else {
                assert(tail.take(j - start as int) =~= tail);
                assert(spec_split(tail, sep) == seq![tail]);
                assert(out.deep_view() + Seq::<Seq<char>>::empty() =~= out0 + spec_split(
                    tail,
                    sep,
                ));
            }
        }
        if j < n {
            start = j + 1;
        } else {
            return out;
        }
    }
}

/// The prerelease text after one bump: `alpha.1` from nothing; a final
/// numeric segment incremented; otherwise a new `1` segment appended.
pub open spec fn spec_bump_pre(pre: Seq<char>) -> Seq<char> {
    if pre.len() == 0 {
        "alpha.1"@
    } else {
        let segments = spec_split(pre, '.');
        let last = segments[segments.len() - 1];
        if last.len() > 0 && all_digits(last) && spec_digits_val(last) < u64::MAX {
            spec_join(segments.update(segments.len() - 1, spec_u64_dec(spec_digits_val(last) + 1)), seq!['.'])
        } else {
            spec_join(segments.push(seq!['1']), seq!['.'])
        }
    }
}

proof fn lemma_split_nonempty(s: Seq<char>, sep: char)
    ensures
        spec_split(s, sep).len() >= 1,
    decreases s.len(),
{
    crate::envtext::lemma_find_char_bounds(s, sep, 0);
}

/// Advance a version's prerelease: an empty prerelease becomes
/// `alpha.1`; a final numeric segment is incremented; otherwise a `1`
/// segment is appended. Fails only when the result is no valid
/// prerelease identifier.
#[verifier::loop_isolation(false)]
pub fn bump_prerelease(version: &Version) -> (r: Result<Version, VersionError>)
    ensures
        match r {
            Ok(v) => {
                &&& prerelease_valid(spec_bump_pre(version@.pre))
                &&& v@.major == version@.major
                &&& v@.minor == version@.minor
                &&& v@.patch == version@.patch
                &&& v@.pre == spec_bump_pre(version@.pre)
                &&& v@.build == version@.build
            },
            Err(_) => !prerelease_valid(spec_bump_pre(version@.pre)),
        },
{
    let new_pre: String;
    if version.pre.as_str().unicode_len() == 0 {
        new_pre = "alpha.1".to_owned();
    } else {
        let segments = split_on(version.pre.as_str(), '.');
        proof {
            lemma_split_nonempty(version.pre@, '.');
        }
        let last_idx = segments.len() - 1;
        let ghost segs = segments.deep_view();
        let mut pieces = crate::text::clone_string_vec(&segments);
        let ghost pv = pieces.deep_view();
        match parse_u64(segments[last_idx].as_str()) {
            Some(num) if num < u64::MAX => {
                let rendered = crate::text::u64_dec(num + 1);
                pieces.set(last_idx, rendered);
                proof {
                    assert(segments@[last_idx as int]@ == segs[last_idx as int]);
                    assert(pieces.deep_view() =~= segs.update(
                        segs.len() - 1,
                        spec_u64_dec(spec_digits_val(segs[segs.len() - 1]) + 1),
                    )) by {
                        assert forall|w: int| 0 <= w < pieces@.len() implies pieces.deep_view()[w]
                            == segs.update(
                            segs.len() - 1,
                            spec_u64_dec(spec_digits_val(segs[segs.len() - 1]) + 1),
                        )[w] by {
                            assert(pieces.deep_view()[w] == pieces@[w]@);
                            if w != last_idx {
                                assert(pieces@[w]@ == pv[w]);
                                assert(pv[w] == segs[w]);
                            }
                        }
                    }
                }
            },
            _ => {
                pieces.push("1".to_owned());
                proof {
                    reveal_strlit("1");
                    assert("1"@ =~= seq!['1']);
                    assert(segments@[last_idx as int]@ == segs[last_idx as int]);
                    assert(pieces.deep_view() =~= segs.push(seq!['1'])) by {
                        assert forall|w: int| 0 <= w < pieces@.len() implies pieces.deep_view()[w]
                            == segs.push(seq!['1'])[w] by {
                            assert(pieces.deep_view()[w] == pieces@[w]@);
                            if w < segs.len() {
                                assert(pieces@[w]@ == pv[w]);
                                assert(pv[w] == segs[w]);
                            }
                        }
                    }
                }
            },
        }
        new_pre = crate::text::join(&pieces, ".");
        proof {
            reveal_strlit(".");
            assert("."@ =~= seq!['.']);
        }
    }
    proof {
        reveal_strlit("alpha.1");
        assert(new_pre@ == spec_bump_pre(version@.pre));
    }
    if !check_prerelease(new_pre.as_str()) {
        return Err(VersionError { message: "invalid prerelease".to_owned() });
    }
    Ok(
        Version {
            major: version.major,
            minor: version.minor,
            patch: version.patch,
            pre: new_pre,
            build: version.build.clone(),
        },
    )
}

/// Bump a version one level: major, minor and patch zero the lower
/// fields and clear the prerelease and build text; a prerelease bump
/// advances the prerelease only.
pub fn increment_version(version: &Version, level: BumpLevel) -> (r: Result<Version, VersionError>)
    requires
        version@.major < u64::MAX,
        version@.minor < u64::MAX,
        version@.patch < u64::MAX,
    ensures
        match r {
            Ok(v) => match level {
                BumpLevel::Major => v@ == (VersionModel {
                    major: (version@.major + 1) as u64,
                    minor: 0,
                    patch: 0,
                    pre: Seq::empty(),
                    build: Seq::empty(),
                }),
                BumpLevel::Minor => v@ == (VersionModel {
                    major: version@.major,
                    minor: (version@.minor + 1) as u64,
                    patch: 0,
                    pre: Seq::empty(),
                    build: Seq::empty(),
                }),
                BumpLevel::Patch => v@ == (VersionModel {
                    major: version@.major,
                    minor: version@.minor,
                    patch: (version@.patch + 1) as u64,
                    pre: Seq::empty(),
                    build: Seq::empty(),
                }),
                BumpLevel::Prerelease => {
                    &&& v@.major == version@.major
                    &&& v@.minor == version@.minor
                    &&& v@.patch == version@.patch
                    &&& v@.pre == spec_bump_pre(version@.pre)
                    &&& v@.build == version@.build
                },
            },
            Err(_) => level is Prerelease && !prerelease_valid(spec_bump_pre(version@.pre)),
        },
{
    match level {
        BumpLevel::Major => {
            let v = Version::new(version.major + 1, 0, 0);
            proof {
                assert(v@ =~= (VersionModel {
                    major: (version@.major + 1) as u64,
                    minor: 0,
                    patch: 0,
                    pre: Seq::empty(),
                    build: Seq::empty(),
                }));
            }
            Ok(v)
        },
        BumpLevel::Minor => {
            let v = Version::new(version.major, version.minor + 1, 0);
            proof {
                assert(v@ =~= (VersionModel {
                    major: version@.major,
                    minor: (version@.minor + 1) as u64,
                    patch: 0,
                    pre: Seq::empty(),
                    build: Seq::empty(),
                }));
            }
            Ok(v)
        },
        BumpLevel::Patch => {
            let v = Version::new(version.major, version.minor, version.patch + 1);
            proof {
                assert(v@ =~= (VersionModel {
                    major: version@.major,
                    minor: version@.minor,
                    patch: (version@.patch + 1) as u64,
                    pre: Seq::empty(),
                    build: Seq::empty(),
                }));
            }
            Ok(v)
        },
        BumpLevel::Prerelease => bump_prerelease(version),
    }
}


/// Where a new changelog section goes: right below the unreleased
/// heading when there is one, otherwise at the end (after a closing
/// newline when the text lacks one).
pub open spec fn spec_insert_changelog(content: Seq<char>, section: Seq<char>) -> Seq<char> {
    let idx = crate::text::spec_find_sub(content, "## Unreleased"@, 0);
    if idx >= 0 {
        let nl = spec_find_char(content, '\n', idx);
        let at = if nl == content.len() {
            content.len() as int
        } else {
            nl + 1
        };
        content.take(at) + seq!['\n'] + section + content.skip(at)
    } else {
        (if content.len() > 0 && content.last() != '\n' {
            content + seq!['\n']
        } else {
            content
        }) + section
    }
}

/// Insert a new changelog section: below the unreleased heading when the
/// text has one, otherwise appended at the end.
#[verifier::loop_isolation(false)]
pub fn insert_changelog_section(content: &str, section: &str) -> (r: String)
    ensures
        r@ == spec_insert_changelog(content@, section@),
{
    let n = content.unicode_len();
    match crate::text::find_sub(content, "## Unreleased") {
        Some(idx) => {
            proof {
                crate::text::lemma_find_sub_bounds(content@, "## Unreleased"@, 0);
            }
            let mut nl: usize = idx;
            while nl < n && content.get_char(nl) != '\n'
                invariant
                    idx <= nl <= n,
                    n == content@.len(),
                    spec_find_char(content@, '\n', idx as int) == spec_find_char(
                        content@,
                        '\n',
                        nl as int,
                    ),
                decreases n - nl,
            {
                nl = nl + 1;
            }
            let at = if nl == n {
                n
            } else {
                nl + 1
            };
            let mut out = content.substring_char(0, at).to_owned();
            out.append("\n");
            out.append(section);
            let rest = content.substring_char(at, n);
            out.append(rest);
            proof {
                reveal_strlit("\n");
                assert("\n"@ =~= seq!['\n']);
                assert(out@ =~= spec_insert_changelog(content@, section@));
            }
            out
        },
        None => {
            let mut out = content.to_owned();
            if n > 0 && content.get_char(n - 1) != '\n' {
                out.append("\n");
            }
            out.append(section);
            proof {
                reveal_strlit("\n");
                assert("\n"@ =~= seq!['\n']);
                if n > 0 {
                    assert(content@.last() == content@[n - 1]);
                }
                assert(out@ =~= spec_insert_changelog(content@, section@));
            }
            out
        },
    }
}

} // verus!
