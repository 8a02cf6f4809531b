//! Versioning: conventional commits and the bumps they imply, version
//! arithmetic, prereleases, changelog entries and release messages.
use vstd::prelude::*;
use crate::config::RepositoryConfig;
use crate::text::{
    append_chars, append_str, contains, contains_str, digits, from_chars, index_of_char,
    index_of_char_exec, is_ws, join, join_chars, lines, lines_of, parse_u64, parse_unsigned,
    replace_all, replace_str, slice_chars, split_char, split_on_char, starts_with, str_eq,
    to_chars, trim, trim_chars, u64_digits, views, lemma_index_of_char_bounds, lemma_deep_view_chars,
};

verus! {

// ---------------------------------------------------------------------------
// Bump types and conventional commits
// ---------------------------------------------------------------------------

/// How much a version goes up, from nothing to a major bump.
#[derive(Debug, Clone, Copy, PartialEq, Eq, PartialOrd, Ord, Structural)]
pub enum BumpType {
    NoBump,
    Patch,
    Minor,
    Major,
}

/// The position of a bump type in the order none < patch < minor < major.
pub open spec fn bump_rank(b: BumpType) -> nat {
    match b {
        BumpType::NoBump => 0,
        BumpType::Patch => 1,
        BumpType::Minor => 2,
        BumpType::Major => 3,
    }
}

pub open spec fn bump_name(b: BumpType) -> Seq<char> {
    match b {
        BumpType::NoBump => "none"@,
        BumpType::Patch => "patch"@,
        BumpType::Minor => "minor"@,
        BumpType::Major => "major"@,
    }
}

impl BumpType {
    /// The bump's name: `none`, `patch`, `minor` or `major`.
    pub fn as_str(&self) -> (r: &'static str)
        ensures
            r@ == bump_name(*self),
    {
        match self {
            BumpType::NoBump => "none",
            BumpType::Patch => "patch",
            BumpType::Minor => "minor",
            BumpType::Major => "major",
        }
    }
}

/// A commit message in the conventional commits format.
#[derive(Debug, Clone)]
pub struct ConventionalCommit {
    /// The type: `feat`, `fix`, `chore`, ...
    pub commit_type: String,
    /// The scope in parentheses after the type.
    pub scope: Option<String>,
    /// Whether the change breaks compatibility (`!` or a breaking footer).
    pub breaking: bool,
    /// The summary after the colon.
    pub description: String,
    /// The lines after the summary, where there are any.
    pub body: Option<String>,
    /// The short commit hash.
    pub hash: String,
}

/// The bump a commit implies: major for a breaking change, minor for a
/// feature, patch for a fix, none otherwise.
pub open spec fn bump_of(breaking: bool, commit_type: Seq<char>) -> BumpType {
    if breaking {
        BumpType::Major
    } else if commit_type == "feat"@ {
        BumpType::Minor
    } else if commit_type == "fix"@ {
        BumpType::Patch
    } else {
        BumpType::NoBump
    }
}

impl ConventionalCommit {
    /// The bump this commit implies.
    pub fn bump_type(&self) -> (r: BumpType)
        ensures
            r == bump_of(self.breaking, self.commit_type@),
    {
        if self.breaking {
            BumpType::Major
        } else if str_eq(self.commit_type.as_str(), "feat") {
            BumpType::Minor
        } else if str_eq(self.commit_type.as_str(), "fix") {
            BumpType::Patch
        } else {
            BumpType::NoBump
        }
    }
}

/// The largest bump of the commits (none when there are none).
pub open spec fn highest_bump_spec(commits: Seq<ConventionalCommit>) -> BumpType
    decreases commits.len(),
{
    if commits.len() == 0 {
        BumpType::NoBump
    } else {
        let rest = highest_bump_spec(commits.drop_last());
        let b = bump_of(commits.last().breaking, commits.last().commit_type@);
        if bump_rank(b) > bump_rank(rest) {
            b
        } else {
            rest
        }
    }
}

/// The largest bump that the commits imply.
pub fn highest_bump(commits: &[ConventionalCommit]) -> (r: BumpType)
    ensures
        r == highest_bump_spec(commits@),
{
    let mut best = BumpType::NoBump;
    let mut i: usize = 0;
    while i < commits.len()
        invariant
            i <= commits.len(),
            best == highest_bump_spec(commits@.take(i as int)),
        decreases commits.len() - i,
    {
        let b = commits[i].bump_type();
        assert(commits@.take(i + 1).drop_last() =~= commits@.take(i as int));
        let rb: u8 = match b {
            BumpType::NoBump => 0,
            BumpType::Patch => 1,
            BumpType::Minor => 2,
            BumpType::Major => 3,
        };
        let rbest: u8 = match best {
            BumpType::NoBump => 0,
            BumpType::Patch => 1,
            BumpType::Minor => 2,
            BumpType::Major => 3,
        };
        if rb > rbest {
            best = b;
        }
        i += 1;
    }
    assert(commits@.take(commits.len() as int) =~= commits@);
    best
}

// ---------------------------------------------------------------------------
// Parsing conventional commits
// ---------------------------------------------------------------------------

pub open spec fn is_lower(c: char) -> bool {
    'a' <= c && c <= 'z'
}

/// The number of leading lower-case ASCII letters of `s` from index `i` on.
pub open spec fn lower_run(s: Seq<char>, i: int) -> int
    decreases s.len() - i,
{
    if i < 0 || i >= s.len() || !is_lower(s[i]) {
        0
    } else {
        1 + lower_run(s, i + 1)
    }
}

pub proof fn lemma_lower_run_bounds(s: Seq<char>, i: int)
    requires
        0 <= i <= s.len(),
    ensures
        0 <= lower_run(s, i) <= s.len() - i,
    decreases s.len() - i,
{
    if i < s.len() && is_lower(s[i]) {
        lemma_lower_run_bounds(s, i + 1);
    }
}

/// The parts of a conventional summary line `type(scope)!: description`:
/// the type (lower-case letters), the scope (a non-empty run of anything
/// but `)`), the breaking mark, and the trimmed description (there must be
/// at least one character after the colon).
pub open spec fn parse_header(line: Seq<char>) -> Option<(Seq<char>, Option<Seq<char>>, bool, Seq<char>)> {
    let k = lower_run(line, 0);
    if k == 0 {
        None
    } else {
        let rest = line.skip(k);
        let scoped: Option<(Option<Seq<char>>, Seq<char>)> = if rest.len() > 0 && rest[0] == '(' {
            let j = index_of_char(rest, ')', 1);
            if j >= rest.len() || j == 1 {
                None
            } else {
                Some((Some(rest.subrange(1, j)), rest.skip(j + 1)))
            }
        } else {
            Some((None, rest))
        };
        match scoped {
            None => None,
            Some((scope, rest2)) => {
                let bang = rest2.len() > 0 && rest2[0] == '!';
                let rest3 = if bang {
                    rest2.skip(1)
                } else {
                    rest2
                };
                if rest3.len() >= 2 && rest3[0] == ':' {
                    Some((line.take(k), scope, bang, trim(rest3.skip(1))))
                } else {
                    None
                }
            },
        }
    }
}

/// The body of a message: its lines after the first, joined by newlines
/// and trimmed; none where that is empty.
pub open spec fn body_of(ls: Seq<Seq<char>>) -> Option<Seq<char>> {
    if ls.len() <= 1 {
        None
    } else {
        let b = trim(join(ls.skip(1), "\n"@));
        if b.len() == 0 {
            None
        } else {
            Some(b)
        }
    }
}

/// Whether a body holds a breaking-change footer.
pub open spec fn breaking_footer(body: Option<Seq<char>>) -> bool {
    match body {
        Some(b) => contains(b, "BREAKING CHANGE:"@) || contains(b, "BREAKING-CHANGE:"@),
        None => false,
    }
}

pub open spec fn opt_view(o: Option<String>) -> Option<Seq<char>> {
    match o {
        Some(s) => Some(s@),
        None => None,
    }
}

/// What parsing a commit message gives: `None` unless its first line is a
/// conventional summary; otherwise the summary's parts, the body, and
/// whether the change is breaking (by the mark or by a footer).
pub open spec fn parse_commit_spec(hash: Seq<char>, message: Seq<char>) -> Option<
    (Seq<char>, Option<Seq<char>>, bool, Seq<char>, Option<Seq<char>>, Seq<char>),
> {
    let ls = lines(message);
    if ls.len() == 0 {
        None
    } else {
        match parse_header(ls[0]) {
            None => None,
            Some((t, scope, bang, desc)) => {
                let body = body_of(ls);
                Some((t, scope, bang || breaking_footer(body), desc, body, hash))
            },
        }
    }
}

/// The fields of a commit, as plain values.
pub open spec fn commit_parts(c: ConventionalCommit) -> (
    Seq<char>,
    Option<Seq<char>>,
    bool,
    Seq<char>,
    Option<Seq<char>>,
    Seq<char>,
) {
    (c.commit_type@, opt_view(c.scope), c.breaking, c.description@, opt_view(c.body), c.hash@)
}

/// The summary line's parts.
fn parse_header_exec(line: &[char]) -> (r: Option<(Vec<char>, Option<Vec<char>>, bool, Vec<char>)>)
    ensures
        match r {
            Some((t, scope, bang, desc)) => parse_header(line@) == Some(
                (t@, match scope { Some(s) => Some(s@), None => None }, bang, desc@),
            ),
            None => parse_header(line@) is None,
        },
{
    let mut k: usize = 0;
    while k < line.len() && 'a' <= line[k] && line[k] <= 'z'
        invariant
            k <= line.len(),
            lower_run(line@, 0) == k + lower_run(line@, k as int),
        decreases line.len() - k,
    {
        k += 1;
    }
    proof {
        lemma_lower_run_bounds(line@, 0);
    }
    assert(lower_run(line@, 0) == k);
    if k == 0 {
        return None;
    }
    let ghost rest = line@.skip(k as int);
    let mut p = k;
    let mut scope: Option<Vec<char>> = None;
    if p < line.len() && line[p] == '(' {
        let j = index_of_char_exec(line, ')', p + 1);
        proof {
            lemma_index_shift(line@, k as int, p + 1);
        }
        assert(index_of_char(rest, ')', 1) == j - k);
        if j >= line.len() || j == p + 1 {
            return None;
        }
        scope = Some(slice_chars(line, p + 1, j));
        assert(rest.subrange(1, j - k) =~= line@.subrange(p + 1, j as int));
        p = j + 1;
        assert(rest.skip(j - k + 1) =~= line@.skip(p as int));
    } else {
        assert(rest =~= line@.skip(p as int));
    }
    let ghost rest2 = line@.skip(p as int);
    let bang = p < line.len() && line[p] == '!';
    if bang {
        p = p + 1;
        assert(rest2.skip(1) =~= line@.skip(p as int));
    }
    let ghost rest3 = line@.skip(p as int);
    if p < line.len() && line[p] == ':' && p + 1 < line.len() {
        let after = slice_chars(line, p + 1, line.len());
        let desc = trim_chars(after.as_slice());
        let t = slice_chars(line, 0, k);
        assert(rest3.skip(1) =~= after@);
        assert(t@ =~= line@.take(k as int));
        Some((t, scope, bang, desc))
    } else {
        None
    }
}

proof fn lemma_index_shift(s: Seq<char>, k: int, m: int)
    requires
        0 <= k <= m <= s.len(),
    ensures
        index_of_char(s.skip(k), ')', m - k) == index_of_char(s, ')', m) - k,
    decreases s.len() - m,
{
    if m < s.len() && s[m] != ')' {
        lemma_index_shift(s, k, m + 1);
    }
}

/// Parses a commit message as a conventional commit: the first line must
/// read `type(scope)!: description` (scope and `!` optional); the rest is
/// the body, and a `BREAKING CHANGE:` or `BREAKING-CHANGE:` footer in it
/// marks the change as breaking.
pub fn parse_conventional_commit(hash: &str, message: &str) -> (r: Option<ConventionalCommit>)
    ensures
        match r {
            Some(c) => parse_commit_spec(hash@, message@) == Some(commit_parts(c)),
            None => parse_commit_spec(hash@, message@) is None,
        },
{
    let mv = to_chars(message);
    let ls = lines_of(mv.as_slice());
    proof {
        lemma_deep_view_chars(ls);
    }
    if ls.len() == 0 {
        return None;
    }
    let header = parse_header_exec(ls[0].as_slice());
    match header {
        None => None,
        Some((t, scope, bang, desc)) => {
            let body: Option<Vec<char>> = if ls.len() <= 1 {
                None
            } else {
                let mut rest: Vec<Vec<char>> = Vec::new();
                let mut i: usize = 1;
                while i < ls.len()
                    invariant
                        1 <= i <= ls@.len(),
                        ls.deep_view() == lines(message@),
                        forall|m: int| 0 <= m < ls@.len() ==> #[trigger] ls.deep_view()[m] == ls@[m]@,
                        ls.deep_view().len() == ls@.len(),
                        rest.deep_view() == ls.deep_view().subrange(1, i as int),
                    decreases ls.len() - i,
                {
                    let w = slice_chars(ls[i].as_slice(), 0, ls[i].len());
                    let ghost before = rest.deep_view();
                    rest.push(w);
                    assert(w@ =~= ls@[i as int]@);
                    assert(w.deep_view() =~= w@);
                    assert(rest.deep_view() =~= before.push(w@));
                    assert(ls.deep_view().subrange(1, i + 1) =~= ls.deep_view().subrange(
                        1,
                        i as int,
                    ).push(ls.deep_view()[i as int]));
                    i += 1;
                }
                assert(rest.deep_view() =~= lines(message@).skip(1));
                let nl = to_chars("\n");
                let j = join_chars(&rest, nl.as_slice());
                let b = trim_chars(j.as_slice());
                if b.len() == 0 {
                    None
                } else {
                    Some(b)
                }
            };
            let footer = match &body {
                Some(b) => contains_str(b.as_slice(), "BREAKING CHANGE:") || contains_str(
                    b.as_slice(),
                    "BREAKING-CHANGE:",
                ),
                None => false,
            };
            let c = ConventionalCommit {
                commit_type: from_chars(t.as_slice()),
                scope: match scope {
                    Some(s) => Some(from_chars(s.as_slice())),
                    None => None,
                },
                breaking: bang || footer,
                description: from_chars(desc.as_slice()),
                body: match body {
                    Some(b) => Some(from_chars(b.as_slice())),
                    None => None,
                },
                hash: from_chars(to_chars(hash).as_slice()),
            };
            Some(c)
        },
    }
}

// ---------------------------------------------------------------------------
// Semantic versions
// ---------------------------------------------------------------------------

/// A semantic version: `major.minor.patch`, with prerelease and build
/// identifiers (empty where absent).
#[derive(Debug, Clone, PartialEq, Eq)]
pub struct SemVer {
    pub major: u64,
    pub minor: u64,
    pub patch: u64,
    pub pre: String,
    pub build: String,
}

/// The parts of a version, as plain values.
pub open spec fn sv(v: SemVer) -> (u64, u64, u64, Seq<char>, Seq<char>) {
    (v.major, v.minor, v.patch, v.pre@, v.build@)
}

/// What `semver::Version::parse` gives for a text: the five parts of the
/// version, or `None` where the text is no version.
pub uninterp spec fn semver_parse(text: Seq<char>) -> Option<(u64, u64, u64, Seq<char>, Seq<char>)>;

/// Whether `semver::Prerelease::new` accepts a text.
pub uninterp spec fn prerelease_ok(text: Seq<char>) -> bool;

/// Whether `semver::BuildMetadata::new` accepts a text.
pub uninterp spec fn build_metadata_ok(text: Seq<char>) -> bool;

#[verifier::external_type_specification]
#[verifier::external_body]
pub struct ExVersion(semver::Version);

#[verifier::external_type_specification]
#[verifier::external_body]
pub struct ExVersionReq(semver::VersionReq);

/// A version that semver read: its parts, and semver's own value, which
/// only [`parse_version`] makes (from the same text as the parts).
pub struct ParsedVersion {
    parts: SemVer,
    value: semver::Version,
}

/// `semver::Version::parse`, with the result's parts copied out beside the
/// value. The contract names the result; the grammar is semver's.
#[verifier::external_body]
fn parse_version(text: &str) -> (r: Option<ParsedVersion>)
    ensures
        match r {
            Some(p) => semver_parse(text@) == Some(sv(p.parts)),
            None => semver_parse(text@) is None,
        },
{
    match semver::Version::parse(text) {
        Ok(v) => Some(
            ParsedVersion {
                parts: SemVer {
                    major: v.major,
                    minor: v.minor,
                    patch: v.patch,
                    pre: v.pre.as_str().to_string(),
                    build: v.build.as_str().to_string(),
                },
                value: v,
            },
        ),
        Err(_) => None,
    }
}

/// A version read as semver reads it.
pub(crate) fn parse_semver(text: &str) -> (r: Option<SemVer>)
    ensures
        match r {
            Some(v) => semver_parse(text@) == Some(sv(v)),
            None => semver_parse(text@) is None,
        },
{
    match parse_version(text) {
        Some(p) => Some(p.parts),
        None => None,
    }
}

/// Whether `semver::VersionReq::parse` accepts a text.
pub uninterp spec fn version_req_ok(text: Seq<char>) -> bool;

/// Whether the requirement read from `req` admits the version with the
/// given parts, as `semver::VersionReq::matches` decides.
pub uninterp spec fn req_matches(req: Seq<char>, v: (u64, u64, u64, Seq<char>, Seq<char>)) -> bool;

/// A version requirement that semver read, with its text; only
/// [`parse_version_req`] makes one.
pub struct ParsedReq {
    text: String,
    req: semver::VersionReq,
}

impl ParsedReq {
    /// The text the requirement was read from.
    pub closed spec fn text_spec(&self) -> Seq<char> {
        self.text@
    }
}

/// `semver::VersionReq::parse`: the requirement of a text, where semver
/// reads one. Whether it does is named, not stated.
#[verifier::external_body]
fn parse_version_req(text: &str) -> (r: Option<ParsedReq>)
    ensures
        r is Some == version_req_ok(text@),
        r matches Some(p) ==> p.text_spec() == text@,
{
    match semver::VersionReq::parse(text) {
        Ok(req) => Some(ParsedReq { text: text.to_string(), req }),
        Err(_) => None,
    }
}

/// `semver::VersionReq::matches`: whether the requirement admits the
/// version. Named, not stated.
#[verifier::external_body]
fn version_req_matches(req: &ParsedReq, v: &ParsedVersion) -> (r: bool)
    ensures
        r == req_matches(req.text_spec(), sv(v.parts)),
{
    req.req.matches(&v.value)
}

/// Whether the requirement `req` (where semver reads it) admits the
/// version `version` (where semver reads it): `None` where either cannot be
/// read.
pub open spec fn requirement_check(req: Seq<char>, version: Seq<char>) -> Option<bool> {
    if version_req_ok(req) {
        match semver_parse(version) {
            Some(t) => Some(req_matches(req, t)),
            None => None,
        }
    } else {
        None
    }
}

/// Checks a version against a requirement.
pub fn check_requirement(req: &str, version: &str) -> (r: Option<bool>)
    ensures
        r == requirement_check(req@, version@),
{
    match parse_version_req(req) {
        Some(pr) => match parse_version(version) {
            Some(pv) => Some(version_req_matches(&pr, &pv)),
            None => None,
        },
        None => None,
    }
}

/// `semver::Prerelease::new`: whether the text is a valid prerelease (the
/// value it builds holds the same text).
#[verifier::external_body]
fn prerelease_accepts(text: &str) -> (r: bool)
    ensures
        r == prerelease_ok(text@),
{
    semver::Prerelease::new(text).is_ok()
}

/// `semver::BuildMetadata::new`: whether the text is valid build metadata
/// (the value it builds holds the same text). A non-empty run of ASCII
/// digits always is: it is one identifier of allowed characters.
#[verifier::external_body]
fn build_metadata_accepts(text: &str) -> (r: bool)
    ensures
        r == build_metadata_ok(text@),
        text@.len() > 0 && crate::text::all_digits(text@) ==> r,
{
    semver::BuildMetadata::new(text).is_ok()
}

pub open spec fn zero_version() -> (u64, u64, u64, Seq<char>, Seq<char>) {
    (0, 0, 0, Seq::empty(), Seq::empty())
}

/// The text before the first `+` (all of it where there is none).
pub open spec fn before_plus(s: Seq<char>) -> Seq<char> {
    split_char(s, '+')[0]
}

/// A version read leniently: as semver reads it, else without its `+`
/// suffix, else `0.0.0`.
pub open spec fn lenient_version(s: Seq<char>) -> (u64, u64, u64, Seq<char>, Seq<char>) {
    match semver_parse(s) {
        Some(t) => t,
        None => match semver_parse(before_plus(s)) {
            Some(t) => t,
            None => zero_version(),
        },
    }
}

/// The text of `s` before its first `+`.
pub(crate) fn before_plus_exec(s: &str) -> (r: String)
    ensures
        r@ == before_plus(s@),
{
    let v = to_chars(s);
    let parts = split_on_char(v.as_slice(), '+');
    proof {
        lemma_deep_view_chars(parts);
        assert(split_char(v@, '+').len() > 0);
    }
    from_chars(parts[0].as_slice())
}

fn zero_semver() -> (r: SemVer)
    ensures
        sv(r) == zero_version(),
{
    SemVer { major: 0, minor: 0, patch: 0, pre: String::new(), build: String::new() }
}

/// Reads a version leniently.
pub fn parse_lenient(s: &str) -> (r: SemVer)
    ensures
        sv(r) == lenient_version(s@),
{
    match parse_semver(s) {
        Some(v) => v,
        None => {
            let b = before_plus_exec(s);
            match parse_semver(b.as_str()) {
                Some(v) => v,
                None => zero_semver(),
            }
        },
    }
}

/// The build number of a Flutter version `x.y.z+N`: the text after the
/// first `+` (up to a second one) read as a number.
pub open spec fn build_number_spec(s: Seq<char>) -> Option<nat> {
    let parts = split_char(s, '+');
    if parts.len() >= 2 {
        parse_unsigned(parts[1], u64::MAX as nat)
    } else {
        None
    }
}

/// Extracts the build number of a version such as `1.2.3+42`.
pub fn extract_build_number(version_str: &str) -> (r: Option<u64>)
    ensures
        match r {
            Some(n) => build_number_spec(version_str@) == Some(n as nat),
            None => build_number_spec(version_str@) is None,
        },
{
    let v = to_chars(version_str);
    let parts = split_on_char(v.as_slice(), '+');
    proof {
        lemma_deep_view_chars(parts);
    }
    if parts.len() >= 2 {
        parse_u64(parts[1].as_slice())
    } else {
        None
    }
}

/// The text of a version: `major.minor.patch`, then `-pre` and `+build`
/// where those are not empty.
pub open spec fn version_text(t: (u64, u64, u64, Seq<char>, Seq<char>)) -> Seq<char> {
    digits(t.0 as nat) + "."@ + digits(t.1 as nat) + "."@ + digits(t.2 as nat) + (if t.3.len() > 0 {
        "-"@ + t.3
    } else {
        Seq::empty()
    }) + (if t.4.len() > 0 {
        "+"@ + t.4
    } else {
        Seq::empty()
    })
}

impl SemVer {
    /// The version as text, as semver writes it.
    pub fn to_text(&self) -> (r: String)
        ensures
            r@ == version_text(sv(*self)),
    {
        let mut m: Vec<char> = Vec::new();
        let a = u64_digits(self.major);
        append_chars(&mut m, a.as_slice());
        m.push('.');
        let b = u64_digits(self.minor);
        append_chars(&mut m, b.as_slice());
        m.push('.');
        let c = u64_digits(self.patch);
        append_chars(&mut m, c.as_slice());
        let pre = to_chars(self.pre.as_str());
        if pre.len() > 0 {
            m.push('-');
            append_chars(&mut m, pre.as_slice());
        }
        let build = to_chars(self.build.as_str());
        if build.len() > 0 {
            m.push('+');
            append_chars(&mut m, build.as_slice());
        }
        proof {
            reveal_strlit(".");
            reveal_strlit("-");
            reveal_strlit("+");
        }
        assert(m@ =~= version_text(sv(*self)));
        from_chars(m.as_slice())
    }
}

/// Why a version cannot be computed.
#[derive(Debug, Clone)]
pub enum VersionError {
    /// The bump is neither a bump type nor a version.
    InvalidVersion { text: String },
    /// The prerelease identifier that would result is not valid.
    InvalidPrerelease { text: String },
    /// A version number would pass `u64::MAX`.
    Overflow,
}

/// The mathematical value of a [`VersionError`].
pub enum VersionErrorView {
    InvalidVersion(Seq<char>),
    InvalidPrerelease(Seq<char>),
    Overflow,
}

impl View for VersionError {
    type V = VersionErrorView;

    open spec fn view(&self) -> VersionErrorView {
        match self {
            VersionError::InvalidVersion { text } => VersionErrorView::InvalidVersion(text@),
            VersionError::InvalidPrerelease { text } => VersionErrorView::InvalidPrerelease(text@),
            VersionError::Overflow => VersionErrorView::Overflow,
        }
    }
}

pub open spec fn version_error_message(e: VersionErrorView) -> Seq<char> {
    match e {
        VersionErrorView::InvalidVersion(t) => "Invalid version or bump type: "@ + t,
        VersionErrorView::InvalidPrerelease(t) => "Invalid prerelease: "@ + t,
        VersionErrorView::Overflow => "Version number overflow"@,
    }
}

impl VersionError {
    /// The message for people.
    pub fn message(&self) -> (r: String)
        ensures
            r@ == version_error_message(self@),
    {
        let mut m: Vec<char> = Vec::new();
        match self {
            VersionError::InvalidVersion { text } => {
                append_str(&mut m, "Invalid version or bump type: ");
                append_str(&mut m, text.as_str());
            },
            VersionError::InvalidPrerelease { text } => {
                append_str(&mut m, "Invalid prerelease: ");
                append_str(&mut m, text.as_str());
            },
            VersionError::Overflow => {
                append_str(&mut m, "Version number overflow");
            },
        }
        from_chars(m.as_slice())
    }
}

pub type VersionParts = (u64, u64, u64, Seq<char>, Seq<char>);

pub open spec fn result_parts(r: Result<SemVer, VersionError>) -> Result<VersionParts, VersionErrorView> {
    match r {
        Ok(v) => Ok(sv(v)),
        Err(e) => Err(e@),
    }
}

/// Whether a bump is one of the bump keywords.
pub open spec fn is_bump_keyword(b: Seq<char>) -> bool {
    b == "major"@ || b == "minor"@ || b == "patch"@ || b == "build"@ || b == "none"@
}

/// A keyword bump applied to `v`: major, minor and patch raise their number
/// and zero the lower ones (prerelease and build stay); build sets the build
/// metadata to the next build number (`build_number`, or zero, plus one);
/// none keeps `v`. A number at `u64::MAX` cannot be raised.
pub open spec fn apply_bump_spec(v: VersionParts, bump: Seq<char>, build_number: Option<u64>) -> Result<
    VersionParts,
    VersionErrorView,
> {
    if bump == "major"@ {
        if v.0 == u64::MAX {
            Err(VersionErrorView::Overflow)
        } else {
            Ok(((v.0 + 1) as u64, 0, 0, v.3, v.4))
        }
    } else if bump == "minor"@ {
        if v.1 == u64::MAX {
            Err(VersionErrorView::Overflow)
        } else {
            Ok((v.0, (v.1 + 1) as u64, 0, v.3, v.4))
        }
    } else if bump == "patch"@ {
        if v.2 == u64::MAX {
            Err(VersionErrorView::Overflow)
        } else {
            Ok((v.0, v.1, (v.2 + 1) as u64, v.3, v.4))
        }
    } else if bump == "build"@ {
        let n: u64 = match build_number {
            Some(n) => n,
            None => 0,
        };
        if n == u64::MAX {
            Err(VersionErrorView::Overflow)
        } else {
            Ok((v.0, v.1, v.2, v.3, digits((n + 1) as nat)))
        }
    } else {
        Ok(v)
    }
}

proof fn lemma_digits_nonempty_all_digits(n: nat)
    ensures
        digits(n).len() > 0,
        crate::text::all_digits(digits(n)),
    decreases n,
{
    if n >= 10 {
        lemma_digits_nonempty_all_digits(n / 10);
        assert forall|i: int| 0 <= i < digits(n).len() implies crate::text::is_digit(#[trigger] digits(n)[i]) by {
            if i < digits(n / 10).len() {
                assert(digits(n)[i] == digits(n / 10)[i]);
            }
        }
    }
}

fn copy_string(s: &String) -> (r: String)
    ensures
        r@ == s@,
{
    s.clone()
}

/// Applies a keyword bump (`major`, `minor`, `patch`, `build` or `none`)
/// to a version.
pub fn apply_bump(v: &SemVer, bump: &str, build_number: Option<u64>) -> (r: Result<SemVer, VersionError>)
    requires
        is_bump_keyword(bump@),
    ensures
        result_parts(r) == apply_bump_spec(sv(*v), bump@, build_number),
{
    if str_eq(bump, "major") {
        if v.major == u64::MAX {
            return Err(VersionError::Overflow);
        }
        Ok(SemVer { major: v.major + 1, minor: 0, patch: 0, pre: copy_string(&v.pre), build: copy_string(&v.build) })
    } else if str_eq(bump, "minor") {
        if v.minor == u64::MAX {
            return Err(VersionError::Overflow);
        }
        Ok(SemVer { major: v.major, minor: v.minor + 1, patch: 0, pre: copy_string(&v.pre), build: copy_string(&v.build) })
    } else if str_eq(bump, "patch") {
        if v.patch == u64::MAX {
            return Err(VersionError::Overflow);
        }
        Ok(SemVer { major: v.major, minor: v.minor, patch: v.patch + 1, pre: copy_string(&v.pre), build: copy_string(&v.build) })
    } else if str_eq(bump, "build") {
        let n: u64 = match build_number {
            Some(n) => n,
            None => 0,
        };
        if n == u64::MAX {
            return Err(VersionError::Overflow);
        }
        let b = u64_digits(n + 1);
        let bs = from_chars(b.as_slice());
        proof {
            lemma_digits_nonempty_all_digits((n + 1) as nat);
        }
        let ok = build_metadata_accepts(bs.as_str());
        assert(ok);
        Ok(SemVer { major: v.major, minor: v.minor, patch: v.patch, pre: copy_string(&v.pre), build: bs })
    } else {
        Ok(SemVer { major: v.major, minor: v.minor, patch: v.patch, pre: copy_string(&v.pre), build: copy_string(&v.build) })
    }
}

/// The next version from a current version text and a bump: a keyword bump
/// applies to the leniently read current version (with its build number
/// for `build`); anything else must itself be a version.
pub open spec fn next_version_spec(current: Seq<char>, bump: Seq<char>) -> Result<VersionParts, VersionErrorView> {
    if is_bump_keyword(bump) {
        let bn: Option<u64> = match build_number_spec(current) {
            Some(n) => Some(n as u64),
            None => None,
        };
        apply_bump_spec(lenient_version(current), bump, bn)
    } else {
        match semver_parse(bump) {
            Some(t) => Ok(t),
            None => Err(VersionErrorView::InvalidVersion(bump)),
        }
    }
}

fn is_bump_keyword_exec(b: &str) -> (r: bool)
    ensures
        r == is_bump_keyword(b@),
{
    str_eq(b, "major") || str_eq(b, "minor") || str_eq(b, "patch") || str_eq(b, "build") || str_eq(b, "none")
}

/// Computes the next version of `current` for a bump type or an explicit
/// version.
pub fn compute_next_version(current: &str, bump: &str) -> (r: Result<SemVer, VersionError>)
    ensures
        result_parts(r) == next_version_spec(current@, bump@),
{
    if is_bump_keyword_exec(bump) {
        let v = parse_lenient(current);
        let bn = extract_build_number(current);
        apply_bump(&v, bump, bn)
    } else {
        match parse_semver(bump) {
            Some(v) => Ok(v),
            None => Err(VersionError::InvalidVersion { text: bump.to_owned() }),
        }
    }
}

/// `preid.n`.
pub open spec fn pre_text(preid: Seq<char>, n: nat) -> Seq<char> {
    preid + "."@ + digits(n)
}

/// The prerelease `text` set on `base`, when semver accepts it.
pub open spec fn with_pre(base: VersionParts, text: Seq<char>) -> Result<VersionParts, VersionErrorView> {
    if prerelease_ok(text) {
        Ok((base.0, base.1, base.2, text, base.4))
    } else {
        Err(VersionErrorView::InvalidPrerelease(text))
    }
}

/// The next prerelease: a prerelease `preid.N` goes to `preid.N+1` on the
/// same base; another prerelease restarts at `preid.0` on the same base; a
/// stable version is bumped first and then gets `preid.0`.
pub open spec fn next_prerelease_spec(current: Seq<char>, bump: Seq<char>, preid: Seq<char>) -> Result<
    VersionParts,
    VersionErrorView,
> {
    let v = lenient_version(current);
    let base: VersionParts = (v.0, v.1, v.2, Seq::empty(), Seq::empty());
    let prefix = preid + "."@;
    if v.3.len() > 0 {
        if starts_with(v.3, prefix) && parse_unsigned(v.3.skip(prefix.len() as int), u64::MAX as nat) is Some {
            let c = parse_unsigned(v.3.skip(prefix.len() as int), u64::MAX as nat).unwrap();
            if c == u64::MAX {
                Err(VersionErrorView::Overflow)
            } else {
                with_pre(base, pre_text(preid, c + 1))
            }
        } else {
            with_pre(base, pre_text(preid, 0))
        }
    } else {
        let text = version_text(base);
        match next_version_spec(text, bump) {
            Err(e) => Err(e),
            Ok(b) => with_pre(b, pre_text(preid, 0)),
        }
    }
}

/// `preid.n` as text.
fn pre_text_exec(preid: &str, n: u64) -> (r: String)
    ensures
        r@ == pre_text(preid@, n as nat),
{
    let mut m: Vec<char> = Vec::new();
    append_str(&mut m, preid);
    m.push('.');
    let d = u64_digits(n);
    append_chars(&mut m, d.as_slice());
    proof {
        reveal_strlit(".");
    }
    assert(m@ =~= pre_text(preid@, n as nat));
    from_chars(m.as_slice())
}

/// Sets a prerelease on a version, when semver accepts it.
fn set_pre(base: SemVer, text: String) -> (r: Result<SemVer, VersionError>)
    ensures
        result_parts(r) == with_pre(sv(base), text@),
{
    if prerelease_accepts(text.as_str()) {
        Ok(SemVer { major: base.major, minor: base.minor, patch: base.patch, pre: text, build: base.build })
    } else {
        Err(VersionError::InvalidPrerelease { text })
    }
}

/// Computes the next prerelease version of `current` for a bump and a
/// prerelease identifier such as `dev`.
pub fn compute_next_prerelease(current: &str, bump: &str, preid: &str) -> (r: Result<SemVer, VersionError>)
    ensures
        result_parts(r) == next_prerelease_spec(current@, bump@, preid@),
{
    let cur = parse_lenient(current);
    let base = SemVer { major: cur.major, minor: cur.minor, patch: cur.patch, pre: String::new(), build: String::new() };
    let pre = to_chars(cur.pre.as_str());
    let mut prefix: Vec<char> = to_chars(preid);
    prefix.push('.');
    proof {
        reveal_strlit(".");
    }
    assert(prefix@ =~= preid@ + "."@);
    if pre.len() > 0 {
        if crate::text::starts_with_chars(pre.as_slice(), prefix.as_slice()) {
            let rest = slice_chars(pre.as_slice(), prefix.len(), pre.len());
            assert(rest@ =~= pre@.skip(prefix@.len() as int));
            match parse_u64(rest.as_slice()) {
                Some(c) => {
                    if c == u64::MAX {
                        return Err(VersionError::Overflow);
                    }
                    let t = pre_text_exec(preid, c + 1);
                    return set_pre(base, t);
                },
                None => {},
            }
        }
        let t = pre_text_exec(preid, 0);
        return set_pre(base, t);
    }
    let text = base.to_text();
    match compute_next_version(text.as_str(), bump) {
        Err(e) => Err(e),
        Ok(b) => {
            let t = pre_text_exec(preid, 0);
            set_pre(b, t)
        },
    }
}

/// Graduates a prerelease to its stable version (`1.1.0-dev.3` becomes
/// `1.1.0`); build metadata goes too.
pub fn graduate_version(current: &str) -> (r: Result<SemVer, VersionError>)
    ensures
        r matches Ok(v) && sv(v) == ({
            let t = lenient_version(current@);
            (t.0, t.1, t.2, Seq::<char>::empty(), Seq::<char>::empty())
        }),
{
    let v = parse_lenient(current);
    Ok(SemVer { major: v.major, minor: v.minor, patch: v.patch, pre: String::new(), build: String::new() })
}

/// Whether a version text is a prerelease: semver reads it, or it without
/// its `+` suffix, with a non-empty prerelease.
pub open spec fn is_prerelease_spec(s: Seq<char>) -> bool {
    match semver_parse(s) {
        Some(t) => t.3.len() > 0,
        None => match semver_parse(before_plus(s)) {
            Some(t) => t.3.len() > 0,
            None => false,
        },
    }
}

/// Whether a version text is a prerelease.
pub fn is_prerelease(version_str: &str) -> (r: bool)
    ensures
        r == is_prerelease_spec(version_str@),
{
    match parse_semver(version_str) {
        Some(v) => to_chars(v.pre.as_str()).len() > 0,
        None => {
            let b = before_plus_exec(version_str);
            match parse_semver(b.as_str()) {
                Some(v) => to_chars(v.pre.as_str()).len() > 0,
                None => false,
            }
        },
    }
}

// ---------------------------------------------------------------------------
// Changelog entries
// ---------------------------------------------------------------------------

/// The changelog section of a commit type.
pub open spec fn section_of(t: Seq<char>) -> Seq<char> {
    if t == "feat"@ {
        "Features"@
    } else if t == "fix"@ {
        "Bug Fixes"@
    } else if t == "docs"@ {
        "Documentation"@
    } else if t == "refactor"@ {
        "Code Refactoring"@
    } else if t == "test"@ {
        "Tests"@
    } else if t == "chore"@ {
        "Chores"@
    } else if t == "perf"@ {
        "Performance Improvements"@
    } else if t == "ci"@ {
        "CI"@
    } else if t == "build"@ {
        "Build"@
    } else if t == "style"@ {
        "Style"@
    } else {
        "Other Changes"@
    }
}

/// The order in which sections appear.
pub open spec fn section_order() -> Seq<Seq<char>> {
    seq![
        "Features"@,
        "Bug Fixes"@,
        "Performance Improvements"@,
        "Code Refactoring"@,
        "Documentation"@,
        "Tests"@,
        "CI"@,
        "Build"@,
        "Style"@,
        "Chores"@,
        "Other Changes"@,
    ]
}

/// Options of a changelog entry.
pub struct ChangelogOptions {
    pub include_body: bool,
    pub include_hash: bool,
    pub include_scopes: bool,
}

/// The bold scope of a commit, where scopes are shown.
pub open spec fn scope_part(c: ConventionalCommit, include_scopes: bool) -> Seq<char> {
    if include_scopes {
        match c.scope {
            Some(s) => "**"@ + s@ + "**: "@,
            None => Seq::empty(),
        }
    } else {
        Seq::empty()
    }
}

/// The hash of a commit, where hashes are shown: linked to the repository
/// where there is one.
pub open spec fn hash_part(c: ConventionalCommit, include_hash: bool, repo: Option<RepositoryConfig>) -> Seq<char> {
    if include_hash {
        match repo {
            Some(r) => " (["@ + c.hash@ + "]("@ + r.commit_url_spec(c.hash@) + "))"@,
            None => " ("@ + c.hash@ + ")"@,
        }
    } else {
        Seq::empty()
    }
}

/// The body of a commit, indented, where bodies are shown.
pub open spec fn body_part(c: ConventionalCommit, include_body: bool) -> Seq<char> {
    if include_body {
        match c.body {
            Some(b) => "\n  "@ + replace_all(b@, "\n"@, "\n  "@),
            None => Seq::empty(),
        }
    } else {
        Seq::empty()
    }
}

/// The line of one commit: `- `, the scope in bold (where scopes are
/// shown), the description, the hash (linked to the repository where there
/// is one), the indented body (where bodies are shown), and a breaking
/// change mark.
pub open spec fn entry_text(
    c: ConventionalCommit,
    o: ChangelogOptions,
    repo: Option<RepositoryConfig>,
) -> Seq<char> {
    let breaking = if c.breaking {
        "\n  **BREAKING CHANGE**"@
    } else {
        Seq::empty()
    };
    "- "@ + scope_part(c, o.include_scopes) + c.description@ + hash_part(c, o.include_hash, repo)
        + body_part(c, o.include_body) + breaking
}

/// The lines of the commits that belong to section `name`, in order, each
/// followed by a newline.
pub open spec fn section_lines(
    commits: Seq<ConventionalCommit>,
    name: Seq<char>,
    o: ChangelogOptions,
    repo: Option<RepositoryConfig>,
) -> Seq<char>
    decreases commits.len(),
{
    if commits.len() == 0 {
        Seq::empty()
    } else {
        section_lines(commits.drop_last(), name, o, repo) + if section_of(
            commits.last().commit_type@,
        ) == name {
            entry_text(commits.last(), o, repo) + "\n"@
        } else {
            Seq::empty()
        }
    }
}

/// A section: its heading and lines, or nothing where it has no commits.
pub open spec fn section_block(
    commits: Seq<ConventionalCommit>,
    name: Seq<char>,
    o: ChangelogOptions,
    repo: Option<RepositoryConfig>,
) -> Seq<char> {
    let l = section_lines(commits, name, o, repo);
    if l.len() == 0 {
        Seq::empty()
    } else {
        "\n### "@ + name + "\n\n"@ + l
    }
}

/// The sections of `names`, in order.
pub open spec fn section_blocks(
    commits: Seq<ConventionalCommit>,
    names: Seq<Seq<char>>,
    o: ChangelogOptions,
    repo: Option<RepositoryConfig>,
) -> Seq<char>
    decreases names.len(),
{
    if names.len() == 0 {
        Seq::empty()
    } else {
        section_blocks(commits, names.drop_last(), o, repo) + section_block(
            commits,
            names.last(),
            o,
            repo,
        )
    }
}

/// A changelog entry: `## <version> (<date>)` and the sections in their
/// fixed order.
pub open spec fn changelog_spec(
    date: Seq<char>,
    version: Seq<char>,
    commits: Seq<ConventionalCommit>,
    o: ChangelogOptions,
    repo: Option<RepositoryConfig>,
) -> Seq<char> {
    "## "@ + version + " ("@ + date + ")\n"@ + section_blocks(commits, section_order(), o, repo)
}

fn section_of_exec(t: &str) -> (r: &'static str)
    ensures
        r@ == section_of(t@),
{
    if str_eq(t, "feat") {
        "Features"
    } else if str_eq(t, "fix") {
        "Bug Fixes"
    } else if str_eq(t, "docs") {
        "Documentation"
    } else if str_eq(t, "refactor") {
        "Code Refactoring"
    } else if str_eq(t, "test") {
        "Tests"
    } else if str_eq(t, "chore") {
        "Chores"
    } else if str_eq(t, "perf") {
        "Performance Improvements"
    } else if str_eq(t, "ci") {
        "CI"
    } else if str_eq(t, "build") {
        "Build"
    } else if str_eq(t, "style") {
        "Style"
    } else {
        "Other Changes"
    }
}

fn push_scope(out: &mut Vec<char>, c: &ConventionalCommit, include_scopes: bool)
    ensures
        final(out)@ == old(out)@ + scope_part(*c, include_scopes),
{
    let ghost start = out@;
    if include_scopes {
        match &c.scope {
            Some(s) => {
                append_str(out, "**");
                append_str(out, s.as_str());
                append_str(out, "**: ");
            },
            None => {},
        }
    }
    assert(out@ =~= start + scope_part(*c, include_scopes));
}

fn push_hash(out: &mut Vec<char>, c: &ConventionalCommit, include_hash: bool, repository: Option<&RepositoryConfig>)
    ensures
        final(out)@ == old(out)@ + hash_part(
            *c,
            include_hash,
            match repository {
                Some(r) => Some(*r),
                None => None,
            },
        ),
{
    let ghost start = out@;
    if include_hash {
        match repository {
            Some(r) => {
                let url = r.commit_url(c.hash.as_str());
                append_str(out, " ([");
                append_str(out, c.hash.as_str());
                append_str(out, "](");
                append_str(out, url.as_str());
                append_str(out, "))");
            },
            None => {
                append_str(out, " (");
                append_str(out, c.hash.as_str());
                append_str(out, ")");
            },
        }
    }
    assert(out@ =~= start + hash_part(
        *c,
        include_hash,
        match repository {
            Some(r) => Some(*r),
            None => None,
        },
    ));
}

fn push_body(out: &mut Vec<char>, c: &ConventionalCommit, include_body: bool)
    ensures
        final(out)@ == old(out)@ + body_part(*c, include_body),
{
    let ghost start = out@;
    if include_body {
        match &c.body {
            Some(b) => {
                append_str(out, "\n  ");
                let bv = to_chars(b.as_str());
                let ind = to_chars("\n  ");
                proof {
                    reveal_strlit("\n");
                }
                let r = replace_str(bv.as_slice(), "\n", ind.as_slice());
                append_chars(out, r.as_slice());
            },
            None => {},
        }
    }
    assert(out@ =~= start + body_part(*c, include_body));
}

/// Appends the line of one commit.
fn push_entry(
    out: &mut Vec<char>,
    c: &ConventionalCommit,
    include_body: bool,
    include_hash: bool,
    include_scopes: bool,
    repository: Option<&RepositoryConfig>,
)
    ensures
        final(out)@ == old(out)@ + entry_text(
            *c,
            ChangelogOptions { include_body, include_hash, include_scopes },
            match repository {
                Some(r) => Some(*r),
                None => None,
            },
        ),
{
    let ghost start = out@;
    append_str(out, "- ");
    push_scope(out, c, include_scopes);
    append_str(out, c.description.as_str());
    push_hash(out, c, include_hash, repository);
    push_body(out, c, include_body);
    let ghost before = out@;
    if c.breaking {
        append_str(out, "\n  **BREAKING CHANGE**");
    }
    assert(out@ =~= start + entry_text(
        *c,
        ChangelogOptions { include_body, include_hash, include_scopes },
        match repository {
            Some(r) => Some(*r),
            None => None,
        },
    ));
}

/// The changelog entry for a version, dated `date`.
pub fn changelog_entry_on(
    date: &str,
    version: &str,
    commits: &[ConventionalCommit],
    include_body: bool,
    include_hash: bool,
    include_scopes: bool,
    repository: Option<&RepositoryConfig>,
) -> (r: String)
    ensures
        r@ == changelog_spec(
            date@,
            version@,
            commits@,
            ChangelogOptions { include_body, include_hash, include_scopes },
            match repository {
                Some(r) => Some(*r),
                None => None,
            },
        ),
{
    let ghost o = ChangelogOptions { include_body, include_hash, include_scopes };
    let ghost repo = match repository {
        Some(r) => Some(*r),
        None => None,
    };
    let order: [&'static str; 11] = [
        "Features",
        "Bug Fixes",
        "Performance Improvements",
        "Code Refactoring",
        "Documentation",
        "Tests",
        "CI",
        "Build",
        "Style",
        "Chores",
        "Other Changes",
    ];
    let ghost names = section_order();
    assert(forall|k: int| 0 <= k < 11 ==> #[trigger] order@[k]@ == names[k]);
    let mut out: Vec<char> = Vec::new();
    append_str(&mut out, "## ");
    append_str(&mut out, version);
    append_str(&mut out, " (");
    append_str(&mut out, date);
    append_str(&mut out, ")\n");
    let ghost head = out@;
    assert(head =~= "## "@ + version@ + " ("@ + date@ + ")\n"@);
    let mut s: usize = 0;
    while s < 11
        invariant
            s <= 11,
            order@.len() == 11,
            names == section_order(),
            forall|k: int| 0 <= k < 11 ==> #[trigger] order@[k]@ == names[k],
            out@ == head + section_blocks(commits@, names.take(s as int), o, repo),
            o == (ChangelogOptions { include_body, include_hash, include_scopes }),
            repo == match repository {
                Some(r) => Some(*r),
                None => None::<RepositoryConfig>,
            },
        decreases 11 - s,
    {
        let name = order[s];
        let mut lines: Vec<char> = Vec::new();
        let mut i: usize = 0;
        while i < commits.len()
            invariant
                i <= commits.len(),
                lines@ == section_lines(commits@.take(i as int), name@, o, repo),
                o == (ChangelogOptions { include_body, include_hash, include_scopes }),
                repo == match repository {
                    Some(r) => Some(*r),
                    None => None::<RepositoryConfig>,
                },
            decreases commits.len() - i,
        {
            assert(commits@.take(i + 1).drop_last() =~= commits@.take(i as int));
            let sec = section_of_exec(commits[i].commit_type.as_str());
            if str_eq(sec, name) {
                push_entry(&mut lines, &commits[i], include_body, include_hash, include_scopes, repository);
                lines.push('\n');
                proof {
                    reveal_strlit("\n");
                }
            }
            proof {
                let ghost before = section_lines(commits@.take(i as int), name@, o, repo);
                if section_of(commits@[i as int].commit_type@) == name@ {
                    assert(lines@ =~= before + (entry_text(commits@[i as int], o, repo) + "\n"@));
                } else {
                    assert(lines@ =~= before + Seq::<char>::empty());
                }
            }
            i += 1;
        }
        assert(commits@.take(commits.len() as int) =~= commits@);
        let ghost before = out@;
        if lines.len() > 0 {
            append_str(&mut out, "\n### ");
            append_str(&mut out, name);
            append_str(&mut out, "\n\n");
            append_chars(&mut out, lines.as_slice());
        }
        assert(names.take(s + 1).drop_last() =~= names.take(s as int));
        assert(names.take(s + 1).last() == name@);
        assert(out@ =~= before + section_block(commits@, name@, o, repo));
        s += 1;
    }
    assert(names.take(11) =~= names);
    from_chars(out.as_slice())
}

// ---------------------------------------------------------------------------
// Dates
// ---------------------------------------------------------------------------

/// The civil date (year, month, day) of day `days` after 1970-01-01, by
/// the days-to-civil algorithm of Howard Hinnant (eras of 400 years from
/// 0000-03-01).
pub open spec fn civil_from_days(days: nat) -> (nat, nat, nat) {
    let z = days + 719468;
    let era = z / 146097;
    let doe = (z - era * 146097) as nat;
    let yoe = ((doe - doe / 1460 + doe / 36524 - doe / 146096) as nat) / 365;
    let y = yoe + era * 400;
    let used = (365 * yoe + yoe / 4 - yoe / 100) as nat;
    let doy: nat = if doe >= used {
        (doe - used) as nat
    } else {
        0
    };
    let mp = (5 * doy + 2) / 153;
    let d = (doy + 1 - (153 * mp + 2) / 5) as nat;
    let m: nat = if mp < 10 {
        mp + 3
    } else {
        (mp - 9) as nat
    };
    (if m <= 2 {
        y + 1
    } else {
        y
    }, m, d)
}

/// `YYYY-MM-DD` for a time in seconds since 1970-01-01T00:00:00Z.
pub open spec fn date_text(secs: nat) -> Seq<char> {
    let c = civil_from_days(secs / 86400);
    crate::text::zero_padded(c.0, 4) + "-"@ + crate::text::zero_padded(c.1, 2) + "-"@
        + crate::text::zero_padded(c.2, 2)
}

/// The date of a time given in seconds since the Unix epoch.
pub fn date_from_unix_secs(secs: u64) -> (r: String)
    ensures
        r@ == date_text(secs as nat),
{
    let days: u64 = secs / 86400;
    assert(days <= 213503982334601) by (nonlinear_arith)
        requires
            days == secs / 86400,
            secs <= u64::MAX,
    ;
    let z: u64 = days + 719468;
    let era: u64 = z / 146097;
    assert(era * 146097 <= z) by (nonlinear_arith)
        requires
            era == z / 146097,
    ;
    assert(z - era * 146097 < 146097) by (nonlinear_arith)
        requires
            era == z / 146097,
    ;
    let doe: u64 = z - era * 146097;
    assert(doe / 1460 + doe / 146096 <= doe) by (nonlinear_arith)
        requires
            doe < 146097,
    ;
    let yoe: u64 = (doe - doe / 1460 + doe / 36524 - doe / 146096) / 365;
    assert(yoe <= 500) by (nonlinear_arith)
        requires
            doe < 146097,
            yoe == (doe - doe / 1460 + doe / 36524 - doe / 146096) / 365,
    ;
    assert(era <= 1500000000) by (nonlinear_arith)
        requires
            era == z / 146097,
            z <= 213503982334601 + 719468,
    ;
    let y: u64 = yoe + era * 400;
    let used: u64 = 365 * yoe + yoe / 4 - yoe / 100;
    let doy: u64 = if doe >= used {
        doe - used
    } else {
        0
    };
    let mp: u64 = (5 * doy + 2) / 153;
    assert((153 * mp + 2) / 5 <= doy) by (nonlinear_arith)
        requires
            mp == (5 * doy + 2) / 153,
    ;
    let d: u64 = doy + 1 - (153 * mp + 2) / 5;
    let m: u64 = if mp < 10 {
        mp + 3
    } else {
        mp - 9
    };
    let year: u64 = if m <= 2 {
        y + 1
    } else {
        y
    };
    assert((year as nat, m as nat, d as nat) == civil_from_days(secs as nat / 86400));
    let mut out: Vec<char> = Vec::new();
    let ys = crate::text::zero_padded_exec(year, 4);
    append_chars(&mut out, ys.as_slice());
    out.push('-');
    let ms = crate::text::zero_padded_exec(m, 2);
    append_chars(&mut out, ms.as_slice());
    out.push('-');
    let ds = crate::text::zero_padded_exec(d, 2);
    append_chars(&mut out, ds.as_slice());
    proof {
        reveal_strlit("-");
    }
    assert(out@ =~= date_text(secs as nat));
    from_chars(out.as_slice())
}

/// The system clock's time (`std::time::SystemTime`), opaque here.
#[verifier::external_type_specification]
#[verifier::external_body]
pub struct ExSystemTime(std::time::SystemTime);

/// `SystemTime::now`: the time now. Nothing is stated of it.
#[verifier::external_body]
fn system_now() -> (r: std::time::SystemTime) {
    std::time::SystemTime::now()
}

/// `SystemTime::duration_since` the Unix epoch, in whole seconds (zero for
/// a time before it). Nothing is stated of it: it depends on the clock.
#[verifier::external_body]
fn seconds_since_epoch(t: &std::time::SystemTime) -> (r: u64) {
    match t.duration_since(std::time::UNIX_EPOCH) {
        Ok(d) => d.as_secs(),
        Err(_) => 0,
    }
}

/// Today's date, `YYYY-MM-DD`, by the system clock.
pub fn chrono_date_today() -> (r: String)
    ensures
        exists|secs: u64| r@ == #[trigger] date_text(secs as nat),
{
    let now = system_now();
    let secs = seconds_since_epoch(&now);
    date_from_unix_secs(secs)
}

/// Generates the changelog entry for a version, dated today.
pub fn generate_changelog_entry(
    version: &str,
    commits: &[ConventionalCommit],
    include_body: bool,
    include_hash: bool,
    include_scopes: bool,
    repository: Option<&RepositoryConfig>,
) -> (r: String)
    ensures
        exists|secs: u64|
            r@ == changelog_spec(
                #[trigger] date_text(secs as nat),
                version@,
                commits@,
                ChangelogOptions { include_body, include_hash, include_scopes },
                match repository {
                    Some(r) => Some(*r),
                    None => None,
                },
            ),
{
    let date = chrono_date_today();
    changelog_entry_on(date.as_str(), version, commits, include_body, include_hash, include_scopes, repository)
}

// ---------------------------------------------------------------------------
// Overrides, release messages and changelog files
// ---------------------------------------------------------------------------

/// `package:bump` split at its first colon.
pub open spec fn override_spec(s: Seq<char>) -> Option<(Seq<char>, Seq<char>)> {
    let k = index_of_char(s, ':', 0);
    if k < s.len() {
        Some((s.take(k), s.skip(k + 1)))
    } else {
        None
    }
}

/// Parses a per-package override such as `app:patch`; the message of the
/// error names the text and the expected form.
pub fn parse_version_override(s: &str) -> (r: Result<(String, String), String>)
    ensures
        match r {
            Ok((a, b)) => override_spec(s@) == Some((a@, b@)),
            Err(m) => override_spec(s@) is None && m@ == "Invalid version override '"@ + s@
                + "'. Expected format: package:bump"@,
        },
{
    let v = to_chars(s);
    let k = index_of_char_exec(v.as_slice(), ':', 0);
    if k < v.len() {
        let a = slice_chars(v.as_slice(), 0, k);
        let b = slice_chars(v.as_slice(), k + 1, v.len());
        assert(a@ =~= v@.take(k as int));
        assert(b@ =~= v@.skip(k + 1));
        Ok((from_chars(a.as_slice()), from_chars(b.as_slice())))
    } else {
        let mut m: Vec<char> = Vec::new();
        append_str(&mut m, "Invalid version override '");
        append_str(&mut m, s);
        append_str(&mut m, "'. Expected format: package:bump");
        Err(from_chars(m.as_slice()))
    }
}

/// ` - name @ version` for each released package, one per line.
pub open spec fn package_versions_lines(v: Seq<(String, String)>) -> Seq<char> {
    join(v.map_values(|p: (String, String)| " - "@ + p.0@ + " @ "@ + p.1@), "\n"@)
}

/// The list of released packages for a commit message.
pub fn new_package_versions(versioned: &[(String, String)]) -> (r: String)
    ensures
        r@ == package_versions_lines(versioned@),
{
    let mut lines: Vec<Vec<char>> = Vec::new();
    let mut i: usize = 0;
    let ghost f = |p: (String, String)| " - "@ + p.0@ + " @ "@ + p.1@;
    while i < versioned.len()
        invariant
            i <= versioned.len(),
            f == (|p: (String, String)| " - "@ + p.0@ + " @ "@ + p.1@),
            lines.deep_view() == versioned@.take(i as int).map_values(f),
        decreases versioned.len() - i,
    {
        let mut l: Vec<char> = Vec::new();
        append_str(&mut l, " - ");
        append_str(&mut l, versioned[i].0.as_str());
        append_str(&mut l, " @ ");
        append_str(&mut l, versioned[i].1.as_str());
        let ghost before = lines.deep_view();
        lines.push(l);
        assert(l.deep_view() =~= l@);
        assert(lines.deep_view() =~= before.push(l@));
        i += 1;
        assert(versioned@.take(i as int).map_values(f) =~= versioned@.take(i - 1).map_values(f).push(
            f(versioned@[i - 1]),
        ));
    }
    assert(versioned@.take(versioned.len() as int) =~= versioned@);
    let nl = to_chars("\n");
    let j = join_chars(&lines, nl.as_slice());
    from_chars(j.as_slice())
}

/// The release commit message: the command line's message, else the
/// configured template, else `chore(release): publish packages` and the
/// list; `{new_package_versions}` is replaced by the list.
pub open spec fn release_message_spec(
    cli: Option<Seq<char>>,
    configured: Option<Option<Seq<char>>>,
    versioned: Seq<(String, String)>,
) -> Seq<char> {
    let template = match cli {
        Some(m) => m,
        None => match configured {
            Some(Some(m)) => m,
            Some(None) => "chore(release): publish packages"@,
            None => "chore(release): publish packages\n\n{new_package_versions}"@,
        },
    };
    replace_all(template, "{new_package_versions}"@, package_versions_lines(versioned))
}

/// The release commit message. `configured` is the version command's
/// configured message where there is a version configuration (`Some(None)`
/// for a configuration without one).
pub fn release_commit_message(
    cli: Option<&str>,
    configured: Option<Option<&str>>,
    versioned: &[(String, String)],
) -> (r: String)
    ensures
        r@ == release_message_spec(
            match cli {
                Some(m) => Some(m@),
                None => None,
            },
            match configured {
                Some(Some(m)) => Some(Some(m@)),
                Some(None) => Some(None),
                None => None,
            },
            versioned@,
        ),
{
    let list = new_package_versions(versioned);
    let template: &str = match cli {
        Some(m) => m,
        None => match configured {
            Some(Some(m)) => m,
            Some(None) => "chore(release): publish packages",
            None => "chore(release): publish packages\n\n{new_package_versions}",
        },
    };
    let tv = to_chars(template);
    let lv = to_chars(list.as_str());
    proof {
        reveal_strlit("{new_package_versions}");
    }
    let out = replace_str(tv.as_slice(), "{new_package_versions}", lv.as_slice());
    from_chars(out.as_slice())
}

/// A changelog file with a new entry: after the file's first line where it
/// starts with a `# ` heading, under a new `# Changelog` heading where the
/// file is empty, and at the top otherwise.
pub open spec fn changelog_with_entry_spec(existing: Seq<char>, entry: Seq<char>) -> Seq<char> {
    if starts_with(existing, "# "@) {
        let k = index_of_char(existing, '\n', 0);
        existing.take(k) + "\n\n"@ + entry + existing.skip(k)
    } else if existing.len() == 0 {
        "# Changelog\n\n"@ + entry
    } else {
        entry + "\n"@ + existing
    }
}

/// The new content of a changelog file with an entry added.
pub fn changelog_with_entry(existing: &str, entry: &str) -> (r: String)
    ensures
        r@ == changelog_with_entry_spec(existing@, entry@),
{
    let e = to_chars(existing);
    let mut out: Vec<char> = Vec::new();
    if crate::text::starts_with_str(e.as_slice(), "# ") {
        let k = index_of_char_exec(e.as_slice(), '\n', 0);
        let head = slice_chars(e.as_slice(), 0, k);
        let rest = slice_chars(e.as_slice(), k, e.len());
        append_chars(&mut out, head.as_slice());
        append_str(&mut out, "\n\n");
        append_str(&mut out, entry);
        append_chars(&mut out, rest.as_slice());
        assert(head@ =~= e@.take(k as int));
        assert(rest@ =~= e@.skip(k as int));
    } else if e.len() == 0 {
        append_str(&mut out, "# Changelog\n\n");
        append_str(&mut out, entry);
    } else {
        append_str(&mut out, entry);
        append_str(&mut out, "\n");
        append_chars(&mut out, e.as_slice());
    }
    from_chars(out.as_slice())
}

/// The version text written to `pubspec.yaml` for a bump: a build bump
/// keeps the text before `+` and raises the build number; any other bump
/// writes the next version and keeps an existing build number (once, in
/// place of the version's own build metadata).
pub open spec fn next_version_string_spec(current: Seq<char>, bump: Seq<char>) -> Result<Seq<char>, VersionErrorView> {
    match next_version_spec(current, bump) {
        Err(e) => Err(e),
        Ok(next) => if bump == "build"@ {
            let n: nat = match build_number_spec(current) {
                Some(n) => n,
                None => 0,
            };
            if n == u64::MAX {
                Err(VersionErrorView::Overflow)
            } else {
                Ok(before_plus(current) + "+"@ + digits(n + 1))
            }
        } else {
            match build_number_spec(current) {
                Some(n) => Ok(version_text((next.0, next.1, next.2, next.3, Seq::empty())) + "+"@
                    + digits(n)),
                None => Ok(version_text(next)),
            }
        },
    }
}

/// The version text a bump writes to `pubspec.yaml`.
pub fn next_version_string(current: &str, bump: &str) -> (r: Result<String, VersionError>)
    ensures
        match r {
            Ok(s) => next_version_string_spec(current@, bump@) == Ok::<Seq<char>, VersionErrorView>(s@),
            Err(e) => next_version_string_spec(current@, bump@) == Err::<Seq<char>, VersionErrorView>(e@),
        },
{
    let next = match compute_next_version(current, bump) {
        Ok(v) => v,
        Err(e) => return Err(e),
    };
    let bn = extract_build_number(current);
    proof {
        reveal_strlit("+");
    }
    if str_eq(bump, "build") {
        let n: u64 = match bn {
            Some(n) => n,
            None => 0,
        };
        if n == u64::MAX {
            return Err(VersionError::Overflow);
        }
        let base = before_plus_exec(current);
        let mut m: Vec<char> = to_chars(base.as_str());
        m.push('+');
        let d = u64_digits(n + 1);
        append_chars(&mut m, d.as_slice());
        assert(m@ =~= before_plus(current@) + "+"@ + digits((n + 1) as nat));
        Ok(from_chars(m.as_slice()))
    } else {
        match bn {
            Some(n) => {
                let core = SemVer {
                    major: next.major,
                    minor: next.minor,
                    patch: next.patch,
                    pre: copy_string(&next.pre),
                    build: String::new(),
                };
                let t = core.to_text();
                let mut m: Vec<char> = to_chars(t.as_str());
                m.push('+');
                let d = u64_digits(n);
                append_chars(&mut m, d.as_slice());
                assert(m@ =~= version_text((next.major, next.minor, next.patch, next.pre@, Seq::empty())) + "+"@
                    + digits(n as nat));
                Ok(from_chars(m.as_slice()))
            },
            None => Ok(next.to_text()),
        }
    }
}

} // verus!

verus! {

// ---------------------------------------------------------------------------
// Laws
// ---------------------------------------------------------------------------

/// The highest bump is at least the bump of every commit, and it is the
/// bump of one of them (none for no commits); so the order of the commits
/// does not matter.
pub proof fn lemma_highest_bump_is_maximum(commits: Seq<ConventionalCommit>)
    ensures
        forall|k: int|
            0 <= k < commits.len() ==> bump_rank(bump_of(commits[k].breaking, commits[k].commit_type@))
                <= bump_rank(highest_bump_spec(commits)),
        commits.len() == 0 ==> highest_bump_spec(commits) == BumpType::NoBump,
        commits.len() > 0 ==> exists|k: int|
            0 <= k < commits.len() && highest_bump_spec(commits) == bump_of(
                commits[k].breaking,
                commits[k].commit_type@,
            ),
    decreases commits.len(),
{
    if commits.len() > 0 {
        let rest = commits.drop_last();
        lemma_highest_bump_is_maximum(rest);
        let n = commits.len() - 1;
        assert forall|k: int| 0 <= k < commits.len() implies bump_rank(
            bump_of(commits[k].breaking, commits[k].commit_type@),
        ) <= bump_rank(highest_bump_spec(commits)) by {
            if k < n {
                assert(commits[k] == rest[k]);
            }
        }
        if rest.len() == 0 {
            assert(highest_bump_spec(commits) == bump_of(commits[n].breaking, commits[n].commit_type@));
        } else {
            let b = bump_of(commits.last().breaking, commits.last().commit_type@);
            if bump_rank(b) > bump_rank(highest_bump_spec(rest)) {
                assert(highest_bump_spec(commits) == bump_of(commits[n].breaking, commits[n].commit_type@));
            } else {
                let k = choose|k: int|
                    0 <= k < rest.len() && highest_bump_spec(rest) == bump_of(
                        rest[k].breaking,
                        rest[k].commit_type@,
                    );
                assert(commits[k] == rest[k]);
            }
        }
    }
}

/// Whether version numbers `a` come before `b` (major, then minor, then
/// patch).
pub open spec fn numbers_before(a: VersionParts, b: VersionParts) -> bool {
    a.0 < b.0 || (a.0 == b.0 && a.1 < b.1) || (a.0 == b.0 && a.1 == b.1 && a.2 < b.2)
}

/// A major, minor or patch bump always gives a later version, and `none`
/// keeps the version as it is.
pub proof fn lemma_bump_raises_version(v: VersionParts, bump: Seq<char>, build_number: Option<u64>)
    ensures
        (bump == "major"@ || bump == "minor"@ || bump == "patch"@) ==> match apply_bump_spec(
            v,
            bump,
            build_number,
        ) {
            Ok(w) => numbers_before(v, w),
            Err(e) => e == VersionErrorView::Overflow,
        },
        bump == "none"@ ==> apply_bump_spec(v, bump, build_number) == Ok::<VersionParts, VersionErrorView>(v),
{
    reveal_strlit("major");
    reveal_strlit("minor");
    reveal_strlit("patch");
    reveal_strlit("build");
    reveal_strlit("none");
    if bump == "none"@ {
        assert(bump.len() == 4);
        assert(bump != "major"@ && bump != "minor"@ && bump != "patch"@ && bump != "build"@);
    }
}

/// A successful next prerelease is a prerelease of the given identifier:
/// its prerelease starts with `preid.`.
pub proof fn lemma_next_prerelease_is_prerelease(current: Seq<char>, bump: Seq<char>, preid: Seq<char>)
    ensures
        next_prerelease_spec(current, bump, preid) matches Ok(w) ==> w.3.len() > 0 && starts_with(
            w.3,
            preid + "."@,
        ),
{
    reveal_strlit(".");
    assert forall|n: nat| #[trigger] pre_text(preid, n).len() > 0 && starts_with(pre_text(preid, n), preid + "."@) by {
        assert(pre_text(preid, n).take((preid + "."@).len() as int) =~= preid + "."@);
    }
}

/// Adding an entry to a changelog keeps all of the old text: the new text
/// is the old one with a block holding the entry put in at one place.
pub proof fn lemma_changelog_keeps_old_text(existing: Seq<char>, entry: Seq<char>)
    ensures
        exists|j: int, before: Seq<char>, after: Seq<char>|
            0 <= j <= existing.len() && #[trigger] changelog_with_entry_spec(existing, entry) == existing.take(j)
                + before + entry + after + existing.skip(j),
{
    let r = changelog_with_entry_spec(existing, entry);
    if starts_with(existing, "# "@) {
        let k = index_of_char(existing, '\n', 0);
        crate::text::lemma_index_of_char_bounds(existing, '\n', 0);
        assert(r =~= existing.take(k) + "\n\n"@ + entry + Seq::<char>::empty() + existing.skip(k));
    } else if existing.len() == 0 {
        assert(r =~= existing.take(0) + "# Changelog\n\n"@ + entry + Seq::<char>::empty() + existing.skip(0));
    } else {
        assert(r =~= existing.take(0) + Seq::<char>::empty() + entry + "\n"@ + existing.skip(0));
    }
}

/// A breaking commit's changelog line always ends with the breaking-change
/// mark, whichever of bodies, hashes and scopes are shown; and the line
/// starts with `- ` whatever the commit.
pub proof fn lemma_breaking_mark_always_shown(
    c: ConventionalCommit,
    o: ChangelogOptions,
    repo: Option<RepositoryConfig>,
)
    ensures
        c.breaking ==> crate::text::ends_with(entry_text(c, o, repo), "\n  **BREAKING CHANGE**"@),
        starts_with(entry_text(c, o, repo), "- "@),
{
    reveal_strlit("- ");
    let e = entry_text(c, o, repo);
    let m = "\n  **BREAKING CHANGE**"@;
    let head = "- "@ + scope_part(c, o.include_scopes) + c.description@ + hash_part(c, o.include_hash, repo)
        + body_part(c, o.include_body);
    if c.breaking {
        assert(e == head + m);
        assert(e.skip(e.len() - m.len()) =~= m);
    } else {
        assert(e =~= head + Seq::<char>::empty());
    }
    assert(e.take(2) =~= "- "@);
}

/// A prerelease `preid.N` (N the whole decimal number after `preid.`)
/// goes to `preid.N+1` on the same major, minor and patch, whatever the
/// bump: never back to an earlier counter. At the largest counter there is
/// no next one.
pub proof fn lemma_prerelease_counter_advances(current: Seq<char>, bump: Seq<char>, preid: Seq<char>, n: nat)
    requires
        lenient_version(current).3 == preid + "."@ + digits(n),
        n <= u64::MAX,
    ensures
        n == u64::MAX ==> next_prerelease_spec(current, bump, preid) == Err::<VersionParts, VersionErrorView>(
            VersionErrorView::Overflow,
        ),
        n < u64::MAX ==> {
            let v = lenient_version(current);
            let next = preid + "."@ + digits(n + 1);
            &&& prerelease_ok(next) ==> next_prerelease_spec(current, bump, preid) == Ok::<
                VersionParts,
                VersionErrorView,
            >((v.0, v.1, v.2, next, Seq::<char>::empty()))
            &&& !prerelease_ok(next) ==> next_prerelease_spec(current, bump, preid) is Err
        },
{
    let v = lenient_version(current);
    let prefix = preid + "."@;
    lemma_digits_nonempty_all_digits(n);
    crate::text::lemma_digits_value_of_digits(n);
    assert(v.3.take(prefix.len() as int) =~= prefix);
    assert(v.3.skip(prefix.len() as int) =~= digits(n));
    assert(v.3.len() > 0);
    assert(crate::text::is_digit(digits(n)[0]));
    assert(crate::text::unsigned_body(digits(n)) == digits(n));
    assert(parse_unsigned(digits(n), u64::MAX as nat) == Some(n));
}

proof fn lemma_section_lines_hold(
    commits: Seq<ConventionalCommit>,
    name: Seq<char>,
    o: ChangelogOptions,
    repo: Option<RepositoryConfig>,
    i: int,
)
    requires
        0 <= i < commits.len(),
        section_of(commits[i].commit_type@) == name,
    ensures
        exists|a: Seq<char>, b: Seq<char>|
            #[trigger] section_lines(commits, name, o, repo) == a + entry_text(commits[i], o, repo) + "\n"@ + b,
    decreases commits.len(),
{
    let n = commits.len() - 1;
    let prev = section_lines(commits.drop_last(), name, o, repo);
    let whole = section_lines(commits, name, o, repo);
    if i == n {
        assert(whole == prev + (entry_text(commits[i], o, repo) + "\n"@));
        assert(whole =~= prev + entry_text(commits[i], o, repo) + "\n"@ + Seq::<char>::empty());
    } else {
        assert(commits.drop_last()[i] == commits[i]);
        lemma_section_lines_hold(commits.drop_last(), name, o, repo, i);
        let (a, b) = choose|a: Seq<char>, b: Seq<char>|
            #[trigger] section_lines(commits.drop_last(), name, o, repo) == a + entry_text(commits[i], o, repo) + "\n"@ + b;
        let tail = if section_of(commits.last().commit_type@) == name {
            entry_text(commits.last(), o, repo) + "\n"@
        } else {
            Seq::empty()
        };
        assert(whole == prev + tail);
        assert(whole =~= a + entry_text(commits[i], o, repo) + "\n"@ + (b + tail));
    }
}

proof fn lemma_section_blocks_hold(
    commits: Seq<ConventionalCommit>,
    names: Seq<Seq<char>>,
    o: ChangelogOptions,
    repo: Option<RepositoryConfig>,
    j: int,
)
    requires
        0 <= j < names.len(),
    ensures
        exists|a: Seq<char>, b: Seq<char>|
            #[trigger] section_blocks(commits, names, o, repo) == a + section_block(commits, names[j], o, repo) + b,
    decreases names.len(),
{
    let n = names.len() - 1;
    let whole = section_blocks(commits, names, o, repo);
    let prev = section_blocks(commits, names.drop_last(), o, repo);
    assert(whole == prev + section_block(commits, names.last(), o, repo));
    if j == n {
        assert(whole =~= prev + section_block(commits, names[j], o, repo) + Seq::<char>::empty());
    } else {
        assert(names.drop_last()[j] == names[j]);
        lemma_section_blocks_hold(commits, names.drop_last(), o, repo, j);
        let (a, b) = choose|a: Seq<char>, b: Seq<char>|
            #[trigger] section_blocks(commits, names.drop_last(), o, repo) == a + section_block(commits, names[j], o, repo) + b;
        assert(whole =~= a + section_block(commits, names[j], o, repo) + (b + section_block(
            commits,
            names.last(),
            o,
            repo,
        )));
    }
}

proof fn lemma_section_listed(t: Seq<char>)
    ensures
        exists|j: int| 0 <= j < section_order().len() && #[trigger] section_order()[j] == section_of(t),
{
    let s = section_order();
    if t == "feat"@ {
        assert(s[0] == section_of(t));
    } else if t == "fix"@ {
        assert(s[1] == section_of(t));
    } else if t == "docs"@ {
        assert(s[4] == section_of(t));
    } else if t == "refactor"@ {
        assert(s[3] == section_of(t));
    } else if t == "test"@ {
        assert(s[5] == section_of(t));
    } else if t == "chore"@ {
        assert(s[9] == section_of(t));
    } else if t == "perf"@ {
        assert(s[2] == section_of(t));
    } else if t == "ci"@ {
        assert(s[6] == section_of(t));
    } else if t == "build"@ {
        assert(s[7] == section_of(t));
    } else if t == "style"@ {
        assert(s[8] == section_of(t));
    } else {
        assert(s[10] == section_of(t));
    }
}

/// Every commit handed in has its line in the changelog entry, under the
/// heading of its section: no commit is dropped, whatever the options.
pub proof fn lemma_every_commit_listed(
    date: Seq<char>,
    version: Seq<char>,
    commits: Seq<ConventionalCommit>,
    o: ChangelogOptions,
    repo: Option<RepositoryConfig>,
)
    ensures
        forall|i: int|
            0 <= i < commits.len() ==> exists|a: Seq<char>, b: Seq<char>|
                changelog_spec(date, version, commits, o, repo) == a + "\n### "@ + section_of(
                    (#[trigger] commits[i]).commit_type@,
                ) + "\n\n"@ + b && exists|c: Seq<char>, d: Seq<char>|
                    b == c + entry_text(commits[i], o, repo) + "\n"@ + d,
{
    assert forall|i: int| 0 <= i < commits.len() implies exists|a: Seq<char>, b: Seq<char>|
        changelog_spec(date, version, commits, o, repo) == a + "\n### "@ + section_of(
            (#[trigger] commits[i]).commit_type@,
        ) + "\n\n"@ + b && exists|c: Seq<char>, d: Seq<char>|
            b == c + entry_text(commits[i], o, repo) + "\n"@ + d by {
        let name = section_of(commits[i].commit_type@);
        lemma_section_listed(commits[i].commit_type@);
        let j = choose|j: int| 0 <= j < section_order().len() && #[trigger] section_order()[j] == name;
        lemma_section_lines_hold(commits, name, o, repo, i);
        let lines = section_lines(commits, name, o, repo);
        let (c, d) = choose|c: Seq<char>, d: Seq<char>|
            #[trigger] section_lines(commits, name, o, repo) == c + entry_text(commits[i], o, repo) + "\n"@ + d;
        assert(lines.len() > 0) by {
            reveal_strlit("\n");
        }
        lemma_section_blocks_hold(commits, section_order(), o, repo, j);
        let (x, y) = choose|x: Seq<char>, y: Seq<char>|
            #[trigger] section_blocks(commits, section_order(), o, repo) == x + section_block(
                commits,
                section_order()[j],
                o,
                repo,
            ) + y;
        let head = "## "@ + version + " ("@ + date + ")\n"@;
        let b = lines + y;
        assert(b =~= c + entry_text(commits[i], o, repo) + "\n"@ + (d + y));
        assert(changelog_spec(date, version, commits, o, repo) =~= (head + x) + "\n### "@ + name + "\n\n"@ + b);
    }
}

} // verus!
