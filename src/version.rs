//! Semantic versions: parsing an identifier's trailing segment, precedence,
//! and rendering a version back to text.

use std::cmp::Ordering;
use vstd::prelude::*;

verus! {

/// The parts of a semantic version as plain values:
/// (major, minor, patch, pre-release text, build-metadata text).
pub type VersionParts = (u64, u64, u64, Seq<char>, Seq<char>);

/// What semver's parser makes of a version text: its parts, or `None` where the
/// text is not `major.minor.patch[-pre][+build]`.
pub uninterp spec fn semver_parse(text: Seq<char>) -> Option<VersionParts>;

/// semver's precedence between two pre-release texts.
pub uninterp spec fn prerelease_order(a: Seq<char>, b: Seq<char>) -> Ordering;

/// A semantic version, as semver parsed it.
#[derive(Debug)]
pub struct SemVer {
    pub major: u64,
    pub minor: u64,
    pub patch: u64,
    pub pre: String,
    pub build: String,
}

impl View for SemVer {
    type V = VersionParts;

    open spec fn view(&self) -> VersionParts {
        (self.major, self.minor, self.patch, self.pre@, self.build@)
    }
}

/// Reasons a version cannot be had.
#[derive(Debug, Clone, Copy, PartialEq, Eq, Structural)]
pub enum VersionError {
    /// The version text is missing or does not parse.
    Malformed,
    /// The patch component cannot be incremented.
    PatchOverflow,
}

pub open spec fn reversed(o: Ordering) -> Ordering {
    match o {
        Ordering::Less => Ordering::Greater,
        Ordering::Equal => Ordering::Equal,
        Ordering::Greater => Ordering::Less,
    }
}

/// `p` is the pre-release text of some version text that parses.
pub open spec fn is_prerelease_text(p: Seq<char>) -> bool {
    exists|t: Seq<char>| #[trigger] semver_parse(t) matches Some(parts) && parts.3 == p
}

/// Relies on semver::Version::parse: the parts of a version text that parses,
/// and failure on an empty text.
#[verifier::external_body]
fn parse_semver(text: &str) -> (r: Option<SemVer>)
    ensures
        match r {
            Some(v) => semver_parse(text@) == Some(v@),
            None => semver_parse(text@) is None,
        },
        text@.len() == 0 ==> r is None,
{
    match semver::Version::parse(text) {
        Ok(v) => Some(SemVer {
            major: v.major,
            minor: v.minor,
            patch: v.patch,
            pre: v.pre.as_str().to_string(),
            build: v.build.as_str().to_string(),
        }),
        Err(_) => None,
    }
}

/// Relies on semver::Prerelease::new, which accepts the pre-release text of any
/// parsed version, and on `Ord for semver::Prerelease`, a total order (std's
/// `Ord` contract): reversing the arguments reverses the result, and
/// `c <= b < a` gives `c < a`.
#[verifier::external_body]
fn compare_prerelease(a: &str, b: &str) -> (r: Ordering)
    requires
        is_prerelease_text(a@),
        is_prerelease_text(b@),
    ensures
        r == prerelease_order(a@, b@),
        a@ != b@ ==> prerelease_order(b@, a@) == reversed(r),
        r == Ordering::Greater ==> forall|c: Seq<char>|
            c != a@ && c != b@ && #[trigger] prerelease_order(c, b@) != Ordering::Greater
                ==> prerelease_order(c, a@) == Ordering::Less && prerelease_order(a@, c)
                == Ordering::Greater,
{
    semver::Prerelease::new(a).unwrap().cmp(&semver::Prerelease::new(b).unwrap())
}

pub open spec fn cmp_int(a: int, b: int) -> Ordering {
    if a < b {
        Ordering::Less
    } else if a > b {
        Ordering::Greater
    } else {
        Ordering::Equal
    }
}

/// Semantic-version precedence: major, minor and patch numerically, then the
/// pre-release part (a release above its pre-releases). Build metadata does
/// not take part, so two versions that differ only there are equal.
pub open spec fn version_cmp(a: VersionParts, b: VersionParts) -> Ordering {
    if a.0 != b.0 {
        cmp_int(a.0 as int, b.0 as int)
    } else if a.1 != b.1 {
        cmp_int(a.1 as int, b.1 as int)
    } else if a.2 != b.2 {
        cmp_int(a.2 as int, b.2 as int)
    } else if a.3 == b.3 {
        Ordering::Equal
    } else {
        prerelease_order(a.3, b.3)
    }
}

/// The characters after the last `/` of an identifier (all of it if it has none).
pub open spec fn last_segment(id: Seq<char>) -> Seq<char>
    decreases id.len(),
{
    if id.len() == 0 {
        id
    } else if id.last() == '/' {
        Seq::empty()
    } else {
        last_segment(id.drop_last()).push(id.last())
    }
}

/// The version carried by an identifier's trailing segment.
pub open spec fn version_of(id: Seq<char>) -> Option<VersionParts> {
    semver_parse(last_segment(id))
}


/// The decimal digits of `n`, most significant first, without leading zeros.
pub open spec fn decimal(n: nat) -> Seq<char>
    decreases n,
{
    if n < 10 {
        seq![digit_char(n)]
    } else {
        decimal(n / 10).push(digit_char(n % 10))
    }
}

pub open spec fn digit_char(d: nat) -> char {
    if d == 0 { '0' } else if d == 1 { '1' } else if d == 2 { '2' } else if d == 3 { '3' }
    else if d == 4 { '4' } else if d == 5 { '5' } else if d == 6 { '6' } else if d == 7 { '7' }
    else if d == 8 { '8' } else { '9' }
}

/// The text of a version: `major.minor.patch`, then `-pre` and `+build` where
/// those parts are non-empty.
pub open spec fn version_text(v: VersionParts) -> Seq<char> {
    let core = decimal(v.0 as nat) + seq!['.'] + decimal(v.1 as nat) + seq!['.'] + decimal(
        v.2 as nat,
    );
    let with_pre = if v.3.len() == 0 {
        core
    } else {
        core + seq!['-'] + v.3
    };
    if v.4.len() == 0 {
        with_pre
    } else {
        with_pre + seq!['+'] + v.4
    }
}

/// The trailing segment of an identifier: what follows its last `/`.
pub fn trailing_segment(id: &str) -> (r: &str)
    ensures
        r@ == last_segment(id@),
{
    let n = id.unicode_len();
    let mut start: usize = 0;
    let mut i: usize = 0;
    while i < n
        invariant
            n == id@.len(),
            start <= i <= n,
            last_segment(id@.subrange(0, i as int)) == id@.subrange(start as int, i as int),
        decreases n - i,
    {
        let c = id.get_char(i);
        proof {
            assert(id@.subrange(0, i + 1).drop_last() =~= id@.subrange(0, i as int));
        }
        if c == '/' {
            start = i + 1;
            assert(id@.subrange(start as int, i + 1) =~= Seq::<char>::empty());
        } else {
            assert(id@.subrange(start as int, i + 1) =~= id@.subrange(start as int, i as int).push(
                c,
            ));
        }
        i = i + 1;
    }
    assert(id@.subrange(0, n as int) =~= id@);
    id.substring_char(start, n)
}

/// Parses a version text.
pub fn parse_version(text: &str) -> (r: Result<SemVer, VersionError>)
    ensures
        match r {
            Ok(v) => semver_parse(text@) == Some(v@) && is_prerelease_text(v.pre@),
            Err(e) => semver_parse(text@) is None && e == VersionError::Malformed,
        },
{
    match parse_semver(text) {
        Some(v) => {
            assert(semver_parse(text@) matches Some(parts) && parts.3 == v.pre@);
            Ok(v)
        },
        None => Err(VersionError::Malformed),
    }
}

/// The version carried by the trailing segment of an identifier.
pub fn extract_version(id: &str) -> (r: Result<SemVer, VersionError>)
    ensures
        match r {
            Ok(v) => version_of(id@) == Some(v@) && is_prerelease_text(v.pre@),
            Err(e) => version_of(id@) is None && e == VersionError::Malformed,
        },
{
    parse_version(trailing_segment(id))
}

/// Precedence of `a` over `b`. Besides the result, the ordering is transitive
/// through `b`: whatever is at most `b` lies strictly below `a`, and `a` strictly
/// above it, when `a` is above `b`.
pub fn compare_versions(a: &SemVer, b: &SemVer) -> (r: Ordering)
    requires
        is_prerelease_text(a.pre@),
        is_prerelease_text(b.pre@),
    ensures
        r == version_cmp(a@, b@),
        version_cmp(b@, a@) == reversed(r),
        r == Ordering::Greater ==> forall|c: VersionParts|
            #[trigger] version_cmp(c, b@) != Ordering::Greater ==> version_cmp(c, a@)
                == Ordering::Less && version_cmp(a@, c) == Ordering::Greater,
{
    if a.major != b.major {
        if a.major < b.major {
            Ordering::Less
        } else {
            Ordering::Greater
        }
    } else if a.minor != b.minor {
        if a.minor < b.minor {
            Ordering::Less
        } else {
            Ordering::Greater
        }
    } else if a.patch != b.patch {
        if a.patch < b.patch {
            Ordering::Less
        } else {
            Ordering::Greater
        }
    } else if a.pre == b.pre {
        Ordering::Equal
    } else {
        let r = compare_prerelease(a.pre.as_str(), b.pre.as_str());
        assert forall|c: VersionParts|
            r == Ordering::Greater && #[trigger] version_cmp(c, b@) != Ordering::Greater implies
                version_cmp(c, a@) == Ordering::Less && version_cmp(a@, c) == Ordering::Greater by {
            if c.0 == b.major && c.1 == b.minor && c.2 == b.patch && c.3 != b.pre@ && c.3 != a.pre@ {
                assert(prerelease_order(c.3, b.pre@) != Ordering::Greater);
            }
        }
        r
    }
}

/// The same version with its patch component one higher.
pub fn next_patch(v: &SemVer) -> (r: Result<SemVer, VersionError>)
    ensures
        match r {
            Ok(n) => v.patch < u64::MAX && n@ == (v.major, v.minor, (v.patch + 1) as u64, v.pre@, v.build@),
            Err(e) => v.patch == u64::MAX && e == VersionError::PatchOverflow,
        },
{
    if v.patch == u64::MAX {
        Err(VersionError::PatchOverflow)
    } else {
        Ok(SemVer {
            major: v.major,
            minor: v.minor,
            patch: v.patch + 1,
            pre: v.pre.clone(),
            build: v.build.clone(),
        })
    }
}


fn digit_text(d: u64) -> (r: &'static str)
    requires
        d < 10,
    ensures
        r@ == seq![digit_char(d as nat)],
{
    proof {
        reveal_strlit("0");
        reveal_strlit("1");
        reveal_strlit("2");
        reveal_strlit("3");
        reveal_strlit("4");
        reveal_strlit("5");
        reveal_strlit("6");
        reveal_strlit("7");
        reveal_strlit("8");
        reveal_strlit("9");
    }
    if d == 0 { "0" } else if d == 1 { "1" } else if d == 2 { "2" } else if d == 3 { "3" }
    else if d == 4 { "4" } else if d == 5 { "5" } else if d == 6 { "6" } else if d == 7 { "7" }
    else if d == 8 { "8" } else { "9" }
}

fn append_decimal(s: &mut String, n: u64)
    ensures
        final(s)@ == old(s)@ + decimal(n as nat),
    decreases n,
{
    if n >= 10 {
        append_decimal(s, n / 10);
    }
    s.append(digit_text(n % 10));
    assert(s@ =~= old(s)@ + decimal(n as nat));
}

/// The text of a version, as semver writes it.
pub fn render_version(v: &SemVer) -> (r: String)
    ensures
        r@ == version_text(v@),
{
    proof {
        reveal_strlit(".");
        reveal_strlit("-");
        reveal_strlit("+");
    }
    let mut s = String::new();
    append_decimal(&mut s, v.major);
    s.append(".");
    append_decimal(&mut s, v.minor);
    s.append(".");
    append_decimal(&mut s, v.patch);
    if v.pre.unicode_len() > 0 {
        s.append("-");
        s.append(v.pre.as_str());
    }
    if v.build.unicode_len() > 0 {
        s.append("+");
        s.append(v.build.as_str());
    }
    assert(s@ =~= version_text(v@));
    s
}

} // verus!
