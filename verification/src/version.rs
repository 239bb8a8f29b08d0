//! Dependency versions: an exact version or a range requirement, parsed by
//! the `semver` crate and modelled here by its comparable components, with a
//! verified total preorder.

use vstd::prelude::*;
use core::cmp::Ordering;
use crate::strutil::{
    spec_lex_cmp, lex_cmp_str, str_eq, lemma_lex_cmp_equal, lemma_lex_cmp_flip,
    lemma_lex_cmp_trans,
};

verus! {

/// What `semver::Version::parse` yields of a version text, rendered back by
/// its display form: `None` when the text is not an exact version, otherwise
/// the major, minor and patch numbers, the pre-release identifier and the
/// canonical rendering. A function of the text alone.
pub uninterp spec fn exact_parse(s: Seq<char>) -> Option<(u64, u64, u64, Seq<char>, Seq<char>)>;

/// What `semver::VersionReq::parse` yields of a requirement text: `None` when
/// the text does not parse; otherwise the first comparator, if any, as its
/// major number, optional minor and patch numbers and pre-release identifier,
/// beside the canonical rendering of the whole requirement. A function of the
/// text alone.
pub uninterp spec fn range_parse(s: Seq<char>) -> Option<
    (Option<(u64, Option<u64>, Option<u64>, Seq<char>)>, Seq<char>),
>;

/// Relies on `semver::Version::parse` and the `Display` of the parsed
/// version: both compute from the text alone, and the parts handed back are
/// the parsed version's own fields.
#[verifier::external_body]
fn parse_exact(s: &str) -> (r: Option<(u64, u64, u64, String, String)>)
    ensures
        match r {
            Some(t) => exact_parse(s@) == Some((t.0, t.1, t.2, t.3@, t.4@)),
            None => exact_parse(s@) is None,
        },
{
    match semver::Version::parse(s) {
        Ok(v) => {
            let pre = v.pre.as_str().to_string();
            let rendered = v.to_string();
            Some((v.major, v.minor, v.patch, pre, rendered))
        }
        Err(_) => None,
    }
}

/// Relies on `semver::VersionReq::parse` and the `Display` of the parsed
/// requirement: both compute from the text alone, and the parts handed back
/// are the fields of the requirement's first comparator.
#[verifier::external_body]
fn parse_range(s: &str) -> (r: Option<
    (Option<(u64, Option<u64>, Option<u64>, String)>, String),
>)
    ensures
        match r {
            Some(t) => {
                &&& range_parse(s@) matches Some(u)
                &&& u.1 == t.1@
                &&& match t.0 {
                    Some(f) => u.0 == Some((f.0, f.1, f.2, f.3@)),
                    None => u.0 is None,
                }
            },
            None => range_parse(s@) is None,
        },
{
    match semver::VersionReq::parse(s) {
        Ok(v) => {
            let first = v.comparators.first().map(|c| (
                c.major,
                c.minor,
                c.patch,
                c.pre.as_str().to_string(),
            ));
            Some((first, v.to_string()))
        }
        Err(_) => None,
    }
}

/// A version as the linter compares it: an exact version, or a range
/// requirement reduced to its first bound. A range without any comparator
/// keeps zero components and is not `valid`.
#[derive(Debug)]
pub enum SemVersion {
    Exact {
        major: u64,
        minor: u64,
        patch: u64,
        prerelease: String,
        rendered: String,
    },
    Range {
        has_comparators: bool,
        major: u64,
        minor: u64,
        patch: u64,
        prerelease: String,
        rendered: String,
    },
}

/// A version's view: its compared components and its rendering. Two
/// models agree on `same_version` exactly when the versions compare equal.
pub struct VersionModel {
    pub exact: bool,
    pub valid: bool,
    pub major: u64,
    pub minor: u64,
    pub patch: u64,
    pub prerelease: Seq<char>,
    pub rendered: Seq<char>,
}

/// The two models carry one compared version: every component but the
/// rendering agrees.
pub open spec fn same_version(a: VersionModel, b: VersionModel) -> bool {
    &&& a.exact == b.exact
    &&& a.valid == b.valid
    &&& a.major == b.major
    &&& a.minor == b.minor
    &&& a.patch == b.patch
    &&& a.prerelease == b.prerelease
}

/// The version text could not be read as an exact version nor as a range.
#[derive(Debug)]
pub struct VersionError {
    pub text: String,
}

impl SemVersion {
    /// The major component compared first.
    pub open spec fn spec_major(&self) -> u64 {
        match self {
            SemVersion::Exact { major, .. } => *major,
            SemVersion::Range { major, .. } => *major,
        }
    }

    /// The minor component compared second.
    pub open spec fn spec_minor(&self) -> u64 {
        match self {
            SemVersion::Exact { minor, .. } => *minor,
            SemVersion::Range { minor, .. } => *minor,
        }
    }

    /// The patch component compared third.
    pub open spec fn spec_patch(&self) -> u64 {
        match self {
            SemVersion::Exact { patch, .. } => *patch,
            SemVersion::Range { patch, .. } => *patch,
        }
    }

    /// The pre-release identifier compared last; empty on a release version.
    pub open spec fn spec_pre(&self) -> Seq<char> {
        match self {
            SemVersion::Exact { prerelease, .. } => prerelease@,
            SemVersion::Range { prerelease, .. } => prerelease@,
        }
    }

    /// The display form of the version as it was parsed.
    pub open spec fn spec_rendered(&self) -> Seq<char> {
        match self {
            SemVersion::Exact { rendered, .. } => rendered@,
            SemVersion::Range { rendered, .. } => rendered@,
        }
    }

    /// A version takes part in aggregation only when it is an exact version
    /// or a range with at least one comparator.
    pub open spec fn spec_valid(&self) -> bool {
        match self {
            SemVersion::Exact { .. } => true,
            SemVersion::Range { has_comparators, .. } => *has_comparators,
        }
    }

    /// Structural equality of the compared model: same form and same
    /// components.
    pub open spec fn spec_same(&self, other: &SemVersion) -> bool {
        &&& (*self is Exact) == (*other is Exact)
        &&& self.spec_valid() == other.spec_valid()
        &&& self.spec_major() == other.spec_major()
        &&& self.spec_minor() == other.spec_minor()
        &&& self.spec_patch() == other.spec_patch()
        &&& self.spec_pre() == other.spec_pre()
    }

    /// The version as its compared components beside its rendering: what
    /// two parses of one text agree on.
    pub open spec fn model(&self) -> VersionModel {
        VersionModel {
            exact: *self is Exact,
            valid: self.spec_valid(),
            major: self.spec_major(),
            minor: self.spec_minor(),
            patch: self.spec_patch(),
            prerelease: self.spec_pre(),
            rendered: self.spec_rendered(),
        }
    }

    /// Whether `parse` on a text viewing as `s` must yield `r`.
    pub open spec fn spec_parse_rel(s: Seq<char>, r: Result<SemVersion, VersionError>) -> bool {
        match exact_parse(s) {
            Some(t) => {
                &&& r matches Ok(v)
                &&& v matches SemVersion::Exact { major, minor, patch, prerelease, rendered }
                &&& major == t.0
                &&& minor == t.1
                &&& patch == t.2
                &&& prerelease@ == t.3
                &&& rendered@ == t.4
            },
            None => match range_parse(s) {
                Some(u) => {
                    &&& r matches Ok(v)
                    &&& v matches SemVersion::Range {
                        has_comparators,
                        major,
                        minor,
                        patch,
                        prerelease,
                        rendered,
                    }
                    &&& rendered@ == u.1
                    &&& match u.0 {
                        Some(f) => {
                            &&& has_comparators
                            &&& major == f.0
                            &&& minor == (if f.1 is Some { f.1.unwrap() } else { 0u64 })
                            &&& patch == (if f.2 is Some { f.2.unwrap() } else { 0u64 })
                            &&& prerelease@ == f.3
                        },
                        None => {
                            &&& !has_comparators
                            &&& major == 0
                            &&& minor == 0
                            &&& patch == 0
                            &&& prerelease@ == Seq::<char>::empty()
                        },
                    }
                },
                None => r matches Err(e) && e.text@ == s,
            },
        }
    }

    /// Reads a version text: first as an exact version, then as a range
    /// requirement; an unreadable text is a recoverable error.
    pub fn parse(version: &str) -> (r: Result<SemVersion, VersionError>)
        ensures
            SemVersion::spec_parse_rel(version@, r),
    {
        if let Some(t) = parse_exact(version) {
            return Ok(SemVersion::Exact {
                major: t.0,
                minor: t.1,
                patch: t.2,
                prerelease: t.3,
                rendered: t.4,
            });
        }
        if let Some(u) = parse_range(version) {
            let (first, rendered) = u;
            return match first {
                Some(f) => Ok(SemVersion::Range {
                    has_comparators: true,
                    major: f.0,
                    minor: match f.1 {
                        Some(m) => m,
                        None => 0,
                    },
                    patch: match f.2 {
                        Some(p) => p,
                        None => 0,
                    },
                    prerelease: f.3,
                    rendered,
                }),
                None => Ok(SemVersion::Range {
                    has_comparators: false,
                    major: 0,
                    minor: 0,
                    patch: 0,
                    prerelease: String::new(),
                    rendered,
                }),
            };
        }
        Err(VersionError { text: version.to_owned() })
    }

    /// The major component.
    pub fn major(&self) -> (r: u64)
        ensures
            r == self.spec_major(),
    {
        match self {
            SemVersion::Exact { major, .. } => *major,
            SemVersion::Range { major, .. } => *major,
        }
    }

    /// The minor component.
    pub fn minor(&self) -> (r: u64)
        ensures
            r == self.spec_minor(),
    {
        match self {
            SemVersion::Exact { minor, .. } => *minor,
            SemVersion::Range { minor, .. } => *minor,
        }
    }

    /// The patch component.
    pub fn patch(&self) -> (r: u64)
        ensures
            r == self.spec_patch(),
    {
        match self {
            SemVersion::Exact { patch, .. } => *patch,
            SemVersion::Range { patch, .. } => *patch,
        }
    }

    /// The pre-release identifier; empty on a release version.
    pub fn prerelease(&self) -> (r: &String)
        ensures
            r@ == self.spec_pre(),
    {
        match self {
            SemVersion::Exact { prerelease, .. } => prerelease,
            SemVersion::Range { prerelease, .. } => prerelease,
        }
    }

    /// The display form of the version as it was parsed.
    pub fn rendered(&self) -> (r: &String)
        ensures
            r@ == self.spec_rendered(),
    {
        match self {
            SemVersion::Exact { rendered, .. } => rendered,
            SemVersion::Range { rendered, .. } => rendered,
        }
    }

    /// Whether the version takes part in aggregation: an exact version, or a
    /// range with at least one comparator.
    pub fn is_valid(&self) -> (r: bool)
        ensures
            r == self.spec_valid(),
    {
        match self {
            SemVersion::Exact { .. } => true,
            SemVersion::Range { has_comparators, .. } => *has_comparators,
        }
    }

    /// A copy with the same components and rendering.
    pub fn duplicate(&self) -> (r: SemVersion)
        ensures
            r.spec_same(self),
            r.spec_rendered() == self.spec_rendered(),
            (r is Exact) == (*self is Exact),
    {
        match self {
            SemVersion::Exact { major, minor, patch, prerelease, rendered } => SemVersion::Exact {
                major: *major,
                minor: *minor,
                patch: *patch,
                prerelease: prerelease.clone(),
                rendered: rendered.clone(),
            },
            SemVersion::Range {
                has_comparators,
                major,
                minor,
                patch,
                prerelease,
                rendered,
            } => SemVersion::Range {
                has_comparators: *has_comparators,
                major: *major,
                minor: *minor,
                patch: *patch,
                prerelease: prerelease.clone(),
                rendered: rendered.clone(),
            },
        }
    }

    /// Structural equality of the compared model.
    pub fn same(&self, other: &SemVersion) -> (r: bool)
        ensures
            r == self.spec_same(other),
    {
        let forms_match = match (self, other) {
            (SemVersion::Exact { .. }, SemVersion::Exact { .. }) => true,
            (SemVersion::Range { .. }, SemVersion::Range { .. }) => true,
            _ => false,
        };
        forms_match && self.is_valid() == other.is_valid() && self.major() == other.major()
            && self.minor() == other.minor() && self.patch() == other.patch() && str_eq(
            self.prerelease().as_str(),
            other.prerelease().as_str(),
        )
    }

    /// Ordering on pre-release identifiers: a release version (empty
    /// identifier) sorts above any pre-release; two pre-releases compare
    /// lexically.
    pub open spec fn spec_pre_cmp(a: Seq<char>, b: Seq<char>) -> Ordering {
        if a.len() == 0 && b.len() == 0 {
            Ordering::Equal
        } else if a.len() == 0 {
            Ordering::Greater
        } else if b.len() == 0 {
            Ordering::Less
        } else {
            spec_lex_cmp(a, b)
        }
    }

    /// Total order on versions: major, then minor, then patch, then the
    /// pre-release identifier with the empty identifier sorting highest.
    pub open spec fn spec_cmp(a: &SemVersion, b: &SemVersion) -> Ordering {
        if a.spec_major() != b.spec_major() {
            if a.spec_major() < b.spec_major() {
                Ordering::Less
            } else {
                Ordering::Greater
            }
        } else if a.spec_minor() != b.spec_minor() {
            if a.spec_minor() < b.spec_minor() {
                Ordering::Less
            } else {
                Ordering::Greater
            }
        } else if a.spec_patch() != b.spec_patch() {
            if a.spec_patch() < b.spec_patch() {
                Ordering::Less
            } else {
                Ordering::Greater
            }
        } else {
            SemVersion::spec_pre_cmp(a.spec_pre(), b.spec_pre())
        }
    }

    /// Compares two versions: major, then minor, then patch, then
    /// pre-release, a release version sorting above its pre-releases.
    pub fn cmp(&self, other: &SemVersion) -> (r: Ordering)
        ensures
            r == SemVersion::spec_cmp(self, other),
    {
        let am = self.major();
        let bm = other.major();
        if am != bm {
            return if am < bm { Ordering::Less } else { Ordering::Greater };
        }
        let an = self.minor();
        let bn = other.minor();
        if an != bn {
            return if an < bn { Ordering::Less } else { Ordering::Greater };
        }
        let ap = self.patch();
        let bp = other.patch();
        if ap != bp {
            return if ap < bp { Ordering::Less } else { Ordering::Greater };
        }
        let pa = self.prerelease().as_str();
        let pb = other.prerelease().as_str();
        let la = crate::strutil::str_len(pa);
        let lb = crate::strutil::str_len(pb);
        if la == 0 && lb == 0 {
            Ordering::Equal
        } else if la == 0 {
            Ordering::Greater
        } else if lb == 0 {
            Ordering::Less
        } else {
            lex_cmp_str(pa, pb)
        }
    }
}

/// The version order is antisymmetric: comparing one way answers `Less`
/// exactly when comparing the other way answers `Greater`, and `Equal` is
/// symmetric and means equal components.
pub proof fn lemma_cmp_antisymmetric(a: &SemVersion, b: &SemVersion)
    ensures
        (SemVersion::spec_cmp(a, b) == Ordering::Less) == (SemVersion::spec_cmp(b, a)
            == Ordering::Greater),
        (SemVersion::spec_cmp(a, b) == Ordering::Equal) == (SemVersion::spec_cmp(b, a)
            == Ordering::Equal),
        (SemVersion::spec_cmp(a, b) == Ordering::Equal) ==> (a.spec_major() == b.spec_major()
            && a.spec_minor() == b.spec_minor() && a.spec_patch() == b.spec_patch()
            && a.spec_pre() == b.spec_pre()),
{
    lemma_lex_cmp_equal(a.spec_pre(), b.spec_pre());
    lemma_lex_cmp_equal(b.spec_pre(), a.spec_pre());
    lemma_lex_cmp_flip(a.spec_pre(), b.spec_pre());
    lemma_lex_cmp_flip(b.spec_pre(), a.spec_pre());
}

/// The version order is transitive.
pub proof fn lemma_cmp_transitive(a: &SemVersion, b: &SemVersion, c: &SemVersion)
    requires
        SemVersion::spec_cmp(a, b) == Ordering::Less,
        SemVersion::spec_cmp(b, c) == Ordering::Less,
    ensures
        SemVersion::spec_cmp(a, c) == Ordering::Less,
{
    lemma_lex_cmp_equal(a.spec_pre(), b.spec_pre());
    lemma_lex_cmp_equal(b.spec_pre(), c.spec_pre());
    if a.spec_major() == c.spec_major() && a.spec_minor() == c.spec_minor() && a.spec_patch()
        == c.spec_patch() && a.spec_pre().len() != 0 && b.spec_pre().len() != 0 && c.spec_pre().len()
        != 0 {
        lemma_lex_cmp_trans(a.spec_pre(), b.spec_pre(), c.spec_pre());
    }
}

/// Parsing is a function of the text: two successful reads of the same text
/// agree on every compared component, on validity and on the rendering.
pub proof fn lemma_parse_deterministic(
    s: Seq<char>,
    r1: Result<SemVersion, VersionError>,
    r2: Result<SemVersion, VersionError>,
)
    requires
        SemVersion::spec_parse_rel(s, r1),
        SemVersion::spec_parse_rel(s, r2),
        r1 is Ok,
    ensures
        r2 is Ok,
        r1.unwrap().spec_same(&r2.unwrap()),
        r1.unwrap().spec_rendered() == r2.unwrap().spec_rendered(),
{
}

} // verus!
