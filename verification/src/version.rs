//! Semantic versions as tag names carry them.
//!
//! Parsing and ordering are semver's own; this module holds the parsed
//! value's fields as plain data so that the rest of the library can reason
//! about them, and keeps the `semver::Version` it was read from beside them
//! for comparisons.

use vstd::prelude::*;

verus! {

/// The mathematical value of a parsed semantic version: the numeric triple
/// and the raw pre-release and build-metadata identifier text.
#[verifier::ext_equal]
pub struct VersionView {
    pub major: int,
    pub minor: int,
    pub patch: int,
    pub pre: Seq<char>,
    pub build: Seq<char>,
}

/// What `semver::Version::parse` returns on `s`: `None` where parsing fails,
/// otherwise the parsed fields. The result depends on the characters alone.
pub uninterp spec fn semver_of(s: Seq<char>) -> Option<VersionView>;

/// The order that `Ord for semver::Version` puts on parsed versions: `a`
/// comes before `b` or ties with it. It is a total order, and a function of
/// the two versions' fields alone.
pub uninterp spec fn semver_precedes(a: VersionView, b: VersionView) -> bool;

/// A parsed semantic version.
///
/// The plain fields mirror the `semver::Version` in `raw`, which `le`
/// compares; `parse` is the type's only constructor, so the two always
/// agree.
pub struct Semver {
    major: u64,
    minor: u64,
    patch: u64,
    pre: String,
    build: String,
    raw: semver::Version,
}

impl View for Semver {
    type V = VersionView;

    closed spec fn view(&self) -> VersionView {
        VersionView {
            major: self.major as int,
            minor: self.minor as int,
            patch: self.patch as int,
            pre: self.pre@,
            build: self.build@,
        }
    }
}

impl Semver {
    /// Relies on `semver::Version::parse`: deterministic in `s`, `Err`
    /// exactly where `s` is not a valid semantic version. The returned
    /// record's fields are copied from the parsed value, and `raw` is that
    /// value itself.
    #[verifier::external_body]
    pub(crate) fn parse(s: &str) -> (r: Option<Semver>)
        ensures
            r matches Some(v) ==> semver_of(s@) == Some(v@),
            r is None ==> semver_of(s@) is None,
    {
        match semver::Version::parse(s) {
            Ok(v) => Some(Semver {
                major: v.major,
                minor: v.minor,
                patch: v.patch,
                pre: v.pre.as_str().to_owned(),
                build: v.build.as_str().to_owned(),
                raw: v,
            }),
            Err(_) => None,
        }
    }

    /// Relies on the derived `Ord for semver::Version`: a total order that
    /// reads exactly the five fields the view mirrors, so the result is a
    /// function of the two views, and where `a <= b` fails, `b <= a` holds.
    #[verifier::external_body]
    pub(crate) fn le(&self, other: &Semver) -> (r: bool)
        ensures
            r == semver_precedes(self@, other@),
            !r ==> semver_precedes(other@, self@),
    {
        self.raw <= other.raw
    }

    /// The major version number.
    pub fn major(&self) -> (r: u64)
        ensures
            r as int == self@.major,
    {
        self.major
    }

    /// The minor version number.
    pub fn minor(&self) -> (r: u64)
        ensures
            r as int == self@.minor,
    {
        self.minor
    }

    /// The patch version number.
    pub fn patch(&self) -> (r: u64)
        ensures
            r as int == self@.patch,
    {
        self.patch
    }

    /// The pre-release identifier text, empty where there is none.
    pub fn pre(&self) -> (r: &str)
        ensures
            r@ == self@.pre,
    {
        self.pre.as_str()
    }

    /// The build-metadata identifier text, empty where there is none.
    pub fn build(&self) -> (r: &str)
        ensures
            r@ == self@.build,
    {
        self.build.as_str()
    }
}

} // verus!
