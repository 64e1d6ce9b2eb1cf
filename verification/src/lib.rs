//! Extraction of a repository's history — commits along the first-parent
//! line and version tags — into a validated in-memory model for a change
//! log.
//!
//! The repository itself is read by an unverified host: it hands the two
//! pipelines plain records of what it found (`RawWalkEntry`, `RawTagEntry`),
//! and `commits` and `tags` convert, filter and order them. Every decision —
//! which malformed entry is silently skipped, which one aborts the run, and
//! how the surviving records look — is made here.

use vstd::prelude::*;

pub mod convert;
pub mod laws;
pub mod model;
pub mod pipeline;
pub mod semver_support;
pub mod text;
pub mod version;

pub use model::Commit;
pub use model::Diagnostic;
pub use model::ObjectKind;
pub use model::RawCommit;
pub use model::RawObject;
pub use model::RawSignature;
pub use model::RawTag;
pub use model::RawTagEntry;
pub use model::RawWalkEntry;
pub use model::Signature;
pub use model::Tag;
pub use pipeline::commits;
pub use pipeline::tags;
pub use version::Semver;

verus! {

/// The error kinds a history extraction can end in.
///
/// `Utf8Error` and `SemVer` are recoverable at the per-entry boundary of the
/// two pipelines; `InvalidTag` and `Repo` are always fatal.
#[derive(Debug)]
pub enum Error {
    /// A text field (name, email, message, or ref name) is not valid UTF-8.
    Utf8Error,
    /// A tag ref name, stripped of an optional leading `v`, is not a
    /// semantic version.
    SemVer,
    /// An annotated tag points at an object that is not a commit.
    InvalidTag,
    /// The repository's object database could not be read; carries the
    /// underlying message.
    Repo(String),
}

/// The mathematical value of an `Error`.
#[verifier::ext_equal]
pub enum ErrorView {
    Utf8Error,
    SemVer,
    InvalidTag,
    Repo(Seq<char>),
}

impl View for Error {
    type V = ErrorView;

    open spec fn view(&self) -> ErrorView {
        match self {
            Error::Utf8Error => ErrorView::Utf8Error,
            Error::SemVer => ErrorView::SemVer,
            Error::InvalidTag => ErrorView::InvalidTag,
            Error::Repo(m) => ErrorView::Repo(m@),
        }
    }
}

impl Error {
    /// A short human-readable description of the error kind.
    pub fn describe(&self) -> (r: String)
        ensures
            r@ == self.spec_describe(),
    {
        match self {
            Error::Utf8Error => "invalid UTF-8 text".to_owned(),
            Error::SemVer => "ref name is not a semantic version".to_owned(),
            Error::InvalidTag => "tag does not point at a commit".to_owned(),
            Error::Repo(m) => "repository error: ".to_owned().concat(m.as_str()),
        }
    }

    /// The text `describe` returns.
    pub open spec fn spec_describe(&self) -> Seq<char> {
        match self {
            Error::Utf8Error => "invalid UTF-8 text"@,
            Error::SemVer => "ref name is not a semantic version"@,
            Error::InvalidTag => "tag does not point at a commit"@,
            Error::Repo(m) => "repository error: "@ + m@,
        }
    }
}

/// The views of a sequence's elements, in order.
pub open spec fn views<T: View>(s: Seq<T>) -> Seq<T::V> {
    Seq::new(s.len(), |i: int| s[i]@)
}

/// The view of a `Result`, taken on both sides.
pub open spec fn res_view<T: View, E: View>(r: Result<T, E>) -> Result<T::V, E::V> {
    match r {
        Ok(t) => Ok(t@),
        Err(e) => Err(e@),
    }
}

} // verus!
