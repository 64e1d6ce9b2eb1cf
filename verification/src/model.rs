//! The validated records a change log is rendered from, and the raw records
//! the repository host hands the two pipelines.
//!
//! Raw records carry text fields as `Option<String>` — `None` where the
//! repository holds bytes that are not valid UTF-8 — and repository-access
//! failures as `Err` with the underlying message. Timestamps are UTC
//! instants as seconds since the epoch; a record's own timezone offset is
//! not preserved.

use crate::version::Semver;
use crate::version::VersionView;
use crate::Error;
use crate::ErrorView;
use vstd::prelude::*;

verus! {

/// A validated author, committer, or tagger record.
pub struct Signature {
    /// The person's name; valid UTF-8.
    pub name: String,
    /// The person's email address; valid UTF-8.
    pub email: String,
    /// The record's UTC instant, in seconds since the epoch.
    pub time: i64,
}

/// The mathematical value of a `Signature`.
#[verifier::ext_equal]
pub struct SignatureView {
    pub name: Seq<char>,
    pub email: Seq<char>,
    pub time: int,
}

impl View for Signature {
    type V = SignatureView;

    open spec fn view(&self) -> SignatureView {
        SignatureView { name: self.name@, email: self.email@, time: self.time as int }
    }
}

/// A validated commit.
pub struct Commit {
    /// The full hash, in hex.
    pub id: String,
    /// The abbreviated hash, unambiguous in the repository at conversion
    /// time.
    pub short_id: String,
    /// The message, with trailing white space removed.
    pub message: String,
    /// The committer's UTC instant, in seconds since the epoch.
    pub time: i64,
    /// Who wrote the change.
    pub author: Signature,
    /// Who committed it.
    pub committer: Signature,
}

/// The mathematical value of a `Commit`.
#[verifier::ext_equal]
pub struct CommitView {
    pub id: Seq<char>,
    pub short_id: Seq<char>,
    pub message: Seq<char>,
    pub time: int,
    pub author: SignatureView,
    pub committer: SignatureView,
}

impl View for Commit {
    type V = CommitView;

    open spec fn view(&self) -> CommitView {
        CommitView {
            id: self.id@,
            short_id: self.short_id@,
            message: self.message@,
            time: self.time as int,
            author: self.author@,
            committer: self.committer@,
        }
    }
}

/// A validated release tag.
pub struct Tag {
    /// The hash of the tag object, or of the target commit for a
    /// lightweight tag.
    pub id: String,
    /// The annotated tag's message, verbatim; absent for lightweight tags.
    pub message: Option<String>,
    /// The ref short name, e.g. `v1.2.3`.
    pub name: String,
    /// The version parsed from `name` stripped of an optional leading `v`.
    pub version: Semver,
    /// The tagger; for a lightweight tag, the target commit's author.
    pub tagger: Option<Signature>,
    /// The commit the tag points at.
    pub commit: Commit,
}

/// The mathematical value of a `Tag`.
#[verifier::ext_equal]
pub struct TagView {
    pub id: Seq<char>,
    pub message: Option<Seq<char>>,
    pub name: Seq<char>,
    pub version: VersionView,
    pub tagger: Option<SignatureView>,
    pub commit: CommitView,
}

impl View for Tag {
    type V = TagView;

    open spec fn view(&self) -> TagView {
        TagView {
            id: self.id@,
            message: match self.message {
                Some(m) => Some(m@),
                None => None,
            },
            name: self.name@,
            version: self.version@,
            tagger: match self.tagger {
                Some(s) => Some(s@),
                None => None,
            },
            commit: self.commit@,
        }
    }
}

/// A line of advisory output: an entry was skipped, and why.
pub struct Diagnostic {
    /// The offending commit id or tag ref name; empty where a ref name was
    /// itself unreadable.
    pub subject: String,
    /// The recoverable error that caused the skip.
    pub reason: Error,
}

/// The mathematical value of a `Diagnostic`.
#[verifier::ext_equal]
pub struct DiagnosticView {
    pub subject: Seq<char>,
    pub reason: ErrorView,
}

impl View for Diagnostic {
    type V = DiagnosticView;

    open spec fn view(&self) -> DiagnosticView {
        DiagnosticView { subject: self.subject@, reason: self.reason@ }
    }
}

/// A raw author, committer, or tagger record as the repository holds it.
pub struct RawSignature {
    /// The name, or `None` where its bytes are not valid UTF-8.
    pub name: Option<String>,
    /// The email, or `None` where its bytes are not valid UTF-8.
    pub email: Option<String>,
    /// The record's UTC instant, in seconds since the epoch.
    pub time: i64,
}

/// The mathematical value of a `RawSignature`.
#[verifier::ext_equal]
pub struct RawSignatureView {
    pub name: Option<Seq<char>>,
    pub email: Option<Seq<char>>,
    pub time: int,
}

impl View for RawSignature {
    type V = RawSignatureView;

    open spec fn view(&self) -> RawSignatureView {
        RawSignatureView {
            name: match self.name {
                Some(n) => Some(n@),
                None => None,
            },
            email: match self.email {
                Some(e) => Some(e@),
                None => None,
            },
            time: self.time as int,
        }
    }
}

/// A raw commit object as the repository holds it.
pub struct RawCommit {
    /// The full hash, in hex.
    pub id: String,
    /// The abbreviated hash: `Err` with the underlying message where the
    /// repository could not compute it, `Ok(None)` where its bytes are not
    /// valid UTF-8.
    pub short_id: Result<Option<String>, String>,
    /// The message, or `None` where its bytes are not valid UTF-8.
    pub message: Option<String>,
    /// The author record.
    pub author: RawSignature,
    /// The committer record.
    pub committer: RawSignature,
    /// The commit's UTC instant, in seconds since the epoch.
    pub time: i64,
}

/// The mathematical value of a `RawCommit`.
#[verifier::ext_equal]
pub struct RawCommitView {
    pub id: Seq<char>,
    pub short_id: Result<Option<Seq<char>>, Seq<char>>,
    pub message: Option<Seq<char>>,
    pub author: RawSignatureView,
    pub committer: RawSignatureView,
    pub time: int,
}

impl View for RawCommit {
    type V = RawCommitView;

    open spec fn view(&self) -> RawCommitView {
        RawCommitView {
            id: self.id@,
            short_id: match self.short_id {
                Ok(Some(s)) => Ok(Some(s@)),
                Ok(None) => Ok(None),
                Err(m) => Err(m@),
            },
            message: match self.message {
                Some(m) => Some(m@),
                None => None,
            },
            author: self.author@,
            committer: self.committer@,
            time: self.time as int,
        }
    }
}

/// The kind of object a ref resolved to.
pub enum ObjectKind {
    /// A commit object.
    Commit,
    /// A tree object.
    Tree,
    /// A blob object.
    Blob,
    /// An annotated tag object.
    Tag,
}

/// A raw annotated tag object as the repository holds it.
pub struct RawTag {
    /// The hash of the tag object itself, in hex.
    pub id: String,
    /// The tag's embedded name, or `None` where its bytes are not valid
    /// UTF-8.
    pub name: Option<String>,
    /// The tag message, or `None` where there is none or its bytes are not
    /// valid UTF-8.
    pub message: Option<String>,
    /// The kind of the tag's target object, where the repository could tell
    /// it.
    pub target_kind: Option<ObjectKind>,
    /// The tagger record, where the tag carries one.
    pub tagger: Option<RawSignature>,
    /// The target object read as a commit: `Err` with the underlying
    /// message where the repository could not hand it out.
    pub target: Result<RawCommit, String>,
}

/// The mathematical value of a `RawTag`.
#[verifier::ext_equal]
pub struct RawTagView {
    pub id: Seq<char>,
    pub name: Option<Seq<char>>,
    pub message: Option<Seq<char>>,
    pub target_kind: Option<ObjectKind>,
    pub tagger: Option<RawSignatureView>,
    pub target: Result<RawCommitView, Seq<char>>,
}

impl View for RawTag {
    type V = RawTagView;

    open spec fn view(&self) -> RawTagView {
        RawTagView {
            id: self.id@,
            name: match self.name {
                Some(n) => Some(n@),
                None => None,
            },
            message: match self.message {
                Some(m) => Some(m@),
                None => None,
            },
            target_kind: self.target_kind,
            tagger: match self.tagger {
                Some(s) => Some(s@),
                None => None,
            },
            target: match self.target {
                Ok(c) => Ok(c@),
                Err(m) => Err(m@),
            },
        }
    }
}

/// One step of the commit walk, as the repository host saw it.
pub enum RawWalkEntry {
    /// The walk itself failed with the underlying message.
    WalkErr(String),
    /// The walk yielded an object id, and fetching it as a commit gave the
    /// carried result.
    Resolved(String, Result<RawCommit, String>),
}

/// The mathematical value of a `RawWalkEntry`.
#[verifier::ext_equal]
pub enum RawWalkEntryView {
    WalkErr(Seq<char>),
    Resolved(Seq<char>, Result<RawCommitView, Seq<char>>),
}

impl View for RawWalkEntry {
    type V = RawWalkEntryView;

    open spec fn view(&self) -> RawWalkEntryView {
        match self {
            RawWalkEntry::WalkErr(m) => RawWalkEntryView::WalkErr(m@),
            RawWalkEntry::Resolved(oid, r) => RawWalkEntryView::Resolved(
                oid@,
                match r {
                    Ok(c) => Ok(c@),
                    Err(m) => Err(m@),
                },
            ),
        }
    }
}

/// What a tag ref resolved to.
pub enum RawObject {
    /// An annotated tag object.
    TagObject(RawTag),
    /// A commit: the ref is a lightweight tag.
    CommitObject(RawCommit),
    /// Anything else: the ref database is inconsistent.
    OtherObject,
}

/// The mathematical value of a `RawObject`.
#[verifier::ext_equal]
pub enum RawObjectView {
    TagObject(RawTagView),
    CommitObject(RawCommitView),
    OtherObject,
}

impl View for RawObject {
    type V = RawObjectView;

    open spec fn view(&self) -> RawObjectView {
        match self {
            RawObject::TagObject(t) => RawObjectView::TagObject(t@),
            RawObject::CommitObject(c) => RawObjectView::CommitObject(c@),
            RawObject::OtherObject => RawObjectView::OtherObject,
        }
    }
}

/// One enumerated tag ref, as the repository host saw it.
pub enum RawTagEntry {
    /// The ref name's bytes are not valid UTF-8.
    BadName,
    /// The ref name, and the result of resolving it to an object: `Err`
    /// with the underlying message where resolution failed.
    Resolved(String, Result<RawObject, String>),
}

/// The mathematical value of a `RawTagEntry`.
#[verifier::ext_equal]
pub enum RawTagEntryView {
    BadName,
    Resolved(Seq<char>, Result<RawObjectView, Seq<char>>),
}

impl View for RawTagEntry {
    type V = RawTagEntryView;

    open spec fn view(&self) -> RawTagEntryView {
        match self {
            RawTagEntry::BadName => RawTagEntryView::BadName,
            RawTagEntry::Resolved(name, r) => RawTagEntryView::Resolved(
                name@,
                match r {
                    Ok(o) => Ok(o@),
                    Err(m) => Err(m@),
                },
            ),
        }
    }
}

} // verus!
