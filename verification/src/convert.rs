//! The three converters: raw signature, commit, and tag records become
//! validated ones or fail with the error that decides their fate in the
//! pipelines.

use crate::model::Commit;
use crate::model::CommitView;
use crate::model::ObjectKind;
use crate::model::RawCommit;
use crate::model::RawCommitView;
use crate::model::RawSignature;
use crate::model::RawSignatureView;
use crate::model::RawTag;
use crate::model::RawTagView;
use crate::model::Signature;
use crate::model::SignatureView;
use crate::model::Tag;
use crate::model::TagView;
use crate::res_view;
use crate::text::spec_strip_v;
use crate::text::spec_trim_end;
use crate::text::strip_v_str;
use crate::text::trim_end_str;
use crate::version::semver_of;
use crate::version::Semver;
use crate::Error;
use crate::ErrorView;
use vstd::prelude::*;

verus! {

/// What converting a raw signature returns: `Utf8Error` where the name or
/// the email is unreadable, else the validated record with the same instant.
pub open spec fn spec_signature(raw: RawSignatureView) -> Result<SignatureView, ErrorView> {
    match (raw.name, raw.email) {
        (Some(n), Some(e)) => Ok(SignatureView { name: n, email: e, time: raw.time }),
        _ => Err(ErrorView::Utf8Error),
    }
}

/// `spec_signature` lifted over an optional record, as a tagger is.
pub open spec fn spec_signature_opt(o: Option<RawSignatureView>) -> Result<
    Option<SignatureView>,
    ErrorView,
> {
    match o {
        None => Ok(None),
        Some(raw) => match spec_signature(raw) {
            Ok(s) => Ok(Some(s)),
            Err(e) => Err(e),
        },
    }
}

/// What converting a raw commit returns, in the order the checks run: a
/// failed short-id computation is a fatal repository error; an unreadable
/// short id, message, author, or committer is `Utf8Error`; otherwise the
/// validated commit, its message trimmed of trailing white space.
pub open spec fn spec_commit(raw: RawCommitView) -> Result<CommitView, ErrorView> {
    match raw.short_id {
        Err(m) => Err(ErrorView::Repo(m)),
        Ok(None) => Err(ErrorView::Utf8Error),
        Ok(Some(sid)) => match raw.message {
            None => Err(ErrorView::Utf8Error),
            Some(msg) => match spec_signature(raw.author) {
                Err(e) => Err(e),
                Ok(a) => match spec_signature(raw.committer) {
                    Err(e) => Err(e),
                    Ok(c) => Ok(
                        CommitView {
                            id: raw.id,
                            short_id: sid,
                            message: spec_trim_end(msg),
                            time: raw.time,
                            author: a,
                            committer: c,
                        },
                    ),
                },
            },
        },
    }
}

/// What converting an annotated tag object returns, in the order the checks
/// run: `InvalidTag` where the target is not a commit, `Utf8Error` where the
/// name is unreadable, `SemVer` where the name (stripped of an optional
/// leading `v`) does not parse, then the tagger's and the target commit's
/// own conversions; the message is kept verbatim.
pub open spec fn spec_tag_annotated(raw: RawTagView) -> Result<TagView, ErrorView> {
    if raw.target_kind != Some(ObjectKind::Commit) {
        Err(ErrorView::InvalidTag)
    } else {
        match raw.name {
            None => Err(ErrorView::Utf8Error),
            Some(name) => match semver_of(spec_strip_v(name)) {
                None => Err(ErrorView::SemVer),
                Some(ver) => match spec_signature_opt(raw.tagger) {
                    Err(e) => Err(e),
                    Ok(tagger) => match raw.target {
                        Err(m) => Err(ErrorView::Repo(m)),
                        Ok(rc) => match spec_commit(rc) {
                            Err(e) => Err(e),
                            Ok(c) => Ok(
                                TagView {
                                    id: raw.id,
                                    message: raw.message,
                                    name,
                                    version: ver,
                                    tagger,
                                    commit: c,
                                },
                            ),
                        },
                    },
                },
            },
        }
    }
}

/// What converting a lightweight tag — a ref name pointing straight at a
/// commit — returns: `SemVer` where the stripped name does not parse, then
/// the target commit's conversion, its author standing in as the tagger;
/// there is no message, and the id is the target commit's hash.
pub open spec fn spec_tag_lightweight(name: Seq<char>, raw: RawCommitView) -> Result<
    TagView,
    ErrorView,
> {
    match semver_of(spec_strip_v(name)) {
        None => Err(ErrorView::SemVer),
        Some(ver) => match spec_signature(raw.author) {
            Err(e) => Err(e),
            Ok(author) => match spec_commit(raw) {
                Err(e) => Err(e),
                Ok(c) => Ok(
                    TagView {
                        id: raw.id,
                        message: None,
                        name,
                        version: ver,
                        tagger: Some(author),
                        commit: c,
                    },
                ),
            },
        },
    }
}

impl Signature {
    /// Validate a raw author, committer, or tagger record.
    pub fn try_from_raw(raw: RawSignature) -> (r: Result<Signature, Error>)
        ensures
            res_view(r) == spec_signature(raw@),
    {
        let RawSignature { name, email, time } = raw;
        match (name, email) {
            (Some(n), Some(e)) => Ok(Signature { name: n, email: e, time }),
            _ => Err(Error::Utf8Error),
        }
    }
}

/// A copy of a raw signature record, so that a lightweight tag can use the
/// author both as tagger and inside the commit's own conversion.
fn clone_raw_signature(r: &RawSignature) -> (c: RawSignature)
    ensures
        c@ == r@,
{
    RawSignature {
        name: match &r.name {
            Some(n) => Some(n.clone()),
            None => None,
        },
        email: match &r.email {
            Some(e) => Some(e.clone()),
            None => None,
        },
        time: r.time,
    }
}

impl Commit {
    /// Validate a raw commit object.
    pub fn try_from_raw(raw: RawCommit) -> (r: Result<Commit, Error>)
        ensures
            res_view(r) == spec_commit(raw@),
    {
        let RawCommit { id, short_id, message, author, committer, time } = raw;
        let sid = match short_id {
            Err(m) => {
                return Err(Error::Repo(m));
            },
            Ok(None) => {
                return Err(Error::Utf8Error);
            },
            Ok(Some(s)) => s,
        };
        let msg = match message {
            None => {
                return Err(Error::Utf8Error);
            },
            Some(m) => m,
        };
        let trimmed = trim_end_str(msg.as_str());
        let a = match Signature::try_from_raw(author) {
            Ok(a) => a,
            Err(e) => {
                return Err(e);
            },
        };
        let c = match Signature::try_from_raw(committer) {
            Ok(c) => c,
            Err(e) => {
                return Err(e);
            },
        };
        Ok(Commit { id, short_id: sid, message: trimmed, time, author: a, committer: c })
    }
}

impl Tag {
    /// Validate an annotated tag object.
    pub fn from_annotated(raw: RawTag) -> (r: Result<Tag, Error>)
        ensures
            res_view(r) == spec_tag_annotated(raw@),
    {
        let RawTag { id, name, message, target_kind, tagger, target } = raw;
        match target_kind {
            Some(ObjectKind::Commit) => {},
            _ => {
                return Err(Error::InvalidTag);
            },
        }
        let name = match name {
            None => {
                return Err(Error::Utf8Error);
            },
            Some(n) => n,
        };
        let version = match Semver::parse(strip_v_str(name.as_str())) {
            None => {
                return Err(Error::SemVer);
            },
            Some(v) => v,
        };
        let tagger_sig = match tagger {
            None => None,
            Some(rs) => match Signature::try_from_raw(rs) {
                Ok(s) => Some(s),
                Err(e) => {
                    return Err(e);
                },
            },
        };
        let rc = match target {
            Err(m) => {
                return Err(Error::Repo(m));
            },
            Ok(rc) => rc,
        };
        let commit = match Commit::try_from_raw(rc) {
            Ok(c) => c,
            Err(e) => {
                return Err(e);
            },
        };
        Ok(Tag { id, message, name, version, tagger: tagger_sig, commit })
    }

    /// Validate a lightweight tag: a ref name pointing straight at a commit.
    pub fn from_lightweight(name: String, commit: RawCommit) -> (r: Result<Tag, Error>)
        ensures
            res_view(r) == spec_tag_lightweight(name@, commit@),
    {
        let version = match Semver::parse(strip_v_str(name.as_str())) {
            None => {
                return Err(Error::SemVer);
            },
            Some(v) => v,
        };
        let id = commit.id.clone();
        let author = clone_raw_signature(&commit.author);
        let tagger = match Signature::try_from_raw(author) {
            Ok(s) => Some(s),
            Err(e) => {
                return Err(e);
            },
        };
        let target = match Commit::try_from_raw(commit) {
            Ok(c) => c,
            Err(e) => {
                return Err(e);
            },
        };
        Ok(Tag { id, message: None, name, version, tagger, commit: target })
    }
}

} // verus!
