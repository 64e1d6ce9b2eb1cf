//! The tag collector: both tag shapes, version parsing, the skip/fail
//! policy, and the version sort.

use jilu::tags;
use jilu::Error;
use jilu::ObjectKind;
use jilu::RawCommit;
use jilu::RawObject;
use jilu::RawSignature;
use jilu::RawTag;
use jilu::RawTagEntry;
use jilu::Tag;

fn sig(name: &str, email: &str, time: i64) -> RawSignature {
    RawSignature {
        name: Some(name.to_string()),
        email: Some(email.to_string()),
        time,
    }
}

fn raw_commit(id: &str, short: &str, msg: &str) -> RawCommit {
    RawCommit {
        id: id.to_string(),
        short_id: Ok(Some(short.to_string())),
        message: Some(msg.to_string()),
        author: sig("Alice", "alice@example.org", 100),
        committer: sig("Bob", "bob@example.org", 200),
        time: 200,
    }
}

fn lightweight(name: &str, rc: RawCommit) -> RawTagEntry {
    RawTagEntry::Resolved(name.to_string(), Ok(RawObject::CommitObject(rc)))
}

fn annotated(name: &str, raw: RawTag) -> RawTagEntry {
    RawTagEntry::Resolved(name.to_string(), Ok(RawObject::TagObject(raw)))
}

fn raw_tag(id: &str, name: &str, msg: &str) -> RawTag {
    RawTag {
        id: id.to_string(),
        name: Some(name.to_string()),
        message: Some(msg.to_string()),
        target_kind: Some(ObjectKind::Commit),
        tagger: Some(sig("Tessa", "tessa@example.org", 300)),
        target: Ok(raw_commit("ccc1000", "ccc1", "release work\n")),
    }
}

fn names(list: &[Tag]) -> Vec<&str> {
    list.iter().map(|t| t.name.as_str()).collect()
}

#[test]
fn lightweight_tag_uses_commit_author() {
    let rc = raw_commit("abc1000", "abc1", "the release commit");
    let (res, diags) = tags(vec![lightweight("v1.0.0", rc)]);
    let list = res.unwrap();
    assert_eq!(list.len(), 1);
    let tag = &list[0];
    assert_eq!(tag.name, "v1.0.0");
    assert_eq!(tag.id, "abc1000");
    assert!(tag.message.is_none());
    let tagger = tag.tagger.as_ref().expect("lightweight tag must carry a tagger");
    assert_eq!(tagger.name, "Alice");
    assert_eq!(tagger.email, "alice@example.org");
    assert_eq!(tagger.time, 100);
    assert_eq!(tagger.name, tag.commit.author.name);
    assert_eq!(tagger.email, tag.commit.author.email);
    assert_eq!(tagger.time, tag.commit.author.time);
    assert_eq!(tag.version.major(), 1);
    assert_eq!(tag.version.minor(), 0);
    assert_eq!(tag.version.patch(), 0);
    assert!(diags.is_empty());
}

#[test]
fn annotated_tag_keeps_message_verbatim() {
    let (res, _) = tags(vec![annotated("v2.1.0", raw_tag("tag9000", "v2.1.0", "notes\n"))]);
    let list = res.unwrap();
    assert_eq!(list.len(), 1);
    let tag = &list[0];
    assert_eq!(tag.id, "tag9000");
    assert_eq!(tag.name, "v2.1.0");
    assert_eq!(tag.message.as_deref(), Some("notes\n"));
    let tagger = tag.tagger.as_ref().expect("annotated tag keeps its tagger");
    assert_eq!(tagger.name, "Tessa");
    assert_eq!(tag.commit.id, "ccc1000");
    assert_eq!(tag.commit.message, "release work");
    assert_eq!(tag.version.major(), 2);
    assert_eq!(tag.version.minor(), 1);
}

#[test]
fn non_version_ref_is_silently_skipped() {
    let entries = vec![
        lightweight("not-a-version", raw_commit("abc1000", "abc1", "one")),
        lightweight("v0.1.0", raw_commit("def2000", "def2", "two")),
    ];
    let (res, diags) = tags(entries);
    let list = res.unwrap();
    assert_eq!(names(&list), vec!["v0.1.0"]);
    assert_eq!(diags.len(), 1);
    assert_eq!(diags[0].subject, "not-a-version");
    assert!(matches!(diags[0].reason, Error::SemVer));
}

#[test]
fn version_needs_exactly_one_optional_v() {
    let entries = vec![
        lightweight("vv1.0.0", raw_commit("abc1000", "abc1", "one")),
        lightweight("1.4.2", raw_commit("def2000", "def2", "two")),
    ];
    let (res, diags) = tags(entries);
    let list = res.unwrap();
    assert_eq!(names(&list), vec!["1.4.2"]);
    assert_eq!(diags.len(), 1);
    assert_eq!(diags[0].subject, "vv1.0.0");
}

#[test]
fn annotated_tag_on_tree_is_fatal() {
    let mut bad = raw_tag("tag1000", "v1.0.0", "notes");
    bad.target_kind = Some(ObjectKind::Tree);
    let entries = vec![
        lightweight("v0.1.0", raw_commit("abc1000", "abc1", "fine")),
        annotated("v1.0.0", bad),
    ];
    let (res, _) = tags(entries);
    assert!(matches!(res, Err(Error::InvalidTag)));
}

#[test]
fn annotated_tag_with_unknown_target_kind_is_fatal() {
    let mut bad = raw_tag("tag1000", "v1.0.0", "notes");
    bad.target_kind = None;
    let (res, _) = tags(vec![annotated("v1.0.0", bad)]);
    assert!(matches!(res, Err(Error::InvalidTag)));
}

#[test]
fn tags_sorted_ascending_by_version() {
    let entries = vec![
        lightweight("v1.0.0", raw_commit("a1", "a", "one")),
        lightweight("v0.9.0", raw_commit("b2", "b", "two")),
        lightweight("v1.0.0-alpha", raw_commit("c3", "c", "three")),
        lightweight("v0.10.0", raw_commit("d4", "d", "four")),
    ];
    let (res, diags) = tags(entries);
    let list = res.unwrap();
    assert_eq!(names(&list), vec!["v0.9.0", "v0.10.0", "v1.0.0-alpha", "v1.0.0"]);
    assert!(diags.is_empty());
}

#[test]
fn tags_with_equal_versions_keep_traversal_order() {
    let entries = vec![
        lightweight("v0.2.0", raw_commit("z9", "z", "later version first")),
        lightweight("1.0.0", raw_commit("a1", "a", "bare name")),
        lightweight("v1.0.0", raw_commit("b2", "b", "v name")),
    ];
    let (res, _) = tags(entries);
    let list = res.unwrap();
    assert_eq!(names(&list), vec!["v0.2.0", "1.0.0", "v1.0.0"]);
}

#[test]
fn version_fields_parsed_from_name() {
    let (res, _) = tags(vec![lightweight("v1.2.3-alpha.1+build.7", raw_commit("a1", "a", "m"))]);
    let list = res.unwrap();
    let v = &list[0].version;
    assert_eq!(v.major(), 1);
    assert_eq!(v.minor(), 2);
    assert_eq!(v.patch(), 3);
    assert_eq!(v.pre(), "alpha.1");
    assert_eq!(v.build(), "build.7");
}

#[test]
fn unreadable_ref_name_is_skipped() {
    let entries = vec![RawTagEntry::BadName, lightweight("v0.1.0", raw_commit("a1", "a", "m"))];
    let (res, diags) = tags(entries);
    let list = res.unwrap();
    assert_eq!(names(&list), vec!["v0.1.0"]);
    assert_eq!(diags.len(), 1);
    assert_eq!(diags[0].subject, "");
    assert!(matches!(diags[0].reason, Error::Utf8Error));
}

#[test]
fn unreadable_tag_object_name_is_skipped() {
    let mut bad = raw_tag("tag1000", "v1.0.0", "notes");
    bad.name = None;
    let (res, diags) = tags(vec![annotated("v1.0.0", bad)]);
    assert!(res.unwrap().is_empty());
    assert_eq!(diags.len(), 1);
    assert_eq!(diags[0].subject, "v1.0.0");
    assert!(matches!(diags[0].reason, Error::Utf8Error));
}

#[test]
fn unreadable_tagger_is_skipped() {
    let mut bad = raw_tag("tag1000", "v1.0.0", "notes");
    bad.tagger = Some(RawSignature {
        name: Some("Tessa".to_string()),
        email: None,
        time: 300,
    });
    let (res, diags) = tags(vec![annotated("v1.0.0", bad)]);
    assert!(res.unwrap().is_empty());
    assert_eq!(diags.len(), 1);
    assert!(matches!(diags[0].reason, Error::Utf8Error));
}

#[test]
fn annotated_tag_without_tagger_keeps_none() {
    let mut raw = raw_tag("tag1000", "v1.0.0", "notes");
    raw.tagger = None;
    let (res, _) = tags(vec![annotated("v1.0.0", raw)]);
    let list = res.unwrap();
    assert_eq!(list.len(), 1);
    assert!(list[0].tagger.is_none());
}

#[test]
fn annotated_tag_without_message_keeps_none() {
    let mut raw = raw_tag("tag1000", "v1.0.0", "unused");
    raw.message = None;
    let (res, _) = tags(vec![annotated("v1.0.0", raw)]);
    let list = res.unwrap();
    assert_eq!(list.len(), 1);
    assert!(list[0].message.is_none());
}

#[test]
fn annotated_tag_with_unreadable_target_message_is_skipped() {
    let mut raw = raw_tag("tag1000", "v1.0.0", "notes");
    if let Ok(rc) = &mut raw.target {
        rc.message = None;
    }
    let (res, diags) = tags(vec![annotated("v1.0.0", raw)]);
    assert!(res.unwrap().is_empty());
    assert_eq!(diags.len(), 1);
    assert_eq!(diags[0].subject, "v1.0.0");
    assert!(matches!(diags[0].reason, Error::Utf8Error));
}

#[test]
fn resolve_error_is_fatal() {
    let entries = vec![RawTagEntry::Resolved(
        "v1.0.0".to_string(),
        Err("ref points nowhere".to_string()),
    )];
    let (res, _) = tags(entries);
    match res {
        Err(Error::Repo(m)) => assert_eq!(m, "ref points nowhere"),
        _ => panic!("expected a fatal repository error"),
    }
}

#[test]
fn unexpected_object_kind_is_fatal() {
    let entries = vec![RawTagEntry::Resolved("v1.0.0".to_string(), Ok(RawObject::OtherObject))];
    let (res, _) = tags(entries);
    assert!(matches!(res, Err(Error::Repo(_))));
}

#[test]
fn target_fetch_error_is_fatal() {
    let mut bad = raw_tag("tag1000", "v1.0.0", "notes");
    bad.target = Err("target object missing".to_string());
    let (res, _) = tags(vec![annotated("v1.0.0", bad)]);
    match res {
        Err(Error::Repo(m)) => assert_eq!(m, "target object missing"),
        _ => panic!("expected a fatal repository error"),
    }
}

#[test]
fn collector_on_no_refs() {
    let (res, diags) = tags(Vec::new());
    assert!(res.unwrap().is_empty());
    assert!(diags.is_empty());
}

#[test]
fn collector_twice_yields_identical_sequences() {
    let build = || {
        vec![
            lightweight("v0.2.0", raw_commit("z9", "z", "two")),
            lightweight("v0.1.0", raw_commit("a1", "a", "one")),
            lightweight("broken", raw_commit("b2", "b", "skipped")),
        ]
    };
    let (r1, d1) = tags(build());
    let (r2, d2) = tags(build());
    let l1 = r1.unwrap();
    let l2 = r2.unwrap();
    assert_eq!(names(&l1), names(&l2));
    for i in 0..l1.len() {
        assert_eq!(l1[i].id, l2[i].id);
        assert_eq!(l1[i].commit.id, l2[i].commit.id);
    }
    assert_eq!(d1.len(), d2.len());
    for i in 0..d1.len() {
        assert_eq!(d1[i].subject, d2[i].subject);
    }
}

#[test]
fn error_descriptions_name_the_kind() {
    assert_eq!(Error::Utf8Error.describe(), "invalid UTF-8 text");
    assert_eq!(Error::SemVer.describe(), "ref name is not a semantic version");
    assert_eq!(Error::InvalidTag.describe(), "tag does not point at a commit");
    assert_eq!(
        Error::Repo("oops".to_string()).describe(),
        "repository error: oops"
    );
}
