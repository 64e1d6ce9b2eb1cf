//! The commit walker: conversion, ordering, and the skip/fail policy.

use jilu::commits;
use jilu::Commit;
use jilu::Error;
use jilu::RawCommit;
use jilu::RawSignature;
use jilu::RawWalkEntry;

fn sig(name: &str, email: &str, time: i64) -> RawSignature {
    RawSignature {
        name: Some(name.to_string()),
        email: Some(email.to_string()),
        time,
    }
}

fn raw_commit(id: &str, short: &str, msg: &str) -> RawCommit {
    RawCommit {
        id: id.to_string(),
        short_id: Ok(Some(short.to_string())),
        message: Some(msg.to_string()),
        author: sig("Alice", "alice@example.org", 100),
        committer: sig("Bob", "bob@example.org", 200),
        time: 200,
    }
}

fn entry(oid: &str, rc: RawCommit) -> RawWalkEntry {
    RawWalkEntry::Resolved(oid.to_string(), Ok(rc))
}

fn commit_eq(a: &Commit, b: &Commit) -> bool {
    a.id == b.id
        && a.short_id == b.short_id
        && a.message == b.message
        && a.time == b.time
        && a.author.name == b.author.name
        && a.author.email == b.author.email
        && a.author.time == b.author.time
        && a.committer.name == b.committer.name
        && a.committer.email == b.committer.email
        && a.committer.time == b.committer.time
}

#[test]
fn walker_returns_commits_in_order() {
    let entries = vec![
        entry("aaa1", raw_commit("aaa1000", "aaa1", "first change")),
        entry("bbb2", raw_commit("bbb2000", "bbb2", "second change")),
    ];
    let (res, diags) = commits(entries);
    let list = res.unwrap();
    assert_eq!(list.len(), 2);
    assert_eq!(list[0].id, "aaa1000");
    assert_eq!(list[0].short_id, "aaa1");
    assert_eq!(list[0].message, "first change");
    assert_eq!(list[0].time, 200);
    assert_eq!(list[0].author.name, "Alice");
    assert_eq!(list[0].author.email, "alice@example.org");
    assert_eq!(list[0].author.time, 100);
    assert_eq!(list[0].committer.name, "Bob");
    assert_eq!(list[1].id, "bbb2000");
    assert!(diags.is_empty());
}

#[test]
fn walker_trims_trailing_whitespace() {
    let entries = vec![entry("c1", raw_commit("c1000", "c1", "feat: add thing\n\n  \t\n"))];
    let (res, _) = commits(entries);
    let list = res.unwrap();
    assert_eq!(list[0].message, "feat: add thing");
}

#[test]
fn walker_keeps_leading_and_internal_whitespace() {
    let entries = vec![entry("c1", raw_commit("c1000", "c1", "  subject\n\nbody line\n"))];
    let (res, _) = commits(entries);
    let list = res.unwrap();
    assert_eq!(list[0].message, "  subject\n\nbody line");
}

#[test]
fn walker_skips_commit_with_unreadable_message() {
    let mut bad = raw_commit("bad5000", "bad5", "unused");
    bad.message = None;
    let entries = vec![
        entry("aaa1", raw_commit("aaa1000", "aaa1", "first")),
        entry("bad5", bad),
        entry("ccc3", raw_commit("ccc3000", "ccc3", "third")),
    ];
    let (res, diags) = commits(entries);
    let list = res.unwrap();
    assert_eq!(list.len(), 2);
    assert_eq!(list[0].id, "aaa1000");
    assert_eq!(list[1].id, "ccc3000");
    assert_eq!(diags.len(), 1);
    assert_eq!(diags[0].subject, "bad5");
    assert!(matches!(diags[0].reason, Error::Utf8Error));
}

#[test]
fn walker_skips_commit_with_unreadable_author() {
    let mut bad = raw_commit("bad7000", "bad7", "msg");
    bad.author.name = None;
    let entries = vec![entry("bad7", bad), entry("aaa1", raw_commit("aaa1000", "aaa1", "ok"))];
    let (res, diags) = commits(entries);
    let list = res.unwrap();
    assert_eq!(list.len(), 1);
    assert_eq!(list[0].id, "aaa1000");
    assert_eq!(diags.len(), 1);
    assert!(matches!(diags[0].reason, Error::Utf8Error));
}

#[test]
fn walker_skips_commit_with_unreadable_short_id() {
    let mut bad = raw_commit("bad9000", "bad9", "msg");
    bad.short_id = Ok(None);
    let entries = vec![entry("bad9", bad)];
    let (res, diags) = commits(entries);
    assert!(res.unwrap().is_empty());
    assert_eq!(diags.len(), 1);
    assert!(matches!(diags[0].reason, Error::Utf8Error));
}

#[test]
fn walker_fails_on_walk_error() {
    let entries = vec![
        entry("aaa1", raw_commit("aaa1000", "aaa1", "ok")),
        RawWalkEntry::WalkErr("object database is corrupt".to_string()),
        entry("ccc3", raw_commit("ccc3000", "ccc3", "never reached")),
    ];
    let (res, _) = commits(entries);
    match res {
        Err(Error::Repo(m)) => assert_eq!(m, "object database is corrupt"),
        _ => panic!("expected a fatal repository error"),
    }
}

#[test]
fn walker_fails_on_fetch_error() {
    let entries =
        vec![RawWalkEntry::Resolved("aaa1".to_string(), Err("missing object".to_string()))];
    let (res, _) = commits(entries);
    match res {
        Err(Error::Repo(m)) => assert_eq!(m, "missing object"),
        _ => panic!("expected a fatal repository error"),
    }
}

#[test]
fn walker_fails_on_short_id_error() {
    let mut bad = raw_commit("bad0000", "bad0", "msg");
    bad.short_id = Err("refs are unreadable".to_string());
    let entries = vec![entry("bad0", bad)];
    let (res, _) = commits(entries);
    match res {
        Err(Error::Repo(m)) => assert_eq!(m, "refs are unreadable"),
        _ => panic!("expected a fatal repository error"),
    }
}

#[test]
fn walker_on_empty_history() {
    let (res, diags) = commits(Vec::new());
    assert!(res.unwrap().is_empty());
    assert!(diags.is_empty());
}

#[test]
fn walker_short_ids_are_strict_prefixes() {
    let entries = vec![
        entry("aaa1", raw_commit("aaa1000", "aaa1", "one")),
        entry("bbb2", raw_commit("bbb2000", "bbb", "two")),
    ];
    let (res, _) = commits(entries);
    let list = res.unwrap();
    for c in &list {
        assert!(c.short_id.len() < c.id.len());
        assert!(c.id.starts_with(c.short_id.as_str()));
    }
}

#[test]
fn walker_twice_yields_identical_sequences() {
    let build = || {
        vec![
            entry("aaa1", raw_commit("aaa1000", "aaa1", "one\n")),
            entry("bbb2", raw_commit("bbb2000", "bbb2", "two")),
        ]
    };
    let (r1, d1) = commits(build());
    let (r2, d2) = commits(build());
    let l1 = r1.unwrap();
    let l2 = r2.unwrap();
    assert_eq!(l1.len(), l2.len());
    for i in 0..l1.len() {
        assert!(commit_eq(&l1[i], &l2[i]));
    }
    assert_eq!(d1.len(), d2.len());
}
