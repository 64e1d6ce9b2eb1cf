//! The two pipelines: the commit walker and the tag collector.
//!
//! Both fold a sequence of raw entries through the per-entry skip/fail
//! policy: a recoverable error (`Utf8Error`, and for tags `SemVer`) skips
//! the entry and leaves a diagnostic; any other error aborts the whole run
//! with no partial result. The tag collector then orders the survivors by
//! semantic version with a stable insertion.

use crate::convert::spec_commit;
use crate::convert::spec_tag_annotated;
use crate::convert::spec_tag_lightweight;
use crate::model::Commit;
use crate::model::CommitView;
use crate::model::Diagnostic;
use crate::model::DiagnosticView;
use crate::model::RawObject;
use crate::model::RawObjectView;
use crate::model::RawTagEntry;
use crate::model::RawTagEntryView;
use crate::model::RawWalkEntry;
use crate::model::RawWalkEntryView;
use crate::model::Tag;
use crate::model::TagView;
use crate::version::semver_precedes;
use crate::views;
use crate::Error;
use crate::ErrorView;
use vstd::prelude::*;

verus! {

/// The fate of one raw entry under the filtering policy: kept as a
/// validated record, skipped with a diagnostic, or fatal for the whole run.
pub enum StepView<T> {
    Keep(T),
    Skip(DiagnosticView),
    Abort(ErrorView),
}

/// The policy applied to one step of the commit walk: a walk or fetch
/// failure is fatal, an unreadable text field skips the commit (the
/// diagnostic names its id), any other conversion failure is fatal.
pub open spec fn spec_walk_step(e: RawWalkEntryView) -> StepView<CommitView> {
    match e {
        RawWalkEntryView::WalkErr(m) => StepView::Abort(ErrorView::Repo(m)),
        RawWalkEntryView::Resolved(oid, fetch) => match fetch {
            Err(m) => StepView::Abort(ErrorView::Repo(m)),
            Ok(rc) => match spec_commit(rc) {
                Ok(c) => StepView::Keep(c),
                Err(ErrorView::Utf8Error) => StepView::Skip(
                    DiagnosticView { subject: oid, reason: ErrorView::Utf8Error },
                ),
                Err(e) => StepView::Abort(e),
            },
        },
    }
}

/// What the commit walker returns on `entries`: the kept commits in walk
/// order and the skip diagnostics in walk order, or, at the first fatal
/// entry, that error alone beside the diagnostics left before it.
pub open spec fn spec_commits(entries: Seq<RawWalkEntryView>) -> (Result<
    Seq<CommitView>,
    ErrorView,
>, Seq<DiagnosticView>)
    decreases entries.len(),
{
    if entries.len() == 0 {
        (Ok(Seq::empty()), Seq::empty())
    } else {
        match spec_walk_step(entries[0]) {
            StepView::Abort(e) => (Err(e), Seq::empty()),
            StepView::Skip(d) => {
                let rest = spec_commits(entries.skip(1));
                (rest.0, seq![d] + rest.1)
            },
            StepView::Keep(c) => {
                let rest = spec_commits(entries.skip(1));
                (
                    match rest.0 {
                        Ok(s) => Ok(seq![c] + s),
                        Err(e) => Err(e),
                    },
                    rest.1,
                )
            },
        }
    }
}

/// The view of what `commits` returns.
pub open spec fn commits_result_view(r: (Result<Vec<Commit>, Error>, Vec<Diagnostic>)) -> (Result<
    Seq<CommitView>,
    ErrorView,
>, Seq<DiagnosticView>) {
    (
        match r.0 {
            Ok(v) => Ok(views(v@)),
            Err(e) => Err(e@),
        },
        views(r.1@),
    )
}

proof fn lemma_views_push<T: View>(s: Seq<T>, x: T)
    ensures
        views(s.push(x)) == views(s).push(x@),
{
    assert(views(s.push(x)) =~= views(s).push(x@));
}

proof fn lemma_cons_assoc<A>(a: Seq<A>, x: A, b: Seq<A>)
    ensures
        a + (seq![x] + b) == a.push(x) + b,
{
    assert(a + (seq![x] + b) =~= a.push(x) + b);
}

proof fn lemma_add_empty<A>(a: Seq<A>)
    ensures
        a + Seq::<A>::empty() == a,
{
    assert(a + Seq::<A>::empty() =~= a);
}

/// Taking the head of a sequence of records: the head's view heads the
/// views.
proof fn lemma_views_behead<T: View>(pre: Seq<T>, post: Seq<T>, x: T)
    requires
        pre.len() > 0,
        x == pre[0],
        post == pre.remove(0),
    ensures
        views(pre)[0] == x@,
        views(post) == views(pre).skip(1),
{
    assert(post =~= pre.skip(1));
    assert(views(post) =~= views(pre).skip(1));
}

/// Walk the given raw entries into the ordered sequence of validated
/// commits, oldest first, beside the diagnostics for the skipped ones.
///
/// A commit whose text fields are unreadable is skipped; the first fatal
/// entry ends the walk with its error and no commits at all.
#[verifier::loop_isolation(false)]
pub fn commits(entries: Vec<RawWalkEntry>) -> (r: (Result<Vec<Commit>, Error>, Vec<Diagnostic>))
    ensures
        commits_result_view(r) == spec_commits(views(entries@)),
{
    let ghost all = views(entries@);
    let mut rest = entries;
    let mut out: Vec<Commit> = Vec::new();
    let mut diags: Vec<Diagnostic> = Vec::new();
    while rest.len() > 0
        invariant
            spec_commits(all).0 == (match spec_commits(views(rest@)).0 {
                Ok(s) => Ok::<Seq<CommitView>, ErrorView>(views(out@) + s),
                Err(e) => Err::<Seq<CommitView>, ErrorView>(e),
            }),
            spec_commits(all).1 == views(diags@) + spec_commits(views(rest@)).1,
        decreases rest.len(),
    {
        let ghost rest_pre = rest@;
        let ghost pre = views(rest_pre);
        let e = rest.remove(0);
        proof {
            lemma_views_behead(rest_pre, rest@, e);
            assert(pre[0] == e@);
            assert(views(rest@) == pre.skip(1));
        }
        match e {
            RawWalkEntry::WalkErr(m) => {
                proof {
                    assert(spec_walk_step(pre[0]) == StepView::<CommitView>::Abort(
                        ErrorView::Repo(m@),
                    ));
                    lemma_add_empty(views(diags@));
                }
                return (Err(Error::Repo(m)), diags);
            },
            RawWalkEntry::Resolved(oid, fetch) => {
                let ghost oidv = oid@;
                match fetch {
                    Err(m) => {
                        proof {
                            assert(spec_walk_step(pre[0]) == StepView::<CommitView>::Abort(
                                ErrorView::Repo(m@),
                            ));
                            lemma_add_empty(views(diags@));
                        }
                        return (Err(Error::Repo(m)), diags);
                    },
                    Ok(rc) => {
                        let ghost rcv = rc@;
                        match Commit::try_from_raw(rc) {
                            Ok(c) => {
                                let ghost cv = c@;
                                let ghost out_pre = views(out@);
                                proof {
                                    lemma_views_push(out@, c);
                                }
                                out.push(c);
                                proof {
                                    assert(spec_walk_step(pre[0]) == StepView::<CommitView>::Keep(
                                        cv,
                                    ));
                                    assert(views(out@) == out_pre.push(cv));
                                    if spec_commits(pre.skip(1)).0 is Ok {
                                        let s = spec_commits(pre.skip(1)).0->Ok_0;
                                        lemma_cons_assoc(out_pre, cv, s);
                                    }
                                }
                            },
                            Err(err) => {
                                match err {
                                    Error::Utf8Error => {
                                        let ghost diags_pre = views(diags@);
                                        let d = Diagnostic {
                                            subject: oid,
                                            reason: Error::Utf8Error,
                                        };
                                        let ghost dv = d@;
                                        proof {
                                            lemma_views_push(diags@, d);
                                        }
                                        diags.push(d);
                                        proof {
                                            assert(spec_walk_step(pre[0])
                                                == StepView::<CommitView>::Skip(dv));
                                            assert(views(diags@) == diags_pre.push(dv));
                                            lemma_cons_assoc(
                                                diags_pre,
                                                dv,
                                                spec_commits(pre.skip(1)).1,
                                            );
                                        }
                                    },
                                    other => {
                                        proof {
                                            assert(spec_walk_step(pre[0])
                                                == StepView::<CommitView>::Abort(other@));
                                            lemma_add_empty(views(diags@));
                                        }
                                        return (Err(other), diags);
                                    },
                                }
                            },
                        }
                    },
                }
            },
        }
    }
    proof {
        assert(views(rest@) =~= Seq::<RawWalkEntryView>::empty());
        lemma_add_empty(views(out@));
        lemma_add_empty(views(diags@));
    }
    (Ok(out), diags)
}

/// The message a tag ref gets when it resolves to something that is neither
/// an annotated tag nor a commit: the ref database is inconsistent, which is
/// fatal.
pub open spec fn spec_bad_kind_message() -> Seq<char> {
    "tag ref resolved to an unexpected object kind"@
}

/// The policy applied to one enumerated tag ref: an unreadable ref name
/// skips it (with an empty subject in the diagnostic), a failed resolution
/// or an unexpected object kind is fatal, and a converted tag is kept unless
/// the conversion failed — recoverably (`Utf8Error`, `SemVer`), which skips
/// the ref, or fatally.
pub open spec fn spec_tag_step(e: RawTagEntryView) -> StepView<TagView> {
    match e {
        RawTagEntryView::BadName => StepView::Skip(
            DiagnosticView { subject: Seq::empty(), reason: ErrorView::Utf8Error },
        ),
        RawTagEntryView::Resolved(name, res) => match res {
            Err(m) => StepView::Abort(ErrorView::Repo(m)),
            Ok(obj) => {
                let conv = match obj {
                    RawObjectView::TagObject(rt) => spec_tag_annotated(rt),
                    RawObjectView::CommitObject(rc) => spec_tag_lightweight(name, rc),
                    RawObjectView::OtherObject => Err(ErrorView::Repo(spec_bad_kind_message())),
                };
                match conv {
                    Ok(t) => StepView::Keep(t),
                    Err(ErrorView::Utf8Error) => StepView::Skip(
                        DiagnosticView { subject: name, reason: ErrorView::Utf8Error },
                    ),
                    Err(ErrorView::SemVer) => StepView::Skip(
                        DiagnosticView { subject: name, reason: ErrorView::SemVer },
                    ),
                    Err(e) => StepView::Abort(e),
                }
            },
        },
    }
}

/// What collecting (before sorting) returns on `entries`: the kept tags in
/// traversal order and the skip diagnostics, or the first fatal error beside
/// the diagnostics left before it.
pub open spec fn spec_collect_tags(entries: Seq<RawTagEntryView>) -> (Result<
    Seq<TagView>,
    ErrorView,
>, Seq<DiagnosticView>)
    decreases entries.len(),
{
    if entries.len() == 0 {
        (Ok(Seq::empty()), Seq::empty())
    } else {
        match spec_tag_step(entries[0]) {
            StepView::Abort(e) => (Err(e), Seq::empty()),
            StepView::Skip(d) => {
                let rest = spec_collect_tags(entries.skip(1));
                (rest.0, seq![d] + rest.1)
            },
            StepView::Keep(t) => {
                let rest = spec_collect_tags(entries.skip(1));
                (
                    match rest.0 {
                        Ok(s) => Ok(seq![t] + s),
                        Err(e) => Err(e),
                    },
                    rest.1,
                )
            },
        }
    }
}

/// Stable insertion of `t` into `s` from the right: `t` goes after every
/// element that precedes it or ties with it, so equal versions keep their
/// traversal order.
pub open spec fn spec_insert_tag(s: Seq<TagView>, t: TagView) -> Seq<TagView>
    decreases s.len(),
{
    if s.len() == 0 {
        seq![t]
    } else if semver_precedes(s.last().version, t.version) {
        s.push(t)
    } else {
        spec_insert_tag(s.drop_last(), t).push(s.last())
    }
}

/// The stable sort of `s` by semantic version: each element inserted in
/// traversal order.
pub open spec fn spec_sort_tags(s: Seq<TagView>) -> Seq<TagView>
    decreases s.len(),
{
    if s.len() == 0 {
        Seq::empty()
    } else {
        spec_insert_tag(spec_sort_tags(s.drop_last()), s.last())
    }
}

/// What the tag collector returns on `entries`: the collected tags sorted
/// ascending by version, or the first fatal error; the diagnostics either
/// way.
pub open spec fn spec_tags(entries: Seq<RawTagEntryView>) -> (Result<
    Seq<TagView>,
    ErrorView,
>, Seq<DiagnosticView>) {
    let col = spec_collect_tags(entries);
    (
        match col.0 {
            Ok(s) => Ok(spec_sort_tags(s)),
            Err(e) => Err(e),
        },
        col.1,
    )
}

/// The view of what `tags` returns.
pub open spec fn tags_result_view(r: (Result<Vec<Tag>, Error>, Vec<Diagnostic>)) -> (Result<
    Seq<TagView>,
    ErrorView,
>, Seq<DiagnosticView>) {
    (
        match r.0 {
            Ok(v) => Ok(views(v@)),
            Err(e) => Err(e@),
        },
        views(r.1@),
    )
}

/// Ascending by semantic version, adjacent pair by adjacent pair.
pub open spec fn sorted_by_version(s: Seq<TagView>) -> bool {
    forall|i: int|
        0 <= i && i + 1 < s.len() ==> #[trigger] semver_precedes(s[i].version, s[i + 1].version)
}

proof fn lemma_views_insert<T: View>(s: Seq<T>, j: int, x: T)
    requires
        0 <= j <= s.len(),
    ensures
        views(s.insert(j, x)) == views(s).insert(j, x@),
{
    assert(views(s.insert(j, x)) =~= views(s).insert(j, x@));
}

/// Insert `t` into the version-sorted `v`, after every element that
/// precedes it or ties with it; sortedness is preserved.
#[verifier::loop_isolation(false)]
fn insert_tag(v: &mut Vec<Tag>, t: Tag)
    ensures
        views(final(v)@) == spec_insert_tag(views(old(v)@), t@),
        sorted_by_version(views(old(v)@)) ==> sorted_by_version(views(final(v)@)),
{
    let ghost s = views(v@);
    let ghost tv = t@;
    let mut j: usize = v.len();
    let mut found: bool = false;
    proof {
        assert(s.take(j as int) =~= s);
        assert(s.skip(j as int) =~= Seq::<TagView>::empty());
        lemma_add_empty(spec_insert_tag(s, tv));
    }
    while j > 0 && !found
        invariant
            j <= v@.len(),
            v@ == old(v)@,
            forall|k: int|
                j <= k < s.len() ==> semver_precedes(tv.version, (#[trigger] s[k]).version),
            spec_insert_tag(s, tv) == spec_insert_tag(s.take(j as int), tv) + s.skip(j as int),
            found ==> j > 0 && semver_precedes(s[j - 1].version, tv.version),
        decreases j, (if found { 0int } else { 1int }),
    {
        let le = v[j - 1].version.le(&t.version);
        if le {
            found = true;
        } else {
            proof {
                assert(semver_precedes(tv.version, s[j - 1].version));
                assert(s.take(j as int).drop_last() =~= s.take(j - 1));
                assert(s.take(j as int).last() == s[j - 1]);
                assert(seq![s[j - 1]] + s.skip(j as int) =~= s.skip(j - 1));
                lemma_cons_assoc(spec_insert_tag(s.take(j - 1), tv), s[j - 1], s.skip(j as int));
            }
            j = j - 1;
        }
    }
    proof {
        if j == 0 {
            assert(s.take(0) =~= Seq::<TagView>::empty());
            assert(seq![tv] =~= Seq::<TagView>::empty().push(tv));
        } else {
            assert(s.take(j as int).last() == s[j - 1]);
        }
        assert(spec_insert_tag(s.take(j as int), tv) == s.take(j as int).push(tv));
    }
    let ghost vs_pre = v@;
    v.insert(j, t);
    proof {
        lemma_views_insert(vs_pre, j as int, t);
        let w = s.take(j as int).push(tv) + s.skip(j as int);
        assert(s.insert(j as int, tv) =~= w);
        assert(views(v@) == w);
        assert(spec_insert_tag(s, tv) == w);
        if sorted_by_version(s) {
            assert(w.len() == s.len() + 1);
            assert forall|i: int| 0 <= i && i + 1 < w.len() implies #[trigger] semver_precedes(
                w[i].version,
                w[i + 1].version,
            ) by {
                if i + 1 < j {
                    assert(w[i] == s[i]);
                    assert(w[i + 1] == s[i + 1]);
                    assert(semver_precedes(s[i].version, s[i + 1].version));
                } else if i + 1 == j {
                    assert(w[i] == s[i]);
                    assert(w[i + 1] == tv);
                    assert(semver_precedes(s[j - 1].version, tv.version));
                } else if i == j {
                    assert(w[i] == tv);
                    assert(w[i + 1] == s[i]);
                    assert(semver_precedes(tv.version, s[i].version));
                } else {
                    assert(w[i] == s[i - 1]);
                    assert(w[i + 1] == s[i]);
                    let k = i - 1;
                    assert(semver_precedes(s[k].version, s[k + 1].version));
                }
            }
        }
    }
}

/// Collect the given raw tag refs into the sequence of validated tags,
/// sorted ascending by semantic version (stably: equal versions keep their
/// traversal order), beside the diagnostics for the skipped refs.
///
/// A ref whose name is unreadable or does not parse as a version is
/// skipped; a ref that cannot be resolved, an annotated tag pointing at a
/// non-commit, or any repository failure ends the run with that error and
/// no tags at all.
#[verifier::loop_isolation(false)]
pub fn tags(entries: Vec<RawTagEntry>) -> (r: (Result<Vec<Tag>, Error>, Vec<Diagnostic>))
    ensures
        tags_result_view(r) == spec_tags(views(entries@)),
        r.0 matches Ok(v) ==> sorted_by_version(views(v@)),
{
    let ghost all = views(entries@);
    let mut rest = entries;
    let mut kept: Vec<Tag> = Vec::new();
    let mut diags: Vec<Diagnostic> = Vec::new();
    while rest.len() > 0
        invariant
            spec_collect_tags(all).0 == (match spec_collect_tags(views(rest@)).0 {
                Ok(s) => Ok::<Seq<TagView>, ErrorView>(views(kept@) + s),
                Err(e) => Err::<Seq<TagView>, ErrorView>(e),
            }),
            spec_collect_tags(all).1 == views(diags@) + spec_collect_tags(views(rest@)).1,
        decreases rest.len(),
    {
        let ghost rest_pre = rest@;
        let ghost pre = views(rest_pre);
        let e = rest.remove(0);
        proof {
            lemma_views_behead(rest_pre, rest@, e);
            assert(pre[0] == e@);
            assert(views(rest@) == pre.skip(1));
        }
        match e {
            RawTagEntry::BadName => {
                let ghost diags_pre = views(diags@);
                let d = Diagnostic { subject: String::new(), reason: Error::Utf8Error };
                let ghost dv = d@;
                proof {
                    lemma_views_push(diags@, d);
                }
                diags.push(d);
                proof {
                    assert(spec_tag_step(pre[0]) == StepView::<TagView>::Skip(dv));
                    assert(views(diags@) == diags_pre.push(dv));
                    lemma_cons_assoc(diags_pre, dv, spec_collect_tags(pre.skip(1)).1);
                }
            },
            RawTagEntry::Resolved(name, res) => {
                let ghost namev = name@;
                match res {
                    Err(m) => {
                        proof {
                            assert(spec_tag_step(pre[0]) == StepView::<TagView>::Abort(
                                ErrorView::Repo(m@),
                            ));
                            lemma_add_empty(views(diags@));
                        }
                        return (Err(Error::Repo(m)), diags);
                    },
                    Ok(obj) => {
                        let ghost objv = obj@;
                        let conv: Result<Tag, Error> = match obj {
                            RawObject::TagObject(rt) => Tag::from_annotated(rt),
                            RawObject::CommitObject(rc) => Tag::from_lightweight(name.clone(), rc),
                            RawObject::OtherObject => Err(
                                Error::Repo(
                                    "tag ref resolved to an unexpected object kind".to_owned(),
                                ),
                            ),
                        };
                        proof {
                            assert(crate::res_view(conv) == (match objv {
                                RawObjectView::TagObject(rt) => spec_tag_annotated(rt),
                                RawObjectView::CommitObject(rc) => spec_tag_lightweight(namev, rc),
                                RawObjectView::OtherObject => Err(
                                    ErrorView::Repo(spec_bad_kind_message()),
                                ),
                            }));
                        }
                        match conv {
                            Ok(t) => {
                                let ghost tv = t@;
                                let ghost kept_pre = views(kept@);
                                proof {
                                    lemma_views_push(kept@, t);
                                }
                                kept.push(t);
                                proof {
                                    assert(spec_tag_step(pre[0]) == StepView::<TagView>::Keep(tv));
                                    assert(views(kept@) == kept_pre.push(tv));
                                    if spec_collect_tags(pre.skip(1)).0 is Ok {
                                        let s = spec_collect_tags(pre.skip(1)).0->Ok_0;
                                        lemma_cons_assoc(kept_pre, tv, s);
                                    }
                                }
                            },
                            Err(err) => {
                                match err {
                                    Error::Utf8Error => {
                                        let ghost diags_pre = views(diags@);
                                        let d = Diagnostic {
                                            subject: name,
                                            reason: Error::Utf8Error,
                                        };
                                        let ghost dv = d@;
                                        proof {
                                            lemma_views_push(diags@, d);
                                        }
                                        diags.push(d);
                                        proof {
                                            assert(spec_tag_step(pre[0]) == StepView::<
                                                TagView,
                                            >::Skip(dv));
                                            assert(views(diags@) == diags_pre.push(dv));
                                            lemma_cons_assoc(
                                                diags_pre,
                                                dv,
                                                spec_collect_tags(pre.skip(1)).1,
                                            );
                                        }
                                    },
                                    Error::SemVer => {
                                        let ghost diags_pre = views(diags@);
                                        let d = Diagnostic { subject: name, reason: Error::SemVer };
                                        let ghost dv = d@;
                                        proof {
                                            lemma_views_push(diags@, d);
                                        }
                                        diags.push(d);
                                        proof {
                                            assert(spec_tag_step(pre[0]) == StepView::<
                                                TagView,
                                            >::Skip(dv));
                                            assert(views(diags@) == diags_pre.push(dv));
                                            lemma_cons_assoc(
                                                diags_pre,
                                                dv,
                                                spec_collect_tags(pre.skip(1)).1,
                                            );
                                        }
                                    },
                                    other => {
                                        proof {
                                            assert(spec_tag_step(pre[0]) == StepView::<
                                                TagView,
                                            >::Abort(other@));
                                            lemma_add_empty(views(diags@));
                                        }
                                        return (Err(other), diags);
                                    },
                                }
                            },
                        }
                    },
                }
            },
        }
    }
    proof {
        assert(views(rest@) =~= Seq::<RawTagEntryView>::empty());
        lemma_add_empty(views(kept@));
        lemma_add_empty(views(diags@));
        assert(spec_collect_tags(all).0 == Ok::<Seq<TagView>, ErrorView>(views(kept@)));
        assert(spec_collect_tags(all).1 == views(diags@));
    }
    let ghost coll = views(kept@);
    let mut sorted: Vec<Tag> = Vec::new();
    let ghost mut done: Seq<TagView> = Seq::empty();
    let mut rest2 = kept;
    while rest2.len() > 0
        invariant
            done + views(rest2@) == coll,
            views(sorted@) == spec_sort_tags(done),
            sorted_by_version(views(sorted@)),
        decreases rest2.len(),
    {
        let ghost rest2_pre = rest2@;
        let t = rest2.remove(0);
        let ghost tv = t@;
        proof {
            lemma_views_behead(rest2_pre, rest2@, t);
            assert(views(rest2_pre) == seq![tv] + views(rest2@)) by {
                assert(views(rest2_pre) =~= seq![tv] + views(rest2@));
            }
            lemma_cons_assoc(done, tv, views(rest2@));
            assert(done.push(tv) + views(rest2@) == coll);
        }
        insert_tag(&mut sorted, t);
        proof {
            assert(done.push(tv).drop_last() =~= done);
            assert(done.push(tv).last() == tv);
            assert(spec_sort_tags(done.push(tv)) == spec_insert_tag(spec_sort_tags(done), tv));
            done = done.push(tv);
        }
    }
    proof {
        assert(views(rest2@) =~= Seq::<TagView>::empty());
        lemma_add_empty(done);
        assert(done == coll);
    }
    (Ok(sorted), diags)
}

} // verus!
