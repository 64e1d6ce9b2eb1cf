//! Properties that hold of whole pipeline runs: what every returned record
//! satisfies, and that a run is a function of its raw entries alone.

use crate::model::CommitView;
use crate::model::RawCommitView;
use crate::model::RawTagEntryView;
use crate::model::RawWalkEntryView;
use crate::model::TagView;
use crate::pipeline::spec_collect_tags;
use crate::pipeline::spec_commits;
use crate::pipeline::spec_insert_tag;
use crate::pipeline::spec_sort_tags;
use crate::pipeline::spec_tag_step;
use crate::pipeline::spec_tags;
use crate::pipeline::spec_walk_step;
use crate::pipeline::StepView;
use crate::text::spec_strip_v;
use crate::version::semver_of;
use vstd::multiset::Multiset;
use vstd::prelude::*;

verus! {

/// `p` holds of every element of `s`.
pub open spec fn holds_for_all<T>(s: Seq<T>, p: spec_fn(T) -> bool) -> bool {
    forall|i: int| 0 <= i < s.len() ==> #[trigger] p(s[i])
}

/// `p` is a strict prefix of `s`: shorter, and equal to `s`'s start.
pub open spec fn strict_prefix_of(p: Seq<char>, s: Seq<char>) -> bool {
    p.len() < s.len() && p == s.take(p.len() as int)
}

/// A commit's abbreviated id is a strict prefix of its full id.
pub open spec fn commit_short_id_ok(c: CommitView) -> bool {
    strict_prefix_of(c.short_id, c.id)
}

/// Where a raw commit carries a readable abbreviated id at all, it is a
/// strict prefix of the full id — as the repository computes them.
pub open spec fn raw_short_id_ok(rc: RawCommitView) -> bool {
    match rc.short_id {
        Ok(Some(sid)) => strict_prefix_of(sid, rc.id),
        _ => true,
    }
}

/// `raw_short_id_ok` for the commit a walk entry carries, if any.
pub open spec fn walk_entry_short_id_ok(e: RawWalkEntryView) -> bool {
    match e {
        RawWalkEntryView::Resolved(_, Ok(rc)) => raw_short_id_ok(rc),
        _ => true,
    }
}

/// The walker passes ids through untouched: where every raw entry's
/// abbreviated id is a strict prefix of its full id, so is every returned
/// commit's.
pub proof fn lemma_commits_short_id_prefix(entries: Seq<RawWalkEntryView>)
    requires
        forall|i: int|
            0 <= i < entries.len() ==> #[trigger] walk_entry_short_id_ok(entries[i]),
    ensures
        spec_commits(entries).0 matches Ok(s) ==> holds_for_all(
            s,
            |c: CommitView| commit_short_id_ok(c),
        ),
    decreases entries.len(),
{
    let p = |c: CommitView| commit_short_id_ok(c);
    if entries.len() == 0 {
        assert(spec_commits(entries).0 matches Ok(s) ==> holds_for_all(s, p)) by {
            if spec_commits(entries).0 is Ok {
                let s = spec_commits(entries).0->Ok_0;
                assert(s.len() == 0);
            }
        }
    } else {
        assert(walk_entry_short_id_ok(entries[0]));
        assert forall|i: int| 0 <= i < entries.skip(1).len() implies #[trigger] walk_entry_short_id_ok(
            entries.skip(1)[i],
        ) by {
            assert(walk_entry_short_id_ok(entries[i + 1]));
        }
        lemma_commits_short_id_prefix(entries.skip(1));
        match spec_walk_step(entries[0]) {
            StepView::Abort(_) => {},
            StepView::Skip(_) => {},
            StepView::Keep(c) => {
                if spec_commits(entries).0 is Ok {
                    let s = spec_commits(entries).0->Ok_0;
                    let s2 = spec_commits(entries.skip(1)).0->Ok_0;
                    assert(p(c));
                    assert forall|i: int| 0 <= i < s.len() implies #[trigger] p(s[i]) by {
                        if i == 0 {
                            assert(s[0] == c);
                        } else {
                            assert(s[i] == s2[i - 1]);
                            assert(p(s2[i - 1]));
                        }
                    }
                }
            },
        }
    }
}

/// A tag's version is exactly what parsing its own name — stripped of an
/// optional leading `v` — yields.
pub open spec fn tag_version_matches_name(t: TagView) -> bool {
    semver_of(spec_strip_v(t.name)) == Some(t.version)
}

proof fn lemma_insert_keeps_all(s: Seq<TagView>, t: TagView, p: spec_fn(TagView) -> bool)
    requires
        holds_for_all(s, p),
        p(t),
    ensures
        holds_for_all(spec_insert_tag(s, t), p),
    decreases s.len(),
{
    let w = spec_insert_tag(s, t);
    if s.len() == 0 {
        assert forall|i: int| 0 <= i < w.len() implies #[trigger] p(w[i]) by {
            assert(w[i] == t);
        }
    } else if w == s.push(t) {
        assert forall|i: int| 0 <= i < w.len() implies #[trigger] p(w[i]) by {
            if i < s.len() {
                assert(w[i] == s[i]);
                assert(p(s[i]));
            } else {
                assert(w[i] == t);
            }
        }
    } else {
        assert forall|i: int| 0 <= i < s.drop_last().len() implies #[trigger] p(
            s.drop_last()[i],
        ) by {
            assert(s.drop_last()[i] == s[i]);
            assert(p(s[i]));
        }
        lemma_insert_keeps_all(s.drop_last(), t, p);
        let w2 = spec_insert_tag(s.drop_last(), t);
        assert forall|i: int| 0 <= i < w.len() implies #[trigger] p(w[i]) by {
            if i < w2.len() {
                assert(w[i] == w2[i]);
                assert(p(w2[i]));
            } else {
                assert(w[i] == s.last());
                assert(p(s[s.len() - 1]));
            }
        }
    }
}

proof fn lemma_sort_keeps_all(s: Seq<TagView>, p: spec_fn(TagView) -> bool)
    requires
        holds_for_all(s, p),
    ensures
        holds_for_all(spec_sort_tags(s), p),
    decreases s.len(),
{
    if s.len() > 0 {
        assert forall|i: int| 0 <= i < s.drop_last().len() implies #[trigger] p(
            s.drop_last()[i],
        ) by {
            assert(s.drop_last()[i] == s[i]);
            assert(p(s[i]));
        }
        lemma_sort_keeps_all(s.drop_last(), p);
        assert(p(s[s.len() - 1]));
        lemma_insert_keeps_all(spec_sort_tags(s.drop_last()), s.last(), p);
    }
}

proof fn lemma_collect_version_matches(entries: Seq<RawTagEntryView>)
    ensures
        spec_collect_tags(entries).0 matches Ok(s) ==> holds_for_all(
            s,
            |t: TagView| tag_version_matches_name(t),
        ),
    decreases entries.len(),
{
    let p = |t: TagView| tag_version_matches_name(t);
    if entries.len() == 0 {
        if spec_collect_tags(entries).0 is Ok {
            let s = spec_collect_tags(entries).0->Ok_0;
            assert(s.len() == 0);
        }
    } else {
        lemma_collect_version_matches(entries.skip(1));
        match spec_tag_step(entries[0]) {
            StepView::Abort(_) => {},
            StepView::Skip(_) => {},
            StepView::Keep(t) => {
                if spec_collect_tags(entries).0 is Ok {
                    let s = spec_collect_tags(entries).0->Ok_0;
                    let s2 = spec_collect_tags(entries.skip(1)).0->Ok_0;
                    assert(p(t));
                    assert forall|i: int| 0 <= i < s.len() implies #[trigger] p(s[i]) by {
                        if i == 0 {
                            assert(s[0] == t);
                        } else {
                            assert(s[i] == s2[i - 1]);
                            assert(p(s2[i - 1]));
                        }
                    }
                }
            },
        }
    }
}

/// Every tag the collector returns carries the version parsed from its own
/// name, stripped of an optional leading `v`.
pub proof fn lemma_tags_version_from_name(entries: Seq<RawTagEntryView>)
    ensures
        spec_tags(entries).0 matches Ok(s) ==> holds_for_all(
            s,
            |t: TagView| tag_version_matches_name(t),
        ),
{
    lemma_collect_version_matches(entries);
    if spec_collect_tags(entries).0 is Ok {
        lemma_sort_keeps_all(
            spec_collect_tags(entries).0->Ok_0,
            |t: TagView| tag_version_matches_name(t),
        );
    }
}

/// A skipped commit is silently absent: taking its entry out of the walk
/// changes neither the returned sequence — the other commits keep their
/// order — nor whether the run succeeds.
pub proof fn lemma_commits_skip_is_absence(entries: Seq<RawWalkEntryView>, i: int)
    requires
        0 <= i < entries.len(),
        spec_walk_step(entries[i]) is Skip,
    ensures
        spec_commits(entries).0 == spec_commits(entries.remove(i)).0,
    decreases entries.len(),
{
    if i == 0 {
        assert(entries.remove(0) =~= entries.skip(1));
    } else {
        let rest = entries.skip(1);
        assert(rest[i - 1] == entries[i]);
        lemma_commits_skip_is_absence(rest, i - 1);
        assert(entries.remove(i).skip(1) =~= rest.remove(i - 1));
        assert(entries.remove(i)[0] == entries[0]);
        assert(entries.remove(i).len() > 0);
    }
}

proof fn lemma_collect_skip_is_absence(entries: Seq<RawTagEntryView>, i: int)
    requires
        0 <= i < entries.len(),
        spec_tag_step(entries[i]) is Skip,
    ensures
        spec_collect_tags(entries).0 == spec_collect_tags(entries.remove(i)).0,
    decreases entries.len(),
{
    if i == 0 {
        assert(entries.remove(0) =~= entries.skip(1));
    } else {
        let rest = entries.skip(1);
        assert(rest[i - 1] == entries[i]);
        lemma_collect_skip_is_absence(rest, i - 1);
        assert(entries.remove(i).skip(1) =~= rest.remove(i - 1));
        assert(entries.remove(i)[0] == entries[0]);
        assert(entries.remove(i).len() > 0);
    }
}

/// A skipped tag ref is silently absent: taking its entry out of the
/// enumeration changes neither the returned sequence nor whether the run
/// succeeds.
pub proof fn lemma_tags_skip_is_absence(entries: Seq<RawTagEntryView>, i: int)
    requires
        0 <= i < entries.len(),
        spec_tag_step(entries[i]) is Skip,
    ensures
        spec_tags(entries).0 == spec_tags(entries.remove(i)).0,
{
    lemma_collect_skip_is_absence(entries, i);
}

/// A walk entry on which the whole run fails: a walk or fetch failure, or a
/// commit whose conversion fails other than recoverably.
pub open spec fn walk_entry_fatal(e: RawWalkEntryView) -> bool {
    spec_walk_step(e) is Abort
}

/// A tag entry on which the whole run fails: a failed resolution, an
/// unexpected object kind, or a conversion failure other than a recoverable
/// one.
pub open spec fn tag_entry_fatal(e: RawTagEntryView) -> bool {
    spec_tag_step(e) is Abort
}

/// The walker succeeds exactly where no entry is fatal: malformed commits
/// alone never fail a run.
pub proof fn lemma_commits_ok_iff(entries: Seq<RawWalkEntryView>)
    ensures
        spec_commits(entries).0 is Ok <==> (forall|i: int|
            0 <= i < entries.len() ==> !#[trigger] walk_entry_fatal(entries[i])),
    decreases entries.len(),
{
    if entries.len() > 0 {
        lemma_commits_ok_iff(entries.skip(1));
        assert forall|i: int| 0 <= i < entries.skip(1).len() implies #[trigger] walk_entry_fatal(
            entries.skip(1)[i],
        ) == walk_entry_fatal(entries[i + 1]) by {
            assert(entries.skip(1)[i] == entries[i + 1]);
        }
        if spec_commits(entries).0 is Ok {
            assert forall|i: int| 0 <= i < entries.len() implies !#[trigger] walk_entry_fatal(
                entries[i],
            ) by {
                if i > 0 {
                    assert(!walk_entry_fatal(entries.skip(1)[i - 1]));
                }
            }
        } else {
            if !walk_entry_fatal(entries[0]) {
                let k = choose|k: int|
                    0 <= k < entries.skip(1).len() && walk_entry_fatal(entries.skip(1)[k]);
                assert(walk_entry_fatal(entries[k + 1]));
            }
        }
    }
}

/// The tag collector succeeds exactly where no entry is fatal: unreadable
/// names and non-version refs alone never fail a run.
pub proof fn lemma_tags_ok_iff(entries: Seq<RawTagEntryView>)
    ensures
        spec_tags(entries).0 is Ok <==> (forall|i: int|
            0 <= i < entries.len() ==> !#[trigger] tag_entry_fatal(entries[i])),
    decreases entries.len(),
{
    if entries.len() > 0 {
        lemma_tags_ok_iff(entries.skip(1));
        assert forall|i: int| 0 <= i < entries.skip(1).len() implies #[trigger] tag_entry_fatal(
            entries.skip(1)[i],
        ) == tag_entry_fatal(entries[i + 1]) by {
            assert(entries.skip(1)[i] == entries[i + 1]);
        }
        if spec_collect_tags(entries).0 is Ok {
            assert forall|i: int| 0 <= i < entries.len() implies !#[trigger] tag_entry_fatal(
                entries[i],
            ) by {
                if i > 0 {
                    assert(!tag_entry_fatal(entries.skip(1)[i - 1]));
                }
            }
        } else {
            if !tag_entry_fatal(entries[0]) {
                let k = choose|k: int|
                    0 <= k < entries.skip(1).len() && tag_entry_fatal(entries.skip(1)[k]);
                assert(tag_entry_fatal(entries[k + 1]));
            }
        }
    }
}

proof fn lemma_insert_tag_multiset(s: Seq<TagView>, t: TagView)
    ensures
        spec_insert_tag(s, t).to_multiset() =~= s.to_multiset().insert(t),
    decreases s.len(),
{
    broadcast use vstd::seq_lib::group_to_multiset_ensures;

    if s.len() == 0 {
        assert(seq![t] =~= Seq::<TagView>::empty().push(t));
        assert(Seq::<TagView>::empty().to_multiset() =~= Multiset::<TagView>::empty());
    } else if spec_insert_tag(s, t) == s.push(t) {
    } else {
        lemma_insert_tag_multiset(s.drop_last(), t);
        assert(s =~= s.drop_last().push(s.last()));
        assert(s.to_multiset() =~= s.drop_last().to_multiset().insert(s.last()));
        assert(spec_insert_tag(s.drop_last(), t).push(s.last()).to_multiset()
            =~= spec_insert_tag(s.drop_last(), t).to_multiset().insert(s.last()));
        assert(s.drop_last().to_multiset().insert(t).insert(s.last()) =~= s.drop_last()
            .to_multiset()
            .insert(s.last())
            .insert(t));
    }
}

/// Sorting loses nothing and invents nothing: the sorted sequence holds
/// exactly the collected tags, each as often as it was collected.
pub proof fn lemma_sort_is_permutation(s: Seq<TagView>)
    ensures
        spec_sort_tags(s).to_multiset() =~= s.to_multiset(),
    decreases s.len(),
{
    broadcast use vstd::seq_lib::group_to_multiset_ensures;

    if s.len() > 0 {
        lemma_sort_is_permutation(s.drop_last());
        lemma_insert_tag_multiset(spec_sort_tags(s.drop_last()), s.last());
        assert(s =~= s.drop_last().push(s.last()));
        assert(s.to_multiset() =~= s.drop_last().to_multiset().insert(s.last()));
    }
}

/// Walking the same raw entries twice yields the same commits and the same
/// diagnostics: the walk is a function of the entries alone.
pub proof fn lemma_commits_idempotent(e1: Seq<RawWalkEntryView>, e2: Seq<RawWalkEntryView>)
    requires
        e1 == e2,
    ensures
        spec_commits(e1) == spec_commits(e2),
{
}

/// Collecting the same raw tag refs twice yields the same tags in the same
/// order and the same diagnostics: the collection is a function of the
/// entries alone.
pub proof fn lemma_tags_idempotent(e1: Seq<RawTagEntryView>, e2: Seq<RawTagEntryView>)
    requires
        e1 == e2,
    ensures
        spec_tags(e1) == spec_tags(e2),
{
}

} // verus!
