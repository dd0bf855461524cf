//! Reconciling the roster with the channel's current video listing.

use crate::failure::{ChannelVideosFail, ListUpdateError, ListUpdateFailure};
use crate::ident::{id_less, lemma_id_less_transitive, lemma_id_less_trichotomy, rank_ids, Rank};
use crate::model::{
    roster_view, videos_view, CommentView, TrackedVideo, TrackedView, Video, VideoView,
    DEFAULT_RECHECK_DELAY,
};
use vstd::prelude::*;

verus! {

/// A listed video is well formed when neither its title nor its identifier is empty.
pub open spec fn well_formed(video: VideoView) -> bool {
    video.title.len() > 0 && video.id.len() > 0
}

/// The roster entry of a video that is seen for the first time.
pub open spec fn fresh_entry(video: VideoView) -> TrackedView {
    TrackedView {
        title: video.title,
        video_id: video.id,
        most_recent_timestamp: 0,
        queued_comments: Seq::empty(),
        recheck_delay: DEFAULT_RECHECK_DELAY as nat,
    }
}

/// A fresh entry for each well-formed video of the listing, in listing order.
pub open spec fn candidates(fetched: Seq<VideoView>) -> Seq<TrackedView> {
    fetched.filter(|video: VideoView| well_formed(video)).map_values(
        |video: VideoView| fresh_entry(video),
    )
}

/// The listing names this identifier on a well-formed video.
pub open spec fn lists_id(fetched: Seq<VideoView>, id: Seq<char>) -> bool {
    exists|j: int| 0 <= j < fetched.len() && well_formed(#[trigger] fetched[j]) && fetched[j].id == id
}

/// No two entries share an identifier.
pub open spec fn unique_ids(roster: Seq<TrackedView>) -> bool {
    forall|i: int, j: int|
        0 <= i < j < roster.len() ==> (#[trigger] roster[i]).video_id != (
        #[trigger] roster[j]).video_id
}

/// The entries stand in strictly ascending order of their identifiers.
pub open spec fn sorted_by_id(roster: Seq<TrackedView>) -> bool {
    forall|i: int, j: int|
        0 <= i < j < roster.len() ==> id_less(
            (#[trigger] roster[i]).video_id,
            (#[trigger] roster[j]).video_id,
        )
}

/// Some entry of the roster has this identifier.
pub open spec fn holds_id(roster: Seq<TrackedView>, id: Seq<char>) -> bool {
    exists|j: int| 0 <= j < roster.len() && (#[trigger] roster[j]).video_id == id
}

/// No entry before position `at` has the identifier of the entry at `at`.
pub open spec fn first_with_id(pool: Seq<TrackedView>, at: int) -> bool {
    forall|i: int| 0 <= i < at ==> (#[trigger] pool[i]).video_id != pool[at].video_id
}

/// `entry` stands in the pool, and before every other entry of its identifier.
pub open spec fn leads_its_id(pool: Seq<TrackedView>, entry: TrackedView) -> bool {
    exists|i: int| 0 <= i < pool.len() && #[trigger] pool[i] == entry && first_with_id(pool, i)
}

/// `result` is the pool sorted by identifier, with only the first entry of each
/// identifier kept.
pub open spec fn merged(result: Seq<TrackedView>, pool: Seq<TrackedView>) -> bool {
    &&& sorted_by_id(result)
    &&& forall|j: int| 0 <= j < result.len() ==> leads_its_id(pool, #[trigger] result[j])
    &&& forall|i: int| 0 <= i < pool.len() ==> holds_id(result, (#[trigger] pool[i]).video_id)
}

/// What reconciling `existing` with the listing `fetched` gives. When the roster
/// has as many entries as the listing has videos, well formed or not, the roster
/// stays as it is. Otherwise the entries and a fresh entry for each well-formed
/// video are pooled, existing entries first, and merged.
pub open spec fn reconciled(
    existing: Seq<TrackedView>,
    fetched: Seq<VideoView>,
    result: Seq<TrackedView>,
) -> bool {
    if existing.len() == fetched.len() {
        result == existing
    } else {
        merged(result, existing + candidates(fetched))
    }
}

/// A strictly sorted roster has no identifier twice.
pub proof fn lemma_sorted_is_unique(roster: Seq<TrackedView>)
    requires
        sorted_by_id(roster),
    ensures
        unique_ids(roster),
{
    assert forall|i: int, j: int| 0 <= i < j < roster.len() implies (#[trigger] roster[i]).video_id
        != (#[trigger] roster[j]).video_id by {
        lemma_id_less_trichotomy(roster[i].video_id, roster[j].video_id);
    }
}

/// Two entries that both lead the same identifier in a pool are the same entry.
pub proof fn lemma_leader_is_unique(pool: Seq<TrackedView>, a: TrackedView, b: TrackedView)
    requires
        leads_its_id(pool, a),
        leads_its_id(pool, b),
        a.video_id == b.video_id,
    ensures
        a == b,
{
    let i = choose|i: int| 0 <= i < pool.len() && #[trigger] pool[i] == a && first_with_id(pool, i);
    let j = choose|j: int| 0 <= j < pool.len() && #[trigger] pool[j] == b && first_with_id(pool, j);
    if i < j {
        assert(pool[i].video_id != pool[j].video_id);
    } else if j < i {
        assert(pool[j].video_id != pool[i].video_id);
    }
}

/// Two strictly sorted rosters that hold the same identifiers hold them at the
/// same positions.
proof fn lemma_sorted_same_ids_align(a: Seq<TrackedView>, b: Seq<TrackedView>, upto: int)
    requires
        sorted_by_id(a),
        sorted_by_id(b),
        forall|i: int| 0 <= i < a.len() ==> holds_id(b, (#[trigger] a[i]).video_id),
        forall|i: int| 0 <= i < b.len() ==> holds_id(a, (#[trigger] b[i]).video_id),
        0 <= upto <= a.len(),
    ensures
        upto <= b.len(),
        forall|k: int| 0 <= k < upto ==> (#[trigger] a[k]).video_id == b[k].video_id,
    decreases upto,
{
    if upto > 0 {
        let k = upto - 1;
        lemma_sorted_same_ids_align(a, b, k);
        lemma_sorted_is_unique(a);
        lemma_sorted_is_unique(b);
        let m = choose|m: int| 0 <= m < b.len() && (#[trigger] b[m]).video_id == a[k].video_id;
        if m < k {
            assert(a[m].video_id == b[m].video_id);
            assert(a[m].video_id != a[k].video_id);
        } else if m > k {
            let n = choose|n: int| 0 <= n < a.len() && (#[trigger] a[n]).video_id == b[k].video_id;
            assert(b[k].video_id != b[m].video_id);
            if n < k {
                assert(a[n].video_id == b[n].video_id);
                assert(b[n].video_id != b[k].video_id);
            } else {
                assert(n > k);
                assert(id_less(a[k].video_id, a[n].video_id));
                assert(id_less(b[k].video_id, b[m].video_id));
                lemma_id_less_trichotomy(a[k].video_id, b[k].video_id);
            }
        }
    }
}

/// A pool has exactly one merge.
pub proof fn law_merge_is_determined(
    pool: Seq<TrackedView>,
    first: Seq<TrackedView>,
    second: Seq<TrackedView>,
)
    requires
        merged(first, pool),
        merged(second, pool),
    ensures
        first == second,
{
    assert forall|i: int| 0 <= i < first.len() implies holds_id(
        second,
        (#[trigger] first[i]).video_id,
    ) by {
        let p = choose|p: int|
            0 <= p < pool.len() && #[trigger] pool[p] == first[i] && first_with_id(pool, p);
        assert(holds_id(second, pool[p].video_id));
    }
    assert forall|i: int| 0 <= i < second.len() implies holds_id(
        first,
        (#[trigger] second[i]).video_id,
    ) by {
        let p = choose|p: int|
            0 <= p < pool.len() && #[trigger] pool[p] == second[i] && first_with_id(pool, p);
        assert(holds_id(first, pool[p].video_id));
    }
    lemma_sorted_same_ids_align(first, second, first.len() as int);
    lemma_sorted_same_ids_align(second, first, second.len() as int);
    assert forall|k: int| 0 <= k < first.len() implies first[k] == second[k] by {
        lemma_leader_is_unique(pool, first[k], second[k]);
    }
    assert(first =~= second);
}

/// Reconciling never leaves two entries with one identifier in a roster that
/// had none, and leaves none at all whenever it merges.
pub proof fn law_reconcile_keeps_ids_unique(
    existing: Seq<TrackedView>,
    fetched: Seq<VideoView>,
    result: Seq<TrackedView>,
)
    requires
        reconciled(existing, fetched, result),
    ensures
        unique_ids(existing) ==> unique_ids(result),
        existing.len() != fetched.len() ==> unique_ids(result),
{
    if existing.len() != fetched.len() {
        lemma_sorted_is_unique(result);
    }
}

/// An existing entry is never reset: the entry that stands first for its
/// identifier in the roster is in the reconciled roster exactly as it was, with
/// its watermark and its queued comments, whatever the listing holds.
pub proof fn law_existing_entry_survives(
    existing: Seq<TrackedView>,
    fetched: Seq<VideoView>,
    result: Seq<TrackedView>,
    at: int,
)
    requires
        reconciled(existing, fetched, result),
        0 <= at < existing.len(),
        first_with_id(existing, at),
    ensures
        result.contains(existing[at]),
        forall|k: int|
            0 <= k < result.len() && (#[trigger] result[k]).video_id == existing[at].video_id
                && existing.len() != fetched.len() ==> result[k] == existing[at],
{
    if existing.len() == fetched.len() {
        assert(result[at] == existing[at]);
    } else {
        let pool = existing + candidates(fetched);
        assert(pool[at] == existing[at]);
        assert forall|i: int| 0 <= i < at implies (#[trigger] pool[i]).video_id
            != pool[at].video_id by {
            assert(pool[i] == existing[i]);
        }
        assert(leads_its_id(pool, existing[at]));
        assert(holds_id(result, pool[at].video_id));
        assert forall|k: int|
            0 <= k < result.len() && (#[trigger] result[k]).video_id
                == existing[at].video_id implies result[k] == existing[at] by {
            lemma_leader_is_unique(pool, result[k], existing[at]);
        }
        let k = choose|k: int|
            0 <= k < result.len() && (#[trigger] result[k]).video_id == pool[at].video_id;
        assert(result[k] == existing[at]);
    }
}

/// A well-formed listed video whose identifier the roster does not hold gets,
/// whenever the roster is merged, an entry with watermark zero, no queued
/// comments and the default delay.
pub proof fn law_new_video_gets_fresh_entry(
    existing: Seq<TrackedView>,
    fetched: Seq<VideoView>,
    result: Seq<TrackedView>,
    at: int,
)
    requires
        reconciled(existing, fetched, result),
        existing.len() != fetched.len(),
        0 <= at < fetched.len(),
        well_formed(fetched[at]),
        !holds_id(existing, fetched[at].id),
    ensures
        exists|k: int|
            0 <= k < result.len() && {
                &&& (#[trigger] result[k]).video_id == fetched[at].id
                &&& result[k].most_recent_timestamp == 0
                &&& result[k].queued_comments == Seq::<CommentView>::empty()
                &&& result[k].recheck_delay == DEFAULT_RECHECK_DELAY
            },
{
    let keep = |video: VideoView| well_formed(video);
    let kept = fetched.filter(keep);
    let fresh = candidates(fetched);
    let pool = existing + fresh;
    fetched.lemma_filter_contains(keep, at);
    let c = choose|c: int| 0 <= c < kept.len() && kept[c] == fetched[at];
    assert(fresh[c] == fresh_entry(fetched[at]));
    assert(pool[existing.len() + c] == fresh[c]);
    assert(holds_id(result, pool[existing.len() + c].video_id));
    let k = choose|k: int|
        0 <= k < result.len() && (#[trigger] result[k]).video_id == fetched[at].id;
    let p = choose|p: int|
        0 <= p < pool.len() && #[trigger] pool[p] == result[k] && first_with_id(pool, p);
    if p < existing.len() {
        assert(pool[p] == existing[p]);
        assert(holds_id(existing, fetched[at].id));
    } else {
        assert(pool[p] == fresh[p - existing.len()]);
        assert(fresh[p - existing.len()] == fresh_entry(kept[p - existing.len()]));
    }
}

/// The listed video at `at` is the first well-formed one of its identifier.
pub open spec fn first_listed(fetched: Seq<VideoView>, at: int) -> bool {
    &&& 0 <= at < fetched.len()
    &&& well_formed(fetched[at])
    &&& forall|j: int|
        0 <= j < at && well_formed(#[trigger] fetched[j]) ==> fetched[j].id != fetched[at].id
}

/// Among the well-formed videos of a listing, the first of an identifier stays
/// the first of it.
proof fn lemma_first_listed_leads(fetched: Seq<VideoView>, at: int)
    requires
        first_listed(fetched, at),
    ensures
        exists|c: int|
            0 <= c < candidates(fetched).len() && #[trigger] candidates(fetched)[c] == fresh_entry(
                fetched[at],
            ) && first_with_id(candidates(fetched), c),
    decreases fetched.len(),
{
    let keep = |video: VideoView| well_formed(video);
    let shorter = fetched.drop_last();
    let kept = fetched.filter(keep);
    let kept_before = shorter.filter(keep);
    reveal(Seq::filter);
    if at == fetched.len() - 1 {
        let c = kept_before.len() as int;
        assert(kept == kept_before.push(fetched[at]));
        assert(candidates(fetched)[c] == fresh_entry(fetched[at]));
        assert forall|i: int| 0 <= i < c implies (#[trigger] candidates(fetched)[i]).video_id
            != candidates(fetched)[c].video_id by {
            assert(kept[i] == kept_before[i]);
            shorter.lemma_filter_pred(keep, i);
            assert(kept_before.contains(kept_before[i]));
            shorter.lemma_filter_contains_rev(keep, kept_before[i]);
            let j = choose|j: int| 0 <= j < shorter.len() && shorter[j] == kept_before[i];
            assert(fetched[j] == shorter[j]);
        }
    } else {
        assert(shorter[at] == fetched[at]);
        assert forall|j: int| 0 <= j < at && well_formed(#[trigger] shorter[j]) implies shorter[j].id
            != shorter[at].id by {
            assert(shorter[j] == fetched[j]);
        }
        lemma_first_listed_leads(shorter, at);
        let c = choose|c: int|
            0 <= c < candidates(shorter).len() && #[trigger] candidates(shorter)[c] == fresh_entry(
                shorter[at],
            ) && first_with_id(candidates(shorter), c);
        assert(kept_before.len() == candidates(shorter).len());
        assert(kept[c] == kept_before[c]);
        assert(candidates(fetched)[c] == candidates(shorter)[c]);
        assert forall|i: int| 0 <= i < c implies (#[trigger] candidates(fetched)[i]).video_id
            != candidates(fetched)[c].video_id by {
            assert(kept[i] == kept_before[i]);
            assert(candidates(fetched)[i] == candidates(shorter)[i]);
        }
    }
}

/// Whenever the roster is merged, the first well-formed listed video of an
/// identifier that the roster does not hold has exactly one entry: its fresh
/// entry, with its title, watermark zero, no queued comments and the default
/// delay.
pub proof fn law_new_video_has_one_fresh_entry(
    existing: Seq<TrackedView>,
    fetched: Seq<VideoView>,
    result: Seq<TrackedView>,
    at: int,
)
    requires
        reconciled(existing, fetched, result),
        existing.len() != fetched.len(),
        first_listed(fetched, at),
        !holds_id(existing, fetched[at].id),
    ensures
        exists|k: int|
            0 <= k < result.len() && {
                &&& #[trigger] result[k] == fresh_entry(fetched[at])
                &&& forall|other: int|
                    0 <= other < result.len() && (#[trigger] result[other]).video_id
                        == fetched[at].id ==> other == k
            },
{
    let fresh = candidates(fetched);
    let pool = existing + fresh;
    lemma_first_listed_leads(fetched, at);
    let c = choose|c: int|
        0 <= c < fresh.len() && #[trigger] fresh[c] == fresh_entry(fetched[at]) && first_with_id(
            fresh,
            c,
        );
    let p = existing.len() + c;
    assert(pool[p] == fresh[c]);
    assert forall|i: int| 0 <= i < p implies (#[trigger] pool[i]).video_id != pool[p].video_id by {
        if i < existing.len() {
            assert(pool[i] == existing[i]);
        } else {
            assert(pool[i] == fresh[i - existing.len()]);
        }
    }
    assert(leads_its_id(pool, fresh[c]));
    assert(holds_id(result, pool[p].video_id));
    let k = choose|k: int|
        0 <= k < result.len() && (#[trigger] result[k]).video_id == fetched[at].id;
    lemma_leader_is_unique(pool, result[k], fresh[c]);
    lemma_sorted_is_unique(result);
    assert forall|other: int|
        0 <= other < result.len() && (#[trigger] result[other]).video_id
            == fetched[at].id implies other == k by {
        if other < k {
            assert(result[other].video_id != result[k].video_id);
        } else if k < other {
            assert(result[k].video_id != result[other].video_id);
        }
    }
}

/// The candidates hold exactly the identifiers of the listing's well-formed videos.
pub proof fn lemma_candidates_hold_listed_ids(fetched: Seq<VideoView>, id: Seq<char>)
    ensures
        holds_id(candidates(fetched), id) <==> lists_id(fetched, id),
{
    let keep = |video: VideoView| well_formed(video);
    let kept = fetched.filter(keep);
    let fresh = candidates(fetched);
    if holds_id(fresh, id) {
        let c = choose|c: int| 0 <= c < fresh.len() && (#[trigger] fresh[c]).video_id == id;
        fetched.lemma_filter_pred(keep, c);
        assert(kept.contains(kept[c]));
        fetched.lemma_filter_contains_rev(keep, kept[c]);
        let j = choose|j: int| 0 <= j < fetched.len() && fetched[j] == kept[c];
        assert(well_formed(fetched[j]) && fetched[j].id == id);
    }
    if lists_id(fetched, id) {
        let j = choose|j: int|
            0 <= j < fetched.len() && well_formed(#[trigger] fetched[j]) && fetched[j].id == id;
        fetched.lemma_filter_contains(keep, j);
        let c = choose|c: int| 0 <= c < kept.len() && kept[c] == fetched[j];
        assert(fresh[c].video_id == id);
    }
}

/// Reconciling with a listing that names the very identifiers the roster holds
/// changes no entry: the reconciled roster has the entries of the roster, each
/// with its watermark and its queue as they were, and no others.
pub proof fn law_same_ids_change_nothing(
    existing: Seq<TrackedView>,
    fetched: Seq<VideoView>,
    result: Seq<TrackedView>,
)
    requires
        reconciled(existing, fetched, result),
        unique_ids(existing),
        forall|i: int| 0 <= i < existing.len() ==> lists_id(fetched, (#[trigger] existing[i]).video_id),
        forall|j: int|
            0 <= j < fetched.len() && well_formed(#[trigger] fetched[j]) ==> holds_id(
                existing,
                fetched[j].id,
            ),
    ensures
        result.len() == existing.len(),
        forall|i: int| 0 <= i < existing.len() ==> result.contains(#[trigger] existing[i]),
        forall|k: int| 0 <= k < result.len() ==> existing.contains(#[trigger] result[k]),
{
    if existing.len() == fetched.len() {
        assert forall|i: int| 0 <= i < existing.len() implies result.contains(
            #[trigger] existing[i],
        ) by {
            assert(result[i] == existing[i]);
        }
        assert forall|k: int| 0 <= k < result.len() implies existing.contains(
            #[trigger] result[k],
        ) by {
            assert(existing[k] == result[k]);
        }
    } else {
        let fresh = candidates(fetched);
        let pool = existing + fresh;
        assert forall|i: int| 0 <= i < existing.len() implies result.contains(
            #[trigger] existing[i],
        ) by {
            law_existing_entry_survives(existing, fetched, result, i);
        }
        assert forall|k: int| 0 <= k < result.len() implies existing.contains(
            #[trigger] result[k],
        ) by {
            let p = choose|p: int|
                0 <= p < pool.len() && #[trigger] pool[p] == result[k] && first_with_id(pool, p);
            if p < existing.len() {
                assert(existing[p] == result[k]);
            } else {
                lemma_candidates_hold_listed_ids(fetched, pool[p].video_id);
                assert(fresh[p - existing.len()] == pool[p]);
                assert(holds_id(fresh, pool[p].video_id));
                let j = choose|j: int|
                    0 <= j < fetched.len() && well_formed(#[trigger] fetched[j]) && fetched[j].id
                        == pool[p].video_id;
                let i = choose|i: int|
                    0 <= i < existing.len() && (#[trigger] existing[i]).video_id == fetched[j].id;
                assert(pool[i] == existing[i]);
                assert(pool[i].video_id != pool[p].video_id);
            }
        }
        lemma_sorted_is_unique(result);
        assert(result.no_duplicates());
        assert(existing.no_duplicates());
        assert(result.to_set() =~= existing.to_set());
        result.unique_seq_to_set();
        existing.unique_seq_to_set();
    }
}

/// Whenever the roster is merged, each identifier that the listing names on a
/// well-formed video has exactly one entry, and that entry is either an entry
/// of the roster, as it was, or the fresh entry of a listed video.
pub proof fn law_listed_id_has_one_entry(
    existing: Seq<TrackedView>,
    fetched: Seq<VideoView>,
    result: Seq<TrackedView>,
    id: Seq<char>,
)
    requires
        reconciled(existing, fetched, result),
        existing.len() != fetched.len(),
        lists_id(fetched, id),
    ensures
        exists|k: int|
            0 <= k < result.len() && {
                &&& (#[trigger] result[k]).video_id == id
                &&& existing.contains(result[k]) || candidates(fetched).contains(result[k])
                &&& forall|other: int|
                    0 <= other < result.len() && (#[trigger] result[other]).video_id == id
                        ==> other == k
            },
{
    let fresh = candidates(fetched);
    let pool = existing + fresh;
    lemma_candidates_hold_listed_ids(fetched, id);
    let c = choose|c: int| 0 <= c < fresh.len() && (#[trigger] fresh[c]).video_id == id;
    assert(pool[existing.len() + c] == fresh[c]);
    assert(holds_id(result, pool[existing.len() + c].video_id));
    let k = choose|k: int| 0 <= k < result.len() && (#[trigger] result[k]).video_id == id;
    let p = choose|p: int|
        0 <= p < pool.len() && #[trigger] pool[p] == result[k] && first_with_id(pool, p);
    if p < existing.len() {
        assert(existing[p] == result[k]);
    } else {
        assert(fresh[p - existing.len()] == result[k]);
    }
    lemma_sorted_is_unique(result);
    assert forall|other: int|
        0 <= other < result.len() && (#[trigger] result[other]).video_id == id implies other
        == k by {
        if other < k {
            assert(result[other].video_id != result[k].video_id);
        } else if k < other {
            assert(result[k].video_id != result[other].video_id);
        }
    }
}

/// Builds a fresh entry for each well-formed video of the listing.
fn fresh_entries(fetched: Vec<Video>) -> (fresh: Vec<TrackedVideo>)
    ensures
        roster_view(fresh@) == candidates(videos_view(fetched@)),
{
    let ghost listing = videos_view(fetched@);
    let ghost keep = |video: VideoView| well_formed(video);
    let ghost make = |video: VideoView| fresh_entry(video);
    let mut fresh: Vec<TrackedVideo> = Vec::new();
    proof {
        reveal(Seq::filter);
        assert(listing.take(0).filter(keep).map_values(make) =~= roster_view(fresh@));
    }
    for video in it: fetched.into_iter()
        invariant
            it.seq() == fetched@,
            listing == videos_view(fetched@),
            keep == |video: VideoView| well_formed(video),
            make == |video: VideoView| fresh_entry(video),
            roster_view(fresh@) == listing.take(it.index() as int).filter(keep).map_values(make),
    {
        let ghost k = it.index() as int;
        let ghost before = roster_view(fresh@);
        proof {
            assert(video == fetched@[k]);
            assert(listing.take(k + 1).drop_last() =~= listing.take(k));
            assert(listing.take(k + 1).last() == video@);
            reveal(Seq::filter);
        }
        let Video { title, id } = video;
        if !title.as_str().is_empty() && !id.as_str().is_empty() {
            fresh.push(
                TrackedVideo {
                    title,
                    video_id: id,
                    most_recent_timestamp: 0,
                    queued_comments: Vec::new(),
                    recheck_delay: DEFAULT_RECHECK_DELAY,
                },
            );
            proof {
                assert(fresh@.last()@.queued_comments =~= Seq::empty());
                assert(roster_view(fresh@) =~= before.push(fresh_entry(video@)));
                assert(listing.take(k + 1).filter(keep) =~= listing.take(k).filter(keep).push(
                    video@,
                ));
            }
        }
        assert(roster_view(fresh@) =~= listing.take(k + 1).filter(keep).map_values(make));
    }
    proof {
        assert(listing.take(listing.len() as int) =~= listing);
    }
    fresh
}

/// Where `id` stands in a sorted roster: the position of the entry that has it,
/// or the position at which an entry with it would keep the roster sorted.
fn locate(roster: &Vec<TrackedVideo>, id: &str) -> (found: (usize, bool))
    requires
        sorted_by_id(roster_view(roster@)),
    ensures
        found.0 <= roster.len(),
        forall|k: int| 0 <= k < found.0 ==> id_less(#[trigger] roster@[k]@.video_id, id@),
        found.1 ==> found.0 < roster.len() && roster@[found.0 as int]@.video_id == id@,
        !found.1 ==> forall|k: int|
            found.0 <= k < roster.len() ==> id_less(id@, #[trigger] roster@[k]@.video_id),
{
    let ghost entries = roster_view(roster@);
    let mut low: usize = 0;
    let mut high: usize = roster.len();
    while low < high
        invariant
            entries == roster_view(roster@),
            sorted_by_id(entries),
            low <= high <= roster.len(),
            forall|k: int| 0 <= k < low ==> id_less(#[trigger] roster@[k]@.video_id, id@),
            forall|k: int| high <= k < roster.len() ==> id_less(id@, #[trigger] roster@[k]@.video_id),
        decreases high - low,
    {
        let middle = low + (high - low) / 2;
        let here = rank_ids(roster[middle].video_id.as_str(), id);
        proof {
            assert(entries[middle as int] == roster@[middle as int]@);
            assert forall|k: int| 0 <= k < middle implies id_less(
                #[trigger] roster@[k]@.video_id,
                roster@[middle as int]@.video_id,
            ) by {
                assert(entries[k] == roster@[k]@);
            }
            assert forall|k: int| middle < k < roster.len() implies id_less(
                roster@[middle as int]@.video_id,
                #[trigger] roster@[k]@.video_id,
            ) by {
                assert(entries[k] == roster@[k]@);
            }
        }
        match here {
            Rank::Same => {
                return (middle, true);
            },
            Rank::Before => {
                proof {
                    assert forall|k: int| 0 <= k < middle + 1 implies id_less(
                        #[trigger] roster@[k]@.video_id,
                        id@,
                    ) by {
                        if k < middle {
                            lemma_id_less_transitive(
                                roster@[k]@.video_id,
                                roster@[middle as int]@.video_id,
                                id@,
                            );
                        }
                    }
                }
                low = middle + 1;
            },
            Rank::After => {
                proof {
                    assert forall|k: int| middle <= k < roster.len() implies id_less(
                        id@,
                        #[trigger] roster@[k]@.video_id,
                    ) by {
                        if middle < k {
                            lemma_id_less_transitive(
                                id@,
                                roster@[middle as int]@.video_id,
                                roster@[k]@.video_id,
                            );
                        }
                    }
                }
                high = middle;
            },
        }
    }
    (low, false)
}

/// Puts `entry` into a sorted roster at its place, unless the roster already
/// holds an entry with its identifier: then the roster stays as it is.
fn place(roster: &mut Vec<TrackedVideo>, entry: TrackedVideo)
    requires
        sorted_by_id(roster_view(old(roster)@)),
    ensures
        sorted_by_id(roster_view(final(roster)@)),
        holds_id(roster_view(old(roster)@), entry@.video_id) ==> roster_view(final(roster)@)
            == roster_view(old(roster)@),
        !holds_id(roster_view(old(roster)@), entry@.video_id) ==> exists|at: int|
            0 <= at <= old(roster).len() && roster_view(final(roster)@) == #[trigger] roster_view(
                old(roster)@,
            ).insert(at, entry@),
{
    let ghost before = roster_view(roster@);
    let (at, found) = locate(roster, entry.video_id.as_str());
    if found {
        proof {
            assert(before[at as int] == roster@[at as int]@);
        }
    } else {
        proof {
            if holds_id(before, entry@.video_id) {
                let j = choose|j: int|
                    0 <= j < before.len() && (#[trigger] before[j]).video_id == entry@.video_id;
                assert(before[j] == roster@[j]@);
                lemma_id_less_trichotomy(entry@.video_id, entry@.video_id);
            }
        }
        roster.insert(at, entry);
        proof {
            let after = roster_view(roster@);
            assert(after =~= before.insert(at as int, entry@));
            assert forall|i: int, j: int| 0 <= i < j < after.len() implies id_less(
                (#[trigger] after[i]).video_id,
                (#[trigger] after[j]).video_id,
            ) by {
                let a = if i < at { i } else { i - 1 };
                let b = if j < at { j } else { j - 1 };
                if i != at {
                    assert(before[a] == old(roster)@[a]@);
                    assert(after[i] == before[a]);
                }
                if j != at {
                    assert(before[b] == old(roster)@[b]@);
                    assert(after[j] == before[b]);
                }
            }
        }
    }
}

/// An entry that leads its identifier in a pool still does so when the pool grows
/// at its end.
proof fn lemma_leads_in_longer_pool(pool: Seq<TrackedView>, count: int, entry: TrackedView)
    requires
        0 <= count < pool.len(),
        leads_its_id(pool.take(count), entry),
    ensures
        leads_its_id(pool.take(count + 1), entry),
{
    let shorter = pool.take(count);
    let longer = pool.take(count + 1);
    let i = choose|i: int|
        0 <= i < shorter.len() && #[trigger] shorter[i] == entry && first_with_id(shorter, i);
    assert(longer[i] == entry);
    assert forall|k: int| 0 <= k < i implies (#[trigger] longer[k]).video_id
        != longer[i].video_id by {
        assert(shorter[k] == longer[k]);
    }
}

/// Places every entry of `entries`, in order, into the merge of the pool's first
/// `done` entries; `entries` are the pool's entries from `done` on.
fn place_all(
    result: &mut Vec<TrackedVideo>,
    entries: Vec<TrackedVideo>,
    Ghost(pool): Ghost<Seq<TrackedView>>,
    Ghost(done): Ghost<int>,
)
    requires
        0 <= done,
        done + entries.len() <= pool.len(),
        roster_view(entries@) == pool.subrange(done, done + entries.len()),
        merged(roster_view(old(result)@), pool.take(done)),
    ensures
        merged(roster_view(final(result)@), pool.take(done + entries.len())),
{
    let ghost incoming = roster_view(entries@);
    for entry in it: entries.into_iter()
        invariant
            it.seq() == entries@,
            incoming == roster_view(entries@),
            0 <= done,
            done + entries.len() <= pool.len(),
            incoming == pool.subrange(done, done + entries.len()),
            merged(roster_view(result@), pool.take(done + it.index())),
    {
        let ghost count = done + it.index();
        let ghost before = roster_view(result@);
        let ghost seen = pool.take(count);
        let ghost grown = pool.take(count + 1);
        proof {
            assert(entry == entries@[it.index() as int]);
            assert(incoming[it.index() as int] == entry@);
            assert(pool[count] == entry@);
            assert(grown[count] == entry@);
        }
        place(result, entry);
        proof {
            let after = roster_view(result@);
            if holds_id(before, entry@.video_id) {
                assert forall|j: int| 0 <= j < after.len() implies leads_its_id(
                    grown,
                    #[trigger] after[j],
                ) by {
                    lemma_leads_in_longer_pool(pool, count, before[j]);
                }
                assert forall|i: int| 0 <= i < grown.len() implies holds_id(
                    after,
                    (#[trigger] grown[i]).video_id,
                ) by {
                    if i < count {
                        assert(seen[i] == grown[i]);
                    }
                }
            } else {
                let at = choose|at: int|
                    0 <= at <= before.len() && after == #[trigger] before.insert(at, entry@);
                assert forall|i: int| 0 <= i < count implies (#[trigger] grown[i]).video_id
                    != grown[count].video_id by {
                    assert(seen[i] == grown[i]);
                    assert(holds_id(before, seen[i].video_id));
                }
                assert(first_with_id(grown, count));
                assert forall|j: int| 0 <= j < after.len() implies leads_its_id(
                    grown,
                    #[trigger] after[j],
                ) by {
                    if j < at {
                        assert(after[j] == before[j]);
                        lemma_leads_in_longer_pool(pool, count, before[j]);
                    } else if j > at {
                        assert(after[j] == before[j - 1]);
                        lemma_leads_in_longer_pool(pool, count, before[j - 1]);
                    }
                }
                assert forall|i: int| 0 <= i < grown.len() implies holds_id(
                    after,
                    (#[trigger] grown[i]).video_id,
                ) by {
                    if i < count {
                        assert(seen[i] == grown[i]);
                        let j = choose|j: int|
                            0 <= j < before.len() && (#[trigger] before[j]).video_id
                                == seen[i].video_id;
                        if j < at {
                            assert(after[j] == before[j]);
                        } else {
                            assert(after[j + 1] == before[j]);
                        }
                    } else {
                        assert(after[at] == entry@);
                    }
                }
            }
        }
    }
}

/// Reconciles the roster with the channel's current listing. When the roster
/// has as many entries as the listing has videos, it is handed back as it is.
/// Otherwise every listed video whose identifier the roster does not hold yet
/// gets a fresh entry, unless it lacks a title or an identifier: such a video is
/// passed over. The roster then comes back sorted by identifier, each identifier
/// once, an existing entry always winning over a fresh one.
pub fn reconcile(existing: Vec<TrackedVideo>, fetched: Vec<Video>) -> (result: Vec<TrackedVideo>)
    ensures
        reconciled(roster_view(existing@), videos_view(fetched@), roster_view(result@)),
{
    if existing.len() == fetched.len() {
        return existing;
    }
    let fresh = fresh_entries(fetched);
    let ghost pool = roster_view(existing@) + roster_view(fresh@);
    let mut result: Vec<TrackedVideo> = Vec::new();
    proof {
        assert(pool.subrange(0, existing.len() as int) =~= roster_view(existing@));
        assert(pool.subrange(existing.len() as int, existing.len() + fresh.len()) =~= roster_view(
            fresh@,
        ));
        assert(pool.take(pool.len() as int) =~= pool);
    }
    place_all(&mut result, existing, Ghost(pool), Ghost(0));
    place_all(&mut result, fresh, Ghost(pool), Ghost(existing.len() as int));
    result
}

/// Brings the roster up to date with the outcome of fetching the channel's
/// listing. A listing is reconciled with the roster; a failed fetch is handed
/// on together with the roster, untouched.
pub fn update_video_list(
    existing: Vec<TrackedVideo>,
    fetched: Result<Vec<Video>, ChannelVideosFail>,
) -> (r: Result<Vec<TrackedVideo>, ListUpdateFailure>)
    ensures
        match fetched {
            Ok(videos) => r matches Ok(updated) && reconciled(
                roster_view(existing@),
                videos_view(videos@),
                roster_view(updated@),
            ),
            Err(fail) => r matches Err(failure) && failure.roster == existing && failure.error
                == ListUpdateError::ChannelIssue(fail),
        },
{
    match fetched {
        Ok(videos) => Ok(reconcile(existing, videos)),
        Err(fail) => Err(
            ListUpdateFailure { roster: existing, error: ListUpdateError::ChannelIssue(fail) },
        ),
    }
}

} // verus!
