//! Watermark-based diffing: which fetched comments are new, and what the
//! watermark becomes.

use crate::failure::{
    CommentFail, CommentFailView, CommentQueueFail, CommentQueueFailView, CommentQueueFailure,
};
use crate::model::{
    comments_view, roster_view, CommentView, TrackedVideo, TrackedView, YTComment,
};
use crate::roster::unique_ids;
use vstd::prelude::*;

verus! {

/// The test a comment passes when it is at or past the watermark.
pub open spec fn at_or_past(watermark: nat) -> spec_fn(CommentView) -> bool {
    |c: CommentView| c.timestamp >= watermark
}

/// The fetched comments that are at or past the watermark, in fetch order.
pub open spec fn fresh_comments(fetched: Seq<CommentView>, watermark: nat) -> Seq<CommentView> {
    fetched.filter(at_or_past(watermark))
}

/// The newest timestamp among the watermark and the fetched comments.
pub open spec fn latest_timestamp(fetched: Seq<CommentView>, watermark: nat) -> nat
    decreases fetched.len(),
{
    if fetched.len() == 0 {
        watermark
    } else {
        let before = latest_timestamp(fetched.drop_last(), watermark);
        if fetched.last().timestamp >= before {
            fetched.last().timestamp
        } else {
            before
        }
    }
}

/// A roster entry after the fetched comments have been diffed against it.
pub open spec fn queued(video: TrackedView, fetched: Seq<CommentView>) -> TrackedView {
    TrackedView {
        most_recent_timestamp: latest_timestamp(fetched, video.most_recent_timestamp),
        queued_comments: video.queued_comments + fresh_comments(
            fetched,
            video.most_recent_timestamp,
        ),
        ..video
    }
}

/// The new watermark is the newest timestamp there is: no less than the old
/// watermark, no less than any fetched comment's, and one of these.
pub proof fn law_latest_is_newest(fetched: Seq<CommentView>, watermark: nat)
    ensures
        latest_timestamp(fetched, watermark) >= watermark,
        forall|i: int|
            0 <= i < fetched.len() ==> (#[trigger] fetched[i]).timestamp <= latest_timestamp(
                fetched,
                watermark,
            ),
        latest_timestamp(fetched, watermark) == watermark || exists|i: int|
            0 <= i < fetched.len() && (#[trigger] fetched[i]).timestamp == latest_timestamp(
                fetched,
                watermark,
            ),
    decreases fetched.len(),
{
    if fetched.len() > 0 {
        let shorter = fetched.drop_last();
        law_latest_is_newest(shorter, watermark);
        assert forall|i: int| 0 <= i < fetched.len() implies (#[trigger] fetched[i]).timestamp
            <= latest_timestamp(fetched, watermark) by {
            if i < shorter.len() {
                assert(shorter[i] == fetched[i]);
            }
        }
        if latest_timestamp(fetched, watermark) != watermark {
            if fetched.last().timestamp >= latest_timestamp(shorter, watermark) {
                assert(fetched[fetched.len() - 1].timestamp == latest_timestamp(
                    fetched,
                    watermark,
                ));
            } else {
                let i = choose|i: int|
                    0 <= i < shorter.len() && (#[trigger] shorter[i]).timestamp
                        == latest_timestamp(shorter, watermark);
                assert(fetched[i] == shorter[i]);
            }
        }
    }
}

/// Nothing older than the watermark is queued again. Diffing leaves the queue
/// as it was and appends to it exactly the fetched comments at or past the
/// watermark: each appended comment was fetched and is no older than the
/// watermark, and each fetched comment at or past the watermark is appended.
pub proof fn law_no_redelivery(video: TrackedView, fetched: Seq<CommentView>)
    ensures
        ({
            let before = video.queued_comments;
            let after = queued(video, fetched).queued_comments;
            let added = after.skip(before.len() as int);
            &&& before.len() <= after.len()
            &&& after.take(before.len() as int) == before
            &&& forall|k: int|
                0 <= k < added.len() ==> (#[trigger] added[k]).timestamp
                    >= video.most_recent_timestamp && fetched.contains(added[k])
            &&& forall|i: int|
                0 <= i < fetched.len() && (#[trigger] fetched[i]).timestamp
                    >= video.most_recent_timestamp ==> added.contains(fetched[i])
            &&& forall|i: int|
                0 <= i < fetched.len() && (#[trigger] fetched[i]).timestamp
                    < video.most_recent_timestamp ==> !added.contains(fetched[i])
        }),
{
    let before = video.queued_comments;
    let test = at_or_past(video.most_recent_timestamp);
    let fresh = fetched.filter(test);
    let after = queued(video, fetched).queued_comments;
    let added = after.skip(before.len() as int);
    assert(after.take(before.len() as int) =~= before);
    assert(added =~= fresh);
    assert forall|k: int| 0 <= k < added.len() implies (#[trigger] added[k]).timestamp
        >= video.most_recent_timestamp && fetched.contains(added[k]) by {
        fetched.lemma_filter_pred(test, k);
        assert(fresh.contains(fresh[k]));
        fetched.lemma_filter_contains_rev(test, fresh[k]);
    }
    assert forall|i: int|
        0 <= i < fetched.len() && (#[trigger] fetched[i]).timestamp
            >= video.most_recent_timestamp implies added.contains(fetched[i]) by {
        fetched.lemma_filter_contains(test, i);
    }
    assert forall|i: int|
        0 <= i < fetched.len() && (#[trigger] fetched[i]).timestamp
            < video.most_recent_timestamp implies !added.contains(fetched[i]) by {
        if added.contains(fetched[i]) {
            let k = choose|k: int| 0 <= k < added.len() && added[k] == fetched[i];
            fetched.lemma_filter_pred(test, k);
        }
    }
}

/// Diffs the fetched comments against one video: those at or past its watermark
/// join its queue in fetch order, and the watermark moves up to the newest of them.
pub fn queue_video(video: &mut TrackedVideo, comments: Vec<YTComment>)
    ensures
        final(video)@ == queued(old(video)@, comments_view(comments@)),
{
    let watermark = video.most_recent_timestamp;
    let ghost fetched = comments_view(comments@);
    let ghost start = video@;
    let mut newest: u64 = watermark;
    for comment in it: comments.into_iter()
        invariant
            it.seq() == comments@,
            fetched == comments_view(comments@),
            watermark == start.most_recent_timestamp,
            watermark <= newest,
            newest == latest_timestamp(fetched.take(it.index() as int), watermark as nat),
            video@ == (TrackedView {
                queued_comments: start.queued_comments + fresh_comments(
                    fetched.take(it.index() as int),
                    watermark as nat,
                ),
                ..start
            }),
    {
        let ghost k = it.index() as int;
        let ghost queue_before = video@.queued_comments;
        proof {
            assert(comment == comments@[k]);
            assert(fetched.take(k + 1).drop_last() =~= fetched.take(k));
            assert(fetched.take(k + 1).last() == comment@);
            reveal(Seq::filter);
        }
        if comment.timestamp >= watermark {
            if comment.timestamp >= newest {
                newest = comment.timestamp;
            }
            video.queued_comments.push(comment);
            assert(video@.queued_comments =~= queue_before.push(comment@));
        }
        assert(fresh_comments(fetched.take(k + 1), watermark as nat) =~= if comment.timestamp
            >= watermark {
            fresh_comments(fetched.take(k), watermark as nat).push(comment@)
        } else {
            fresh_comments(fetched.take(k), watermark as nat)
        });
    }
    video.most_recent_timestamp = newest;
    proof {
        assert(fetched.take(fetched.len() as int) =~= fetched);
    }
}

/// What fetching a video's comments gave, as a view: the comments, or the failure.
pub open spec fn outcome_view(outcome: Result<Vec<YTComment>, CommentFail>) -> Result<
    Seq<CommentView>,
    CommentFailView,
> {
    match outcome {
        Ok(comments) => Ok(comments_view(comments@)),
        Err(fail) => Err(fail@),
    }
}

/// The views of a sequence of fetch outcomes, in the same order.
pub open spec fn outcomes_view(outcomes: Seq<Result<Vec<YTComment>, CommentFail>>) -> Seq<
    Result<Seq<CommentView>, CommentFailView>,
> {
    Seq::new(outcomes.len(), |i: int| outcome_view(outcomes[i]))
}

/// Whether a fetch outcome stops the pass: every failure does, except the
/// report that the video has no comments.
pub open spec fn aborts(outcome: Result<Seq<CommentView>, CommentFailView>) -> bool {
    outcome matches Err(fail) && !(fail is NoComments)
}

/// The failure of the pass that a failed fetch turns into.
pub open spec fn pass_failure(fail: CommentFailView) -> CommentQueueFailView {
    match fail {
        CommentFailView::CurlFailure(transfer) => CommentQueueFailView::CurlFailed(transfer),
        CommentFailView::SomethingElse(message) => CommentQueueFailView::SomethingElse(message),
        other => CommentQueueFailView::CommentFailed(other),
    }
}

/// A roster entry after a fetch outcome that lets the pass go on: fetched
/// comments are diffed against it, and a video without comments stays as it is.
pub open spec fn settled(
    video: TrackedView,
    outcome: Result<Seq<CommentView>, CommentFailView>,
) -> TrackedView {
    match outcome {
        Ok(comments) => queued(video, comments),
        Err(_) => video,
    }
}

/// The roster after the first `done` videos have each been settled with the
/// outcome of the same position; the others are as they were.
pub open spec fn pass_result(
    roster: Seq<TrackedView>,
    outcomes: Seq<Result<Seq<CommentView>, CommentFailView>>,
    done: int,
) -> Seq<TrackedView> {
    Seq::new(
        roster.len(),
        |i: int|
            if i < done {
                settled(roster[i], outcomes[i])
            } else {
                roster[i]
            },
    )
}

/// Whether none of the first `count` outcomes stops the pass.
pub open spec fn quiet_before(
    outcomes: Seq<Result<Seq<CommentView>, CommentFailView>>,
    count: int,
) -> bool {
    forall|i: int| 0 <= i < count ==> !aborts(#[trigger] outcomes[i])
}

/// A pass changes no entry but in its watermark and its queue, and lowers no
/// watermark: the roster keeps its length, and each entry its title, its
/// identifier and its delay.
pub proof fn law_pass_never_lowers_a_watermark(
    roster: Seq<TrackedView>,
    outcomes: Seq<Result<Seq<CommentView>, CommentFailView>>,
    done: int,
)
    ensures
        pass_result(roster, outcomes, done).len() == roster.len(),
        forall|i: int|
            0 <= i < roster.len() ==> {
                let after = #[trigger] pass_result(roster, outcomes, done)[i];
                &&& after.most_recent_timestamp >= roster[i].most_recent_timestamp
                &&& after.video_id == roster[i].video_id
                &&& after.title == roster[i].title
                &&& after.recheck_delay == roster[i].recheck_delay
            },
{
    assert forall|i: int| 0 <= i < roster.len() implies {
        let after = #[trigger] pass_result(roster, outcomes, done)[i];
        &&& after.most_recent_timestamp >= roster[i].most_recent_timestamp
        &&& after.video_id == roster[i].video_id
        &&& after.title == roster[i].title
        &&& after.recheck_delay == roster[i].recheck_delay
    } by {
        if i < done {
            if let Ok(comments) = outcomes[i] {
                law_latest_is_newest(comments, roster[i].most_recent_timestamp);
            }
        }
    }
}

/// A pass leaves a roster without repeated identifiers without them.
pub proof fn law_pass_keeps_ids_unique(
    roster: Seq<TrackedView>,
    outcomes: Seq<Result<Seq<CommentView>, CommentFailView>>,
    done: int,
)
    requires
        unique_ids(roster),
    ensures
        unique_ids(pass_result(roster, outcomes, done)),
{
    law_pass_never_lowers_a_watermark(roster, outcomes, done);
}

/// One roster comes from another by a pass: by some outcomes, of which some
/// number were applied.
pub open spec fn one_pass_apart(before: Seq<TrackedView>, after: Seq<TrackedView>) -> bool {
    exists|outcomes: Seq<Result<Seq<CommentView>, CommentFailView>>, done: int|
        after == #[trigger] pass_result(before, outcomes, done)
}

/// Over any number of passes, one after the other, no watermark ever goes down.
/// `rosters` holds the roster before the first pass and after each pass.
pub proof fn law_watermarks_rise_over_passes(
    rosters: Seq<Seq<TrackedView>>,
    earlier: int,
    later: int,
)
    requires
        forall|n: int|
            0 <= n < rosters.len() - 1 ==> one_pass_apart(#[trigger] rosters[n], rosters[n + 1]),
        0 <= earlier <= later < rosters.len(),
    ensures
        rosters[later].len() == rosters[earlier].len(),
        forall|i: int|
            0 <= i < rosters[earlier].len() ==> {
                &&& (#[trigger] rosters[later][i]).most_recent_timestamp
                    >= rosters[earlier][i].most_recent_timestamp
                &&& rosters[later][i].video_id == rosters[earlier][i].video_id
            },
    decreases later - earlier,
{
    if earlier < later {
        law_watermarks_rise_over_passes(rosters, earlier, later - 1);
        let before = rosters[later - 1];
        assert(one_pass_apart(before, rosters[later - 1 + 1]));
        let (outcomes, done) = choose|
            outcomes: Seq<Result<Seq<CommentView>, CommentFailView>>,
            done: int,
        | rosters[later] == #[trigger] pass_result(before, outcomes, done);
        law_pass_never_lowers_a_watermark(before, outcomes, done);
        assert forall|i: int| 0 <= i < rosters[earlier].len() implies {
            &&& (#[trigger] rosters[later][i]).most_recent_timestamp
                >= rosters[earlier][i].most_recent_timestamp
            &&& rosters[later][i].video_id == rosters[earlier][i].video_id
        } by {
            assert(rosters[later][i] == pass_result(before, outcomes, done)[i]);
            assert(rosters[later - 1][i].most_recent_timestamp
                >= rosters[earlier][i].most_recent_timestamp);
        }
    }
}

/// A pass over the roster's comments, one video at a time. Whoever drives it
/// fetches the comments of the video it wants and records the outcome.
pub struct CommentPass {
    roster: Vec<TrackedVideo>,
    cursor: usize,
    failure: Option<CommentQueueFail>,
}

pub struct PassView {
    pub roster: Seq<TrackedView>,
    /// How many videos the pass has dealt with.
    pub cursor: nat,
    /// What stopped the pass, if anything did.
    pub failure: Option<CommentQueueFailView>,
}

impl PassView {
    /// Whether the pass waits for the outcome of another fetch.
    pub open spec fn wants(self) -> bool {
        self.failure is None && self.cursor < self.roster.len()
    }

    /// The pass after one more fetch outcome.
    pub open spec fn step(self, outcome: Result<Seq<CommentView>, CommentFailView>) -> PassView {
        if !self.wants() {
            self
        } else if aborts(outcome) {
            PassView { failure: Some(pass_failure(outcome->Err_0)), ..self }
        } else {
            PassView {
                roster: self.roster.update(
                    self.cursor as int,
                    settled(self.roster[self.cursor as int], outcome),
                ),
                cursor: self.cursor + 1,
                ..self
            }
        }
    }
}

impl View for CommentPass {
    type V = PassView;

    closed spec fn view(&self) -> PassView {
        PassView {
            roster: roster_view(self.roster@),
            cursor: self.cursor as nat,
            failure: match self.failure {
                Some(fail) => Some(fail@),
                None => None,
            },
        }
    }
}

impl CommentPass {
    #[verifier::type_invariant]
    spec fn cursor_in_range(self) -> bool {
        self.cursor <= self.roster.len()
    }

    /// Starts a pass over `roster` at its first video.
    pub fn begin(roster: Vec<TrackedVideo>) -> (pass: CommentPass)
        ensures
            pass@ == (PassView { roster: roster_view(roster@), cursor: 0, failure: None }),
    {
        CommentPass { roster, cursor: 0, failure: None }
    }

    /// The identifier of the video whose comments are wanted next; `None` once
    /// every video is dealt with or the pass has stopped.
    pub fn wanted(&self) -> (id: Option<&String>)
        ensures
            self@.wants() <==> id is Some,
            id matches Some(video_id) ==> video_id@ == self@.roster[self@.cursor as int].video_id,
    {
        proof {
            use_type_invariant(self);
        }
        if self.failure.is_none() && self.cursor < self.roster.len() {
            Some(&self.roster[self.cursor].video_id)
        } else {
            None
        }
    }

    /// Ends the pass and hands the roster back: as a failure if a fetch stopped
    /// the pass, with the videos before it settled and the others untouched.
    pub fn finish(self) -> (r: Result<Vec<TrackedVideo>, CommentQueueFailure>)
        ensures
            match r {
                Ok(roster) => self@.failure is None && roster_view(roster@) == self@.roster,
                Err(stopped) => {
                    &&& self@.failure == Some(stopped.error@)
                    &&& roster_view(stopped.roster@) == self@.roster
                    &&& stopped.failed_at == self@.cursor
                },
            },
    {
        match self.failure {
            None => Ok(self.roster),
            Some(error) => Err(
                CommentQueueFailure { roster: self.roster, failed_at: self.cursor, error },
            ),
        }
    }

    /// Records the outcome of fetching the wanted video's comments. Nothing
    /// changes when no video is wanted.
    pub fn record(&mut self, outcome: Result<Vec<YTComment>, CommentFail>)
        ensures
            final(self)@ == old(self)@.step(outcome_view(outcome)),
    {
        proof {
            use_type_invariant(&*self);
        }
        if self.failure.is_some() || self.cursor >= self.roster.len() {
            return ;
        }
        match outcome {
            Ok(comments) => {
                let ghost before = roster_view(self.roster@);
                queue_video(&mut self.roster[self.cursor], comments);
                assert(roster_view(self.roster@) =~= before.update(
                    self.cursor as int,
                    queued(before[self.cursor as int], comments_view(comments@)),
                ));
                self.cursor = self.cursor + 1;
            },
            Err(CommentFail::NoComments) => {
                assert(self@.roster.update(self.cursor as int, self@.roster[self.cursor as int])
                    =~= self@.roster);
                self.cursor = self.cursor + 1;
            },
            Err(CommentFail::CurlFailure(transfer)) => {
                self.failure = Some(CommentQueueFail::CurlFailed(transfer));
            },
            Err(CommentFail::SomethingElse(message)) => {
                self.failure = Some(CommentQueueFail::SomethingElse(message));
            },
            Err(other) => {
                self.failure = Some(CommentQueueFail::CommentFailed(other));
            },
        }
    }
}

/// One pass of the diff over the roster. `outcomes[i]` is what fetching the
/// recent comments of `video_list[i]` gave. Videos are settled in order: fetched
/// comments are diffed against the video, a video without comments stays as it
/// is, and any other failure stops the pass there, leaving that video and all
/// after it untouched and the earlier ones settled. Videos for which no outcome
/// is supplied are left untouched; outcomes beyond the roster are ignored.
pub fn queue_comments(
    video_list: Vec<TrackedVideo>,
    outcomes: Vec<Result<Vec<YTComment>, CommentFail>>,
) -> (r: Result<Vec<TrackedVideo>, CommentQueueFailure>)
    ensures
        ({
            let roster = roster_view(video_list@);
            let fetched = outcomes_view(outcomes@);
            let supplied = if outcomes.len() < video_list.len() {
                outcomes.len() as int
            } else {
                video_list.len() as int
            };
            match r {
                Ok(updated) => {
                    &&& quiet_before(fetched, supplied)
                    &&& roster_view(updated@) == pass_result(roster, fetched, supplied)
                },
                Err(stopped) => {
                    &&& stopped.failed_at < supplied
                    &&& quiet_before(fetched, stopped.failed_at as int)
                    &&& aborts(fetched[stopped.failed_at as int])
                    &&& stopped.error@ == pass_failure(fetched[stopped.failed_at as int]->Err_0)
                    &&& roster_view(stopped.roster@) == pass_result(
                        roster,
                        fetched,
                        stopped.failed_at as int,
                    )
                },
            }
        }),
{
    let ghost roster = roster_view(video_list@);
    let ghost n = video_list.len() as int;
    let ghost fetched = outcomes_view(outcomes@);
    let mut pass = CommentPass::begin(video_list);
    proof {
        assert(pass@.roster =~= pass_result(roster, fetched, 0));
    }
    for outcome in it: outcomes.into_iter()
        invariant
            it.seq() == outcomes@,
            fetched == outcomes_view(outcomes@),
            roster.len() == n,
            pass@.roster == pass_result(roster, fetched, pass@.cursor as int),
            pass@.cursor <= n,
            pass@.cursor <= it.index(),
            quiet_before(fetched, pass@.cursor as int),
            pass@.failure is None ==> pass@.cursor == it.index() || pass@.cursor == n,
            pass@.failure matches Some(error) ==> {
                &&& pass@.cursor < n
                &&& pass@.cursor < it.index()
                &&& aborts(fetched[pass@.cursor as int])
                &&& error == pass_failure(fetched[pass@.cursor as int]->Err_0)
            },
    {
        let ghost before = pass@;
        assert(outcome == outcomes@[it.index() as int]);
        assert(fetched[it.index() as int] == outcome_view(outcome));
        pass.record(outcome);
        proof {
            if before.wants() && !aborts(outcome_view(outcome)) {
                assert(pass@.roster =~= pass_result(roster, fetched, pass@.cursor as int));
            }
        }
    }
    pass.finish()
}

} // verus!
