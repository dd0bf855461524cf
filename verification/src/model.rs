//! The data that travels through a polling cycle, each with its mathematical view.

use vstd::prelude::*;

verus! {

/// Seconds a freshly discovered video waits before it is looked at again.
pub const DEFAULT_RECHECK_DELAY: u16 = 10;

/// A video as the channel listing reports it.
#[derive(Debug, Clone, PartialEq, Eq)]
pub struct Video {
    pub title: String,
    pub id: String,
}

pub struct VideoView {
    pub title: Seq<char>,
    pub id: Seq<char>,
}

impl View for Video {
    type V = VideoView;

    open spec fn view(&self) -> VideoView {
        VideoView { title: self.title@, id: self.id@ }
    }
}

/// A top-level comment, stamped in seconds since the epoch.
#[derive(Debug, Clone, PartialEq, Eq)]
pub struct YTComment {
    pub content: String,
    pub author_name: String,
    pub timestamp: u64,
}

pub struct CommentView {
    pub content: Seq<char>,
    pub author_name: Seq<char>,
    pub timestamp: nat,
}

impl View for YTComment {
    type V = CommentView;

    open spec fn view(&self) -> CommentView {
        CommentView {
            content: self.content@,
            author_name: self.author_name@,
            timestamp: self.timestamp as nat,
        }
    }
}

/// A video of the roster together with its polling state.
#[derive(Debug, Clone, PartialEq, Eq)]
pub struct TrackedVideo {
    pub title: String,
    pub video_id: String,
    /// Timestamp of the newest comment already queued for this video.
    pub most_recent_timestamp: u64,
    /// Comments waiting to be presented.
    pub queued_comments: Vec<YTComment>,
    /// Seconds to wait until the next look at this video.
    pub recheck_delay: u16,
}

pub struct TrackedView {
    pub title: Seq<char>,
    pub video_id: Seq<char>,
    pub most_recent_timestamp: nat,
    pub queued_comments: Seq<CommentView>,
    pub recheck_delay: nat,
}

impl View for TrackedVideo {
    type V = TrackedView;

    open spec fn view(&self) -> TrackedView {
        TrackedView {
            title: self.title@,
            video_id: self.video_id@,
            most_recent_timestamp: self.most_recent_timestamp as nat,
            queued_comments: comments_view(self.queued_comments@),
            recheck_delay: self.recheck_delay as nat,
        }
    }
}

/// The views of a sequence of comments, in the same order.
pub open spec fn comments_view(comments: Seq<YTComment>) -> Seq<CommentView> {
    Seq::new(comments.len(), |i: int| comments[i]@)
}

/// The views of a sequence of fetched videos, in the same order.
pub open spec fn videos_view(videos: Seq<Video>) -> Seq<VideoView> {
    Seq::new(videos.len(), |i: int| videos[i]@)
}

/// The views of a roster's entries, in the same order.
pub open spec fn roster_view(roster: Seq<TrackedVideo>) -> Seq<TrackedView> {
    Seq::new(roster.len(), |i: int| roster[i]@)
}

} // verus!
