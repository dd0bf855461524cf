//! The ways a request, a listing or a whole pass can fail.

use crate::model::TrackedVideo;
use vstd::prelude::*;

verus! {

/// A transfer that did not produce a response body.
#[derive(Debug, Clone, PartialEq, Eq)]
pub enum CurlFail {
    SomethingBroke(String),
    BadURL,
    DataIssue,
    HeaderIssue,
}

pub enum CurlFailView {
    SomethingBroke(Seq<char>),
    BadURL,
    DataIssue,
    HeaderIssue,
}

impl View for CurlFail {
    type V = CurlFailView;

    open spec fn view(&self) -> CurlFailView {
        match self {
            CurlFail::SomethingBroke(message) => CurlFailView::SomethingBroke(message@),
            CurlFail::BadURL => CurlFailView::BadURL,
            CurlFail::DataIssue => CurlFailView::DataIssue,
            CurlFail::HeaderIssue => CurlFailView::HeaderIssue,
        }
    }
}

/// Why the recent comments of a video could not be had.
#[derive(Debug, Clone, PartialEq, Eq)]
pub enum CommentFail {
    /// The video has no comments: an empty result rather than a fault.
    NoComments,
    BadKey,
    CurlFailure(CurlFail),
    SomethingElse(String),
    /// A comment's publication time is no time at or after the epoch.
    EpochFail,
}

pub enum CommentFailView {
    NoComments,
    BadKey,
    CurlFailure(CurlFailView),
    SomethingElse(Seq<char>),
    EpochFail,
}

impl View for CommentFail {
    type V = CommentFailView;

    open spec fn view(&self) -> CommentFailView {
        match self {
            CommentFail::NoComments => CommentFailView::NoComments,
            CommentFail::BadKey => CommentFailView::BadKey,
            CommentFail::CurlFailure(transfer) => CommentFailView::CurlFailure(transfer@),
            CommentFail::SomethingElse(message) => CommentFailView::SomethingElse(message@),
            CommentFail::EpochFail => CommentFailView::EpochFail,
        }
    }
}

/// Why the videos of a channel could not be had.
#[derive(Debug, Clone, PartialEq, Eq)]
pub enum ChannelVideosFail {
    NoVideos,
    BadKey,
    CurlFailure(CurlFail),
    SomethingElse(String),
}

pub enum ChannelVideosFailView {
    NoVideos,
    BadKey,
    CurlFailure(CurlFailView),
    SomethingElse(Seq<char>),
}

impl View for ChannelVideosFail {
    type V = ChannelVideosFailView;

    open spec fn view(&self) -> ChannelVideosFailView {
        match self {
            ChannelVideosFail::NoVideos => ChannelVideosFailView::NoVideos,
            ChannelVideosFail::BadKey => ChannelVideosFailView::BadKey,
            ChannelVideosFail::CurlFailure(transfer) => ChannelVideosFailView::CurlFailure(
                transfer@,
            ),
            ChannelVideosFail::SomethingElse(message) => ChannelVideosFailView::SomethingElse(
                message@,
            ),
        }
    }
}

/// Why the roster could not be brought up to date.
#[derive(Debug, Clone, PartialEq, Eq)]
pub enum ListUpdateError {
    ChannelIssue(ChannelVideosFail),
    SomethingElse(String),
}

pub enum ListUpdateErrorView {
    ChannelIssue(ChannelVideosFailView),
    SomethingElse(Seq<char>),
}

impl View for ListUpdateError {
    type V = ListUpdateErrorView;

    open spec fn view(&self) -> ListUpdateErrorView {
        match self {
            ListUpdateError::ChannelIssue(fail) => ListUpdateErrorView::ChannelIssue(fail@),
            ListUpdateError::SomethingElse(message) => ListUpdateErrorView::SomethingElse(
                message@,
            ),
        }
    }
}

/// Why a pass over the roster's comments stopped early.
#[derive(Debug, Clone, PartialEq, Eq)]
pub enum CommentQueueFail {
    SomethingElse(String),
    CommentFailed(CommentFail),
    CurlFailed(CurlFail),
}

pub enum CommentQueueFailView {
    SomethingElse(Seq<char>),
    CommentFailed(CommentFailView),
    CurlFailed(CurlFailView),
}

impl View for CommentQueueFail {
    type V = CommentQueueFailView;

    open spec fn view(&self) -> CommentQueueFailView {
        match self {
            CommentQueueFail::SomethingElse(message) => CommentQueueFailView::SomethingElse(
                message@,
            ),
            CommentQueueFail::CommentFailed(fail) => CommentQueueFailView::CommentFailed(fail@),
            CommentQueueFail::CurlFailed(transfer) => CommentQueueFailView::CurlFailed(transfer@),
        }
    }
}

/// Why the key could not be shown to be good.
#[derive(Debug, Clone, PartialEq, Eq)]
pub enum KeyTestFail {
    CurlFailure(CurlFail),
    BadKey,
    SomethingBroke(String),
}

pub enum KeyTestFailView {
    CurlFailure(CurlFailView),
    BadKey,
    SomethingBroke(Seq<char>),
}

impl View for KeyTestFail {
    type V = KeyTestFailView;

    open spec fn view(&self) -> KeyTestFailView {
        match self {
            KeyTestFail::CurlFailure(transfer) => KeyTestFailView::CurlFailure(transfer@),
            KeyTestFail::BadKey => KeyTestFailView::BadKey,
            KeyTestFail::SomethingBroke(message) => KeyTestFailView::SomethingBroke(message@),
        }
    }
}

/// Why the channel could not be shown to exist.
#[derive(Debug, Clone, PartialEq, Eq)]
pub enum ChannelTestFail {
    CurlFailure(CurlFail),
    BadChannel,
    SomethingBroke(String),
}

pub enum ChannelTestFailView {
    CurlFailure(CurlFailView),
    BadChannel,
    SomethingBroke(Seq<char>),
}

impl View for ChannelTestFail {
    type V = ChannelTestFailView;

    open spec fn view(&self) -> ChannelTestFailView {
        match self {
            ChannelTestFail::CurlFailure(transfer) => ChannelTestFailView::CurlFailure(transfer@),
            ChannelTestFail::BadChannel => ChannelTestFailView::BadChannel,
            ChannelTestFail::SomethingBroke(message) => ChannelTestFailView::SomethingBroke(
                message@,
            ),
        }
    }
}

/// What a pass that stopped early hands back: the roster as the pass left it,
/// the position of the video whose fetch failed, and the failure.
#[derive(Debug, Clone, PartialEq, Eq)]
pub struct CommentQueueFailure {
    pub roster: Vec<TrackedVideo>,
    pub failed_at: usize,
    pub error: CommentQueueFail,
}

/// What a failed update hands back: the roster, untouched, and the failure.
#[derive(Debug, Clone, PartialEq, Eq)]
pub struct ListUpdateFailure {
    pub roster: Vec<TrackedVideo>,
    pub error: ListUpdateError,
}

} // verus!
