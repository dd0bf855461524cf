//! What a response body says: the videos of a channel, the recent comments of a
//! video, and whether a key or a channel is good.

use crate::failure::{
    ChannelTestFail, ChannelTestFailView, ChannelVideosFail, ChannelVideosFailView, CommentFail,
    CommentFailView, CurlFail, KeyTestFail, KeyTestFailView,
};
use crate::json::{
    json_document, json_text, lemma_values_view, read_document, rebuilt, values_view, write_json,
    Json, JsonView,
};
use crate::model::{comments_view, videos_view, CommentView, Video, VideoView, YTComment};
use crate::text::{decimal, push_decimal, strip_quotes, without_quotes};
use vstd::prelude::*;
use vstd::string::StringExecFns;

verus! {

/// The error code that marks a request as malformed: a bad key, or a bad channel.
pub const BAD_REQUEST: i64 = 400;

/// The seconds since the epoch of the moment that an RFC 3339 text names, if it
/// names one: what `chrono` makes of it.
pub uninterp spec fn rfc3339_epoch_seconds(text: Seq<char>) -> Option<i64>;

/// Parses an RFC 3339 date and time with `chrono::DateTime::parse_from_rfc3339`
/// and takes the parsed moment's `timestamp`: its seconds since the epoch, not
/// counting leap seconds. A text that does not parse gives nothing. The same
/// text always gives the same seconds.
#[verifier::external_body]
fn epoch_seconds(text: &str) -> (seconds: Option<i64>)
    ensures
        seconds == rfc3339_epoch_seconds(text@),
{
    match chrono::DateTime::parse_from_rfc3339(text) {
        Ok(moment) => Some(moment.timestamp()),
        Err(_) => None,
    }
}

/// The error code of a response: the integer under `error`, `code`.
pub open spec fn error_code(document: JsonView) -> Option<i64> {
    document.member("error"@).member("code"@).integer()
}

/// The message for an error code that is not understood.
pub open spec fn unknown_code_message(code: int) -> Seq<char> {
    "Unknown response code! : "@ + decimal(code)
}

/// The message for a response that is not JSON.
pub open spec fn not_json_message() -> Seq<char> {
    "Response is not JSON"@
}

/// The message for a response without a list of items.
pub open spec fn no_items_message() -> Seq<char> {
    "Response lists no items"@
}

/// The error code of a response, if it has one.
pub fn response_error_code(document: &Json) -> (code: Option<i64>)
    ensures
        code == error_code(document@),
{
    match document.get_nested("error", "code") {
        Some(value) => value.as_integer(),
        None => None,
    }
}

fn unknown_code_text(code: i64) -> (message: String)
    ensures
        message@ == unknown_code_message(code as int),
{
    let mut message = String::from_str("Unknown response code! : ");
    push_decimal(&mut message, code);
    message
}

/// A comment's fields as the response gives them: text and author where they
/// are strings, and the publication time in seconds since the epoch where it
/// was a time.
pub open spec fn comment_of_parts(
    content: Option<Seq<char>>,
    author_name: Option<Seq<char>>,
    published: Option<i64>,
) -> Option<CommentView> {
    match published {
        Some(seconds) if seconds >= 0 => Some(
            CommentView {
                content: match content {
                    Some(text) => text,
                    None => Seq::empty(),
                },
                author_name: match author_name {
                    Some(name) => name,
                    None => Seq::empty(),
                },
                timestamp: seconds as nat,
            },
        ),
        _ => None,
    }
}

/// Builds a comment from its fields. A missing text or author is empty. There
/// is no comment without a publication time, nor with one before the epoch.
pub fn comment_from_parts(
    content: Option<&str>,
    author_name: Option<&str>,
    published: Option<i64>,
) -> (comment: Option<YTComment>)
    ensures
        match comment {
            Some(made) => Some(made@),
            None => None,
        } == comment_of_parts(
            match content {
                Some(text) => Some(text@),
                None => None,
            },
            match author_name {
                Some(name) => Some(name@),
                None => None,
            },
            published,
        ),
{
    match published {
        Some(seconds) => {
            if seconds < 0 {
                return None;
            }
            let content = match content {
                Some(text) => String::from_str(text),
                None => String::new(),
            };
            let author_name = match author_name {
                Some(name) => String::from_str(name),
                None => String::new(),
            };
            Some(YTComment { content, author_name, timestamp: seconds as u64 })
        },
        None => None,
    }
}

/// The fields of a comment in an item of a comment listing.
pub open spec fn comment_fields(item: JsonView) -> JsonView {
    item.member("snippet"@).member("topLevelComment"@).member("snippet"@)
}

/// The publication time among a comment's fields, in seconds since the epoch.
pub open spec fn published_seconds(fields: JsonView) -> Option<i64> {
    match fields.member("publishedAt"@).text() {
        Some(text) => rfc3339_epoch_seconds(text),
        None => None,
    }
}

/// The comment that an item of a comment listing holds, if its publication
/// time is a time at or after the epoch.
pub open spec fn listed_comment(item: JsonView) -> Option<CommentView> {
    let fields = comment_fields(item);
    comment_of_parts(
        fields.member("textOriginal"@).text(),
        fields.member("authorDisplayName"@).text(),
        published_seconds(fields),
    )
}

/// The comments of the items, in their order, if every item holds one.
pub open spec fn listed_comments(items: Seq<JsonView>) -> Option<Seq<CommentView>>
    decreases items.len(),
{
    if items.len() == 0 {
        Some(Seq::empty())
    } else {
        match (listed_comments(items.drop_last()), listed_comment(items.last())) {
            (Some(before), Some(comment)) => Some(before.push(comment)),
            _ => None,
        }
    }
}

/// What a comment listing says. An error code of 400 means a bad key; any other
/// error code, and a listing without items, is reported as it is found; an item
/// without a proper publication time spoils the listing; an empty listing means
/// that the video has no comments.
pub open spec fn comments_in(document: JsonView) -> Result<Seq<CommentView>, CommentFailView> {
    match error_code(document) {
        Some(code) => Err(
            if code == BAD_REQUEST {
                CommentFailView::BadKey
            } else {
                CommentFailView::SomethingElse(unknown_code_message(code as int))
            },
        ),
        None => match document.member("items"@).elements() {
            None => Err(CommentFailView::SomethingElse(no_items_message())),
            Some(items) => match listed_comments(items) {
                None => Err(CommentFailView::EpochFail),
                Some(comments) => if comments.len() == 0 {
                    Err(CommentFailView::NoComments)
                } else {
                    Ok(comments)
                },
            },
        },
    }
}

/// What the body of a comment listing's response says.
pub open spec fn comments_in_body(body: Seq<char>) -> Result<Seq<CommentView>, CommentFailView> {
    match json_document(body) {
        Some(document) => comments_in(document),
        None => Err(CommentFailView::SomethingElse(not_json_message())),
    }
}

/// A fetched comment listing as a view: the comments, or the failure.
pub open spec fn comment_listing_view(listing: Result<Vec<YTComment>, CommentFail>) -> Result<
    Seq<CommentView>,
    CommentFailView,
> {
    match listing {
        Ok(comments) => Ok(comments_view(comments@)),
        Err(fail) => Err(fail@),
    }
}

fn text_of<'a>(value: Option<&'a Json>) -> (text: Option<&'a str>)
    ensures
        match text {
            Some(found) => value matches Some(inner) && inner@.text() == Some(found@),
            None => value matches Some(inner) ==> inner@.text() is None,
        },
{
    match value {
        Some(inner) => inner.as_text(),
        None => None,
    }
}

/// Reads the comment that an item of a comment listing holds.
pub fn comment_from_item(item: &Json) -> (comment: Option<YTComment>)
    ensures
        match comment {
            Some(made) => Some(made@),
            None => None,
        } == listed_comment(item@),
{
    match item.get_nested("snippet", "topLevelComment") {
        Some(thread) => match thread.get("snippet") {
            Some(fields) => {
                let published = match text_of(fields.get("publishedAt")) {
                    Some(text) => epoch_seconds(text),
                    None => None,
                };
                comment_from_parts(
                    text_of(fields.get("textOriginal")),
                    text_of(fields.get("authorDisplayName")),
                    published,
                )
            },
            None => None,
        },
        None => None,
    }
}

/// Reads a comment listing from its document.
pub fn comments_from_document(document: &Json) -> (listing: Result<Vec<YTComment>, CommentFail>)
    ensures
        comment_listing_view(listing) == comments_in(document@),
{
    match response_error_code(document) {
        Some(code) => {
            if code == BAD_REQUEST {
                return Err(CommentFail::BadKey);
            }
            return Err(CommentFail::SomethingElse(unknown_code_text(code)));
        },
        None => {},
    }
    let items = match document.get("items") {
        Some(value) => match value.as_elements() {
            Some(items) => items,
            None => {
                return Err(CommentFail::SomethingElse(String::from_str("Response lists no items")));
            },
        },
        None => {
            return Err(CommentFail::SomethingElse(String::from_str("Response lists no items")));
        },
    };
    let mut comments: Vec<YTComment> = Vec::new();
    let mut spoiled = false;
    let mut at: usize = 0;
    while at < items.len()
        invariant
            at <= items.len(),
            match listed_comments(values_view(items@).take(at as int)) {
                Some(so_far) => !spoiled && comments_view(comments@) == so_far,
                None => spoiled,
            },
        decreases items.len() - at,
    {
        proof {
            let values = values_view(items@);
            lemma_values_view(items@);
            assert(values.take(at + 1).drop_last() =~= values.take(at as int));
            assert(values.take(at + 1).last() == items@[at as int]@);
        }
        if !spoiled {
            let ghost before = comments_view(comments@);
            match comment_from_item(&items[at]) {
                Some(comment) => {
                    comments.push(comment);
                    assert(comments_view(comments@) =~= before.push(comment@));
                },
                None => {
                    spoiled = true;
                },
            }
        }
        at += 1;
    }
    proof {
        lemma_values_view(items@);
        assert(values_view(items@).take(items.len() as int) =~= values_view(items@));
    }
    if spoiled {
        Err(CommentFail::EpochFail)
    } else if comments.len() == 0 {
        Err(CommentFail::NoComments)
    } else {
        Ok(comments)
    }
}

/// What fetching the recent comments of a video gave: the failed transfer, or
/// what the body of the response says.
pub fn comments_from_response(response: Result<String, CurlFail>) -> (listing: Result<
    Vec<YTComment>,
    CommentFail,
>)
    ensures
        comment_listing_view(listing) == match response {
            Ok(body) => comments_in_body(body@),
            Err(transfer) => Err(CommentFailView::CurlFailure(transfer@)),
        },
{
    match response {
        Ok(body) => match read_document(body.as_str()) {
            Some(document) => comments_from_document(&document),
            None => Err(CommentFail::SomethingElse(String::from_str("Response is not JSON"))),
        },
        Err(transfer) => Err(CommentFail::CurlFailure(transfer)),
    }
}

/// A value written out as JSON, unless it is null: a number as its numeral,
/// anything else as `serde_json` writes it.
pub open spec fn rendered(value: JsonView) -> Option<Seq<char>> {
    match value {
        JsonView::Null => None,
        JsonView::Number { literal, .. } => Some(literal),
        other => Some(json_text(rebuilt(other))),
    }
}

/// The video that an item of a video listing holds: its title and identifier,
/// written out as JSON and stripped of quotation marks. An item whose title or
/// identifier is missing or null holds none.
pub open spec fn listed_video(item: JsonView) -> Option<VideoView> {
    match (
        rendered(item.member("snippet"@).member("title"@)),
        rendered(item.member("id"@).member("videoId"@)),
    ) {
        (Some(title), Some(id)) => Some(
            VideoView { title: without_quotes(title), id: without_quotes(id) },
        ),
        _ => None,
    }
}

/// The videos of the items that hold one, in their order.
pub open spec fn listed_videos(items: Seq<JsonView>) -> Seq<VideoView>
    decreases items.len(),
{
    if items.len() == 0 {
        Seq::empty()
    } else {
        let before = listed_videos(items.drop_last());
        match listed_video(items.last()) {
            Some(video) => before.push(video),
            None => before,
        }
    }
}

/// What a video listing says. An error code of 400 means a bad key; any other
/// error code, and a listing without items, is reported as it is found. A
/// listing that holds no video, because it is empty or because every item of it
/// is passed over, means that the channel has no videos.
pub open spec fn videos_in(document: JsonView) -> Result<Seq<VideoView>, ChannelVideosFailView> {
    match error_code(document) {
        Some(code) => Err(
            if code == BAD_REQUEST {
                ChannelVideosFailView::BadKey
            } else {
                ChannelVideosFailView::SomethingElse(unknown_code_message(code as int))
            },
        ),
        None => match document.member("items"@).elements() {
            None => Err(ChannelVideosFailView::SomethingElse(no_items_message())),
            Some(items) => if listed_videos(items).len() == 0 {
                Err(ChannelVideosFailView::NoVideos)
            } else {
                Ok(listed_videos(items))
            },
        },
    }
}

/// What the body of a video listing's response says.
pub open spec fn videos_in_body(body: Seq<char>) -> Result<Seq<VideoView>, ChannelVideosFailView> {
    match json_document(body) {
        Some(document) => videos_in(document),
        None => Err(ChannelVideosFailView::SomethingElse(not_json_message())),
    }
}

/// A fetched video listing as a view: the videos, or the failure.
pub open spec fn video_listing_view(listing: Result<Vec<Video>, ChannelVideosFail>) -> Result<
    Seq<VideoView>,
    ChannelVideosFailView,
> {
    match listing {
        Ok(videos) => Ok(videos_view(videos@)),
        Err(fail) => Err(fail@),
    }
}

fn render(value: Option<&Json>) -> (text: Option<String>)
    ensures
        match text {
            Some(written) => value matches Some(inner) && rendered(inner@) == Some(written@),
            None => value matches Some(inner) ==> rendered(inner@) is None,
        },
{
    match value {
        None => None,
        Some(Json::Null) => None,
        Some(Json::Number { literal, .. }) => Some(literal.clone()),
        Some(inner) => Some(write_json(inner)),
    }
}

/// Reads the video that an item of a video listing holds.
pub fn video_from_item(item: &Json) -> (video: Option<Video>)
    ensures
        match video {
            Some(made) => Some(made@),
            None => None,
        } == listed_video(item@),
{
    match (render(item.get_nested("snippet", "title")), render(item.get_nested("id", "videoId"))) {
        (Some(title), Some(id)) => Some(
            Video { title: strip_quotes(title.as_str()), id: strip_quotes(id.as_str()) },
        ),
        _ => None,
    }
}

/// Reads a video listing from its document.
pub fn videos_from_document(document: &Json) -> (listing: Result<Vec<Video>, ChannelVideosFail>)
    ensures
        video_listing_view(listing) == videos_in(document@),
{
    match response_error_code(document) {
        Some(code) => {
            if code == BAD_REQUEST {
                return Err(ChannelVideosFail::BadKey);
            }
            return Err(ChannelVideosFail::SomethingElse(unknown_code_text(code)));
        },
        None => {},
    }
    let items = match document.get("items") {
        Some(value) => match value.as_elements() {
            Some(items) => items,
            None => {
                return Err(
                    ChannelVideosFail::SomethingElse(String::from_str("Response lists no items")),
                );
            },
        },
        None => {
            return Err(
                ChannelVideosFail::SomethingElse(String::from_str("Response lists no items")),
            );
        },
    };
    let mut videos: Vec<Video> = Vec::new();
    let mut at: usize = 0;
    while at < items.len()
        invariant
            at <= items.len(),
            videos_view(videos@) == listed_videos(values_view(items@).take(at as int)),
        decreases items.len() - at,
    {
        proof {
            let values = values_view(items@);
            lemma_values_view(items@);
            assert(values.take(at + 1).drop_last() =~= values.take(at as int));
            assert(values.take(at + 1).last() == items@[at as int]@);
        }
        let ghost before = videos_view(videos@);
        match video_from_item(&items[at]) {
            Some(video) => {
                videos.push(video);
                assert(videos_view(videos@) =~= before.push(video@));
            },
            None => {},
        }
        at += 1;
    }
    proof {
        lemma_values_view(items@);
        assert(values_view(items@).take(items.len() as int) =~= values_view(items@));
    }
    if videos.len() == 0 {
        Err(ChannelVideosFail::NoVideos)
    } else {
        Ok(videos)
    }
}

/// What fetching the videos of a channel gave: the failed transfer, or what the
/// body of the response says.
pub fn videos_from_response(response: Result<String, CurlFail>) -> (listing: Result<
    Vec<Video>,
    ChannelVideosFail,
>)
    ensures
        video_listing_view(listing) == match response {
            Ok(body) => videos_in_body(body@),
            Err(transfer) => Err(ChannelVideosFailView::CurlFailure(transfer@)),
        },
{
    match response {
        Ok(body) => match read_document(body.as_str()) {
            Some(document) => videos_from_document(&document),
            None => Err(ChannelVideosFail::SomethingElse(String::from_str("Response is not JSON"))),
        },
        Err(transfer) => Err(ChannelVideosFail::CurlFailure(transfer)),
    }
}

/// What the answer to a trial request says of the key: nothing, if the answer
/// holds no error code; that the key is bad, if the code is 400; otherwise that
/// something broke, with the answer written out as JSON.
pub open spec fn key_verdict(document: JsonView) -> Option<KeyTestFailView> {
    match error_code(document) {
        None => None,
        Some(code) => Some(
            if code == BAD_REQUEST {
                KeyTestFailView::BadKey
            } else {
                KeyTestFailView::SomethingBroke(
                    "Failure checking token! "@ + json_text(rebuilt(document)),
                )
            },
        ),
    }
}

/// What the body of the trial request's response says of the key.
pub open spec fn key_verdict_in_body(body: Seq<char>) -> Option<KeyTestFailView> {
    match json_document(body) {
        Some(document) => key_verdict(document),
        None => Some(KeyTestFailView::SomethingBroke(not_json_message())),
    }
}

/// Judges the key by the answer to a trial request.
pub fn key_test_verdict(document: &Json) -> (fail: Option<KeyTestFail>)
    ensures
        match fail {
            Some(found) => Some(found@),
            None => None,
        } == key_verdict(document@),
{
    match response_error_code(document) {
        None => None,
        Some(code) => {
            if code == BAD_REQUEST {
                Some(KeyTestFail::BadKey)
            } else {
                let answer = write_json(document);
                Some(
                    KeyTestFail::SomethingBroke(
                        String::from_str("Failure checking token! ").concat(answer.as_str()),
                    ),
                )
            }
        },
    }
}

/// Judges the key by what the trial request gave: `None` says that the key is good.
pub fn key_test_outcome(response: Result<String, CurlFail>) -> (fail: Option<KeyTestFail>)
    ensures
        match fail {
            Some(found) => Some(found@),
            None => None,
        } == match response {
            Ok(body) => key_verdict_in_body(body@),
            Err(transfer) => Some(KeyTestFailView::CurlFailure(transfer@)),
        },
{
    match response {
        Ok(body) => match read_document(body.as_str()) {
            Some(document) => key_test_verdict(&document),
            None => Some(KeyTestFail::SomethingBroke(String::from_str("Response is not JSON"))),
        },
        Err(transfer) => Some(KeyTestFail::CurlFailure(transfer)),
    }
}

/// The channel's title in the answer to a channel query: the title of the first item.
pub open spec fn channel_title(document: JsonView) -> Option<Seq<char>> {
    document.member("items"@).element(0).member("snippet"@).member("title"@).text()
}

/// What the answer to a channel query says: the channel's title, if the answer
/// holds no error code and names one. A code of 400, and an answer that names
/// no channel, mean a bad channel; any other code that something broke, with
/// the answer written out as JSON.
pub open spec fn channel_verdict(document: JsonView) -> Result<
    Seq<char>,
    ChannelTestFailView,
> {
    match error_code(document) {
        Some(code) => Err(
            if code == BAD_REQUEST {
                ChannelTestFailView::BadChannel
            } else {
                ChannelTestFailView::SomethingBroke(
                    "Failure checking channel! "@ + json_text(rebuilt(document)),
                )
            },
        ),
        None => match channel_title(document) {
            Some(title) => Ok(title),
            None => Err(ChannelTestFailView::BadChannel),
        },
    }
}

/// What the body of the channel query's response says.
pub open spec fn channel_verdict_in_body(body: Seq<char>) -> Result<Seq<char>, ChannelTestFailView> {
    match json_document(body) {
        Some(document) => channel_verdict(document),
        None => Err(ChannelTestFailView::SomethingBroke(not_json_message())),
    }
}

/// The outcome of a channel query as a view: the title, or the failure.
pub open spec fn channel_outcome_view(outcome: Result<String, ChannelTestFail>) -> Result<
    Seq<char>,
    ChannelTestFailView,
> {
    match outcome {
        Ok(title) => Ok(title@),
        Err(fail) => Err(fail@),
    }
}

/// Judges the channel by the answer to a channel query.
pub fn channel_test_verdict(document: &Json) -> (outcome: Result<String, ChannelTestFail>)
    ensures
        channel_outcome_view(outcome) == channel_verdict(document@),
{
    match response_error_code(document) {
        Some(code) => {
            if code == BAD_REQUEST {
                return Err(ChannelTestFail::BadChannel);
            }
            let answer = write_json(document);
            return Err(
                ChannelTestFail::SomethingBroke(
                    String::from_str("Failure checking channel! ").concat(answer.as_str()),
                ),
            );
        },
        None => {},
    }
    let first = match document.get("items") {
        Some(items) => items.at(0),
        None => None,
    };
    let title = match first {
        Some(item) => text_of(item.get_nested("snippet", "title")),
        None => None,
    };
    match title {
        Some(text) => Ok(String::from_str(text)),
        None => Err(ChannelTestFail::BadChannel),
    }
}

/// Judges the channel by what the channel query gave.
pub fn channel_test_outcome(response: Result<String, CurlFail>) -> (outcome: Result<
    String,
    ChannelTestFail,
>)
    ensures
        channel_outcome_view(outcome) == match response {
            Ok(body) => channel_verdict_in_body(body@),
            Err(transfer) => Err(ChannelTestFailView::CurlFailure(transfer@)),
        },
{
    match response {
        Ok(body) => match read_document(body.as_str()) {
            Some(document) => channel_test_verdict(&document),
            None => Err(ChannelTestFail::SomethingBroke(String::from_str("Response is not JSON"))),
        },
        Err(transfer) => Err(ChannelTestFail::CurlFailure(transfer)),
    }
}

} // verus!
