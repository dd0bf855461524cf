//! The addresses of the requests that a polling cycle makes.

use crate::text::{decimal, push_decimal};
use vstd::prelude::*;
use vstd::string::StringExecFns;

verus! {

/// Where every request goes.
pub const API_URL: &'static str = "https://youtube.googleapis.com/youtube/v3/";

/// How many comments a pass asks for per video.
pub const COMMENTS_PER_VIDEO: i8 = 5;

/// The address of the trial request that shows whether a key is good.
pub open spec fn key_test_address(key: Seq<char>) -> Seq<char> {
    API_URL@ + "search?part=snippet&maxResults=1&q=Never%20gonna%20give%20you%20up&key="@ + key
}

/// The address of the query for a channel's title.
pub open spec fn channel_test_address(channel_id: Seq<char>, key: Seq<char>) -> Seq<char> {
    API_URL@ + "channels?part=snippet&id="@ + channel_id + "&fields=items(snippet(title))&&key="@
        + key
}

/// The address of the listing of a video's `amount` most recent comments.
pub open spec fn comment_threads_address(key: Seq<char>, video_id: Seq<char>, amount: int) -> Seq<
    char,
> {
    API_URL@ + "commentThreads?key="@ + key + "&textFormat=plainText&part=snippet&videoId="@
        + video_id + "&maxResults="@ + decimal(amount)
        + "&fields=items(snippet(topLevelComment(snippet(authorDisplayName%2CtextOriginal%2CpublishedAt))))"@
}

/// The address of the listing of a channel's videos, newest first.
pub open spec fn channel_videos_address(key: Seq<char>, channel_id: Seq<char>) -> Seq<char> {
    API_URL@
        + "search?part=snippet&maxResults=4294967295&order=date&fields=items(id(videoId)%2Csnippet(title))&key="@
        + key + "&channelId="@ + channel_id
}

/// Builds the address of the trial request that shows whether a key is good.
pub fn key_test_url(key: &str) -> (url: String)
    ensures
        url@ == key_test_address(key@),
{
    let mut url = String::from_str(API_URL);
    url.append("search?part=snippet&maxResults=1&q=Never%20gonna%20give%20you%20up&key=");
    url.append(key);
    url
}

/// Builds the address of the query for a channel's title.
pub fn channel_test_url(channel_id: &str, key: &str) -> (url: String)
    ensures
        url@ == channel_test_address(channel_id@, key@),
{
    let mut url = String::from_str(API_URL);
    url.append("channels?part=snippet&id=");
    url.append(channel_id);
    url.append("&fields=items(snippet(title))&&key=");
    url.append(key);
    url
}

/// Builds the address of the listing of a video's `amount` most recent comments.
pub fn comment_threads_url(key: &str, video_id: &str, amount: i8) -> (url: String)
    ensures
        url@ == comment_threads_address(key@, video_id@, amount as int),
{
    let mut url = String::from_str(API_URL);
    url.append("commentThreads?key=");
    url.append(key);
    url.append("&textFormat=plainText&part=snippet&videoId=");
    url.append(video_id);
    url.append("&maxResults=");
    push_decimal(&mut url, amount as i64);
    url.append(
        "&fields=items(snippet(topLevelComment(snippet(authorDisplayName%2CtextOriginal%2CpublishedAt))))",
    );
    url
}

/// Builds the address of the listing of a channel's videos, newest first.
pub fn channel_videos_url(key: &str, channel_id: &str) -> (url: String)
    ensures
        url@ == channel_videos_address(key@, channel_id@),
{
    let mut url = String::from_str(API_URL);
    url.append(
        "search?part=snippet&maxResults=4294967295&order=date&fields=items(id(videoId)%2Csnippet(title))&key=",
    );
    url.append(key);
    url.append("&channelId=");
    url.append(channel_id);
    url
}

} // verus!
