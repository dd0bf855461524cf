use comment_tracker::request::{
    channel_test_url, channel_videos_url, comment_threads_url, key_test_url, API_URL,
    COMMENTS_PER_VIDEO,
};

#[test]
fn requests_go_to_the_platform_address() {
    assert_eq!(API_URL, "https://youtube.googleapis.com/youtube/v3/");
    assert_eq!(COMMENTS_PER_VIDEO, 5);
}

#[test]
fn address_of_the_key_test() {
    assert_eq!(
        key_test_url("KEY"),
        "https://youtube.googleapis.com/youtube/v3/search?part=snippet&maxResults=1&q=Never%20gonna%20give%20you%20up&key=KEY"
    );
}

#[test]
fn address_of_the_channel_test() {
    assert_eq!(
        channel_test_url("CHANNEL", "KEY"),
        "https://youtube.googleapis.com/youtube/v3/channels?part=snippet&id=CHANNEL&fields=items(snippet(title))&&key=KEY"
    );
}

#[test]
fn address_of_the_comment_listing() {
    assert_eq!(
        comment_threads_url("KEY", "VIDEO", 5),
        "https://youtube.googleapis.com/youtube/v3/commentThreads?key=KEY&textFormat=plainText&part=snippet&videoId=VIDEO&maxResults=5&fields=items(snippet(topLevelComment(snippet(authorDisplayName%2CtextOriginal%2CpublishedAt))))"
    );
}

#[test]
fn comment_listing_takes_any_amount() {
    let tail = "&fields=items(snippet(topLevelComment(snippet(authorDisplayName%2CtextOriginal%2CpublishedAt))))";
    let head = "https://youtube.googleapis.com/youtube/v3/commentThreads?key=k&textFormat=plainText&part=snippet&videoId=v&maxResults=";
    for amount in [i8::MIN, -1, 0, 9, 10, 100, i8::MAX] {
        assert_eq!(comment_threads_url("k", "v", amount), format!("{head}{amount}{tail}"));
    }
}

#[test]
fn address_of_the_video_listing() {
    assert_eq!(
        channel_videos_url("KEY", "CHANNEL"),
        "https://youtube.googleapis.com/youtube/v3/search?part=snippet&maxResults=4294967295&order=date&fields=items(id(videoId)%2Csnippet(title))&key=KEY&channelId=CHANNEL"
    );
}
