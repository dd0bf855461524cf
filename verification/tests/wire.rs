use comment_tracker::failure::{
    ChannelTestFail, ChannelVideosFail, CommentFail, CurlFail, KeyTestFail,
};
use comment_tracker::json::Json;
use comment_tracker::model::{Video, YTComment};
use comment_tracker::wire::{
    channel_test_outcome, channel_test_verdict, comment_from_item, comment_from_parts,
    comments_from_document, comments_from_response, key_test_outcome, key_test_verdict,
    response_error_code, video_from_item, videos_from_document, videos_from_response, BAD_REQUEST,
};

fn text(value: &str) -> Json {
    Json::Text(value.to_string())
}

fn number(value: i64) -> Json {
    Json::Number { integer: Some(value), literal: value.to_string() }
}

fn object(members: Vec<(&str, Json)>) -> Json {
    Json::Object(members.into_iter().map(|(name, value)| (name.to_string(), value)).collect())
}

fn video(id: &str, title: &str) -> Video {
    Video { title: title.to_string(), id: id.to_string() }
}

fn comment(text: &str, author: &str, timestamp: u64) -> YTComment {
    YTComment { content: text.to_string(), author_name: author.to_string(), timestamp }
}

fn error_document(code: i64) -> Json {
    object(vec![("error", object(vec![("code", number(code)), ("message", text("no"))]))])
}

fn comment_item(content: Json, author: Json, published: Json) -> Json {
    object(vec![(
        "snippet",
        object(vec![(
            "topLevelComment",
            object(vec![(
                "snippet",
                object(vec![
                    ("textOriginal", content),
                    ("authorDisplayName", author),
                    ("publishedAt", published),
                ]),
            )]),
        )]),
    )])
}

fn body(json: &str) -> Result<String, CurlFail> {
    Ok(json.to_string())
}

#[test]
fn bad_request_code_is_four_hundred() {
    assert_eq!(BAD_REQUEST, 400);
}

#[test]
fn error_code_is_the_integer_under_error_and_code() {
    assert_eq!(response_error_code(&error_document(403)), Some(403));
    assert_eq!(response_error_code(&object(vec![("items", Json::Array(vec![]))])), None);
    assert_eq!(response_error_code(&object(vec![("error", text("broken"))])), None);
    assert_eq!(response_error_code(&object(vec![("error", object(vec![("code", text("400"))]))])), None);
    let fraction = Json::Number { integer: None, literal: "400.5".to_string() };
    assert_eq!(response_error_code(&object(vec![("error", object(vec![("code", fraction)]))])), None);
    assert_eq!(response_error_code(&Json::Null), None);
}

#[test]
fn listing_gives_titles_and_identifiers() {
    let listing = videos_from_response(body(
        r#"{"items":[{"id":{"videoId":"a"},"snippet":{"title":"Video A"}},
                     {"id":{"videoId":"b"},"snippet":{"title":"Video B"}}]}"#,
    ));
    assert_eq!(listing, Ok(vec![video("a", "Video A"), video("b", "Video B")]));
}

#[test]
fn item_with_null_title_is_skipped() {
    let listing = videos_from_response(body(
        r#"{"items":[{"id":{"videoId":"x"},"snippet":{"title":null}},
                     {"id":{"videoId":"ok"},"snippet":{"title":"Well formed"}}]}"#,
    ));
    assert_eq!(listing, Ok(vec![video("ok", "Well formed")]));
}

#[test]
fn item_without_identifier_is_skipped() {
    let listing = videos_from_response(body(
        r#"{"items":[{"id":{"kind":"channel"},"snippet":{"title":"A channel"}},
                     {"snippet":{"title":"No id at all"}},
                     {"id":{"videoId":null},"snippet":{"title":"Null id"}},
                     {"id":{"videoId":"ok"},"snippet":{"title":"Well formed"}}]}"#,
    ));
    assert_eq!(listing, Ok(vec![video("ok", "Well formed")]));
}

#[test]
fn titles_are_written_as_literals_without_their_quotes() {
    let listing = videos_from_response(body(
        r#"{"items":[{"id":{"videoId":"q"},"snippet":{"title":"say \"hi\"\nnow \\ then"}}]}"#,
    ));
    assert_eq!(listing, Ok(vec![video("q", "say \\hi\\\\nnow \\\\ then")]));
}

#[test]
fn titles_keep_characters_beyond_ascii() {
    let listing = videos_from_response(body(
        r#"{"items":[{"id":{"videoId":"u"},"snippet":{"title":"café ☕"}}]}"#,
    ));
    assert_eq!(listing, Ok(vec![video("u", "café ☕")]));
}

#[test]
fn numbers_and_truth_values_are_written_as_they_stand() {
    let listing = videos_from_response(body(
        r#"{"items":[{"id":{"videoId":17},"snippet":{"title":true}},
                     {"id":{"videoId":-2.5},"snippet":{"title":false}}]}"#,
    ));
    assert_eq!(listing, Ok(vec![video("17", "true"), video("-2.5", "false")]));
}

#[test]
fn arrays_and_objects_are_written_out_too() {
    let listing = videos_from_response(body(
        r#"{"items":[{"id":{"videoId":"a"},"snippet":{"title":["x", 1, null, [true]]}},
                     {"id":{"videoId":{"v": 1, "a": "q"}},"snippet":{"title":"t"}},
                     {"id":{"videoId":[]},"snippet":{"title":{}}}]}"#,
    ));
    assert_eq!(
        listing,
        Ok(vec![video("a", "[x,1,null,[true]]"), video("{a:q,v:1}", "t"), video("[]", "{}")])
    );
}

#[test]
fn empty_titles_stay_in_the_listing() {
    let listing = videos_from_response(body(
        r#"{"items":[{"id":{"videoId":"e"},"snippet":{"title":""}}]}"#,
    ));
    assert_eq!(listing, Ok(vec![video("e", "")]));
}

#[test]
fn empty_listing_means_no_videos() {
    assert_eq!(videos_from_response(body(r#"{"items":[]}"#)), Err(ChannelVideosFail::NoVideos));
    assert_eq!(
        videos_from_document(&object(vec![("items", Json::Array(vec![]))])),
        Err(ChannelVideosFail::NoVideos)
    );
}

#[test]
fn listing_whose_items_are_all_passed_over_means_no_videos() {
    let listing = videos_from_response(body(
        r#"{"items":[{"id":{"videoId":"x"},"snippet":{"title":null}},
                     {"id":{"kind":"channel"},"snippet":{"title":"A channel"}}]}"#,
    ));
    assert_eq!(listing, Err(ChannelVideosFail::NoVideos));
}

#[test]
fn listing_with_code_four_hundred_means_a_bad_key() {
    let listing = videos_from_response(body(r#"{"error":{"code":400,"message":"bad"}}"#));
    assert_eq!(listing, Err(ChannelVideosFail::BadKey));
    assert_eq!(videos_from_document(&error_document(400)), Err(ChannelVideosFail::BadKey));
}

#[test]
fn listing_with_another_code_reports_it() {
    let listing = videos_from_response(body(r#"{"error":{"code":403},"items":[]}"#));
    assert_eq!(
        listing,
        Err(ChannelVideosFail::SomethingElse("Unknown response code! : 403".to_string()))
    );
    assert_eq!(
        videos_from_document(&error_document(-7)),
        Err(ChannelVideosFail::SomethingElse("Unknown response code! : -7".to_string()))
    );
}

#[test]
fn listing_without_items_is_reported() {
    let expected = Err(ChannelVideosFail::SomethingElse("Response lists no items".to_string()));
    assert_eq!(videos_from_response(body(r#"{"kind":"x"}"#)), expected);
    assert_eq!(videos_from_response(body(r#"{"items":{"a":1}}"#)), expected);
    assert_eq!(videos_from_response(body(r#"[1,2]"#)), expected);
}

#[test]
fn listing_that_is_not_json_is_reported() {
    let expected = Err(ChannelVideosFail::SomethingElse("Response is not JSON".to_string()));
    assert_eq!(videos_from_response(body("<html>")), expected);
    assert_eq!(videos_from_response(body("")), expected);
    assert_eq!(videos_from_response(body(r#"{"items":[]} trailing"#)), expected);
}

#[test]
fn failed_transfer_of_a_listing_is_handed_on() {
    let transfer = CurlFail::SomethingBroke("could not resolve host".to_string());
    assert_eq!(
        videos_from_response(Err(transfer.clone())),
        Err(ChannelVideosFail::CurlFailure(transfer))
    );
    assert_eq!(
        videos_from_response(Err(CurlFail::BadURL)),
        Err(ChannelVideosFail::CurlFailure(CurlFail::BadURL))
    );
}

#[test]
fn video_of_an_item_built_by_hand() {
    let item = object(vec![
        ("id", object(vec![("videoId", number(12))])),
        ("snippet", object(vec![("title", Json::Bool(true))])),
    ]);
    assert_eq!(video_from_item(&item), Some(video("12", "true")));
    assert_eq!(video_from_item(&Json::Null), None);
    let first_wins = object(vec![
        ("id", object(vec![("videoId", text("one")), ("videoId", text("two"))])),
        ("snippet", object(vec![("title", text("T"))])),
    ]);
    assert_eq!(video_from_item(&first_wins), Some(video("one", "T")));
}

#[test]
fn comments_carry_text_author_and_seconds() {
    let listing = comments_from_response(body(
        r#"{"items":[
            {"snippet":{"topLevelComment":{"snippet":{
                "textOriginal":"Nice one","authorDisplayName":"Ann",
                "publishedAt":"2023-01-01T00:00:00Z"}}}},
            {"snippet":{"topLevelComment":{"snippet":{
                "textOriginal":"Second","authorDisplayName":"Ben",
                "publishedAt":"1970-01-01T01:00:00+01:00"}}}},
            {"snippet":{"topLevelComment":{"snippet":{
                "textOriginal":"Third","authorDisplayName":"Cy",
                "publishedAt":"2001-09-09T01:46:40.5Z"}}}}]}"#,
    ));
    assert_eq!(
        listing,
        Ok(vec![
            comment("Nice one", "Ann", 1672531200),
            comment("Second", "Ben", 0),
            comment("Third", "Cy", 1000000000),
        ])
    );
}

#[test]
fn missing_text_or_author_is_empty() {
    let listing = comments_from_response(body(
        r#"{"items":[{"snippet":{"topLevelComment":{"snippet":{
            "textOriginal":null,"publishedAt":"2023-01-01T00:00:10Z"}}}}]}"#,
    ));
    assert_eq!(listing, Ok(vec![comment("", "", 1672531210)]));
}

#[test]
fn comment_without_a_proper_time_spoils_the_listing() {
    let good = r#"{"snippet":{"topLevelComment":{"snippet":{
        "textOriginal":"ok","authorDisplayName":"A","publishedAt":"2023-01-01T00:00:00Z"}}}}"#;
    for published in [r#""yesterday""#, r#""1969-12-31T23:59:59Z""#, "1672531200", "null"] {
        let bad = format!(
            r#"{{"snippet":{{"topLevelComment":{{"snippet":{{
                "textOriginal":"x","authorDisplayName":"B","publishedAt":{published}}}}}}}}}"#
        );
        let listing = comments_from_response(body(&format!(r#"{{"items":[{good},{bad},{good}]}}"#)));
        assert_eq!(listing, Err(CommentFail::EpochFail));
    }
    let listing = comments_from_response(body(r#"{"items":[{"snippet":{}}]}"#));
    assert_eq!(listing, Err(CommentFail::EpochFail));
}

#[test]
fn empty_comment_listing_means_no_comments() {
    assert_eq!(comments_from_response(body(r#"{"items":[]}"#)), Err(CommentFail::NoComments));
    assert_eq!(
        comments_from_document(&object(vec![("items", Json::Array(vec![]))])),
        Err(CommentFail::NoComments)
    );
}

#[test]
fn comment_listing_with_code_four_hundred_means_a_bad_key() {
    let listing = comments_from_response(body(r#"{"error":{"code":400}}"#));
    assert_eq!(listing, Err(CommentFail::BadKey));
}

#[test]
fn comment_listing_with_another_code_reports_it() {
    let listing = comments_from_response(body(r#"{"error":{"code":404}}"#));
    assert_eq!(listing, Err(CommentFail::SomethingElse("Unknown response code! : 404".to_string())));
}

#[test]
fn comment_listing_without_items_or_json_is_reported() {
    assert_eq!(
        comments_from_response(body(r#"{"items":"none"}"#)),
        Err(CommentFail::SomethingElse("Response lists no items".to_string()))
    );
    assert_eq!(
        comments_from_response(body("not json")),
        Err(CommentFail::SomethingElse("Response is not JSON".to_string()))
    );
}

#[test]
fn failed_transfer_of_comments_is_handed_on() {
    assert_eq!(
        comments_from_response(Err(CurlFail::DataIssue)),
        Err(CommentFail::CurlFailure(CurlFail::DataIssue))
    );
}

#[test]
fn comment_of_an_item_built_by_hand() {
    let item = comment_item(text("hello"), text("Dee"), text("2023-01-01T00:01:00Z"));
    assert_eq!(comment_from_item(&item), Some(comment("hello", "Dee", 1672531260)));
    let odd = comment_item(number(5), Json::Null, text("2023-01-01T00:01:00Z"));
    assert_eq!(comment_from_item(&odd), Some(comment("", "", 1672531260)));
    let timeless = comment_item(text("hello"), text("Dee"), number(1672531260));
    assert_eq!(comment_from_item(&timeless), None);
}

#[test]
fn comment_from_its_parts() {
    assert_eq!(
        comment_from_parts(Some("text"), Some("author"), Some(42)),
        Some(comment("text", "author", 42))
    );
    assert_eq!(comment_from_parts(None, None, Some(0)), Some(comment("", "", 0)));
    assert_eq!(
        comment_from_parts(Some("t"), None, Some(i64::MAX)),
        Some(comment("t", "", i64::MAX as u64))
    );
    assert_eq!(comment_from_parts(Some("text"), Some("author"), Some(-1)), None);
    assert_eq!(comment_from_parts(Some("text"), Some("author"), None), None);
}

#[test]
fn answer_without_error_code_means_a_good_key() {
    assert_eq!(key_test_outcome(body(r#"{"items":[]}"#)), None);
    assert_eq!(key_test_verdict(&Json::Null), None);
}

#[test]
fn answer_with_code_four_hundred_means_a_bad_key() {
    assert_eq!(key_test_outcome(body(r#"{"error":{"code":400}}"#)), Some(KeyTestFail::BadKey));
}

#[test]
fn answer_with_another_code_carries_the_answer() {
    let answer = r#" {"error": {"message": "quota", "code": 403}, "a": [1.5, "x"]} "#;
    let written = r#"{"a":[1.5,"x"],"error":{"code":403,"message":"quota"}}"#;
    assert_eq!(
        key_test_outcome(body(answer)),
        Some(KeyTestFail::SomethingBroke(format!("Failure checking token! {written}")))
    );
    assert_eq!(
        key_test_verdict(&error_document(500)),
        Some(KeyTestFail::SomethingBroke(
            r#"Failure checking token! {"error":{"code":500,"message":"no"}}"#.to_string()
        ))
    );
}

#[test]
fn key_answer_that_is_not_json_or_never_came() {
    assert_eq!(
        key_test_outcome(body("oops")),
        Some(KeyTestFail::SomethingBroke("Response is not JSON".to_string()))
    );
    assert_eq!(
        key_test_outcome(Err(CurlFail::HeaderIssue)),
        Some(KeyTestFail::CurlFailure(CurlFail::HeaderIssue))
    );
}

#[test]
fn channel_answer_gives_the_title_of_the_first_item() {
    let answer = r#"{"items":[{"snippet":{"title":"My \"Channel\""}},{"snippet":{"title":"Other"}}]}"#;
    assert_eq!(channel_test_outcome(body(answer)), Ok("My \"Channel\"".to_string()));
}

#[test]
fn channel_answer_with_codes() {
    assert_eq!(
        channel_test_outcome(body(r#"{"error":{"code":400}}"#)),
        Err(ChannelTestFail::BadChannel)
    );
    let answer = "{ \"error\" : { \"code\" : 500 } }";
    assert_eq!(
        channel_test_outcome(body(answer)),
        Err(ChannelTestFail::SomethingBroke(
            r#"Failure checking channel! {"error":{"code":500}}"#.to_string()
        ))
    );
    assert_eq!(
        channel_test_verdict(&error_document(401)),
        Err(ChannelTestFail::SomethingBroke(
            r#"Failure checking channel! {"error":{"code":401,"message":"no"}}"#.to_string()
        ))
    );
}

#[test]
fn channel_answer_that_names_no_channel() {
    for answer in [r#"{"items":[]}"#, r#"{}"#, r#"{"items":[{"snippet":{"title":7}}]}"#] {
        assert_eq!(channel_test_outcome(body(answer)), Err(ChannelTestFail::BadChannel));
    }
}

#[test]
fn channel_answer_that_is_not_json_or_never_came() {
    assert_eq!(
        channel_test_outcome(body("{")),
        Err(ChannelTestFail::SomethingBroke("Response is not JSON".to_string()))
    );
    let transfer = CurlFail::SomethingBroke("refused".to_string());
    assert_eq!(
        channel_test_outcome(Err(transfer.clone())),
        Err(ChannelTestFail::CurlFailure(transfer))
    );
}
