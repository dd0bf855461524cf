use comment_tracker::json::{read_document, write_json, Json};

fn text(value: &str) -> Json {
    Json::Text(value.to_string())
}

fn object(members: Vec<(&str, Json)>) -> Json {
    Json::Object(members.into_iter().map(|(name, value)| (name.to_string(), value)).collect())
}

#[test]
fn member_of_an_object() {
    let value = object(vec![("a", text("one")), ("b", Json::Bool(true))]);
    assert_eq!(value.get("a"), Some(&text("one")));
    assert_eq!(value.get("b"), Some(&Json::Bool(true)));
    assert_eq!(value.get("c"), None);
    assert_eq!(value.get(""), None);
}

#[test]
fn first_member_of_a_name_wins() {
    let value = object(vec![("a", text("one")), ("a", text("two"))]);
    assert_eq!(value.get("a"), Some(&text("one")));
}

#[test]
fn only_objects_have_members() {
    for value in [Json::Null, Json::Bool(false), text("a"), Json::Array(vec![text("a")])] {
        assert_eq!(value.get("a"), None);
    }
}

#[test]
fn member_of_a_member() {
    let value = object(vec![("outer", object(vec![("inner", text("deep"))])), ("flat", text("x"))]);
    assert_eq!(value.get_nested("outer", "inner"), Some(&text("deep")));
    assert_eq!(value.get_nested("outer", "other"), None);
    assert_eq!(value.get_nested("flat", "inner"), None);
    assert_eq!(value.get_nested("none", "inner"), None);
}

#[test]
fn element_of_an_array() {
    let value = Json::Array(vec![text("zero"), Json::Null]);
    assert_eq!(value.at(0), Some(&text("zero")));
    assert_eq!(value.at(1), Some(&Json::Null));
    assert_eq!(value.at(2), None);
    assert_eq!(object(vec![("0", text("x"))]).at(0), None);
}

#[test]
fn values_as_plain_values() {
    let whole = Json::Number { integer: Some(-3), literal: "-3".to_string() };
    let fraction = Json::Number { integer: None, literal: "0.5".to_string() };
    assert_eq!(whole.as_integer(), Some(-3));
    assert_eq!(fraction.as_integer(), None);
    assert_eq!(text("5").as_integer(), None);
    assert_eq!(text("hello").as_text(), Some("hello"));
    assert_eq!(whole.as_text(), None);
    assert_eq!(Json::Array(vec![Json::Null]).as_elements(), Some(&vec![Json::Null]));
    assert_eq!(object(vec![]).as_elements(), None);
}

fn number(integer: Option<i64>, literal: &str) -> Json {
    Json::Number { integer, literal: literal.to_string() }
}

#[test]
fn document_is_read_as_a_tree() {
    let document = read_document(r#" {"a": [1, -2.5, "x\ny", null, true], "b": {"c": {}}} "#);
    let expected = object(vec![
        (
            "a",
            Json::Array(vec![
                number(Some(1), "1"),
                number(None, "-2.5"),
                text("x\ny"),
                Json::Null,
                Json::Bool(true),
            ]),
        ),
        ("b", object(vec![("c", object(vec![]))])),
    ]);
    assert_eq!(document, Some(expected));
}

#[test]
fn scalars_are_documents_too() {
    assert_eq!(read_document("null"), Some(Json::Null));
    assert_eq!(read_document(" false "), Some(Json::Bool(false)));
    assert_eq!(read_document("\"hi\""), Some(text("hi")));
    assert_eq!(read_document("-400"), Some(number(Some(-400), "-400")));
    assert_eq!(read_document("[]"), Some(Json::Array(vec![])));
}

#[test]
fn numbers_keep_their_numeral_and_their_integer_where_it_fits() {
    assert_eq!(
        read_document("9223372036854775807"),
        Some(number(Some(i64::MAX), "9223372036854775807"))
    );
    assert_eq!(
        read_document("9223372036854775808"),
        Some(number(None, "9223372036854775808"))
    );
    assert_eq!(
        read_document("-9223372036854775808"),
        Some(number(Some(i64::MIN), "-9223372036854775808"))
    );
    assert_eq!(read_document("400.0"), Some(number(None, "400.0")));
}

#[test]
fn members_come_in_the_order_of_their_names_and_the_last_of_a_name_stays() {
    let document = read_document(r#"{"b": 1, "a": 2, "a": 3}"#);
    let expected = object(vec![("a", number(Some(3), "3")), ("b", number(Some(1), "1"))]);
    assert_eq!(document, Some(expected));
}

#[test]
fn text_that_is_no_json_holds_no_document() {
    for broken in ["", "   ", "{", "nul", "1 2", "{\"a\":}", "[1,]", "'single'", "{} {}"] {
        assert_eq!(read_document(broken), None);
    }
}

#[test]
fn nesting_is_read_to_any_depth_the_reader_takes() {
    let document = read_document("[[[[[[[[[[7]]]]]]]]]]").unwrap();
    let mut inner = &document;
    for _ in 0..10 {
        inner = inner.at(0).unwrap();
    }
    assert_eq!(inner.as_integer(), Some(7));
    let too_deep = "[".repeat(200) + &"]".repeat(200);
    assert_eq!(read_document(&too_deep), None);
}

#[test]
fn values_are_written_without_white_space() {
    let document = read_document(" { \"b\" : [ 1 , -2.5 , \"x\\ny\" , null , true ] , \"a\" : { } } ");
    assert_eq!(
        write_json(&document.unwrap()),
        "{\"a\":{},\"b\":[1,-2.5,\"x\\ny\",null,true]}"
    );
    assert_eq!(write_json(&Json::Null), "null");
    assert_eq!(write_json(&Json::Bool(false)), "false");
    assert_eq!(write_json(&Json::Array(vec![])), "[]");
}

#[test]
fn strings_are_written_as_literals() {
    assert_eq!(write_json(&text("plain")), "\"plain\"");
    assert_eq!(write_json(&text("say \"hi\"")), "\"say \\\"hi\\\"\"");
    assert_eq!(write_json(&text("tab\there \\ \u{1} é")), "\"tab\\there \\\\ \\u0001 é\"");
}

#[test]
fn numbers_are_written_as_the_numbers_their_numerals_name() {
    assert_eq!(write_json(&number(Some(7), "7")), "7");
    assert_eq!(write_json(&number(None, "1e2")), "100.0");
    assert_eq!(write_json(&number(Some(1), "-3")), "-3");
    assert_eq!(write_json(&number(None, "18446744073709551615")), "18446744073709551615");
    assert_eq!(write_json(&number(Some(7), "seven")), "null");
    assert_eq!(write_json(&number(None, "")), "null");
}

#[test]
fn objects_are_written_as_the_map_of_their_members() {
    let unordered = object(vec![
        ("b", number(Some(1), "1")),
        ("a", number(Some(2), "2")),
        ("a", number(Some(3), "3")),
    ]);
    assert_eq!(write_json(&unordered), "{\"a\":3,\"b\":1}");
    let nested = Json::Array(vec![object(vec![("k", Json::Array(vec![text("v")]))]), Json::Null]);
    assert_eq!(write_json(&nested), "[{\"k\":[\"v\"]},null]");
}

#[test]
fn what_is_read_is_written_as_it_was_read() {
    for written in [
        "null",
        "true",
        "0",
        "-9223372036854775808",
        "18446744073709551615",
        "0.1",
        "\"\"",
        "[[],{}]",
        "{\"items\":[{\"id\":{\"videoId\":\"a\"},\"snippet\":{\"title\":\"Video A\"}}]}",
    ] {
        assert_eq!(write_json(&read_document(written).unwrap()), written);
    }
}
