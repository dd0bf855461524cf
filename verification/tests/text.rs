use comment_tracker::text::{push_decimal, strip_quotes};

#[test]
fn quotes_are_taken_out_and_nothing_else() {
    assert_eq!(strip_quotes("\"Video A\""), "Video A");
    assert_eq!(strip_quotes("a\"b\"\"c"), "abc");
    assert_eq!(strip_quotes(""), "");
    assert_eq!(strip_quotes("\"\""), "");
    assert_eq!(strip_quotes("  'kept' \\ “curly” é "), "  'kept' \\ “curly” é ");
}

#[test]
fn numerals_are_decimal() {
    for n in [0, 7, 9, 10, 11, 99, 100, 101, 4294967295, -1, -10, -400, i64::MAX, i64::MIN] {
        let mut text = String::from("n=");
        push_decimal(&mut text, n);
        assert_eq!(text, format!("n={n}"));
    }
}
