use comment_tracker::ident::{rank_ids, Rank};

#[test]
fn equal_identifiers_rank_the_same() {
    assert_eq!(rank_ids("", ""), Rank::Same);
    assert_eq!(rank_ids("dQw4w9WgXcQ", "dQw4w9WgXcQ"), Rank::Same);
}

#[test]
fn a_prefix_comes_first() {
    assert_eq!(rank_ids("", "a"), Rank::Before);
    assert_eq!(rank_ids("abc", "abcd"), Rank::Before);
    assert_eq!(rank_ids("abcd", "abc"), Rank::After);
}

#[test]
fn first_difference_decides() {
    assert_eq!(rank_ids("abc", "abd"), Rank::Before);
    assert_eq!(rank_ids("b", "abc"), Rank::After);
    assert_eq!(rank_ids("Z", "a"), Rank::Before);
    assert_eq!(rank_ids("-x", "_x"), Rank::Before);
}

#[test]
fn ranks_agree_with_the_order_of_strings() {
    let samples = ["", "a", "A", "ab", "b", "é", "z", "zz", "😀", "\u{7f}", "\u{80}", "\u{ffff}", "~"];
    for a in samples {
        for b in samples {
            let expected = if a < b {
                Rank::Before
            } else if a > b {
                Rank::After
            } else {
                Rank::Same
            };
            assert_eq!(rank_ids(a, b), expected);
        }
    }
}
