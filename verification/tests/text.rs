use prowl::text::{
    char_text, chars_of, contains, dec, dec_int, fold, is_empty, same, same_opt,
    sorts_before, text_of,
};

#[test]
fn numbers_are_spelled_in_decimal() {
    for n in [0, 7, 10, 99, 100, 12345, u64::MAX] {
        assert_eq!(dec(n), n.to_string());
    }
    for n in [0, -1, 42, i64::MIN, i64::MAX] {
        assert_eq!(dec_int(n), n.to_string());
    }
}

#[test]
fn texts_compare_like_strings() {
    let texts = ["", "a", "ab", "b", "B", "é", "2026-01-02", "2026-01-10"];
    for a in texts {
        for b in texts {
            assert_eq!(same(a, b), a == b);
            assert_eq!(sorts_before(a, b), a < b, "{a} {b}");
            assert_eq!(contains(a, b), a.contains(b), "{a} {b}");
        }
        assert!(same_opt(Some(a), a));
        assert!(!same_opt(None, a));
        assert_eq!(is_empty(a), a.is_empty());
    }
}

#[test]
fn folding_lowers_the_case() {
    assert_eq!(fold("ABC É"), "abc é");
    assert_eq!(fold(""), "");
    // A final sigma folds by its place in the word.
    assert_eq!(fold("ΟΔΟΣ"), "ΟΔΟΣ".to_lowercase());
}

#[test]
fn texts_are_taken_apart_and_put_together() {
    let chars = chars_of("héllo");
    assert_eq!(chars, ['h', 'é', 'l', 'l', 'o']);
    assert_eq!(text_of(&chars, 2), "hé");
    assert_eq!(prowl::text::concat("ab", "cd"), "abcd");
    assert_eq!(char_text('é'), "é");
}
