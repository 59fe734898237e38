use tracing_stackdriver::text::{
    char_count, chars_of, eq_ignore_ascii_case, has_prefix, same_text, string_of, text_after,
    text_lt, to_ascii_lower,
};

#[test]
fn chars_and_back() {
    assert_eq!(chars_of("a\u{e9}z"), vec!['a', '\u{e9}', 'z']);
    assert_eq!(chars_of(""), Vec::<char>::new());
    assert_eq!(string_of(&vec!['h', 'i', '\u{1f600}']), "hi\u{1f600}");
    assert_eq!(string_of(&chars_of("round trip")), "round trip");
}

#[test]
fn same_text_compares_characters() {
    assert!(same_text("abc", "abc"));
    assert!(same_text("", ""));
    assert!(!same_text("abc", "abd"));
    assert!(!same_text("abc", "ab"));
    assert!(!same_text("abc", "ABC"));
}

#[test]
fn lexicographic_order() {
    assert!(text_lt("a", "b"));
    assert!(!text_lt("b", "a"));
    assert!(!text_lt("a", "a"));
    assert!(text_lt("", "a"));
    assert!(!text_lt("a", ""));
    assert!(!text_lt("", ""));
    assert!(text_lt("ab", "abc"));
    assert!(!text_lt("abc", "ab"));
    assert!(text_lt("Zebra", "apple"));
    assert!(text_lt("fooBar", "foo_bar"));
    assert!(text_lt("z", "\u{e9}"));
    assert!(text_lt("\u{e9}", "\u{1f600}"));
}

#[test]
fn lexicographic_order_agrees_with_str() {
    let words = ["", "a", "ab", "b", "B", "http_request.status", "labels.x", "message", "\u{e9}"];
    for a in words {
        for b in words {
            assert_eq!(text_lt(a, b), a < b, "{:?} {:?}", a, b);
        }
    }
}

#[test]
fn prefixes() {
    assert!(has_prefix("log.target", "log."));
    assert!(has_prefix("log.", "log."));
    assert!(has_prefix("anything", ""));
    assert!(!has_prefix("log", "log."));
    assert!(!has_prefix("blog.x", "log."));
    assert!(!has_prefix("", "log."));
    assert!(!has_prefix("Log.x", "log."));
}

#[test]
fn text_after_a_prefix() {
    assert_eq!(text_after("labels.user_id", 7), "user_id");
    assert_eq!(text_after("labels.", 7), "");
    assert_eq!(text_after("abc", 0), "abc");
    assert_eq!(text_after("\u{e9}\u{e9}x", 2), "x");
}

#[test]
fn character_count() {
    assert_eq!(char_count(""), 0);
    assert_eq!(char_count("http_request."), 13);
    assert_eq!(char_count("\u{e9}\u{1f600}"), 2);
}

#[test]
fn ascii_lower_case() {
    assert_eq!(to_ascii_lower('A'), 'a');
    assert_eq!(to_ascii_lower('Z'), 'z');
    assert_eq!(to_ascii_lower('m'), 'm');
    assert_eq!(to_ascii_lower('@'), '@');
    assert_eq!(to_ascii_lower('['), '[');
    assert_eq!(to_ascii_lower('\u{c9}'), '\u{c9}');
}

#[test]
fn equality_without_case() {
    assert!(eq_ignore_ascii_case("Warning", "WARNING"));
    assert!(eq_ignore_ascii_case("", ""));
    assert!(!eq_ignore_ascii_case("warn", "WARNING"));
    assert!(!eq_ignore_ascii_case("\u{c9}", "\u{e9}"));
    assert!(!eq_ignore_ascii_case("a", "b"));
}
