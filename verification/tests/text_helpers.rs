use rust_openai_bot::text::{
    chars_of, concat_str, decimal_chars, is_white_space_char, parse_usize, remove_char_from,
    replace_char_in, string_of, trim_chars,
};

fn chars(s: &str) -> Vec<char> {
    s.chars().collect()
}

#[test]
fn parse_usize_reads_plain_digits() {
    assert_eq!(parse_usize("5"), Some(5));
    assert_eq!(parse_usize("0"), Some(0));
    assert_eq!(parse_usize("007"), Some(7));
    assert_eq!(parse_usize("1234567890"), Some(1234567890));
}

#[test]
fn parse_usize_accepts_one_plus_sign() {
    assert_eq!(parse_usize("+12"), Some(12));
    assert_eq!(parse_usize("+"), None);
    assert_eq!(parse_usize("++1"), None);
}

#[test]
fn parse_usize_refuses_what_std_refuses() {
    for text in ["", "-1", "-0", " 5", "5 ", "abc", "1.5", "1_000", "٣"] {
        assert_eq!(parse_usize(text), None, "{text:?}");
        assert_eq!(text.parse::<usize>().ok(), None, "{text:?}");
    }
}

#[test]
fn parse_usize_agrees_with_std_at_the_limit() {
    let max = usize::MAX.to_string();
    assert_eq!(parse_usize(&max), Some(usize::MAX));
    let over = format!("{}0", usize::MAX);
    assert_eq!(parse_usize(&over), None);
    assert_eq!(parse_usize("99999999999999999999999999"), None);
}

#[test]
fn decimal_chars_writes_like_display() {
    for n in [0usize, 1, 9, 10, 42, 100, 65535, usize::MAX] {
        let text: String = decimal_chars(n).into_iter().collect();
        assert_eq!(text, n.to_string());
        assert_eq!(parse_usize(&text), Some(n));
    }
}

#[test]
fn trim_chars_drops_unicode_white_space_at_both_ends() {
    let t: String = trim_chars(&chars(" \t\u{3000}Fast Cars\u{a0}\n")).into_iter().collect();
    assert_eq!(t, "Fast Cars");
    let empty: String = trim_chars(&chars("  \u{2003} ")).into_iter().collect();
    assert_eq!(empty, "");
    let kept: String = trim_chars(&chars("a b")).into_iter().collect();
    assert_eq!(kept, "a b");
}

#[test]
fn white_space_test_matches_std() {
    for c in ['\t', '\n', ' ', '\u{85}', '\u{a0}', '\u{1680}', '\u{2000}', '\u{200a}', '\u{2028}',
        '\u{3000}', 'a', '_', '\u{200b}', '\u{feff}', '🐶']
    {
        assert_eq!(is_white_space_char(c), c.is_whitespace(), "{c:?}");
    }
}

#[test]
fn replace_and_remove_chars() {
    let r: String = replace_char_in(&chars("fast cars now"), ' ', '_').into_iter().collect();
    assert_eq!(r, "fast_cars_now");
    let d: String = remove_char_from(&chars("_under_water_"), '_').into_iter().collect();
    assert_eq!(d, "underwater");
}

#[test]
fn strings_and_chars_round_trip() {
    let v = chars_of("héllo 🐱");
    assert_eq!(v, chars("héllo 🐱"));
    assert_eq!(string_of(&v), "héllo 🐱");
    assert_eq!(concat_str("ab", "cd"), "abcd");
}

#[test]
fn database_connection_string_lists_every_setting() {
    assert_eq!(
        rust_openai_bot::database::connection_string("db", "5432", "bot", "pw", "photos"),
        "host=db port=5432 user=bot password=pw dbname=photos"
    );
}
