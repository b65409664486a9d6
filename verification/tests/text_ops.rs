use abi_yt_downloader::text::{
    chars_of, contains_chars, parse_u32_chars, parse_u64_chars, remove_all_chars, split_chars,
    strip_trailing_chars, text_eq, trim_chars,
};

fn v(s: &str) -> Vec<char> {
    chars_of(s)
}

fn st(c: &Vec<char>) -> String {
    c.iter().collect()
}

#[test]
fn trim_uses_unicode_whitespace() {
    assert_eq!(st(&trim_chars(&v("  a b \t\n"))), "a b");
    assert_eq!(st(&trim_chars(&v("\u{3000}x\u{a0}"))), "x");
    assert_eq!(st(&trim_chars(&v("   "))), "");
    assert_eq!(st(&trim_chars(&v("\u{200b}x"))), "\u{200b}x");
}

#[test]
fn split_keeps_empty_pieces() {
    let parts: Vec<String> = split_chars(&v("a||b|"), '|').iter().map(st).collect();
    assert_eq!(parts, vec!["a", "", "b", ""]);
    let parts: Vec<String> = split_chars(&v(""), ':').iter().map(st).collect();
    assert_eq!(parts, vec![""]);
}

#[test]
fn contains_and_remove_all() {
    assert!(contains_chars(&v("1.2KiB/s"), &v("KiB")));
    assert!(!contains_chars(&v("1.2Ki"), &v("KiB")));
    assert!(contains_chars(&v("abc"), &v("")));
    assert_eq!(st(&remove_all_chars(&v("aKiB/sbKiB/s"), &v("KiB/s"))), "ab");
    assert_eq!(st(&remove_all_chars(&v("aaa"), &v("aa"))), "a");
    assert_eq!(st(&remove_all_chars(&v("abc"), &v(""))), "abc");
}

#[test]
fn strip_trailing_percent() {
    assert_eq!(st(&strip_trailing_chars(&v("45%%"), '%')), "45");
    assert_eq!(st(&strip_trailing_chars(&v("%4%5"), '%')), "%4%5");
}

#[test]
fn unsigned_parsing_matches_std() {
    for s in ["0", "42", "+7", "", "+", "-1", "1a", " 1", "007", "18446744073709551615", "18446744073709551616", "99999999999999999999999"] {
        assert_eq!(parse_u64_chars(&v(s)), s.parse::<u64>().ok(), "{}", s);
        assert_eq!(parse_u32_chars(&v(s)), s.parse::<u32>().ok(), "{}", s);
    }
    for s in ["4294967295", "4294967296", "\u{661}\u{662}"] {
        assert_eq!(parse_u32_chars(&v(s)), s.parse::<u32>().ok(), "{}", s);
    }
}

#[test]
fn text_equality() {
    assert!(text_eq("none", "none"));
    assert!(!text_eq("none", "None"));
}
