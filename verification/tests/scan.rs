use domers::scan::{find_chars, parse_unsigned_chars, same_chars, split_chars, trim_chars};

fn c(s: &str) -> Vec<char> {
    s.chars().collect()
}

#[test]
fn finds_first_occurrence_from_start() {
    assert_eq!(find_chars(&c("abcabc"), &c("bc"), 0), Some(1));
    assert_eq!(find_chars(&c("abcabc"), &c("bc"), 2), Some(4));
    assert_eq!(find_chars(&c("abc"), &c("x"), 0), None);
}

#[test]
fn trims_like_str_trim() {
    assert_eq!(trim_chars(&c("\t a b \n")), c("a b"));
    assert_eq!(trim_chars(&c("\u{3000}x\u{a0}")), c("x"));
    assert_eq!(trim_chars(&c("   ")), c(""));
}

#[test]
fn splits_like_str_split() {
    let parts = split_chars(&c("a,,b,"), &c(","));
    assert_eq!(parts, vec![c("a"), c(""), c("b"), c("")]);
    assert_eq!(split_chars(&c(""), &c(",")), vec![c("")]);
}

#[test]
fn parses_unsigned_like_str_parse() {
    assert_eq!(parse_unsigned_chars(&c("255"), 255), Some(255));
    assert_eq!(parse_unsigned_chars(&c("+7"), 255), Some(7));
    assert_eq!(parse_unsigned_chars(&c("256"), 255), None);
    assert_eq!(parse_unsigned_chars(&c(""), 255), None);
    assert_eq!(parse_unsigned_chars(&c("+"), 255), None);
    assert_eq!(parse_unsigned_chars(&c("1 "), 255), None);
}

#[test]
fn compares_char_sequences() {
    assert!(same_chars(&c("note"), &c("note")));
    assert!(!same_chars(&c("note"), &c("notes")));
}
