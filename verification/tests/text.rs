use domers::text::{chars_of, decimal_string, push_decimal, string_from_chars};

#[test]
fn decimals_render_without_padding() {
    assert_eq!(decimal_string(0), "0");
    assert_eq!(decimal_string(120), "120");
    assert_eq!(decimal_string(u64::MAX), "18446744073709551615");
    let mut s = "--audio_input=".to_string();
    push_decimal(&mut s, 5);
    assert_eq!(s, "--audio_input=5");
}

#[test]
fn chars_round_trip() {
    let chars = chars_of("héllo");
    assert_eq!(chars.len(), 5);
    assert_eq!(string_from_chars(&chars), "héllo");
}
