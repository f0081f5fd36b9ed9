use domers::link::{ascii_words, link_line_fields, LinkLineFields};

fn fields(bpm: &str, phase: Option<&str>) -> Option<LinkLineFields> {
    Some(LinkLineFields { bpm: bpm.to_string(), phase: phase.map(str::to_string) })
}

#[test]
fn reads_link_stdout_shapes() {
    assert_eq!(link_line_fields("LINK 120 0.25"), fields("120", Some("0.25")));
    assert_eq!(link_line_fields("BPM: 90"), fields("90", None));
    assert_eq!(link_line_fields("tempo=128 phase=1.25"), fields("128", Some("1.25")));
    assert_eq!(link_line_fields("tempo=0"), fields("0", None));
}

#[test]
fn link_line_edge_cases() {
    assert_eq!(link_line_fields(""), None);
    assert_eq!(link_line_fields("   \t "), None);
    assert_eq!(link_line_fields("LINK    "), None);
    assert_eq!(link_line_fields("  LINK 99  "), fields("99", None));
    assert_eq!(link_line_fields("LINK 1 2 3"), fields("1", Some("2")));
    assert_eq!(link_line_fields("bpm=100 tempo=110"), fields("110", None));
    assert_eq!(link_line_fields("phase=0.5 bpm=100 phase=x"), fields("100", Some("x")));
    assert_eq!(link_line_fields("phase=0.5"), None);
    assert_eq!(link_line_fields("hello world"), None);
    assert_eq!(link_line_fields("BPM:   "), fields("", None));
}

#[test]
fn splits_on_ascii_white_space() {
    let chars: Vec<char> = " a\tbc \r\nd ".chars().collect();
    let words: Vec<String> = ascii_words(&chars).iter().map(|w| w.iter().collect()).collect();
    assert_eq!(words, vec!["a", "bc", "d"]);
    assert!(ascii_words(&[]).is_empty());
}
