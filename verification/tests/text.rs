use gemini_cli::text::{
    chars_of, find_line_end, range_equals, range_starts_with, same_text, trim_range, whitespace,
};

fn trimmed(text: &str) -> String {
    let chars = chars_of(text);
    let (a, b) = trim_range(&chars, 0, chars.len());
    chars[a..b].iter().collect()
}

fn lines(text: &str) -> Vec<String> {
    let chars = chars_of(text);
    let mut out = Vec::new();
    let mut start = 0;
    loop {
        let end = find_line_end(&chars, start);
        out.push(chars[start..end].iter().collect());
        if end == chars.len() {
            return out;
        }
        start = end + 1;
    }
}

#[test]
fn whitespace_is_the_unicode_property() {
    let mut n: u32 = 0;
    while n <= 0x10ffff {
        if let Some(c) = char::from_u32(n) {
            assert_eq!(whitespace(c), c.is_whitespace(), "U+{:04X}", n);
        }
        n += 1;
    }
}

#[test]
fn whitespace_on_named_characters() {
    for c in [' ', '\t', '\n', '\r', '\u{0b}', '\u{0c}', '\u{85}', '\u{a0}', '\u{3000}'] {
        assert!(whitespace(c));
    }
    for c in ['a', ':', '\0', '\u{1c}', '\u{200b}', '\u{180e}', '\u{feff}', '\u{fffd}'] {
        assert!(!whitespace(c));
    }
}

#[test]
fn chars_of_keeps_every_character() {
    assert_eq!(chars_of(""), Vec::<char>::new());
    assert_eq!(chars_of("a\u{e9}\u{1f600}\n"), vec!['a', '\u{e9}', '\u{1f600}', '\n']);
}

#[test]
fn trim_range_agrees_with_trim() {
    let samples = [
        "",
        " ",
        "\t\r\n ",
        "a",
        " a",
        "a ",
        "  data: x  ",
        "\u{a0}\u{2003}x y\u{3000}\u{85}",
        "x\u{200b} ",
        "\r",
        "  inner  space  ",
    ];
    for sample in samples {
        assert_eq!(trimmed(sample), sample.trim(), "{:?}", sample);
    }
}

#[test]
fn trim_range_stays_inside_the_range() {
    let chars = chars_of("ab  cd  ef");
    assert_eq!(trim_range(&chars, 2, 8), (4, 6));
    assert_eq!(trim_range(&chars, 2, 4), (4, 4));
    assert_eq!(trim_range(&chars, 0, 10), (0, 10));
    assert_eq!(trim_range(&chars, 5, 5), (5, 5));
    assert_eq!(trim_range(&chars, 1, 3), (1, 2));
}

#[test]
fn lines_agree_with_split() {
    let samples = ["", "\n", "a", "a\n", "a\nb", "\n\n", "a\n\nb\n", "data: x\r\ndata: y\r\n"];
    for sample in samples {
        let expected: Vec<String> = sample.split('\n').map(|s| s.to_string()).collect();
        assert_eq!(lines(sample), expected, "{:?}", sample);
    }
}

#[test]
fn find_line_end_from_a_start() {
    let chars = chars_of("ab\ncd\n");
    assert_eq!(find_line_end(&chars, 0), 2);
    assert_eq!(find_line_end(&chars, 2), 2);
    assert_eq!(find_line_end(&chars, 3), 5);
    assert_eq!(find_line_end(&chars, 6), 6);
}

#[test]
fn ranges_compare_with_patterns() {
    let chars = chars_of("xxdata: yy");
    let prefix = chars_of("data: ");
    assert!(range_starts_with(&chars, 2, 10, &prefix));
    assert!(range_starts_with(&chars, 2, 8, &prefix));
    assert!(!range_starts_with(&chars, 2, 7, &prefix));
    assert!(!range_starts_with(&chars, 0, 10, &prefix));
    assert!(!range_starts_with(&chars, 3, 10, &prefix));
    assert!(range_starts_with(&chars, 4, 4, &Vec::new()));
    assert!(range_equals(&chars, 2, 8, &prefix));
    assert!(!range_equals(&chars, 2, 9, &prefix));
    assert!(!range_equals(&chars, 2, 7, &prefix));
    assert!(!range_equals(&chars, 0, 6, &prefix));
    assert!(range_equals(&chars, 4, 4, &Vec::new()));
}

#[test]
fn same_text_is_equality() {
    assert!(same_text("", ""));
    assert!(same_text("text", "text"));
    assert!(same_text("\u{e9}\u{1f600}", "\u{e9}\u{1f600}"));
    assert!(!same_text("text", "texts"));
    assert!(!same_text("texts", "text"));
    assert!(!same_text("text", "tex\u{74}\u{301}"));
    assert!(!same_text("text", "Text"));
    assert!(!same_text("", " "));
}
