use marco::text::{crlf, is_whitespace, starts_with, trim};

#[test]
fn whitespace_is_what_std_calls_whitespace() {
    let mut n: u32 = 0;
    while n <= 0x10FFFF {
        if let Some(c) = char::from_u32(n) {
            assert_eq!(is_whitespace(c), c.is_whitespace(), "at U+{:04X}", n);
        }
        n += 1;
    }
}

#[test]
fn trim_removes_both_ends() {
    assert_eq!(trim("  hello \n"), "hello");
    assert_eq!(trim("\t\r\n a b \u{3000}"), "a b");
    assert_eq!(trim("hello"), "hello");
}

#[test]
fn trim_keeps_inner_white_space() {
    assert_eq!(trim(" a \n b "), "a \n b");
}

#[test]
fn trim_of_blank_text_is_empty() {
    assert_eq!(trim(""), "");
    assert_eq!(trim(" \n\t "), "");
    assert_eq!(trim("\u{2003}\u{85}"), "");
}

#[test]
fn trim_handles_wide_characters() {
    assert_eq!(trim(" héllo wörld ✓ "), "héllo wörld ✓");
    assert_eq!(trim("\u{a0}日本語\u{2028}"), "日本語");
}

#[test]
fn trim_agrees_with_std_on_samples() {
    let samples = [
        "", " ", "a", " a", "a ", "  a  b  ", "\n\n{\"a\": 1}\n", "\u{feff}x ", "x\u{200b} ",
        "\u{1680}y\u{205f}", "é ", " é",
    ];
    for s in samples {
        assert_eq!(trim(s), s.trim(), "on {:?}", s);
    }
}

#[test]
fn starts_with_compares_the_first_characters() {
    assert!(starts_with("Test: add", "Test:"));
    assert!(starts_with("Test:", "Test:"));
    assert!(starts_with("anything", ""));
    assert!(!starts_with("Tes", "Test:"));
    assert!(!starts_with("test: add", "Test:"));
    assert!(!starts_with(" Test: add", "Test:"));
    assert!(starts_with("é{", "é"));
}

#[test]
fn crlf_puts_a_carriage_return_before_each_line_feed() {
    assert_eq!(crlf("a\nb\n"), "a\r\nb\r\n");
    assert_eq!(crlf("no line feed"), "no line feed");
    assert_eq!(crlf(""), "");
    assert_eq!(crlf("\n"), "\r\n");
}

#[test]
fn crlf_doubles_an_existing_carriage_return() {
    assert_eq!(crlf("a\r\nb"), "a\r\r\nb");
}
