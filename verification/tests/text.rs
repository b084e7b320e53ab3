use budget_rs::text::eq_ignore_ascii_case;
use budget_rs::text::is_blank;
use budget_rs::text::trim_whitespace;

#[test]
fn trimming_unicode_whitespace() {
    assert_eq!(trim_whitespace("  a b\t\n"), "a b");
    assert_eq!(trim_whitespace("\u{3000}x\u{2028}"), "x");
    assert_eq!(trim_whitespace("\u{200B}x"), "\u{200B}x");
    assert_eq!(trim_whitespace(""), "");
    assert_eq!(trim_whitespace(" \u{a0} "), "");
}

#[test]
fn blank_text() {
    assert!(is_blank(""));
    assert!(is_blank(" \n\t\r"));
    assert!(!is_blank(" [] "));
}

#[test]
fn ascii_case_comparison() {
    assert!(eq_ignore_ascii_case("GrOcErIeS", "groceries"));
    assert!(!eq_ignore_ascii_case("groceries", "grocerie"));
    assert!(!eq_ignore_ascii_case("\u{e9}", "\u{c9}"));
    assert!(eq_ignore_ascii_case("", ""));
}
