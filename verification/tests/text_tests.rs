use flit::text::{header_safe_name, html_escape, is_blank_str, is_url, label_of_text};
use flit::outside::now;

#[test]
fn url_needs_a_scheme_and_no_spaces() {
    assert!(is_url("https://example.com/a?b=c"));
    assert!(is_url("  http://example.com\n"));
    assert!(is_url("http://"));
    assert!(!is_url("https://exa mple.com"));
    assert!(!is_url("ftp://example.com"));
    assert!(!is_url("example.com"));
    assert!(!is_url(""));
    assert!(!is_url("   "));
    assert!(!is_url("HTTPS://example.com"));
}

#[test]
fn url_trim_uses_unicode_white_space() {
    assert!(is_url("\u{3000}https://example.com\u{a0}"));
    assert!(!is_url("https://a\u{2003}b"));
}

#[test]
fn escape_writes_character_references() {
    assert_eq!(html_escape("<a href='x'>Tom & Jerry</a>"), "&lt;a href='x'&gt;Tom &amp; Jerry&lt;/a&gt;");
    assert_eq!(html_escape("plain"), "plain");
    assert_eq!(html_escape("&amp;"), "&amp;amp;");
    assert_eq!(html_escape(""), "");
}

#[test]
fn escaped_text_has_no_angle_brackets() {
    let e = html_escape("<script>alert(1)</script> >< <<>>");
    assert!(!e.contains('<'));
    assert!(!e.contains('>'));
}

#[test]
fn label_is_the_first_line_cut_short() {
    assert_eq!(label_of_text("first line\nsecond", 80), "first line");
    assert_eq!(label_of_text("windows\r\nnext", 80), "windows");
    assert_eq!(label_of_text("lone cr\r", 80), "lone cr\r");
    assert_eq!(label_of_text("", 80), "");
    assert_eq!(label_of_text("\nafter", 80), "");
    let long: String = std::iter::repeat('가').take(100).collect();
    let l = label_of_text(&long, 80);
    assert_eq!(l.chars().count(), 80);
    assert_eq!(label_of_text("abcdef", 3), "abc");
}

#[test]
fn blank_means_only_white_space() {
    assert!(is_blank_str(""));
    assert!(is_blank_str(" \t\r\n\u{2028}"));
    assert!(!is_blank_str(" x "));
}

#[test]
fn header_names_lose_quotes_and_newlines() {
    assert_eq!(header_safe_name("a\"b\nc", true), "ab c");
    assert_eq!(header_safe_name("a\"b\nc", false), "a\"b c");
    assert_eq!(header_safe_name("report.pdf", true), "report.pdf");
}

#[test]
fn clock_reads_seconds_since_epoch() {
    let t = now();
    assert!(t > 1_600_000_000);
}

#[test]
fn outer_white_space_does_not_change_a_link() {
    for s in ["https://a.b", "http://x y", "plain", "", " https://z "] {
        let wrapped = format!(" {s}\n");
        assert_eq!(is_url(&wrapped), is_url(s));
        assert_eq!(is_url(s.trim()), is_url(s));
    }
}
