use roseflower::text::{format_number, html_escape};

#[test]
fn format_number_groups_thousands() {
    assert_eq!(format_number(0), "0");
    assert_eq!(format_number(7), "7");
    assert_eq!(format_number(999), "999");
    assert_eq!(format_number(1000), "1,000");
    assert_eq!(format_number(1234567), "1,234,567");
    assert_eq!(format_number(100000), "100,000");
    assert_eq!(format_number(i64::MAX), "9,223,372,036,854,775,807");
}

#[test]
fn format_number_counts_the_minus_sign() {
    assert_eq!(format_number(-5), "-5");
    assert_eq!(format_number(-12), "-12");
    assert_eq!(format_number(-123), "-,123");
    assert_eq!(format_number(-1234), "-1,234");
    assert_eq!(format_number(i64::MIN), "-9,223,372,036,854,775,808");
}

#[test]
fn format_number_only_inserts_commas() {
    for n in [0i64, 1, 12, 123, 1234, 98765, 1000000, -1, -999, -1000, -123456789] {
        let stripped: String = format_number(n).chars().filter(|c| *c != ',').collect();
        assert_eq!(stripped, n.to_string());
    }
}

#[test]
fn html_escape_replaces_special_characters() {
    assert_eq!(html_escape("plain text"), "plain text");
    assert_eq!(html_escape("a & b"), "a &amp; b");
    assert_eq!(html_escape("<script>"), "&lt;script&gt;");
    assert_eq!(html_escape("say \"hi\""), "say &quot;hi&quot;");
    assert_eq!(html_escape("it's"), "it&#x27;s");
    assert_eq!(html_escape("&lt;"), "&amp;lt;");
    assert_eq!(html_escape(""), "");
    assert_eq!(html_escape("\u{3042}<\u{1F451}>"), "\u{3042}&lt;\u{1F451}&gt;");
}

#[test]
fn html_escape_leaves_no_markup() {
    let out = html_escape("<a href='x' title=\"y\">&</a>");
    assert!(!out.contains('<'));
    assert!(!out.contains('>'));
    assert!(!out.contains('"'));
    assert!(!out.contains('\''));
    assert_eq!(out, "&lt;a href=&#x27;x&#x27; title=&quot;y&quot;&gt;&amp;&lt;/a&gt;");
}

#[test]
fn html_escape_keeps_texts_apart() {
    assert_ne!(html_escape("&lt;"), html_escape("<"));
    assert_ne!(html_escape("&amp;"), html_escape("&"));
    assert_ne!(html_escape("'"), html_escape("&#x27;"));
    assert_eq!(html_escape("&#x27;"), "&amp;#x27;");
}
