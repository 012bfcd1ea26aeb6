use ruso::text::{decimal_text, hundredths_text, parse_hundredths, parse_unsigned};

#[test]
fn hundredths_render_shortest() {
    assert_eq!(hundredths_text(150), "1.5");
    assert_eq!(hundredths_text(200), "2");
    assert_eq!(hundredths_text(125), "1.25");
    assert_eq!(hundredths_text(5), "0.05");
    assert_eq!(hundredths_text(0), "0");
    assert_eq!(hundredths_text(1000), "10");
}

#[test]
fn decimal_renders_digits() {
    assert_eq!(decimal_text(0), "0");
    assert_eq!(decimal_text(12345), "12345");
    assert_eq!(decimal_text(u64::MAX as u128), u64::MAX.to_string());
}

#[test]
fn hundredths_parse() {
    assert_eq!(parse_hundredths("1.5"), Some(150));
    assert_eq!(parse_hundredths("9.25"), Some(925));
    assert_eq!(parse_hundredths("9.125"), Some(913));
    assert_eq!(parse_hundredths("9.124"), Some(912));
    assert_eq!(parse_hundredths("+2"), Some(200));
    assert_eq!(parse_hundredths(".5"), Some(50));
    assert_eq!(parse_hundredths("5."), Some(500));
    assert_eq!(parse_hundredths("."), None);
    assert_eq!(parse_hundredths(""), None);
    assert_eq!(parse_hundredths("-1"), None);
    assert_eq!(parse_hundredths("1.2.3"), None);
    assert_eq!(parse_hundredths("abc"), None);
    assert_eq!(parse_hundredths("99999999999"), None);
}

#[test]
fn unsigned_parse() {
    assert_eq!(parse_unsigned("180"), Some(180));
    assert_eq!(parse_unsigned("+7"), Some(7));
    assert_eq!(parse_unsigned("+"), None);
    assert_eq!(parse_unsigned(""), None);
    assert_eq!(parse_unsigned("1 2"), None);
}
