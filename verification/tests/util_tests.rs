use rust_socksd::strutil::{find_char, format_u64, lower_string, parse_u16, trim_str, upper_string};

#[test]
fn decimal_formatting() {
    assert_eq!(format_u64(0), "0");
    assert_eq!(format_u64(7), "7");
    assert_eq!(format_u64(80), "80");
    assert_eq!(format_u64(65535), "65535");
    assert_eq!(format_u64(1_048_576), "1048576");
    assert_eq!(format_u64(u64::MAX), "18446744073709551615");
}

#[test]
fn port_parsing() {
    assert_eq!(parse_u16("0"), Some(0));
    assert_eq!(parse_u16("80"), Some(80));
    assert_eq!(parse_u16("0080"), Some(80));
    assert_eq!(parse_u16("65535"), Some(65535));
    assert_eq!(parse_u16("65536"), None);
    assert_eq!(parse_u16("99999"), None);
    assert_eq!(parse_u16(""), None);
    assert_eq!(parse_u16("8o"), None);
    assert_eq!(parse_u16("-1"), None);
    // A leading plus sign is accepted, as the usual numeric parse does.
    assert_eq!(parse_u16("+1"), Some(1));
    assert_eq!(parse_u16("+80"), Some(80));
    assert_eq!(parse_u16("+"), None);
    assert_eq!(parse_u16("++1"), None);
}

#[test]
fn case_folding_is_ascii_only() {
    assert_eq!(lower_string("Proxy-Connection"), "proxy-connection");
    assert_eq!(upper_string("connect"), "CONNECT");
    assert_eq!(lower_string("ünïcødé"), "ünïcødé");
    assert_eq!(upper_string(""), "");
}

#[test]
fn trimming_and_finding() {
    assert_eq!(trim_str("  value \r\n"), "value");
    assert_eq!(trim_str("\t\t"), "");
    assert_eq!(trim_str("x"), "x");
    assert_eq!(trim_str(""), "");
    assert_eq!(find_char("a:b", ':'), Some(1));
    assert_eq!(find_char("abc", ':'), None);
    assert_eq!(find_char(":ab:", ':'), Some(0));
}
