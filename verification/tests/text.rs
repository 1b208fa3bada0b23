use knock::proto::Proto;
use knock::text::{read_decimal, same_text, write_decimal};

#[test]
fn keyword_names_the_protocol() {
    assert_eq!(Proto::from("tcp"), Proto::TCP);
    assert_eq!(Proto::from("udp"), Proto::UDP);
}

#[test]
fn any_other_keyword_is_tcp() {
    for keyword in ["", "icmp", "UDP", "udp ", "udpp", "ud", "sctp", "tpc"] {
        assert_eq!(Proto::from(keyword), Proto::TCP, "{:?}", keyword);
    }
}

#[test]
fn protocol_has_its_keyword() {
    assert_eq!(Proto::TCP.keyword(), "tcp");
    assert_eq!(Proto::UDP.keyword(), "udp");
    assert_eq!(Proto::from(Proto::UDP.keyword()), Proto::UDP);
    assert_eq!(Proto::from(Proto::TCP.keyword()), Proto::TCP);
}

#[test]
fn same_text_compares_characters() {
    assert!(same_text("", ""));
    assert!(same_text("udp", "udp"));
    assert!(same_text("\u{663}x", "\u{663}x"));
    assert!(!same_text("udp", "udq"));
    assert!(!same_text("udp", "ud"));
    assert!(!same_text("ud", "udp"));
    assert!(!same_text("", "a"));
    assert!(!same_text("\u{663}", "\u{664}"));
}

#[test]
fn decimal_is_read() {
    assert_eq!(read_decimal("0"), Some(0));
    assert_eq!(read_decimal("7"), Some(7));
    assert_eq!(read_decimal("80"), Some(80));
    assert_eq!(read_decimal("00080"), Some(80));
    assert_eq!(read_decimal("65535"), Some(65535));
    assert_eq!(read_decimal("0000000000000000000000000000000065535"), Some(65535));
}

#[test]
fn decimal_above_the_limit_is_not_read() {
    assert_eq!(read_decimal("65536"), None);
    assert_eq!(read_decimal("65540"), None);
    assert_eq!(read_decimal("100000"), None);
    assert_eq!(read_decimal("4294967296"), None);
    assert_eq!(read_decimal("18446744073709551616"), None);
    assert_eq!(read_decimal("655350"), None);
}

#[test]
fn text_that_is_no_digit_run_is_not_read() {
    for text in ["", " ", "+1", "-1", "1 ", " 1", "1a", "a1", "1.0", "1_000", "/", ":", "\u{663}", "1\u{663}"] {
        assert_eq!(read_decimal(text), None, "{:?}", text);
    }
}

#[test]
fn decimal_is_written() {
    assert_eq!(write_decimal(0), "0");
    assert_eq!(write_decimal(9), "9");
    assert_eq!(write_decimal(10), "10");
    assert_eq!(write_decimal(109), "109");
    assert_eq!(write_decimal(1234), "1234");
    assert_eq!(write_decimal(40000), "40000");
    assert_eq!(write_decimal(65535), "65535");
}

#[test]
fn written_decimal_reads_back() {
    for number in 0..=u16::MAX {
        assert_eq!(read_decimal(&write_decimal(number)), Some(number));
    }
}
