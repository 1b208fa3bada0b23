use knock::port::{parse_ports, ParseError, Port};
use knock::proto::Proto;

fn port(number: u16, proto: Proto) -> Port {
    Port::new(number, proto).unwrap()
}

fn groups(texts: &[Option<&str>]) -> Option<Vec<Option<String>>> {
    Some(texts.iter().map(|text| text.map(|t| t.to_string())).collect())
}

#[test]
fn bare_number_defaults_to_tcp() {
    assert_eq!(Port::parse("80"), Ok(port(80, Proto::TCP)));
    assert_eq!(Port::parse("8080"), Ok(port(8080, Proto::TCP)));
}

#[test]
fn keyword_with_separator() {
    assert_eq!(Port::parse("80/tcp"), Ok(port(80, Proto::TCP)));
    assert_eq!(Port::parse("80/udp"), Ok(port(80, Proto::UDP)));
    assert_eq!(Port::parse("443/udp"), Ok(port(443, Proto::UDP)));
}

#[test]
fn keyword_without_separator() {
    assert_eq!(Port::parse("80tcp"), Ok(port(80, Proto::TCP)));
    assert_eq!(Port::parse("80udp"), Ok(port(80, Proto::UDP)));
}

#[test]
fn separator_without_keyword_is_tcp() {
    assert_eq!(Port::parse("80/"), Ok(port(80, Proto::TCP)));
}

#[test]
fn lowest_and_highest_port() {
    assert_eq!(Port::parse("1"), Ok(port(1, Proto::TCP)));
    assert_eq!(Port::parse("65535"), Ok(port(65535, Proto::TCP)));
    assert_eq!(Port::parse("65535/udp"), Ok(port(65535, Proto::UDP)));
}

#[test]
fn leading_zeros_add_nothing() {
    assert_eq!(Port::parse("0080"), Ok(port(80, Proto::TCP)));
    assert_eq!(Port::parse("000000000000000000000000065535udp"), Ok(port(65535, Proto::UDP)));
}

#[test]
fn parsed_port_has_number_and_proto() {
    let parsed = Port::parse("22/udp").unwrap();
    assert_eq!(parsed.number(), 22);
    assert_eq!(parsed.proto(), Proto::UDP);
}

#[test]
fn zero_is_out_of_range() {
    assert_eq!(Port::parse("0"), Err(ParseError::Range("0".to_string())));
    assert_eq!(Port::parse("000/tcp"), Err(ParseError::Range("000".to_string())));
}

#[test]
fn numbers_above_the_highest_port_are_out_of_range() {
    assert_eq!(Port::parse("65536"), Err(ParseError::Range("65536".to_string())));
    assert_eq!(Port::parse("999999"), Err(ParseError::Range("999999".to_string())));
    assert_eq!(Port::parse("70000/udp"), Err(ParseError::Range("70000".to_string())));
    assert_eq!(
        Port::parse("99999999999999999999999999999999"),
        Err(ParseError::Range("99999999999999999999999999999999".to_string()))
    );
    // 2^32 + 80 and 2^16 + 80 must not wrap round to 80
    assert_eq!(Port::parse("4294967376"), Err(ParseError::Range("4294967376".to_string())));
    assert_eq!(Port::parse("65616"), Err(ParseError::Range("65616".to_string())));
}

#[test]
fn digits_of_other_scripts_write_no_port() {
    // ARABIC-INDIC DIGIT THREE is a digit to the matcher, but writes no number
    assert_eq!(Port::parse("\u{663}"), Err(ParseError::Range("\u{663}".to_string())));
    assert_eq!(Port::parse("8\u{663}/udp"), Err(ParseError::Range("8\u{663}".to_string())));
}

#[test]
fn text_outside_the_grammar_is_a_format_error() {
    for token in [
        "abc", "80/icmp", "80/tcp/extra", "", "/", "/tcp", "tcp", "80//tcp", " 80", "80 ",
        "80/TCP", "80/Udp", "-1", "+80", "80\n", "80/tcpudp", "80:tcp", "8 0", "80/tc", "0x50",
    ] {
        assert_eq!(Port::parse(token), Err(ParseError::Format(token.to_string())), "{:?}", token);
    }
}

#[test]
fn sequence_keeps_its_order() {
    let tokens = vec!["80/tcp".to_string(), "443/udp".to_string(), "8080".to_string()];
    assert_eq!(
        parse_ports(&tokens),
        Ok(vec![port(80, Proto::TCP), port(443, Proto::UDP), port(8080, Proto::TCP)])
    );
}

#[test]
fn sequence_keeps_repeated_ports() {
    let tokens = vec!["7/udp".to_string(), "7/udp".to_string(), "9".to_string(), "7/udp".to_string()];
    assert_eq!(
        parse_ports(&tokens),
        Ok(vec![port(7, Proto::UDP), port(7, Proto::UDP), port(9, Proto::TCP), port(7, Proto::UDP)])
    );
}

#[test]
fn empty_sequence_parses_to_no_ports() {
    assert_eq!(parse_ports(&Vec::new()), Ok(Vec::new()));
}

#[test]
fn first_bad_token_refuses_the_sequence() {
    let tokens = vec!["80".to_string(), "0".to_string(), "abc".to_string()];
    assert_eq!(parse_ports(&tokens), Err(ParseError::Range("0".to_string())));
    let tokens = vec!["80".to_string(), "81/sctp".to_string(), "0".to_string()];
    assert_eq!(parse_ports(&tokens), Err(ParseError::Format("81/sctp".to_string())));
}

#[test]
fn no_match_is_a_format_error() {
    assert_eq!(Port::from_captures("whatever", &None), Err(ParseError::Format("whatever".to_string())));
}

#[test]
fn groups_decide_number_and_proto() {
    let found = groups(&[Some("80/udp"), Some("80"), Some("udp")]);
    assert_eq!(Port::from_captures("80/udp", &found), Ok(port(80, Proto::UDP)));
    let found = groups(&[Some("443tcp"), Some("443"), Some("tcp")]);
    assert_eq!(Port::from_captures("443tcp", &found), Ok(port(443, Proto::TCP)));
}

#[test]
fn missing_keyword_group_is_tcp() {
    let found = groups(&[Some("80"), Some("80"), None]);
    assert_eq!(Port::from_captures("80", &found), Ok(port(80, Proto::TCP)));
    let found = groups(&[Some("80"), Some("80")]);
    assert_eq!(Port::from_captures("80", &found), Ok(port(80, Proto::TCP)));
}

#[test]
fn unknown_keyword_group_is_tcp() {
    let found = groups(&[Some("80/icmp"), Some("80"), Some("icmp")]);
    assert_eq!(Port::from_captures("80/icmp", &found), Ok(port(80, Proto::TCP)));
}

#[test]
fn missing_digit_group_counts_as_zero() {
    let found = groups(&[Some("udp"), None, Some("udp")]);
    assert_eq!(Port::from_captures("udp", &found), Err(ParseError::Range("0".to_string())));
    let found = groups(&[]);
    assert_eq!(Port::from_captures("", &found), Err(ParseError::Range("0".to_string())));
}

#[test]
fn digit_group_that_is_no_digit_run_is_out_of_range() {
    for digits in ["", "+80", "8 0", "80a", "65536", "0"] {
        let found = groups(&[Some(digits), Some(digits), None]);
        assert_eq!(
            Port::from_captures(digits, &found),
            Err(ParseError::Range(digits.to_string()))
        );
    }
}

#[test]
fn port_zero_cannot_be_made() {
    assert_eq!(Port::new(0, Proto::TCP), None);
    assert_eq!(Port::new(0, Proto::UDP), None);
    assert!(Port::new(1, Proto::UDP).is_some());
}

#[test]
fn port_is_written_with_its_keyword() {
    assert_eq!(port(80, Proto::TCP).to_string(), "80/tcp");
    assert_eq!(port(443, Proto::UDP).to_string(), "443/udp");
    assert_eq!(port(1, Proto::TCP).to_string(), "1/tcp");
    assert_eq!(port(65535, Proto::UDP).to_string(), "65535/udp");
    assert_eq!(port(10000, Proto::TCP).to_string(), "10000/tcp");
}

#[test]
fn written_port_parses_back() {
    for number in [1u16, 9, 10, 80, 100, 1000, 9999, 10000, 65535] {
        for proto in [Proto::TCP, Proto::UDP] {
            let original = port(number, proto);
            assert_eq!(Port::parse(&original.to_string()), Ok(original));
        }
    }
}

#[test]
fn format_error_names_the_token() {
    assert_eq!(
        ParseError::Format("80/icmp".to_string()).message(),
        "80/icmp is invalid. Format: <port>/<tcp|udp>. Protocol is optional and will default to tcp."
    );
    assert_eq!(
        Port::parse("abc").unwrap_err().message(),
        "abc is invalid. Format: <port>/<tcp|udp>. Protocol is optional and will default to tcp."
    );
}

#[test]
fn range_error_names_the_range() {
    assert_eq!(
        Port::parse("65536").unwrap_err().message(),
        "Invalid port number. Must be within 1-65535."
    );
}

#[test]
fn pattern_error_has_a_message() {
    assert_eq!(ParseError::Pattern.message(), "The pattern of a port specification was refused.");
}

#[test]
fn pattern_of_the_grammar_is_accepted() {
    for token in ["80", "80/udp", "0", "65536", "abc", "", "80/tcp/extra", "\u{663}"] {
        assert_ne!(Port::parse(token), Err(ParseError::Pattern), "{:?}", token);
    }
    let tokens = vec!["80".to_string(), "abc".to_string()];
    assert_ne!(parse_ports(&tokens), Err(ParseError::Pattern));
}
