use mrandomer::text::{chars_of, parse_hex_byte, parse_port_number, parse_unsigned, trim_chars};

#[test]
fn hex_byte_plain_and_prefixed() {
    assert_eq!(parse_hex_byte("1f"), Some(0x1f));
    assert_eq!(parse_hex_byte("1F"), Some(0x1f));
    assert_eq!(parse_hex_byte("0x41"), Some(0x41));
    assert_eq!(parse_hex_byte("0x0x10"), Some(0x10));
    assert_eq!(parse_hex_byte("ff"), Some(255));
    assert_eq!(parse_hex_byte("0"), Some(0));
    assert_eq!(parse_hex_byte("007"), Some(7));
    assert_eq!(parse_hex_byte("+7"), Some(7));
}

#[test]
fn hex_byte_refused() {
    assert_eq!(parse_hex_byte(""), None);
    assert_eq!(parse_hex_byte("0x"), None);
    assert_eq!(parse_hex_byte("+"), None);
    assert_eq!(parse_hex_byte("-1"), None);
    assert_eq!(parse_hex_byte("100"), None);
    assert_eq!(parse_hex_byte("g1"), None);
    assert_eq!(parse_hex_byte(" 1f"), None);
    assert_eq!(parse_hex_byte("0X1f"), None);
    assert_eq!(parse_hex_byte("r4"), None);
}

#[test]
fn hex_byte_round_trip_all_bytes() {
    for b in 0..=255u8 {
        assert_eq!(parse_hex_byte(&format!("{:02x}", b)), Some(b));
        assert_eq!(parse_hex_byte(&format!("0x{:02x}", b)), Some(b));
        assert_eq!(parse_hex_byte(&format!("{:X}", b)), Some(b));
    }
}

#[test]
fn hex_byte_agrees_with_std() {
    let samples = ["0", "f", "F0", "ff", "100", "+", "+f", "-0", "", "1g", "0x0x", "0xa0", "00ff"];
    for s in samples.iter() {
        let expected = u8::from_str_radix(s.trim_start_matches("0x"), 16).ok();
        assert_eq!(parse_hex_byte(s), expected, "item {:?}", s);
    }
}

#[test]
fn port_numbers() {
    assert_eq!(parse_port_number("3"), Some(3));
    assert_eq!(parse_port_number(" 12\n"), Some(12));
    assert_eq!(parse_port_number("\t+4 "), Some(4));
    assert_eq!(parse_port_number(""), None);
    assert_eq!(parse_port_number("   "), None);
    assert_eq!(parse_port_number("a"), None);
    assert_eq!(parse_port_number("1 2"), None);
    assert_eq!(parse_port_number("-1"), None);
    assert_eq!(parse_port_number("18446744073709551615"), Some(usize::MAX));
    assert_eq!(parse_port_number("18446744073709551616"), None);
    assert_eq!(parse_port_number("\u{3000}7\u{a0}"), Some(7));
}

#[test]
fn port_numbers_agree_with_std() {
    let samples = ["0", " 1 ", "\u{2003}9\u{2028}", "x", "99999999999999999999", "+", "+0", "0x1"];
    for s in samples.iter() {
        assert_eq!(parse_port_number(s), s.trim().parse::<usize>().ok(), "line {:?}", s);
    }
}

#[test]
fn unsigned_parse_limits() {
    let digits: Vec<char> = "255".chars().collect();
    assert_eq!(parse_unsigned(&digits, 10, 255), Some(255));
    assert_eq!(parse_unsigned(&digits, 10, 254), None);
    let binary: Vec<char> = "1012".chars().collect();
    assert_eq!(parse_unsigned(&binary, 2, 1000), None);
    let binary: Vec<char> = "1011".chars().collect();
    assert_eq!(parse_unsigned(&binary, 2, 1000), Some(11));
}

#[test]
fn trimming_and_chars() {
    assert_eq!(chars_of("añb"), vec!['a', 'ñ', 'b']);
    let s: Vec<char> = "  \t x y \n".chars().collect();
    assert_eq!(trim_chars(&s), vec!['x', ' ', 'y']);
    let blank: Vec<char> = " \n ".chars().collect();
    assert_eq!(trim_chars(&blank), Vec::<char>::new());
}
