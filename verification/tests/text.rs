use keyence_collector::decimal::{decimal_of, parse_number, NumberError};
use keyence_collector::ipv4::{join_octets, parse_ipv4, Ipv4};
use keyence_collector::text::{
    begins_with, find_char, lines_of, lower_ends_with, same_text, split_at_char, split_text,
    trimmed, trimmed_end, trimmed_start, upper_is, white_space,
};

const SAMPLES: [&str; 14] = [
    "",
    " ",
    "a",
    "  a b  ",
    "\u{3000}x\u{85}",
    "a=b=c",
    "=",
    "a\r\nb\nc",
    "a\r",
    "\n\n",
    "příliš žluťoučký",
    "x\u{200b}",
    "\t#comment\u{2028}",
    "a,b,,c,",
];

#[test]
fn white_space_is_the_unicode_property() {
    for code in 0..=0x10ffff_u32 {
        if let Some(c) = char::from_u32(code) {
            assert_eq!(white_space(c), c.is_whitespace(), "{:x}", code);
        }
    }
}

#[test]
fn trimming_agrees_with_std() {
    for s in SAMPLES {
        assert_eq!(trimmed(s), s.trim());
        assert_eq!(trimmed_start(s), s.trim_start());
        assert_eq!(trimmed_end(s), s.trim_end());
    }
}

#[test]
fn splitting_agrees_with_std() {
    for s in SAMPLES {
        for c in [',', '=', '#', '\n', 'ž'] {
            assert_eq!(split_text(s, c), s.split(c).collect::<Vec<_>>());
            let (head, tail) = split_at_char(s, c);
            match s.split_once(c) {
                Some((a, b)) => assert_eq!((head, tail), (a, Some(b))),
                None => assert_eq!((head, tail), (s, None)),
            }
        }
        assert_eq!(lines_of(s), s.lines().collect::<Vec<_>>());
    }
}

#[test]
fn characters_are_counted_not_bytes() {
    assert_eq!(find_char("žluť", 'ť'), 3);
    assert_eq!(find_char("žluť", 'x'), 4);
}

#[test]
fn text_is_compared() {
    assert!(same_text("ž", "ž"));
    assert!(!same_text("a", "ab"));
    assert!(!same_text("ab", "ac"));
    assert!(begins_with("230 ok", "230"));
    assert!(!begins_with("23", "230"));
    assert!(upper_is("uSeR", "USER"));
    assert!(!upper_is("usér", "USER"));
    assert!(!upper_is("use", "USER"));
    assert!(lower_ends_with("IMAGE.BmP", ".bmp"));
    assert!(lower_ends_with(".bmp", ".bmp"));
    assert!(!lower_ends_with("bmp", ".bmp"));
    assert!(!lower_ends_with("a.bmp ", ".bmp"));
}

#[test]
fn decimal_notation_is_read_back() {
    for n in 0..=65535_u16 {
        let text = decimal_of(n as usize);
        assert_eq!(text, n.to_string());
        assert_eq!(parse_number(&text), Ok(n));
    }
    assert_eq!(decimal_of(usize::MAX), usize::MAX.to_string());
}

#[test]
fn numbers_agree_with_std() {
    for s in [
        "", "+", "-", "+5", "-5", "++5", "007", "65535", "65536", "99999x", "6553x", "x", " 5",
        "5 ", "1_0", "٣", "000000000021", "70000ž",
    ] {
        let expected = s.parse::<u16>();
        let found = parse_number(s);
        match (found, expected) {
            (Ok(a), Ok(b)) => assert_eq!(a, b),
            (Err(a), Err(b)) => assert_eq!(a.message(), b.to_string(), "{}", s),
            _ => panic!("{}", s),
        }
    }
    assert_eq!(parse_number(""), Err(NumberError::Empty));
    assert_eq!(parse_number("6553x"), Err(NumberError::InvalidDigit));
    assert_eq!(parse_number("99999x"), Err(NumberError::TooLarge));
}

#[test]
fn addresses_in_dotted_notation() {
    let ip = Ipv4 { a: 192, b: 168, c: 1, d: 50 };
    assert_eq!(parse_ipv4("192.168.1.50"), Some(ip));
    assert_eq!(join_octets(ip, "."), "192.168.1.50");
    assert_eq!(join_octets(ip, ","), "192,168,1,50");
    assert_eq!(parse_ipv4("0.0.0.0"), Some(Ipv4 { a: 0, b: 0, c: 0, d: 0 }));
    assert_eq!(parse_ipv4("255.255.255.255"), Some(Ipv4 { a: 255, b: 255, c: 255, d: 255 }));
    for s in [
        "", "1.2.3", "1.2.3.4.5", "256.1.1.1", "01.2.3.4", "1.2.3.", "1..2.3", "+1.2.3.4",
        " 1.2.3.4", "1.2.3.4 ", "0x1.2.3.4", "::1", "0001.2.3.4", "00.0.0.0",
    ] {
        assert_eq!(parse_ipv4(s), None, "{}", s);
    }
}
