use mini_httpd::decimal;
use mini_httpd::text;

#[test]
fn white_space_is_the_ascii_set() {
    for b in [0x20u8, 0x09, 0x0a, 0x0b, 0x0c, 0x0d] {
        assert!(text::is_space_byte(b), "{b:#x}");
    }
    for b in [0x00u8, 0x08, 0x0e, 0x1f, 0x21, b'a', 0x85, 0xa0, 0xc2, 0xff] {
        assert!(!text::is_space_byte(b), "{b:#x}");
    }
}

#[test]
fn trim_drops_both_ends_only() {
    assert_eq!(text::trim(b"  a b \r\n"), b"a b");
    assert_eq!(text::trim(b"\t\x0b\x0cx"), b"x");
    assert_eq!(text::trim(b"x"), b"x");
    assert_eq!(text::trim(b""), b"");
    assert_eq!(text::trim(b" \r\n\t "), b"");
    assert_eq!(text::trim(b"a"), b"a");
    assert_eq!(text::trim(b" a"), b"a");
    assert_eq!(text::trim(b"a "), b"a");
}

#[test]
fn trim_keeps_bytes_that_are_no_ascii_white_space() {
    // U+00A0 in UTF-8: not white space here.
    assert_eq!(text::trim(b" \xc2\xa0x\xc2\xa0 "), b"\xc2\xa0x\xc2\xa0");
}

#[test]
fn stepping_over_spaces_and_words() {
    let s = b"  GET   /x";
    assert_eq!(text::after_spaces(s, 0), 2);
    assert_eq!(text::after_word(s, 2), 5);
    assert_eq!(text::after_spaces(s, 5), 8);
    assert_eq!(text::after_word(s, 8), 10);
    assert_eq!(text::after_spaces(s, 10), 10);
    assert_eq!(text::after_word(s, 10), 10);
    // Past the end nothing moves.
    assert_eq!(text::after_spaces(s, 40), 40);
    assert_eq!(text::after_word(s, 40), 40);
    assert_eq!(text::before_spaces(b"ab  ", 4), 2);
    assert_eq!(text::before_spaces(b"    ", 4), 0);
    assert_eq!(text::before_spaces(b"ab  ", 9), 9);
    assert_eq!(text::before_spaces(b"ab", 0), 0);
}

#[test]
fn find_byte_gives_the_first_place_or_the_length() {
    assert_eq!(text::find_byte(b"a:b:c", b':', 0), 1);
    assert_eq!(text::find_byte(b"a:b:c", b':', 2), 3);
    assert_eq!(text::find_byte(b"a:b:c", b':', 4), 5);
    assert_eq!(text::find_byte(b"abc", b':', 0), 3);
    assert_eq!(text::find_byte(b"", b':', 0), 0);
    assert_eq!(text::find_byte(b"abc", b'a', 7), 7);
}

#[test]
fn lower_case_touches_ascii_capitals_only() {
    assert_eq!(text::to_lower(b"Content-LENGTH"), b"content-length".to_vec());
    assert_eq!(text::to_lower(b"@AZ[`az{"), b"@az[`az{".to_vec());
    assert_eq!(text::to_lower(b"\xc3\x84"), b"\xc3\x84".to_vec());
    assert_eq!(text::to_lower(b""), Vec::<u8>::new());
    assert_eq!(text::lower_byte(b'Q'), b'q');
    assert_eq!(text::lower_byte(b'q'), b'q');
    assert_eq!(text::lower_byte(b'1'), b'1');
}

#[test]
fn same_bytes_and_starts_with() {
    assert!(text::same_bytes(b"", b""));
    assert!(text::same_bytes(b"GET", b"GET"));
    assert!(!text::same_bytes(b"GET", b"GEt"));
    assert!(!text::same_bytes(b"GET", b"GETS"));
    assert!(text::starts_with(b"/echo/abc", b"/echo/"));
    assert!(text::starts_with(b"/echo/", b"/echo/"));
    assert!(!text::starts_with(b"/echo", b"/echo/"));
    assert!(!text::starts_with(b"/Echo/abc", b"/echo/"));
    assert!(text::starts_with(b"abc", b""));
}

#[test]
fn parse_reads_plain_digits() {
    assert_eq!(decimal::parse(b"0"), Some(0));
    assert_eq!(decimal::parse(b"7"), Some(7));
    assert_eq!(decimal::parse(b"12"), Some(12));
    assert_eq!(decimal::parse(b"00012"), Some(12));
    assert_eq!(decimal::parse(b"4096"), Some(4096));
}

#[test]
fn parse_takes_one_leading_plus() {
    assert_eq!(decimal::parse(b"+12"), Some(12));
    assert_eq!(decimal::parse(b"+0"), Some(0));
    assert_eq!(decimal::parse(b"+"), None);
    assert_eq!(decimal::parse(b"++1"), None);
    assert_eq!(decimal::parse(b"1+"), None);
}

#[test]
fn parse_refuses_what_is_no_number() {
    assert_eq!(decimal::parse(b""), None);
    assert_eq!(decimal::parse(b"-1"), None);
    assert_eq!(decimal::parse(b"12a"), None);
    assert_eq!(decimal::parse(b"a12"), None);
    assert_eq!(decimal::parse(b" 12"), None);
    assert_eq!(decimal::parse(b"12 "), None);
    assert_eq!(decimal::parse(b"1.5"), None);
    assert_eq!(decimal::parse(b"0x10"), None);
}

#[test]
fn parse_refuses_what_usize_cannot_hold() {
    let max = usize::MAX.to_string();
    assert_eq!(decimal::parse(max.as_bytes()), Some(usize::MAX));
    let mut over = max.clone().into_bytes();
    let last = over.len() - 1;
    // usize::MAX ends in 5: one more is still one digit.
    assert_eq!(over[last], b'5');
    over[last] = b'6';
    assert_eq!(decimal::parse(&over), None);
    let mut longer = max.into_bytes();
    longer.push(b'0');
    assert_eq!(decimal::parse(&longer), None);
    assert_eq!(decimal::parse(b"99999999999999999999999999999999999999999"), None);
    // Too large, and then no digit: refused either way.
    assert_eq!(decimal::parse(b"99999999999999999999999999999999999999999x"), None);
}

#[test]
fn format_writes_without_sign_or_leading_zeros() {
    assert_eq!(decimal::format(0), b"0".to_vec());
    assert_eq!(decimal::format(7), b"7".to_vec());
    assert_eq!(decimal::format(10), b"10".to_vec());
    assert_eq!(decimal::format(305), b"305".to_vec());
    assert_eq!(decimal::format(1000), b"1000".to_vec());
    assert_eq!(decimal::format(usize::MAX), usize::MAX.to_string().into_bytes());
}

#[test]
fn parse_reads_back_what_format_writes() {
    for n in [0usize, 1, 9, 10, 11, 99, 100, 101, 255, 256, 65535, 1 << 20, usize::MAX - 1, usize::MAX] {
        assert_eq!(decimal::parse(&decimal::format(n)), Some(n));
    }
}
