use okey::text::{
    chars_of, decimal_string, eq_ignore_ascii_case, hex_display_string,
    parse_hex_u32, push_utf16, split_chars, string_from_chars, trim_trailing_nul_chars,
    wide_from_le_bytes, wide_until_nul, last_index_of_char, prefix_chars,
};

#[test]
fn decimal_string_matches_to_string() {
    for n in [0usize, 1, 9, 10, 11, 99, 100, 12345, usize::MAX] {
        assert_eq!(decimal_string(n), n.to_string());
    }
}

#[test]
fn hex_display_matches_format() {
    for n in [0u32, 1, 0xf, 0x10, 0x46d, 0xc31c, 0xffff, 0x10000, 0xabcdef, u32::MAX] {
        assert_eq!(hex_display_string(n), format!("{:#06x}", n));
    }
    assert_eq!(hex_display_string(0x46d), "0x046d");
    assert_eq!(hex_display_string(0x12345), "0x12345");
}

#[test]
fn parse_hex_matches_from_str_radix() {
    let cases = [
        "", "+", "-", "0", "00", "+1f", "-1", "1F", "ffffffff", "100000000", "0000000000ff",
        "g", "12 ", " 12", "046D", "C31C", "++1", "+-1", "é1", "fFfF",
    ];
    for c in cases {
        assert_eq!(parse_hex_u32(c), u32::from_str_radix(c, 16).ok(), "input {:?}", c);
    }
}

#[test]
fn ascii_case_insensitive_equality() {
    let cases = [("abc", "ABC"), ("abc", "abd"), ("", ""), ("a", ""), ("É", "é"), ("\\\\?\\HID", "\\\\?\\hid")];
    for (a, b) in cases {
        assert_eq!(eq_ignore_ascii_case(a, b), a.eq_ignore_ascii_case(b), "{:?} {:?}", a, b);
    }
}

#[test]
fn split_matches_std_split() {
    for (s, sep) in [("a#b#c", '#'), ("", '#'), ("#", '#'), ("ab", '#'), ("a&&b&", '&')] {
        let parts = split_chars(&s.chars().collect(), sep);
        let got: Vec<String> = parts.iter().map(|p| p.iter().collect()).collect();
        let want: Vec<String> = s.split(sep).map(|p| p.to_string()).collect();
        assert_eq!(got, want);
    }
}

#[test]
fn chars_and_strings_round_trip() {
    let s = "k\u{e9}yb\u{1F600}ard";
    let v = chars_of(s);
    assert_eq!(v, s.chars().collect::<Vec<char>>());
    assert_eq!(string_from_chars(&v), s);
}

#[test]
fn last_index_and_prefix() {
    let v: Vec<char> = "a#b#c".chars().collect();
    assert_eq!(last_index_of_char(&v, '#'), Some(3));
    assert_eq!(last_index_of_char(&v, 'z'), None);
    assert_eq!(prefix_chars(&v, 3).iter().collect::<String>(), "a#b");
}

#[test]
fn trims_only_trailing_nuls() {
    let v: Vec<char> = "a\0b\0\0".chars().collect();
    assert_eq!(trim_trailing_nul_chars(&v).iter().collect::<String>(), "a\0b");
}

#[test]
fn utf16_helpers() {
    assert_eq!(wide_until_nul(&[0x41, 0x42, 0, 0x43]), vec![0x41, 0x42]);
    assert_eq!(wide_until_nul(&[0x41, 0x42]), vec![0x41, 0x42]);
    assert_eq!(wide_from_le_bytes(&[0x41, 0x00, 0x3a, 0x20, 0x07]), vec![0x0041, 0x203a]);
    let mut out = vec![7u16];
    let s = "a\u{1F600}\u{e9}";
    push_utf16(&mut out, &s.chars().collect());
    let mut want = vec![7u16];
    want.extend(s.encode_utf16());
    assert_eq!(out, want);
}

#[test]
fn displayed_hex_parses_back() {
    for n in [0u32, 7, 0x46d, 0xffff, 0x10000, u32::MAX] {
        let shown = hex_display_string(n);
        assert!(shown.starts_with("0x"));
        assert_eq!(parse_hex_u32(&shown[2..]), Some(n));
    }
}
