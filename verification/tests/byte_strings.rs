use zarr_store::decimal::{parse_u64, push_decimal};
use zarr_store::text::{append_bytes, bytes_eq, ends_with, starts_with, str_eq};

fn read(text: &str) -> Option<u64> {
    parse_u64(text.as_bytes(), 0, text.len())
}

fn written(n: u64) -> String {
    let mut out = Vec::new();
    push_decimal(&mut out, n);
    String::from_utf8(out).unwrap()
}

#[test]
fn unsigned_integers_are_read() {
    assert_eq!(read("0"), Some(0));
    assert_eq!(read("7"), Some(7));
    assert_eq!(read("+7"), Some(7));
    assert_eq!(read("0042"), Some(42));
    assert_eq!(read("+000"), Some(0));
    assert_eq!(read("18446744073709551615"), Some(u64::MAX));
    assert_eq!(read("018446744073709551615"), Some(u64::MAX));
    assert_eq!(read("18446744073709551616"), None);
    assert_eq!(read("18446744073709551620"), None);
    assert_eq!(read("28446744073709551615"), None);
    assert_eq!(read("184467440737095516150"), None);
    assert_eq!(read(""), None);
    assert_eq!(read("+"), None);
    assert_eq!(read("-"), None);
    assert_eq!(read("-0"), None);
    assert_eq!(read("++1"), None);
    assert_eq!(read("1+"), None);
    assert_eq!(read(" 1"), None);
    assert_eq!(read("1a"), None);
    assert_eq!(read("\u{663}"), None);
}

#[test]
fn unsigned_integers_are_read_as_the_standard_library_reads_them() {
    for text in [
        "0", "1", "+1", "-1", "", "+", "007", "18446744073709551615", "18446744073709551616",
        "99999999999999999999", "1_000", "0x10", "1e3", "12 ", "+-1",
    ] {
        assert_eq!(read(text), text.parse::<u64>().ok(), "{:?}", text);
    }
}

#[test]
fn a_part_of_a_text_is_read() {
    let text = b"ab123/45";
    assert_eq!(parse_u64(text, 2, 5), Some(123));
    assert_eq!(parse_u64(text, 6, 8), Some(45));
    assert_eq!(parse_u64(text, 2, 8), None);
    assert_eq!(parse_u64(text, 5, 5), None);
    assert_eq!(parse_u64(text, 0, 3), None);
}

#[test]
fn unsigned_integers_are_written() {
    assert_eq!(written(0), "0");
    assert_eq!(written(9), "9");
    assert_eq!(written(10), "10");
    assert_eq!(written(1234567890), "1234567890");
    assert_eq!(written(u64::MAX), "18446744073709551615");
    let mut out = b"x=".to_vec();
    push_decimal(&mut out, 305);
    assert_eq!(out, b"x=305".to_vec());
    for n in [0u64, 1, 99, 100, 65535, u64::MAX - 1] {
        assert_eq!(written(n), n.to_string());
        assert_eq!(read(&written(n)), Some(n));
    }
}

#[test]
fn byte_strings_are_compared() {
    assert!(bytes_eq(b"", b""));
    assert!(bytes_eq(b"abc", b"abc"));
    assert!(!bytes_eq(b"abc", b"abd"));
    assert!(!bytes_eq(b"abc", b"ab"));
    assert!(!bytes_eq(b"", b"a"));
    assert!(str_eq("gr\u{fc}n", "gr\u{fc}n"));
    assert!(!str_eq("gr\u{fc}n", "grun"));
    assert!(starts_with(b"abc", b""));
    assert!(starts_with(b"abc", b"ab"));
    assert!(starts_with(b"abc", b"abc"));
    assert!(!starts_with(b"abc", b"abcd"));
    assert!(!starts_with(b"abc", b"bc"));
    assert!(ends_with(b"abc", b""));
    assert!(ends_with(b"abc", b"bc"));
    assert!(ends_with(b"abc", b"abc"));
    assert!(!ends_with(b"abc", b"xabc"));
    assert!(!ends_with(b"abc", b"ab"));
}

#[test]
fn bytes_are_appended() {
    let mut out = b"ab".to_vec();
    append_bytes(&mut out, b"012345", 2, 5);
    assert_eq!(out, b"ab234".to_vec());
    append_bytes(&mut out, b"012345", 3, 3);
    assert_eq!(out, b"ab234".to_vec());
    append_bytes(&mut out, b"xy", 0, 2);
    assert_eq!(out, b"ab234xy".to_vec());
}
