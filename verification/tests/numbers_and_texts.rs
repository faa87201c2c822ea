use qcrosvm::mmio::{from_le_bytes, high, low, to_le_bytes};
use qcrosvm::number::{
    parse_bool, parse_i32, parse_ipv4, parse_u32, parse_unsigned, write_decimal, write_signed,
};
use qcrosvm::text::{
    path_below, path_ends_with, path_file_name, path_has_root, path_segments, same, split,
    split_pair,
};

#[test]
fn hexadecimal_labels_are_read() {
    assert_eq!(parse_u32("1F", 16), Some(31));
    assert_eq!(parse_u32("1f", 16), Some(31));
    assert_eq!(parse_u32("+10", 16), Some(16));
    assert_eq!(parse_u32("ffffffff", 16), Some(u32::MAX));
    assert_eq!(parse_u32("100000000", 16), None);
    assert_eq!(parse_u32("", 16), None);
    assert_eq!(parse_u32("+", 16), None);
    assert_eq!(parse_u32("-1", 16), None);
    assert_eq!(parse_u32("0x10", 16), None);
    assert_eq!(parse_u32("g", 16), None);
    assert_eq!(parse_u32("++1", 16), None);
}

#[test]
fn decimal_numbers_are_read() {
    assert_eq!(parse_u32("512", 10), Some(512));
    assert_eq!(parse_u32("a", 10), None);
    assert_eq!(parse_unsigned("18446744073709551615", 10, u64::MAX), Some(u64::MAX));
    assert_eq!(parse_unsigned("18446744073709551616", 10, u64::MAX), None);
    assert_eq!(parse_unsigned(" 1", 10, u64::MAX), None);
}

#[test]
fn signed_numbers_are_read() {
    assert_eq!(parse_i32("17"), Some(17));
    assert_eq!(parse_i32("+17"), Some(17));
    assert_eq!(parse_i32("-17"), Some(-17));
    assert_eq!(parse_i32("-2147483648"), Some(i32::MIN));
    assert_eq!(parse_i32("2147483648"), None);
    assert_eq!(parse_i32("-"), None);
    assert_eq!(parse_i32(""), None);
    assert_eq!(parse_i32("1.5"), None);
}

#[test]
fn booleans_are_read() {
    assert_eq!(parse_bool("true"), Some(true));
    assert_eq!(parse_bool("false"), Some(false));
    assert_eq!(parse_bool("True"), None);
    assert_eq!(parse_bool("1"), None);
    assert_eq!(parse_bool(""), None);
}

#[test]
fn addresses_are_read() {
    assert_eq!(parse_ipv4("192.168.0.1"), Some([192, 168, 0, 1]));
    assert_eq!(parse_ipv4("255.255.255.255"), Some([255, 255, 255, 255]));
    assert_eq!(parse_ipv4("256.0.0.1"), None);
    assert_eq!(parse_ipv4("1.2.3"), None);
    assert_eq!(parse_ipv4("1.2.3.4.5"), None);
    assert_eq!(parse_ipv4("01.2.3.4"), None);
    assert_eq!(parse_ipv4("+1.2.3.4"), None);
    assert_eq!(parse_ipv4("1..3.4"), None);
    assert_eq!(parse_ipv4("a.b.c.d"), None);
}

#[test]
fn numbers_read_back_as_written() {
    for n in [0u32, 7, 10, 99, 100, 255, 4096, u32::MAX] {
        assert_eq!(write_decimal(n), n.to_string());
        assert_eq!(parse_u32(&write_decimal(n), 10), Some(n));
    }
    for n in [0i32, 5, -5, i32::MAX, i32::MIN] {
        assert_eq!(write_signed(n), n.to_string());
        assert_eq!(parse_i32(&write_signed(n)), Some(n));
    }
}

#[test]
fn words_have_their_lowest_byte_first() {
    assert_eq!(to_le_bytes(0x1234_5678), vec![0x78, 0x56, 0x34, 0x12]);
    assert_eq!(from_le_bytes(&vec![0xff, 0x78, 0x56, 0x34, 0x12], 1), 0x1234_5678);
    assert_eq!(from_le_bytes(&to_le_bytes(0xdead_beef), 0), 0xdead_beef);
}

#[test]
fn addresses_have_two_halves() {
    let v: u64 = 0x0123_4567_89ab_cdef;
    assert_eq!(high(v), 0x0123_4567);
    assert_eq!(low(v), 0x89ab_cdef);
    assert_eq!((high(v) as u64) << 32 | low(v) as u64, v);
}

#[test]
fn texts_are_cut_and_joined() {
    assert_eq!(split("a,b,,c", ','), vec!["a", "b", "", "c"]);
    assert_eq!(split("", ','), vec![""]);
    assert_eq!(split("abc", ',').join(","), "abc");
    assert_eq!(split("x,y,", ',').join(","), "x,y,");
    assert_eq!(qcrosvm::text::concat("ab", "cd"), "abcd");
    assert!(same("ab", "ab"));
    assert!(!same("ab", "aB"));
}

#[test]
fn options_are_cut_at_the_first_sign() {
    assert_eq!(split_pair("label=1=2", '='), Some(("label", "1=2")));
    assert_eq!(split_pair("=", '='), Some(("", "")));
    assert_eq!(split_pair("label", '='), None);
    let (key, value) = ("tag", "a=b");
    assert_eq!(split_pair(&format!("{}={}", key, value), '='), Some((key, value)));
}

#[test]
fn paths_are_taken_apart() {
    assert_eq!(path_segments("/proc//self/./fd/3/"), vec!["proc", "self", "fd", "3"]);
    assert!(path_has_root("/a"));
    assert!(!path_has_root("a/b"));
    assert!(!path_has_root(""));
    assert_eq!(path_file_name("/a/b.txt"), Some("b.txt"));
    assert_eq!(path_file_name("/a/b/."), Some("b"));
    assert_eq!(path_file_name("/a/.."), None);
    assert_eq!(path_file_name("/"), None);
    assert!(path_ends_with("dev/stdio", "stdio"));
    assert!(!path_ends_with("mystdio", "stdio"));
    assert_eq!(path_below("/data", "log.txt"), "/data/log.txt");
    assert_eq!(path_below("/", "log.txt"), "/log.txt");
    assert_eq!(path_below("", "log.txt"), "log.txt");
}
