use hyperpod::codec::{read_be, read_le, starts_with, write_le};
use hyperpod::text::{
    append_decimal, append_hex, append_padded_hex, chars_of, decimal_string, is_blank,
    is_white_space, is_word_ignoring_case, line_spans,
};

#[test]
fn numbers_print_as_std_prints_them() {
    for n in [0, 1, 9, 10, 255, 256, 12345, 0xdead_beef, u64::MAX] {
        assert_eq!(decimal_string(n), format!("{n}"));
        let mut s = String::from("<");
        append_decimal(&mut s, n);
        append_hex(&mut s, n);
        assert_eq!(s, format!("<{n}{n:x}"));
    }
    let mut s = String::new();
    append_padded_hex(&mut s, 0x80, 8);
    assert_eq!(s, "00000080");
}

#[test]
fn white_space_is_what_std_says() {
    for u in 0..=0x10_ffffu32 {
        if let Some(c) = char::from_u32(u) {
            assert_eq!(is_white_space(c), c.is_whitespace(), "{u:x}");
        }
    }
    assert!(is_blank(""));
    assert!(is_blank(" \u{a0}\n"));
    assert!(!is_blank(" x "));
}

#[test]
fn words_match_as_ascii_lowercase_does() {
    assert!(is_word_ignoring_case("VhDx", "vhdx"));
    assert!(!is_word_ignoring_case("vhd", "vhdx"));
    assert!(!is_word_ignoring_case("\u{212a}", "k"));
    assert!(!is_word_ignoring_case("raw", "RAW"));
}

#[test]
fn lines_split_as_std_splits_them() {
    for s in ["", "\n", "a", "a\n", "a\nb", "a\r\nb\r\n", "\r\n\n", "a\r", "a\rb\n\nc"] {
        let chars = chars_of(s);
        let found: Vec<String> =
            line_spans(&chars).iter().map(|&(a, b)| chars[a..b].iter().collect()).collect();
        let expected: Vec<&str> = s.lines().collect();
        assert_eq!(found, expected, "{s:?}");
    }
}

#[test]
fn integers_code_in_both_orders() {
    let bytes = [1u8, 2, 3, 4, 5, 6, 7, 8, 9];
    assert_eq!(read_le(&bytes, 1, 4), 0x0504_0302);
    assert_eq!(read_be(&bytes, 1, 8), 0x0203_0405_0607_0809);
    assert_eq!(read_le(&bytes, 0, 0), 0);
    assert_eq!(write_le(0x1234_5678, 4), vec![0x78, 0x56, 0x34, 0x12]);
    assert!(starts_with(&bytes, &[1, 2]));
    assert!(!starts_with(&bytes, &[2]));
    assert!(!starts_with(&[1], &[1, 2]));
}
