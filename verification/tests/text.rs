use fokcord::number::parse_i64;
use fokcord::text::{decimal_bytes, encode_char, insert_bytes, signed_decimal_bytes};
use fokcord::wrap::{clip_chars_exec, split_lines_exec, wrap_ok_exec, wrap_text};

#[test]
fn characters_as_utf8() {
    for c in ['a', 'ł', 'Ż', '€', '😀', '\u{0}', '\u{7f}', '\u{80}', '\u{7ff}', '\u{800}', '\u{ffff}', '\u{10000}', '\u{10ffff}'] {
        let mut buf = [0u8; 4];
        assert_eq!(encode_char(c), c.encode_utf8(&mut buf).as_bytes().to_vec());
    }
}

#[test]
fn decimal_numbers() {
    assert_eq!(decimal_bytes(0), b"0".to_vec());
    assert_eq!(decimal_bytes(1907), b"1907".to_vec());
    assert_eq!(decimal_bytes(u64::MAX), u64::MAX.to_string().into_bytes());
    assert_eq!(signed_decimal_bytes(-12), b"-12".to_vec());
    assert_eq!(signed_decimal_bytes(i64::MIN), i64::MIN.to_string().into_bytes());
    assert_eq!(signed_decimal_bytes(i64::MAX), i64::MAX.to_string().into_bytes());
}

#[test]
fn reading_numbers() {
    for t in ["0", "123", "-5", "+7", "", "-", "+", "12a", " 1", "1 ", "9223372036854775807", "9223372036854775808",
        "-9223372036854775808", "-9223372036854775809", "00012", "99999999999999999999999999999"] {
        assert_eq!(parse_i64(t.as_bytes()), t.parse::<i64>().ok(), "{}", t);
    }
}

#[test]
fn inserting_bytes() {
    assert_eq!(insert_bytes(b"ace", 1, b"b"), b"abce".to_vec());
    assert_eq!(insert_bytes(b"", 0, b"xy"), b"xy".to_vec());
    assert_eq!(insert_bytes(b"ab", 2, b"c"), b"abc".to_vec());
}

#[test]
fn splitting_lines_like_str_split() {
    for t in ["", "a", "a\nb", "a\n", "\n", "\n\nx\n", "one\ntwo\nthree"] {
        let got: Vec<Vec<u8>> = split_lines_exec(t.as_bytes());
        let want: Vec<Vec<u8>> = t.split('\n').map(|p| p.as_bytes().to_vec()).collect();
        assert_eq!(got, want);
    }
}

#[test]
fn wrapping_lines() {
    assert_eq!(
        wrap_text(b"abcdefg\nhi", 3),
        vec![b"abc".to_vec(), b"def".to_vec(), b"g".to_vec(), b"hi".to_vec()]
    );
    assert_eq!(wrap_text(b"abcdef", 3), vec![b"abc".to_vec(), b"def".to_vec()]);
    assert_eq!(wrap_text(b"", 3), vec![Vec::<u8>::new()]);
    for line in wrap_text(b"a long line that wraps\nand another", 4) {
        assert!(line.len() <= 4);
    }
    assert!(wrap_ok_exec("ab".as_bytes(), 1));
    assert!(!wrap_ok_exec("ół".as_bytes(), 1));
    assert!(wrap_ok_exec("ół".as_bytes(), 2));
}

#[test]
fn first_characters() {
    assert_eq!(clip_chars_exec(&"abcdef".as_bytes().to_vec(), 3), b"abc".to_vec());
    assert_eq!(clip_chars_exec(&"ąęółż".as_bytes().to_vec(), 2), "ąę".as_bytes().to_vec());
    assert_eq!(clip_chars_exec(&"ab".as_bytes().to_vec(), 25), b"ab".to_vec());
    assert_eq!(clip_chars_exec(&"ab".as_bytes().to_vec(), 0), Vec::<u8>::new());
}

#[test]
fn ids_read_back_from_their_text() {
    for n in [0i64, 7, -7, 10, 1234567890123, -1234567890123, i64::MIN, i64::MAX, 1_100_000_000_000_000_000] {
        assert_eq!(parse_i64(&signed_decimal_bytes(n)), Some(n));
    }
}
