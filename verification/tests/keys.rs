use fokcord::keys::{decode_key, get_arrow, Direction, KeyCode, Modifier};

fn decode(bytes: &[u8]) -> Option<(KeyCode, Vec<Modifier>, usize)> {
    decode_key(bytes).map(|(e, n)| (e.code, e.modifiers, n))
}

#[test]
fn plain_letter_is_a_character() {
    assert_eq!(decode(b"x"), Some((KeyCode::Char('x'), vec![], 1)));
}

#[test]
fn special_single_bytes() {
    assert_eq!(decode(&[0x7f]), Some((KeyCode::Backspace, vec![], 1)));
    assert_eq!(decode(b":"), Some((KeyCode::Colon, vec![], 1)));
    assert_eq!(decode(b"\n"), Some((KeyCode::Enter, vec![], 1)));
    assert_eq!(decode(b"\t"), Some((KeyCode::Tab, vec![], 1)));
}

#[test]
fn control_bytes_carry_the_control_modifier() {
    assert_eq!(decode(&[0x01]), Some((KeyCode::Char('\u{1}'), vec![Modifier::Control], 1)));
    assert_eq!(decode(&[0x85]), Some((KeyCode::Char('\u{85}'), vec![Modifier::Control], 1)));
    assert_eq!(decode(&[0xa0]), Some((KeyCode::Char('\u{a0}'), vec![], 1)));
}

#[test]
fn polish_letters() {
    assert_eq!(decode(&[0xc5, 0x82]), Some((KeyCode::Char('ł'), vec![], 2)));
    assert_eq!(decode(&[0xc3, 0xb3]), Some((KeyCode::Char('ó'), vec![], 2)));
    assert_eq!(decode(&[0xc4, 0x85]), Some((KeyCode::Char('ą'), vec![], 2)));
    assert_eq!(decode(&[0xc5, 0xbb]), Some((KeyCode::Char('Ż'), vec![], 2)));
    assert_eq!(decode(&[0xc3, 0xa9]), Some((KeyCode::Escape, vec![], 2)));
    assert_eq!(decode(&[0xc4]), None);
}

#[test]
fn escape_sequences() {
    assert_eq!(decode(b"\x1b[A"), Some((KeyCode::Arrow(Direction::Up), vec![], 3)));
    assert_eq!(decode(b"\x1b[D"), Some((KeyCode::Arrow(Direction::Left), vec![], 3)));
    assert_eq!(decode(b"\x1b[1;5C"), Some((KeyCode::Arrow(Direction::Right), vec![Modifier::Control], 6)));
    assert_eq!(decode(b"\x1b[1;2B"), Some((KeyCode::Arrow(Direction::Down), vec![Modifier::Shift], 6)));
    assert_eq!(decode(b"\x1b[1;5x"), Some((KeyCode::Escape, vec![Modifier::Control], 6)));
    assert_eq!(decode(b"\x1b[1;7"), Some((KeyCode::Escape, vec![], 5)));
    assert_eq!(decode(b"\x1b[1x"), Some((KeyCode::Escape, vec![], 4)));
    assert_eq!(decode(b"\x1b[3~"), Some((KeyCode::Delete, vec![], 4)));
    assert_eq!(decode(b"\x1b[3x"), Some((KeyCode::Escape, vec![], 4)));
    assert_eq!(decode(b"\x1b[Z"), Some((KeyCode::Escape, vec![], 3)));
    assert_eq!(decode(b"\x1bq"), Some((KeyCode::Escape, vec![], 2)));
}

#[test]
fn incomplete_sequences_wait_for_more() {
    assert_eq!(decode(b""), None);
    assert_eq!(decode(b"\x1b"), None);
    assert_eq!(decode(b"\x1b["), None);
    assert_eq!(decode(b"\x1b[1"), None);
    assert_eq!(decode(b"\x1b[1;"), None);
    assert_eq!(decode(b"\x1b[1;5"), None);
    assert_eq!(decode(b"\x1b[3"), None);
}

#[test]
fn more_bytes_do_not_change_a_decoded_event() {
    assert_eq!(decode(b"a\x1b[A"), decode(b"a"));
    assert_eq!(decode(b"\x1b[A\x1b"), decode(b"\x1b[A"));
    assert_eq!(decode(&[0xc5, 0x82, 0x41]), decode(&[0xc5, 0x82]));
}

#[test]
fn six_bytes_always_decode() {
    for first in 0u8..=255 {
        let bytes = [first, b'[', b'1', b';', b'5', 0xff];
        assert!(decode(&bytes).is_some());
        let other = [first, 0x00, 0x00, 0x00, 0x00, 0x00];
        assert!(decode(&other).is_some());
    }
}

#[test]
fn arrow_letters() {
    assert_eq!(get_arrow(b'A'), KeyCode::Arrow(Direction::Up));
    assert_eq!(get_arrow(b'B'), KeyCode::Arrow(Direction::Down));
    assert_eq!(get_arrow(b'C'), KeyCode::Arrow(Direction::Right));
    assert_eq!(get_arrow(b'D'), KeyCode::Arrow(Direction::Left));
    assert_eq!(get_arrow(b'E'), KeyCode::Escape);
}
