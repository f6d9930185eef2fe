//! Key events and the decoder that turns the raw bytes of a terminal in raw
//! mode into them.
use vstd::prelude::*;
use vstd::utf8::encode_scalar;
use crate::text::{char_bytes, lemma_char_bytes};

verus! {

/// A modifier key held together with a key.
#[derive(Debug, Clone, Copy, PartialEq, Eq, Structural)]
pub enum Modifier {
    Control,
    Shift,
}

/// The direction of an arrow key.
#[derive(Debug, Clone, Copy, PartialEq, Eq, Structural)]
pub enum Direction {
    Up,
    Down,
    Right,
    Left,
}

/// What was pressed.
#[derive(Debug, Clone, Copy, PartialEq, Eq, Structural)]
pub enum KeyCode {
    Escape,
    Colon,
    Enter,
    Tab,
    Backspace,
    Delete,
    Arrow(Direction),
    Char(char),
}

/// A key together with the modifiers that were held.
#[derive(Debug)]
pub struct KeyEvent {
    pub code: KeyCode,
    pub modifiers: Vec<Modifier>,
}

/// The mathematical value of a key event.
pub struct KeyEventView {
    pub code: KeyCode,
    pub modifiers: Seq<Modifier>,
}

impl View for KeyEvent {
    type V = KeyEventView;

    open spec fn view(&self) -> KeyEventView {
        KeyEventView { code: self.code, modifiers: self.modifiers@ }
    }
}

pub const ESCAPE: u8 = 27;

pub const BACKSPACE: u8 = 127;

pub const TAB: u8 = 9;

pub const ENTER: u8 = 10;

/// The byte, read as a Latin-1 character, is a control character: the C0
/// codes, DEL, and the C1 codes.
pub open spec fn is_control_byte(b: u8) -> bool {
    b <= 0x1f || (0x7f <= b && b <= 0x9f)
}

/// A control character other than Enter, Tab, Escape and Backspace marks the
/// key as pressed with Control.
pub open spec fn first_byte_modifiers(b: u8) -> Seq<Modifier> {
    if is_control_byte(b) && b != ENTER && b != TAB && b != ESCAPE && b != BACKSPACE {
        seq![Modifier::Control]
    } else {
        seq![]
    }
}

/// The key named by the final byte of an arrow sequence.
pub open spec fn arrow_of(b: u8) -> KeyCode {
    if b == 0x41 {
        KeyCode::Arrow(Direction::Up)
    } else if b == 0x42 {
        KeyCode::Arrow(Direction::Down)
    } else if b == 0x43 {
        KeyCode::Arrow(Direction::Right)
    } else if b == 0x44 {
        KeyCode::Arrow(Direction::Left)
    } else {
        KeyCode::Escape
    }
}

/// The letter whose UTF-8 encoding is `0xC3` followed by `b`, among those the
/// client knows.
pub open spec fn letter_after_c3(b: u8) -> KeyCode {
    if b == 0xb3 {
        KeyCode::Char('ó')
    } else if b == 0x93 {
        KeyCode::Char('Ó')
    } else {
        KeyCode::Escape
    }
}

/// The letter whose UTF-8 encoding is `0xC4` followed by `b`, among those the
/// client knows.
pub open spec fn letter_after_c4(b: u8) -> KeyCode {
    if b == 0x99 {
        KeyCode::Char('ę')
    } else if b == 0x98 {
        KeyCode::Char('Ę')
    } else if b == 0x87 {
        KeyCode::Char('ć')
    } else if b == 0x86 {
        KeyCode::Char('Ć')
    } else if b == 0x85 {
        KeyCode::Char('ą')
    } else if b == 0x84 {
        KeyCode::Char('Ą')
    } else {
        KeyCode::Escape
    }
}

/// The letter whose UTF-8 encoding is `0xC5` followed by `b`, among those the
/// client knows.
pub open spec fn letter_after_c5(b: u8) -> KeyCode {
    if b == 0x84 {
        KeyCode::Char('ń')
    } else if b == 0x83 {
        KeyCode::Char('Ń')
    } else if b == 0x82 {
        KeyCode::Char('ł')
    } else if b == 0x81 {
        KeyCode::Char('Ł')
    } else if b == 0x9b {
        KeyCode::Char('ś')
    } else if b == 0x9a {
        KeyCode::Char('Ś')
    } else if b == 0xba {
        KeyCode::Char('ź')
    } else if b == 0xb9 {
        KeyCode::Char('Ź')
    } else if b == 0xbc {
        KeyCode::Char('ż')
    } else if b == 0xbb {
        KeyCode::Char('Ż')
    } else {
        KeyCode::Escape
    }
}

/// A finished decoding: the event and how many bytes it took.
pub open spec fn finished(code: KeyCode, modifiers: Seq<Modifier>, used: nat) -> Option<(KeyEventView, nat)> {
    Some((KeyEventView { code, modifiers }, used))
}

/// The decoding of bytes that start with Escape: `None` while the sequence
/// is not yet complete.
pub open spec fn escape_sequence(s: Seq<u8>) -> Option<(KeyEventView, nat)> {
    if s.len() < 2 {
        None
    } else if s[1] != 0x5b {
        finished(KeyCode::Escape, seq![], 2)
    } else if s.len() < 3 {
        None
    } else if s[2] == 0x41 || s[2] == 0x42 || s[2] == 0x43 || s[2] == 0x44 {
        finished(arrow_of(s[2]), seq![], 3)
    } else if s[2] == 0x31 {
        if s.len() < 4 {
            None
        } else if s[3] != 0x3b {
            finished(KeyCode::Escape, seq![], 4)
        } else if s.len() < 5 {
            None
        } else if s[4] == 0x35 || s[4] == 0x32 {
            if s.len() < 6 {
                None
            } else {
                let m = if s[4] == 0x35 { Modifier::Control } else { Modifier::Shift };
                finished(arrow_of(s[5]), seq![m], 6)
            }
        } else {
            finished(KeyCode::Escape, seq![], 5)
        }
    } else if s[2] == 0x33 {
        if s.len() < 4 {
            None
        } else if s[3] == 0x7e {
            finished(KeyCode::Delete, seq![], 4)
        } else {
            finished(KeyCode::Escape, seq![], 4)
        }
    } else {
        finished(KeyCode::Escape, seq![], 3)
    }
}

/// The key event that the bytes `s` start with, and how many bytes it takes;
/// `None` while more bytes are needed to tell.
pub open spec fn decoded(s: Seq<u8>) -> Option<(KeyEventView, nat)> {
    if s.len() == 0 {
        None
    } else {
        let b = s[0];
        let m = first_byte_modifiers(b);
        if b == BACKSPACE {
            finished(KeyCode::Backspace, m, 1)
        } else if b == 0x3a {
            finished(KeyCode::Colon, m, 1)
        } else if b == ENTER {
            finished(KeyCode::Enter, m, 1)
        } else if b == TAB {
            finished(KeyCode::Tab, m, 1)
        } else if b == 0xc3 || b == 0xc4 || b == 0xc5 {
            if s.len() < 2 {
                None
            } else if b == 0xc3 {
                finished(letter_after_c3(s[1]), m, 2)
            } else if b == 0xc4 {
                finished(letter_after_c4(s[1]), m, 2)
            } else {
                finished(letter_after_c5(s[1]), m, 2)
            }
        } else if b == ESCAPE {
            escape_sequence(s)
        } else {
            finished(KeyCode::Char(b as char), m, 1)
        }
    }
}

/// The key named by the last byte of an arrow sequence; any other byte is
/// read as Escape.
pub fn get_arrow(next: u8) -> (code: KeyCode)
    ensures
        code == arrow_of(next),
{
    match next {
        0x41 => KeyCode::Arrow(Direction::Up),
        0x42 => KeyCode::Arrow(Direction::Down),
        0x43 => KeyCode::Arrow(Direction::Right),
        0x44 => KeyCode::Arrow(Direction::Left),
        _ => KeyCode::Escape,
    }
}

fn is_control_char_byte(b: u8) -> (r: bool)
    ensures
        r == is_control_byte(b),
{
    b <= 0x1f || (0x7f <= b && b <= 0x9f)
}

fn letter_c3(b: u8) -> (code: KeyCode)
    ensures
        code == letter_after_c3(b),
{
    match b {
        0xb3 => KeyCode::Char('ó'),
        0x93 => KeyCode::Char('Ó'),
        _ => KeyCode::Escape,
    }
}

fn letter_c4(b: u8) -> (code: KeyCode)
    ensures
        code == letter_after_c4(b),
{
    match b {
        0x99 => KeyCode::Char('ę'),
        0x98 => KeyCode::Char('Ę'),
        0x87 => KeyCode::Char('ć'),
        0x86 => KeyCode::Char('Ć'),
        0x85 => KeyCode::Char('ą'),
        0x84 => KeyCode::Char('Ą'),
        _ => KeyCode::Escape,
    }
}

fn letter_c5(b: u8) -> (code: KeyCode)
    ensures
        code == letter_after_c5(b),
{
    match b {
        0x84 => KeyCode::Char('ń'),
        0x83 => KeyCode::Char('Ń'),
        0x82 => KeyCode::Char('ł'),
        0x81 => KeyCode::Char('Ł'),
        0x9b => KeyCode::Char('ś'),
        0x9a => KeyCode::Char('Ś'),
        0xba => KeyCode::Char('ź'),
        0xb9 => KeyCode::Char('Ź'),
        0xbc => KeyCode::Char('ż'),
        0xbb => KeyCode::Char('Ż'),
        _ => KeyCode::Escape,
    }
}

fn event(code: KeyCode, modifiers: Vec<Modifier>, used: usize) -> (r: Option<(KeyEvent, usize)>)
    ensures
        r matches Some((e, n)) && e@ == (KeyEventView { code, modifiers: modifiers@ }) && n == used,
{
    Some((KeyEvent { code, modifiers }, used))
}

fn decode_escape(input: &[u8]) -> (r: Option<(KeyEvent, usize)>)
    requires
        input@.len() > 0,
        input@[0] == ESCAPE,
    ensures
        r matches Some((e, n)) ==> escape_sequence(input@) == Some((e@, n as nat)),
        r is None ==> escape_sequence(input@) is None,
{
    let len = input.len();
    if len < 2 {
        return None;
    }
    if input[1] != 0x5b {
        return event(KeyCode::Escape, Vec::new(), 2);
    }
    if len < 3 {
        return None;
    }
    let b2 = input[2];
    if b2 == 0x41 || b2 == 0x42 || b2 == 0x43 || b2 == 0x44 {
        return event(get_arrow(b2), Vec::new(), 3);
    }
    if b2 == 0x31 {
        if len < 4 {
            return None;
        }
        if input[3] != 0x3b {
            return event(KeyCode::Escape, Vec::new(), 4);
        }
        if len < 5 {
            return None;
        }
        let b4 = input[4];
        if b4 == 0x35 || b4 == 0x32 {
            if len < 6 {
                return None;
            }
            let m = if b4 == 0x35 { Modifier::Control } else { Modifier::Shift };
            let mut mods: Vec<Modifier> = Vec::new();
            mods.push(m);
            return event(get_arrow(input[5]), mods, 6);
        }
        return event(KeyCode::Escape, Vec::new(), 5);
    }
    if b2 == 0x33 {
        if len < 4 {
            return None;
        }
        if input[3] == 0x7e {
            return event(KeyCode::Delete, Vec::new(), 4);
        }
        return event(KeyCode::Escape, Vec::new(), 4);
    }
    event(KeyCode::Escape, Vec::new(), 3)
}

/// Decodes the key event that the pending input bytes start with. `None`
/// means that the bytes so far are the start of a longer sequence and more
/// must be read; otherwise the event comes with the number of bytes it used.
pub fn decode_key(input: &[u8]) -> (r: Option<(KeyEvent, usize)>)
    ensures
        r matches Some((e, n)) ==> decoded(input@) == Some((e@, n as nat)),
        r is None ==> decoded(input@) is None,
{
    if input.len() == 0 {
        return None;
    }
    let b = input[0];
    let mut mods: Vec<Modifier> = Vec::new();
    if is_control_char_byte(b) && b != ENTER && b != TAB && b != ESCAPE && b != BACKSPACE {
        mods.push(Modifier::Control);
    }
    assert(mods@ =~= first_byte_modifiers(b));
    if b == BACKSPACE {
        event(KeyCode::Backspace, mods, 1)
    } else if b == 0x3a {
        event(KeyCode::Colon, mods, 1)
    } else if b == ENTER {
        event(KeyCode::Enter, mods, 1)
    } else if b == TAB {
        event(KeyCode::Tab, mods, 1)
    } else if b == 0xc3 || b == 0xc4 || b == 0xc5 {
        if input.len() < 2 {
            None
        } else if b == 0xc3 {
            event(letter_c3(input[1]), mods, 2)
        } else if b == 0xc4 {
            event(letter_c4(input[1]), mods, 2)
        } else {
            event(letter_c5(input[1]), mods, 2)
        }
    } else if b == ESCAPE {
        decode_escape(input)
    } else {
        event(KeyCode::Char(b as char), mods, 1)
    }
}

/// A decoded key event takes at least one byte and no more than were given.
pub proof fn law_decoded_uses_given_bytes(s: Seq<u8>)
    ensures
        decoded(s) matches Some((e, n)) ==> 1 <= n <= s.len(),
{
}

/// Decoding reads only as far as it must: once the bytes so far decode to an
/// event, more bytes after them change neither the event nor its length.
pub proof fn law_decoded_prefix_stable(s: Seq<u8>, t: Seq<u8>)
    requires
        decoded(s) is Some,
    ensures
        decoded(s + t) == decoded(s),
{
    let u = s + t;
    assert forall|i: int| 0 <= i < s.len() implies u[i] == s[i] by {}
}

/// The decoder never waits for more than six bytes: six bytes always decode
/// to an event.
pub proof fn law_six_bytes_decode(s: Seq<u8>)
    requires
        s.len() >= 6,
    ensures
        decoded(s) is Some,
{
}

/// A scalar between 0x80 and 0x7FF is encoded in two bytes: `0xC0` plus its
/// high bits, then `0x80` plus its low six bits.
proof fn lemma_two_byte_encoding(u: u32)
    requires
        0x80 <= u <= 0x7FF,
    ensures
        encode_scalar(u) == seq![(0xC0 + u / 64) as u8, (0x80 + u % 64) as u8],
{
    assert((0xC0 | ((u >> 6) & 0x1F) as u8) == (0xC0 + u / 64) as u8 && (0x80 | (u & 0x3F) as u8) == (0x80
        + u % 64) as u8) by (bit_vector)
        requires
            0x80 <= u <= 0x7FF,
    ;
}

/// A character key is the character that its bytes encode: a letter read
/// from two bytes is encoded in UTF-8 by exactly those two bytes, and a
/// character read from one byte is the character with that byte's value
/// (for a byte below 0x80, its UTF-8 encoding is that byte).
pub proof fn law_characters_are_their_bytes(s: Seq<u8>)
    requires
        decoded(s) is Some,
        decoded(s).unwrap().0.code is Char,
    ensures
        ({
            let c = decoded(s).unwrap().0.code->Char_0;
            let n = decoded(s).unwrap().1;
            &&& n == 2 ==> char_bytes(c) == s.subrange(0, 2)
            &&& n == 1 ==> c as u32 == s[0] as u32
            &&& n == 1 && s[0] < 0x80 ==> char_bytes(c) == seq![s[0]]
        }),
{
    let c = decoded(s).unwrap().0.code->Char_0;
    let n = decoded(s).unwrap().1;
    lemma_char_bytes(c);
    if n == 2 {
        lemma_two_byte_encoding(c as u32);
        assert(s.subrange(0, 2) =~= seq![s[0], s[1]]);
    }
}

} // verus!
