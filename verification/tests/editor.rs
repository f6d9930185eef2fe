use fokcord::editor::{command_failed, finish_command, handle_key_event, key_fits_exec, Effect};
use fokcord::keys::{Direction, KeyCode, KeyEvent};
use fokcord::model::{Channel, Fokcord, Guild, MessageFeed, State};

fn key(code: KeyCode) -> KeyEvent {
    KeyEvent { code, modifiers: vec![] }
}

fn client() -> Fokcord {
    let channel = Channel {
        id: 77,
        name: b"general".to_vec(),
        messages: MessageFeed::Messages(vec![]),
        message_box: vec![],
        message_cursor: 0,
    };
    let guild = Guild { id: 5, name: b"home".to_vec(), channels: vec![channel], current_channel: 0, icon: b"ic".to_vec() };
    let mut f = Fokcord::new(b"tok".to_vec());
    f.guilds.push(guild);
    f
}

fn press(f: &mut Fokcord, code: KeyCode) -> Effect {
    assert!(key_fits_exec(f, code));
    handle_key_event(f, key(code))
}

fn current_box(f: &Fokcord) -> &Vec<u8> {
    &f.guilds[0].channels[0].message_box
}

#[test]
fn colon_opens_the_command_line() {
    let mut f = client();
    assert!(matches!(press(&mut f, KeyCode::Colon), Effect::Nothing));
    assert_eq!(f.state, State::Command);
    assert_eq!(f.io, b":".to_vec());
    assert_eq!(f.io_cursor, 1);
}

#[test]
fn typing_in_the_command_line() {
    let mut f = client();
    press(&mut f, KeyCode::Colon);
    press(&mut f, KeyCode::Char('a'));
    press(&mut f, KeyCode::Char('ł'));
    press(&mut f, KeyCode::Colon);
    assert_eq!(f.io, ":ał:".as_bytes().to_vec());
    assert_eq!(f.io_cursor, 5);
}

#[test]
fn typing_inserts_at_the_cursor() {
    let mut f = client();
    f.state = State::Command;
    f.io = b":ac".to_vec();
    f.io_cursor = 2;
    press(&mut f, KeyCode::Char('b'));
    assert_eq!(f.io, b":abc".to_vec());
    assert_eq!(f.io_cursor, 3);
}

#[test]
fn backspace_undoes_typing() {
    let mut f = client();
    press(&mut f, KeyCode::Colon);
    press(&mut f, KeyCode::Char('q'));
    let before = f.io.clone();
    press(&mut f, KeyCode::Char('z'));
    press(&mut f, KeyCode::Backspace);
    assert_eq!(f.io, before);
    assert_eq!(f.io_cursor, 2);
    assert_eq!(f.state, State::Command);
}

#[test]
fn backspace_drops_the_text_after_the_cursor() {
    let mut f = client();
    f.state = State::Command;
    f.io = b":abc".to_vec();
    f.io_cursor = 2;
    press(&mut f, KeyCode::Backspace);
    assert_eq!(f.io, b":".to_vec());
    assert_eq!(f.io_cursor, 1);
}

#[test]
fn backspace_on_the_colon_leaves_command_mode() {
    let mut f = client();
    press(&mut f, KeyCode::Colon);
    press(&mut f, KeyCode::Backspace);
    assert_eq!(f.state, State::Control);
    assert!(f.io.is_empty());
    assert_eq!(f.io_cursor, 0);
}

#[test]
fn backspace_needs_a_place_to_split() {
    let mut f = client();
    f.state = State::Command;
    f.io = ":ł".as_bytes().to_vec();
    f.io_cursor = 3;
    assert!(!key_fits_exec(&f, KeyCode::Backspace));
    f.io_cursor = 0;
    assert!(!key_fits_exec(&f, KeyCode::Backspace));
}

#[test]
fn writing_and_sending_a_message() {
    let mut f = client();
    press(&mut f, KeyCode::Char('i'));
    assert_eq!(f.state, State::Message);
    assert_eq!(current_box(&f), &b"$".to_vec());
    press(&mut f, KeyCode::Char('h'));
    press(&mut f, KeyCode::Char('i'));
    press(&mut f, KeyCode::Colon);
    assert_eq!(current_box(&f), &b"$hi:".to_vec());
    match press(&mut f, KeyCode::Enter) {
        Effect::SendMessage { channel, content } => {
            assert_eq!(channel, 77);
            assert_eq!(content, b"hi:".to_vec());
        },
        _ => panic!("expected a message to send"),
    }
    assert_eq!(f.state, State::Control);
    assert!(current_box(&f).is_empty());
    assert_eq!(f.guilds[0].channels[0].message_cursor, 4);
}

#[test]
fn backspace_on_the_dollar_leaves_message_mode() {
    let mut f = client();
    press(&mut f, KeyCode::Char('a'));
    press(&mut f, KeyCode::Char('x'));
    press(&mut f, KeyCode::Backspace);
    assert_eq!(current_box(&f), &b"$".to_vec());
    assert_eq!(f.state, State::Message);
    press(&mut f, KeyCode::Backspace);
    assert_eq!(f.state, State::Control);
    assert_eq!(current_box(&f), &b"$".to_vec());
    assert_eq!(f.guilds[0].channels[0].message_cursor, 1);
}

#[test]
fn message_mode_needs_a_channel() {
    let f = Fokcord::new(vec![]);
    assert!(!key_fits_exec(&f, KeyCode::Char('i')));
    assert!(key_fits_exec(&f, KeyCode::Char('x')));
}

#[test]
fn escape_returns_to_control() {
    let mut f = client();
    press(&mut f, KeyCode::Colon);
    press(&mut f, KeyCode::Char('w'));
    press(&mut f, KeyCode::Escape);
    assert_eq!(f.state, State::Control);
    assert_eq!(f.io, b":w".to_vec());
}

#[test]
fn enter_runs_the_command_line_without_its_colon() {
    let mut f = client();
    press(&mut f, KeyCode::Colon);
    press(&mut f, KeyCode::Char('1'));
    press(&mut f, KeyCode::Char('+'));
    press(&mut f, KeyCode::Char('1'));
    match press(&mut f, KeyCode::Enter) {
        Effect::Evaluate { source } => assert_eq!(source, b"1+1".to_vec()),
        _ => panic!("expected a command line to run"),
    }
    assert_eq!(f.state, State::Command);
    finish_command(&mut f, None, b"2".to_vec());
    assert_eq!(f.state, State::Control);
    assert_eq!(f.io, b"2".to_vec());
    assert_eq!(f.io_cursor, 4);
}

#[test]
fn a_program_may_replace_the_client() {
    let mut f = client();
    let mut other = Fokcord::new(b"other".to_vec());
    other.io_cursor = 9;
    finish_command(&mut f, Some(other), b"done".to_vec());
    assert_eq!(f.token, b"other".to_vec());
    assert!(f.guilds.is_empty());
    assert_eq!(f.io, b"done".to_vec());
    assert_eq!(f.io_cursor, 9);
}

#[test]
fn control_mode_ignores_other_keys() {
    let mut f = client();
    for code in [KeyCode::Char('x'), KeyCode::Tab, KeyCode::Delete, KeyCode::Backspace, KeyCode::Enter,
        KeyCode::Arrow(Direction::Up), KeyCode::Escape]
    {
        assert!(matches!(press(&mut f, code), Effect::Nothing));
        assert_eq!(f.state, State::Control);
        assert!(f.io.is_empty());
        assert!(current_box(&f).is_empty());
    }
}

#[test]
fn a_failed_run_says_so() {
    let mut f = client();
    press(&mut f, KeyCode::Colon);
    press(&mut f, KeyCode::Char('x'));
    command_failed(&mut f);
    assert_eq!(f.state, State::Control);
    assert_eq!(f.io, b"Foklang panicked.".to_vec());
    assert_eq!(f.io_cursor, 2);
}

#[test]
fn colon_key_types_like_the_colon_character() {
    for start in [State::Command, State::Message] {
        let mut a = client();
        let mut b = client();
        for f in [&mut a, &mut b] {
            if start == State::Command {
                press(f, KeyCode::Colon);
            } else {
                press(f, KeyCode::Char('i'));
            }
            press(f, KeyCode::Char('q'));
        }
        press(&mut a, KeyCode::Colon);
        press(&mut b, KeyCode::Char(':'));
        assert_eq!(a.io, b.io);
        assert_eq!(a.io_cursor, b.io_cursor);
        assert_eq!(current_box(&a), current_box(&b));
        assert_eq!(a.state, b.state);
    }
}

#[test]
fn writing_joined_texts_at_once() {
    let mut a = client();
    a.io = ":xy".as_bytes().to_vec();
    a.io_cursor = 2;
    let mut b = client();
    b.io = a.io.clone();
    b.io_cursor = 2;
    a.write_io("ł".as_bytes());
    a.write_io(b"12");
    b.write_io("ł12".as_bytes());
    assert_eq!(a.io, b.io);
    assert_eq!(a.io, ":xł12y".as_bytes().to_vec());
    assert_eq!(a.io_cursor, b.io_cursor);
}
