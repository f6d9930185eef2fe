use fokcord::model::{Channel, Fokcord, Guild, Message, MessageFeed, ReplyRef, State};
use fokcord::screen::{get_message, render_screen, screen_fits, TerminalSize};

fn client(messages: MessageFeed) -> Fokcord {
    let channel = Channel { id: 77, name: b"general".to_vec(), messages, message_box: vec![], message_cursor: 0 };
    let guild = Guild { id: 5, name: b"home".to_vec(), channels: vec![channel], current_channel: 0, icon: vec![] };
    let mut f = Fokcord::new(b"tok".to_vec());
    f.guilds.push(guild);
    f
}

fn msg(id: &str, author: &str, content: &str, reply: Option<ReplyRef>) -> Message {
    Message {
        id: id.as_bytes().to_vec(),
        author: author.as_bytes().to_vec(),
        content: content.as_bytes().to_vec(),
        has_files: false,
        reply,
    }
}

fn spaces(n: usize) -> String {
    " ".repeat(n)
}

fn render(f: &Fokcord, rows: u16, cols: u16) -> String {
    let size = TerminalSize { rows, cols };
    assert!(screen_fits(f, size));
    String::from_utf8(render_screen(f, size)).unwrap()
}

fn header(rows: usize, cols: usize, status: &str, names: &[&str]) -> String {
    let mut s = String::new();
    s += "Fokcord - please send help";
    s += &spaces(cols - 26);
    s += "\n";
    s += &spaces(5);
    s += "home//general";
    s += &spaces(cols - 5 - 13);
    s += "\n";
    for k in 0..rows - 4 {
        s += &spaces(5);
        if k < names.len() {
            s += names[k];
        } else {
            s += &spaces(45);
        }
        s += &spaces(cols - 50);
        s += "\n";
    }
    s += &spaces(50);
    s += &spaces(cols - 50);
    s += "\n";
    s += "\x1b[48;2;43;48;40m";
    s += &spaces(cols - 7);
    s += status;
    s += "\x1b[0m";
    s += &format!("\x1b[{};51H", rows - 2);
    s
}

#[test]
fn empty_channel_screen() {
    let f = client(MessageFeed::Messages(vec![]));
    let expected = header(6, 60, "control", &["general"]) + "\x1b[6;60H";
    assert_eq!(render(&f, 6, 60), expected);
}

#[test]
fn every_padded_line_is_as_wide_as_the_terminal() {
    let f = client(MessageFeed::Messages(vec![]));
    let out = render(&f, 7, 80);
    let lines: Vec<&str> = out.split('\n').collect();
    assert_eq!(lines[0].len(), 80);
    assert_eq!(lines[1].len(), 80);
    assert_eq!(lines[5].len(), 80);
}

#[test]
fn one_message_bottom_up() {
    let f = client(MessageFeed::Messages(vec![msg("1", "bob", "hi", None)]));
    let feed = "hi\x1b[5;51H\x1b[38;2;255;0;0mbob\x1b[0m\x1b[4;51H";
    let expected = header(8, 60, "control", &["general"]) + feed + "\x1b[8;60H";
    assert_eq!(render(&f, 8, 60), expected);
}

#[test]
fn long_lines_are_wrapped_and_drawn_from_the_last() {
    let f = client(MessageFeed::Messages(vec![msg("1", "bob", "abcdefghijKLM", None)]));
    let out = render(&f, 8, 60);
    let feed = "jKLM\x1b[5;51Habcdefghi\x1b[4;51H\x1b[38;2;255;0;0mbob\x1b[0m\x1b[3;51H\x1b[8;60H";
    assert!(out.ends_with(feed));
}

#[test]
fn newlines_split_a_message() {
    let f = client(MessageFeed::Messages(vec![msg("1", "bob", "one\ntwo", None)]));
    let out = render(&f, 8, 60);
    assert!(out.ends_with("two\x1b[5;51Hone\x1b[4;51H\x1b[38;2;255;0;0mbob\x1b[0m\x1b[3;51H\x1b[8;60H"));
}

#[test]
fn empty_messages_show_a_marker() {
    let mut m = msg("1", "bob", "", None);
    let f = client(MessageFeed::Messages(vec![m]));
    let out = render(&f, 8, 80);
    assert!(out.contains("\x1b[38;255;255;0m[empty]\x1b[0m\x1b[5;51H"));
    m = msg("1", "bob", "", None);
    m.has_files = true;
    let f = client(MessageFeed::Messages(vec![m]));
    let out = render(&f, 8, 80);
    assert!(out.contains("[file/s]\x1b[5;51H"));
}

#[test]
fn replies_quote_the_answered_message() {
    let first = msg("100", "ann", "the quick brown fox jumps over the lazy dog", None);
    let second = msg("101", "bob", "yes", Some(ReplyRef::Id(100)));
    let f = client(MessageFeed::Messages(vec![second, first]));
    let out = render(&f, 10, 120);
    let quoted = "yes\x1b[7;51H\x1b[38;2;255;0;0mbob\x1b[0m\x1b[6;51H  >\x1b[38;2;255;0;0mann\x1b[0m: the quick brown fox jumps\x1b[5;51H";
    assert!(out.contains(quoted));
}

#[test]
fn replies_to_unknown_messages() {
    let m = msg("101", "bob", "yes", Some(ReplyRef::Id(-4)));
    let f = client(MessageFeed::Messages(vec![m]));
    let out = render(&f, 8, 80);
    assert!(out.contains("  >\x1b[38;2;255;0;0m[can't load]\x1b[0m: [can't load]"));
}

#[test]
fn malformed_reply_ids_cannot_be_drawn() {
    let m = msg("101", "bob", "yes", Some(ReplyRef::Malformed));
    let f = client(MessageFeed::Messages(vec![m]));
    assert!(!screen_fits(&f, TerminalSize { rows: 8, cols: 80 }));
}

#[test]
fn an_error_answer_shows_its_message() {
    let f = client(MessageFeed::Failure(b"Missing Access".to_vec()));
    let expected = header(6, 60, "control", &["general"]) + "Missing Access" + "\x1b[6;60H";
    assert_eq!(render(&f, 6, 60), expected);
}

#[test]
fn cursor_position_follows_the_mode() {
    let mut f = client(MessageFeed::Messages(vec![]));
    f.state = State::Command;
    f.io = b":ab".to_vec();
    f.io_cursor = 3;
    assert!(render(&f, 6, 60).ends_with("command\x1b[0m\x1b[4;51H\x1b[6;4H"));
    f.state = State::Message;
    f.guilds[0].channels[0].message_box = b"$x".to_vec();
    f.guilds[0].channels[0].message_cursor = 2;
    assert!(render(&f, 6, 60).ends_with("\x1b[5;53H"));
}

#[test]
fn long_channel_names_are_cut() {
    let mut f = client(MessageFeed::Messages(vec![]));
    f.guilds[0].channels[0].name = "x".repeat(50).into_bytes();
    let out = render(&f, 5, 120);
    let line = out.split('\n').nth(2).unwrap();
    assert_eq!(line, format!("{}{}{}", spaces(5), "x".repeat(45), spaces(70)));
}

#[test]
fn small_terminals_cannot_be_drawn() {
    let f = client(MessageFeed::Messages(vec![]));
    assert!(!screen_fits(&f, TerminalSize { rows: 3, cols: 80 }));
    assert!(!screen_fits(&f, TerminalSize { rows: 6, cols: 25 }));
    assert!(!screen_fits(&f, TerminalSize { rows: 6, cols: 40 }));
    assert!(!screen_fits(&f, TerminalSize { rows: 4, cols: 40 }));
    assert!(screen_fits(&f, TerminalSize { rows: 4, cols: 50 }));
    let none = Fokcord::new(vec![]);
    assert!(!screen_fits(&none, TerminalSize { rows: 20, cols: 80 }));
}

#[test]
fn messages_need_a_column_wider_than_the_lists() {
    let f = client(MessageFeed::Messages(vec![msg("1", "bob", "hi", None)]));
    assert!(!screen_fits(&f, TerminalSize { rows: 8, cols: 51 }));
    assert!(screen_fits(&f, TerminalSize { rows: 8, cols: 52 }));
}

#[test]
fn looking_up_messages_by_id() {
    let ms = vec![msg("7", "amy", "first", None), msg("-3", "cy", "second", None)];
    assert_eq!(get_message(&ms, 7), (b"amy".to_vec(), b"first".to_vec()));
    assert_eq!(get_message(&ms, -3), (b"cy".to_vec(), b"second".to_vec()));
    assert_eq!(get_message(&ms, 8), (b"[can't load]".to_vec(), b"[can't load]".to_vec()));
}
