use fokcord::answers::{
    channel_entry, config_token, has_short_digit_runs, config_token_of, guild_details, guild_details_from_json, guild_entries_from_json,
    guild_entries_of, guild_entry, message_feed_from_json, message_feed_of, message_of, ConfigError, Json, Shape,
};
use fokcord::model::{MessageFeed, ReplyRef};

#[test]
fn reading_messages() {
    let text = r#"[
        {"id": "2", "content": "hello", "author": {"username": "bob"}, "message_reference": {"message_id": "1"}},
        {"id": "1", "content": "", "author": {"username": "amy"}, "files": []}
    ]"#;
    match message_feed_from_json(text) {
        Some(MessageFeed::Messages(ms)) => {
            assert_eq!(ms.len(), 2);
            assert_eq!(ms[0].id, b"2".to_vec());
            assert_eq!(ms[0].author, b"bob".to_vec());
            assert_eq!(ms[0].content, b"hello".to_vec());
            assert!(!ms[0].has_files);
            assert_eq!(ms[0].reply, Some(ReplyRef::Id(1)));
            assert_eq!(ms[1].author, b"amy".to_vec());
            assert!(ms[1].content.is_empty());
            assert!(ms[1].has_files);
            assert_eq!(ms[1].reply, None);
        },
        _ => panic!("expected messages"),
    }
}

#[test]
fn reading_an_error_answer() {
    match message_feed_from_json(r#"{"code": 50001, "message": "Missing Access"}"#) {
        Some(MessageFeed::Failure(t)) => assert_eq!(t, b"Missing Access".to_vec()),
        _ => panic!("expected an error"),
    }
}

#[test]
fn reading_odd_answers() {
    match message_feed_from_json("null") {
        Some(MessageFeed::Messages(ms)) => assert!(ms.is_empty()),
        _ => panic!("expected no messages"),
    }
    assert!(message_feed_from_json("not json").is_none());
    match message_feed_from_json(r#"[{"id": 5, "content": 3, "author": {}, "message_reference": {"message_id": "x"}}]"#) {
        Some(MessageFeed::Messages(ms)) => {
            assert_eq!(ms[0].id, b"5".to_vec());
            assert_eq!(ms[0].content, b"3".to_vec());
            assert_eq!(ms[0].author, b"null".to_vec());
            assert_eq!(ms[0].reply, Some(ReplyRef::Malformed));
        },
        _ => panic!("expected messages"),
    }
}

#[test]
fn reading_guilds() {
    let es = guild_entries_from_json(r#"[{"id": "81", "name": "Zażółć", "icon": "ab"}, {"id": "-2", "name": "x", "icon": null}]"#).unwrap();
    assert_eq!(es.len(), 2);
    assert_eq!(es[0].id, 81);
    assert_eq!(es[0].name, "Zażółć".as_bytes().to_vec());
    assert_eq!(es[0].icon, b"ab".to_vec());
    assert_eq!(es[1].id, -2);
    assert_eq!(es[1].icon, b"null".to_vec());
    assert!(guild_entries_from_json(r#"[{"id": "eighty", "name": "x"}]"#).is_none());
    assert!(guild_entries_from_json("[").is_none());
}

#[test]
fn reading_guild_details() {
    let (name, cs) = guild_details_from_json(r#"{"name": "home"}"#, r#"[{"id": "3", "name": "general"}]"#).unwrap();
    assert_eq!(name, b"home".to_vec());
    assert_eq!(cs.len(), 1);
    assert_eq!(cs[0].id, 3);
    assert_eq!(cs[0].name, b"general".to_vec());
    assert!(guild_details_from_json("{}", r#"[{"id": "3x"}]"#).is_none());
    assert!(guild_details_from_json("{", "[]").is_none());
}

#[test]
fn reading_the_configuration() {
    assert_eq!(config_token(r#"{"token": "abc"}"#), Ok(b"abc".to_vec()));
    assert_eq!(config_token(r#"{"other": 1}"#), Err(ConfigError::NoToken));
    assert_eq!(config_token("?"), Err(ConfigError::NotJson));
}

fn text(t: &str, shape: Shape) -> Json {
    Json { text: t.to_string(), shape }
}

fn object(members: Vec<(&str, Json)>) -> Json {
    Json { text: "{}".to_string(), shape: Shape::Object(members.into_iter().map(|(k, v)| (k.to_string(), v)).collect()) }
}

#[test]
fn reading_a_built_document() {
    let m = object(vec![
        ("id", text("7", Shape::Text)),
        ("author", object(vec![("username", text("cat", Shape::Text))])),
        ("content", text("", Shape::Text)),
        ("files", text("[]", Shape::Array(vec![]))),
    ]);
    let doc = Json { text: "[]".to_string(), shape: Shape::Array(vec![m]) };
    match message_feed_of(&doc) {
        MessageFeed::Messages(ms) => {
            assert_eq!(ms.len(), 1);
            assert_eq!(ms[0].id, b"7".to_vec());
            assert_eq!(ms[0].author, b"cat".to_vec());
            assert!(ms[0].has_files);
            assert_eq!(ms[0].reply, None);
        },
        _ => panic!("expected messages"),
    }
    let err = object(vec![("code", text("1", Shape::Number))]);
    match message_feed_of(&err) {
        MessageFeed::Failure(t) => assert_eq!(t, b"null".to_vec()),
        _ => panic!("expected an error"),
    }
}

#[test]
fn reading_built_lists() {
    let g = object(vec![("id", text("12", Shape::Text)), ("name", text("g", Shape::Text))]);
    let doc = Json { text: "[]".to_string(), shape: Shape::Array(vec![g]) };
    let es = guild_entries_of(&doc).unwrap();
    assert_eq!(es[0].id, 12);
    assert_eq!(es[0].icon, b"null".to_vec());
    let c = object(vec![("id", text("1.5", Shape::Number)), ("name", text("c", Shape::Text))]);
    let cs = Json { text: "[]".to_string(), shape: Shape::Array(vec![c]) };
    assert!(guild_details(&object(vec![]), &cs).is_none());
    let (name, none) = guild_details(&object(vec![]), &object(vec![])).unwrap();
    assert_eq!(name, b"null".to_vec());
    assert!(none.is_empty());
    assert_eq!(config_token_of(&object(vec![("token", text("t", Shape::Text))])), Ok(b"t".to_vec()));
    assert_eq!(config_token_of(&text("3", Shape::Number)), Err(ConfigError::NoToken));
}

#[test]
fn building_entries_and_messages() {
    let m = message_of(b"1".to_vec(), b"a".to_vec(), b"hi".to_vec(), false, Some(b"99".to_vec()));
    assert_eq!(m.reply, Some(ReplyRef::Id(99)));
    let m = message_of(b"1".to_vec(), b"a".to_vec(), b"hi".to_vec(), false, Some(b"9x".to_vec()));
    assert_eq!(m.reply, Some(ReplyRef::Malformed));
    let g = guild_entry(b"-5", b"n".to_vec(), b"i".to_vec()).unwrap();
    assert_eq!((g.id, g.name, g.icon), (-5, b"n".to_vec(), b"i".to_vec()));
    assert!(guild_entry(b"", b"n".to_vec(), b"i".to_vec()).is_none());
    let c = channel_entry(b"42", b"general".to_vec()).unwrap();
    assert_eq!((c.id, c.name), (42, b"general".to_vec()));
    assert!(channel_entry(b"4 2", b"x".to_vec()).is_none());
}

#[test]
fn long_digit_runs_are_refused() {
    assert!(has_short_digit_runs(r#"{"id": "123", "x": 0.5}"#));
    assert!(has_short_digit_runs(""));
    let almost = format!("0.{}", "0".repeat(31_998));
    assert!(has_short_digit_runs(&almost));
    let long = format!("[0.{}1]", "0".repeat(31_999));
    assert!(!has_short_digit_runs(&long));
    let split = format!("{}x{}", "9".repeat(31_999), "9".repeat(31_999));
    assert!(has_short_digit_runs(&split));
    assert!(message_feed_from_json(&almost).is_some());
}
