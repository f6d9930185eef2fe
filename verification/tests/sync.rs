use fokcord::model::{Channel, Fokcord, Guild, Message, MessageFeed};
use fokcord::sync::{ChannelEntry, Fetch, GuildEntry};

fn channel(id: i64, name: &str, text: &str) -> Channel {
    Channel {
        id,
        name: name.as_bytes().to_vec(),
        messages: MessageFeed::Failure(b"old".to_vec()),
        message_box: text.as_bytes().to_vec(),
        message_cursor: text.len(),
    }
}

fn entry(id: i64, name: &str, icon: &str) -> GuildEntry {
    GuildEntry { id, name: name.as_bytes().to_vec(), icon: icon.as_bytes().to_vec() }
}

fn client() -> Fokcord {
    let mut f = Fokcord::new(b"t".to_vec());
    f.guilds.push(Guild { id: 1, name: b"a".to_vec(), channels: vec![channel(10, "c", "$typed")], current_channel: 0, icon: b"i".to_vec() });
    f
}

#[test]
fn a_new_client_is_empty() {
    let f = Fokcord::new(b"secret".to_vec());
    assert!(f.guilds.is_empty());
    assert!(f.io.is_empty());
    assert_eq!(f.token, b"secret".to_vec());
    assert!(!f.exit);
}

#[test]
fn same_length_guild_list_keeps_channels() {
    let mut f = client();
    f.guilds[0].current_channel = 0;
    f.apply_guild_list(&vec![entry(2, "b", "j")]);
    assert_eq!(f.guilds.len(), 1);
    assert_eq!(f.guilds[0].id, 2);
    assert_eq!(f.guilds[0].name, b"b".to_vec());
    assert_eq!(f.guilds[0].icon, b"j".to_vec());
    assert_eq!(f.guilds[0].channels.len(), 1);
    assert_eq!(f.guilds[0].channels[0].message_box, b"$typed".to_vec());
}

#[test]
fn different_length_guild_list_starts_afresh() {
    let mut f = client();
    f.apply_guild_list(&vec![entry(2, "b", "j"), entry(3, "c", "k")]);
    assert_eq!(f.guilds.len(), 2);
    assert!(f.guilds[0].channels.is_empty());
    assert_eq!(f.guilds[1].id, 3);
    assert_eq!(f.guilds[1].current_channel, 0);
}

#[test]
fn taking_the_same_guild_list_twice() {
    let mut f = client();
    let es = vec![entry(2, "b", "j"), entry(3, "c", "k")];
    f.apply_guild_list(&es);
    let names: Vec<Vec<u8>> = f.guilds.iter().map(|g| g.name.clone()).collect();
    f.apply_guild_list(&es);
    let again: Vec<Vec<u8>> = f.guilds.iter().map(|g| g.name.clone()).collect();
    assert_eq!(names, again);
    assert_eq!(f.guilds.len(), 2);
}

#[test]
fn same_length_channel_list_keeps_message_boxes() {
    let mut f = client();
    f.apply_guild_details(0, b"renamed".to_vec(), &vec![ChannelEntry { id: 11, name: b"d".to_vec() }]);
    assert_eq!(f.guilds[0].name, b"renamed".to_vec());
    let c = &f.guilds[0].channels[0];
    assert_eq!(c.id, 11);
    assert_eq!(c.name, b"d".to_vec());
    assert_eq!(c.message_box, b"$typed".to_vec());
    assert_eq!(c.message_cursor, 6);
    assert!(matches!(&c.messages, MessageFeed::Messages(v) if v.is_empty()));
}

#[test]
fn different_length_channel_list_empties_message_boxes() {
    let mut f = client();
    f.apply_guild_details(0, b"a".to_vec(), &vec![
        ChannelEntry { id: 11, name: b"d".to_vec() },
        ChannelEntry { id: 12, name: b"e".to_vec() },
    ]);
    assert_eq!(f.guilds[0].channels.len(), 2);
    assert!(f.guilds[0].channels[0].message_box.is_empty());
    assert_eq!(f.guilds[0].channels[1].message_cursor, 0);
}

#[test]
fn messages_go_to_their_channel() {
    let mut f = client();
    let m = Message { id: b"1".to_vec(), author: b"x".to_vec(), content: b"y".to_vec(), has_files: false, reply: None };
    f.apply_messages(0, 0, MessageFeed::Messages(vec![m]));
    match &f.guilds[0].channels[0].messages {
        MessageFeed::Messages(v) => assert_eq!(v[0].content, b"y".to_vec()),
        _ => panic!("expected messages"),
    }
    assert_eq!(f.guilds[0].channels[0].message_box, b"$typed".to_vec());
}

#[test]
fn icons_are_kept_in_order() {
    let mut f = client();
    f.add_icon(b"i1".to_vec(), b"p1".to_vec());
    f.add_icon(b"i2".to_vec(), b"p2".to_vec());
    assert_eq!(f.icon_cache, vec![(b"i1".to_vec(), b"p1".to_vec()), (b"i2".to_vec(), b"p2".to_vec())]);
}

#[test]
fn a_refresh_goes_list_guild_messages() {
    let mut f = client();
    f.guilds.push(Guild { id: 3, name: b"z".to_vec(), channels: vec![channel(30, "a", ""), channel(31, "b", "")], current_channel: 1, icon: b"k".to_vec() });
    f.current_guild = 1;
    assert_eq!(f.next_fetch(Fetch::GuildList), Some(Fetch::Guild(1)));
    assert_eq!(f.next_fetch(Fetch::Guild(0)), Some(Fetch::Messages(1, 1)));
    assert_eq!(f.next_fetch(Fetch::Messages(1, 1)), None);
    f.current_guild = 5;
    assert_eq!(f.next_fetch(Fetch::Guild(5)), None);
}
