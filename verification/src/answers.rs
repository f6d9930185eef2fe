//! Reading the service's JSON answers (and the configuration file) into the
//! client's own values. The `json` crate parses a document; the client reads
//! it as a `Json` tree and takes out the parts it uses.
use vstd::prelude::*;
use vstd::string::StringSliceAdditionalSpecFns;
use vstd::utf8::{encode_utf8, encode_utf8_valid_utf8, valid_utf8};
use crate::model::{FeedView, Message, MessageFeed, MessageView, ReplyRef};
use crate::number::{parse_i64, parsed_i64};
use crate::sync::{ChannelEntry, ChannelEntryView, GuildEntry, GuildEntryView};
use crate::text::literal;
use json::JsonValue;

verus! {

#[verifier::external_type_specification]
#[verifier::external_body]
pub struct ExJsonValue(json::JsonValue);

/// A JSON value as the client reads it: the text that the value's `Display`
/// writes (a string's own text, any other value as JSON), and its shape.
#[derive(Debug)]
pub struct Json {
    pub text: String,
    pub shape: Shape,
}

/// The kind of a JSON value, with the elements of an array and the members
/// of an object, in their order.
#[derive(Debug)]
pub enum Shape {
    Null,
    Boolean,
    Number,
    Text,
    Array(Vec<Json>),
    Object(Vec<(String, Json)>),
}

/// The document that `json::parse` reads from a text, as a `Json`; `None`
/// when the text is not JSON.
pub uninterp spec fn parsed_json(text: Seq<char>) -> Option<Json>;

/// Reads a `JsonValue` into a `Json`, variant by variant: each value's text
/// is what its `Display` writes, and the members of an object and the
/// elements of an array are read in the order that the crate keeps them.
/// It is the conversion step of `parse_json`, which alone calls it; no
/// contract is given to it.
#[verifier::external_body]
fn json_of(v: &JsonValue) -> Json {
    let shape = match v {
        JsonValue::Null => Shape::Null,
        JsonValue::Boolean(_) => Shape::Boolean,
        JsonValue::Number(_) => Shape::Number,
        JsonValue::Short(_) | JsonValue::String(_) => Shape::Text,
        JsonValue::Array(a) => Shape::Array(a.iter().map(json_of).collect()),
        JsonValue::Object(o) => Shape::Object(o.iter().map(|(k, x)| (k.to_string(), json_of(x))).collect()),
    };
    Json { text: v.to_string(), shape }
}

/// The longest stretch of decimal digits that `json::parse` reads without
/// fail: the crate counts the digits after a decimal point down in an `i16`
/// exponent, which overflows (and panics) past 32768 of them.
pub const DIGIT_RUN_LIMIT: usize = 32000;

/// The byte is an ASCII decimal digit.
pub open spec fn digit_byte(b: u8) -> bool {
    0x30 <= b <= 0x39
}

/// The `DIGIT_RUN_LIMIT` bytes from `i` on are all digits.
pub open spec fn digit_window(s: Seq<u8>, i: int) -> bool {
    forall|k: int| i <= k < i + DIGIT_RUN_LIMIT ==> digit_byte(#[trigger] s[k])
}

/// No run of `DIGIT_RUN_LIMIT` or more digits stands in the bytes: the texts
/// that `json::parse` reads without panicking.
pub open spec fn short_digit_runs(s: Seq<u8>) -> bool {
    forall|i: int| 0 <= i && i + DIGIT_RUN_LIMIT <= s.len() ==> !#[trigger] digit_window(s, i)
}

/// Whether the text holds no run of `DIGIT_RUN_LIMIT` or more digits, so
/// that it may be handed to the JSON parser.
pub fn has_short_digit_runs(text: &str) -> (r: bool)
    ensures
        r == short_digit_runs(text.spec_bytes()),
{
    let b = text.as_bytes();
    let ghost s = b@;
    let mut run: usize = 0;
    let mut i: usize = 0;
    while i < b.len()
        invariant
            s == b@,
            s == text.spec_bytes(),
            i <= b.len(),
            run <= i,
            run < DIGIT_RUN_LIMIT,
            forall|k: int| i - run <= k < i ==> digit_byte(#[trigger] s[k]),
            i - run > 0 ==> !digit_byte(s[i - run - 1]),
            forall|j: int| 0 <= j && j + DIGIT_RUN_LIMIT <= i ==> !#[trigger] digit_window(s, j),
        decreases b.len() - i,
    {
        let c = b[i];
        if 0x30 <= c && c <= 0x39 {
            run = run + 1;
            if run == DIGIT_RUN_LIMIT {
                let ghost j = i + 1 - DIGIT_RUN_LIMIT;
                assert(digit_window(s, j));
                assert(!short_digit_runs(s));
                return false;
            }
        } else {
            run = 0;
        }
        i = i + 1;
        proof {
            assert forall|j: int| 0 <= j && j + DIGIT_RUN_LIMIT <= i implies !#[trigger] digit_window(s, j) by {
                if j + DIGIT_RUN_LIMIT == i {
                    if run == 0 {
                        assert(!digit_byte(s[i - 1]));
                    } else {
                        assert(!digit_byte(s[i - run - 1]));
                    }
                }
            }
        }
    }
    true
}

/// `json::parse`, with the document read by `json_of`; `None` when the text
/// is not JSON. The claim is only that the answer depends on the text alone:
/// it is named `parsed_json` of the text, and nothing else is said of it.
/// The text holds no long run of digits, on which the crate panics.
#[verifier::external_body]
fn parse_json(text: &str) -> (r: Option<Json>)
    requires
        short_digit_runs(text.spec_bytes()),
    ensures
        r == parsed_json(text@),
{
    match json::parse(text) {
        Ok(v) => Some(json_of(&v)),
        Err(_) => None,
    }
}

/// A value looked up in a document, or `None` where the document has no
/// value there (the `json` crate answers such a lookup with null).
pub open spec fn value_of(r: Option<&Json>) -> Option<Json> {
    match r {
        Some(j) => Some(*j),
        None => None,
    }
}

/// The position of the first member with the key.
pub open spec fn key_position(ms: Seq<(String, Json)>, key: Seq<char>) -> Option<int> {
    if exists|i: int| 0 <= i < ms.len() && #[trigger] ms[i].0@ == key {
        Some(
            choose|i: int|
                0 <= i < ms.len() && #[trigger] ms[i].0@ == key && forall|j: int|
                    0 <= j < i ==> ms[j].0@ != key,
        )
    } else {
        None
    }
}

/// The member of an object with the key; `None` for a missing key or a
/// value that is not an object.
pub open spec fn member(v: Option<Json>, key: Seq<char>) -> Option<Json> {
    match v {
        Some(j) => match j.shape {
            Shape::Object(ms) => match key_position(ms@, key) {
                Some(i) => Some(ms@[i].1),
                None => None,
            },
            _ => None,
        },
        None => None,
    }
}

/// Whether the value is an object with a member of that key.
pub open spec fn has_member(v: Option<Json>, key: Seq<char>) -> bool {
    match v {
        Some(j) => match j.shape {
            Shape::Object(ms) => key_position(ms@, key) is Some,
            _ => false,
        },
        None => false,
    }
}

/// The element of an array at a position; `None` past its end or for a
/// value that is not an array.
pub open spec fn element(v: Option<Json>, i: int) -> Option<Json> {
    match v {
        Some(j) => match j.shape {
            Shape::Array(es) => if 0 <= i < es@.len() {
                Some(es@[i])
            } else {
                None
            },
            _ => None,
        },
        None => None,
    }
}

/// The number of elements of an array or members of an object; 0 for any
/// other value.
pub open spec fn size(v: Option<Json>) -> nat {
    match v {
        Some(j) => match j.shape {
            Shape::Array(es) => es@.len(),
            Shape::Object(ms) => ms@.len(),
            _ => 0,
        },
        None => 0,
    }
}

/// The text of a value as UTF-8; a missing value reads as `null`.
pub open spec fn text_of(v: Option<Json>) -> Seq<u8> {
    match v {
        Some(j) => encode_utf8(j.text@),
        None => "null".spec_bytes(),
    }
}

/// Where the member with the key stands.
fn find_key(ms: &Vec<(String, Json)>, key: &str) -> (r: Option<usize>)
    ensures
        r is None <==> key_position(ms@, key@) is None,
        r matches Some(i) ==> key_position(ms@, key@) == Some(i as int) && i < ms@.len(),
{
    let k = key.to_string();
    let mut i: usize = 0;
    while i < ms.len()
        invariant
            i <= ms@.len(),
            k@ == key@,
            forall|j: int| 0 <= j < i ==> ms@[j].0@ != key@,
        decreases ms.len() - i,
    {
        if ms[i].0 == k {
            assert(0 <= i < ms@.len() && ms@[i as int].0@ == key@ && forall|j: int|
                0 <= j < i ==> ms@[j].0@ != key@);
            return Some(i);
        }
        i = i + 1;
    }
    None
}

/// The member of an object with the key.
fn member_of<'a>(v: Option<&'a Json>, key: &str) -> (r: Option<&'a Json>)
    ensures
        value_of(r) == member(value_of(v), key@),
{
    match v {
        None => None,
        Some(j) => match &j.shape {
            Shape::Object(ms) => match find_key(ms, key) {
                Some(i) => Some(&ms[i].1),
                None => None,
            },
            _ => None,
        },
    }
}

/// Whether the value is an object with a member of that key.
fn has_member_of(v: Option<&Json>, key: &str) -> (r: bool)
    ensures
        r == has_member(value_of(v), key@),
{
    match v {
        None => false,
        Some(j) => match &j.shape {
            Shape::Object(ms) => find_key(ms, key).is_some(),
            _ => false,
        },
    }
}

/// The element of an array at a position.
fn element_of<'a>(v: Option<&'a Json>, i: usize) -> (r: Option<&'a Json>)
    ensures
        value_of(r) == element(value_of(v), i as int),
{
    match v {
        None => None,
        Some(j) => match &j.shape {
            Shape::Array(es) => if i < es.len() {
                Some(&es[i])
            } else {
                None
            },
            _ => None,
        },
    }
}

/// The number of elements or members.
fn size_of(v: Option<&Json>) -> (r: usize)
    ensures
        r == size(value_of(v)),
{
    match v {
        None => 0,
        Some(j) => match &j.shape {
            Shape::Array(es) => es.len(),
            Shape::Object(ms) => ms.len(),
            _ => 0,
        },
    }
}

/// The text of a value as UTF-8.
fn text_bytes(v: Option<&Json>) -> (r: Vec<u8>)
    ensures
        r@ == text_of(value_of(v)),
        valid_utf8(r@),
{
    match v {
        Some(j) => {
            proof {
                encode_utf8_valid_utf8(j.text@);
            }
            vstd::slice::slice_to_vec(j.text.as_str().as_bytes())
        },
        None => {
            proof {
                encode_utf8_valid_utf8("null"@);
            }
            literal("null")
        },
    }
}

/// The message that a message answers, from the text of the answered id,
/// if it answers one.
pub open spec fn reply_of(reference: Option<Seq<u8>>) -> Option<ReplyRef> {
    match reference {
        None => None,
        Some(t) => match parsed_i64(t) {
            Some(n) => Some(ReplyRef::Id(n)),
            None => Some(ReplyRef::Malformed),
        },
    }
}

/// A message from its parts: the id, the author's user name, the text,
/// whether it carries files, and the text of the id it answers, if any.
pub fn message_of(id: Vec<u8>, author: Vec<u8>, content: Vec<u8>, has_files: bool, reference: Option<Vec<u8>>) -> (m: Message)
    ensures
        m@ == (MessageView {
            id: id@,
            author: author@,
            content: content@,
            has_files,
            reply: reply_of(
                match reference {
                    Some(t) => Some(t@),
                    None => None,
                },
            ),
        }),
{
    let reply = match reference {
        Some(t) => match parse_i64(t.as_slice()) {
            Some(n) => Some(ReplyRef::Id(n)),
            None => Some(ReplyRef::Malformed),
        },
        None => None,
    };
    Message { id, author, content, has_files, reply }
}

/// The message that an element of a message list describes: its `id`, its
/// `author`'s `username`, its `content`, whether it has `files`, and the
/// `message_id` of its `message_reference`, if it has one.
pub open spec fn message_from(v: Option<Json>) -> MessageView {
    MessageView {
        id: text_of(member(v, "id"@)),
        author: text_of(member(member(v, "author"@), "username"@)),
        content: text_of(member(v, "content"@)),
        has_files: has_member(v, "files"@),
        reply: reply_of(
            if has_member(v, "message_reference"@) {
                Some(text_of(member(member(v, "message_reference"@), "message_id"@)))
            } else {
                None
            },
        ),
    }
}

/// What an answer to a request for messages says: an object with a `code`
/// is an error, which gives its `message`; anything else is read as the
/// list of messages, newest first.
pub open spec fn feed_of(doc: Json) -> FeedView {
    let d = Some(doc);
    if has_member(d, "code"@) {
        FeedView::Failure(text_of(member(d, "message"@)))
    } else {
        FeedView::Messages(Seq::new(size(d), |i: int| message_from(element(d, i))))
    }
}

/// One element of a message list.
fn read_message(v: Option<&Json>) -> (m: Message)
    ensures
        m@ == message_from(value_of(v)),
{
    let id = text_bytes(member_of(v, "id"));
    let author = text_bytes(member_of(member_of(v, "author"), "username"));
    let content = text_bytes(member_of(v, "content"));
    let has_files = has_member_of(v, "files");
    let reference = if has_member_of(v, "message_reference") {
        Some(text_bytes(member_of(member_of(v, "message_reference"), "message_id")))
    } else {
        None
    };
    message_of(id, author, content, has_files, reference)
}

/// The messages, or the error, that a parsed answer gives.
pub fn message_feed_of(doc: &Json) -> (r: MessageFeed)
    ensures
        r@ == feed_of(*doc),
{
    let d = Some(doc);
    if has_member_of(d, "code") {
        return MessageFeed::Failure(text_bytes(member_of(d, "message")));
    }
    let n = size_of(d);
    let mut ms: Vec<Message> = Vec::new();
    let mut i: usize = 0;
    while i < n
        invariant
            i <= n,
            n == size(Some(*doc)),
            value_of(d) == Some(*doc),
            ms@.map_values(|m: Message| m@) == Seq::new(i as nat, |j: int| message_from(element(Some(*doc), j))),
        decreases n - i,
    {
        let m = read_message(element_of(d, i));
        proof {
            let before = ms@.map_values(|m: Message| m@);
            assert(before.push(m@) =~= ms@.push(m).map_values(|m: Message| m@));
        }
        ms.push(m);
        i = i + 1;
        proof {
            assert(ms@.map_values(|m: Message| m@) =~= Seq::new(i as nat, |j: int| message_from(element(Some(*doc), j))));
        }
    }
    MessageFeed::Messages(ms)
}

/// What an answer to a request for messages says; `None` when it is not
/// JSON.
pub fn message_feed_from_json(text: &str) -> (r: Option<MessageFeed>)
    requires
        short_digit_runs(text.spec_bytes()),
    ensures
        match parsed_json(text@) {
            Some(doc) => r matches Some(f) && f@ == feed_of(doc),
            None => r is None,
        },
{
    match parse_json(text) {
        Some(doc) => Some(message_feed_of(&doc)),
        None => None,
    }
}

/// A guild of the guild list from its parts: `None` exactly when the id's
/// text is not a number.
pub fn guild_entry(id_text: &[u8], name: Vec<u8>, icon: Vec<u8>) -> (r: Option<GuildEntry>)
    ensures
        r is Some <==> parsed_i64(id_text@) is Some,
        r matches Some(e) ==> Some(e.id) == parsed_i64(id_text@) && e.name@ == name@ && e.icon@ == icon@,
{
    match parse_i64(id_text) {
        Some(id) => Some(GuildEntry { id, name, icon }),
        None => None,
    }
}

/// A channel of a channel list from its parts: `None` exactly when the id's
/// text is not a number.
pub fn channel_entry(id_text: &[u8], name: Vec<u8>) -> (r: Option<ChannelEntry>)
    ensures
        r is Some <==> parsed_i64(id_text@) is Some,
        r matches Some(e) ==> Some(e.id) == parsed_i64(id_text@) && e.name@ == name@,
{
    match parse_i64(id_text) {
        Some(id) => Some(ChannelEntry { id, name }),
        None => None,
    }
}

/// The guild that an element of the guild list describes: its `id`, read
/// as a number, its `name` and its `icon`; `None` when the id is not a
/// number.
pub open spec fn guild_from(v: Option<Json>) -> Option<GuildEntryView> {
    match parsed_i64(text_of(member(v, "id"@))) {
        Some(id) => Some(
            GuildEntryView { id, name: text_of(member(v, "name"@)), icon: text_of(member(v, "icon"@)) },
        ),
        None => None,
    }
}

/// The channel that an element of a channel list describes: its `id`, read
/// as a number, and its `name`; `None` when the id is not a number.
pub open spec fn channel_from(v: Option<Json>) -> Option<ChannelEntryView> {
    match parsed_i64(text_of(member(v, "id"@))) {
        Some(id) => Some(ChannelEntryView { id, name: text_of(member(v, "name"@)) }),
        None => None,
    }
}

/// The guilds of a guild list; `None` when one of their ids is not a number.
pub open spec fn guild_list_of(doc: Json) -> Option<Seq<GuildEntryView>> {
    let d = Some(doc);
    if forall|i: int| 0 <= i < size(d) ==> #[trigger] guild_from(element(d, i)) is Some {
        Some(Seq::new(size(d), |i: int| guild_from(element(d, i)).unwrap()))
    } else {
        None
    }
}

/// The channels of a channel list; `None` when one of their ids is not a
/// number.
pub open spec fn channel_list_of(doc: Json) -> Option<Seq<ChannelEntryView>> {
    let d = Some(doc);
    if forall|i: int| 0 <= i < size(d) ==> #[trigger] channel_from(element(d, i)) is Some {
        Some(Seq::new(size(d), |i: int| channel_from(element(d, i)).unwrap()))
    } else {
        None
    }
}

/// The guilds read, as values.
pub open spec fn guilds_view(r: Option<Vec<GuildEntry>>) -> Option<Seq<GuildEntryView>> {
    match r {
        Some(v) => Some(v@.map_values(|e: GuildEntry| e@)),
        None => None,
    }
}

/// A guild's name and channels read, as values.
pub open spec fn details_view(r: Option<(Vec<u8>, Vec<ChannelEntry>)>) -> Option<(Seq<u8>, Seq<ChannelEntryView>)> {
    match r {
        Some((name, v)) => Some((name@, v@.map_values(|e: ChannelEntry| e@))),
        None => None,
    }
}

/// The guilds of a parsed guild list.
pub fn guild_entries_of(doc: &Json) -> (r: Option<Vec<GuildEntry>>)
    ensures
        guilds_view(r) == guild_list_of(*doc),
{
    let d = Some(doc);
    let n = size_of(d);
    let mut es: Vec<GuildEntry> = Vec::new();
    let mut i: usize = 0;
    while i < n
        invariant
            i <= n,
            n == size(Some(*doc)),
            value_of(d) == Some(*doc),
            forall|j: int| 0 <= j < i ==> #[trigger] guild_from(element(Some(*doc), j)) is Some,
            es@.map_values(|e: GuildEntry| e@) == Seq::new(
                i as nat,
                |j: int| guild_from(element(Some(*doc), j)).unwrap(),
            ),
        decreases n - i,
    {
        let g = element_of(d, i);
        let id_text = text_bytes(member_of(g, "id"));
        let name = text_bytes(member_of(g, "name"));
        let icon = text_bytes(member_of(g, "icon"));
        match guild_entry(id_text.as_slice(), name, icon) {
            Some(e) => {
                proof {
                    let before = es@.map_values(|e: GuildEntry| e@);
                    assert(before.push(e@) =~= es@.push(e).map_values(|e: GuildEntry| e@));
                }
                es.push(e);
            },
            None => {
                assert(guild_from(element(Some(*doc), i as int)) is None);
                return None;
            },
        }
        i = i + 1;
        proof {
            assert(es@.map_values(|e: GuildEntry| e@) =~= Seq::new(
                i as nat,
                |j: int| guild_from(element(Some(*doc), j)).unwrap(),
            ));
        }
    }
    Some(es)
}

/// The channels of a parsed channel list.
fn channel_entries_of(doc: &Json) -> (r: Option<Vec<ChannelEntry>>)
    ensures
        match r {
            Some(v) => channel_list_of(*doc) == Some(v@.map_values(|e: ChannelEntry| e@)),
            None => channel_list_of(*doc) is None,
        },
{
    let d = Some(doc);
    let n = size_of(d);
    let mut es: Vec<ChannelEntry> = Vec::new();
    let mut i: usize = 0;
    while i < n
        invariant
            i <= n,
            n == size(Some(*doc)),
            value_of(d) == Some(*doc),
            forall|j: int| 0 <= j < i ==> #[trigger] channel_from(element(Some(*doc), j)) is Some,
            es@.map_values(|e: ChannelEntry| e@) == Seq::new(
                i as nat,
                |j: int| channel_from(element(Some(*doc), j)).unwrap(),
            ),
        decreases n - i,
    {
        let c = element_of(d, i);
        let id_text = text_bytes(member_of(c, "id"));
        let name = text_bytes(member_of(c, "name"));
        match channel_entry(id_text.as_slice(), name) {
            Some(e) => {
                proof {
                    let before = es@.map_values(|e: ChannelEntry| e@);
                    assert(before.push(e@) =~= es@.push(e).map_values(|e: ChannelEntry| e@));
                }
                es.push(e);
            },
            None => {
                assert(channel_from(element(Some(*doc), i as int)) is None);
                return None;
            },
        }
        i = i + 1;
        proof {
            assert(es@.map_values(|e: ChannelEntry| e@) =~= Seq::new(
                i as nat,
                |j: int| channel_from(element(Some(*doc), j)).unwrap(),
            ));
        }
    }
    Some(es)
}

/// A guild's `name`, from the answer about the guild, and its channels,
/// from its channel list; `None` when a channel id is not a number.
pub open spec fn guild_details_of(guild: Json, channels: Json) -> Option<(Seq<u8>, Seq<ChannelEntryView>)> {
    match channel_list_of(channels) {
        Some(cs) => Some((text_of(member(Some(guild), "name"@)), cs)),
        None => None,
    }
}

/// A guild's name and channels from the parsed answers about it.
pub fn guild_details(guild: &Json, channels: &Json) -> (r: Option<(Vec<u8>, Vec<ChannelEntry>)>)
    ensures
        details_view(r) == guild_details_of(*guild, *channels),
{
    let name = text_bytes(member_of(Some(guild), "name"));
    match channel_entries_of(channels) {
        Some(es) => Some((name, es)),
        None => None,
    }
}

/// The guilds of an answer to a request for the guild list; `None` when the
/// answer is not JSON or an id is not a number.
pub fn guild_entries_from_json(text: &str) -> (r: Option<Vec<GuildEntry>>)
    requires
        short_digit_runs(text.spec_bytes()),
    ensures
        guilds_view(r) == match parsed_json(text@) {
            Some(doc) => guild_list_of(doc),
            None => None,
        },
{
    match parse_json(text) {
        Some(doc) => guild_entries_of(&doc),
        None => None,
    }
}

/// A guild's name and channels from the answers to the requests for the
/// guild and for its channel list; `None` when an answer is not JSON or a
/// channel id is not a number.
pub fn guild_details_from_json(guild: &str, channels: &str) -> (r: Option<(Vec<u8>, Vec<ChannelEntry>)>)
    requires
        short_digit_runs(guild.spec_bytes()),
        short_digit_runs(channels.spec_bytes()),
    ensures
        details_view(r) == match (parsed_json(guild@), parsed_json(channels@)) {
            (Some(g), Some(c)) => guild_details_of(g, c),
            _ => None,
        },
{
    let g = match parse_json(guild) {
        Some(d) => d,
        None => {
            return None;
        },
    };
    let c = match parse_json(channels) {
        Some(d) => d,
        None => {
            return None;
        },
    };
    guild_details(&g, &c)
}

/// Why the configuration gives no token.
#[derive(Debug, Clone, Copy, PartialEq, Eq, Structural)]
pub enum ConfigError {
    /// The configuration file is not JSON.
    NotJson,
    /// The configuration names no token.
    NoToken,
}

/// The account's token from a parsed configuration: its `token`, when it has
/// one.
pub open spec fn token_of(doc: Json) -> Result<Seq<u8>, ConfigError> {
    if has_member(Some(doc), "token"@) {
        Ok(text_of(member(Some(doc), "token"@)))
    } else {
        Err(ConfigError::NoToken)
    }
}

/// A token read, as a value.
pub open spec fn token_view(r: Result<Vec<u8>, ConfigError>) -> Result<Seq<u8>, ConfigError> {
    match r {
        Ok(t) => Ok(t@),
        Err(e) => Err(e),
    }
}

/// The account's token from a parsed configuration.
pub fn config_token_of(doc: &Json) -> (r: Result<Vec<u8>, ConfigError>)
    ensures
        token_view(r) == token_of(*doc),
{
    if has_member_of(Some(doc), "token") {
        Ok(text_bytes(member_of(Some(doc), "token")))
    } else {
        Err(ConfigError::NoToken)
    }
}

/// The account's token from the configuration file's text.
pub fn config_token(text: &str) -> (r: Result<Vec<u8>, ConfigError>)
    requires
        short_digit_runs(text.spec_bytes()),
    ensures
        token_view(r) == match parsed_json(text@) {
            Some(doc) => token_of(doc),
            None => Err(ConfigError::NotJson),
        },
{
    match parse_json(text) {
        Some(doc) => config_token_of(&doc),
        None => Err(ConfigError::NotJson),
    }
}

/// A channel list is read in the answer's order: it has one channel per
/// element, and the channel at each position has the `id` (read as a
/// number) and the `name` of the element at that position. It is read
/// exactly when every element's id is a number.
pub proof fn law_channels_keep_the_answer_order(doc: Json, i: int)
    requires
        0 <= i < size(Some(doc)),
    ensures
        channel_list_of(doc) is Some <==> forall|j: int|
            0 <= j < size(Some(doc)) ==> #[trigger] parsed_i64(text_of(member(element(Some(doc), j), "id"@)))
                is Some,
        channel_list_of(doc) matches Some(cs) ==> {
            &&& cs.len() == size(Some(doc))
            &&& Some(cs[i].id) == parsed_i64(text_of(member(element(Some(doc), i), "id"@)))
            &&& cs[i].name == text_of(member(element(Some(doc), i), "name"@))
        },
{
    let d = Some(doc);
    if forall|j: int| 0 <= j < size(d) ==> #[trigger] parsed_i64(text_of(member(element(d, j), "id"@))) is Some {
        assert forall|j: int| 0 <= j < size(d) implies #[trigger] channel_from(element(d, j)) is Some by {
            assert(parsed_i64(text_of(member(element(d, j), "id"@))) is Some);
        }
    }
    if forall|j: int| 0 <= j < size(d) ==> #[trigger] channel_from(element(d, j)) is Some {
        assert forall|j: int| 0 <= j < size(d) implies #[trigger] parsed_i64(
            text_of(member(element(d, j), "id"@)),
        ) is Some by {
            assert(channel_from(element(d, j)) is Some);
        }
    }
}

/// A guild list is read in the answer's order: it has one guild per
/// element, and the guild at each position has the `id` (read as a number),
/// the `name` and the `icon` of the element at that position. It is read
/// exactly when every element's id is a number.
pub proof fn law_guilds_keep_the_answer_order(doc: Json, i: int)
    requires
        0 <= i < size(Some(doc)),
    ensures
        guild_list_of(doc) is Some <==> forall|j: int|
            0 <= j < size(Some(doc)) ==> #[trigger] parsed_i64(text_of(member(element(Some(doc), j), "id"@)))
                is Some,
        guild_list_of(doc) matches Some(gs) ==> {
            &&& gs.len() == size(Some(doc))
            &&& Some(gs[i].id) == parsed_i64(text_of(member(element(Some(doc), i), "id"@)))
            &&& gs[i].name == text_of(member(element(Some(doc), i), "name"@))
            &&& gs[i].icon == text_of(member(element(Some(doc), i), "icon"@))
        },
{
    let d = Some(doc);
    if forall|j: int| 0 <= j < size(d) ==> #[trigger] parsed_i64(text_of(member(element(d, j), "id"@))) is Some {
        assert forall|j: int| 0 <= j < size(d) implies #[trigger] guild_from(element(d, j)) is Some by {
            assert(parsed_i64(text_of(member(element(d, j), "id"@))) is Some);
        }
    }
    if forall|j: int| 0 <= j < size(d) ==> #[trigger] guild_from(element(d, j)) is Some {
        assert forall|j: int| 0 <= j < size(d) implies #[trigger] parsed_i64(
            text_of(member(element(d, j), "id"@)),
        ) is Some by {
            assert(guild_from(element(d, j)) is Some);
        }
    }
}

/// Messages are read in the answer's order, newest first as the service
/// sends them: unless the answer is an error, there is one message per
/// element, and the message at each position has the `id`, the author's
/// `username` and the `content` of the element at that position.
pub proof fn law_messages_keep_the_answer_order(doc: Json, i: int)
    requires
        0 <= i < size(Some(doc)),
        !has_member(Some(doc), "code"@),
    ensures
        feed_of(doc) matches FeedView::Messages(ms) && ms.len() == size(Some(doc)) && ms[i].id == text_of(
            member(element(Some(doc), i), "id"@),
        ) && ms[i].author == text_of(member(member(element(Some(doc), i), "author"@), "username"@))
            && ms[i].content == text_of(member(element(Some(doc), i), "content"@)),
{
}

} // verus!
