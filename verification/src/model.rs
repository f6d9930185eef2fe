//! The client's state: guilds with their channels, each channel's messages
//! and message box, the command line, and the editing mode.
use vstd::prelude::*;

verus! {

/// The editing mode.
#[derive(Debug, Clone, Copy, PartialEq, Eq, Structural)]
pub enum State {
    /// Keys are commands; nothing is being typed.
    Control,
    /// A command line is being typed.
    Command,
    /// A message is being typed into the current channel.
    Message,
}

/// The message that a message answers, as its id was given: a number, or
/// text that is not one.
#[derive(Debug, Clone, Copy, PartialEq, Eq, Structural)]
pub enum ReplyRef {
    Id(i64),
    Malformed,
}

/// One message of a channel, as the screen shows it. Texts are UTF-8.
#[derive(Debug)]
pub struct Message {
    pub id: Vec<u8>,
    pub author: Vec<u8>,
    pub content: Vec<u8>,
    pub has_files: bool,
    pub reply: Option<ReplyRef>,
}

/// What the service answered when a channel's messages were asked for.
#[derive(Debug)]
pub enum MessageFeed {
    /// An error answer, with its message.
    Failure(Vec<u8>),
    /// The messages, newest first.
    Messages(Vec<Message>),
}

/// A channel of a guild.
#[derive(Debug)]
pub struct Channel {
    pub id: i64,
    pub name: Vec<u8>,
    pub messages: MessageFeed,
    pub message_box: Vec<u8>,
    pub message_cursor: usize,
}

/// A guild and its channels.
#[derive(Debug)]
pub struct Guild {
    pub id: i64,
    pub name: Vec<u8>,
    pub channels: Vec<Channel>,
    pub current_channel: usize,
    pub icon: Vec<u8>,
}

/// The whole client.
#[derive(Debug)]
pub struct Fokcord {
    pub state: State,
    pub guilds: Vec<Guild>,
    pub current_guild: usize,
    pub io: Vec<u8>,
    pub io_cursor: usize,
    pub exit: bool,
    pub token: Vec<u8>,
    pub icon_cache: Vec<(Vec<u8>, Vec<u8>)>,
}

#[verifier::ext_equal]
pub struct MessageView {
    pub id: Seq<u8>,
    pub author: Seq<u8>,
    pub content: Seq<u8>,
    pub has_files: bool,
    pub reply: Option<ReplyRef>,
}

#[verifier::ext_equal]
pub enum FeedView {
    Failure(Seq<u8>),
    Messages(Seq<MessageView>),
}

#[verifier::ext_equal]
pub struct ChannelView {
    pub id: i64,
    pub name: Seq<u8>,
    pub messages: FeedView,
    pub message_box: Seq<u8>,
    pub message_cursor: usize,
}

#[verifier::ext_equal]
pub struct GuildView {
    pub id: i64,
    pub name: Seq<u8>,
    pub channels: Seq<ChannelView>,
    pub current_channel: usize,
    pub icon: Seq<u8>,
}

#[verifier::ext_equal]
pub struct FokcordView {
    pub state: State,
    pub guilds: Seq<GuildView>,
    pub current_guild: usize,
    pub io: Seq<u8>,
    pub io_cursor: usize,
    pub exit: bool,
    pub token: Seq<u8>,
    pub icon_cache: Seq<(Seq<u8>, Seq<u8>)>,
}

impl View for Message {
    type V = MessageView;

    open spec fn view(&self) -> MessageView {
        MessageView {
            id: self.id@,
            author: self.author@,
            content: self.content@,
            has_files: self.has_files,
            reply: self.reply,
        }
    }
}

impl View for MessageFeed {
    type V = FeedView;

    open spec fn view(&self) -> FeedView {
        match self {
            MessageFeed::Failure(t) => FeedView::Failure(t@),
            MessageFeed::Messages(v) => FeedView::Messages(v@.map_values(|m: Message| m@)),
        }
    }
}

impl View for Channel {
    type V = ChannelView;

    open spec fn view(&self) -> ChannelView {
        ChannelView {
            id: self.id,
            name: self.name@,
            messages: self.messages@,
            message_box: self.message_box@,
            message_cursor: self.message_cursor,
        }
    }
}

impl View for Guild {
    type V = GuildView;

    open spec fn view(&self) -> GuildView {
        GuildView {
            id: self.id,
            name: self.name@,
            channels: self.channels@.map_values(|c: Channel| c@),
            current_channel: self.current_channel,
            icon: self.icon@,
        }
    }
}

impl View for Fokcord {
    type V = FokcordView;

    open spec fn view(&self) -> FokcordView {
        FokcordView {
            state: self.state,
            guilds: self.guilds@.map_values(|g: Guild| g@),
            current_guild: self.current_guild,
            io: self.io@,
            io_cursor: self.io_cursor,
            exit: self.exit,
            token: self.token@,
            icon_cache: self.icon_cache@.map_values(|e: (Vec<u8>, Vec<u8>)| (e.0@, e.1@)),
        }
    }
}

/// The current guild has a current channel.
pub open spec fn has_channel(f: FokcordView) -> bool {
    &&& f.current_guild < f.guilds.len()
    &&& f.guilds[f.current_guild as int].current_channel < f.guilds[f.current_guild as int].channels.len()
}

/// The current guild.
pub open spec fn guild_of(f: FokcordView) -> GuildView {
    f.guilds[f.current_guild as int]
}

/// The current channel of the current guild.
pub open spec fn channel_of(f: FokcordView) -> ChannelView {
    guild_of(f).channels[guild_of(f).current_channel as int]
}

/// The client with its current channel replaced.
pub open spec fn with_channel(f: FokcordView, ch: ChannelView) -> FokcordView {
    let g = guild_of(f);
    FokcordView {
        guilds: f.guilds.update(
            f.current_guild as int,
            GuildView { channels: g.channels.update(g.current_channel as int, ch), ..g },
        ),
        ..f
    }
}

} // verus!
