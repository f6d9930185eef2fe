//! Bringing the client up to date with what the service answers: the list
//! of guilds, a guild's name and channels, and a channel's messages.
use vstd::prelude::*;
use crate::model::{
    guild_of, ChannelView, Channel, FeedView, Fokcord, FokcordView, Guild, GuildView, MessageFeed, State,
};
use crate::text::copy_range;

verus! {

/// A guild as the guild list names it.
#[derive(Debug)]
pub struct GuildEntry {
    pub id: i64,
    pub name: Vec<u8>,
    pub icon: Vec<u8>,
}

/// A channel as a guild's channel list names it.
#[derive(Debug)]
pub struct ChannelEntry {
    pub id: i64,
    pub name: Vec<u8>,
}

pub struct GuildEntryView {
    pub id: i64,
    pub name: Seq<u8>,
    pub icon: Seq<u8>,
}

pub struct ChannelEntryView {
    pub id: i64,
    pub name: Seq<u8>,
}

impl View for GuildEntry {
    type V = GuildEntryView;

    open spec fn view(&self) -> GuildEntryView {
        GuildEntryView { id: self.id, name: self.name@, icon: self.icon@ }
    }
}

impl View for ChannelEntry {
    type V = ChannelEntryView;

    open spec fn view(&self) -> ChannelEntryView {
        ChannelEntryView { id: self.id, name: self.name@ }
    }
}

/// The guilds after a new guild list: when the list is as long as before,
/// each guild takes its id, name and icon from the list and keeps its
/// channels and selected channel; otherwise the guilds are the list's, with
/// no channels.
pub open spec fn merged_guilds(old: Seq<GuildView>, es: Seq<GuildEntryView>) -> Seq<GuildView> {
    if old.len() == es.len() {
        Seq::new(
            es.len(),
            |i: int|
                GuildView {
                    id: es[i].id,
                    name: es[i].name,
                    channels: old[i].channels,
                    current_channel: old[i].current_channel,
                    icon: es[i].icon,
                },
        )
    } else {
        Seq::new(
            es.len(),
            |i: int|
                GuildView {
                    id: es[i].id,
                    name: es[i].name,
                    channels: seq![],
                    current_channel: 0,
                    icon: es[i].icon,
                },
        )
    }
}

/// The channels after a new channel list: when the list is as long as
/// before, each channel takes its id and name from the list and keeps its
/// message box and cursor; otherwise the channels are the list's, with empty
/// message boxes. Either way no channel has messages until they are fetched.
pub open spec fn merged_channels(old: Seq<ChannelView>, es: Seq<ChannelEntryView>) -> Seq<ChannelView> {
    if old.len() == es.len() {
        Seq::new(
            es.len(),
            |i: int|
                ChannelView {
                    id: es[i].id,
                    name: es[i].name,
                    messages: FeedView::Messages(seq![]),
                    message_box: old[i].message_box,
                    message_cursor: old[i].message_cursor,
                },
        )
    } else {
        Seq::new(
            es.len(),
            |i: int|
                ChannelView {
                    id: es[i].id,
                    name: es[i].name,
                    messages: FeedView::Messages(seq![]),
                    message_box: seq![],
                    message_cursor: 0,
                },
        )
    }
}

fn empty_feed() -> (r: MessageFeed)
    ensures
        r@ == FeedView::Messages(seq![]),
{
    let v: Vec<crate::model::Message> = Vec::new();
    let r = MessageFeed::Messages(v);
    assert(r@ =~= FeedView::Messages(seq![]));
    r
}

fn fresh_guild(e: &GuildEntry) -> (g: Guild)
    ensures
        g@ == (GuildView { id: e.id, name: e@.name, channels: seq![], current_channel: 0, icon: e@.icon }),
{
    let g = Guild {
        id: e.id,
        name: copy_range(e.name.as_slice(), 0, e.name.len()),
        channels: Vec::new(),
        current_channel: 0,
        icon: copy_range(e.icon.as_slice(), 0, e.icon.len()),
    };
    assert(g@ =~= GuildView { id: e.id, name: e@.name, channels: seq![], current_channel: 0, icon: e@.icon });
    g
}

fn fresh_channel(e: &ChannelEntry) -> (c: Channel)
    ensures
        c@ == (ChannelView {
            id: e.id,
            name: e@.name,
            messages: FeedView::Messages(seq![]),
            message_box: seq![],
            message_cursor: 0,
        }),
{
    let c = Channel {
        id: e.id,
        name: copy_range(e.name.as_slice(), 0, e.name.len()),
        messages: empty_feed(),
        message_box: Vec::new(),
        message_cursor: 0,
    };
    assert(c@ =~= ChannelView {
        id: e.id,
        name: e@.name,
        messages: FeedView::Messages(seq![]),
        message_box: seq![],
        message_cursor: 0,
    });
    c
}

/// Takes in a new channel list, as `merged_channels` says.
fn merge_channel_list(chans: &mut Vec<Channel>, entries: &Vec<ChannelEntry>)
    ensures
        final(chans)@.map_values(|c: Channel| c@) == merged_channels(
            old(chans)@.map_values(|c: Channel| c@),
            entries@.map_values(|e: ChannelEntry| e@),
        ),
{
    let ghost es = entries@.map_values(|e: ChannelEntry| e@);
    let ghost old_c = old(chans)@.map_values(|c: Channel| c@);
    if chans.len() == entries.len() {
        let mut i: usize = 0;
        while i < entries.len()
            invariant
                i <= entries@.len(),
                chans@.len() == entries@.len(),
                es == entries@.map_values(|e: ChannelEntry| e@),
                old_c.len() == es.len(),
                forall|j: int| 0 <= j < i ==> #[trigger] chans@[j]@ == merged_channels(old_c, es)[j],
                forall|j: int| i <= j < es.len() ==> #[trigger] chans@[j]@ == old_c[j],
            decreases entries@.len() - i,
        {
            let ghost before_v = chans@;
            assert(chans@[i as int]@ == old_c[i as int]);
            assert(es[i as int] == entries@[i as int]@);
            chans[i].id = entries[i].id;
            chans[i].name = copy_range(entries[i].name.as_slice(), 0, entries[i].name.len());
            chans[i].messages = empty_feed();
            proof {
                assert(chans@[i as int]@ =~= merged_channels(old_c, es)[i as int]);
                assert(chans@ =~= before_v.update(i as int, chans@[i as int]));
            }
            i = i + 1;
        }
        assert(chans@.map_values(|c: Channel| c@) =~= merged_channels(old_c, es));
    } else {
        let mut fresh: Vec<Channel> = Vec::new();
        let mut i: usize = 0;
        while i < entries.len()
            invariant
                i <= entries@.len(),
                es == entries@.map_values(|e: ChannelEntry| e@),
                old_c.len() != es.len(),
                fresh@.len() == i,
                forall|j: int| 0 <= j < i ==> #[trigger] fresh@[j]@ == merged_channels(old_c, es)[j],
            decreases entries@.len() - i,
        {
            assert(es[i as int] == entries@[i as int]@);
            fresh.push(fresh_channel(&entries[i]));
            i = i + 1;
        }
        *chans = fresh;
        assert(chans@.map_values(|c: Channel| c@) =~= merged_channels(old_c, es));
    }
}

impl Fokcord {
    /// A client that has fetched nothing yet.
    pub fn new(token: Vec<u8>) -> (f: Fokcord)
        ensures
            f@ == (FokcordView {
                state: State::Control,
                guilds: seq![],
                current_guild: 0,
                io: seq![],
                io_cursor: 0,
                exit: false,
                token: token@,
                icon_cache: seq![],
            }),
    {
        let f = Fokcord {
            state: State::Control,
            guilds: Vec::new(),
            current_guild: 0,
            io: Vec::new(),
            io_cursor: 0,
            exit: false,
            token,
            icon_cache: Vec::new(),
        };
        assert(f@ =~= FokcordView {
            state: State::Control,
            guilds: seq![],
            current_guild: 0,
            io: seq![],
            io_cursor: 0,
            exit: false,
            token: token@,
            icon_cache: seq![],
        });
        f
    }

    /// Takes in a new guild list, as `merged_guilds` says.
    pub fn apply_guild_list(&mut self, entries: &Vec<GuildEntry>)
        ensures
            final(self)@ == (FokcordView {
                guilds: merged_guilds(old(self)@.guilds, entries@.map_values(|e: GuildEntry| e@)),
                ..old(self)@
            }),
    {
        let ghost es = entries@.map_values(|e: GuildEntry| e@);
        let ghost old_g = old(self)@.guilds;
        if self.guilds.len() == entries.len() {
            let mut i: usize = 0;
            while i < entries.len()
                invariant
                    i <= entries@.len(),
                    self.guilds@.len() == entries@.len(),
                    es == entries@.map_values(|e: GuildEntry| e@),
                    old_g.len() == es.len(),
                    self@ == (FokcordView { guilds: self@.guilds, ..old(self)@ }),
                    forall|j: int| 0 <= j < i ==> #[trigger] self@.guilds[j] == merged_guilds(old_g, es)[j],
                    forall|j: int| i <= j < es.len() ==> #[trigger] self@.guilds[j] == old_g[j],
                decreases entries@.len() - i,
            {
                let ghost before = self@.guilds;
                let ghost before_v = self.guilds@;
                assert(before[i as int] == old_g[i as int]);
                assert(es[i as int] == entries@[i as int]@);
                self.guilds[i].id = entries[i].id;
                self.guilds[i].name = copy_range(entries[i].name.as_slice(), 0, entries[i].name.len());
                self.guilds[i].icon = copy_range(entries[i].icon.as_slice(), 0, entries[i].icon.len());
                proof {
                    assert(self@.guilds[i as int].channels == before[i as int].channels);
                    assert(self@.guilds[i as int] =~= merged_guilds(old_g, es)[i as int]);
                    assert(self.guilds@ =~= before_v.update(i as int, self.guilds@[i as int]));
                    assert forall|j: int| 0 <= j < self@.guilds.len() && j != i implies #[trigger] self@.guilds[j]
                        == before[j] by {
                        assert(self.guilds@[j] == before_v[j]);
                    }
                }
                i = i + 1;
            }
            assert(self@.guilds =~= merged_guilds(old_g, es));
            assert(self@ =~= FokcordView { guilds: merged_guilds(old_g, es), ..old(self)@ });
        } else {
            let mut fresh: Vec<Guild> = Vec::new();
            let mut i: usize = 0;
            while i < entries.len()
                invariant
                    i <= entries@.len(),
                    es == entries@.map_values(|e: GuildEntry| e@),
                    old_g.len() != es.len(),
                    fresh@.len() == i,
                    forall|j: int| 0 <= j < i ==> #[trigger] fresh@[j]@ == merged_guilds(old_g, es)[j],
                decreases entries@.len() - i,
            {
                assert(es[i as int] == entries@[i as int]@);
                fresh.push(fresh_guild(&entries[i]));
                i = i + 1;
            }
            self.guilds = fresh;
            assert(self@.guilds =~= merged_guilds(old_g, es));
            assert(self@ =~= FokcordView { guilds: merged_guilds(old_g, es), ..old(self)@ });
        }
    }
}

impl Fokcord {
    /// Takes in a guild's new name and channel list: the channels as
    /// `merged_channels` says.
    pub fn apply_guild_details(&mut self, index: usize, name: Vec<u8>, channels: &Vec<ChannelEntry>)
        requires
            index < old(self)@.guilds.len(),
        ensures
            final(self)@ == (FokcordView {
                guilds: old(self)@.guilds.update(
                    index as int,
                    GuildView {
                        name: name@,
                        channels: merged_channels(
                            old(self)@.guilds[index as int].channels,
                            channels@.map_values(|e: ChannelEntry| e@),
                        ),
                        ..old(self)@.guilds[index as int]
                    },
                ),
                ..old(self)@
            }),
    {
        let ghost before_v = self.guilds@;
        self.guilds[index].name = name;
        merge_channel_list(&mut self.guilds[index].channels, channels);
        proof {
            assert(self.guilds@ =~= before_v.update(index as int, self.guilds@[index as int]));
            assert(self@.guilds =~= old(self)@.guilds.update(
                index as int,
                GuildView {
                    name: name@,
                    channels: merged_channels(
                        old(self)@.guilds[index as int].channels,
                        channels@.map_values(|e: ChannelEntry| e@),
                    ),
                    ..old(self)@.guilds[index as int]
                },
            ));
        }
        assert(self@ =~= FokcordView { guilds: self@.guilds, ..old(self)@ });
    }

    /// Takes in what the service answered for the messages of channel
    /// `channel` of guild `guild`.
    pub fn apply_messages(&mut self, guild: usize, channel: usize, feed: MessageFeed)
        requires
            guild < old(self)@.guilds.len(),
            channel < old(self)@.guilds[guild as int].channels.len(),
        ensures
            final(self)@ == (FokcordView {
                guilds: old(self)@.guilds.update(
                    guild as int,
                    GuildView {
                        channels: old(self)@.guilds[guild as int].channels.update(
                            channel as int,
                            ChannelView {
                                messages: feed@,
                                ..old(self)@.guilds[guild as int].channels[channel as int]
                            },
                        ),
                        ..old(self)@.guilds[guild as int]
                    },
                ),
                ..old(self)@
            }),
    {
        let ghost before_v = self.guilds@;
        let ghost before_c = self.guilds@[guild as int].channels@;
        let ghost fv = feed@;
        self.guilds[guild].channels[channel].messages = feed;
        proof {
            assert(self.guilds@ =~= before_v.update(guild as int, self.guilds@[guild as int]));
            assert(self.guilds@[guild as int].channels@ =~= before_c.update(
                channel as int,
                self.guilds@[guild as int].channels@[channel as int],
            ));
            let g2 = GuildView {
                channels: old(self)@.guilds[guild as int].channels.update(
                    channel as int,
                    ChannelView { messages: fv, ..old(self)@.guilds[guild as int].channels[channel as int] },
                ),
                ..old(self)@.guilds[guild as int]
            };
            assert(self@.guilds[guild as int].channels =~= g2.channels);
            assert(self@.guilds =~= old(self)@.guilds.update(guild as int, g2));
        }
        assert(self@ =~= FokcordView { guilds: self@.guilds, ..old(self)@ });
    }
}

/// Taking in the same guild list twice changes nothing the second time.
pub proof fn law_guild_list_idempotent(old: Seq<GuildView>, es: Seq<GuildEntryView>)
    ensures
        merged_guilds(merged_guilds(old, es), es) == merged_guilds(old, es),
{
    assert(merged_guilds(merged_guilds(old, es), es) =~= merged_guilds(old, es));
}

/// Taking in the same channel list twice changes nothing the second time.
pub proof fn law_channel_list_idempotent(old: Seq<ChannelView>, es: Seq<ChannelEntryView>)
    ensures
        merged_channels(merged_channels(old, es), es) == merged_channels(old, es),
{
    assert(merged_channels(merged_channels(old, es), es) =~= merged_channels(old, es));
}

/// A guild list as long as the current one keeps every guild's channels and
/// selected channel, so what was typed in the message boxes survives.
pub proof fn law_guild_list_keeps_channels(old: Seq<GuildView>, es: Seq<GuildEntryView>, i: int)
    requires
        old.len() == es.len(),
        0 <= i < old.len(),
    ensures
        merged_guilds(old, es)[i].channels == old[i].channels,
        merged_guilds(old, es)[i].current_channel == old[i].current_channel,
{
}

/// What the client asks the service for while it refreshes.
#[derive(Debug, Clone, Copy, PartialEq, Eq, Structural)]
pub enum Fetch {
    /// The list of guilds.
    GuildList,
    /// A guild's name and channel list, by the guild's index.
    Guild(usize),
    /// A channel's messages, by the guild's and the channel's index.
    Messages(usize, usize),
}

/// What a refresh fetches after `done` was fetched and taken in: after the
/// guild list, the current guild; after any guild, the messages of the
/// current guild's current channel; after messages, nothing. With no
/// current guild there is no channel to name.
pub open spec fn next_fetch(f: FokcordView, done: Fetch) -> Option<Fetch> {
    match done {
        Fetch::GuildList => Some(Fetch::Guild(f.current_guild)),
        Fetch::Guild(_) => if f.current_guild < f.guilds.len() {
            Some(Fetch::Messages(f.current_guild, guild_of(f).current_channel))
        } else {
            None
        },
        Fetch::Messages(_, _) => None,
    }
}

impl Fokcord {
    /// What to fetch next in a refresh, once `done` was fetched and taken in.
    pub fn next_fetch(&self, done: Fetch) -> (r: Option<Fetch>)
        ensures
            r == next_fetch(self@, done),
    {
        match done {
            Fetch::GuildList => Some(Fetch::Guild(self.current_guild)),
            Fetch::Guild(_) => if self.current_guild < self.guilds.len() {
                Some(Fetch::Messages(self.current_guild, self.guilds[self.current_guild].current_channel))
            } else {
                None
            },
            Fetch::Messages(_, _) => None,
        }
    }
}

} // verus!
