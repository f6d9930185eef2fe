//! The modal editor: how each key event changes the client, and what the
//! client must then do outside (send a message, run a command line).
use vstd::prelude::*;
use vstd::utf8::*;
use vstd::string::StringSliceAdditionalSpecFns;
use crate::keys::{KeyCode, KeyEvent};
use crate::model::{
    channel_of, guild_of, has_channel, with_channel, ChannelView, Fokcord, FokcordView, State,
};
use crate::text::{
    char_boundary, char_boundary_exec, char_bytes, copy_range, encode_char, insert_at, insert_bytes, lemma_char_bytes,
    lemma_insert_valid, lemma_prefix_valid, literal,
};

verus! {

/// What the client must do after a key event.
#[derive(Debug)]
pub enum Effect {
    Nothing,
    /// Post `content` to the channel `channel`.
    SendMessage { channel: i64, content: Vec<u8> },
    /// Run the command line `source` (the command line without its leading
    /// character).
    Evaluate { source: Vec<u8> },
}

#[verifier::ext_equal]
pub enum EffectView {
    Nothing,
    SendMessage { channel: i64, content: Seq<u8> },
    Evaluate { source: Seq<u8> },
}

impl View for Effect {
    type V = EffectView;

    open spec fn view(&self) -> EffectView {
        match self {
            Effect::Nothing => EffectView::Nothing,
            Effect::SendMessage { channel, content } => EffectView::SendMessage {
                channel: *channel,
                content: content@,
            },
            Effect::Evaluate { source } => EffectView::Evaluate { source: source@ },
        }
    }
}

/// The command line with `t` typed at its cursor.
pub open spec fn typed_io(f: FokcordView, t: Seq<u8>) -> FokcordView {
    FokcordView {
        io: insert_at(f.io, f.io_cursor as int, t),
        io_cursor: (f.io_cursor + t.len()) as usize,
        ..f
    }
}

/// The current message box with `t` typed at its cursor.
pub open spec fn typed_message(f: FokcordView, t: Seq<u8>) -> FokcordView {
    let ch = channel_of(f);
    with_channel(
        f,
        ChannelView {
            message_box: insert_at(ch.message_box, ch.message_cursor as int, t),
            message_cursor: (ch.message_cursor + t.len()) as usize,
            ..ch
        },
    )
}

/// The client in another mode.
pub open spec fn in_state(f: FokcordView, s: State) -> FokcordView {
    FokcordView { state: s, ..f }
}

/// `:` as text.
pub open spec fn colon_bytes() -> Seq<u8> {
    seq![0x3au8]
}

/// The command line without its first character.
pub open spec fn command_source(io: Seq<u8>) -> Seq<u8> {
    if io.len() == 0 {
        io
    } else {
        io.subrange(length_of_first_scalar(io), io.len() as int)
    }
}

/// Typing `t` in the current mode: into the command line or into the
/// message box.
pub open spec fn typed(f: FokcordView, t: Seq<u8>) -> FokcordView {
    if f.state == State::Command {
        typed_io(f, t)
    } else {
        typed_message(f, t)
    }
}

/// How a key event changes the client, and what must then be done.
pub open spec fn key_step(f: FokcordView, code: KeyCode) -> (FokcordView, EffectView) {
    match code {
        KeyCode::Colon => {
            if f.state == State::Control {
                (FokcordView { state: State::Command, io: colon_bytes(), io_cursor: 1, ..f }, EffectView::Nothing)
            } else {
                (typed(f, colon_bytes()), EffectView::Nothing)
            }
        },
        KeyCode::Backspace => {
            if f.state == State::Command {
                let left = f.io.subrange(0, f.io_cursor - 1);
                (
                    FokcordView {
                        io: left,
                        io_cursor: (f.io_cursor - 1) as usize,
                        state: if left.len() == 0 { State::Control } else { State::Command },
                        ..f
                    },
                    EffectView::Nothing,
                )
            } else if f.state == State::Message {
                let ch = channel_of(f);
                let left = ch.message_box.subrange(0, ch.message_cursor - 1);
                if left.len() > 0 {
                    (
                        with_channel(
                            f,
                            ChannelView {
                                message_box: left,
                                message_cursor: (ch.message_cursor - 1) as usize,
                                ..ch
                            },
                        ),
                        EffectView::Nothing,
                    )
                } else {
                    (in_state(f, State::Control), EffectView::Nothing)
                }
            } else {
                (f, EffectView::Nothing)
            }
        },
        KeyCode::Enter => {
            if f.state == State::Message {
                let ch = channel_of(f);
                (
                    in_state(with_channel(f, ChannelView { message_box: seq![], ..ch }), State::Control),
                    EffectView::SendMessage {
                        channel: ch.id,
                        content: ch.message_box.subrange(1, ch.message_box.len() as int),
                    },
                )
            } else if f.state == State::Command {
                (f, EffectView::Evaluate { source: command_source(f.io) })
            } else {
                (f, EffectView::Nothing)
            }
        },
        KeyCode::Escape => (in_state(f, State::Control), EffectView::Nothing),
        KeyCode::Char(c) => {
            if f.state == State::Control {
                if c == 'i' || c == 'a' {
                    let ch = channel_of(f);
                    (
                        in_state(
                            with_channel(f, ChannelView { message_box: seq![0x24u8], message_cursor: 1, ..ch }),
                            State::Message,
                        ),
                        EffectView::Nothing,
                    )
                } else {
                    (f, EffectView::Nothing)
                }
            } else {
                (typed(f, char_bytes(c)), EffectView::Nothing)
            }
        },
        _ => (f, EffectView::Nothing),
    }
}

/// Typing at the cursor of the current mode is possible: the cursor is at a
/// place where the text may be split, and the longer text still has a
/// length.
pub open spec fn can_type(f: FokcordView) -> bool {
    if f.state == State::Command {
        &&& char_boundary(f.io, f.io_cursor as int)
        &&& f.io.len() + 4 <= usize::MAX
    } else {
        &&& has_channel(f)
        &&& char_boundary(channel_of(f).message_box, channel_of(f).message_cursor as int)
        &&& channel_of(f).message_box.len() + 4 <= usize::MAX
    }
}

/// The places where the key event changes text are places where a `str`
/// may be split, the current channel exists where it is used, and the
/// cursors stay numbers.
pub open spec fn key_fits(f: FokcordView, code: KeyCode) -> bool {
    match code {
        KeyCode::Colon => f.state != State::Control ==> can_type(f),
        KeyCode::Backspace => {
            &&& f.state == State::Command ==> f.io_cursor >= 1 && char_boundary(f.io, f.io_cursor - 1)
            &&& f.state == State::Message ==> {
                &&& has_channel(f)
                &&& channel_of(f).message_cursor >= 1
                &&& char_boundary(channel_of(f).message_box, channel_of(f).message_cursor - 1)
            }
        },
        KeyCode::Enter => f.state == State::Message ==> has_channel(f) && char_boundary(
            channel_of(f).message_box,
            1,
        ),
        KeyCode::Char(c) => {
            if f.state == State::Control {
                (c == 'i' || c == 'a') ==> has_channel(f)
            } else {
                can_type(f)
            }
        },
        _ => true,
    }
}

/// The key event can be handled: the inputs on which handling it does not
/// fail. A command line that is run is UTF-8 text.
pub open spec fn can_handle(f: FokcordView, code: KeyCode) -> bool {
    &&& key_fits(f, code)
    &&& (code == KeyCode::Enter && f.state == State::Command) ==> valid_utf8(f.io)
}

impl Fokcord {
    /// Types `text` into the command line at its cursor.
    pub fn write_io(&mut self, text: &[u8])
        requires
            char_boundary(old(self).io@, old(self).io_cursor as int),
            old(self).io@.len() + text@.len() <= usize::MAX,
        ensures
            final(self)@ == typed_io(old(self)@, text@),
    {
        let left = insert_bytes(self.io.as_slice(), self.io_cursor, text);
        self.io_cursor = self.io_cursor + text.len();
        self.io = left;
        assert(self@ =~= typed_io(old(self)@, text@));
    }

    /// Replaces the text and cursor of the current message box.
    fn set_message_box(&mut self, text: Vec<u8>, cursor: usize)
        requires
            has_channel(old(self)@),
        ensures
            final(self)@ == with_channel(
                old(self)@,
                ChannelView { message_box: text@, message_cursor: cursor, ..channel_of(old(self)@) },
            ),
    {
        let g = self.current_guild;
        let c = self.guilds[g].current_channel;
        self.guilds[g].channels[c].message_box = text;
        self.guilds[g].channels[c].message_cursor = cursor;
        proof {
            let old_f = old(self)@;
            let ch = ChannelView { message_box: text@, message_cursor: cursor, ..channel_of(old_f) };
            assert(self.guilds@[g as int]@.channels =~= guild_of(old_f).channels.update(c as int, ch));
            assert(self@.guilds =~= with_channel(old_f, ch).guilds);
        }
        assert(self@ =~= with_channel(
            old(self)@,
            ChannelView { message_box: text@, message_cursor: cursor, ..channel_of(old(self)@) },
        ));
    }

    /// Types `text` into the current message box at its cursor.
    pub fn write_message(&mut self, text: &[u8])
        requires
            has_channel(old(self)@),
            char_boundary(channel_of(old(self)@).message_box, channel_of(old(self)@).message_cursor as int),
            channel_of(old(self)@).message_box.len() + text@.len() <= usize::MAX,
        ensures
            final(self)@ == typed_message(old(self)@, text@),
    {
        let g = self.current_guild;
        let c = self.guilds[g].current_channel;
        let cursor = self.guilds[g].channels[c].message_cursor;
        let left = insert_bytes(self.guilds[g].channels[c].message_box.as_slice(), cursor, text);
        self.set_message_box(left, cursor + text.len());
    }
}

/// The command line without its first character, as the text to run.
fn command_source_bytes(io: &Vec<u8>) -> (r: Vec<u8>)
    requires
        valid_utf8(io@),
    ensures
        r@ == command_source(io@),
{
    if io.len() == 0 {
        return Vec::new();
    }
    proof {
        assert(valid_first_scalar(io@));
    }
    let b = io[0];
    let width: usize = if b <= 0x7f {
        1
    } else if 0xc0 <= b && b <= 0xdf {
        2
    } else if 0xe0 <= b && b <= 0xef {
        3
    } else {
        4
    };
    copy_range(io.as_slice(), width, io.len())
}

/// Whether typing at the cursor of the current mode is possible.
fn can_type_exec(f: &Fokcord) -> (r: bool)
    ensures
        r == can_type(f@),
{
    if f.state == State::Command {
        char_boundary_exec(f.io.as_slice(), f.io_cursor) && f.io.len() <= usize::MAX - 4
    } else {
        if f.current_guild >= f.guilds.len() {
            return false;
        }
        let g = &f.guilds[f.current_guild];
        if g.current_channel >= g.channels.len() {
            return false;
        }
        let ch = &g.channels[g.current_channel];
        assert(ch@ == channel_of(f@));
        char_boundary_exec(ch.message_box.as_slice(), ch.message_cursor) && ch.message_box.len() <= usize::MAX - 4
    }
}

/// Whether there is a current channel.
fn has_channel_exec(f: &Fokcord) -> (r: bool)
    ensures
        r == has_channel(f@),
{
    f.current_guild < f.guilds.len() && f.guilds[f.current_guild].current_channel
        < f.guilds[f.current_guild].channels.len()
}

/// Whether the key event fits the client, exactly as `key_fits` says.
pub fn key_fits_exec(f: &Fokcord, code: KeyCode) -> (r: bool)
    ensures
        r == key_fits(f@, code),
{
    match code {
        KeyCode::Colon => f.state == State::Control || can_type_exec(f),
        KeyCode::Backspace => {
            match f.state {
                State::Control => true,
                State::Command => f.io_cursor >= 1 && char_boundary_exec(f.io.as_slice(), f.io_cursor - 1),
                State::Message => {
                    if !has_channel_exec(f) {
                        return false;
                    }
                    let ch = &f.guilds[f.current_guild].channels[f.guilds[f.current_guild].current_channel];
                    assert(ch@ == channel_of(f@));
                    ch.message_cursor >= 1 && char_boundary_exec(ch.message_box.as_slice(), ch.message_cursor - 1)
                },
            }
        },
        KeyCode::Enter => {
            if f.state != State::Message {
                return true;
            }
            if !has_channel_exec(f) {
                return false;
            }
            let ch = &f.guilds[f.current_guild].channels[f.guilds[f.current_guild].current_channel];
            assert(ch@ == channel_of(f@));
            char_boundary_exec(ch.message_box.as_slice(), 1)
        },
        KeyCode::Char(c) => {
            if f.state == State::Control {
                !(c == 'i' || c == 'a') || has_channel_exec(f)
            } else {
                can_type_exec(f)
            }
        },
        _ => true,
    }
}

/// Handles one key event: changes the client as the mode and the key call
/// for, and says what must then be done outside.
pub fn handle_key_event(fokcord: &mut Fokcord, event: KeyEvent) -> (effect: Effect)
    requires
        can_handle(old(fokcord)@, event.code),
    ensures
        final(fokcord)@ == key_step(old(fokcord)@, event.code).0,
        effect@ == key_step(old(fokcord)@, event.code).1,
{
    match event.code {
        KeyCode::Colon => {
            match fokcord.state {
                State::Control => {
                    fokcord.state = State::Command;
                    let mut io: Vec<u8> = Vec::new();
                    io.push(0x3a);
                    fokcord.io = io;
                    fokcord.io_cursor = 1;
                    assert(fokcord@ =~= key_step(old(fokcord)@, event.code).0);
                },
                State::Command => {
                    let mut colon: Vec<u8> = Vec::new();
                    colon.push(0x3a);
                    assert(colon@ =~= colon_bytes());
                    fokcord.write_io(colon.as_slice());
                },
                State::Message => {
                    let mut colon: Vec<u8> = Vec::new();
                    colon.push(0x3a);
                    assert(colon@ =~= colon_bytes());
                    fokcord.write_message(colon.as_slice());
                },
            }
            Effect::Nothing
        },
        KeyCode::Backspace => {
            match fokcord.state {
                State::Control => {},
                State::Command => {
                    let cursor = fokcord.io_cursor;
                    let mut left = copy_range(fokcord.io.as_slice(), 0, cursor - 1);
                    if cursor < left.len() {
                        let rest = copy_range(fokcord.io.as_slice(), cursor, fokcord.io.len());
                        left.extend_from_slice(rest.as_slice());
                    }
                    fokcord.io_cursor = cursor - 1;
                    if left.len() == 0 {
                        fokcord.state = State::Control;
                    }
                    fokcord.io = left;
                    assert(fokcord@ =~= key_step(old(fokcord)@, event.code).0);
                },
                State::Message => {
                    let g = fokcord.current_guild;
                    let c = fokcord.guilds[g].current_channel;
                    let cursor = fokcord.guilds[g].channels[c].message_cursor;
                    let mut left = copy_range(
                        fokcord.guilds[g].channels[c].message_box.as_slice(),
                        0,
                        cursor - 1,
                    );
                    if left.len() > 0 {
                        if cursor < left.len() {
                            let rest = copy_range(
                                fokcord.guilds[g].channels[c].message_box.as_slice(),
                                cursor,
                                fokcord.guilds[g].channels[c].message_box.len(),
                            );
                            left.extend_from_slice(rest.as_slice());
                        }
                        fokcord.set_message_box(left, cursor - 1);
                    } else {
                        fokcord.state = State::Control;
                        assert(fokcord@ =~= key_step(old(fokcord)@, event.code).0);
                    }
                },
            }
            Effect::Nothing
        },
        KeyCode::Enter => {
            match fokcord.state {
                State::Message => {
                    let g = fokcord.current_guild;
                    let c = fokcord.guilds[g].current_channel;
                    let channel = fokcord.guilds[g].channels[c].id;
                    let cursor = fokcord.guilds[g].channels[c].message_cursor;
                    let content = copy_range(
                        fokcord.guilds[g].channels[c].message_box.as_slice(),
                        1,
                        fokcord.guilds[g].channels[c].message_box.len(),
                    );
                    fokcord.set_message_box(Vec::new(), cursor);
                    fokcord.state = State::Control;
                    assert(fokcord@ =~= key_step(old(fokcord)@, event.code).0);
                    Effect::SendMessage { channel, content }
                },
                State::Command => {
                    let source = command_source_bytes(&fokcord.io);
                    Effect::Evaluate { source }
                },
                State::Control => Effect::Nothing,
            }
        },
        KeyCode::Escape => {
            fokcord.state = State::Control;
            assert(fokcord@ =~= key_step(old(fokcord)@, event.code).0);
            Effect::Nothing
        },
        KeyCode::Arrow(_) => Effect::Nothing,
        KeyCode::Char(c) => {
            match fokcord.state {
                State::Control => {
                    if c == 'i' || c == 'a' {
                        fokcord.state = State::Message;
                        let mut dollar: Vec<u8> = Vec::new();
                        dollar.push(0x24);
                        fokcord.set_message_box(dollar, 1);
                        assert(fokcord@ =~= key_step(old(fokcord)@, event.code).0);
                    }
                },
                State::Command => {
                    let t = encode_char(c);
                    fokcord.write_io(t.as_slice());
                },
                State::Message => {
                    let t = encode_char(c);
                    fokcord.write_message(t.as_slice());
                },
            }
            Effect::Nothing
        },
        _ => Effect::Nothing,
    }
}

/// After a command line ran: the client that the program gave back, if it
/// gave one, takes the place of this one; then the program's output becomes
/// the command line (its cursor stays where it was) and the mode returns to
/// Control.
pub fn finish_command(fokcord: &mut Fokcord, program: Option<Fokcord>, output: Vec<u8>)
    ensures
        final(fokcord)@ == (FokcordView {
            io: output@,
            state: State::Control,
            ..match program {
                Some(p) => p@,
                None => old(fokcord)@,
            }
        }),
{
    if let Some(p) = program {
        *fokcord = p;
    }
    fokcord.io = output;
    fokcord.state = State::Control;
}

/// The text that a command line leaves when running it failed.
pub open spec fn failed_run_text() -> Seq<u8> {
    "Foklang panicked.".spec_bytes()
}

/// After a command line failed to run: the client stays as it was, the
/// command line reads that the run failed, and the mode returns to Control.
pub fn command_failed(fokcord: &mut Fokcord)
    ensures
        final(fokcord)@ == (FokcordView { io: failed_run_text(), state: State::Control, ..old(fokcord)@ }),
{
    finish_command(fokcord, None, literal("Foklang panicked."));
}

/// The editing state is consistent: the command line and the current message
/// box are UTF-8 text, and the cursor of the mode being typed in sits where
/// the text may be split.
pub open spec fn editing_ok(f: FokcordView) -> bool {
    &&& valid_utf8(f.io)
    &&& f.state == State::Command ==> char_boundary(f.io, f.io_cursor as int)
    &&& has_channel(f) ==> valid_utf8(channel_of(f).message_box)
    &&& f.state == State::Message ==> {
        &&& has_channel(f)
        &&& char_boundary(channel_of(f).message_box, channel_of(f).message_cursor as int)
    }
}

proof fn lemma_with_channel(f: FokcordView, ch: ChannelView)
    requires
        has_channel(f),
    ensures
        has_channel(with_channel(f, ch)),
        channel_of(with_channel(f, ch)) == ch,
        with_channel(f, ch).io == f.io,
        with_channel(f, ch).state == f.state,
        with_channel(f, ch).io_cursor == f.io_cursor,
{
}

proof fn lemma_ascii_valid(b: u8)
    requires
        b < 0x80,
    ensures
        valid_utf8(seq![b]),
{
    reveal_with_fuel(valid_utf8, 2);
    assert(pop_first_scalar(seq![b]) =~= Seq::<u8>::empty());
}

proof fn lemma_typed_ok(f: FokcordView, t: Seq<u8>)
    requires
        editing_ok(f),
        f.state != State::Control,
        can_type(f),
        valid_utf8(t),
        t.len() <= 4,
    ensures
        editing_ok(typed(f, t)),
{
    if f.state == State::Command {
        lemma_insert_valid(f.io, f.io_cursor as int, t);
    } else {
        let ch = channel_of(f);
        lemma_insert_valid(ch.message_box, ch.message_cursor as int, t);
        let ch2 = ChannelView {
            message_box: insert_at(ch.message_box, ch.message_cursor as int, t),
            message_cursor: (ch.message_cursor + t.len()) as usize,
            ..ch
        };
        lemma_with_channel(f, ch2);
    }
}

/// Every key event keeps the editing state consistent: text stays UTF-8 and
/// the cursor of the mode being typed in stays where the text may be split.
pub proof fn law_key_step_keeps_editing_ok(f: FokcordView, code: KeyCode)
    requires
        editing_ok(f),
        can_handle(f, code),
    ensures
        editing_ok(key_step(f, code).0),
{
    lemma_ascii_valid(0x3a);
    assert(colon_bytes() =~= seq![0x3au8]);
    match code {
        KeyCode::Colon => {
            if f.state != State::Control {
                lemma_typed_ok(f, colon_bytes());
            }
        },
        KeyCode::Backspace => {
            if f.state == State::Command {
                lemma_prefix_valid(f.io, f.io_cursor - 1);
            } else if f.state == State::Message {
                let ch = channel_of(f);
                lemma_prefix_valid(ch.message_box, ch.message_cursor - 1);
                let left = ch.message_box.subrange(0, ch.message_cursor - 1);
                if left.len() > 0 {
                    lemma_with_channel(
                        f,
                        ChannelView { message_box: left, message_cursor: (ch.message_cursor - 1) as usize, ..ch },
                    );
                }
            }
        },
        KeyCode::Enter => {
            if f.state == State::Message {
                let ch = channel_of(f);
                lemma_with_channel(f, ChannelView { message_box: seq![], ..ch });
            }
        },
        KeyCode::Char(c) => {
            if f.state == State::Control {
                if c == 'i' || c == 'a' {
                    let ch = channel_of(f);
                    lemma_ascii_valid(0x24);
                    lemma_with_channel(f, ChannelView { message_box: seq![0x24u8], message_cursor: 1, ..ch });
                }
            } else {
                lemma_char_bytes(c);
                lemma_typed_ok(f, char_bytes(c));
            }
        },
        _ => {},
    }
}

/// The prompts stay in place: while a command line is typed it starts with
/// `:` and the cursor is after it; while a message is typed its box starts
/// with `$` and the cursor is after it.
pub open spec fn prompts_ok(f: FokcordView) -> bool {
    &&& f.state == State::Command ==> f.io.len() >= 1 && f.io[0] == 0x3a && f.io_cursor >= 1
    &&& f.state == State::Message ==> {
        &&& has_channel(f)
        &&& channel_of(f).message_box.len() >= 1
        &&& channel_of(f).message_box[0] == 0x24
        &&& channel_of(f).message_cursor >= 1
    }
}

/// Every key event keeps the prompts in place.
pub proof fn law_key_step_keeps_prompts(f: FokcordView, code: KeyCode)
    requires
        prompts_ok(f),
        can_handle(f, code),
    ensures
        prompts_ok(key_step(f, code).0),
{
    match code {
        KeyCode::Colon => {
            if f.state == State::Command {
                assert(insert_at(f.io, f.io_cursor as int, colon_bytes())[0] == f.io[0]);
            }
            if f.state == State::Message {
                let ch = channel_of(f);
                assert(insert_at(ch.message_box, ch.message_cursor as int, colon_bytes())[0] == ch.message_box[0]);
                let ch2 = ChannelView {
                    message_box: insert_at(ch.message_box, ch.message_cursor as int, colon_bytes()),
                    message_cursor: (ch.message_cursor + colon_bytes().len()) as usize,
                    ..ch
                };
                lemma_with_channel(f, ch2);
                assert(key_step(f, code).0 == with_channel(f, ch2));
                assert(ch2.message_box.len() == ch.message_box.len() + 1);
            }
        },
        KeyCode::Backspace => {
            if f.state == State::Command {
                let left = f.io.subrange(0, f.io_cursor - 1);
                if left.len() > 0 {
                    assert(left[0] == f.io[0]);
                }
            }
            if f.state == State::Message {
                let ch = channel_of(f);
                let left = ch.message_box.subrange(0, ch.message_cursor - 1);
                if left.len() > 0 {
                    assert(left[0] == ch.message_box[0]);
                    lemma_with_channel(
                        f,
                        ChannelView { message_box: left, message_cursor: (ch.message_cursor - 1) as usize, ..ch },
                    );
                }
            }
        },
        KeyCode::Char(c) => {
            let ch = channel_of(f);
            if f.state == State::Control {
                if c == 'i' || c == 'a' {
                    lemma_with_channel(f, ChannelView { message_box: seq![0x24u8], message_cursor: 1, ..ch });
                }
            } else if f.state == State::Command {
                lemma_char_bytes(c);
                assert(insert_at(f.io, f.io_cursor as int, char_bytes(c))[0] == f.io[0]);
            } else if f.state == State::Message {
                lemma_char_bytes(c);
                let t = char_bytes(c);
                assert(insert_at(ch.message_box, ch.message_cursor as int, t)[0] == ch.message_box[0]);
                lemma_with_channel(
                    f,
                    ChannelView {
                        message_box: insert_at(ch.message_box, ch.message_cursor as int, t),
                        message_cursor: (ch.message_cursor + t.len()) as usize,
                        ..ch
                    },
                );
            }
        },
        _ => {},
    }
}

/// While a message is typed, Enter can always send it: the box's first
/// byte, the `$`, is a whole character.
pub proof fn law_enter_always_sends(f: FokcordView)
    requires
        editing_ok(f),
        prompts_ok(f),
        f.state == State::Message,
    ensures
        can_handle(f, KeyCode::Enter),
{
    let b = channel_of(f).message_box;
    if b.len() > 1 {
        assert(valid_first_scalar(b));
        assert(length_of_first_scalar(b) == 1);
        assert(valid_utf8(pop_first_scalar(b)));
        assert(pop_first_scalar(b).len() > 0);
        assert(valid_first_scalar(pop_first_scalar(b)));
        assert(pop_first_scalar(b)[0] == b[1]);
    }
}

/// In Control mode the only keys that do anything are `:`, `i` and `a`
/// (and Escape, which keeps Control mode): every other key leaves the client
/// as it was and asks for nothing.
pub proof fn law_control_mode_ignores_other_keys(f: FokcordView, code: KeyCode)
    requires
        f.state == State::Control,
        code != KeyCode::Colon,
        code != KeyCode::Char('i'),
        code != KeyCode::Char('a'),
    ensures
        key_step(f, code).0 == f,
        key_step(f, code).1 == EffectView::Nothing,
{
    assert(in_state(f, State::Control) =~= f);
}

/// Backspace undoes typing a one-byte character at the end of the command
/// line: the command line and its cursor are as before.
pub proof fn law_backspace_undoes_typing(f: FokcordView, c: char)
    requires
        f.state == State::Command,
        f.io_cursor == f.io.len(),
        (c as u32) < 0x80,
        can_handle(f, KeyCode::Char(c)),
    ensures
        ({
            let typed = key_step(f, KeyCode::Char(c)).0;
            let back = key_step(typed, KeyCode::Backspace).0;
            &&& back.io == f.io
            &&& back.io_cursor == f.io_cursor
            &&& f.io.len() > 0 ==> back.state == State::Command
        }),
{
    lemma_char_bytes(c);
    let typed = key_step(f, KeyCode::Char(c)).0;
    assert(typed.io =~= f.io.push((c as u32) as u8));
    assert(typed.io.subrange(0, typed.io_cursor - 1) =~= f.io);
}

/// Outside Control mode the `:` key types a colon, exactly as the `:`
/// character does.
pub proof fn law_colon_types_like_its_character(f: FokcordView)
    requires
        f.state != State::Control,
    ensures
        key_step(f, KeyCode::Colon) == key_step(f, KeyCode::Char(':')),
{
    lemma_char_bytes(':');
    assert(char_bytes(':') =~= colon_bytes());
}

/// Typing two texts one after the other at the command line's cursor is
/// typing them joined.
pub proof fn law_typing_joined_texts(f: FokcordView, a: Seq<u8>, b: Seq<u8>)
    requires
        f.io_cursor <= f.io.len(),
        f.io_cursor + a.len() + b.len() <= usize::MAX,
    ensures
        typed_io(typed_io(f, a), b) == typed_io(f, a + b),
{
    let c = f.io_cursor as int;
    let once = insert_at(f.io, c, a);
    assert(once.subrange(0, c + a.len()) =~= f.io.subrange(0, c) + a);
    assert(once.subrange(c + a.len(), once.len() as int) =~= f.io.subrange(c, f.io.len() as int));
    assert(insert_at(once, c + a.len(), b) =~= insert_at(f.io, c, a + b));
}

/// Outside Control mode, a character key types that character, whatever it
/// is: its UTF-8 encoding goes in at the cursor of the text being typed,
/// the cursor moves past it, and the mode stays.
pub proof fn law_character_keys_type_the_character(f: FokcordView, c: char)
    requires
        f.state != State::Control,
        can_type(f),
    ensures
        ({
            let g = key_step(f, KeyCode::Char(c)).0;
            &&& g.state == f.state
            &&& key_step(f, KeyCode::Char(c)).1 == EffectView::Nothing
            &&& f.state == State::Command ==> {
                &&& g.io == insert_at(f.io, f.io_cursor as int, char_bytes(c))
                &&& g.io_cursor == f.io_cursor + char_bytes(c).len()
            }
            &&& f.state == State::Message ==> {
                &&& has_channel(g)
                &&& channel_of(g).message_box == insert_at(
                    channel_of(f).message_box,
                    channel_of(f).message_cursor as int,
                    char_bytes(c),
                )
                &&& channel_of(g).message_cursor == channel_of(f).message_cursor + char_bytes(c).len()
                &&& g.io == f.io
            }
        }),
{
    lemma_char_bytes(c);
    if f.state == State::Message {
        let ch = channel_of(f);
        let t = char_bytes(c);
        lemma_with_channel(
            f,
            ChannelView {
                message_box: insert_at(ch.message_box, ch.message_cursor as int, t),
                message_cursor: (ch.message_cursor + t.len()) as usize,
                ..ch
            },
        );
    }
}

} // verus!
