//! The screen: what the client draws for a terminal of a given size, from
//! the title bar to the cursor's final position.
use vstd::prelude::*;
use vstd::string::StringSliceAdditionalSpecFns;
use crate::model::{
    channel_of, guild_of, has_channel, ChannelView, FeedView, Fokcord, FokcordView, GuildView, Message,
    MessageFeed, MessageView, ReplyRef, State,
};
use crate::text::{
    append_bytes, char_boundary, char_boundary_exec, copy_range, literal, decimal, decimal_bytes, push_spaces,
    signed_decimal, signed_decimal_bytes, spaces,
};
use crate::wrap::{clip_chars, clip_chars_exec, lemma_wrap_first, wrap, wrap_ok, wrap_ok_exec, wrap_text};

verus! {

/// The size of the terminal, in character cells.
#[derive(Debug, Clone, Copy, PartialEq, Eq, Structural)]
pub struct TerminalSize {
    pub rows: u16,
    pub cols: u16,
}

/// Columns before the guild and channel names.
pub const SERVERLIST_OFFSET: usize = 5;

/// Width of the channel list.
pub const CHANNELLIST_OFFSET: usize = 45;

/// The column where messages start.
pub const MESSAGE_COLUMN: usize = 51;

/// Characters of a quoted reply that are shown.
pub const REPLY_PREVIEW: usize = 25;

pub open spec fn title_text() -> Seq<u8> {
    "Fokcord - please send help".spec_bytes()
}

pub open spec fn red() -> Seq<u8> {
    "\x1b[38;2;255;0;0m".spec_bytes()
}

pub open spec fn reset() -> Seq<u8> {
    "\x1b[0m".spec_bytes()
}

pub open spec fn status_color() -> Seq<u8> {
    "\x1b[48;2;43;48;40m".spec_bytes()
}

pub open spec fn empty_marker() -> Seq<u8> {
    "\x1b[38;255;255;0m[empty]\x1b[0m".spec_bytes()
}

pub open spec fn reply_empty_marker() -> Seq<u8> {
    "\x1b[38;2;255;255;0m[empty]\x1b[0m".spec_bytes()
}

pub open spec fn files_marker() -> Seq<u8> {
    "[file/s]".spec_bytes()
}

pub open spec fn cant_load() -> Seq<u8> {
    "[can't load]".spec_bytes()
}

pub open spec fn reply_prefix() -> Seq<u8> {
    "  >".spec_bytes()
}

pub open spec fn author_separator() -> Seq<u8> {
    ": ".spec_bytes()
}

pub open spec fn location_separator() -> Seq<u8> {
    "//".spec_bytes()
}

pub open spec fn newline() -> Seq<u8> {
    seq![0x0au8]
}

/// The name of a mode on the status line.
pub open spec fn state_label(s: State) -> Seq<u8> {
    match s {
        State::Control => "control".spec_bytes(),
        State::Message => "message".spec_bytes(),
        State::Command => "command".spec_bytes(),
    }
}

/// The escape sequence that moves the cursor to `line`, `col`.
pub open spec fn goto(line: nat, col: nat) -> Seq<u8> {
    "\x1b[".spec_bytes() + decimal(line) + ";".spec_bytes() + decimal(col) + "H".spec_bytes()
}

/// The lengths of the fixed texts of the screen.
pub proof fn lemma_literal_lengths()
    ensures
        title_text().len() == 26,
        location_separator().len() == 2,
        forall|s: State| #[trigger] state_label(s).len() == 7,
        newline().len() == 1,
{
    reveal_strlit("Fokcord - please send help");
    reveal_strlit("//");
    reveal_strlit("control");
    reveal_strlit("message");
    reveal_strlit("command");
    broadcast use vstd::string::is_ascii_spec_bytes;
    assert(vstd::string::is_ascii("Fokcord - please send help"));
    assert(vstd::string::is_ascii("//"));
    assert(vstd::string::is_ascii("control"));
    assert(vstd::string::is_ascii("message"));
    assert(vstd::string::is_ascii("command"));
}

/// The message shown when the message that is answered is not among the
/// channel's messages.
pub open spec fn fallback_message() -> MessageView {
    MessageView { id: seq![], author: cant_load(), content: cant_load(), has_files: false, reply: None }
}

/// The first message from index `i` on whose id is `id`.
pub open spec fn find_message(ms: Seq<MessageView>, id: Seq<u8>, i: int) -> MessageView
    decreases ms.len() - i,
{
    if 0 <= i < ms.len() {
        if ms[i].id == id {
            ms[i]
        } else {
            find_message(ms, id, i + 1)
        }
    } else {
        fallback_message()
    }
}

/// The message that `m` answers, looked up by the decimal form of its id.
pub open spec fn replied_message(ms: Seq<MessageView>, m: MessageView) -> MessageView {
    match m.reply {
        Some(ReplyRef::Id(n)) => find_message(ms, signed_decimal(n as int), 0),
        _ => fallback_message(),
    }
}

/// A message's text as shown: a marker stands for an empty text.
pub open spec fn shown_text(content: Seq<u8>, has_files: bool, marker: Seq<u8>) -> Seq<u8> {
    if content.len() == 0 {
        if has_files {
            files_marker()
        } else {
            marker
        }
    } else {
        content
    }
}

/// The first `k` of `lines` taken from the last one backwards, each followed
/// by a move one line up while there is a line above; the output, the line
/// reached, and whether the top was reached.
pub open spec fn emit_lines(lines: Seq<Seq<u8>>, k: nat, y0: nat) -> (Seq<u8>, nat, bool)
    decreases k,
{
    if k == 0 {
        (seq![], y0, false)
    } else {
        let (o, y, stop) = emit_lines(lines, (k - 1) as nat, y0);
        if stop || k > lines.len() {
            (o, y, stop)
        } else {
            let l = lines[lines.len() - k];
            if y < 1 {
                (o + l, y, true)
            } else {
                (o + l + goto((y - 1) as nat, MESSAGE_COLUMN as nat), (y - 1) as nat, false)
            }
        }
    }
}

/// The line where the author is written, after the message's lines.
pub open spec fn after_lines(m: MessageView, y: nat, max: nat) -> nat {
    let lines = wrap(shown_text(m.content, m.has_files, empty_marker()), max);
    emit_lines(lines, lines.len(), y).1
}

/// The line where the quoted reply is written, after the author.
pub open spec fn after_author(m: MessageView, y: nat, max: nat) -> nat {
    let y1 = after_lines(m, y, max);
    if y1 > 0 {
        (y1 - 1) as nat
    } else {
        y1
    }
}

/// The text of the message that `m` answers, as shown.
pub open spec fn reply_text(ms: Seq<MessageView>, m: MessageView) -> Seq<u8> {
    shown_text(replied_message(ms, m).content, m.has_files, reply_empty_marker())
}

/// The author's name, written when there is a line left for it.
pub open spec fn author_part(author: Seq<u8>, y1: nat) -> (Seq<u8>, nat) {
    if y1 > 0 {
        (red() + author + reset() + goto((y1 - 1) as nat, MESSAGE_COLUMN as nat), (y1 - 1) as nat)
    } else {
        (Seq::<u8>::empty(), y1)
    }
}

/// The author and the first characters of the message that `m` answers,
/// written when `m` answers one and there is a line left for it.
pub open spec fn reply_part(ms: Seq<MessageView>, m: MessageView, y2: nat, max: nat) -> (Seq<u8>, nat) {
    if y2 > 0 && m.reply is Some {
        let r = replied_message(ms, m);
        let first = wrap(reply_text(ms, m), max)[0];
        (
            reply_prefix() + red() + r.author + reset() + author_separator() + clip_chars(
                first,
                REPLY_PREVIEW as nat,
            ) + goto((y2 - 1) as nat, MESSAGE_COLUMN as nat),
            (y2 - 1) as nat,
        )
    } else {
        (Seq::<u8>::empty(), y2)
    }
}

/// One message drawn bottom-up from line `y`: its lines, its author, and
/// the start of the message it answers, as far as there is room; the output
/// and the line reached.
pub open spec fn message_block(ms: Seq<MessageView>, m: MessageView, y: nat, max: nat) -> (Seq<u8>, nat) {
    let lines = wrap(shown_text(m.content, m.has_files, empty_marker()), max);
    let (a, y1, stop) = emit_lines(lines, lines.len(), y);
    let (b, y2) = author_part(m.author, y1);
    let (c, y3) = reply_part(ms, m, y2, max);
    (a + b + c, y3)
}

/// Drawing the message does not fail: the id it answers is a number, and
/// what is wrapped is cut where a `str` may be split.
pub open spec fn message_ok(ms: Seq<MessageView>, m: MessageView, y: nat, max: nat) -> bool {
    &&& m.reply != Some(ReplyRef::Malformed)
    &&& wrap_ok(shown_text(m.content, m.has_files, empty_marker()), max)
    &&& (after_author(m, y, max) > 0 && m.reply is Some) ==> wrap_ok(reply_text(ms, m), max)
}

/// The first `k` messages drawn one above the other from line `y0`.
pub open spec fn messages_part(ms: Seq<MessageView>, k: nat, y0: nat, max: nat) -> (Seq<u8>, nat)
    decreases k,
{
    if k == 0 {
        (seq![], y0)
    } else {
        let (o, y) = messages_part(ms, (k - 1) as nat, y0, max);
        let (b, y2) = message_block(ms, ms[k - 1], y, max);
        (o + b, y2)
    }
}

/// Drawing the first `k` messages does not fail.
pub open spec fn messages_ok(ms: Seq<MessageView>, k: nat, y0: nat, max: nat) -> bool
    decreases k,
{
    if k == 0 {
        true
    } else {
        &&& messages_ok(ms, (k - 1) as nat, y0, max)
        &&& message_ok(ms, ms[k - 1], messages_part(ms, (k - 1) as nat, y0, max).1, max)
    }
}

/// How many messages fit: one per two lines below the header, at most all.
pub open spec fn visible_count(n: nat, rows: nat) -> nat {
    let fit = ((rows - 4) / 2) as nat;
    if fit > n {
        n
    } else {
        fit
    }
}

/// The current guild's name and the current channel's name.
pub open spec fn location(f: FokcordView) -> Seq<u8> {
    guild_of(f).name + location_separator() + channel_of(f).name
}

/// The name shown on line `k` of the channel list: cut to the list's width,
/// or blank below the last channel.
pub open spec fn channel_text(g: GuildView, k: int) -> Seq<u8> {
    if g.channels.len() > k {
        let name = g.channels[k].name;
        if name.len() > CHANNELLIST_OFFSET {
            name.subrange(0, CHANNELLIST_OFFSET as int)
        } else {
            name
        }
    } else {
        spaces(CHANNELLIST_OFFSET as nat)
    }
}

/// The first `k` lines of the channel list.
pub open spec fn channel_lines(g: GuildView, cols: nat, k: nat) -> Seq<u8>
    decreases k,
{
    if k == 0 {
        seq![]
    } else {
        channel_lines(g, cols, (k - 1) as nat) + spaces(SERVERLIST_OFFSET as nat) + channel_text(g, k - 1)
            + spaces((cols - SERVERLIST_OFFSET - CHANNELLIST_OFFSET) as nat) + newline()
    }
}

/// The title bar.
pub open spec fn title_line(cols: nat) -> Seq<u8> {
    title_text() + spaces((cols - title_text().len()) as nat) + newline()
}

/// The line naming the current guild and channel.
pub open spec fn location_line(f: FokcordView, cols: nat) -> Seq<u8> {
    spaces(SERVERLIST_OFFSET as nat) + location(f) + spaces((cols - SERVERLIST_OFFSET - location(f).len()) as nat)
        + newline()
}

/// The line with the current message box.
pub open spec fn box_line(ch: ChannelView, cols: nat) -> Seq<u8> {
    spaces((SERVERLIST_OFFSET + CHANNELLIST_OFFSET) as nat) + ch.message_box + spaces(
        (cols - SERVERLIST_OFFSET - CHANNELLIST_OFFSET - ch.message_box.len()) as nat,
    ) + newline()
}

/// The status line: the command line on the left, the mode on the right.
pub open spec fn status_line(f: FokcordView, cols: nat) -> Seq<u8> {
    status_color() + f.io + spaces((cols - f.io.len() - state_label(f.state).len()) as nat) + state_label(f.state)
        + reset()
}

/// Everything above the messages, ending with the move to the lowest
/// message line.
pub open spec fn header(f: FokcordView, rows: nat, cols: nat) -> Seq<u8> {
    title_line(cols) + location_line(f, cols) + channel_lines(guild_of(f), cols, (rows - 4) as nat) + box_line(
        channel_of(f),
        cols,
    ) + status_line(f, cols) + goto((rows - 2) as nat, MESSAGE_COLUMN as nat)
}

/// The message area: an error answer's message, or the newest messages
/// drawn bottom-up.
pub open spec fn feed_part(f: FokcordView, rows: nat, cols: nat) -> Seq<u8> {
    match channel_of(f).messages {
        FeedView::Failure(t) => t,
        FeedView::Messages(ms) => messages_part(
            ms,
            visible_count(ms.len(), rows),
            (rows - 2) as nat,
            (cols - MESSAGE_COLUMN) as nat,
        ).0,
    }
}

/// Where the cursor is left: the corner in Control mode, in the command
/// line or in the message box while typing.
pub open spec fn final_cursor(f: FokcordView, rows: nat, cols: nat) -> Seq<u8> {
    match f.state {
        State::Control => goto(rows, cols),
        State::Command => goto(rows, (f.io_cursor + 1) as nat),
        State::Message => goto(
            (rows - 1) as nat,
            (channel_of(f).message_cursor + 1 + CHANNELLIST_OFFSET + SERVERLIST_OFFSET) as nat,
        ),
    }
}

/// The whole screen.
pub open spec fn screen(f: FokcordView, size: TerminalSize) -> Seq<u8> {
    let rows = size.rows as nat;
    let cols = size.cols as nat;
    header(f, rows, cols) + feed_part(f, rows, cols) + final_cursor(f, rows, cols)
}

/// The screen can be drawn: the inputs on which drawing does not fail. There
/// is a current channel; the terminal is tall enough for the header and wide
/// enough for every padded line; the channel names that are cut are cut
/// where a `str` may be split; the messages that are drawn can be drawn; and
/// the cursor's column has a number.
pub open spec fn can_render(f: FokcordView, size: TerminalSize) -> bool {
    let rows = size.rows as nat;
    let cols = size.cols as nat;
    &&& has_channel(f)
    &&& rows >= 4
    &&& cols >= 26
    &&& cols >= SERVERLIST_OFFSET + location(f).len()
    &&& rows > 4 ==> cols >= SERVERLIST_OFFSET + CHANNELLIST_OFFSET
    &&& forall|k: int|
        0 <= k < rows - 4 && k < guild_of(f).channels.len() && #[trigger] guild_of(f).channels[k].name.len()
            > CHANNELLIST_OFFSET ==> char_boundary(guild_of(f).channels[k].name, CHANNELLIST_OFFSET as int)
    &&& cols >= SERVERLIST_OFFSET + CHANNELLIST_OFFSET + channel_of(f).message_box.len()
    &&& cols >= f.io.len() + 7
    &&& match channel_of(f).messages {
        FeedView::Failure(_) => true,
        FeedView::Messages(ms) => visible_count(ms.len(), rows) > 0 ==> {
            &&& cols > MESSAGE_COLUMN
            &&& messages_ok(ms, visible_count(ms.len(), rows), (rows - 2) as nat, (cols - MESSAGE_COLUMN) as nat)
        },
    }
    &&& f.state == State::Command ==> f.io_cursor + 1 <= usize::MAX
    &&& f.state == State::Message ==> channel_of(f).message_cursor + MESSAGE_COLUMN <= usize::MAX
}

/// The title bar, the location line and the message box line are exactly as
/// wide as the terminal, and so is the text of the status line.
pub proof fn law_full_width_lines(f: FokcordView, size: TerminalSize)
    requires
        can_render(f, size),
    ensures
        title_line(size.cols as nat).len() == size.cols + 1,
        location_line(f, size.cols as nat).len() == size.cols + 1,
        box_line(channel_of(f), size.cols as nat).len() == size.cols + 1,
        status_line(f, size.cols as nat).len() == status_color().len() + size.cols + reset().len(),
{
    lemma_literal_lengths();
}

/// Writing lines bottom-up never goes down the screen.
proof fn lemma_emit_lines_up(lines: Seq<Seq<u8>>, k: nat, y0: nat)
    ensures
        emit_lines(lines, k, y0).1 <= y0,
    decreases k,
{
    if k > 0 {
        lemma_emit_lines_up(lines, (k - 1) as nat, y0);
    }
}

/// A message drawn from line `y` ends on a line no lower than `y`, and
/// strictly higher when there is a line above `y`.
proof fn lemma_block_goes_up(ms: Seq<MessageView>, m: MessageView, y: nat, max: nat)
    ensures
        message_block(ms, m, y, max).1 <= y,
        y > 0 ==> message_block(ms, m, y, max).1 < y,
{
    let lines = wrap(shown_text(m.content, m.has_files, empty_marker()), max);
    lemma_emit_lines_up(lines, lines.len(), y);
}

/// Messages are drawn one above the other: the next message starts on the
/// line that the previous one reached, which is never below where the
/// previous one started and is strictly above it whenever there was a line
/// left; so no two messages are written on the same line.
pub proof fn law_messages_stack(ms: Seq<MessageView>, k: nat, y0: nat, max: nat)
    ensures
        messages_part(ms, k + 1, y0, max).1 <= messages_part(ms, k, y0, max).1,
        messages_part(ms, k, y0, max).1 > 0 ==> messages_part(ms, k + 1, y0, max).1 < messages_part(
            ms,
            k,
            y0,
            max,
        ).1,
        messages_part(ms, k, y0, max).1 <= y0,
    decreases k,
{
    let y = messages_part(ms, k, y0, max).1;
    lemma_block_goes_up(ms, ms[k as int], y, max);
    assert(messages_part(ms, k + 1, y0, max).1 == message_block(ms, ms[k as int], y, max).1);
    if k > 0 {
        law_messages_stack(ms, (k - 1) as nat, y0, max);
    }
}

/// The status line names the current mode at its right end, and the three
/// modes have three different names: `control`, `command` and `message`.
pub proof fn law_status_names_the_mode(f: FokcordView, cols: nat)
    ensures
        ({
            let l = status_line(f, cols);
            l.subrange(l.len() - reset().len() - 7, l.len() - reset().len()) == state_label(f.state)
        }),
        state_label(State::Control) != state_label(State::Command),
        state_label(State::Control) != state_label(State::Message),
        state_label(State::Command) != state_label(State::Message),
        state_label(State::Message) == "message".spec_bytes(),
{
    lemma_literal_lengths();
    reveal_strlit("control");
    reveal_strlit("message");
    reveal_strlit("command");
    broadcast use vstd::string::is_ascii_spec_bytes;
    assert(vstd::string::is_ascii("control"));
    assert(vstd::string::is_ascii("message"));
    assert(vstd::string::is_ascii("command"));
    assert(state_label(State::Control)[2] != state_label(State::Command)[2]);
    assert(state_label(State::Control)[0] != state_label(State::Message)[0]);
    assert(state_label(State::Command)[0] != state_label(State::Message)[0]);
    let l = status_line(f, cols);
    let head = status_color() + f.io + spaces((cols - f.io.len() - state_label(f.state).len()) as nat);
    assert(l =~= head + state_label(f.state) + reset());
    assert(l.subrange(l.len() - reset().len() - 7, l.len() - reset().len()) =~= state_label(f.state));
}

/// A name in the channel list is never wider than the list.
pub proof fn law_channel_text_width(g: GuildView, k: int)
    ensures
        channel_text(g, k).len() <= CHANNELLIST_OFFSET,
{
}

/// The escape sequence that moves the cursor to `line`, `col`.
fn goto_bytes(line: usize, col: usize) -> (r: Vec<u8>)
    ensures
        r@ == goto(line as nat, col as nat),
{
    let mut r = literal("\x1b[");
    let l = decimal_bytes(line as u64);
    append_bytes(&mut r, l.as_slice());
    let semi = literal(";");
    append_bytes(&mut r, semi.as_slice());
    let c = decimal_bytes(col as u64);
    append_bytes(&mut r, c.as_slice());
    let h = literal("H");
    append_bytes(&mut r, h.as_slice());
    r
}

fn bytes_equal(a: &[u8], b: &[u8]) -> (r: bool)
    ensures
        r == (a@ == b@),
{
    if a.len() != b.len() {
        return false;
    }
    let mut i: usize = 0;
    while i < a.len()
        invariant
            i <= a@.len(),
            a@.len() == b@.len(),
            forall|j: int| 0 <= j < i ==> a@[j] == b@[j],
        decreases a@.len() - i,
    {
        if a[i] != b[i] {
            return false;
        }
        i = i + 1;
    }
    assert(a@ =~= b@);
    true
}

/// The author and text of the first message whose id is `id`, or of the
/// stand-in when there is none.
pub fn get_message(ms: &Vec<Message>, id: i64) -> (r: (Vec<u8>, Vec<u8>))
    ensures
        r.0@ == find_message(ms@.map_values(|m: Message| m@), signed_decimal(id as int), 0).author,
        r.1@ == find_message(ms@.map_values(|m: Message| m@), signed_decimal(id as int), 0).content,
{
    let ghost mv = ms@.map_values(|m: Message| m@);
    let key = signed_decimal_bytes(id);
    let mut i: usize = 0;
    while i < ms.len()
        invariant
            i <= ms@.len(),
            mv == ms@.map_values(|m: Message| m@),
            key@ == signed_decimal(id as int),
            find_message(mv, key@, 0) == find_message(mv, key@, i as int),
        decreases ms@.len() - i,
    {
        assert(mv[i as int] == ms@[i as int]@);
        if bytes_equal(ms[i].id.as_slice(), key.as_slice()) {
            let author = copy_range(ms[i].author.as_slice(), 0, ms[i].author.len());
            let content = copy_range(ms[i].content.as_slice(), 0, ms[i].content.len());
            assert(author@ =~= ms@[i as int].author@);
            assert(content@ =~= ms@[i as int].content@);
            return (author, content);
        }
        i = i + 1;
    }
    (literal("[can't load]"), literal("[can't load]"))
}

/// A message's text as shown.
fn shown_text_exec(content: &Vec<u8>, has_files: bool, marker: &str) -> (r: Vec<u8>)
    ensures
        r@ == shown_text(content@, has_files, marker.spec_bytes()),
{
    if content.len() == 0 {
        if has_files {
            literal("[file/s]")
        } else {
            literal(marker)
        }
    } else {
        copy_range(content.as_slice(), 0, content.len())
    }
}

/// Appends the lines from the last one backwards, as `emit_lines` says.
fn emit_lines_exec(out: &mut Vec<u8>, lines: &Vec<Vec<u8>>, y0: usize) -> (r: (usize, bool))
    ensures
        ({
            let lv = lines@.map_values(|v: Vec<u8>| v@);
            let e = emit_lines(lv, lv.len(), y0 as nat);
            &&& final(out)@ == old(out)@ + e.0
            &&& r.0 as nat == e.1
            &&& r.1 == e.2
        }),
{
    let ghost lv = lines@.map_values(|v: Vec<u8>| v@);
    let ghost start = out@;
    let n = lines.len();
    let mut k: usize = 0;
    let mut y = y0;
    let mut stopped = false;
    while k < n
        invariant
            k <= n,
            n == lines@.len(),
            lv == lines@.map_values(|v: Vec<u8>| v@),
            out@ == start + emit_lines(lv, k as nat, y0 as nat).0,
            y as nat == emit_lines(lv, k as nat, y0 as nat).1,
            stopped == emit_lines(lv, k as nat, y0 as nat).2,
        decreases n - k,
    {
        if !stopped {
            let ghost before = out@;
            assert(lv[n - (k + 1)] == lines@[n - 1 - k]@);
            append_bytes(out, lines[n - 1 - k].as_slice());
            if y < 1 {
                stopped = true;
                assert(out@ =~= start + emit_lines(lv, (k + 1) as nat, y0 as nat).0);
            } else {
                y = y - 1;
                let g = goto_bytes(y, MESSAGE_COLUMN);
                append_bytes(out, g.as_slice());
                assert(out@ =~= start + emit_lines(lv, (k + 1) as nat, y0 as nat).0);
            }
        }
        k = k + 1;
    }
    (y, stopped)
}

/// Appends the author part.
fn render_author(out: &mut Vec<u8>, author: &Vec<u8>, y1: usize) -> (r: usize)
    ensures
        final(out)@ == old(out)@ + author_part(author@, y1 as nat).0,
        r as nat == author_part(author@, y1 as nat).1,
{
    let ghost start = out@;
    if y1 > 0 {
        let red_b = literal("\x1b[38;2;255;0;0m");
        append_bytes(out, red_b.as_slice());
        append_bytes(out, author.as_slice());
        let reset_b = literal("\x1b[0m");
        append_bytes(out, reset_b.as_slice());
        let y2 = y1 - 1;
        let g = goto_bytes(y2, MESSAGE_COLUMN);
        append_bytes(out, g.as_slice());
        assert(out@ =~= start + author_part(author@, y1 as nat).0);
        y2
    } else {
        assert(out@ =~= start + author_part(author@, y1 as nat).0);
        y1
    }
}

/// Appends the reply part of message `i`.
fn render_reply(out: &mut Vec<u8>, ms: &Vec<Message>, i: usize, y2: usize, max: usize) -> (r: usize)
    requires
        i < ms@.len(),
        max > 0,
        ms@[i as int]@.reply != Some(ReplyRef::Malformed),
        (y2 > 0 && ms@[i as int]@.reply is Some) ==> wrap_ok(
            reply_text(ms@.map_values(|m: Message| m@), ms@[i as int]@),
            max as nat,
        ),
    ensures
        final(out)@ == old(out)@ + reply_part(ms@.map_values(|m: Message| m@), ms@[i as int]@, y2 as nat, max as nat).0,
        r as nat == reply_part(ms@.map_values(|m: Message| m@), ms@[i as int]@, y2 as nat, max as nat).1,
{
    let ghost msv = ms@.map_values(|m: Message| m@);
    let ghost mv = ms@[i as int]@;
    let ghost start = out@;
    let m = &ms[i];
    let has_reply = match m.reply {
        Some(_) => true,
        None => false,
    };
    if y2 > 0 && has_reply {
        let (ra, rc) = match m.reply {
            Some(ReplyRef::Id(n)) => get_message(ms, n),
            _ => (literal("[can't load]"), literal("[can't load]")),
        };
        let rt = shown_text_exec(&rc, m.has_files, "\x1b[38;2;255;255;0m[empty]\x1b[0m");
        proof {
            assert(rt@ == reply_text(msv, mv));
            lemma_wrap_first(rt@, max as nat);
        }
        let rlines = wrap_text(rt.as_slice(), max);
        assert(rlines@[0]@ == wrap(rt@, max as nat)[0]);
        let first = clip_chars_exec(&rlines[0], REPLY_PREVIEW);
        let prefix = literal("  >");
        append_bytes(out, prefix.as_slice());
        let red_b = literal("\x1b[38;2;255;0;0m");
        append_bytes(out, red_b.as_slice());
        append_bytes(out, ra.as_slice());
        let reset_b = literal("\x1b[0m");
        append_bytes(out, reset_b.as_slice());
        let sep = literal(": ");
        append_bytes(out, sep.as_slice());
        append_bytes(out, first.as_slice());
        let y3 = y2 - 1;
        let g = goto_bytes(y3, MESSAGE_COLUMN);
        append_bytes(out, g.as_slice());
        assert(out@ =~= start + reply_part(msv, mv, y2 as nat, max as nat).0);
        y3
    } else {
        assert(out@ =~= start + reply_part(msv, mv, y2 as nat, max as nat).0);
        y2
    }
}

/// Appends message `i` of `ms` drawn bottom-up from line `y`, as
/// `message_block` says, and gives the line reached.
fn render_block(out: &mut Vec<u8>, ms: &Vec<Message>, i: usize, y: usize, max: usize) -> (r: usize)
    requires
        i < ms@.len(),
        max > 0,
        message_ok(ms@.map_values(|m: Message| m@), ms@[i as int]@, y as nat, max as nat),
    ensures
        ({
            let b = message_block(ms@.map_values(|m: Message| m@), ms@[i as int]@, y as nat, max as nat);
            &&& final(out)@ == old(out)@ + b.0
            &&& r as nat == b.1
        }),
{
    let ghost msv = ms@.map_values(|m: Message| m@);
    let ghost mv = ms@[i as int]@;
    let ghost start = out@;
    let text = shown_text_exec(&ms[i].content, ms[i].has_files, "\x1b[38;255;255;0m[empty]\x1b[0m");
    let lines = wrap_text(text.as_slice(), max);
    let (y1, _stopped) = emit_lines_exec(out, &lines, y);
    let ghost after_a = out@;
    let y2 = render_author(out, &ms[i].author, y1);
    let ghost after_b = out@;
    let y3 = render_reply(out, ms, i, y2, max);
    assert(out@ =~= start + message_block(msv, mv, y as nat, max as nat).0);
    y3
}

proof fn lemma_messages_ok_prefix(ms: Seq<MessageView>, k: nat, n: nat, y0: nat, max: nat)
    requires
        k <= n,
        messages_ok(ms, n, y0, max),
    ensures
        messages_ok(ms, k, y0, max),
    decreases n - k,
{
    if k < n {
        lemma_messages_ok_prefix(ms, k, (n - 1) as nat, y0, max);
    }
}

/// Appends the first `n` messages drawn one above the other from line `y0`.
fn render_messages(out: &mut Vec<u8>, ms: &Vec<Message>, n: usize, y0: usize, max: usize)
    requires
        n <= ms@.len(),
        max > 0,
        messages_ok(ms@.map_values(|m: Message| m@), n as nat, y0 as nat, max as nat),
    ensures
        final(out)@ == old(out)@ + messages_part(ms@.map_values(|m: Message| m@), n as nat, y0 as nat, max as nat).0,
{
    let ghost msv = ms@.map_values(|m: Message| m@);
    let ghost start = out@;
    let mut i: usize = 0;
    let mut y = y0;
    while i < n
        invariant
            i <= n <= ms@.len(),
            max > 0,
            msv == ms@.map_values(|m: Message| m@),
            messages_ok(msv, n as nat, y0 as nat, max as nat),
            out@ == start + messages_part(msv, i as nat, y0 as nat, max as nat).0,
            y as nat == messages_part(msv, i as nat, y0 as nat, max as nat).1,
        decreases n - i,
    {
        proof {
            lemma_messages_ok_prefix(msv, (i + 1) as nat, n as nat, y0 as nat, max as nat);
            assert(msv[i as int] == ms@[i as int]@);
        }
        y = render_block(out, ms, i, y, max);
        assert(out@ =~= start + messages_part(msv, (i + 1) as nat, y0 as nat, max as nat).0);
        i = i + 1;
    }
}

/// Appends the first `k` lines of the channel list.
fn render_channel_lines(out: &mut Vec<u8>, g: &crate::model::Guild, cols: usize, k: usize)
    requires
        k > 0 ==> cols >= SERVERLIST_OFFSET + CHANNELLIST_OFFSET,
        forall|j: int|
            0 <= j < k && j < g@.channels.len() && #[trigger] g@.channels[j].name.len() > CHANNELLIST_OFFSET
                ==> char_boundary(g@.channels[j].name, CHANNELLIST_OFFSET as int),
    ensures
        final(out)@ == old(out)@ + channel_lines(g@, cols as nat, k as nat),
{
    let ghost start = out@;
    let mut i: usize = 0;
    while i < k
        invariant
            i <= k,
            k > 0 ==> cols >= SERVERLIST_OFFSET + CHANNELLIST_OFFSET,
            forall|j: int|
                0 <= j < k && j < g@.channels.len() && #[trigger] g@.channels[j].name.len() > CHANNELLIST_OFFSET
                    ==> char_boundary(g@.channels[j].name, CHANNELLIST_OFFSET as int),
            out@ == start + channel_lines(g@, cols as nat, i as nat),
        decreases k - i,
    {
        let ghost before = out@;
        push_spaces(out, SERVERLIST_OFFSET);
        if g.channels.len() > i {
            assert(g@.channels[i as int] == g.channels@[i as int]@);
            let name = &g.channels[i].name;
            if name.len() > CHANNELLIST_OFFSET {
                let cut = copy_range(name.as_slice(), 0, CHANNELLIST_OFFSET);
                append_bytes(out, cut.as_slice());
            } else {
                append_bytes(out, name.as_slice());
            }
        } else {
            push_spaces(out, CHANNELLIST_OFFSET);
        }
        push_spaces(out, cols - SERVERLIST_OFFSET - CHANNELLIST_OFFSET);
        out.push(0x0a);
        assert(out@ =~= start + channel_lines(g@, cols as nat, (i + 1) as nat));
        i = i + 1;
    }
}

/// Appends the title bar and the location line.
fn render_top(out: &mut Vec<u8>, f: &Fokcord, cols: usize)
    requires
        has_channel(f@),
        cols >= 26,
        cols >= SERVERLIST_OFFSET + location(f@).len(),
    ensures
        final(out)@ == old(out)@ + title_line(cols as nat) + location_line(f@, cols as nat),
{
    proof {
        lemma_literal_lengths();
    }
    let ghost start = out@;
    let title = literal("Fokcord - please send help");
    append_bytes(out, title.as_slice());
    push_spaces(out, cols - title.len());
    out.push(0x0a);
    let g = &f.guilds[f.current_guild];
    let ch = &g.channels[g.current_channel];
    assert(g@ == guild_of(f@));
    assert(ch@ == channel_of(f@));
    let mut loc = copy_range(g.name.as_slice(), 0, g.name.len());
    let sep = literal("//");
    append_bytes(&mut loc, sep.as_slice());
    append_bytes(&mut loc, ch.name.as_slice());
    assert(loc@ =~= location(f@));
    push_spaces(out, SERVERLIST_OFFSET);
    append_bytes(out, loc.as_slice());
    push_spaces(out, cols - SERVERLIST_OFFSET - loc.len());
    out.push(0x0a);
    assert(out@ =~= start + title_line(cols as nat) + location_line(f@, cols as nat));
}

/// Appends the message box line and the status line.
fn render_bottom(out: &mut Vec<u8>, f: &Fokcord, cols: usize)
    requires
        has_channel(f@),
        cols >= SERVERLIST_OFFSET + CHANNELLIST_OFFSET + channel_of(f@).message_box.len(),
        cols >= f@.io.len() + 7,
    ensures
        final(out)@ == old(out)@ + box_line(channel_of(f@), cols as nat) + status_line(f@, cols as nat),
{
    proof {
        lemma_literal_lengths();
    }
    let ghost start = out@;
    let g = &f.guilds[f.current_guild];
    let ch = &g.channels[g.current_channel];
    assert(ch@ == channel_of(f@));
    push_spaces(out, SERVERLIST_OFFSET + CHANNELLIST_OFFSET);
    append_bytes(out, ch.message_box.as_slice());
    push_spaces(out, cols - SERVERLIST_OFFSET - CHANNELLIST_OFFSET - ch.message_box.len());
    out.push(0x0a);
    let label = match f.state {
        State::Control => literal("control"),
        State::Message => literal("message"),
        State::Command => literal("command"),
    };
    assert(label@ == state_label(f.state));
    let color = literal("\x1b[48;2;43;48;40m");
    append_bytes(out, color.as_slice());
    append_bytes(out, f.io.as_slice());
    push_spaces(out, cols - f.io.len() - label.len());
    append_bytes(out, label.as_slice());
    let reset_b = literal("\x1b[0m");
    append_bytes(out, reset_b.as_slice());
    assert(out@ =~= start + box_line(channel_of(f@), cols as nat) + status_line(f@, cols as nat));
}

/// Appends the message area.
fn render_feed(out: &mut Vec<u8>, f: &Fokcord, rows: usize, cols: usize)
    requires
        has_channel(f@),
        rows >= 4,
        match channel_of(f@).messages {
            FeedView::Failure(_) => true,
            FeedView::Messages(ms) => visible_count(ms.len(), rows as nat) > 0 ==> {
                &&& cols > MESSAGE_COLUMN
                &&& messages_ok(ms, visible_count(ms.len(), rows as nat), (rows - 2) as nat, (cols - MESSAGE_COLUMN) as nat)
            },
        },
    ensures
        final(out)@ == old(out)@ + feed_part(f@, rows as nat, cols as nat),
{
    let g = &f.guilds[f.current_guild];
    let ch = &g.channels[g.current_channel];
    assert(ch@ == channel_of(f@));
    match &ch.messages {
        MessageFeed::Failure(t) => {
            append_bytes(out, t.as_slice());
        },
        MessageFeed::Messages(ms) => {
            let fit = (rows - 4) / 2;
            let n = if fit > ms.len() {
                ms.len()
            } else {
                fit
            };
            if n > 0 {
                render_messages(out, ms, n, rows - 2, cols - MESSAGE_COLUMN);
            } else {
                assert(out@ =~= old(out)@ + feed_part(f@, rows as nat, cols as nat));
            }
        },
    }
}

/// Draws the screen for a terminal of the given size: the title bar, the
/// current guild and channel, the channel list, the message box, the status
/// line, the newest messages bottom-up, and finally the cursor's position.
pub fn render_screen(f: &Fokcord, size: TerminalSize) -> (r: Vec<u8>)
    requires
        can_render(f@, size),
    ensures
        r@ == screen(f@, size),
{
    let rows = size.rows as usize;
    let cols = size.cols as usize;
    let mut out: Vec<u8> = Vec::new();
    render_top(&mut out, f, cols);
    let g = &f.guilds[f.current_guild];
    assert(g@ == guild_of(f@));
    render_channel_lines(&mut out, g, cols, rows - 4);
    render_bottom(&mut out, f, cols);
    let y = rows - 2;
    let gt = goto_bytes(y, MESSAGE_COLUMN);
    append_bytes(&mut out, gt.as_slice());
    let ghost after_header = out@;
    assert(after_header =~= header(f@, rows as nat, cols as nat));
    render_feed(&mut out, f, rows, cols);
    let last = match f.state {
        State::Control => goto_bytes(rows, cols),
        State::Command => goto_bytes(rows, f.io_cursor + 1),
        State::Message => {
            let ch = &g.channels[g.current_channel];
            assert(ch@ == channel_of(f@));
            goto_bytes(rows - 1, ch.message_cursor + 1 + CHANNELLIST_OFFSET + SERVERLIST_OFFSET)
        },
    };
    append_bytes(&mut out, last.as_slice());
    assert(out@ =~= screen(f@, size));
    out
}

/// Whether message `i` can be drawn from line `y`.
fn message_ok_exec(ms: &Vec<Message>, i: usize, y: usize, max: usize) -> (r: bool)
    requires
        i < ms@.len(),
        max > 0,
    ensures
        r == message_ok(ms@.map_values(|m: Message| m@), ms@[i as int]@, y as nat, max as nat),
{
    let ghost msv = ms@.map_values(|m: Message| m@);
    let ghost mv = ms@[i as int]@;
    let m = &ms[i];
    match m.reply {
        Some(ReplyRef::Malformed) => {
            return false;
        },
        _ => {},
    }
    let text = shown_text_exec(&m.content, m.has_files, "\x1b[38;255;255;0m[empty]\x1b[0m");
    if !wrap_ok_exec(text.as_slice(), max) {
        return false;
    }
    let lines = wrap_text(text.as_slice(), max);
    let mut scratch: Vec<u8> = Vec::new();
    let (y1, _stopped) = emit_lines_exec(&mut scratch, &lines, y);
    let y2 = render_author(&mut scratch, &m.author, y1);
    assert(y2 as nat == after_author(mv, y as nat, max as nat));
    let has_reply = match m.reply {
        Some(_) => true,
        None => false,
    };
    if y2 > 0 && has_reply {
        let (_ra, rc) = match m.reply {
            Some(ReplyRef::Id(n)) => get_message(ms, n),
            _ => (literal("[can't load]"), literal("[can't load]")),
        };
        let rt = shown_text_exec(&rc, m.has_files, "\x1b[38;2;255;255;0m[empty]\x1b[0m");
        assert(rt@ == reply_text(msv, mv));
        wrap_ok_exec(rt.as_slice(), max)
    } else {
        true
    }
}

/// Whether the first `n` messages can be drawn from line `y0`.
fn messages_ok_exec(ms: &Vec<Message>, n: usize, y0: usize, max: usize) -> (r: bool)
    requires
        n <= ms@.len(),
        max > 0,
    ensures
        r == messages_ok(ms@.map_values(|m: Message| m@), n as nat, y0 as nat, max as nat),
{
    let ghost msv = ms@.map_values(|m: Message| m@);
    let mut scratch: Vec<u8> = Vec::new();
    let mut i: usize = 0;
    let mut y = y0;
    while i < n
        invariant
            i <= n <= ms@.len(),
            max > 0,
            msv == ms@.map_values(|m: Message| m@),
            messages_ok(msv, i as nat, y0 as nat, max as nat),
            y as nat == messages_part(msv, i as nat, y0 as nat, max as nat).1,
        decreases n - i,
    {
        assert(msv[i as int] == ms@[i as int]@);
        if !message_ok_exec(ms, i, y, max) {
            proof {
                if messages_ok(msv, n as nat, y0 as nat, max as nat) {
                    lemma_messages_ok_prefix(msv, (i + 1) as nat, n as nat, y0 as nat, max as nat);
                }
            }
            return false;
        }
        y = render_block(&mut scratch, ms, i, y, max);
        i = i + 1;
    }
    true
}

/// Whether the screen can be drawn for this terminal: exactly when
/// `can_render` holds.
pub fn screen_fits(f: &Fokcord, size: TerminalSize) -> (r: bool)
    ensures
        r == can_render(f@, size),
{
    proof {
        lemma_literal_lengths();
    }
    let rows = size.rows as usize;
    let cols = size.cols as usize;
    if f.current_guild >= f.guilds.len() {
        return false;
    }
    let g = &f.guilds[f.current_guild];
    assert(g@ == guild_of(f@));
    if g.current_channel >= g.channels.len() {
        return false;
    }
    let ch = &g.channels[g.current_channel];
    assert(ch@ == channel_of(f@));
    if rows < 4 || cols < 26 {
        return false;
    }
    if (cols as u128) < 5 + (g.name.len() as u128) + 2 + (ch.name.len() as u128) {
        return false;
    }
    if rows > 4 && cols < SERVERLIST_OFFSET + CHANNELLIST_OFFSET {
        return false;
    }
    let mut k: usize = 0;
    while k < rows - 4
        invariant
            4 <= rows,
            rows == size.rows as usize,
            g@ == guild_of(f@),
            forall|j: int|
                0 <= j < k && j < g@.channels.len() && #[trigger] g@.channels[j].name.len() > CHANNELLIST_OFFSET
                    ==> char_boundary(g@.channels[j].name, CHANNELLIST_OFFSET as int),
        decreases rows - 4 - k,
    {
        if k < g.channels.len() {
            assert(g@.channels[k as int] == g.channels@[k as int]@);
            let name = &g.channels[k].name;
            if name.len() > CHANNELLIST_OFFSET && !char_boundary_exec(name.as_slice(), CHANNELLIST_OFFSET) {
                assert(g@.channels[k as int].name == name@);
                assert(guild_of(f@).channels[k as int].name.len() > CHANNELLIST_OFFSET);
                return false;
            }
        }
        k = k + 1;
    }
    if (cols as u128) < 50 + (ch.message_box.len() as u128) {
        return false;
    }
    if (cols as u128) < (f.io.len() as u128) + 7 {
        return false;
    }
    match &ch.messages {
        MessageFeed::Failure(_) => {},
        MessageFeed::Messages(ms) => {
            let fit = (rows - 4) / 2;
            let n = if fit > ms.len() {
                ms.len()
            } else {
                fit
            };
            if n > 0 {
                if cols <= MESSAGE_COLUMN {
                    return false;
                }
                if !messages_ok_exec(ms, n, rows - 2, cols - MESSAGE_COLUMN) {
                    return false;
                }
            }
        },
    }
    match f.state {
        State::Command => f.io_cursor < usize::MAX,
        State::Message => ch.message_cursor <= usize::MAX - MESSAGE_COLUMN,
        State::Control => true,
    }
}

} // verus!
