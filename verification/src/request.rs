//! The shell commands through which the client talks to the chat service
//! and fetches guild icons.
use vstd::prelude::*;
use vstd::string::StringSliceAdditionalSpecFns;
use crate::model::{Fokcord, FokcordView};
use crate::text::{append_bytes, copy_range, push_literal, signed_decimal, signed_decimal_bytes};

verus! {

/// Pairs of texts, as bytes.
pub open spec fn pairs_view(v: Seq<(Vec<u8>, Vec<u8>)>) -> Seq<(Seq<u8>, Seq<u8>)> {
    v.map_values(|p: (Vec<u8>, Vec<u8>)| (p.0@, p.1@))
}

/// The query parameters as `curl` arguments.
pub open spec fn param_args(ps: Seq<(Seq<u8>, Seq<u8>)>) -> Seq<u8>
    decreases ps.len(),
{
    if ps.len() == 0 {
        seq![]
    } else {
        param_args(ps.drop_last()) + " --data-urlencode \"".spec_bytes() + ps.last().0 + "=".spec_bytes()
            + ps.last().1 + "\"".spec_bytes()
    }
}

/// The headers as `curl` arguments.
pub open spec fn header_args(hs: Seq<(Seq<u8>, Seq<u8>)>) -> Seq<u8>
    decreases hs.len(),
{
    if hs.len() == 0 {
        seq![]
    } else {
        header_args(hs.drop_last()) + " -H \"".spec_bytes() + hs.last().0 + ": ".spec_bytes() + hs.last().1
            + "\"".spec_bytes()
    }
}

/// The address of an endpoint of the service.
pub open spec fn endpoint(path: Seq<u8>) -> Seq<u8> {
    "https://discord.com/api/".spec_bytes() + path
}

/// The command that GETs `path` with the query parameters and headers.
pub open spec fn get_command(path: Seq<u8>, ps: Seq<(Seq<u8>, Seq<u8>)>, hs: Seq<(Seq<u8>, Seq<u8>)>) -> Seq<u8> {
    "curl -G ".spec_bytes() + param_args(ps) + " ".spec_bytes() + header_args(hs) + " ".spec_bytes() + endpoint(
        path,
    )
}

/// The command that POSTs `body` to `path` with the headers.
pub open spec fn post_command(path: Seq<u8>, hs: Seq<(Seq<u8>, Seq<u8>)>, body: Seq<u8>) -> Seq<u8> {
    "curl --request POST ".spec_bytes() + header_args(hs) + " -d '".spec_bytes() + body + "' ".spec_bytes()
        + endpoint(path)
}

/// The headers that every request carries: JSON content, the account's
/// token, and the form field name.
pub open spec fn standard_headers(token: Seq<u8>) -> Seq<(Seq<u8>, Seq<u8>)> {
    seq![
        ("Content-Type".spec_bytes(), "application/json".spec_bytes()),
        ("Authorization".spec_bytes(), token),
        ("Content-Disposition".spec_bytes(), "form-data; name=\\\"content\\\"".spec_bytes()),
    ]
}

/// The query parameters as `curl` arguments.
pub fn param_args_exec(ps: &Vec<(Vec<u8>, Vec<u8>)>) -> (r: Vec<u8>)
    ensures
        r@ == param_args(pairs_view(ps@)),
{
    let mut out: Vec<u8> = Vec::new();
    let mut i: usize = 0;
    while i < ps.len()
        invariant
            i <= ps@.len(),
            out@ == param_args(pairs_view(ps@).subrange(0, i as int)),
        decreases ps@.len() - i,
    {
        let ghost before = out@;
        push_literal(&mut out, " --data-urlencode \"");
        append_bytes(&mut out, ps[i].0.as_slice());
        push_literal(&mut out, "=");
        append_bytes(&mut out, ps[i].1.as_slice());
        push_literal(&mut out, "\"");
        proof {
            let s = pairs_view(ps@).subrange(0, i + 1);
            assert(s.drop_last() =~= pairs_view(ps@).subrange(0, i as int));
            assert(out@ =~= param_args(s));
        }
        i = i + 1;
    }
    assert(pairs_view(ps@).subrange(0, ps@.len() as int) =~= pairs_view(ps@));
    out
}

/// The headers as `curl` arguments.
pub fn header_args_exec(hs: &Vec<(Vec<u8>, Vec<u8>)>) -> (r: Vec<u8>)
    ensures
        r@ == header_args(pairs_view(hs@)),
{
    let mut out: Vec<u8> = Vec::new();
    let mut i: usize = 0;
    while i < hs.len()
        invariant
            i <= hs@.len(),
            out@ == header_args(pairs_view(hs@).subrange(0, i as int)),
        decreases hs@.len() - i,
    {
        push_literal(&mut out, " -H \"");
        append_bytes(&mut out, hs[i].0.as_slice());
        push_literal(&mut out, ": ");
        append_bytes(&mut out, hs[i].1.as_slice());
        push_literal(&mut out, "\"");
        proof {
            let s = pairs_view(hs@).subrange(0, i + 1);
            assert(s.drop_last() =~= pairs_view(hs@).subrange(0, i as int));
            assert(out@ =~= header_args(s));
        }
        i = i + 1;
    }
    assert(pairs_view(hs@).subrange(0, hs@.len() as int) =~= pairs_view(hs@));
    out
}

/// The command that GETs `path` with the query parameters and headers.
pub fn get_request_command(path: &[u8], parameters: &Vec<(Vec<u8>, Vec<u8>)>, headers: &Vec<(Vec<u8>, Vec<u8>)>) -> (r: Vec<u8>)
    ensures
        r@ == get_command(path@, pairs_view(parameters@), pairs_view(headers@)),
{
    let params = param_args_exec(parameters);
    let heads = header_args_exec(headers);
    let mut out: Vec<u8> = Vec::new();
    push_literal(&mut out, "curl -G ");
    append_bytes(&mut out, params.as_slice());
    push_literal(&mut out, " ");
    append_bytes(&mut out, heads.as_slice());
    push_literal(&mut out, " ");
    push_literal(&mut out, "https://discord.com/api/");
    append_bytes(&mut out, path);
    assert(out@ =~= get_command(path@, pairs_view(parameters@), pairs_view(headers@)));
    out
}

/// The command that POSTs `body` to `path` with the headers.
pub fn post_request_command(path: &[u8], headers: &Vec<(Vec<u8>, Vec<u8>)>, body: &[u8]) -> (r: Vec<u8>)
    ensures
        r@ == post_command(path@, pairs_view(headers@), body@),
{
    let heads = header_args_exec(headers);
    let mut out: Vec<u8> = Vec::new();
    push_literal(&mut out, "curl --request POST ");
    append_bytes(&mut out, heads.as_slice());
    push_literal(&mut out, " -d '");
    append_bytes(&mut out, body);
    push_literal(&mut out, "' ");
    push_literal(&mut out, "https://discord.com/api/");
    append_bytes(&mut out, path);
    assert(out@ =~= post_command(path@, pairs_view(headers@), body@));
    out
}

fn pair(a: &str, b: Vec<u8>) -> (r: (Vec<u8>, Vec<u8>))
    ensures
        r.0@ == a.spec_bytes(),
        r.1@ == b@,
{
    (crate::text::literal(a), b)
}

/// The headers that every request carries.
pub fn standard_headers_exec(token: &Vec<u8>) -> (r: Vec<(Vec<u8>, Vec<u8>)>)
    ensures
        pairs_view(r@) == standard_headers(token@),
{
    let mut r: Vec<(Vec<u8>, Vec<u8>)> = Vec::new();
    r.push(pair("Content-Type", crate::text::literal("application/json")));
    let t = copy_range(token.as_slice(), 0, token.len());
    assert(t@ =~= token@);
    r.push(pair("Authorization", t));
    r.push(pair("Content-Disposition", crate::text::literal("form-data; name=\\\"content\\\"")));
    assert(pairs_view(r@) =~= standard_headers(token@));
    r
}

/// The path of the list of the account's guilds.
pub open spec fn guilds_path() -> Seq<u8> {
    "users/@me/guilds".spec_bytes()
}

/// The path of a guild.
pub open spec fn guild_path(id: i64) -> Seq<u8> {
    "guilds/".spec_bytes() + signed_decimal(id as int)
}

/// The path of a guild's channel list.
pub open spec fn channels_path(id: i64) -> Seq<u8> {
    guild_path(id) + "/channels".spec_bytes()
}

/// The path of a channel's messages.
pub open spec fn messages_path(id: i64) -> Seq<u8> {
    "channels/".spec_bytes() + signed_decimal(id as int) + "/messages".spec_bytes()
}

/// The body that posts a message: the text between quotes as it is.
pub open spec fn message_body(content: Seq<u8>) -> Seq<u8> {
    "{\"content\":\"".spec_bytes() + content + "\"}".spec_bytes()
}

impl Fokcord {
    /// The command that fetches the account's guild list.
    pub fn guilds_request(&self) -> (r: Vec<u8>)
        ensures
            r@ == get_command(guilds_path(), seq![], standard_headers(self@.token)),
    {
        let hs = standard_headers_exec(&self.token);
        let ps: Vec<(Vec<u8>, Vec<u8>)> = Vec::new();
        let path = crate::text::literal("users/@me/guilds");
        let r = get_request_command(path.as_slice(), &ps, &hs);
        assert(pairs_view(ps@) =~= seq![]);
        r
    }

    /// The command that fetches a guild.
    pub fn guild_request(&self, guild: i64) -> (r: Vec<u8>)
        ensures
            r@ == get_command(guild_path(guild), seq![], standard_headers(self@.token)),
    {
        let hs = standard_headers_exec(&self.token);
        let ps: Vec<(Vec<u8>, Vec<u8>)> = Vec::new();
        let mut path = crate::text::literal("guilds/");
        let id = signed_decimal_bytes(guild);
        append_bytes(&mut path, id.as_slice());
        let r = get_request_command(path.as_slice(), &ps, &hs);
        assert(pairs_view(ps@) =~= seq![]);
        r
    }

    /// The command that fetches a guild's channel list.
    pub fn channels_request(&self, guild: i64) -> (r: Vec<u8>)
        ensures
            r@ == get_command(channels_path(guild), seq![], standard_headers(self@.token)),
    {
        let hs = standard_headers_exec(&self.token);
        let ps: Vec<(Vec<u8>, Vec<u8>)> = Vec::new();
        let mut path = crate::text::literal("guilds/");
        let id = signed_decimal_bytes(guild);
        append_bytes(&mut path, id.as_slice());
        push_literal(&mut path, "/channels");
        let r = get_request_command(path.as_slice(), &ps, &hs);
        assert(pairs_view(ps@) =~= seq![]);
        assert(path@ =~= channels_path(guild));
        r
    }

    /// The command that fetches the newest fifty messages of a channel.
    pub fn messages_request(&self, channel: i64) -> (r: Vec<u8>)
        ensures
            r@ == get_command(
                messages_path(channel),
                seq![("limit".spec_bytes(), "50".spec_bytes())],
                standard_headers(self@.token),
            ),
    {
        let hs = standard_headers_exec(&self.token);
        let mut ps: Vec<(Vec<u8>, Vec<u8>)> = Vec::new();
        ps.push(pair("limit", crate::text::literal("50")));
        let mut path = crate::text::literal("channels/");
        let id = signed_decimal_bytes(channel);
        append_bytes(&mut path, id.as_slice());
        push_literal(&mut path, "/messages");
        let r = get_request_command(path.as_slice(), &ps, &hs);
        assert(pairs_view(ps@) =~= seq![("limit".spec_bytes(), "50".spec_bytes())]);
        assert(path@ =~= messages_path(channel));
        r
    }

    /// The command that posts `content` to a channel.
    pub fn send_message_request(&self, channel: i64, content: &[u8]) -> (r: Vec<u8>)
        ensures
            r@ == post_command(messages_path(channel), standard_headers(self@.token), message_body(content@)),
    {
        let hs = standard_headers_exec(&self.token);
        let mut path = crate::text::literal("channels/");
        let id = signed_decimal_bytes(channel);
        append_bytes(&mut path, id.as_slice());
        push_literal(&mut path, "/messages");
        let mut body = crate::text::literal("{\"content\":\"");
        append_bytes(&mut body, content);
        push_literal(&mut body, "\"}");
        assert(path@ =~= messages_path(channel));
        assert(body@ =~= message_body(content@));
        post_request_command(path.as_slice(), &hs, body.as_slice())
    }

    /// Keeps a guild icon drawn for the terminal.
    pub fn add_icon(&mut self, icon: Vec<u8>, picture: Vec<u8>)
        ensures
            final(self)@ == (FokcordView { icon_cache: old(self)@.icon_cache.push((icon@, picture@)), ..old(self)@ }),
    {
        let ghost iv = icon@;
        let ghost pv = picture@;
        self.icon_cache.push((icon, picture));
        assert(self@.icon_cache =~= old(self)@.icon_cache.push((iv, pv)));
        assert(self@ =~= FokcordView { icon_cache: old(self)@.icon_cache.push((iv, pv)), ..old(self)@ });
    }
}

/// Where a guild's icon is kept, under the home directory.
pub open spec fn icon_path(home: Seq<u8>, icon: Seq<u8>) -> Seq<u8> {
    home + "/.cache/fokcord/guilds/".spec_bytes() + icon + ".png".spec_bytes()
}

/// Where a guild's icon is kept, under the home directory.
pub fn icon_path_exec(home: &[u8], icon: &[u8]) -> (r: Vec<u8>)
    ensures
        r@ == icon_path(home@, icon@),
{
    let mut r = copy_range(home, 0, home.len());
    push_literal(&mut r, "/.cache/fokcord/guilds/");
    append_bytes(&mut r, icon);
    push_literal(&mut r, ".png");
    assert(r@ =~= icon_path(home@, icon@));
    r
}

/// The command that draws an icon in the terminal.
pub fn icon_display_command(path: &[u8]) -> (r: Vec<u8>)
    ensures
        r@ == "kitten icat ".spec_bytes() + path@,
{
    let mut r = crate::text::literal("kitten icat ");
    append_bytes(&mut r, path);
    r
}

/// The command that downloads a guild's icon.
pub fn icon_download_command(guild: i64, icon: &[u8]) -> (r: Vec<u8>)
    ensures
        r@ == "curl https://cdn.discordapp.com/icons/".spec_bytes() + signed_decimal(guild as int) + "/".spec_bytes()
            + icon@ + ".png".spec_bytes(),
{
    let mut r = crate::text::literal("curl https://cdn.discordapp.com/icons/");
    let id = signed_decimal_bytes(guild);
    append_bytes(&mut r, id.as_slice());
    push_literal(&mut r, "/");
    append_bytes(&mut r, icon);
    push_literal(&mut r, ".png");
    assert(r@ =~= "curl https://cdn.discordapp.com/icons/".spec_bytes() + signed_decimal(guild as int)
        + "/".spec_bytes() + icon@ + ".png".spec_bytes());
    r
}

} // verus!
