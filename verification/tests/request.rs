use fokcord::model::Fokcord;
use fokcord::request::{
    get_request_command, header_args_exec, icon_display_command, icon_download_command, icon_path_exec,
    param_args_exec, post_request_command,
};

const HEADS: &str = " -H \"Content-Type: application/json\" -H \"Authorization: tok\" -H \"Content-Disposition: form-data; name=\\\"content\\\"\"";

fn text(b: Vec<u8>) -> String {
    String::from_utf8(b).unwrap()
}

#[test]
fn guild_list_request() {
    let f = Fokcord::new(b"tok".to_vec());
    assert_eq!(text(f.guilds_request()), format!("curl -G  {} https://discord.com/api/users/@me/guilds", HEADS));
}

#[test]
fn guild_and_channel_requests() {
    let f = Fokcord::new(b"tok".to_vec());
    assert_eq!(text(f.guild_request(42)), format!("curl -G  {} https://discord.com/api/guilds/42", HEADS));
    assert_eq!(text(f.channels_request(-42)), format!("curl -G  {} https://discord.com/api/guilds/-42/channels", HEADS));
}

#[test]
fn message_list_request() {
    let f = Fokcord::new(b"tok".to_vec());
    assert_eq!(
        text(f.messages_request(1234567890123)),
        format!("curl -G  --data-urlencode \"limit=50\" {} https://discord.com/api/channels/1234567890123/messages", HEADS)
    );
}

#[test]
fn sending_a_message() {
    let f = Fokcord::new(b"tok".to_vec());
    assert_eq!(
        text(f.send_message_request(9, b"hello")),
        format!("curl --request POST {} -d '{{\"content\":\"hello\"}}' https://discord.com/api/channels/9/messages", HEADS)
    );
}

#[test]
fn arguments_in_order() {
    let ps = vec![(b"a".to_vec(), b"1".to_vec()), (b"b".to_vec(), b"2".to_vec())];
    assert_eq!(text(param_args_exec(&ps)), " --data-urlencode \"a=1\" --data-urlencode \"b=2\"");
    assert_eq!(text(header_args_exec(&ps)), " -H \"a: 1\" -H \"b: 2\"");
    assert_eq!(text(param_args_exec(&vec![])), "");
    assert_eq!(text(get_request_command(b"x", &vec![], &vec![])), "curl -G   https://discord.com/api/x");
    assert_eq!(text(post_request_command(b"y", &vec![], b"B")), "curl --request POST  -d 'B' https://discord.com/api/y");
}

#[test]
fn icon_commands() {
    let path = icon_path_exec(b"/home/u", b"abc");
    assert_eq!(text(path.clone()), "/home/u/.cache/fokcord/guilds/abc.png");
    assert_eq!(text(icon_display_command(&path)), "kitten icat /home/u/.cache/fokcord/guilds/abc.png");
    assert_eq!(text(icon_download_command(7, b"abc")), "curl https://cdn.discordapp.com/icons/7/abc.png");
}
