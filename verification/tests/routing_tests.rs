use distirc::message::{Command, Message, Response};
use distirc::routing::{route_message, BufferCmd, CtcpMsg, NetworkCmd, RoutedMsg};

fn privmsg(prefix: &str, dest: &str, body: &str) -> Message {
    Message {
        prefix: Some(prefix.to_owned()),
        command: Command::Privmsg,
        args: vec![dest.to_owned()],
        body: Some(body.to_owned()),
    }
}

#[test]
fn privmsg_to_own_nick_routes_private() {
    let msg = privmsg("alice!~a@host", "bob", "hi");
    match route_message(msg, "bob") {
        Some(RoutedMsg::Private(user, BufferCmd::PRIVMSG(sender, text))) => {
            assert_eq!("alice", user.nick);
            assert_eq!("alice", sender.nick);
            assert_eq!("hi", text);
        }
        other => panic!("routed wrongly: {:?}", other),
    }
}

#[test]
fn privmsg_to_channel_routes_channel() {
    let msg = privmsg("alice!~a@host", "#code", "hi all");
    match route_message(msg, "bob") {
        Some(RoutedMsg::Channel(chan, BufferCmd::PRIVMSG(user, text))) => {
            assert_eq!("#code", chan);
            assert_eq!("alice", user.nick);
            assert_eq!("hi all", text);
        }
        other => panic!("routed wrongly: {:?}", other),
    }
}

#[test]
fn ctcp_action_routes_to_channel_buffer() {
    let msg = privmsg("alice!~a@host", "#x", "\u{1}ACTION waves\u{1}");
    match route_message(msg, "bob") {
        Some(RoutedMsg::Channel(chan, BufferCmd::ACTION(user, text))) => {
            assert_eq!("#x", chan);
            assert_eq!("alice", user.nick);
            assert_eq!("waves", text);
        }
        other => panic!("routed wrongly: {:?}", other),
    }
}

#[test]
fn ctcp_version_routes_to_network() {
    let msg = privmsg("alice!~a@host", "bob", "\u{1}VERSION\u{1}");
    match route_message(msg, "bob") {
        Some(RoutedMsg::Network(NetworkCmd::CtcpQuery(user, dest, q))) => {
            assert_eq!("alice", user.nick);
            assert_eq!("bob", dest);
            assert_eq!("VERSION", q.tag);
            assert!(q.args.is_empty());
        }
        other => panic!("routed wrongly: {:?}", other),
    }
}

#[test]
fn quit_routes_to_network() {
    let msg = Message {
        prefix: Some("alice!~a@host".to_owned()),
        command: Command::Quit,
        args: vec![],
        body: Some("bye".to_owned()),
    };
    match route_message(msg, "bob") {
        Some(RoutedMsg::Network(NetworkCmd::QUIT(user, reason))) => {
            assert_eq!("alice", user.nick);
            assert_eq!(Some("bye".to_owned()), reason);
        }
        other => panic!("routed wrongly: {:?}", other),
    }
}

#[test]
fn namreply_routes_to_named_channel() {
    let msg = Message {
        prefix: Some("irc.example.net".to_owned()),
        command: Command::Response(Response::RplNamReply),
        args: vec!["bob".to_owned(), "=".to_owned(), "#x".to_owned()],
        body: Some("alice bob".to_owned()),
    };
    match route_message(msg, "bob") {
        Some(RoutedMsg::Channel(chan, BufferCmd::RPL_NAMREPLY(body))) => {
            assert_eq!("#x", chan);
            assert_eq!("alice bob", body);
        }
        other => panic!("routed wrongly: {:?}", other),
    }
}

#[test]
fn malformed_part_is_dropped() {
    let msg = Message {
        prefix: Some("alice!~a@host".to_owned()),
        command: Command::Part,
        args: vec![],
        body: None,
    };
    assert!(route_message(msg, "bob").is_none());
}

#[test]
fn unknown_code_keeps_all_data() {
    let msg = Message {
        prefix: Some("irc.example.net".to_owned()),
        command: Command::Response(Response::Other(477)),
        args: vec!["bob".to_owned(), "#x".to_owned()],
        body: Some("no".to_owned()),
    };
    match route_message(msg, "bob") {
        Some(RoutedMsg::Network(NetworkCmd::UnknownCode(code, args, body))) => {
            assert_eq!(Response::Other(477), code);
            assert_eq!(vec!["bob".to_owned(), "#x".to_owned()], args);
            assert_eq!(Some("no".to_owned()), body);
        }
        other => panic!("routed wrongly: {:?}", other),
    }
}

#[test]
fn parse_ctcp_action() {
    let parsed = CtcpMsg::from_str("\u{1}ACTION slaps user with a large trout\u{1}").unwrap();
    assert_eq!("ACTION", parsed.tag);
    assert_eq!(
        vec![
            "slaps".to_owned(),
            "user".to_owned(),
            "with".to_owned(),
            "a".to_owned(),
            "large".to_owned(),
            "trout".to_owned()
        ],
        parsed.args
    );
}

#[test]
fn parse_ctcp_rejects_plain_text() {
    assert!(CtcpMsg::from_str("just words").is_err());
}

#[test]
fn ctcp_tag_is_uppercased() {
    let parsed = CtcpMsg::from_str("\u{1}version\u{1}").unwrap();
    assert_eq!("VERSION", parsed.tag);
}
