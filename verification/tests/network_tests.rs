use distirc::config::NetConfig;
use distirc::handle::BaseUpdateHandle;
use distirc::alert::AlertKind;
use distirc::line::LineData;
use distirc::message::{Command, Message, Response};
use distirc::messages::{BufTarget, CoreNetMsg, CoreMsg, SendMsgKind};
use distirc::network::{IrcNetwork, IrcSendErr};

fn cfg() -> NetConfig {
    NetConfig {
        nick: "bob".to_owned(),
        alt_nicks: vec![],
        nickserv_pass: None,
        channels: vec!["#x".to_owned()],
        username: None,
        realname: None,
        server: "irc.example.net".to_owned(),
        port: None,
        password: None,
        use_ssl: None,
    }
}

fn net_with_nick(nick: &str) -> IrcNetwork {
    let mut net = IrcNetwork::new("example".to_owned(), cfg());
    let mut u = BaseUpdateHandle::<CoreNetMsg>::new();
    let myinfo = Message {
        prefix: Some("irc.example.net".to_owned()),
        command: Command::Response(Response::RplMyInfo),
        args: vec![nick.to_owned()],
        body: None,
    };
    net.handle_msg(myinfo, &mut u);
    net
}

fn privmsg_from(from: &str, dest: &str, body: &str) -> Message {
    Message {
        prefix: Some(format!("{}!~{}@host", from, from)),
        command: Command::Privmsg,
        args: vec![dest.to_owned()],
        body: Some(body.to_owned()),
    }
}

#[test]
fn private_message_creates_buffer_and_alert() {
    let mut net = net_with_nick("bob");
    let mut u = BaseUpdateHandle::<CoreNetMsg>::new();
    net.handle_msg(privmsg_from("alice", "bob", "hi"), &mut u);

    let targ = BufTarget::Private("alice".to_owned());
    let buf = net.get_buf(&targ).expect("private buffer not created");
    let line = buf.get_line(0).expect("line missing");
    match &line.data {
        LineData::Message { from, msg, .. } => {
            assert_eq!("alice", from);
            assert_eq!("hi", msg);
        }
        other => panic!("wrong line: {:?}", other),
    }
    let alerts = u.take_alerts();
    assert_eq!(1, alerts.len());
    assert_eq!(AlertKind::PrivMsg, alerts[0].kind);
    assert_eq!("alice", alerts[0].buf);
}

#[test]
fn channel_mention_posts_ping_alert() {
    let mut net = net_with_nick("bob");
    let mut u = BaseUpdateHandle::<CoreNetMsg>::new();
    net.handle_msg(privmsg_from("alice", "#x", "hey bob, look"), &mut u);

    let targ = BufTarget::Channel("#x".to_owned());
    let buf = net.get_buf(&targ).expect("channel buffer not created");
    assert_eq!(1, buf.front_len());
    let alerts = u.take_alerts();
    assert_eq!(1, alerts.len());
    assert_eq!(AlertKind::Ping, alerts[0].kind);
    assert_eq!("#x", alerts[0].buf);

    // The same message without the nick pushes a line but posts no alert.
    net.handle_msg(privmsg_from("alice", "#x", "hey all, look"), &mut u);
    let buf = net.get_buf(&targ).unwrap();
    assert_eq!(2, buf.front_len());
    assert!(u.take_alerts().is_empty());
}

#[test]
fn send_chat_msg_error_cases() {
    let mut net = net_with_nick("bob");
    let mut u = BaseUpdateHandle::<CoreNetMsg>::new();
    let chan = BufTarget::Channel("#x".to_owned());

    // No such buffer yet.
    assert_eq!(
        Err(IrcSendErr::Unavail),
        net.send_chat_msg(chan.clone(), "hi".to_owned(), SendMsgKind::PrivMsg, &mut u)
    );

    // Create the buffer, but stay disconnected.
    net.handle_msg(privmsg_from("alice", "#x", "hello"), &mut u);
    assert_eq!(
        Err(IrcSendErr::Disconnected),
        net.send_chat_msg(chan.clone(), "hi".to_owned(), SendMsgKind::PrivMsg, &mut u)
    );

    // The network's own buffer is not addressable.
    let netbuf = BufTarget::Network;
    net.handle_msg(
        Message {
            prefix: Some("irc.example.net".to_owned()),
            command: Command::Response(Response::RplMotd),
            args: vec![],
            body: Some("welcome".to_owned()),
        },
        &mut u,
    );
    assert_eq!(
        Err(IrcSendErr::BadTarget),
        net.send_chat_msg(netbuf, "hi".to_owned(), SendMsgKind::PrivMsg, &mut u)
    );
}

#[test]
fn successful_send_echoes_locally_and_queues_wire_msg() {
    let mut net = net_with_nick("bob");
    let mut cu = BaseUpdateHandle::<CoreMsg>::new();
    let mut u = BaseUpdateHandle::<CoreNetMsg>::new();
    net.handle_msg(privmsg_from("alice", "#x", "hello"), &mut u);
    net.register_conn(&mut cu);

    let chan = BufTarget::Channel("#x".to_owned());
    assert_eq!(
        Ok(()),
        net.send_chat_msg(chan.clone(), "hi back".to_owned(), SendMsgKind::Action, &mut u)
    );
    let buf = net.get_buf(&chan).unwrap();
    let echoed = buf.get_line(1).expect("echo missing");
    match &echoed.data {
        LineData::Message { from, msg, .. } => {
            assert_eq!("bob", from);
            assert_eq!("hi back", msg);
        }
        other => panic!("wrong echo: {:?}", other),
    }
    let mut rx = net.take_outbound();
    let wire = rx.recv().unwrap().expect("wire message missing");
    assert_eq!(Command::Privmsg, wire.command);
    assert_eq!(vec!["#x".to_owned()], wire.args);
    assert_eq!(Some("\u{1}ACTION hi back\u{1}".to_owned()), wire.body);
    assert_eq!(Ok(None), rx.recv());
}

#[test]
fn nick_change_updates_current_nick() {
    let mut net = net_with_nick("bob");
    let mut u = BaseUpdateHandle::<CoreNetMsg>::new();
    assert_eq!("bob", net.nick());
    let change = Message {
        prefix: Some("bob!~bob@host".to_owned()),
        command: Command::Nick,
        args: vec!["robert".to_owned()],
        body: None,
    };
    net.handle_msg(change, &mut u);
    assert_eq!("robert", net.nick());
}

#[test]
fn quit_fans_out_to_buffers_with_the_user() {
    let mut net = net_with_nick("bob");
    let mut u = BaseUpdateHandle::<CoreNetMsg>::new();
    // Put alice into #x via a NAMES reply.
    let names = Message {
        prefix: Some("irc.example.net".to_owned()),
        command: Command::Response(Response::RplNamReply),
        args: vec!["bob".to_owned(), "=".to_owned(), "#x".to_owned()],
        body: Some("alice bob".to_owned()),
    };
    net.handle_msg(names, &mut u);
    let quit = Message {
        prefix: Some("alice!~alice@host".to_owned()),
        command: Command::Quit,
        args: vec![],
        body: Some("bye".to_owned()),
    };
    net.handle_msg(quit, &mut u);
    let buf = net.get_buf(&BufTarget::Channel("#x".to_owned())).unwrap();
    assert!(!buf.has_user("alice"));
    assert!(buf.has_user("bob"));
    let last = buf.get_line(buf.front_len() - 1).unwrap();
    match &last.data {
        LineData::Quit { user, msg } => {
            assert_eq!("alice", user.nick);
            assert_eq!(Some("bye".to_owned()), msg.clone());
        }
        other => panic!("wrong line: {:?}", other),
    }
}
