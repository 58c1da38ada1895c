use distirc::config::NetConfig;
use distirc::handle::BaseUpdateHandle;
use distirc::message::{Command, Message, Response};
use distirc::messages::{BufTarget, ClientBufMsg, CoreBufMsg, CoreMsg, CoreNetMsg, SendMsgKind};
use distirc::network::IrcNetwork;
use distirc::session::{handle_buf_msg, handle_net_msg, ClientBufs};
use distirc::messages::ClientNetMsg;

fn base_cfg() -> NetConfig {
    NetConfig {
        nick: "bob".to_owned(),
        alt_nicks: vec![],
        nickserv_pass: None,
        channels: vec![],
        username: None,
        realname: None,
        server: "irc.example.net".to_owned(),
        port: None,
        password: None,
        use_ssl: None,
    }
}

fn net_with_channel() -> IrcNetwork {
    let mut net = IrcNetwork::new("example".to_owned(), base_cfg());
    let mut u = BaseUpdateHandle::<CoreNetMsg>::new();
    net.handle_msg(
        Message {
            prefix: Some("irc.example.net".to_owned()),
            command: Command::Response(Response::RplMyInfo),
            args: vec!["bob".to_owned()],
            body: None,
        },
        &mut u,
    );
    net.handle_msg(
        Message {
            prefix: Some("alice!~a@host".to_owned()),
            command: Command::Privmsg,
            args: vec!["#x".to_owned()],
            body: Some("one".to_owned()),
        },
        &mut u,
    );
    net
}

#[test]
fn failed_send_becomes_one_status_reply() {
    let mut net = net_with_channel();
    let mut bufs = ClientBufs::new();
    let mut u = BaseUpdateHandle::<CoreNetMsg>::new();
    let targ = BufTarget::Channel("#x".to_owned());
    let replies = handle_buf_msg(
        &mut bufs,
        &targ,
        &mut net,
        ClientBufMsg::SendMsg("hi".to_owned(), SendMsgKind::PrivMsg),
        &mut u,
    );
    assert_eq!(1, replies.len());
    match &replies[0] {
        CoreMsg::Status(text) => {
            assert_eq!("Can't send to channel: Not connected to IRC", text);
        }
        other => panic!("wrong reply: {:?}", other),
    }
}

#[test]
fn fetch_logs_request_is_answered_with_scrollback() {
    let mut net = net_with_channel();
    let mut bufs = ClientBufs::new();
    let mut u = BaseUpdateHandle::<CoreNetMsg>::new();
    let targ = BufTarget::Channel("#x".to_owned());
    let replies = handle_buf_msg(&mut bufs, &targ, &mut net, ClientBufMsg::FetchLogs(5), &mut u);
    assert_eq!(1, replies.len());
    match &replies[0] {
        CoreMsg::NetMsg(nid, CoreNetMsg::BufMsg(t, CoreBufMsg::Scrollback(lines))) => {
            assert_eq!("example", nid);
            assert_eq!(&targ, t);
            assert_eq!(1, lines.len());
        }
        other => panic!("wrong reply: {:?}", other),
    }
}

#[test]
fn net_requests_report_failures_as_status() {
    let mut net = net_with_channel();
    let mut bufs = ClientBufs::new();
    let mut u = BaseUpdateHandle::<CoreNetMsg>::new();
    let replies = handle_net_msg(
        &mut bufs,
        &mut net,
        ClientNetMsg::JoinChan("#y".to_owned()),
        &mut u,
    );
    assert_eq!(1, replies.len());
    match &replies[0] {
        CoreMsg::Status(text) => {
            assert_eq!("Can't join channel: Not connected to IRC", text);
        }
        other => panic!("wrong reply: {:?}", other),
    }
}

#[test]
fn to_info_summarizes_buffers() {
    let net = net_with_channel();
    let info = net.to_info();
    assert_eq!("example", info.id);
    assert_eq!("bob", info.nick);
    assert_eq!(1, info.buffers.len());
    assert_eq!(
        distirc::messages::BufTarget::Channel("#x".to_owned()),
        info.buffers[0].id
    );
}
