use distirc::config::NetConfig;
use distirc::lifecycle::{IrcNetConn, NetConnState};
use distirc::logstore::Day;
use distirc::message::{Command, Message, Response};
use distirc::model::BufKey;
use distirc::messages::BufTarget;
use distirc::wrap::{PadText, StringWrap};
use distirc::handle::{BaseUpdateHandle, BufEnvelope, UpdateHandle, WrappedUpdateHandle};
use distirc::messages::{CoreBufMsg, CoreNetMsg};

fn cfg_with_pass(pass: Option<&str>) -> NetConfig {
    NetConfig {
        nick: "bob".to_owned(),
        alt_nicks: vec!["bob_".to_owned()],
        nickserv_pass: pass.map(|p| p.to_owned()),
        channels: vec!["#x".to_owned(), "#y".to_owned()],
        username: None,
        realname: Some("Bob".to_owned()),
        server: "irc.example.net".to_owned(),
        port: None,
        password: None,
        use_ssl: None,
    }
}

#[test]
fn config_getters_fill_defaults() {
    let cfg = cfg_with_pass(None);
    assert_eq!("bob", cfg.nick());
    assert_eq!("bob", cfg.username());
    assert_eq!("Bob", cfg.realname());
    assert_eq!(6667, cfg.port());
    assert_eq!(None, cfg.nickserv_pass());
    let resolved = cfg.irc_config();
    assert_eq!("bob", resolved.nickname);
    assert_eq!(6667, resolved.port);
    assert_eq!(vec!["#x".to_owned(), "#y".to_owned()], resolved.channels);
}

#[test]
fn lifecycle_registration_and_join() {
    let cfg = cfg_with_pass(None);
    let (mut conn, msgs) = IrcNetConn::create("u".to_owned(), "example".to_owned(), &cfg);
    assert_eq!(2, msgs.len());
    assert_eq!(Command::User, msgs[0].command);
    assert_eq!(vec!["bob".to_owned(), "0".to_owned(), "*".to_owned()], msgs[0].args);
    assert_eq!(Some("Bob".to_owned()), msgs[0].body);
    assert_eq!(Command::Nick, msgs[1].command);

    let welcome = Message {
        prefix: Some("irc.example.net".to_owned()),
        command: Command::Response(Response::RplWelcome),
        args: vec!["bob".to_owned()],
        body: Some("Welcome".to_owned()),
    };
    let (out, forward) = conn.recv(&welcome, &cfg);
    assert!(forward);
    assert_eq!(1, out.len());
    assert_eq!(Command::Join, out[0].command);
    assert_eq!(vec!["#x,#y".to_owned()], out[0].args);
}

#[test]
fn lifecycle_auths_with_nickserv_then_joins() {
    let cfg = cfg_with_pass(Some("SECRET-REDACTED"));
    let (mut conn, _msgs) = IrcNetConn::create("u".to_owned(), "example".to_owned(), &cfg);
    let welcome = Message {
        prefix: Some("irc.example.net".to_owned()),
        command: Command::Response(Response::RplWelcome),
        args: vec!["bob".to_owned()],
        body: None,
    };
    let (out, _) = conn.recv(&welcome, &cfg);
    assert_eq!(1, out.len());
    assert_eq!(Command::Privmsg, out[0].command);
    assert_eq!(vec!["NickServ".to_owned()], out[0].args);
    assert_eq!(Some("identify SECRET-REDACTED".to_owned()), out[0].body);

    // Any NOTICE concludes authentication and triggers the joins.
    let notice = Message {
        prefix: Some("NickServ!s@services".to_owned()),
        command: Command::Notice,
        args: vec!["bob".to_owned()],
        body: Some("You are now identified".to_owned()),
    };
    let (out, _) = conn.recv(&notice, &cfg);
    assert_eq!(1, out.len());
    assert_eq!(Command::Join, out[0].command);
}

#[test]
fn lifecycle_answers_ping_directly() {
    let cfg = cfg_with_pass(None);
    let (mut conn, _msgs) = IrcNetConn::create("u".to_owned(), "example".to_owned(), &cfg);
    let ping = Message {
        prefix: None,
        command: Command::Ping,
        args: vec!["irc.example.net".to_owned()],
        body: None,
    };
    let (out, forward) = conn.recv(&ping, &cfg);
    assert!(!forward, "PING never reaches the routing layer");
    assert_eq!(1, out.len());
    assert_eq!(Command::Pong, out[0].command);
    assert_eq!(vec!["irc.example.net".to_owned()], out[0].args);
}

#[test]
fn day_prev_crosses_month_and_leap_boundaries() {
    let d = Day { year: 2026, month: 10, day: 11 };
    assert_eq!(Day { year: 2026, month: 10, day: 10 }, d.prev());
    let first = Day { year: 2026, month: 3, day: 1 };
    assert_eq!(Day { year: 2026, month: 2, day: 28 }, first.prev());
    let leap = Day { year: 2024, month: 3, day: 1 };
    assert_eq!(Day { year: 2024, month: 2, day: 29 }, leap.prev());
    let newyear = Day { year: 2026, month: 1, day: 1 };
    assert_eq!(Day { year: 2025, month: 12, day: 31 }, newyear.prev());
}

#[test]
fn buf_key_from_targ() {
    assert_eq!(
        BufKey::Channel("net".to_owned(), "#x".to_owned()),
        BufKey::from_targ("net".to_owned(), BufTarget::Channel("#x".to_owned()))
    );
    assert_eq!(
        BufKey::Network("net".to_owned()),
        BufKey::from_targ("net".to_owned(), BufTarget::Network)
    );
}

#[test]
fn pad_text_width() {
    assert_eq!(4, PadText::Left(4).width());
    assert_eq!(9, PadText::Right(9).width());
}

#[test]
fn string_wrap_breaks_at_spaces() {
    let text = "aaa bbb ccc";
    let wrap = StringWrap::new(text, 4);
    assert_eq!(3, wrap.line_count());
    let mut it = wrap.iter_lines(text);
    assert_eq!(Some("aaa ".to_owned()), it.next());
    assert_eq!(Some("bbb ".to_owned()), it.next());
    assert_eq!(Some("ccc".to_owned()), it.next());
    assert_eq!(None, it.next());
    assert_eq!((2, 1), {
        let p = wrap.idx_pos(6);
        (p.0, p.1)
    });
}

#[test]
fn string_wrap_line_at_matches_iter() {
    let text = "aaa bbb ccc";
    let wrap = StringWrap::new(text, 4);
    assert_eq!("aaa ".to_owned(), wrap.line_at(text, 0));
    assert_eq!("bbb ".to_owned(), wrap.line_at(text, 1));
    assert_eq!("ccc".to_owned(), wrap.line_at(text, 2));
}

#[test]
fn response_codes_round_trip() {
    assert_eq!(Response::RplWelcome, Response::from_u16(1));
    assert_eq!(Response::RplNamReply, Response::from_u16(353));
    assert_eq!(Response::Other(477), Response::from_u16(477));
    assert_eq!(353, Response::RplNamReply.to_u16());
    assert_eq!(477, Response::Other(477).to_u16());
}

#[test]
fn wrapped_handle_envelopes_messages() {
    let env = BufEnvelope { target: BufTarget::Channel("#x".to_owned()) };
    let mut wrapped: WrappedUpdateHandle<CoreBufMsg, CoreNetMsg, BufEnvelope> =
        WrappedUpdateHandle::new(env);
    wrapped.send_clients(CoreBufMsg::State { joined: true });
    let mut inner: BaseUpdateHandle<CoreNetMsg> = wrapped.into_inner();
    let msgs = inner.take_msgs();
    assert_eq!(1, msgs.len());
    match &msgs[0] {
        CoreNetMsg::BufMsg(t, CoreBufMsg::State { joined }) => {
            assert_eq!(&BufTarget::Channel("#x".to_owned()), t);
            assert!(*joined);
        }
        other => panic!("wrong envelope: {:?}", other),
    }
}
