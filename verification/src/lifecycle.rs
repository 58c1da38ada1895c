//! The connection lifecycle: what to send at registration and how the
//! identify/auth/join handshake advances as server messages arrive.
use vstd::prelude::*;
use vstd::string::StrSliceExecFns;
use vstd::string::StringExecFns;
use crate::config::NetConfig;
use crate::message::{Message, MessageV, Command, CommandV, Response};
use crate::strutil::{join_spec, join_with};
use crate::types::NetId;

verus! {

/// The connection's state of initialization.
#[derive(Debug, Clone, Copy, PartialEq, Eq)]
pub enum NetConnState {
    /// Waiting for the server to respond to our USER and NICK messages.
    Identifying,
    /// Waiting on NickServ to respond to our authentication. Any NOTICE is
    /// taken as authentication having concluded.
    Authing,
    Connected,
}

/// An action performed by a connection machine: either keep running with a
/// next state, or stop (with an error), plus messages to transmit.
#[derive(Debug)]
pub struct IrcAction<M> {
    state: Result<M, Option<String>>,
    send: Vec<Message>,
}

impl<M> IrcAction<M> {
    /// How the connection goes on: run with the machine, or stop, with an
    /// error or gracefully.
    pub closed spec fn state_spec(&self) -> Result<M, Option<Seq<char>>> {
        match &self.state {
            Ok(m) => Ok(*m),
            Err(Some(e)) => Err(Some(e@)),
            Err(None) => Err(None),
        }
    }

    /// The messages this action transmits, in order.
    pub closed spec fn sends(&self) -> Seq<MessageV> {
        self.send.deep_view()
    }

    /// An action that keeps the connection running.
    pub fn ok(machine: M) -> (r: IrcAction<M>)
        ensures
            r.state_spec() == Ok::<M, Option<Seq<char>>>(machine),
            r.sends() == Seq::<MessageV>::empty(),
    {
        let r = IrcAction { state: Ok(machine), send: Vec::new() };
        proof {
            assert(r.sends() =~= Seq::<MessageV>::empty());
        }
        r
    }

    /// Closes the connection with the given error.
    pub fn error(e: String) -> (r: IrcAction<M>)
        ensures
            r.state_spec() == Err::<M, Option<Seq<char>>>(Some(e@)),
            r.sends() == Seq::<MessageV>::empty(),
    {
        let r = IrcAction { state: Err(Some(e)), send: Vec::new() };
        proof {
            assert(r.sends() =~= Seq::<MessageV>::empty());
        }
        r
    }

    /// Gracefully closes the connection.
    pub fn close() -> (r: IrcAction<M>)
        ensures
            r.state_spec() == Err::<M, Option<Seq<char>>>(None),
            r.sends() == Seq::<MessageV>::empty(),
    {
        let r = IrcAction { state: Err(None), send: Vec::new() };
        proof {
            assert(r.sends() =~= Seq::<MessageV>::empty());
        }
        r
    }

    /// Adds the given message to be sent by this action.
    pub fn send(self, msg: Message) -> (r: IrcAction<M>)
        ensures
            r.state_spec() == self.state_spec(),
            r.sends() == self.sends().push(msg@),
    {
        let IrcAction { state, mut send } = self;
        let ghost mv = msg@;
        let ghost pre = send.deep_view();
        send.push(msg);
        let r = IrcAction { state, send };
        proof {
            assert(r.sends() =~= pre.push(mv));
        }
        r
    }

    /// Adds the given messages to be sent by this action, in order.
    pub fn send_all(self, msgs: Vec<Message>) -> (r: IrcAction<M>)
        ensures
            r.state_spec() == self.state_spec(),
            r.sends() == self.sends() + msgs.deep_view(),
    {
        let IrcAction { state, mut send } = self;
        let ghost pre = send.deep_view();
        let ghost more = msgs.deep_view();
        let mut rest = msgs;
        let n0 = rest.len();
        let mut k: usize = 0;
        while rest.len() > 0
            invariant
                more.len() == n0 as int,
                k + rest.deep_view().len() == more.len(),
                rest.deep_view() == more.skip(k as int),
                send.deep_view() == pre + more.take(k as int),
            decreases rest.len(),
        {
            let ghost entry = rest@;
            let ghost entry_dv = rest.deep_view();
            let m = rest.remove(0);
            proof {
                assert(entry_dv[0] == more.skip(k as int)[0]);
                assert(more.skip(k as int)[0] == more[k as int]);
                assert(m.deep_view() == entry_dv[0]);
                assert forall|j: int|
                    0 <= j < rest.deep_view().len() implies rest.deep_view()[j] == more.skip(
                    k + 1,
                )[j] by {
                    assert(rest@[j] == entry.remove(0)[j]);
                    assert(entry.remove(0)[j] == entry[j + 1]);
                    assert(entry_dv[j + 1] == more.skip(k as int)[j + 1]);
                }
                assert(rest.deep_view() =~= more.skip(k + 1));
            }
            let ghost presend = send.deep_view();
            send.push(m);
            proof {
                assert(send.deep_view() =~= presend.push(more[k as int]));
                assert(send.deep_view() =~= pre + more.take(k + 1));
            }
            k = k + 1;
        }
        proof {
            assert(more.take(more.len() as int) =~= more);
            assert(more.skip(0) =~= more);
            assert(pre + more.take(0) =~= pre);
        }
        let r = IrcAction { state, send };
        r
    }
}

/// The registration messages a new connection sends: USER with the
/// configured username and real name, then NICK with the configured nick.
pub open spec fn register_msgs(cfg: NetConfig) -> Seq<MessageV> {
    let uname = match crate::line::opt_str_view(&cfg.username) {
        Some(u) => u,
        None => cfg.nick@,
    };
    let rname = match crate::line::opt_str_view(&cfg.realname) {
        Some(u) => u,
        None => cfg.nick@,
    };
    seq![
        MessageV {
            prefix: None,
            command: CommandV::User,
            args: seq![uname, "0"@, "*"@],
            body: Some(rname),
        },
        MessageV { prefix: None, command: CommandV::Nick, args: seq![cfg.nick@], body: None },
    ]
}

/// The JOIN for the configured channels, joined into one argument.
pub open spec fn join_channels_msg(cfg: NetConfig) -> MessageV {
    MessageV {
        prefix: None,
        command: CommandV::Join,
        args: seq![join_spec(cfg.channels.deep_view(), ',')],
        body: None,
    }
}

/// The NickServ identify message for the configured password.
pub open spec fn identify_msg(pass: Seq<char>) -> MessageV {
    MessageV {
        prefix: None,
        command: CommandV::Privmsg,
        args: seq!["NickServ"@],
        body: Some("identify "@ + pass),
    }
}

/// State machine for one network's IRC connection: which user and network it
/// belongs to and how far the identify/auth/join handshake has come.
#[derive(Debug)]
pub struct IrcNetConn {
    uid: String,
    nid: NetId,
    state: NetConnState,
}

impl IrcNetConn {
    pub closed spec fn uid_spec(&self) -> Seq<char> {
        self.uid@
    }

    pub closed spec fn nid_spec(&self) -> Seq<char> {
        self.nid@
    }

    pub closed spec fn state_spec(&self) -> NetConnState {
        self.state
    }

    /// Starts a connection: the machine begins identifying, and the USER and
    /// NICK registration messages go out.
    pub fn create(uid: String, nid: NetId, cfg: &NetConfig) -> (r: (IrcNetConn, Vec<Message>))
        ensures
            r.0.uid_spec() == uid@,
            r.0.nid_spec() == nid@,
            r.0.state_spec() == NetConnState::Identifying,
            r.1.deep_view() == register_msgs(*cfg),
    {
        let mut args: Vec<String> = Vec::new();
        args.push(cfg.username().to_owned());
        args.push("0".to_owned());
        args.push("*".to_owned());
        let user_msg = Message {
            prefix: None,
            command: Command::User,
            args,
            body: Some(cfg.realname().to_owned()),
        };
        let mut nargs: Vec<String> = Vec::new();
        nargs.push(cfg.nick.clone());
        let nick_msg = Message { prefix: None, command: Command::Nick, args: nargs, body: None };
        let mut out: Vec<Message> = Vec::new();
        let ghost uv = user_msg@;
        let ghost nv = nick_msg@;
        out.push(user_msg);
        out.push(nick_msg);
        proof {
            assert(uv.args =~= register_msgs(*cfg)[0].args);
            assert(nv.args =~= register_msgs(*cfg)[1].args);
            assert(out.deep_view() =~= register_msgs(*cfg));
        }
        (IrcNetConn { uid, nid, state: NetConnState::Identifying }, out)
    }

    /// Advances the handshake on one received message and says what to send:
    /// a PING is answered with a PONG and handled here alone; the welcome
    /// numeric triggers either NickServ identification or the channel JOINs;
    /// in the authing state any NOTICE concludes authentication and triggers
    /// the JOINs. The second result is false exactly for PING, which the
    /// network layer never sees.
    pub fn recv(&mut self, msg: &Message, cfg: &NetConfig) -> (r: (Vec<Message>, bool))
        ensures
            final(self).uid_spec() == old(self).uid_spec(),
            final(self).nid_spec() == old(self).nid_spec(),
            match msg.command {
                Command::Ping => {
                    &&& r.1 == false
                    &&& final(self).state_spec() == old(self).state_spec()
                    &&& r.0.deep_view() == seq![
                        MessageV {
                            prefix: None,
                            command: CommandV::Pong,
                            args: msg@.args,
                            body: msg@.body,
                        },
                    ]
                },
                _ => {
                    &&& r.1 == true
                    &&& match old(self).state_spec() {
                        NetConnState::Identifying => {
                            if msg@.command == CommandV::Response(Response::RplWelcome) {
                                match crate::line::opt_str_view(&cfg.nickserv_pass) {
                                    Some(pass) => final(self).state_spec()
                                        == NetConnState::Authing && r.0.deep_view() == seq![
                                        identify_msg(pass),
                                    ],
                                    None => final(self).state_spec() == NetConnState::Connected
                                        && r.0.deep_view() == seq![join_channels_msg(*cfg)],
                                }
                            } else {
                                final(self).state_spec() == NetConnState::Identifying
                                    && r.0.deep_view() == Seq::<MessageV>::empty()
                            }
                        },
                        NetConnState::Authing => {
                            if msg@.command == CommandV::Notice && msg@.body is Some {
                                final(self).state_spec() == NetConnState::Connected
                                    && r.0.deep_view() == seq![join_channels_msg(*cfg)]
                            } else {
                                final(self).state_spec() == NetConnState::Authing
                                    && r.0.deep_view() == Seq::<MessageV>::empty()
                            }
                        },
                        NetConnState::Connected => final(self).state_spec()
                            == NetConnState::Connected && r.0.deep_view() == Seq::<
                            MessageV,
                        >::empty(),
                    }
                },
            },
    {
        let mut out: Vec<Message> = Vec::new();
        match &msg.command {
            Command::Ping => {
                let pong = Message {
                    prefix: None,
                    command: Command::Pong,
                    args: crate::message::clone_args_pub(&msg.args),
                    body: crate::line::clone_opt_string(&msg.body),
                };
                let ghost pv = pong@;
                out.push(pong);
                proof {
                    assert(out.deep_view() =~= seq![pv]);
                }
                return (out, false);
            },
            _ => {},
        }
        match self.state {
            NetConnState::Identifying => {
                let is_welcome = match &msg.command {
                    Command::Response(Response::RplWelcome) => true,
                    _ => false,
                };
                if is_welcome {
                    match cfg.nickserv_pass() {
                        Some(pass) => {
                            let mut body: String = "identify ".to_owned();
                            body.append(pass);
                            let mut args: Vec<String> = Vec::new();
                            args.push("NickServ".to_owned());
                            let m = Message {
                                prefix: None,
                                command: Command::Privmsg,
                                args,
                                body: Some(body),
                            };
                            let ghost mv = m@;
                            out.push(m);
                            self.state = NetConnState::Authing;
                            proof {
                                assert(mv.args =~= seq!["NickServ"@]);
                                assert(out.deep_view() =~= seq![mv]);
                            }
                        },
                        None => {
                            let joined = join_with(&cfg.channels, 0, ',');
                            proof {
                                assert(cfg.channels.deep_view().skip(0) =~= cfg.channels.deep_view());
                            }
                            let mut args: Vec<String> = Vec::new();
                            args.push(joined);
                            let m = Message {
                                prefix: None,
                                command: Command::Join,
                                args,
                                body: None,
                            };
                            let ghost mv = m@;
                            out.push(m);
                            self.state = NetConnState::Connected;
                            proof {
                                assert(mv.args =~= join_channels_msg(*cfg).args);
                                assert(out.deep_view() =~= seq![join_channels_msg(*cfg)]);
                            }
                        },
                    }
                } else {
                    proof {
                        assert(out.deep_view() =~= Seq::<MessageV>::empty());
                    }
                }
            },
            NetConnState::Authing => {
                let concluded = match (&msg.command, &msg.body) {
                    (Command::Notice, Some(_)) => true,
                    _ => false,
                };
                if concluded {
                    let joined = join_with(&cfg.channels, 0, ',');
                    proof {
                        assert(cfg.channels.deep_view().skip(0) =~= cfg.channels.deep_view());
                    }
                    let mut args: Vec<String> = Vec::new();
                    args.push(joined);
                    let m = Message { prefix: None, command: Command::Join, args, body: None };
                    let ghost mv = m@;
                    out.push(m);
                    self.state = NetConnState::Connected;
                    proof {
                        assert(mv.args =~= join_channels_msg(*cfg).args);
                        assert(out.deep_view() =~= seq![join_channels_msg(*cfg)]);
                    }
                } else {
                    proof {
                        assert(out.deep_view() =~= Seq::<MessageV>::empty());
                    }
                }
            },
            NetConnState::Connected => {
                proof {
                    assert(out.deep_view() =~= Seq::<MessageV>::empty());
                }
            },
        }
        (out, true)
    }
}

} // verus!
