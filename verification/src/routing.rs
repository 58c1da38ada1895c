//! Classifies parsed IRC messages into commands addressed to a channel
//! buffer, a private buffer, the network's own buffer, or the network itself.
use vstd::prelude::*;
use vstd::string::StrSliceExecFns;
use vstd::string::StringExecFns;
use crate::line::{User, UserV, Sender, SenderV, parse_prefix_spec};
use crate::message::{Message, MessageV, Command, CommandV, Response};
use crate::strutil::{find_char_spec, find_char_from, lemma_find_char_props, upper_seq, str_to_upper, str_eq_str, push_char, split_from, join_spec, split_char};
use crate::types::Nick;

verus! {

/// Cleaned up forms of channel-specific IRC commands and response codes.
#[derive(Debug, Clone, PartialEq, Eq)]
#[allow(non_camel_case_types)]
pub enum BufferCmd {
    JOIN(User),
    PART(User, Option<String>),
    KICK { by: User, targ: Nick, reason: Option<String> },
    PRIVMSG(User, String),
    NOTICE(Sender, String),
    /// A CTCP ACTION message. These are kept apart from `NOTICE` and
    /// `PRIVMSG` because they are handled differently.
    ACTION(User, String),
    RPL_NAMREPLY(String),
    RPL_ENDOFNAMES,
    RPL_MOTD(String),
}

/// Character-level contents of a `BufferCmd`.
#[allow(non_camel_case_types)]
pub enum BufferCmdV {
    JOIN(UserV),
    PART(UserV, Option<Seq<char>>),
    KICK { by: UserV, targ: Seq<char>, reason: Option<Seq<char>> },
    PRIVMSG(UserV, Seq<char>),
    NOTICE(SenderV, Seq<char>),
    ACTION(UserV, Seq<char>),
    RPL_NAMREPLY(Seq<char>),
    RPL_ENDOFNAMES,
    RPL_MOTD(Seq<char>),
}

impl View for BufferCmd {
    type V = BufferCmdV;

    open spec fn view(&self) -> BufferCmdV {
        match self {
            BufferCmd::JOIN(u) => BufferCmdV::JOIN(u@),
            BufferCmd::PART(u, r) => BufferCmdV::PART(u@, crate::line::opt_str_view(r)),
            BufferCmd::KICK { by, targ, reason } => BufferCmdV::KICK {
                by: by@,
                targ: targ@,
                reason: crate::line::opt_str_view(reason),
            },
            BufferCmd::PRIVMSG(u, m) => BufferCmdV::PRIVMSG(u@, m@),
            BufferCmd::NOTICE(s, m) => BufferCmdV::NOTICE(s@, m@),
            BufferCmd::ACTION(u, m) => BufferCmdV::ACTION(u@, m@),
            BufferCmd::RPL_NAMREPLY(b) => BufferCmdV::RPL_NAMREPLY(b@),
            BufferCmd::RPL_ENDOFNAMES => BufferCmdV::RPL_ENDOFNAMES,
            BufferCmd::RPL_MOTD(b) => BufferCmdV::RPL_MOTD(b@),
        }
    }
}

/// Represents a CTCP query or reply carried inside a message body.
#[derive(Debug, Clone, PartialEq, Eq)]
pub struct CtcpMsg {
    pub tag: String,
    pub args: Vec<String>,
}

/// Character-level contents of a `CtcpMsg`.
pub struct CtcpMsgV {
    pub tag: Seq<char>,
    pub args: Seq<Seq<char>>,
}

impl View for CtcpMsg {
    type V = CtcpMsgV;

    open spec fn view(&self) -> CtcpMsgV {
        CtcpMsgV { tag: self.tag@, args: self.args.deep_view() }
    }
}

/// IRC commands handled by the network object itself.
#[derive(Debug, Clone, PartialEq, Eq)]
#[allow(non_camel_case_types)]
pub enum NetworkCmd {
    QUIT(User, Option<String>),
    NICK(User, String),
    /// The first argument of the welcome info reply: our nick.
    RPL_MYINFO(String),
    /// A CTCP query from the given sender. The second arg is the destination
    /// it was sent to. ACTIONs are not handled as regular CTCP commands; see
    /// `BufferCmd::ACTION`.
    CtcpQuery(User, String, CtcpMsg),
    /// A CTCP response.
    CtcpReply(User, String, CtcpMsg),
    /// An unknown response code, passed on with all its data.
    UnknownCode(Response, Vec<String>, Option<String>),
}

/// Character-level contents of a `NetworkCmd`.
#[allow(non_camel_case_types)]
pub enum NetworkCmdV {
    QUIT(UserV, Option<Seq<char>>),
    NICK(UserV, Seq<char>),
    RPL_MYINFO(Seq<char>),
    CtcpQuery(UserV, Seq<char>, CtcpMsgV),
    CtcpReply(UserV, Seq<char>, CtcpMsgV),
    UnknownCode(Response, Seq<Seq<char>>, Option<Seq<char>>),
}

impl View for NetworkCmd {
    type V = NetworkCmdV;

    open spec fn view(&self) -> NetworkCmdV {
        match self {
            NetworkCmd::QUIT(u, r) => NetworkCmdV::QUIT(u@, crate::line::opt_str_view(r)),
            NetworkCmd::NICK(u, n) => NetworkCmdV::NICK(u@, n@),
            NetworkCmd::RPL_MYINFO(n) => NetworkCmdV::RPL_MYINFO(n@),
            NetworkCmd::CtcpQuery(u, d, c) => NetworkCmdV::CtcpQuery(u@, d@, c@),
            NetworkCmd::CtcpReply(u, d, c) => NetworkCmdV::CtcpReply(u@, d@, c@),
            NetworkCmd::UnknownCode(code, args, body) => NetworkCmdV::UnknownCode(
                *code,
                args.deep_view(),
                crate::line::opt_str_view(body),
            ),
        }
    }
}

/// A protocol event classified and addressed to its handler.
#[derive(Debug, Clone, PartialEq, Eq)]
pub enum RoutedMsg {
    Channel(String, BufferCmd),
    Private(User, BufferCmd),
    NetBuffer(BufferCmd),
    Network(NetworkCmd),
}

/// Character-level contents of a `RoutedMsg`.
pub enum RoutedMsgV {
    Channel(Seq<char>, BufferCmdV),
    Private(UserV, BufferCmdV),
    NetBuffer(BufferCmdV),
    Network(NetworkCmdV),
}

impl View for RoutedMsg {
    type V = RoutedMsgV;

    open spec fn view(&self) -> RoutedMsgV {
        match self {
            RoutedMsg::Channel(c, b) => RoutedMsgV::Channel(c@, b@),
            RoutedMsg::Private(u, b) => RoutedMsgV::Private(u@, b@),
            RoutedMsg::NetBuffer(b) => RoutedMsgV::NetBuffer(b@),
            RoutedMsg::Network(n) => RoutedMsgV::Network(n@),
        }
    }
}

pub open spec fn opt_routed_view(r: &Option<RoutedMsg>) -> Option<RoutedMsgV> {
    match r {
        Some(m) => Some(m@),
        None => None,
    }
}

/// The sender named by a message's prefix, if any.
pub open spec fn msg_sender(m: MessageV) -> Option<SenderV> {
    match m.prefix {
        Some(p) => Some(parse_prefix_spec(p)),
        None => None,
    }
}

/// The user named by a message's prefix; `None` when there is no prefix or
/// the prefix names a server.
pub open spec fn msg_user(m: MessageV) -> Option<UserV> {
    match msg_sender(m) {
        Some(SenderV::User(u)) => Some(u),
        _ => None,
    }
}

/// The CTCP delimiter character.
pub open spec fn ctcp_delim() -> char {
    '\u{1}'
}

/// True if a message body carries a CTCP message.
pub open spec fn is_ctcp(body: Seq<char>) -> bool {
    body.len() > 0 && body[0] == ctcp_delim()
}

/// The parsed form of a CTCP body: the text between the leading delimiter and
/// the next delimiter (or the end), split on spaces; the first piece,
/// uppercased, is the tag and the rest are the arguments.
pub open spec fn ctcp_body_spec(body: Seq<char>) -> CtcpMsgV {
    let inner = body.subrange(1, body.len() as int);
    let end = match find_char_spec(inner, 0, ctcp_delim()) {
        Some(i) => i,
        None => inner.len() as int,
    };
    let text = inner.subrange(0, end);
    let parts = split_from(text, 0, ' ');
    CtcpMsgV { tag: upper_seq(parts[0]), args: parts.drop_first() }
}

/// A buffer command is routed to the sender's private buffer when the target
/// is our own nick, and to the channel named by the target otherwise.
pub open spec fn route_target_spec(
    targ: Seq<char>,
    user: UserV,
    nick: Seq<char>,
    cmd: BufferCmdV,
) -> RoutedMsgV {
    if nick == targ {
        RoutedMsgV::Private(user, cmd)
    } else {
        RoutedMsgV::Channel(targ, cmd)
    }
}

/// Routing of a CTCP body: an ACTION tag becomes a buffer-level action
/// routed like a normal message; any other tag becomes a network-level CTCP
/// query carrying the original destination.
pub open spec fn route_ctcp_spec(
    targ: Seq<char>,
    user: UserV,
    nick: Seq<char>,
    body: Seq<char>,
) -> Option<RoutedMsgV> {
    let c = ctcp_body_spec(body);
    if c.tag == "ACTION"@ {
        Some(route_target_spec(targ, user, nick, BufferCmdV::ACTION(user, join_spec(c.args, ' '))))
    } else {
        Some(RoutedMsgV::Network(NetworkCmdV::CtcpQuery(user, targ, c)))
    }
}

/// What `route_message` yields for every message and current nick.
///
/// Malformed events (wrong argument count, missing body or missing user
/// prefix where one is needed) yield `None`; so do PING, which the
/// connection layer answers itself, and commands the core has no use for.
pub open spec fn route_spec(m: MessageV, nick: Seq<char>) -> Option<RoutedMsgV> {
    match m.command {
        CommandV::Join => {
            if m.args.len() == 1 {
                match msg_user(m) {
                    Some(u) => Some(route_target_spec(m.args[0], u, nick, BufferCmdV::JOIN(u))),
                    None => None,
                }
            } else {
                match (msg_user(m), m.body) {
                    (Some(u), Some(chan)) => Some(
                        route_target_spec(chan, u, nick, BufferCmdV::JOIN(u)),
                    ),
                    _ => None,
                }
            }
        },
        CommandV::Part => {
            if m.args.len() == 1 {
                match msg_user(m) {
                    Some(u) => Some(
                        route_target_spec(m.args[0], u, nick, BufferCmdV::PART(u, m.body)),
                    ),
                    None => None,
                }
            } else {
                None
            }
        },
        CommandV::Kick => {
            if m.args.len() == 2 {
                match msg_user(m) {
                    Some(u) => Some(
                        route_target_spec(
                            m.args[0],
                            u,
                            nick,
                            BufferCmdV::KICK { by: u, targ: m.args[1], reason: m.body },
                        ),
                    ),
                    None => None,
                }
            } else {
                None
            }
        },
        CommandV::Privmsg => {
            match (m.args.len() == 1, m.body) {
                (true, Some(body)) => {
                    match msg_user(m) {
                        Some(u) => if is_ctcp(body) {
                            route_ctcp_spec(m.args[0], u, nick, body)
                        } else {
                            Some(route_target_spec(m.args[0], u, nick, BufferCmdV::PRIVMSG(u, body)))
                        },
                        None => None,
                    }
                },
                _ => None,
            }
        },
        CommandV::Notice => {
            match (m.args.len() == 1, m.body) {
                (true, Some(body)) => {
                    match msg_sender(m) {
                        Some(sender) => if is_ctcp(body) {
                            match sender {
                                SenderV::User(u) => route_ctcp_spec(m.args[0], u, nick, body),
                                SenderV::Server(_) => None,
                            }
                        } else {
                            match sender {
                                SenderV::User(u) => Some(
                                    route_target_spec(
                                        m.args[0],
                                        u,
                                        nick,
                                        BufferCmdV::NOTICE(sender, body),
                                    ),
                                ),
                                SenderV::Server(_) => Some(
                                    RoutedMsgV::NetBuffer(BufferCmdV::NOTICE(sender, body)),
                                ),
                            }
                        },
                        None => None,
                    }
                },
                _ => None,
            }
        },
        CommandV::Quit => {
            match msg_user(m) {
                Some(u) => Some(RoutedMsgV::Network(NetworkCmdV::QUIT(u, m.body))),
                None => None,
            }
        },
        CommandV::Nick => {
            if m.args.len() == 1 {
                match msg_user(m) {
                    Some(u) => Some(RoutedMsgV::Network(NetworkCmdV::NICK(u, m.args[0]))),
                    None => None,
                }
            } else {
                None
            }
        },
        CommandV::Response(Response::RplNamReply) => {
            match (m.args.len() == 3, m.body) {
                (true, Some(body)) => Some(
                    RoutedMsgV::Channel(m.args[2], BufferCmdV::RPL_NAMREPLY(body)),
                ),
                _ => None,
            }
        },
        CommandV::Response(Response::RplEndOfNames) => {
            if m.args.len() >= 2 {
                Some(RoutedMsgV::Channel(m.args[1], BufferCmdV::RPL_ENDOFNAMES))
            } else {
                None
            }
        },
        CommandV::Response(Response::RplMyInfo) => {
            if m.args.len() >= 1 {
                Some(RoutedMsgV::Network(NetworkCmdV::RPL_MYINFO(m.args[0])))
            } else {
                None
            }
        },
        CommandV::Response(Response::RplMotd) => {
            match m.body {
                Some(body) => Some(RoutedMsgV::NetBuffer(BufferCmdV::RPL_MOTD(body))),
                None => None,
            }
        },
        CommandV::Response(Response::RplMotdStart) => {
            match m.body {
                Some(body) => Some(RoutedMsgV::NetBuffer(BufferCmdV::RPL_MOTD(body))),
                None => None,
            }
        },
        CommandV::Response(Response::RplEndOfMotd) => {
            match m.body {
                Some(body) => Some(RoutedMsgV::NetBuffer(BufferCmdV::RPL_MOTD(body))),
                None => None,
            }
        },
        CommandV::Response(code) => Some(
            RoutedMsgV::Network(NetworkCmdV::UnknownCode(code, m.args, m.body)),
        ),
        _ => None,
    }
}

/// Joins the elements of `v` from position `from` on with single spaces.
pub fn join_spaces(v: &Vec<String>, from: usize) -> (r: String)
    requires
        from <= v.len(),
    ensures
        r@ == join_spec(v.deep_view().skip(from as int), ' '),
    decreases v.len() - from,
{
    if from >= v.len() {
        proof {
            assert(v.deep_view().skip(from as int) =~= Seq::<Seq<char>>::empty());
        }
        String::new()
    } else if from == v.len() - 1 {
        proof {
            assert(v.deep_view().skip(from as int) =~= seq![v@[from as int]@]);
        }
        v[from].clone()
    } else {
        let mut out = v[from].clone();
        push_char(&mut out, ' ');
        let rest = join_spaces(v, from + 1);
        out.append(rest.as_str());
        proof {
            assert(v.deep_view().skip(from as int).drop_first() =~= v.deep_view().skip(
                from as int + 1,
            ));
            assert(out@ =~= join_spec(v.deep_view().skip(from as int), ' '));
        }
        out
    }
}

impl CtcpMsg {
    /// Parses a CTCP message: the delimited text is split on spaces, the
    /// first piece (uppercased) is the tag, the rest are the arguments.
    /// Fails exactly when the text does not start with the CTCP delimiter.
    pub fn from_str(s: &str) -> (r: Result<CtcpMsg, String>)
        ensures
            match r {
                Ok(c) => is_ctcp(s@) && c@ == ctcp_body_spec(s@),
                Err(e) => !is_ctcp(s@) && e@ == "Not a valid CTCP message"@,
            },
    {
        let n = s.unicode_len();
        if n == 0 || s.get_char(0) != '\u{1}' {
            return Err("Not a valid CTCP message".to_owned());
        }
        let inner = s.substring_char(1, n);
        let end: usize = match find_char_from(inner, 0, '\u{1}') {
            Some(i) => {
                proof {
                    lemma_find_char_props(inner@, 0, '\u{1}');
                }
                i
            },
            None => inner.unicode_len(),
        };
        let text = inner.substring_char(0, end);
        let parts = split_char(text, ' ');
        let tag = str_to_upper(parts[0].as_str());
        let mut args: Vec<String> = Vec::new();
        let mut i: usize = 1;
        while i < parts.len()
            invariant
                1 <= i <= parts.len(),
                args.deep_view() == parts.deep_view().subrange(1, i as int),
            decreases parts.len() - i,
        {
            let ghost prev = args.deep_view();
            args.push(parts[i].clone());
            proof {
                assert(args.deep_view() =~= prev.push(parts@[i as int]@));
                assert(args.deep_view() =~= parts.deep_view().subrange(1, i + 1));
            }
            i = i + 1;
        }
        proof {
            assert(args.deep_view() =~= parts.deep_view().drop_first());
            assert(parts.deep_view()[0] == parts@[0]@);
        }
        Ok(CtcpMsg { tag, args })
    }
}

/// Routes a buffer command to a private or channel buffer based on the
/// target string and the current nick.
fn route_target(targ: String, user: User, cur_nick: &str, msg: BufferCmd) -> (r: Option<RoutedMsg>)
    ensures
        opt_routed_view(&r) == Some(route_target_spec(targ@, user@, cur_nick@, msg@)),
{
    if str_eq_str(cur_nick, targ.as_str()) {
        Some(RoutedMsg::Private(user, msg))
    } else {
        Some(RoutedMsg::Channel(targ, msg))
    }
}

/// Routes a CTCP message carried in a PRIVMSG or NOTICE body.
fn route_ctcp_msg(targ: String, user: User, cur_nick: &str, msg: String) -> (r: Option<RoutedMsg>)
    requires
        is_ctcp(msg@),
    ensures
        opt_routed_view(&r) == route_ctcp_spec(targ@, user@, cur_nick@, msg@),
{
    match CtcpMsg::from_str(msg.as_str()) {
        Ok(ctcp) => {
            if str_eq_str(ctcp.tag.as_str(), "ACTION") {
                let text = join_spaces(&ctcp.args, 0);
                proof {
                    assert(ctcp.args.deep_view().skip(0) =~= ctcp.args.deep_view());
                }
                route_target(targ, user.clone(), cur_nick, BufferCmd::ACTION(user, text))
            } else {
                Some(RoutedMsg::Network(NetworkCmd::CtcpQuery(user, targ, ctcp)))
            }
        },
        Err(_) => None,
    }
}

/// Classifies one IRC message, against the connection's current nick, into a
/// routed command, or `None` for malformed or unrouted messages.
pub fn route_message(msg: Message, cur_nick: &str) -> (r: Option<RoutedMsg>)
    ensures
        opt_routed_view(&r) == route_spec(msg@, cur_nick@),
{
    let ghost m = msg@;
    let Message { prefix, command, args, body } = msg;
    let sender: Option<Sender> = match &prefix {
        Some(p) => Some(Sender::parse_prefix(p.as_str())),
        None => None,
    };
    proof {
        assert(match sender {
            Some(sn) => msg_sender(m) == Some(sn@),
            None => msg_sender(m) is None,
        });
    }
    match command {
        Command::Join => {
            if args.len() == 1 {
                match sender {
                    Some(Sender::User(user)) => {
                        let chan = args[0].clone();
                        let bc = BufferCmd::JOIN(user.clone());
                        route_target(chan, user, cur_nick, bc)
                    },
                    _ => None,
                }
            } else {
                match (sender, body) {
                    (Some(Sender::User(user)), Some(chan)) => {
                        let bc = BufferCmd::JOIN(user.clone());
                        route_target(chan, user, cur_nick, bc)
                    },
                    _ => None,
                }
            }
        },
        Command::Part => {
            if args.len() == 1 {
                match sender {
                    Some(Sender::User(user)) => {
                        let chan = args[0].clone();
                        let bc = BufferCmd::PART(user.clone(), body);
                        route_target(chan, user, cur_nick, bc)
                    },
                    _ => None,
                }
            } else {
                None
            }
        },
        Command::Kick => {
            if args.len() == 2 {
                match sender {
                    Some(Sender::User(user)) => {
                        let chan = args[0].clone();
                        let targ = args[1].clone();
                        let bc = BufferCmd::KICK { by: user.clone(), targ, reason: body };
                        route_target(chan, user, cur_nick, bc)
                    },
                    _ => None,
                }
            } else {
                None
            }
        },
        Command::Privmsg => {
            match (args.len() == 1, body) {
                (true, Some(message)) => {
                    match sender {
                        Some(Sender::User(user)) => {
                            let dest = args[0].clone();
                            let has_delim = message.as_str().unicode_len() > 0
                                && message.as_str().get_char(0) == '\u{1}';
                            if has_delim {
                                route_ctcp_msg(dest, user, cur_nick, message)
                            } else {
                                let bc = BufferCmd::PRIVMSG(user.clone(), message);
                                route_target(dest, user, cur_nick, bc)
                            }
                        },
                        _ => None,
                    }
                },
                _ => None,
            }
        },
        Command::Notice => {
            match (args.len() == 1, body) {
                (true, Some(message)) => {
                    match sender {
                        Some(sn) => {
                            let dest = args[0].clone();
                            let has_delim = message.as_str().unicode_len() > 0
                                && message.as_str().get_char(0) == '\u{1}';
                            if has_delim {
                                match sn {
                                    Sender::User(user) => route_ctcp_msg(
                                        dest,
                                        user,
                                        cur_nick,
                                        message,
                                    ),
                                    Sender::Server(_) => None,
                                }
                            } else {
                                match sn {
                                    Sender::User(user) => {
                                        let bc = BufferCmd::NOTICE(
                                            Sender::User(user.clone()),
                                            message,
                                        );
                                        route_target(dest, user, cur_nick, bc)
                                    },
                                    Sender::Server(name) => {
                                        let bc = BufferCmd::NOTICE(Sender::Server(name), message);
                                        Some(RoutedMsg::NetBuffer(bc))
                                    },
                                }
                            }
                        },
                        None => None,
                    }
                },
                _ => None,
            }
        },
        Command::Quit => {
            match sender {
                Some(Sender::User(user)) => Some(
                    RoutedMsg::Network(NetworkCmd::QUIT(user, body)),
                ),
                _ => None,
            }
        },
        Command::Nick => {
            if args.len() == 1 {
                match sender {
                    Some(Sender::User(user)) => {
                        let new = args[0].clone();
                        Some(RoutedMsg::Network(NetworkCmd::NICK(user, new)))
                    },
                    _ => None,
                }
            } else {
                None
            }
        },
        Command::Response(Response::RplNamReply) => {
            match (args.len() == 3, body) {
                (true, Some(b)) => {
                    let chan = args[2].clone();
                    Some(RoutedMsg::Channel(chan, BufferCmd::RPL_NAMREPLY(b)))
                },
                _ => None,
            }
        },
        Command::Response(Response::RplEndOfNames) => {
            if args.len() >= 2 {
                let chan = args[1].clone();
                Some(RoutedMsg::Channel(chan, BufferCmd::RPL_ENDOFNAMES))
            } else {
                None
            }
        },
        Command::Response(Response::RplMyInfo) => {
            if args.len() >= 1 {
                let nick = args[0].clone();
                Some(RoutedMsg::Network(NetworkCmd::RPL_MYINFO(nick)))
            } else {
                None
            }
        },
        Command::Response(Response::RplMotd) => {
            match body {
                Some(b) => Some(RoutedMsg::NetBuffer(BufferCmd::RPL_MOTD(b))),
                None => None,
            }
        },
        Command::Response(Response::RplMotdStart) => {
            match body {
                Some(b) => Some(RoutedMsg::NetBuffer(BufferCmd::RPL_MOTD(b))),
                None => None,
            }
        },
        Command::Response(Response::RplEndOfMotd) => {
            match body {
                Some(b) => Some(RoutedMsg::NetBuffer(BufferCmd::RPL_MOTD(b))),
                None => None,
            }
        },
        Command::Response(code) => {
            Some(RoutedMsg::Network(NetworkCmd::UnknownCode(code, args, body)))
        },
        _ => None,
    }
}

/// A PRIVMSG whose destination equals the connection's current nickname is
/// routed to the sender's private buffer, never to a channel buffer named
/// after our own nick.
pub proof fn lemma_privmsg_to_self_routes_private(m: MessageV, nick: Seq<char>)
    requires
        m.command is Privmsg,
        m.args.len() == 1,
        m.args[0] == nick,
    ensures
        !(route_spec(m, nick) matches Some(RoutedMsgV::Channel(_, _))),
        match (m.body, msg_user(m)) {
            (Some(b), Some(u)) => !is_ctcp(b) ==> route_spec(m, nick) == Some(
                RoutedMsgV::Private(u, BufferCmdV::PRIVMSG(u, b)),
            ),
            _ => true,
        },
{
}

/// A CTCP ACTION sent as a channel PRIVMSG is routed to that channel's
/// buffer as an action command, not as a network-level CTCP command.
pub proof fn lemma_ctcp_action_routes_channel(m: MessageV, nick: Seq<char>, u: UserV, b: Seq<char>)
    requires
        m.command is Privmsg,
        m.args.len() == 1,
        m.args[0] != nick,
        msg_user(m) == Some(u),
        m.body == Some(b),
        is_ctcp(b),
        ctcp_body_spec(b).tag == "ACTION"@,
    ensures
        route_spec(m, nick) == Some(
            RoutedMsgV::Channel(
                m.args[0],
                BufferCmdV::ACTION(u, join_spec(ctcp_body_spec(b).args, ' ')),
            ),
        ),
{
}

} // verus!
