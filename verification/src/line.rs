//! Buffer lines and the users and senders they record.
use vstd::prelude::*;
use vstd::string::StrSliceExecFns;
use crate::strutil::{find_char_spec, find_char_from};

verus! {

/// An IRC user, as parsed from a `nick!ident@host` message prefix.
#[derive(Debug, PartialEq, Eq)]
pub struct User {
    pub nick: String,
    pub ident: String,
    pub host: String,
}

/// Character-level contents of a `User`.
pub struct UserV {
    pub nick: Seq<char>,
    pub ident: Seq<char>,
    pub host: Seq<char>,
}

impl View for User {
    type V = UserV;

    open spec fn view(&self) -> UserV {
        UserV { nick: self.nick@, ident: self.ident@, host: self.host@ }
    }
}

/// The sender of a message: either a user or a server name.
#[derive(Debug, PartialEq, Eq)]
pub enum Sender {
    User(User),
    Server(String),
}

/// Character-level contents of a `Sender`.
pub enum SenderV {
    User(UserV),
    Server(Seq<char>),
}

impl View for Sender {
    type V = SenderV;

    open spec fn view(&self) -> SenderV {
        match self {
            Sender::User(u) => SenderV::User(u@),
            Sender::Server(s) => SenderV::Server(s@),
        }
    }
}

/// What `Sender::parse_prefix` yields on a given prefix: a user when the
/// prefix holds a `!` followed later by an `@`, a server name otherwise.
pub open spec fn parse_prefix_spec(p: Seq<char>) -> SenderV {
    match find_char_spec(p, 0, '!') {
        Some(b) => match find_char_spec(p, b + 1, '@') {
            Some(a) => SenderV::User(
                UserV {
                    nick: p.subrange(0, b),
                    ident: p.subrange(b + 1, a),
                    host: p.subrange(a + 1, p.len() as int),
                },
            ),
            None => SenderV::Server(p),
        },
        None => SenderV::Server(p),
    }
}

/// The name a sender goes by: a user's nick, or the server's name.
pub open spec fn sender_name_spec(s: SenderV) -> Seq<char> {
    match s {
        SenderV::User(u) => u.nick,
        SenderV::Server(n) => n,
    }
}

impl Sender {
    /// Parses a message prefix of the shape `nick!ident@host` into a user
    /// sender; any other shape is taken as a server name.
    pub fn parse_prefix(pfx: &str) -> (r: Sender)
        ensures
            r@ == parse_prefix_spec(pfx@),
    {
        let n = pfx.unicode_len();
        if let Some(nick_end) = find_char_from(pfx, 0, '!') {
            proof {
                crate::strutil::lemma_find_char_props(pfx@, 0, '!');
            }
            if let Some(ident_end) = find_char_from(pfx, nick_end + 1, '@') {
                proof {
                    crate::strutil::lemma_find_char_props(pfx@, nick_end + 1, '@');
                }
                let nick = pfx.substring_char(0, nick_end);
                let ident = pfx.substring_char(nick_end + 1, ident_end);
                let host = pfx.substring_char(ident_end + 1, n);
                return Sender::User(
                    User {
                        nick: nick.to_owned(),
                        ident: ident.to_owned(),
                        host: host.to_owned(),
                    },
                );
            }
        }
        Sender::Server(pfx.to_owned())
    }

    /// If this sender is a server, returns its name. If it's a user, returns
    /// the user's nick.
    pub fn name(&self) -> (r: &str)
        ensures
            r@ == sender_name_spec(self@),
    {
        match self {
            Sender::Server(name) => name.as_str(),
            Sender::User(u) => u.nick.as_str(),
        }
    }
}

/// The kind of a chat message line.
#[derive(Debug, Clone, Copy, PartialEq, Eq)]
pub enum MsgKind {
    PrivMsg,
    Notice,
    Action,
    /// Special status messages.
    Status,
    /// A numeric response code from the server.
    Response(u16),
}

/// The payload of one buffer line.
#[derive(Debug, PartialEq, Eq)]
pub enum LineData {
    Message { kind: MsgKind, from: String, msg: String },
    Topic { by: Option<String>, topic: String },
    Join { user: User },
    Part { user: User, reason: String },
    Kick { by: User, user: String, reason: String },
    Quit { user: User, msg: Option<String> },
    Nick { user: User, new: String },
}

/// Character-level contents of a `LineData`.
pub enum LineDataV {
    Message { kind: MsgKind, from: Seq<char>, msg: Seq<char> },
    Topic { by: Option<Seq<char>>, topic: Seq<char> },
    Join { user: UserV },
    Part { user: UserV, reason: Seq<char> },
    Kick { by: UserV, user: Seq<char>, reason: Seq<char> },
    Quit { user: UserV, msg: Option<Seq<char>> },
    Nick { user: UserV, new: Seq<char> },
}

pub open spec fn opt_str_view(o: &Option<String>) -> Option<Seq<char>> {
    match o {
        Some(s) => Some(s@),
        None => None,
    }
}

impl View for LineData {
    type V = LineDataV;

    open spec fn view(&self) -> LineDataV {
        match self {
            LineData::Message { kind, from, msg } => LineDataV::Message {
                kind: *kind,
                from: from@,
                msg: msg@,
            },
            LineData::Topic { by, topic } => LineDataV::Topic {
                by: opt_str_view(by),
                topic: topic@,
            },
            LineData::Join { user } => LineDataV::Join { user: user@ },
            LineData::Part { user, reason } => LineDataV::Part { user: user@, reason: reason@ },
            LineData::Kick { by, user, reason } => LineDataV::Kick {
                by: by@,
                user: user@,
                reason: reason@,
            },
            LineData::Quit { user, msg } => LineDataV::Quit { user: user@, msg: opt_str_view(msg) },
            LineData::Nick { user, new } => LineDataV::Nick { user: user@, new: new@ },
        }
    }
}

/// One immutable line of a buffer: a per-buffer sequence id, a timestamp in
/// seconds since the epoch, and the payload.
#[derive(Debug, PartialEq, Eq)]
pub struct BufferLine {
    pub id: u64,
    pub time: i64,
    pub data: LineData,
}

/// Character-level contents of a `BufferLine`.
pub struct BufferLineV {
    pub id: u64,
    pub time: i64,
    pub data: LineDataV,
}

impl View for BufferLine {
    type V = BufferLineV;

    open spec fn view(&self) -> BufferLineV {
        BufferLineV { id: self.id, time: self.time, data: self.data@ }
    }
}

impl DeepView for User {
    type V = UserV;

    open spec fn deep_view(&self) -> UserV {
        self.view()
    }
}

impl DeepView for Sender {
    type V = SenderV;

    open spec fn deep_view(&self) -> SenderV {
        self.view()
    }
}

impl DeepView for LineData {
    type V = LineDataV;

    open spec fn deep_view(&self) -> LineDataV {
        self.view()
    }
}

impl DeepView for BufferLine {
    type V = BufferLineV;

    open spec fn deep_view(&self) -> BufferLineV {
        self.view()
    }
}

impl BufferLine {
    pub fn new(id: u64, time: i64, data: LineData) -> (r: BufferLine)
        ensures
            r@.id == id,
            r@.time == time,
            r@.data == data@,
    {
        BufferLine { id, time, data }
    }
}


impl Clone for User {
    fn clone(&self) -> (res: Self)
        ensures
            res == *self,
    {
        User { nick: self.nick.clone(), ident: self.ident.clone(), host: self.host.clone() }
    }
}

impl Clone for Sender {
    fn clone(&self) -> (res: Self)
        ensures
            res == *self,
    {
        match self {
            Sender::User(u) => Sender::User(u.clone()),
            Sender::Server(s) => Sender::Server(s.clone()),
        }
    }
}

/// Clones an optional string, keeping its value.
pub fn clone_opt_string(o: &Option<String>) -> (res: Option<String>)
    ensures
        res == *o,
{
    match o {
        Some(s) => Some(s.clone()),
        None => None,
    }
}

impl Clone for LineData {
    fn clone(&self) -> (res: Self)
        ensures
            res == *self,
    {
        match self {
            LineData::Message { kind, from, msg } => LineData::Message {
                kind: *kind,
                from: from.clone(),
                msg: msg.clone(),
            },
            LineData::Topic { by, topic } => LineData::Topic {
                by: clone_opt_string(by),
                topic: topic.clone(),
            },
            LineData::Join { user } => LineData::Join { user: user.clone() },
            LineData::Part { user, reason } => LineData::Part {
                user: user.clone(),
                reason: reason.clone(),
            },
            LineData::Kick { by, user, reason } => LineData::Kick {
                by: by.clone(),
                user: user.clone(),
                reason: reason.clone(),
            },
            LineData::Quit { user, msg } => LineData::Quit {
                user: user.clone(),
                msg: clone_opt_string(msg),
            },
            LineData::Nick { user, new } => LineData::Nick {
                user: user.clone(),
                new: new.clone(),
            },
        }
    }
}

impl Clone for BufferLine {
    fn clone(&self) -> (res: Self)
        ensures
            res == *self,
    {
        BufferLine { id: self.id, time: self.time, data: self.data.clone() }
    }
}

} // verus!
