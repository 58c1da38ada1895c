//! Messages exchanged between the core and its clients, and the buffer
//! addressing they use.
use vstd::prelude::*;
use crate::alert::{Alert, AlertV};
use crate::line::{BufferLine, BufferLineV, MsgKind};
use crate::types::{NetId, BufId, Nick};

verus! {

/// Identifies a buffer within a network: a channel, a private conversation,
/// or the network's own status stream.
#[derive(Debug, Eq)]
pub enum BufTarget {
    /// The network's own status buffer.
    Network,
    Channel(BufId),
    Private(BufId),
}

/// Character-level contents of a `BufTarget`.
pub enum BufTargetV {
    Network,
    Channel(Seq<char>),
    Private(Seq<char>),
}

impl View for BufTarget {
    type V = BufTargetV;

    open spec fn view(&self) -> BufTargetV {
        match self {
            BufTarget::Network => BufTargetV::Network,
            BufTarget::Channel(b) => BufTargetV::Channel(b@),
            BufTarget::Private(b) => BufTargetV::Private(b@),
        }
    }
}

impl DeepView for BufTarget {
    type V = BufTargetV;

    open spec fn deep_view(&self) -> BufTargetV {
        self.view()
    }
}

impl Clone for BufTarget {
    fn clone(&self) -> (res: Self)
        ensures
            res == *self,
    {
        match self {
            BufTarget::Network => BufTarget::Network,
            BufTarget::Channel(b) => BufTarget::Channel(b.clone()),
            BufTarget::Private(b) => BufTarget::Private(b.clone()),
        }
    }
}

/// Two targets are the same buffer when they are the same variant and name
/// their buffer with the same characters.
pub open spec fn buf_target_eq(a: BufTargetV, b: BufTargetV) -> bool {
    match (a, b) {
        (BufTargetV::Network, BufTargetV::Network) => true,
        (BufTargetV::Channel(x), BufTargetV::Channel(y)) => x == y,
        (BufTargetV::Private(x), BufTargetV::Private(y)) => x == y,
        _ => false,
    }
}

impl PartialEq for BufTarget {
    fn eq(&self, other: &BufTarget) -> (r: bool) {
        match (self, other) {
            (BufTarget::Network, BufTarget::Network) => true,
            (BufTarget::Channel(a), BufTarget::Channel(b)) => crate::strutil::str_eq_str(
                a.as_str(),
                b.as_str(),
            ),
            (BufTarget::Private(a), BufTarget::Private(b)) => crate::strutil::str_eq_str(
                a.as_str(),
                b.as_str(),
            ),
            _ => false,
        }
    }
}

impl vstd::std_specs::cmp::PartialEqSpecImpl for BufTarget {
    open spec fn obeys_eq_spec() -> bool {
        true
    }

    open spec fn eq_spec(&self, other: &BufTarget) -> bool {
        buf_target_eq(self@, other@)
    }
}

impl BufTarget {
    /// The directory name this buffer's logs are kept under, and the name the
    /// buffer is shown by.
    pub fn name(&self) -> (r: &str)
        ensures
            r@ == self.name_spec(),
    {
        match self {
            BufTarget::Network => "network",
            BufTarget::Channel(b) => b.as_str(),
            BufTarget::Private(b) => b.as_str(),
        }
    }

    pub open spec fn name_spec(&self) -> Seq<char> {
        match self@ {
            BufTargetV::Network => "network"@,
            BufTargetV::Channel(b) => b,
            BufTargetV::Private(b) => b,
        }
    }
}

/// The kind of chat message a client asks the core to send.
#[derive(Debug, Clone, Copy, PartialEq, Eq)]
pub enum SendMsgKind {
    PrivMsg,
    Notice,
    Action,
}

impl SendMsgKind {
    pub open spec fn to_msg_kind_spec(self) -> MsgKind {
        match self {
            SendMsgKind::PrivMsg => MsgKind::PrivMsg,
            SendMsgKind::Notice => MsgKind::Notice,
            SendMsgKind::Action => MsgKind::Action,
        }
    }

    /// The line kind a locally echoed message of this kind gets.
    pub fn to_msg_kind(self) -> (r: MsgKind)
        ensures
            r == self.to_msg_kind_spec(),
    {
        match self {
            SendMsgKind::PrivMsg => MsgKind::PrivMsg,
            SendMsgKind::Notice => MsgKind::Notice,
            SendMsgKind::Action => MsgKind::Action,
        }
    }
}

/// Summary of one buffer, sent when a client is told about it.
#[derive(Debug, PartialEq, Eq)]
pub struct BufInfo {
    pub id: BufTarget,
    pub joined: bool,
}

/// Character-level contents of a `BufInfo`.
pub struct BufInfoV {
    pub id: BufTargetV,
    pub joined: bool,
}

impl View for BufInfo {
    type V = BufInfoV;

    open spec fn view(&self) -> BufInfoV {
        BufInfoV { id: self.id@, joined: self.joined }
    }
}

impl DeepView for BufInfo {
    type V = BufInfoV;

    open spec fn deep_view(&self) -> BufInfoV {
        self.view()
    }
}

impl Clone for BufInfo {
    fn clone(&self) -> (res: Self)
        ensures
            res == *self,
    {
        BufInfo { id: self.id.clone(), joined: self.joined }
    }
}

/// Summary of one network and its buffers.
#[derive(Debug, PartialEq, Eq)]
pub struct NetInfo {
    pub id: NetId,
    pub nick: Nick,
    pub buffers: Vec<BufInfo>,
}

/// Character-level contents of a `NetInfo`.
pub struct NetInfoV {
    pub id: Seq<char>,
    pub nick: Seq<char>,
    pub buffers: Seq<BufInfoV>,
}

impl View for NetInfo {
    type V = NetInfoV;

    open spec fn view(&self) -> NetInfoV {
        NetInfoV { id: self.id@, nick: self.nick@, buffers: self.buffers.deep_view() }
    }
}

impl DeepView for NetInfo {
    type V = NetInfoV;

    open spec fn deep_view(&self) -> NetInfoV {
        self.view()
    }
}

/// A buffer-level event sent to clients.
#[derive(Debug, PartialEq, Eq)]
pub enum CoreBufMsg {
    /// New live lines, oldest first.
    NewLines(Vec<BufferLine>),
    /// Historical lines served from scrollback, newest first.
    Scrollback(Vec<BufferLine>),
    /// The buffer's joined state changed.
    State { joined: bool },
}

/// Character-level contents of a `CoreBufMsg`.
pub enum CoreBufMsgV {
    NewLines(Seq<BufferLineV>),
    Scrollback(Seq<BufferLineV>),
    State { joined: bool },
}

impl View for CoreBufMsg {
    type V = CoreBufMsgV;

    open spec fn view(&self) -> CoreBufMsgV {
        match self {
            CoreBufMsg::NewLines(v) => CoreBufMsgV::NewLines(v.deep_view()),
            CoreBufMsg::Scrollback(v) => CoreBufMsgV::Scrollback(v.deep_view()),
            CoreBufMsg::State { joined } => CoreBufMsgV::State { joined: *joined },
        }
    }
}

impl DeepView for CoreBufMsg {
    type V = CoreBufMsgV;

    open spec fn deep_view(&self) -> CoreBufMsgV {
        self.view()
    }
}

/// A network-level event sent to clients.
#[derive(Debug, PartialEq, Eq)]
pub enum CoreNetMsg {
    /// An event in one of the network's buffers.
    BufMsg(BufTarget, CoreBufMsg),
    /// The network's connection came up or went down.
    Connection(bool),
    /// Our nick on the network changed.
    NickChanged(Nick),
    /// The client is told about buffers it may not know yet.
    Buffers(Vec<BufInfo>),
}

/// Character-level contents of a `CoreNetMsg`.
pub enum CoreNetMsgV {
    BufMsg(BufTargetV, CoreBufMsgV),
    Connection(bool),
    NickChanged(Seq<char>),
    Buffers(Seq<BufInfoV>),
}

impl View for CoreNetMsg {
    type V = CoreNetMsgV;

    open spec fn view(&self) -> CoreNetMsgV {
        match self {
            CoreNetMsg::BufMsg(t, m) => CoreNetMsgV::BufMsg(t@, m@),
            CoreNetMsg::Connection(b) => CoreNetMsgV::Connection(*b),
            CoreNetMsg::NickChanged(n) => CoreNetMsgV::NickChanged(n@),
            CoreNetMsg::Buffers(v) => CoreNetMsgV::Buffers(v.deep_view()),
        }
    }
}

impl DeepView for CoreNetMsg {
    type V = CoreNetMsgV;

    open spec fn deep_view(&self) -> CoreNetMsgV {
        self.view()
    }
}

/// A user-level event sent to clients.
#[derive(Debug, PartialEq, Eq)]
pub enum CoreMsg {
    /// An event on one of the user's networks.
    NetMsg(NetId, CoreNetMsg),
    /// The list of the user's networks.
    Networks(Vec<NetInfo>),
    /// Authentication succeeded.
    AuthOk,
    /// Authentication failed.
    AuthErr,
    /// Pending alerts delivered to the client.
    Alerts(Vec<Alert>),
    /// A status line shown to the client.
    Status(String),
}

/// Character-level contents of a `CoreMsg`.
pub enum CoreMsgV {
    NetMsg(Seq<char>, CoreNetMsgV),
    Networks(Seq<NetInfoV>),
    AuthOk,
    AuthErr,
    Alerts(Seq<AlertV>),
    Status(Seq<char>),
}

impl View for CoreMsg {
    type V = CoreMsgV;

    open spec fn view(&self) -> CoreMsgV {
        match self {
            CoreMsg::NetMsg(n, m) => CoreMsgV::NetMsg(n@, m@),
            CoreMsg::Networks(v) => CoreMsgV::Networks(v.deep_view()),
            CoreMsg::AuthOk => CoreMsgV::AuthOk,
            CoreMsg::AuthErr => CoreMsgV::AuthErr,
            CoreMsg::Alerts(v) => CoreMsgV::Alerts(v.deep_view()),
            CoreMsg::Status(s) => CoreMsgV::Status(s@),
        }
    }
}

impl DeepView for CoreMsg {
    type V = CoreMsgV;

    open spec fn deep_view(&self) -> CoreMsgV {
        self.view()
    }
}

/// A buffer-level request from a client.
#[derive(Debug, PartialEq, Eq)]
pub enum ClientBufMsg {
    /// Send a chat message to this buffer's target.
    SendMsg(String, SendMsgKind),
    /// Fetch up to this many more scrollback lines.
    FetchLogs(usize),
}

/// A network-level request from a client.
#[derive(Debug, PartialEq, Eq)]
pub enum ClientNetMsg {
    /// A request concerning one of the network's buffers.
    BufMsg(BufTarget, ClientBufMsg),
    /// List this network's buffers.
    ListBufs,
    /// Join the named channel.
    JoinChan(String),
    /// Part the named channel, with an optional message.
    PartChan(String, Option<String>),
    /// Change nick.
    ChangeNick(Nick),
}

/// A user-level request from a client.
#[derive(Debug, PartialEq, Eq)]
pub enum ClientMsg {
    /// A request concerning one of the user's networks.
    NetMsg(NetId, ClientNetMsg),
    /// A request concerning a global buffer.
    BufMsg(BufId, ClientBufMsg),
    /// List global buffers.
    ListGlobalBufs,
    /// List the user's networks.
    ListNets,
    /// Authenticate as the named user with a password.
    Authenticate(String, String),
}

} // verus!
