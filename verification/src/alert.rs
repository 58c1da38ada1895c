//! User-facing notifications: pings and private messages.
use vstd::prelude::*;
use crate::types::{NetId, BufId};

verus! {

/// What caused an alert.
#[derive(Debug, Clone, Copy, PartialEq, Eq)]
pub enum AlertKind {
    /// Someone mentioned our nick in a channel.
    Ping,
    /// A private message arrived.
    PrivMsg,
}

/// A notification queued for the user, addressed well enough that a client
/// can jump to the buffer it came from.
#[derive(Debug, PartialEq, Eq)]
pub struct Alert {
    pub kind: AlertKind,
    pub net: NetId,
    pub buf: BufId,
    pub msg: String,
}

/// Character-level contents of an `Alert`.
pub struct AlertV {
    pub kind: AlertKind,
    pub net: Seq<char>,
    pub buf: Seq<char>,
    pub msg: Seq<char>,
}

impl View for Alert {
    type V = AlertV;

    open spec fn view(&self) -> AlertV {
        AlertV { kind: self.kind, net: self.net@, buf: self.buf@, msg: self.msg@ }
    }
}

impl DeepView for Alert {
    type V = AlertV;

    open spec fn deep_view(&self) -> AlertV {
        self.view()
    }
}

impl Clone for Alert {
    fn clone(&self) -> (res: Self)
        ensures
            res == *self,
    {
        Alert { kind: self.kind, net: self.net.clone(), buf: self.buf.clone(), msg: self.msg.clone() }
    }
}

impl Alert {
    /// An alert for a channel message that mentioned our nick.
    pub fn ping(net: NetId, buf: BufId, msg: String) -> (r: Alert)
        ensures
            r@ == (AlertV { kind: AlertKind::Ping, net: net@, buf: buf@, msg: msg@ }),
    {
        Alert { kind: AlertKind::Ping, net, buf, msg }
    }

    /// An alert for a private message.
    pub fn privmsg(net: NetId, buf: BufId, msg: String) -> (r: Alert)
        ensures
            r@ == (AlertV { kind: AlertKind::PrivMsg, net: net@, buf: buf@, msg: msg@ }),
    {
        Alert { kind: AlertKind::PrivMsg, net, buf, msg }
    }
}

} // verus!
