//! The client-side key a buffer is filed under.
use vstd::prelude::*;
use crate::messages::{BufTarget, BufTargetV};
use crate::types::{NetId, BufId};

verus! {

/// Identifies a buffer across all of a client's networks.
#[derive(Debug, PartialEq, Eq)]
pub enum BufKey {
    /// The client's own status buffer.
    Status,
    /// A named global system buffer.
    Global(BufId),
    /// A network's status buffer.
    Network(NetId),
    /// A channel buffer.
    Channel(NetId, BufId),
    /// A private message buffer.
    Private(NetId, BufId),
}

/// Character-level contents of a `BufKey`.
pub enum BufKeyV {
    Status,
    Global(Seq<char>),
    Network(Seq<char>),
    Channel(Seq<char>, Seq<char>),
    Private(Seq<char>, Seq<char>),
}

impl View for BufKey {
    type V = BufKeyV;

    open spec fn view(&self) -> BufKeyV {
        match self {
            BufKey::Status => BufKeyV::Status,
            BufKey::Global(b) => BufKeyV::Global(b@),
            BufKey::Network(n) => BufKeyV::Network(n@),
            BufKey::Channel(n, b) => BufKeyV::Channel(n@, b@),
            BufKey::Private(n, b) => BufKeyV::Private(n@, b@),
        }
    }
}

impl BufKey {
    /// The key for a network's buffer target.
    pub fn from_targ(nid: NetId, targ: BufTarget) -> (r: BufKey)
        ensures
            r@ == (match targ@ {
                BufTargetV::Network => BufKeyV::Network(nid@),
                BufTargetV::Channel(b) => BufKeyV::Channel(nid@, b),
                BufTargetV::Private(b) => BufKeyV::Private(nid@, b),
            }),
    {
        match targ {
            BufTarget::Network => BufKey::Network(nid),
            BufTarget::Channel(bid) => BufKey::Channel(nid, bid),
            BufTarget::Private(bid) => BufKey::Private(nid, bid),
        }
    }
}

} // verus!
