//! One IRC network: its buffers, current nick, connection state, and the
//! dispatch of routed protocol events into buffer mutations and outbound
//! messages.
use vstd::prelude::*;
use vstd::string::StrSliceExecFns;
use vstd::string::StringExecFns;
use crate::alert::AlertV;
use crate::buffer::Buffer;
use crate::clock::today;
use crate::config::NetConfig;
use crate::handle::{BaseUpdateHandle, UpdateHandle};
use crate::line::{LineData, MsgKind, User, UserV};
use crate::message::{Message, MessageV, Command};
use crate::messages::{BufTarget, BufTargetV, BufInfo, BufInfoV, NetInfo, CoreMsg, CoreMsgV, CoreNetMsg, CoreNetMsgV, CoreBufMsg, CoreBufMsgV, SendMsgKind};
use crate::routing::{route_message, route_spec, RoutedMsg, RoutedMsgV, BufferCmd, BufferCmdV, NetworkCmd, NetworkCmdV};
use crate::strutil::str_eq_str;
use crate::types::{NetId, Nick};

verus! {

/// The outbound queue for a live connection: messages the connection worker
/// should transmit, in order.
#[derive(Debug)]
pub struct IrcSender {
    msgs: Vec<Message>,
}

impl IrcSender {
    /// The queued outbound messages, oldest first.
    pub closed spec fn queued(&self) -> Seq<MessageV> {
        self.msgs.deep_view()
    }

    pub fn new() -> (r: IrcSender)
        ensures
            r.queued() == Seq::<MessageV>::empty(),
    {
        let r = IrcSender { msgs: Vec::new() };
        proof {
            assert(r.queued() =~= Seq::<MessageV>::empty());
        }
        r
    }

    /// Queues one message for transmission.
    pub fn send(&mut self, msg: Message)
        ensures
            final(self).queued() == old(self).queued().push(msg@),
    {
        let ghost prev = self.queued();
        let ghost mv = msg@;
        self.msgs.push(msg);
        proof {
            assert(self.queued() =~= prev.push(mv));
        }
    }
}

/// A drained batch of outbound messages, read from the front; the connection
/// worker transmits them in order.
#[derive(Debug)]
pub struct IrcSendRx {
    msgs: Vec<Message>,
    at: usize,
}

impl IrcSendRx {
    /// The messages not yet handed out.
    pub closed spec fn remaining(&self) -> Seq<MessageV> {
        if self.at <= self.msgs.deep_view().len() {
            self.msgs.deep_view().skip(self.at as int)
        } else {
            Seq::empty()
        }
    }

    /// Receives the next message to transmit: `Ok(Some(msg))` while messages
    /// remain, then `Ok(None)`. This end never fails.
    pub fn recv(&mut self) -> (r: Result<Option<Message>, ()>)
        ensures
            old(self).remaining().len() == 0 ==> r == Ok::<Option<Message>, ()>(None) && final(self).remaining() == old(self).remaining(),
            old(self).remaining().len() > 0 ==> match r {
                Ok(Some(m)) => m@ == old(self).remaining()[0] && final(self).remaining() == old(self).remaining().drop_first(),
                _ => false,
            },
    {
        if self.at < self.msgs.len() {
            let m = self.msgs[self.at].clone();
            self.at = self.at + 1;
            proof {
                assert(self.remaining() =~= old(self).remaining().drop_first());
            }
            Ok(Some(m))
        } else {
            Ok(None)
        }
    }
}

/// Errors that can happen when trying to send messages to IRC.
#[derive(Debug, Clone, Copy, PartialEq, Eq)]
pub enum IrcSendErr {
    /// The target of the action (the buffer or user we're sending to) is not
    /// available.
    Unavail,
    /// We're not connected to IRC.
    Disconnected,
    /// The given target cannot be sent to.
    BadTarget,
}

impl IrcSendErr {
    /// A short description of the error.
    pub fn describe(&self) -> (r: &str)
        ensures
            r@ == (match self {
                IrcSendErr::Unavail => "Target buffer is unavailable"@,
                IrcSendErr::Disconnected => "Not connected to IRC"@,
                IrcSendErr::BadTarget => "Invalid target"@,
            }),
    {
        match self {
            IrcSendErr::Unavail => "Target buffer is unavailable",
            IrcSendErr::Disconnected => "Not connected to IRC",
            IrcSendErr::BadTarget => "Invalid target",
        }
    }
}

/// The first buffer with the given target.
pub open spec fn find_buf(bufs: Seq<Buffer>, t: BufTargetV) -> Option<int>
    decreases bufs.len(),
{
    if bufs.len() == 0 {
        None
    } else if bufs[0].id_spec() == t {
        Some(0)
    } else {
        match find_buf(bufs.drop_first(), t) {
            Some(i) => Some(i + 1),
            None => None,
        }
    }
}

pub proof fn lemma_find_buf_pub(bufs: Seq<Buffer>, t: BufTargetV)
    ensures
        match find_buf(bufs, t) {
            Some(i) => 0 <= i < bufs.len() && bufs[i].id_spec() == t,
            None => true,
        },
{
    lemma_find_buf(bufs, t);
}

proof fn lemma_find_buf(bufs: Seq<Buffer>, t: BufTargetV)
    ensures
        match find_buf(bufs, t) {
            Some(i) => 0 <= i < bufs.len() && bufs[i].id_spec() == t && forall|j: int|
                0 <= j < i ==> (#[trigger] bufs[j].id_spec()) != t,
            None => forall|j: int| 0 <= j < bufs.len() ==> (#[trigger] bufs[j].id_spec()) != t,
        },
    decreases bufs.len(),
{
    if bufs.len() > 0 && bufs[0].id_spec() != t {
        lemma_find_buf(bufs.drop_first(), t);
        match find_buf(bufs.drop_first(), t) {
            Some(i) => {
                assert forall|j: int| 0 <= j < i + 1 implies (#[trigger] bufs[j].id_spec())
                    != t by {
                    if j > 0 {
                        assert(bufs.drop_first()[j - 1] == bufs[j]);
                    }
                }
            },
            None => {
                assert forall|j: int| 0 <= j < bufs.len() implies (#[trigger] bufs[j].id_spec())
                    != t by {
                    if j > 0 {
                        assert(bufs.drop_first()[j - 1] == bufs[j]);
                    }
                }
            },
        }
    }
}

/// The summary a network reports of itself: its id, our nick, and one entry
/// per buffer with its target and joined state.
pub open spec fn net_info_spec(n: IrcNetwork) -> crate::messages::NetInfoV {
    crate::messages::NetInfoV {
        id: n.id_spec(),
        nick: n.nick_spec(),
        buffers: Seq::new(
            n.bufs_seq().len(),
            |i: int|
                BufInfoV { id: n.bufs_seq()[i].id_spec(), joined: n.bufs_seq()[i].joined_spec() },
        ),
    }
}

/// Buffer-level events enveloped for one buffer of a network.
pub open spec fn wrap_buf_msgs(t: BufTargetV, ms: Seq<CoreBufMsgV>) -> Seq<CoreNetMsgV> {
    ms.map(|_i: int, m: CoreBufMsgV| CoreNetMsgV::BufMsg(t, m))
}

/// A buffer just created for a target: empty in every respect, joined only
/// for a private conversation, with paging starting wherever today's clock
/// reading put it.
pub open spec fn fresh_buffer(nid: Seq<char>, t: BufTargetV, b: Buffer) -> bool {
    &&& b.wf()
    &&& b.id_spec() == t
    &&& b.nid_spec() == nid
    &&& b.front_seq() == Seq::<crate::line::BufferLineV>::empty()
    &&& b.back_seq() == Seq::<crate::line::BufferLineV>::empty()
    &&& b.line_id_spec() == 0
    &&& b.joined_spec() == (t is Private)
    &&& b.users_set() == Set::<Seq<char>>::empty()
    &&& b.names_ended_spec()
    &&& b.pending_log_seq() == Seq::<Seq<char>>::empty()
}

/// An IRC network.
#[derive(Debug)]
pub struct IrcNetwork {
    id: NetId,
    nick: Nick,
    pub cfg: NetConfig,
    bufs: Vec<Buffer>,
    conn: Option<IrcSender>,
}

impl IrcNetwork {
    /// The network's id.
    pub closed spec fn id_spec(&self) -> Seq<char> {
        self.id@
    }

    /// Our current nick on this network.
    pub closed spec fn nick_spec(&self) -> Seq<char> {
        self.nick@
    }

    /// The network's buffers.
    pub closed spec fn bufs_seq(&self) -> Seq<Buffer> {
        self.bufs@
    }

    /// The network's configuration.
    pub closed spec fn cfg_spec(&self) -> NetConfig {
        self.cfg
    }

    /// Whether a connection is registered.
    pub closed spec fn connected(&self) -> bool {
        self.conn is Some
    }

    /// The outbound queue, when connected.
    pub closed spec fn outbound(&self) -> Seq<MessageV> {
        match self.conn {
            Some(s) => s.queued(),
            None => Seq::empty(),
        }
    }

    /// Every buffer is well formed, belongs to this network, and no target
    /// has two buffers.
    pub open spec fn wf(&self) -> bool {
        &&& forall|i: int|
            0 <= i < self.bufs_seq().len() ==> (#[trigger] self.bufs_seq()[i]).wf()
                && self.bufs_seq()[i].nid_spec() == self.id_spec()
        &&& forall|i: int, j: int|
            0 <= i < j < self.bufs_seq().len() ==> (#[trigger] self.bufs_seq()[i].id_spec()) != (
            #[trigger] self.bufs_seq()[j].id_spec())
    }

    pub fn new(id: String, cfg: NetConfig) -> (r: IrcNetwork)
        ensures
            r.wf(),
            r.id_spec() == id@,
            r.nick_spec() == Seq::<char>::empty(),
            r.bufs_seq() == Seq::<Buffer>::empty(),
            !r.connected(),
            r.cfg_spec() == cfg,
    {
        let r = IrcNetwork { id, cfg, nick: String::new(), conn: None, bufs: Vec::new() };
        proof {
            assert(r.bufs_seq() =~= Seq::<Buffer>::empty());
        }
        r
    }

    /// Gets the network ID.
    pub fn id(&self) -> (r: &NetId)
        ensures
            r@ == self.id_spec(),
    {
        &self.id
    }

    /// Our current nick.
    pub fn nick(&self) -> (r: &str)
        ensures
            r@ == self.nick_spec(),
    {
        self.nick.as_str()
    }

    /// The position of the buffer for a target, if one exists.
    pub fn buf_index(&self, targ: &BufTarget) -> (r: Option<usize>)
        ensures
            match r {
                Some(i) => find_buf(self.bufs_seq(), targ@) == Some(i as int),
                None => find_buf(self.bufs_seq(), targ@) is None,
            },
    {
        let mut i: usize = 0;
        proof {
            lemma_find_buf(self.bufs_seq(), targ@);
        }
        while i < self.bufs.len()
            invariant
                i <= self.bufs_seq().len(),
                forall|j: int| 0 <= j < i ==> (#[trigger] self.bufs_seq()[j].id_spec()) != targ@,
                match find_buf(self.bufs_seq(), targ@) {
                    Some(k) => 0 <= k < self.bufs_seq().len() && self.bufs_seq()[k].id_spec()
                        == targ@,
                    None => forall|j: int|
                        0 <= j < self.bufs_seq().len() ==> (#[trigger] self.bufs_seq()[j].id_spec())
                            != targ@,
                },
            decreases self.bufs.len() - i,
        {
            if self.bufs[i].id() == targ {
                proof {
                    lemma_find_buf(self.bufs_seq(), targ@);
                }
                return Some(i);
            }
            i = i + 1;
        }
        None
    }

    /// Gets a reference to the buffer for a target, if one exists.
    pub fn get_buf(&self, targ: &BufTarget) -> (r: Option<&Buffer>)
        ensures
            match r {
                Some(b) => match find_buf(self.bufs_seq(), targ@) {
                    Some(i) => b == self.bufs_seq()[i],
                    None => false,
                },
                None => find_buf(self.bufs_seq(), targ@) is None,
            },
    {
        proof {
            lemma_find_buf(self.bufs_seq(), targ@);
        }
        match self.buf_index(targ) {
            Some(i) => Some(&self.bufs[i]),
            None => None,
        }
    }

    /// How many buffers the network has.
    pub fn buf_count(&self) -> (r: usize)
        ensures
            r == self.bufs_seq().len(),
    {
        self.bufs.len()
    }

    /// The buffer at a position.
    pub fn buf_at(&self, i: usize) -> (r: &Buffer)
        requires
            i < self.bufs_seq().len(),
        ensures
            r == self.bufs_seq()[i as int],
    {
        &self.bufs[i]
    }

    /// Gets `NetInfo` data for this network: its id, our nick, and a summary
    /// of every buffer.
    pub fn to_info(&self) -> (r: NetInfo)
        ensures
            r.deep_view() == net_info_spec(*self),
    {
        let ghost goal = Seq::new(
            self.bufs_seq().len(),
            |i: int|
                BufInfoV {
                    id: self.bufs_seq()[i].id_spec(),
                    joined: self.bufs_seq()[i].joined_spec(),
                },
        );
        let mut bufs: Vec<BufInfo> = Vec::new();
        let mut i: usize = 0;
        while i < self.bufs.len()
            invariant
                i <= self.bufs_seq().len(),
                goal == Seq::new(
                    self.bufs_seq().len(),
                    |k: int|
                        BufInfoV {
                            id: self.bufs_seq()[k].id_spec(),
                            joined: self.bufs_seq()[k].joined_spec(),
                        },
                ),
                bufs.deep_view() == goal.take(i as int),
            decreases self.bufs.len() - i,
        {
            let ghost prev = bufs.deep_view();
            bufs.push(self.bufs[i].as_info());
            proof {
                assert(bufs.deep_view() =~= prev.push(goal[i as int]));
                assert(bufs.deep_view() =~= goal.take(i + 1));
            }
            i = i + 1;
        }
        proof {
            assert(goal.take(goal.len() as int) =~= goal);
        }
        NetInfo { id: self.id.clone(), nick: self.nick.clone(), buffers: bufs }
    }

    /// Applies one backward page to the buffer at a position: the text of
    /// its cursor day's file (or `None` when the file does not exist).
    pub fn page_buf(&mut self, i: usize, text: Option<&str>)
        requires
            old(self).wf(),
            i < old(self).bufs_seq().len(),
        ensures
            final(self).wf(),
            IrcNetwork::same_conn_state(*old(self), *final(self)),
            final(self).bufs_seq().len() == old(self).bufs_seq().len(),
            forall|j: int|
                0 <= j < old(self).bufs_seq().len() && j != i ==> final(self).bufs_seq()[j]
                    == old(self).bufs_seq()[j],
            final(self).bufs_seq()[i as int].front_seq()
                == old(self).bufs_seq()[i as int].front_seq(),
            final(self).bufs_seq()[i as int].id_spec() == old(self).bufs_seq()[i as int].id_spec(),
            final(self).bufs_seq()[i as int].cursor()
                == old(self).bufs_seq()[i as int].cursor().prev_spec(),
            ({
                let fetched = match text {
                    Some(t) => crate::logstore::parse_day_spec(t@),
                    None => Seq::<crate::line::BufferLineV>::empty(),
                };
                final(self).bufs_seq()[i as int].back_seq()
                    == old(self).bufs_seq()[i as int].back_seq() + fetched.take(
                    vstd::math::min(
                        fetched.len() as int,
                        crate::buffer::buffer_cap()
                            - old(self).bufs_seq()[i as int].front_seq().len()
                            - old(self).bufs_seq()[i as int].back_seq().len(),
                    ),
                )
            }),
    {
        let ghost pre = *self;
        let mut b = self.bufs.remove(i);
        let ghost removed = self.bufs@;
        b.apply_fetch(text);
        self.bufs.insert(i, b);
        proof {
            assert forall|j: int|
                0 <= j < pre.bufs_seq().len() && j != i implies self.bufs@[j]
                    == pre.bufs_seq()[j] by {
                if j < i {
                    assert(self.bufs@[j] == removed[j]);
                    assert(removed[j] == pre.bufs_seq()[j]);
                } else {
                    assert(self.bufs@[j] == removed[j - 1]);
                    assert(removed[j - 1] == pre.bufs_seq()[j]);
                }
            }
            assert forall|a: int, c: int|
                0 <= a < c < self.bufs@.len() implies (#[trigger] self.bufs@[a].id_spec()) != (
                #[trigger] self.bufs@[c].id_spec()) by {
                assert(pre.bufs_seq()[a].id_spec() != pre.bufs_seq()[c].id_spec());
            }
        }
    }

    /// Drains the encoded records one buffer has queued for persistence.
    pub fn take_buf_log_writes(&mut self, i: usize) -> (r: Vec<String>)
        requires
            old(self).wf(),
            i < old(self).bufs_seq().len(),
        ensures
            final(self).wf(),
            IrcNetwork::same_conn_state(*old(self), *final(self)),
            final(self).bufs_seq().len() == old(self).bufs_seq().len(),
            forall|j: int|
                0 <= j < old(self).bufs_seq().len() && j != i ==> final(self).bufs_seq()[j]
                    == old(self).bufs_seq()[j],
            r.deep_view() == old(self).bufs_seq()[i as int].pending_log_seq(),
            final(self).bufs_seq()[i as int].pending_log_seq() == Seq::<Seq<char>>::empty(),
            final(self).bufs_seq()[i as int].front_seq()
                == old(self).bufs_seq()[i as int].front_seq(),
            final(self).bufs_seq()[i as int].id_spec() == old(self).bufs_seq()[i as int].id_spec(),
    {
        let ghost pre = *self;
        let mut b = self.bufs.remove(i);
        let ghost removed = self.bufs@;
        let out = b.take_log_writes();
        self.bufs.insert(i, b);
        proof {
            assert forall|j: int|
                0 <= j < pre.bufs_seq().len() && j != i implies self.bufs@[j]
                    == pre.bufs_seq()[j] by {
                if j < i {
                    assert(self.bufs@[j] == removed[j]);
                    assert(removed[j] == pre.bufs_seq()[j]);
                } else {
                    assert(self.bufs@[j] == removed[j - 1]);
                    assert(removed[j - 1] == pre.bufs_seq()[j]);
                }
            }
            assert forall|a: int, c: int|
                0 <= a < c < self.bufs@.len() implies (#[trigger] self.bufs@[a].id_spec()) != (
                #[trigger] self.bufs@[c].id_spec()) by {
                assert(pre.bufs_seq()[a].id_spec() != pre.bufs_seq()[c].id_spec());
            }
        }
        out
    }

    /// Registers a connection: the network gets an empty outbound queue and
    /// clients are told the network is up. Only one connection may be
    /// registered at a time.
    pub fn register_conn(&mut self, u: &mut BaseUpdateHandle<CoreMsg>)
        requires
            !old(self).connected(),
        ensures
            final(self).connected(),
            final(self).outbound() == Seq::<MessageV>::empty(),
            final(self).bufs_seq() == old(self).bufs_seq(),
            final(self).nick_spec() == old(self).nick_spec(),
            final(self).id_spec() == old(self).id_spec(),
            final(self).wf() == old(self).wf(),
            final(u).queued_msgs() == old(u).queued_msgs().push(
                CoreMsgV::NetMsg(old(self).id_spec(), CoreNetMsgV::Connection(true)),
            ),
            final(u).queued_alerts() == old(u).queued_alerts(),
    {
        self.conn = Some(IrcSender::new());
        u.send_clients(CoreMsg::NetMsg(self.id.clone(), CoreNetMsg::Connection(true)));
    }

    /// Unregisters the current connection and tells clients the network is
    /// down.
    pub fn disconnect(&mut self, u: &mut BaseUpdateHandle<CoreNetMsg>)
        ensures
            !final(self).connected(),
            final(self).bufs_seq() == old(self).bufs_seq(),
            final(self).nick_spec() == old(self).nick_spec(),
            final(self).id_spec() == old(self).id_spec(),
            final(self).wf() == old(self).wf(),
            final(u).queued_msgs() == old(u).queued_msgs().push(CoreNetMsgV::Connection(false)),
            final(u).queued_alerts() == old(u).queued_alerts(),
    {
        self.conn = None;
        u.send_clients(CoreNetMsg::Connection(false));
    }

    /// Hands the queued outbound messages to the connection worker, leaving
    /// the queue empty.
    pub fn take_outbound(&mut self) -> (r: IrcSendRx)
        ensures
            r.remaining() == old(self).outbound(),
            final(self).connected() == old(self).connected(),
            final(self).outbound() == Seq::<MessageV>::empty(),
            final(self).bufs_seq() == old(self).bufs_seq(),
            final(self).nick_spec() == old(self).nick_spec(),
            final(self).id_spec() == old(self).id_spec(),
            final(self).wf() == old(self).wf(),
    {
        match &mut self.conn {
            Some(sender) => {
                let mut out: Vec<Message> = Vec::new();
                core::mem::swap(&mut out, &mut sender.msgs);
                proof {
                    assert(sender.queued() =~= Seq::<MessageV>::empty());
                    assert(out.deep_view().skip(0) =~= out.deep_view());
                }
                IrcSendRx { msgs: out, at: 0 }
            },
            None => {
                let r = IrcSendRx { msgs: Vec::new(), at: 0 };
                proof {
                    assert(r.remaining() =~= Seq::<MessageV>::empty());
                }
                r
            },
        }
    }

    /// Queues the given IRC message for transmission; fails when no
    /// connection is registered.
    pub fn send(&mut self, msg: Message, u: &mut BaseUpdateHandle<CoreNetMsg>) -> (r: Result<
        (),
        IrcSendErr,
    >)
        ensures
            final(self).bufs_seq() == old(self).bufs_seq(),
            final(self).nick_spec() == old(self).nick_spec(),
            final(self).id_spec() == old(self).id_spec(),
            final(self).connected() == old(self).connected(),
            final(self).wf() == old(self).wf(),
            final(u).queued_msgs() == old(u).queued_msgs(),
            final(u).queued_alerts() == old(u).queued_alerts(),
            old(self).connected() ==> r == Ok::<(), IrcSendErr>(()) && final(self).outbound()
                == old(self).outbound().push(msg@),
            !old(self).connected() ==> r == Err::<(), IrcSendErr>(IrcSendErr::Disconnected)
                && final(self).outbound() == old(self).outbound(),
    {
        match &mut self.conn {
            Some(sender) => {
                sender.send(msg);
                Ok(())
            },
            None => Err(IrcSendErr::Disconnected),
        }
    }
}

/// Drains one buffer's queued events into the network-level handle,
/// enveloping each for the buffer's target; alerts pass through unwrapped.
fn forward_buf(
    targ: &BufTarget,
    bu: &mut BaseUpdateHandle<CoreBufMsg>,
    u: &mut BaseUpdateHandle<CoreNetMsg>,
)
    ensures
        final(u).queued_msgs() == old(u).queued_msgs() + wrap_buf_msgs(
            targ@,
            old(bu).queued_msgs(),
        ),
        final(u).queued_alerts() == old(u).queued_alerts() + old(bu).queued_alerts(),
        final(bu).queued_msgs() == Seq::<CoreBufMsgV>::empty(),
        final(bu).queued_alerts() == Seq::<AlertV>::empty(),
{
    let mut msgs = bu.take_msgs();
    let ghost all = msgs.deep_view();
    let n0 = msgs.len();
    let mut k: usize = 0;
    proof {
        assert(msgs.deep_view() =~= all.skip(0));
        assert(wrap_buf_msgs(targ@, all.take(0)) =~= Seq::<CoreNetMsgV>::empty());
        assert(u.queued_msgs() =~= u.queued_msgs() + Seq::<CoreNetMsgV>::empty());
    }
    while msgs.len() > 0
        invariant
            all.len() == n0 as int,
            k + msgs.deep_view().len() == all.len(),
            msgs.deep_view() == all.skip(k as int),
            u.queued_msgs() == old(u).queued_msgs() + wrap_buf_msgs(targ@, all.take(k as int)),
            u.queued_alerts() == old(u).queued_alerts(),
        decreases msgs.len(),
    {
        let ghost entry = msgs@;
        let ghost entry_dv = msgs.deep_view();
        let m = msgs.remove(0);
        proof {
            assert(entry_dv[0] == all.skip(k as int)[0]);
            assert(all.skip(k as int)[0] == all[k as int]);
            assert(m.deep_view() == entry_dv[0]);
            assert forall|j: int| 0 <= j < msgs.deep_view().len() implies msgs.deep_view()[j]
                == all.skip(k + 1)[j] by {
                assert(msgs@[j] == entry.remove(0)[j]);
                assert(entry.remove(0)[j] == entry[j + 1]);
                assert(entry_dv[j + 1] == all.skip(k as int)[j + 1]);
            }
            assert(msgs.deep_view() =~= all.skip(k + 1));
        }
        let ghost before = u.queued_msgs();
        u.send_clients(CoreNetMsg::BufMsg(targ.clone(), m));
        proof {
            assert(wrap_buf_msgs(targ@, all.take(k + 1)) =~= wrap_buf_msgs(
                targ@,
                all.take(k as int),
            ).push(CoreNetMsgV::BufMsg(targ@, all[k as int])));
            assert(u.queued_msgs() =~= old(u).queued_msgs() + wrap_buf_msgs(
                targ@,
                all.take(k + 1),
            ));
        }
        k = k + 1;
    }
    proof {
        assert(all.take(all.len() as int) =~= all);
    }
    let mut alerts = bu.take_alerts();
    let ghost alls = alerts.deep_view();
    let a0 = alerts.len();
    let mut t: usize = 0;
    proof {
        assert(alerts.deep_view() =~= alls.skip(0));
        assert(u.queued_alerts() =~= u.queued_alerts() + alls.take(0));
    }
    while alerts.len() > 0
        invariant
            alls.len() == a0 as int,
            t + alerts.deep_view().len() == alls.len(),
            alerts.deep_view() == alls.skip(t as int),
            u.queued_msgs() == old(u).queued_msgs() + wrap_buf_msgs(targ@, all),
            u.queued_alerts() == old(u).queued_alerts() + alls.take(t as int),
        decreases alerts.len(),
    {
        let ghost aentry = alerts@;
        let ghost aentry_dv = alerts.deep_view();
        let a = alerts.remove(0);
        proof {
            assert(aentry_dv[0] == alls.skip(t as int)[0]);
            assert(alls.skip(t as int)[0] == alls[t as int]);
            assert(a.deep_view() == aentry_dv[0]);
            assert forall|j: int| 0 <= j < alerts.deep_view().len() implies alerts.deep_view()[j]
                == alls.skip(t + 1)[j] by {
                assert(alerts@[j] == aentry.remove(0)[j]);
                assert(aentry.remove(0)[j] == aentry[j + 1]);
                assert(aentry_dv[j + 1] == alls.skip(t as int)[j + 1]);
            }
            assert(alerts.deep_view() =~= alls.skip(t + 1));
        }
        u.post_alert(a);
        proof {
            assert(u.queued_alerts() =~= old(u).queued_alerts() + alls.take(t + 1));
        }
        t = t + 1;
    }
    proof {
        assert(alls.take(alls.len() as int) =~= alls);
    }
}

/// One buffer command was dispatched to the buffer for a target: an existing
/// buffer was updated in place; a missing one was created (and announced to
/// clients first) and then updated. The buffer's own events arrive enveloped
/// for its target.
pub open spec fn dispatched_to(
    pre: IrcNetwork,
    post: IrcNetwork,
    pre_u: BaseUpdateHandle<CoreNetMsg>,
    post_u: BaseUpdateHandle<CoreNetMsg>,
    t: BufTargetV,
    cmd: BufferCmdV,
) -> bool {
    match find_buf(pre.bufs_seq(), t) {
        Some(i) => {
            &&& post.bufs_seq().len() == pre.bufs_seq().len()
            &&& forall|j: int|
                0 <= j < pre.bufs_seq().len() && j != i ==> post.bufs_seq()[j] == pre.bufs_seq()[j]
            &&& Buffer::cmd_state(pre.bufs_seq()[i], post.bufs_seq()[i], cmd, pre.nick_spec())
            &&& Buffer::same_identity(pre.bufs_seq()[i], post.bufs_seq()[i])
            &&& post.bufs_seq()[i].cursor() == pre.bufs_seq()[i].cursor()
            &&& post_u.queued_msgs() == pre_u.queued_msgs() + wrap_buf_msgs(
                t,
                Buffer::cmd_msgs(pre.bufs_seq()[i], post.bufs_seq()[i], cmd, pre.nick_spec()),
            )
            &&& post_u.queued_alerts() == pre_u.queued_alerts() + Buffer::cmd_alerts(
                pre.bufs_seq()[i],
                cmd,
                pre.nick_spec(),
            )
        },
        None => {
            exists|b0: Buffer|
                {
                    &&& #[trigger] fresh_buffer(pre.id_spec(), t, b0)
                    &&& post.bufs_seq().len() == pre.bufs_seq().len() + 1
                    &&& post.bufs_seq().drop_last() == pre.bufs_seq()
                    &&& Buffer::cmd_state(b0, post.bufs_seq().last(), cmd, pre.nick_spec())
                    &&& Buffer::same_identity(b0, post.bufs_seq().last())
                    &&& post_u.queued_msgs() == pre_u.queued_msgs().push(
                        CoreNetMsgV::Buffers(
                            seq![BufInfoV { id: t, joined: t is Private }],
                        ),
                    ) + wrap_buf_msgs(
                        t,
                        Buffer::cmd_msgs(b0, post.bufs_seq().last(), cmd, pre.nick_spec()),
                    )
                    &&& post_u.queued_alerts() == pre_u.queued_alerts() + Buffer::cmd_alerts(
                        b0,
                        cmd,
                        pre.nick_spec(),
                    )
                }
        },
    }
}

impl IrcNetwork {
    /// Everything but the buffers is untouched.
    pub open spec fn same_conn_state(pre: IrcNetwork, post: IrcNetwork) -> bool {
        &&& post.id_spec() == pre.id_spec()
        &&& post.nick_spec() == pre.nick_spec()
        &&& post.connected() == pre.connected()
        &&& post.outbound() == pre.outbound()
    }

    /// Routes one buffer command to the buffer for a target, creating the
    /// buffer (and telling clients about it) when none exists.
    fn dispatch_buf(&mut self, targ: BufTarget, cmd: BufferCmd, u: &mut BaseUpdateHandle<
        CoreNetMsg,
    >)
        requires
            old(self).wf(),
        ensures
            final(self).wf(),
            IrcNetwork::same_conn_state(*old(self), *final(self)),
            dispatched_to(*old(self), *final(self), *old(u), *final(u), targ@, cmd@),
    {
        let ghost pre = *self;
        let ghost pre_u = *u;
        let mut bu: BaseUpdateHandle<CoreBufMsg> = BaseUpdateHandle::new();
        let nick = self.nick.clone();
        let idx: usize = match self.buf_index(&targ) {
            Some(i) => {
                proof {
                    lemma_find_buf(self.bufs_seq(), targ@);
                }
                i
            },
            None => {
                let day = today();
                let b = Buffer::new(self.id.clone(), targ.clone(), day);
                let ghost b0 = b;
                let info = b.as_info();
                let mut infos: Vec<BufInfo> = Vec::new();
                infos.push(info);
                proof {
                    assert(infos.deep_view() =~= seq![
                        BufInfoV { id: targ@, joined: targ@ is Private },
                    ]);
                }
                u.send_clients(CoreNetMsg::Buffers(infos));
                let i = self.bufs.len();
                self.bufs.push(b);
                proof {
                    assert(self.bufs_seq() =~= pre.bufs_seq().push(b0));
                    assert(self.bufs_seq().drop_last() =~= pre.bufs_seq());
                    assert(fresh_buffer(pre.id_spec(), targ@, b0));
                }
                i
            },
        };
        let mut b = self.bufs.remove(idx);
        let ghost pre_b = b;
        let ghost mid_bufs = self.bufs@;
        b.handle_cmd(cmd, nick.as_str(), &mut bu);
        self.bufs.insert(idx, b);
        forward_buf(&targ, &mut bu, u);
        proof {
            match find_buf(pre.bufs_seq(), targ@) {
                Some(i) => {
                    lemma_find_buf(pre.bufs_seq(), targ@);
                    assert(self.bufs_seq() =~= pre.bufs_seq().update(
                        i,
                        self.bufs_seq()[i],
                    ));
                    assert forall|j: int|
                        0 <= j < pre.bufs_seq().len() && j != i implies self.bufs_seq()[j]
                            == pre.bufs_seq()[j] by {
                        if j < i {
                            assert(mid_bufs[j] == pre.bufs_seq()[j]);
                        } else {
                            assert(mid_bufs[j - 1] == pre.bufs_seq()[j]);
                        }
                    }
                    assert forall|a: int, c: int|
                        0 <= a < c < self.bufs_seq().len() implies (
                        #[trigger] self.bufs_seq()[a].id_spec()) != (
                        #[trigger] self.bufs_seq()[c].id_spec()) by {
                        assert(pre.bufs_seq()[a].id_spec() != pre.bufs_seq()[c].id_spec());
                    }
                },
                None => {
                    assert(self.bufs_seq() =~= pre.bufs_seq().push(self.bufs_seq().last()));
                    assert(self.bufs_seq().drop_last() =~= pre.bufs_seq());
                    lemma_find_buf(pre.bufs_seq(), targ@);
                    assert forall|a: int, c: int|
                        0 <= a < c < self.bufs_seq().len() implies (
                        #[trigger] self.bufs_seq()[a].id_spec()) != (
                        #[trigger] self.bufs_seq()[c].id_spec()) by {
                        if c == self.bufs_seq().len() - 1 {
                            assert(self.bufs_seq()[a] == pre.bufs_seq()[a]);
                            assert(self.bufs_seq()[c].id_spec() == targ@);
                        } else {
                            assert(pre.bufs_seq()[a].id_spec() != pre.bufs_seq()[c].id_spec());
                        }
                    }
                },
            }
        }
    }
}

/// How one quit changes a buffer the quitting user was present in.
pub open spec fn quit_state(pre: Buffer, post: Buffer, uv: UserV, reason: Option<Seq<char>>) -> bool {
    &&& Buffer::same_identity(pre, post)
    &&& post.cursor() == pre.cursor()
    &&& post.joined_spec() == pre.joined_spec()
    &&& post.names_ended_spec() == pre.names_ended_spec()
    &&& post.users_set() == pre.users_set().remove(uv.nick)
    &&& (pre.has_room() ==> Buffer::pushed(
        pre,
        post,
        crate::line::LineDataV::Quit { user: uv, msg: reason },
    ))
    &&& (!pre.has_room() ==> Buffer::no_push(pre, post))
}

/// How one nick change affects a buffer the user was present in.
pub open spec fn nick_state(pre: Buffer, post: Buffer, uv: UserV, new: Seq<char>) -> bool {
    &&& Buffer::same_identity(pre, post)
    &&& post.cursor() == pre.cursor()
    &&& post.joined_spec() == pre.joined_spec()
    &&& post.names_ended_spec() == pre.names_ended_spec()
    &&& post.users_set() == pre.users_set().remove(uv.nick).insert(new)
    &&& (pre.has_room() ==> Buffer::pushed(
        pre,
        post,
        crate::line::LineDataV::Nick { user: uv, new },
    ))
    &&& (!pre.has_room() ==> Buffer::no_push(pre, post))
}

/// The events a fan-out over the buffers emits: one enveloped new-lines
/// batch per buffer whose presence set held the nick (when the buffer had
/// room for the line), in buffer order.
pub open spec fn fanout_msgs(pre: Seq<Buffer>, post: Seq<Buffer>, nick: Seq<char>) -> Seq<
    CoreNetMsgV,
>
    decreases pre.len(),
{
    if pre.len() == 0 || post.len() != pre.len() {
        Seq::empty()
    } else {
        fanout_msgs(pre.drop_last(), post.drop_last(), nick) + (if pre.last().users_set().contains(
            nick,
        ) {
            if pre.last().has_room() {
                seq![
                    CoreNetMsgV::BufMsg(
                        pre.last().id_spec(),
                        CoreBufMsgV::NewLines(seq![post.last().front_seq().last()]),
                    ),
                ]
            } else {
                Seq::empty()
            }
        } else {
            Seq::empty()
        })
    }
}

/// The body of the CTCP VERSION reply.
pub open spec fn version_body() -> Seq<char> {
    "\u{1}VERSION distirc 0.1.0\u{1}"@
}

/// The status line pushed into the network buffer for a VERSION request.
pub open spec fn version_note() -> Seq<char> {
    "*CTCP VERSION request*"@
}

/// What one network-level command does to the network, its buffers, its
/// outbound queue, and the user-facing event queues.
pub open spec fn net_cmd_applied(
    pre: IrcNetwork,
    post: IrcNetwork,
    pre_u: BaseUpdateHandle<CoreNetMsg>,
    post_u: BaseUpdateHandle<CoreNetMsg>,
    cmd: NetworkCmdV,
) -> bool {
    match cmd {
        NetworkCmdV::QUIT(uv, reason) => {
            &&& post.nick_spec() == pre.nick_spec()
            &&& post.connected() == pre.connected()
            &&& post.outbound() == pre.outbound()
            &&& post.bufs_seq().len() == pre.bufs_seq().len()
            &&& forall|i: int|
                0 <= i < pre.bufs_seq().len() ==> (if (#[trigger] pre.bufs_seq()[i]).users_set().contains(
                    uv.nick,
                ) {
                    quit_state(pre.bufs_seq()[i], post.bufs_seq()[i], uv, reason)
                } else {
                    post.bufs_seq()[i] == pre.bufs_seq()[i]
                })
            &&& post_u.queued_msgs() == pre_u.queued_msgs() + fanout_msgs(
                pre.bufs_seq(),
                post.bufs_seq(),
                uv.nick,
            )
            &&& post_u.queued_alerts() == pre_u.queued_alerts()
        },
        NetworkCmdV::NICK(uv, new) => {
            &&& post.nick_spec() == (if uv.nick == pre.nick_spec() {
                new
            } else {
                pre.nick_spec()
            })
            &&& post.connected() == pre.connected()
            &&& post.outbound() == pre.outbound()
            &&& post.bufs_seq().len() == pre.bufs_seq().len()
            &&& forall|i: int|
                0 <= i < pre.bufs_seq().len() ==> (if (#[trigger] pre.bufs_seq()[i]).users_set().contains(
                    uv.nick,
                ) {
                    nick_state(pre.bufs_seq()[i], post.bufs_seq()[i], uv, new)
                } else {
                    post.bufs_seq()[i] == pre.bufs_seq()[i]
                })
            &&& post_u.queued_msgs() == pre_u.queued_msgs() + (if uv.nick == pre.nick_spec() {
                seq![CoreNetMsgV::NickChanged(new)]
            } else {
                Seq::<CoreNetMsgV>::empty()
            }) + fanout_msgs(pre.bufs_seq(), post.bufs_seq(), uv.nick)
            &&& post_u.queued_alerts() == pre_u.queued_alerts()
        },
        NetworkCmdV::RPL_MYINFO(n) => {
            &&& post.nick_spec() == n
            &&& post.bufs_seq() == pre.bufs_seq()
            &&& post.connected() == pre.connected()
            &&& post.outbound() == pre.outbound()
            &&& post_u.queued_msgs() == pre_u.queued_msgs()
            &&& post_u.queued_alerts() == pre_u.queued_alerts()
        },
        NetworkCmdV::CtcpQuery(uv, dest, q) => {
            if q.tag == "VERSION"@ {
                &&& post.nick_spec() == pre.nick_spec()
                &&& post.connected() == pre.connected()
                &&& post_u.queued_alerts() == pre_u.queued_alerts()
                &&& (match find_buf(pre.bufs_seq(), BufTargetV::Network) {
                    Some(i) => {
                        &&& post.bufs_seq().len() == pre.bufs_seq().len()
                        &&& (forall|j: int|
                            0 <= j < pre.bufs_seq().len() && j != i
                                ==> post.bufs_seq()[j] == pre.bufs_seq()[j])
                        &&& Buffer::same_identity(pre.bufs_seq()[i], post.bufs_seq()[i])
                        &&& post.bufs_seq()[i].joined_spec() == pre.bufs_seq()[i].joined_spec()
                        &&& post.bufs_seq()[i].users_set() == pre.bufs_seq()[i].users_set()
                        &&& post.bufs_seq()[i].names_ended_spec()
                            == pre.bufs_seq()[i].names_ended_spec()
                        &&& (pre.bufs_seq()[i].has_room() ==> Buffer::pushed(
                            pre.bufs_seq()[i],
                            post.bufs_seq()[i],
                            crate::line::LineDataV::Message {
                                kind: crate::line::MsgKind::Status,
                                from: uv.nick,
                                msg: version_note(),
                            },
                        ) && post_u.queued_msgs() == pre_u.queued_msgs() + wrap_buf_msgs(
                            BufTargetV::Network,
                            seq![
                                CoreBufMsgV::NewLines(
                                    seq![post.bufs_seq()[i].front_seq().last()],
                                ),
                            ],
                        ))
                        &&& (!pre.bufs_seq()[i].has_room() ==> Buffer::no_push(
                            pre.bufs_seq()[i],
                            post.bufs_seq()[i],
                        ) && post_u.queued_msgs() == pre_u.queued_msgs())
                    },
                    None => {
                        &&& post.bufs_seq() == pre.bufs_seq()
                        &&& post_u.queued_msgs() == pre_u.queued_msgs()
                    },
                })
                &&& (pre.connected() ==> post.outbound() == pre.outbound().push(
                    MessageV {
                        prefix: None,
                        command: crate::message::CommandV::Notice,
                        args: seq![uv.nick],
                        body: Some(version_body()),
                    },
                ))
                &&& (!pre.connected() ==> post.outbound() == pre.outbound())
            } else {
                &&& post.nick_spec() == pre.nick_spec()
                &&& post.bufs_seq() == pre.bufs_seq()
                &&& post.connected() == pre.connected()
                &&& post.outbound() == pre.outbound()
                &&& post_u.queued_msgs() == pre_u.queued_msgs()
                &&& post_u.queued_alerts() == pre_u.queued_alerts()
            }
        },
        NetworkCmdV::CtcpReply(_, _, _) => {
            &&& post.nick_spec() == pre.nick_spec()
            &&& post.bufs_seq() == pre.bufs_seq()
            &&& post.connected() == pre.connected()
            &&& post.outbound() == pre.outbound()
            &&& post_u.queued_msgs() == pre_u.queued_msgs()
            &&& post_u.queued_alerts() == pre_u.queued_alerts()
        },
        NetworkCmdV::UnknownCode(_, _, _) => {
            &&& post.nick_spec() == pre.nick_spec()
            &&& post.bufs_seq() == pre.bufs_seq()
            &&& post.connected() == pre.connected()
            &&& post.outbound() == pre.outbound()
            &&& post_u.queued_msgs() == pre_u.queued_msgs()
            &&& post_u.queued_alerts() == pre_u.queued_alerts()
        },
    }
}

impl IrcNetwork {
    /// Applies one quit or nick change to every buffer whose presence set
    /// holds the user, queueing the enveloped new-lines events in buffer
    /// order.
    fn fanout(&mut self, user: &User, new_nick: Option<&String>, reason: Option<String>, u:
        &mut BaseUpdateHandle<CoreNetMsg>)
        requires
            old(self).wf(),
        ensures
            final(self).wf(),
            IrcNetwork::same_conn_state(*old(self), *final(self)),
            final(self).bufs_seq().len() == old(self).bufs_seq().len(),
            forall|i: int|
                0 <= i < old(self).bufs_seq().len() ==> (if (#[trigger] old(self).bufs_seq()[i]).users_set().contains(
                    user@.nick,
                ) {
                    match new_nick {
                        Some(n) => nick_state(
                            old(self).bufs_seq()[i],
                            final(self).bufs_seq()[i],
                            user@,
                            n@,
                        ),
                        None => quit_state(
                            old(self).bufs_seq()[i],
                            final(self).bufs_seq()[i],
                            user@,
                            crate::line::opt_str_view(&reason),
                        ),
                    }
                } else {
                    final(self).bufs_seq()[i] == old(self).bufs_seq()[i]
                }),
            final(u).queued_msgs() == old(u).queued_msgs() + fanout_msgs(
                old(self).bufs_seq(),
                final(self).bufs_seq(),
                user@.nick,
            ),
            final(u).queued_alerts() == old(u).queued_alerts(),
    {
        let ghost pre = *self;
        let ghost pre_u = *u;
        let mut i: usize = 0;
        while i < self.bufs.len()
            invariant
                pre.wf(),
                i <= self.bufs@.len(),
                self.bufs@.len() == pre.bufs_seq().len(),
                self.id == pre.id,
                self.nick == pre.nick,
                self.cfg == pre.cfg,
                self.conn == pre.conn,
                forall|j: int| i <= j < pre.bufs_seq().len() ==> self.bufs@[j] == pre.bufs_seq()[j],
                forall|j: int|
                    0 <= j < pre.bufs_seq().len() ==> (#[trigger] self.bufs@[j]).wf()
                        && self.bufs@[j].id_spec() == pre.bufs_seq()[j].id_spec()
                        && self.bufs@[j].nid_spec() == pre.bufs_seq()[j].nid_spec(),
                forall|j: int|
                    0 <= j < i ==> (if (#[trigger] pre.bufs_seq()[j]).users_set().contains(
                        user@.nick,
                    ) {
                        match new_nick {
                            Some(n) => nick_state(pre.bufs_seq()[j], self.bufs@[j], user@, n@),
                            None => quit_state(
                                pre.bufs_seq()[j],
                                self.bufs@[j],
                                user@,
                                crate::line::opt_str_view(&reason),
                            ),
                        }
                    } else {
                        self.bufs@[j] == pre.bufs_seq()[j]
                    }),
                u.queued_msgs() == pre_u.queued_msgs() + fanout_msgs(
                    pre.bufs_seq().take(i as int),
                    self.bufs@.take(i as int),
                    user@.nick,
                ),
                u.queued_alerts() == pre_u.queued_alerts(),
            decreases self.bufs@.len() - i,
        {
            proof {
                if i == 0 {
                    assert(fanout_msgs(
                        pre.bufs_seq().take(0),
                        self.bufs@.take(0),
                        user@.nick,
                    ) =~= Seq::<CoreNetMsgV>::empty());
                }
            }
            let ghost entry_bufs = self.bufs@;
            let present = self.bufs[i].has_user(user.nick.as_str());
            if present {
                let targ = self.bufs[i].id().clone();
                let mut b = self.bufs.remove(i);
                let ghost pre_b = b;
                let ghost removed = self.bufs@;
                let mut bu: BaseUpdateHandle<CoreBufMsg> = BaseUpdateHandle::new();
                match new_nick {
                    Some(n) => {
                        b.handle_nick(user, n.clone(), &mut bu);
                    },
                    None => {
                        b.handle_quit(user, crate::line::clone_opt_string(&reason), &mut bu);
                    },
                }
                self.bufs.insert(i, b);
                proof {
                    assert forall|j: int|
                        0 <= j < self.bufs@.len() && j != i implies self.bufs@[j]
                            == entry_bufs[j] by {
                        if j < i {
                            assert(self.bufs@[j] == removed[j]);
                            assert(removed[j] == entry_bufs[j]);
                        } else {
                            assert(self.bufs@[j] == removed[j - 1]);
                            assert(removed[j - 1] == entry_bufs[j]);
                        }
                    }
                    assert(self.bufs@.len() == entry_bufs.len());
                }
                let ghost mid_u = *u;
                forward_buf(&targ, &mut bu, u);
                proof {
                    assert(self.bufs@.take(i + 1).drop_last() =~= self.bufs@.take(i as int));
                    assert(pre.bufs_seq().take(i + 1).drop_last() =~= pre.bufs_seq().take(
                        i as int,
                    ));
                    assert(pre.bufs_seq().take(i + 1).last() == pre.bufs_seq()[i as int]);
                    assert(self.bufs@.take(i + 1).last() == self.bufs@[i as int]);
                    if pre.bufs_seq()[i as int].has_room() {
                        assert(wrap_buf_msgs(
                            targ@,
                            seq![
                                CoreBufMsgV::NewLines(
                                    seq![self.bufs@[i as int].front_seq().last()],
                                ),
                            ],
                        ) =~= seq![
                            CoreNetMsgV::BufMsg(
                                pre.bufs_seq()[i as int].id_spec(),
                                CoreBufMsgV::NewLines(
                                    seq![self.bufs@[i as int].front_seq().last()],
                                ),
                            ),
                        ]);
                    } else {
                        assert(wrap_buf_msgs(targ@, Seq::<CoreBufMsgV>::empty()) =~= Seq::<
                            CoreNetMsgV,
                        >::empty());
                    }
                    assert(self.bufs@.take(i as int) =~= entry_bufs.take(i as int));
                    assert(fanout_msgs(
                        pre.bufs_seq().take(i + 1),
                        self.bufs@.take(i + 1),
                        user@.nick,
                    ) == fanout_msgs(
                        pre.bufs_seq().take(i as int),
                        self.bufs@.take(i as int),
                        user@.nick,
                    ) + (if pre.bufs_seq()[i as int].users_set().contains(user@.nick) {
                        if pre.bufs_seq()[i as int].has_room() {
                            seq![
                                CoreNetMsgV::BufMsg(
                                    pre.bufs_seq()[i as int].id_spec(),
                                    CoreBufMsgV::NewLines(
                                        seq![self.bufs@[i as int].front_seq().last()],
                                    ),
                                ),
                            ]
                        } else {
                            Seq::<CoreNetMsgV>::empty()
                        }
                    } else {
                        Seq::<CoreNetMsgV>::empty()
                    }));
                    assert(u.queued_msgs() =~= pre_u.queued_msgs() + fanout_msgs(
                        pre.bufs_seq().take(i + 1),
                        self.bufs@.take(i + 1),
                        user@.nick,
                    ));
                }
            } else {
                proof {
                    assert(self.bufs@.take(i + 1).drop_last() =~= self.bufs@.take(i as int));
                    assert(pre.bufs_seq().take(i + 1).drop_last() =~= pre.bufs_seq().take(
                        i as int,
                    ));
                    assert(pre.bufs_seq().take(i + 1).last() == pre.bufs_seq()[i as int]);
                    assert(u.queued_msgs() =~= pre_u.queued_msgs() + fanout_msgs(
                        pre.bufs_seq().take(i + 1),
                        self.bufs@.take(i + 1),
                        user@.nick,
                    ));
                }
            }
            i = i + 1;
        }
        proof {
            assert(pre.bufs_seq().take(pre.bufs_seq().len() as int) =~= pre.bufs_seq());
            assert(self.bufs@.take(self.bufs@.len() as int) =~= self.bufs@);
        }
    }

    /// Handles a network-level routed command.
    fn handle_net_cmd(&mut self, cmd: NetworkCmd, u: &mut BaseUpdateHandle<CoreNetMsg>)
        requires
            old(self).wf(),
        ensures
            final(self).wf(),
            final(self).id_spec() == old(self).id_spec(),
            net_cmd_applied(*old(self), *final(self), *old(u), *final(u), cmd@),
    {
        let ghost pre = *self;
        let ghost pre_u = *u;
        match cmd {
            NetworkCmd::QUIT(user, reason) => {
                self.fanout(&user, None, reason, u);
            },
            NetworkCmd::NICK(user, new) => {
                if str_eq_str(user.nick.as_str(), self.nick.as_str()) {
                    self.nick = new.clone();
                    u.send_clients(CoreNetMsg::NickChanged(new.clone()));
                    proof {
                        assert(u.queued_msgs() =~= pre_u.queued_msgs() + seq![
                            CoreNetMsgV::NickChanged(new@),
                        ]);
                    }
                } else {
                    proof {
                        assert(u.queued_msgs() =~= pre_u.queued_msgs() + Seq::<
                            CoreNetMsgV,
                        >::empty());
                    }
                }
                self.fanout(&user, Some(&new), None, u);
                proof {
                    assert(u.queued_msgs() =~= pre_u.queued_msgs() + (if user@.nick
                        == pre.nick_spec() {
                        seq![CoreNetMsgV::NickChanged(new@)]
                    } else {
                        Seq::<CoreNetMsgV>::empty()
                    }) + fanout_msgs(pre.bufs_seq(), self.bufs@, user@.nick));
                }
            },
            NetworkCmd::RPL_MYINFO(nick) => {
                self.nick = nick;
            },
            NetworkCmd::CtcpQuery(user, _dest, query) => {
                if str_eq_str(query.tag.as_str(), "VERSION") {
                    let targ = BufTarget::Network;
                    match self.buf_index(&targ) {
                        Some(i) => {
                            proof {
                                lemma_find_buf(self.bufs_seq(), BufTargetV::Network);
                            }
                            let mut b = self.bufs.remove(i);
                            let ghost removed = self.bufs@;
                            let mut bu: BaseUpdateHandle<CoreBufMsg> = BaseUpdateHandle::new();
                            let note: String = "*CTCP VERSION request*".to_owned();
                            b.push_line(
                                LineData::Message {
                                    kind: MsgKind::Status,
                                    from: user.nick.clone(),
                                    msg: note,
                                },
                                &mut bu,
                            );
                            self.bufs.insert(i, b);
                            forward_buf(&targ, &mut bu, u);
                            proof {
                                assert forall|j: int|
                                    0 <= j < pre.bufs_seq().len() && j != i
                                        implies self.bufs@[j] == pre.bufs_seq()[j] by {
                                    if j < i {
                                        assert(self.bufs@[j] == removed[j]);
                                        assert(removed[j] == pre.bufs_seq()[j]);
                                    } else {
                                        assert(self.bufs@[j] == removed[j - 1]);
                                        assert(removed[j - 1] == pre.bufs_seq()[j]);
                                    }
                                }
                                assert forall|a: int, c: int|
                                    0 <= a < c < self.bufs@.len() implies (
                                    #[trigger] self.bufs@[a].id_spec()) != (
                                    #[trigger] self.bufs@[c].id_spec()) by {
                                    assert(pre.bufs_seq()[a].id_spec()
                                        != pre.bufs_seq()[c].id_spec());
                                }
                                if pre.bufs_seq()[i as int].has_room() {
                                    assert(wrap_buf_msgs(
                                        BufTargetV::Network,
                                        seq![
                                            CoreBufMsgV::NewLines(
                                                seq![self.bufs@[i as int].front_seq().last()],
                                            ),
                                        ],
                                    ) =~= u.queued_msgs().skip(pre_u.queued_msgs().len() as int));
                                    assert(u.queued_msgs() =~= pre_u.queued_msgs()
                                        + wrap_buf_msgs(
                                        BufTargetV::Network,
                                        seq![
                                            CoreBufMsgV::NewLines(
                                                seq![self.bufs@[i as int].front_seq().last()],
                                            ),
                                        ],
                                    ));
                                } else {
                                    assert(wrap_buf_msgs(
                                        BufTargetV::Network,
                                        Seq::<CoreBufMsgV>::empty(),
                                    ) =~= Seq::<CoreNetMsgV>::empty());
                                    assert(u.queued_msgs() =~= pre_u.queued_msgs());
                                }
                            }
                        },
                        None => {
                            proof {
                                assert(u.queued_msgs() =~= pre_u.queued_msgs());
                            }
                        },
                    }
                    let mut args: Vec<String> = Vec::new();
                    args.push(user.nick.clone());
                    let body: String = "\u{1}VERSION distirc 0.1.0\u{1}".to_owned();
                    let reply = Message {
                        prefix: None,
                        command: Command::Notice,
                        args,
                        body: Some(body),
                    };
                    proof {
                        assert(reply@.args =~= seq![user@.nick]);
                    }
                    let _ = self.send(reply, u);
                }
            },
            NetworkCmd::CtcpReply(_, _, _) => {},
            NetworkCmd::UnknownCode(_, _, _) => {},
        }
    }

    /// Handles one protocol event from IRC: routes it against the current
    /// nick and dispatches the result to a buffer or to the network itself.
    pub fn handle_msg(&mut self, msg: Message, u: &mut BaseUpdateHandle<CoreNetMsg>)
        requires
            old(self).wf(),
        ensures
            final(self).wf(),
            final(self).id_spec() == old(self).id_spec(),
            match route_spec(msg@, old(self).nick_spec()) {
                None => final(self).bufs_seq() == old(self).bufs_seq() && IrcNetwork::same_conn_state(
                    *old(self),
                    *final(self),
                ) && final(u).queued_msgs() == old(u).queued_msgs() && final(u).queued_alerts()
                    == old(u).queued_alerts(),
                Some(RoutedMsgV::Channel(chan, cmd)) => IrcNetwork::same_conn_state(
                    *old(self),
                    *final(self),
                ) && dispatched_to(
                    *old(self),
                    *final(self),
                    *old(u),
                    *final(u),
                    BufTargetV::Channel(chan),
                    cmd,
                ),
                Some(RoutedMsgV::Private(uv, cmd)) => IrcNetwork::same_conn_state(
                    *old(self),
                    *final(self),
                ) && dispatched_to(
                    *old(self),
                    *final(self),
                    *old(u),
                    *final(u),
                    BufTargetV::Private(uv.nick),
                    cmd,
                ),
                Some(RoutedMsgV::NetBuffer(cmd)) => IrcNetwork::same_conn_state(
                    *old(self),
                    *final(self),
                ) && dispatched_to(
                    *old(self),
                    *final(self),
                    *old(u),
                    *final(u),
                    BufTargetV::Network,
                    cmd,
                ),
                Some(RoutedMsgV::Network(ncmd)) => net_cmd_applied(
                    *old(self),
                    *final(self),
                    *old(u),
                    *final(u),
                    ncmd,
                ),
            },
    {
        let nick = self.nick.clone();
        match route_message(msg, nick.as_str()) {
            Some(RoutedMsg::Network(cmd)) => {
                self.handle_net_cmd(cmd, u);
            },
            Some(RoutedMsg::Channel(chan, cmd)) => {
                self.dispatch_buf(BufTarget::Channel(chan), cmd, u);
            },
            Some(RoutedMsg::Private(user, cmd)) => {
                self.dispatch_buf(BufTarget::Private(user.nick), cmd, u);
            },
            Some(RoutedMsg::NetBuffer(cmd)) => {
                self.dispatch_buf(BufTarget::Network, cmd, u);
            },
            None => {},
        }
    }

    /// Asks the server to join the given channel.
    pub fn send_join_chan(&mut self, chan: String, u: &mut BaseUpdateHandle<CoreNetMsg>) -> (r:
        Result<(), IrcSendErr>)
        ensures
            final(self).bufs_seq() == old(self).bufs_seq(),
            final(self).nick_spec() == old(self).nick_spec(),
            final(self).id_spec() == old(self).id_spec(),
            final(self).connected() == old(self).connected(),
            final(self).wf() == old(self).wf(),
            final(u).queued_msgs() == old(u).queued_msgs(),
            final(u).queued_alerts() == old(u).queued_alerts(),
            old(self).connected() ==> r == Ok::<(), IrcSendErr>(()) && final(self).outbound()
                == old(self).outbound().push(
                MessageV {
                    prefix: None,
                    command: crate::message::CommandV::Join,
                    args: seq![chan@],
                    body: None,
                },
            ),
            !old(self).connected() ==> r == Err::<(), IrcSendErr>(IrcSendErr::Disconnected)
                && final(self).outbound() == old(self).outbound(),
    {
        let mut args: Vec<String> = Vec::new();
        let ghost cv = chan@;
        args.push(chan);
        let m = Message { prefix: None, command: Command::Join, args, body: None };
        proof {
            assert(m@.args =~= seq![cv]);
        }
        self.send(m, u)
    }

    /// Asks the server to part the given channel, with an optional message.
    pub fn send_part_chan(
        &mut self,
        chan: String,
        optmsg: Option<String>,
        u: &mut BaseUpdateHandle<CoreNetMsg>,
    ) -> (r: Result<(), IrcSendErr>)
        ensures
            final(self).bufs_seq() == old(self).bufs_seq(),
            final(self).nick_spec() == old(self).nick_spec(),
            final(self).id_spec() == old(self).id_spec(),
            final(self).connected() == old(self).connected(),
            final(self).wf() == old(self).wf(),
            final(u).queued_msgs() == old(u).queued_msgs(),
            final(u).queued_alerts() == old(u).queued_alerts(),
            old(self).connected() ==> r == Ok::<(), IrcSendErr>(()) && final(self).outbound()
                == old(self).outbound().push(
                MessageV {
                    prefix: None,
                    command: crate::message::CommandV::Part,
                    args: seq![chan@],
                    body: crate::line::opt_str_view(&optmsg),
                },
            ),
            !old(self).connected() ==> r == Err::<(), IrcSendErr>(IrcSendErr::Disconnected)
                && final(self).outbound() == old(self).outbound(),
    {
        let mut args: Vec<String> = Vec::new();
        let ghost cv = chan@;
        args.push(chan);
        let m = Message { prefix: None, command: Command::Part, args, body: optmsg };
        proof {
            assert(m@.args =~= seq![cv]);
        }
        self.send(m, u)
    }

    /// Asks the server to change our nick.
    pub fn send_change_nick(&mut self, nick: String, u: &mut BaseUpdateHandle<CoreNetMsg>) -> (r:
        Result<(), IrcSendErr>)
        ensures
            final(self).bufs_seq() == old(self).bufs_seq(),
            final(self).nick_spec() == old(self).nick_spec(),
            final(self).id_spec() == old(self).id_spec(),
            final(self).connected() == old(self).connected(),
            final(self).wf() == old(self).wf(),
            final(u).queued_msgs() == old(u).queued_msgs(),
            final(u).queued_alerts() == old(u).queued_alerts(),
            old(self).connected() ==> r == Ok::<(), IrcSendErr>(()) && final(self).outbound()
                == old(self).outbound().push(
                MessageV {
                    prefix: None,
                    command: crate::message::CommandV::Nick,
                    args: seq![nick@],
                    body: None,
                },
            ),
            !old(self).connected() ==> r == Err::<(), IrcSendErr>(IrcSendErr::Disconnected)
                && final(self).outbound() == old(self).outbound(),
    {
        let mut args: Vec<String> = Vec::new();
        let ghost nv = nick@;
        args.push(nick);
        let m = Message { prefix: None, command: Command::Nick, args, body: None };
        proof {
            assert(m@.args =~= seq![nv]);
        }
        self.send(m, u)
    }

    /// The protocol message a chat send of a given kind produces: a PRIVMSG
    /// or NOTICE carrying the text, or a PRIVMSG carrying a CTCP ACTION.
    pub open spec fn chat_wire_msg(dest: Seq<char>, msg: Seq<char>, kind: SendMsgKind) -> MessageV {
        match kind {
            SendMsgKind::PrivMsg => MessageV {
                prefix: None,
                command: crate::message::CommandV::Privmsg,
                args: seq![dest],
                body: Some(msg),
            },
            SendMsgKind::Notice => MessageV {
                prefix: None,
                command: crate::message::CommandV::Notice,
                args: seq![dest],
                body: Some(msg),
            },
            SendMsgKind::Action => MessageV {
                prefix: None,
                command: crate::message::CommandV::Privmsg,
                args: seq![dest],
                body: Some("\u{1}ACTION "@ + msg + "\u{1}"@),
            },
        }
    }

    /// Sends a chat message to the buffer named by `targ` and, on success,
    /// echoes it into that buffer as a line of our own (the server does not
    /// reflect our messages back).
    ///
    /// Fails with `Unavail` when no such buffer exists, `BadTarget` when the
    /// target is the network's own non-addressable buffer, and
    /// `Disconnected` when no connection is registered; exactly in that
    /// order of precedence, and if and only if one of those holds.
    pub fn send_chat_msg(
        &mut self,
        targ: BufTarget,
        msg: String,
        kind: SendMsgKind,
        u: &mut BaseUpdateHandle<CoreNetMsg>,
    ) -> (r: Result<(), IrcSendErr>)
        requires
            old(self).wf(),
        ensures
            final(self).wf(),
            final(self).nick_spec() == old(self).nick_spec(),
            final(self).id_spec() == old(self).id_spec(),
            final(self).connected() == old(self).connected(),
            final(u).queued_alerts() == old(u).queued_alerts(),
            find_buf(old(self).bufs_seq(), targ@) is None ==> r == Err::<(), IrcSendErr>(
                IrcSendErr::Unavail,
            ) && final(self).bufs_seq() == old(self).bufs_seq() && final(self).outbound() == old(self).outbound() && final(u).queued_msgs() == old(u).queued_msgs(),
            find_buf(old(self).bufs_seq(), targ@) is Some && targ@ is Network ==> r == Err::<
                (),
                IrcSendErr,
            >(IrcSendErr::BadTarget) && final(self).bufs_seq() == old(self).bufs_seq() && final(self).outbound() == old(self).outbound() && final(u).queued_msgs() == old(u).queued_msgs(),
            find_buf(old(self).bufs_seq(), targ@) is Some && !(targ@ is Network) && !old(self).connected() ==> r == Err::<(), IrcSendErr>(IrcSendErr::Disconnected) && final(self).bufs_seq() == old(self).bufs_seq() && final(self).outbound() == old(self).outbound() && final(u).queued_msgs() == old(u).queued_msgs(),
            find_buf(old(self).bufs_seq(), targ@) is Some && !(targ@ is Network) && old(self).connected() ==> r == Ok::<(), IrcSendErr>(()) && ({
                let i = find_buf(old(self).bufs_seq(), targ@)->Some_0;
                let dest = match targ@ {
                    BufTargetV::Channel(c) => c,
                    BufTargetV::Private(p) => p,
                    BufTargetV::Network => Seq::empty(),
                };
                &&& final(self).outbound() == old(self).outbound().push(
                    IrcNetwork::chat_wire_msg(dest, msg@, kind),
                )
                &&& final(self).bufs_seq().len() == old(self).bufs_seq().len()
                &&& (forall|j: int|
                    0 <= j < old(self).bufs_seq().len() && j != i ==> final(self).bufs_seq()[j]
                        == old(self).bufs_seq()[j])
                &&& Buffer::same_identity(old(self).bufs_seq()[i], final(self).bufs_seq()[i])
                &&& final(self).bufs_seq()[i].users_set() == old(self).bufs_seq()[i].users_set()
                &&& final(self).bufs_seq()[i].joined_spec()
                    == old(self).bufs_seq()[i].joined_spec()
                &&& (old(self).bufs_seq()[i].has_room() ==> Buffer::pushed(
                    old(self).bufs_seq()[i],
                    final(self).bufs_seq()[i],
                    crate::line::LineDataV::Message {
                        kind: kind.to_msg_kind_spec(),
                        from: old(self).nick_spec(),
                        msg: msg@,
                    },
                ) && final(u).queued_msgs() == old(u).queued_msgs().push(
                    CoreNetMsgV::BufMsg(
                        targ@,
                        CoreBufMsgV::NewLines(seq![final(self).bufs_seq()[i].front_seq().last()]),
                    ),
                ))
                &&& (!old(self).bufs_seq()[i].has_room() ==> Buffer::no_push(
                    old(self).bufs_seq()[i],
                    final(self).bufs_seq()[i],
                ) && final(u).queued_msgs() == old(u).queued_msgs())
            }),
    {
        let ghost pre = *self;
        let ghost pre_u = *u;
        let idx = match self.buf_index(&targ) {
            Some(i) => i,
            None => {
                return Err(IrcSendErr::Unavail);
            },
        };
        proof {
            lemma_find_buf(self.bufs_seq(), targ@);
        }
        let dest: String = match &targ {
            BufTarget::Channel(d) => d.clone(),
            BufTarget::Private(d) => d.clone(),
            BufTarget::Network => {
                return Err(IrcSendErr::BadTarget);
            },
        };
        let mut args: Vec<String> = Vec::new();
        let ghost dv = dest@;
        args.push(dest);
        let ircmsg: Message = match kind {
            SendMsgKind::PrivMsg => Message {
                prefix: None,
                command: Command::Privmsg,
                args,
                body: Some(msg.clone()),
            },
            SendMsgKind::Notice => Message {
                prefix: None,
                command: Command::Notice,
                args,
                body: Some(msg.clone()),
            },
            SendMsgKind::Action => {
                let mut body: String = "\u{1}ACTION ".to_owned();
                body.append(msg.as_str());
                body.append("\u{1}");
                Message { prefix: None, command: Command::Privmsg, args, body: Some(body) }
            },
        };
        proof {
            assert(ircmsg@.args =~= seq![dv]);
        }
        let sent = self.send(ircmsg, u);
        if let Err(e) = sent {
            return Err(e);
        }
        let mut bu: BaseUpdateHandle<CoreBufMsg> = BaseUpdateHandle::new();
        let from = self.nick.clone();
        let mut b = self.bufs.remove(idx);
        let ghost removed = self.bufs@;
        b.push_line(
            LineData::Message { kind: kind.to_msg_kind(), from, msg },
            &mut bu,
        );
        self.bufs.insert(idx, b);
        forward_buf(&targ, &mut bu, u);
        proof {
            assert forall|j: int|
                0 <= j < pre.bufs_seq().len() && j != idx implies self.bufs@[j]
                    == pre.bufs_seq()[j] by {
                if j < idx {
                    assert(self.bufs@[j] == removed[j]);
                    assert(removed[j] == pre.bufs_seq()[j]);
                } else {
                    assert(self.bufs@[j] == removed[j - 1]);
                    assert(removed[j - 1] == pre.bufs_seq()[j]);
                }
            }
            assert forall|a: int, c: int|
                0 <= a < c < self.bufs@.len() implies (#[trigger] self.bufs@[a].id_spec()) != (
                #[trigger] self.bufs@[c].id_spec()) by {
                assert(pre.bufs_seq()[a].id_spec() != pre.bufs_seq()[c].id_spec());
            }
            if pre.bufs_seq()[idx as int].has_room() {
                assert(wrap_buf_msgs(
                    targ@,
                    seq![
                        CoreBufMsgV::NewLines(seq![self.bufs@[idx as int].front_seq().last()]),
                    ],
                ) =~= seq![
                    CoreNetMsgV::BufMsg(
                        targ@,
                        CoreBufMsgV::NewLines(seq![self.bufs@[idx as int].front_seq().last()]),
                    ),
                ]);
                assert(u.queued_msgs() =~= pre_u.queued_msgs().push(
                    CoreNetMsgV::BufMsg(
                        targ@,
                        CoreBufMsgV::NewLines(seq![self.bufs@[idx as int].front_seq().last()]),
                    ),
                ));
            } else {
                assert(wrap_buf_msgs(targ@, Seq::<CoreBufMsgV>::empty()) =~= Seq::<
                    CoreNetMsgV,
                >::empty());
                assert(u.queued_msgs() =~= pre_u.queued_msgs());
            }
        }
        Ok(())
    }
}

} // verus!
