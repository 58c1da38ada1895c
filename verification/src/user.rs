//! A user's state: their networks, their attached clients, and the fan-out
//! of events and alerts to those clients.
use vstd::prelude::*;
use vstd::string::StrSliceExecFns;
use crate::alert::{Alert, AlertV};
use crate::config::{UserConfig, NetConfig};
use crate::handle::BaseUpdateHandle;
use crate::line::BufferLine;
use crate::messages::{CoreMsg, CoreMsgV, CoreNetMsg, CoreBufMsg, BufInfo, NetInfo};
use crate::network::IrcNetwork;
use crate::strutil::str_eq_str;

verus! {

fn clone_lines(v: &Vec<BufferLine>) -> (r: Vec<BufferLine>)
    ensures
        r.deep_view() == v.deep_view(),
{
    let mut out: Vec<BufferLine> = Vec::new();
    let mut i: usize = 0;
    while i < v.len()
        invariant
            i <= v.len(),
            out.deep_view() == v.deep_view().take(i as int),
        decreases v.len() - i,
    {
        let ghost prev = out.deep_view();
        out.push(v[i].clone());
        proof {
            assert(out.deep_view() =~= prev.push(v.deep_view()[i as int]));
            assert(out.deep_view() =~= v.deep_view().take(i + 1));
        }
        i = i + 1;
    }
    proof {
        assert(v.deep_view().take(v.len() as int) =~= v.deep_view());
    }
    out
}

fn clone_infos(v: &Vec<BufInfo>) -> (r: Vec<BufInfo>)
    ensures
        r.deep_view() == v.deep_view(),
{
    let mut out: Vec<BufInfo> = Vec::new();
    let mut i: usize = 0;
    while i < v.len()
        invariant
            i <= v.len(),
            out.deep_view() == v.deep_view().take(i as int),
        decreases v.len() - i,
    {
        let ghost prev = out.deep_view();
        out.push(v[i].clone());
        proof {
            assert(out.deep_view() =~= prev.push(v.deep_view()[i as int]));
            assert(out.deep_view() =~= v.deep_view().take(i + 1));
        }
        i = i + 1;
    }
    proof {
        assert(v.deep_view().take(v.len() as int) =~= v.deep_view());
    }
    out
}

fn clone_net_info(n: &NetInfo) -> (r: NetInfo)
    ensures
        r.deep_view() == n.deep_view(),
{
    NetInfo { id: n.id.clone(), nick: n.nick.clone(), buffers: clone_infos(&n.buffers) }
}

fn clone_net_infos(v: &Vec<NetInfo>) -> (r: Vec<NetInfo>)
    ensures
        r.deep_view() == v.deep_view(),
{
    let mut out: Vec<NetInfo> = Vec::new();
    let mut i: usize = 0;
    while i < v.len()
        invariant
            i <= v.len(),
            out.deep_view() == v.deep_view().take(i as int),
        decreases v.len() - i,
    {
        let ghost prev = out.deep_view();
        out.push(clone_net_info(&v[i]));
        proof {
            assert(out.deep_view() =~= prev.push(v.deep_view()[i as int]));
            assert(out.deep_view() =~= v.deep_view().take(i + 1));
        }
        i = i + 1;
    }
    proof {
        assert(v.deep_view().take(v.len() as int) =~= v.deep_view());
    }
    out
}

fn clone_alerts(v: &Vec<Alert>) -> (r: Vec<Alert>)
    ensures
        r.deep_view() == v.deep_view(),
{
    let mut out: Vec<Alert> = Vec::new();
    let mut i: usize = 0;
    while i < v.len()
        invariant
            i <= v.len(),
            out.deep_view() == v.deep_view().take(i as int),
        decreases v.len() - i,
    {
        let ghost prev = out.deep_view();
        out.push(v[i].clone());
        proof {
            assert(out.deep_view() =~= prev.push(v.deep_view()[i as int]));
            assert(out.deep_view() =~= v.deep_view().take(i + 1));
        }
        i = i + 1;
    }
    proof {
        assert(v.deep_view().take(v.len() as int) =~= v.deep_view());
    }
    out
}

fn clone_buf_msg(m: &CoreBufMsg) -> (r: CoreBufMsg)
    ensures
        r.deep_view() == m.deep_view(),
{
    match m {
        CoreBufMsg::NewLines(v) => CoreBufMsg::NewLines(clone_lines(v)),
        CoreBufMsg::Scrollback(v) => CoreBufMsg::Scrollback(clone_lines(v)),
        CoreBufMsg::State { joined } => CoreBufMsg::State { joined: *joined },
    }
}

fn clone_net_msg(m: &CoreNetMsg) -> (r: CoreNetMsg)
    ensures
        r.deep_view() == m.deep_view(),
{
    match m {
        CoreNetMsg::BufMsg(t, b) => CoreNetMsg::BufMsg(t.clone(), clone_buf_msg(b)),
        CoreNetMsg::Connection(up) => CoreNetMsg::Connection(*up),
        CoreNetMsg::NickChanged(n) => CoreNetMsg::NickChanged(n.clone()),
        CoreNetMsg::Buffers(v) => CoreNetMsg::Buffers(clone_infos(v)),
    }
}

/// Duplicates a client-facing message; the copy carries the same characters
/// everywhere.
pub fn clone_core_msg(m: &CoreMsg) -> (r: CoreMsg)
    ensures
        r.deep_view() == m.deep_view(),
{
    match m {
        CoreMsg::NetMsg(nid, nm) => CoreMsg::NetMsg(nid.clone(), clone_net_msg(nm)),
        CoreMsg::Networks(v) => CoreMsg::Networks(clone_net_infos(v)),
        CoreMsg::AuthOk => CoreMsg::AuthOk,
        CoreMsg::AuthErr => CoreMsg::AuthErr,
        CoreMsg::Alerts(v) => CoreMsg::Alerts(clone_alerts(v)),
        CoreMsg::Status(s) => CoreMsg::Status(s.clone()),
    }
}

/// This struct stores the state for a particular IRC user: their
/// configuration and their networks.
#[derive(Debug)]
pub struct User {
    pub cfg: UserConfig,
    networks: Vec<IrcNetwork>,
}

/// The first network with the given id.
pub open spec fn find_net(nets: Seq<IrcNetwork>, id: Seq<char>) -> Option<int>
    decreases nets.len(),
{
    if nets.len() == 0 {
        None
    } else if nets[0].id_spec() == id {
        Some(0)
    } else {
        match find_net(nets.drop_first(), id) {
            Some(i) => Some(i + 1),
            None => None,
        }
    }
}

/// The user's networks mirror a configuration: one network per configured
/// record, in order, each fresh under its configured name and settings, and
/// the password and alert command carried over.
pub open spec fn user_matches_cfg(u: User, cfg: UserConfig) -> bool {
    &&& u.nets_seq().len() == cfg.net@.len()
    &&& forall|i: int|
        0 <= i < cfg.net@.len() ==> {
            &&& (#[trigger] u.nets_seq()[i]).id_spec() == cfg.net@[i].0@
            &&& u.nets_seq()[i].cfg_spec() == cfg.net@[i].1
            &&& u.nets_seq()[i].bufs_seq() == Seq::<crate::buffer::Buffer>::empty()
            &&& u.nets_seq()[i].nick_spec() == Seq::<char>::empty()
            &&& !u.nets_seq()[i].connected()
        }
    &&& u.cfg_spec().password == cfg.password
    &&& u.cfg_spec().alert_cmd == cfg.alert_cmd
}

impl User {
    /// The user's networks.
    pub closed spec fn nets_seq(&self) -> Seq<IrcNetwork> {
        self.networks@
    }

    /// The user's configuration.
    pub closed spec fn cfg_spec(&self) -> UserConfig {
        self.cfg
    }

    pub open spec fn wf(&self) -> bool {
        forall|i: int| 0 <= i < self.nets_seq().len() ==> (#[trigger] self.nets_seq()[i]).wf()
    }

    /// The password that authenticates this user's clients.
    pub fn password(&self) -> (r: &str)
        ensures
            r@ == self.cfg_spec().password@,
    {
        self.cfg.password.as_str()
    }

    /// Constructs a new user with a base config and no networks.
    pub fn new() -> (r: User)
        ensures
            r.wf(),
            r.nets_seq() == Seq::<IrcNetwork>::empty(),
    {
        let r = User { cfg: UserConfig::default(), networks: Vec::new() };
        proof {
            assert(r.nets_seq() =~= Seq::<IrcNetwork>::empty());
        }
        r
    }

    /// Constructs a new user from a configuration: one network per
    /// configured network record, in order, each under its configured name
    /// and settings.
    pub fn from_cfg(cfg: UserConfig) -> (r: User)
        ensures
            r.wf(),
            user_matches_cfg(r, cfg),
    {
        let mut us = User::new();
        let ghost all = cfg.net@;
        let ghost gcfg = cfg;
        let UserConfig { mut net, password, alert_cmd } = cfg;
        us.cfg = UserConfig { net: Vec::new(), password, alert_cmd };
        proof {
            assert(us.wf());
        }
        let n0 = net.len();
        let mut k: usize = 0;
        while net.len() > 0
            invariant
                us.wf(),
                all.len() == n0 as int,
                k + net@.len() == all.len(),
                net@ == all.skip(k as int),
                us.nets_seq().len() == k as int,
                forall|i: int|
                    0 <= i < k ==> {
                        &&& (#[trigger] us.nets_seq()[i]).id_spec() == all[i].0@
                        &&& us.nets_seq()[i].cfg_spec() == all[i].1
                        &&& us.nets_seq()[i].bufs_seq() == Seq::<crate::buffer::Buffer>::empty()
                        &&& us.nets_seq()[i].nick_spec() == Seq::<char>::empty()
                        &&& !us.nets_seq()[i].connected()
                    },
                us.cfg.password == gcfg.password,
                us.cfg.alert_cmd == gcfg.alert_cmd,
            decreases net.len(),
        {
            let ghost entry = net@;
            let (name, nc) = net.remove(0);
            proof {
                assert((name, nc) == entry[0]);
                assert(entry[0] == all[k as int]);
                assert(net@ =~= all.skip(k + 1));
            }
            let ghost pre_nets = us.nets_seq();
            us.add_network(name, nc);
            proof {
                assert forall|i: int|
                    0 <= i < k + 1 implies {
                        &&& (#[trigger] us.nets_seq()[i]).id_spec() == all[i].0@
                        &&& us.nets_seq()[i].cfg_spec() == all[i].1
                        &&& us.nets_seq()[i].bufs_seq() == Seq::<crate::buffer::Buffer>::empty()
                        &&& us.nets_seq()[i].nick_spec() == Seq::<char>::empty()
                        &&& !us.nets_seq()[i].connected()
                    } by {
                    if i < k {
                        assert(us.nets_seq()[i] == pre_nets[i]);
                    } else {
                        assert(us.nets_seq()[i] == us.nets_seq().last());
                    }
                }
            }
            k = k + 1;
        }
        proof {
            assert(all.skip(k as int).len() == 0);
        }
        us
    }

    /// Adds a network under a name.
    pub fn add_network(&mut self, name: String, cfg: NetConfig)
        requires
            old(self).wf(),
        ensures
            final(self).wf(),
            final(self).nets_seq().len() == old(self).nets_seq().len() + 1,
            final(self).nets_seq().drop_last() == old(self).nets_seq(),
            final(self).nets_seq().last().id_spec() == name@,
            final(self).nets_seq().last().cfg_spec() == cfg,
            final(self).nets_seq().last().nick_spec() == Seq::<char>::empty(),
            final(self).nets_seq().last().bufs_seq() == Seq::<crate::buffer::Buffer>::empty(),
            !final(self).nets_seq().last().connected(),
            final(self).cfg_spec() == old(self).cfg_spec(),
    {
        let ghost pre = self.networks@;
        let net = IrcNetwork::new(name, cfg);
        let ghost gnet = net;
        self.networks.push(net);
        proof {
            assert(self.networks@.drop_last() =~= pre);
            assert(gnet.wf());
            assert forall|i: int|
                0 <= i < self.networks@.len() implies (#[trigger] self.networks@[i]).wf() by {
                if i < pre.len() {
                    assert(self.networks@[i] == pre[i]);
                    assert(old(self).nets_seq()[i].wf());
                } else {
                    assert(self.networks@[i] == gnet);
                }
            }
        }
    }

    /// How many networks the user has.
    pub fn net_count(&self) -> (r: usize)
        ensures
            r == self.nets_seq().len(),
    {
        self.networks.len()
    }

    /// The network at a position.
    pub fn net_at(&self, i: usize) -> (r: &IrcNetwork)
        requires
            i < self.nets_seq().len(),
        ensures
            r == self.nets_seq()[i as int],
    {
        &self.networks[i]
    }

    /// The position of the network with an id, if it exists.
    pub fn net_index(&self, id: &str) -> (r: Option<usize>)
        ensures
            match r {
                Some(i) => i < self.nets_seq().len() && self.nets_seq()[i as int].id_spec() == id@,
                None => find_net(self.nets_seq(), id@) is None,
            },
    {
        let mut i: usize = 0;
        while i < self.networks.len()
            invariant
                i <= self.nets_seq().len(),
                forall|j: int| 0 <= j < i ==> (#[trigger] self.nets_seq()[j].id_spec()) != id@,
            decreases self.networks.len() - i,
        {
            if str_eq_str(self.networks[i].id().as_str(), id) {
                return Some(i);
            }
            i = i + 1;
        }
        proof {
            lemma_find_net_none(self.nets_seq(), id@);
        }
        None
    }

    /// Takes a network out for mutation; pair with `put_net`.
    pub fn take_net(&mut self, i: usize) -> (r: IrcNetwork)
        requires
            i < old(self).nets_seq().len(),
        ensures
            r == old(self).nets_seq()[i as int],
            final(self).nets_seq() == old(self).nets_seq().remove(i as int),
            final(self).cfg_spec() == old(self).cfg_spec(),
    {
        self.networks.remove(i)
    }

    /// Puts a taken network back at its position.
    pub fn put_net(&mut self, i: usize, net: IrcNetwork)
        requires
            i <= old(self).nets_seq().len(),
        ensures
            final(self).nets_seq() == old(self).nets_seq().insert(i as int, net),
            final(self).cfg_spec() == old(self).cfg_spec(),
    {
        self.networks.insert(i, net);
    }
}

proof fn lemma_find_net_none(nets: Seq<IrcNetwork>, id: Seq<char>)
    requires
        forall|j: int| 0 <= j < nets.len() ==> (#[trigger] nets[j].id_spec()) != id,
    ensures
        find_net(nets, id) is None,
    decreases nets.len(),
{
    if nets.len() > 0 {
        assert forall|j: int|
            0 <= j < nets.drop_first().len() implies (#[trigger] nets.drop_first()[j].id_spec())
                != id by {
            assert(nets.drop_first()[j] == nets[j + 1]);
        }
        lemma_find_net_none(nets.drop_first(), id);
    }
}

/// One attached client's pending event queue.
#[derive(Debug)]
struct ClientQueue {
    msgs: Vec<CoreMsg>,
}

/// Handle for one client to read the messages broadcast to a user's
/// clients.
#[derive(Debug)]
pub struct UserClientHandle {
    msgs: Vec<CoreMsg>,
    at: usize,
}

impl UserClientHandle {
    /// The messages not yet read.
    pub closed spec fn remaining(&self) -> Seq<CoreMsgV> {
        if self.at <= self.msgs.deep_view().len() {
            self.msgs.deep_view().skip(self.at as int)
        } else {
            Seq::empty()
        }
    }

    /// Gets the next message for this client, or `None` when there are no
    /// more.
    pub fn recv(&mut self) -> (r: Option<CoreMsg>)
        ensures
            old(self).remaining().len() == 0 ==> r is None && final(self).remaining() == old(
                self,
            ).remaining(),
            old(self).remaining().len() > 0 ==> match r {
                Some(m) => m.deep_view() == old(self).remaining()[0] && final(self).remaining()
                    == old(self).remaining().drop_first(),
                None => false,
            },
    {
        if self.at < self.msgs.len() {
            let m = clone_core_msg(&self.msgs[self.at]);
            self.at = self.at + 1;
            proof {
                assert(self.remaining() =~= old(self).remaining().drop_first());
            }
            Some(m)
        } else {
            None
        }
    }
}

/// A user together with the queues of their attached clients and any alerts
/// waiting for one.
#[derive(Debug)]
pub struct UserHandle {
    pub user: User,
    clients: Vec<ClientQueue>,
    alerts: Vec<Alert>,
}

impl UserHandle {
    /// The per-client queues of pending messages.
    pub closed spec fn queues(&self) -> Seq<Seq<CoreMsgV>> {
        Seq::new(self.clients@.len(), |i: int| self.clients@[i].msgs.deep_view())
    }

    /// Alerts waiting for a client to attach.
    pub closed spec fn pending_alerts(&self) -> Seq<AlertV> {
        self.alerts.deep_view()
    }

    /// The wrapped user.
    pub closed spec fn user_spec(&self) -> User {
        self.user
    }

    /// Wraps the given user in a new handle with no clients attached.
    pub fn new(user: User) -> (r: UserHandle)
        ensures
            r.user_spec() == user,
            r.queues() == Seq::<Seq<CoreMsgV>>::empty(),
            r.pending_alerts() == Seq::<AlertV>::empty(),
    {
        let r = UserHandle { user, clients: Vec::new(), alerts: Vec::new() };
        proof {
            assert(r.queues() =~= Seq::<Seq<CoreMsgV>>::empty());
            assert(r.pending_alerts() =~= Seq::<AlertV>::empty());
        }
        r
    }

    /// The wrapped user, readable.
    pub fn user_ref(&self) -> (r: &User)
        ensures
            *r == self.user_spec(),
    {
        &self.user
    }

    /// Registers a client's interest in this user's messages: the client
    /// gets an empty queue and reads it through the handle that
    /// `take_client_msgs` returns.
    pub fn register_client(&mut self) -> (i: usize)
        ensures
            final(self).user_spec() == old(self).user_spec(),
            final(self).pending_alerts() == old(self).pending_alerts(),
            final(self).queues() == old(self).queues().push(Seq::<CoreMsgV>::empty()),
            i as int == old(self).queues().len(),
    {
        let i = self.clients.len();
        self.clients.push(ClientQueue { msgs: Vec::new() });
        proof {
            assert(self.queues() =~~= old(self).queues().push(Seq::<CoreMsgV>::empty()));
        }
        i
    }

    /// Hands one client everything queued for it, leaving its queue empty.
    pub fn take_client_msgs(&mut self, i: usize) -> (r: UserClientHandle)
        requires
            i < old(self).queues().len(),
        ensures
            final(self).user_spec() == old(self).user_spec(),
            final(self).pending_alerts() == old(self).pending_alerts(),
            final(self).queues().len() == old(self).queues().len(),
            final(self).queues()[i as int] == Seq::<CoreMsgV>::empty(),
            forall|j: int|
                0 <= j < old(self).queues().len() && j != i ==> final(self).queues()[j] == old(
                    self,
                ).queues()[j],
            r.remaining() == old(self).queues()[i as int],
    {
        let q = self.clients.remove(i);
        let ghost removed = self.clients@;
        self.clients.insert(i, ClientQueue { msgs: Vec::new() });
        let out = q.msgs;
        proof {
            assert(self.queues()[i as int] =~= Seq::<CoreMsgV>::empty());
            assert(out.deep_view().skip(0) =~= out.deep_view());
            assert forall|j: int|
                0 <= j < old(self).queues().len() && j != i implies self.queues()[j] == old(
                    self,
                ).queues()[j] by {
                if j < i {
                    assert(self.clients@[j] == removed[j]);
                    assert(removed[j] == old(self).clients@[j]);
                } else {
                    assert(self.clients@[j] == removed[j - 1]);
                    assert(removed[j - 1] == old(self).clients@[j]);
                }
            }
        }
        UserClientHandle { msgs: out, at: 0 }
    }

    /// Broadcasts one message to every attached client's queue.
    pub fn broadcast(&mut self, msg: &CoreMsg)
        ensures
            final(self).user_spec() == old(self).user_spec(),
            final(self).pending_alerts() == old(self).pending_alerts(),
            final(self).queues().len() == old(self).queues().len(),
            forall|j: int|
                0 <= j < old(self).queues().len() ==> final(self).queues()[j] == old(
                    self,
                ).queues()[j].push(msg.deep_view()),
    {
        let mut i: usize = 0;
        while i < self.clients.len()
            invariant
                self.clients@.len() == old(self).clients@.len(),
                self.user == old(self).user,
                self.alerts == old(self).alerts,
                i <= self.clients@.len(),
                forall|j: int|
                    0 <= j < i ==> self.queues()[j] == old(self).queues()[j].push(
                        msg.deep_view(),
                    ),
                forall|j: int|
                    i <= j < self.clients@.len() ==> self.queues()[j] == old(self).queues()[j],
            decreases self.clients.len() - i,
        {
            let copy = clone_core_msg(msg);
            let ghost entry_clients = self.clients@;
            let ghost pre_q = self.queues();
            let mut q = self.clients.remove(i);
            let ghost removed = self.clients@;
            let ghost pre_msgs = q.msgs.deep_view();
            q.msgs.push(copy);
            self.clients.insert(i, q);
            proof {
                assert(self.clients@[i as int].msgs.deep_view() =~= pre_msgs.push(
                    msg.deep_view(),
                ));
                assert forall|j: int|
                    0 <= j < self.clients@.len() && j != i implies self.queues()[j]
                        == pre_q[j] by {
                    if j < i {
                        assert(self.clients@[j] == removed[j]);
                        assert(removed[j] == entry_clients[j]);
                    } else {
                        assert(self.clients@[j] == removed[j - 1]);
                        assert(removed[j - 1] == entry_clients[j]);
                    }
                }
                assert(self.queues()[i as int] == pre_q[i as int].push(msg.deep_view()));
                assert(pre_q[i as int] == old(self).queues()[i as int]);
                assert forall|j: int|
                    0 <= j < i + 1 implies self.queues()[j] == old(self).queues()[j].push(
                        msg.deep_view(),
                    ) by {
                    if j < i {
                        assert(self.queues()[j] == pre_q[j]);
                        assert(pre_q[j] == old(self).queues()[j].push(msg.deep_view()));
                    }
                }
            }
            i = i + 1;
        }
    }

    /// Consumes an update handle: its messages are broadcast to every
    /// attached client, and its alerts are delivered with them when a client
    /// is attached, stored when none is, or handed back to the caller to run
    /// the configured alert command on.
    /// Consumes an update handle: its messages are broadcast, in order, to
    /// every attached client's queue. Alerts are never silently lost: when a
    /// client is attached they go out at once as one batch (together with
    /// any stored earlier), otherwise they are handed back for the
    /// configured alert command, or stored for later delivery when no
    /// command is configured.
    pub fn exec_update_handle(&mut self, u: BaseUpdateHandle<CoreMsg>) -> (cmd_alerts: Vec<Alert>)
        ensures
            final(self).user_spec() == old(self).user_spec(),
            final(self).queues().len() == old(self).queues().len(),
            old(self).queues().len() > 0 ==> {
                &&& forall|j: int|
                    0 <= j < old(self).queues().len() ==> #[trigger] final(self).queues()[j]
                        == old(self).queues()[j] + u.queued_msgs() + seq![
                        CoreMsgV::Alerts(old(self).pending_alerts() + u.queued_alerts()),
                    ]
                &&& final(self).pending_alerts() == Seq::<AlertV>::empty()
                &&& cmd_alerts.deep_view() == Seq::<AlertV>::empty()
            },
            old(self).queues().len() == 0 && old(self).user_spec().cfg_spec().alert_cmd is Some
                ==> final(self).pending_alerts() == old(self).pending_alerts()
                && cmd_alerts.deep_view() == u.queued_alerts(),
            old(self).queues().len() == 0 && old(self).user_spec().cfg_spec().alert_cmd is None
                ==> final(self).pending_alerts() == old(self).pending_alerts()
                + u.queued_alerts() && cmd_alerts.deep_view() == Seq::<AlertV>::empty(),
    {
        let ghost umsgs = u.queued_msgs();
        let ghost ualerts = u.queued_alerts();
        let ghost pending0 = self.pending_alerts();
        let mut u = u;
        let mut msgs = u.take_msgs();
        let n0 = msgs.len();
        let mut k: usize = 0;
        proof {
            assert(umsgs.take(0) =~= Seq::<CoreMsgV>::empty());
            assert forall|j: int| 0 <= j < self.queues().len() implies self.queues()[j] == old(
                self,
            ).queues()[j] + umsgs.take(0) by {
                assert(old(self).queues()[j] + Seq::<CoreMsgV>::empty()
                    =~= old(self).queues()[j]);
            }
        }
        while msgs.len() > 0
            invariant
                umsgs.len() == n0 as int,
                k + msgs.deep_view().len() == umsgs.len(),
                msgs.deep_view() == umsgs.skip(k as int),
                self.queues().len() == old(self).queues().len(),
                self.user == old(self).user,
                self.pending_alerts() == pending0,
                forall|j: int|
                    0 <= j < self.queues().len() ==> #[trigger] self.queues()[j] == old(
                        self,
                    ).queues()[j] + umsgs.take(k as int),
            decreases msgs.len(),
        {
            let ghost entry = msgs@;
            let ghost entry_dv = msgs.deep_view();
            let m = msgs.remove(0);
            proof {
                assert(entry_dv[0] == umsgs.skip(k as int)[0]);
                assert(umsgs.skip(k as int)[0] == umsgs[k as int]);
                assert(m.deep_view() == entry_dv[0]);
                assert forall|j: int|
                    0 <= j < msgs.deep_view().len() implies msgs.deep_view()[j] == umsgs.skip(
                    k + 1,
                )[j] by {
                    assert(msgs@[j] == entry.remove(0)[j]);
                    assert(entry.remove(0)[j] == entry[j + 1]);
                    assert(entry_dv[j + 1] == umsgs.skip(k as int)[j + 1]);
                }
                assert(msgs.deep_view() =~= umsgs.skip(k + 1));
            }
            let ghost pre_q = self.queues();
            self.broadcast(&m);
            proof {
                assert forall|j: int|
                    0 <= j < self.queues().len() implies #[trigger] self.queues()[j] == old(
                        self,
                    ).queues()[j] + umsgs.take(k + 1) by {
                    assert(self.queues()[j] == pre_q[j].push(umsgs[k as int]));
                    assert(pre_q[j] == old(self).queues()[j] + umsgs.take(k as int));
                    assert((old(self).queues()[j] + umsgs.take(k as int)).push(umsgs[k as int])
                        =~= old(self).queues()[j] + umsgs.take(k + 1));
                }
            }
            k = k + 1;
        }
        proof {
            assert(umsgs.take(k as int) =~= umsgs);
        }
        let mut fresh = u.take_alerts();
        if self.clients.len() > 0 {
            let mut all: Vec<Alert> = Vec::new();
            core::mem::swap(&mut all, &mut self.alerts);
            proof {
                assert(self.pending_alerts() =~= Seq::<AlertV>::empty());
                assert(all.deep_view() == pending0);
            }
            let mut i: usize = 0;
            while i < fresh.len()
                invariant
                    fresh.deep_view() == ualerts,
                    i <= fresh.len(),
                    self.queues().len() == old(self).queues().len(),
                    self.user == old(self).user,
                    self.pending_alerts() == Seq::<AlertV>::empty(),
                    all.deep_view() == pending0 + ualerts.take(i as int),
                    forall|j: int|
                        0 <= j < self.queues().len() ==> #[trigger] self.queues()[j] == old(
                            self,
                        ).queues()[j] + umsgs,
                decreases fresh.len() - i,
            {
                let ghost prev = all.deep_view();
                all.push(fresh[i].clone());
                proof {
                    assert(all.deep_view() =~= prev.push(ualerts[i as int]));
                    assert(all.deep_view() =~= pending0 + ualerts.take(i + 1));
                }
                i = i + 1;
            }
            proof {
                assert(ualerts.take(fresh.len() as int) =~= ualerts);
            }
            let batch = CoreMsg::Alerts(all);
            let ghost batch_dv = batch.deep_view();
            let ghost pre_q = self.queues();
            self.broadcast(&batch);
            proof {
                assert(batch_dv == CoreMsgV::Alerts(pending0 + ualerts));
                assert forall|j: int|
                    0 <= j < self.queues().len() implies #[trigger] self.queues()[j] == old(
                        self,
                    ).queues()[j] + umsgs + seq![CoreMsgV::Alerts(pending0 + ualerts)] by {
                    assert(self.queues()[j] == pre_q[j].push(batch_dv));
                    assert((old(self).queues()[j] + umsgs).push(batch_dv) =~= old(
                        self,
                    ).queues()[j] + umsgs + seq![batch_dv]);
                }
            }
            let none: Vec<Alert> = Vec::new();
            proof {
                assert(none.deep_view() =~= Seq::<AlertV>::empty());
            }
            none
        } else {
            let has_cmd = match &self.user.cfg.alert_cmd {
                Some(_) => true,
                None => false,
            };
            if has_cmd {
                fresh
            } else {
                let mut i: usize = 0;
                while i < fresh.len()
                    invariant
                        fresh.deep_view() == ualerts,
                        i <= fresh.len(),
                        self.queues().len() == old(self).queues().len(),
                        self.user == old(self).user,
                        self.pending_alerts() == pending0 + ualerts.take(i as int),
                    decreases fresh.len() - i,
                {
                    let ghost prev = self.pending_alerts();
                    self.alerts.push(fresh[i].clone());
                    proof {
                        assert(self.pending_alerts() =~= prev.push(ualerts[i as int]));
                        assert(self.pending_alerts() =~= pending0 + ualerts.take(i + 1));
                    }
                    i = i + 1;
                }
                proof {
                    assert(ualerts.take(fresh.len() as int) =~= ualerts);
                }
                let none: Vec<Alert> = Vec::new();
                proof {
                    assert(none.deep_view() =~= Seq::<AlertV>::empty());
                }
                none
            }
        }
    }
}

/// The first user entry with the given id.
pub open spec fn find_user(users: Seq<(String, UserHandle)>, id: Seq<char>) -> Option<int>
    decreases users.len(),
{
    if users.len() == 0 {
        None
    } else if users[0].0@ == id {
        Some(0)
    } else {
        match find_user(users.drop_first(), id) {
            Some(i) => Some(i + 1),
            None => None,
        }
    }
}

pub proof fn lemma_find_user(users: Seq<(String, UserHandle)>, id: Seq<char>)
    ensures
        match find_user(users, id) {
            Some(i) => 0 <= i < users.len() && users[i].0@ == id && forall|j: int|
                0 <= j < i ==> (#[trigger] users[j].0@) != id,
            None => forall|j: int| 0 <= j < users.len() ==> (#[trigger] users[j].0@) != id,
        },
    decreases users.len(),
{
    if users.len() > 0 && users[0].0@ != id {
        lemma_find_user(users.drop_first(), id);
        match find_user(users.drop_first(), id) {
            Some(i) => {
                assert forall|j: int| 0 <= j < i + 1 implies (#[trigger] users[j].0@) != id by {
                    if j > 0 {
                        assert(users.drop_first()[j - 1] == users[j]);
                    }
                }
            },
            None => {
                assert forall|j: int| 0 <= j < users.len() implies (#[trigger] users[j].0@)
                    != id by {
                    if j > 0 {
                        assert(users.drop_first()[j - 1] == users[j]);
                    }
                }
            },
        }
    }
}

/// Container for the core's state: every user, with their clients.
#[derive(Debug)]
pub struct Core {
    users: Vec<(String, UserHandle)>,
}

impl Core {
    pub closed spec fn users_seq(&self) -> Seq<(String, UserHandle)> {
        self.users@
    }

    /// Creates a new core state with no users.
    pub fn new() -> (r: Core)
        ensures
            r.users_seq() == Seq::<(String, UserHandle)>::empty(),
    {
        let r = Core { users: Vec::new() };
        proof {
            assert(r.users_seq() =~= Seq::<(String, UserHandle)>::empty());
        }
        r
    }

    /// Adds a new user with the given id and configuration: the stored user
    /// mirrors the configuration, with no clients attached and no alerts
    /// pending.
    pub fn add_user(&mut self, id: String, cfg: UserConfig)
        ensures
            final(self).users_seq().len() == old(self).users_seq().len() + 1,
            final(self).users_seq().drop_last() == old(self).users_seq(),
            final(self).users_seq().last().0@ == id@,
            user_matches_cfg(final(self).users_seq().last().1.user_spec(), cfg),
            final(self).users_seq().last().1.user_spec().wf(),
            final(self).users_seq().last().1.queues() == Seq::<Seq<CoreMsgV>>::empty(),
            final(self).users_seq().last().1.pending_alerts() == Seq::<AlertV>::empty(),
    {
        let ghost pre = self.users@;
        let user = User::from_cfg(cfg);
        let handle = UserHandle::new(user);
        let ghost idv = id@;
        self.users.push((id, handle));
        proof {
            assert(self.users@.drop_last() =~= pre);
        }
    }

    /// How many users the core has.
    pub fn user_count(&self) -> (r: usize)
        ensures
            r == self.users_seq().len(),
    {
        self.users.len()
    }

    /// The position of the user with an id, if one exists.
    pub fn user_index(&self, id: &str) -> (r: Option<usize>)
        ensures
            match r {
                Some(i) => find_user(self.users_seq(), id@) == Some(i as int) && i
                    < self.users_seq().len() && self.users_seq()[i as int].0@ == id@,
                None => find_user(self.users_seq(), id@) is None,
            },
    {
        proof {
            lemma_find_user(self.users_seq(), id@);
        }
        let mut i: usize = 0;
        while i < self.users.len()
            invariant
                i <= self.users_seq().len(),
                forall|j: int| 0 <= j < i ==> (#[trigger] self.users_seq()[j].0@) != id@,
                match find_user(self.users_seq(), id@) {
                    Some(k) => 0 <= k < self.users_seq().len() && self.users_seq()[k].0@ == id@
                        && forall|j: int|
                        0 <= j < k ==> (#[trigger] self.users_seq()[j].0@) != id@,
                    None => forall|j: int|
                        0 <= j < self.users_seq().len() ==> (#[trigger] self.users_seq()[j].0@)
                            != id@,
                },
            decreases self.users.len() - i,
        {
            if str_eq_str(self.users[i].0.as_str(), id) {
                proof {
                    match find_user(self.users_seq(), id@) {
                        Some(k) => {
                            if k < i {
                                assert(self.users_seq()[k].0@ != id@);
                            }
                            if k > i {
                                assert(self.users_seq()[i as int].0@ != id@);
                            }
                        },
                        None => {
                            assert(self.users_seq()[i as int].0@ != id@);
                        },
                    }
                }
                return Some(i);
            }
            i = i + 1;
        }
        proof {
            match find_user(self.users_seq(), id@) {
                Some(k) => {
                    assert(self.users_seq()[k].0@ != id@);
                },
                None => {
                },
            }
        }
        None
    }

    /// The user handle at a position, readable.
    pub fn user_at(&self, i: usize) -> (r: &UserHandle)
        requires
            i < self.users_seq().len(),
        ensures
            r == self.users_seq()[i as int].1,
    {
        &self.users[i].1
    }

    /// Takes a user handle out for mutation; pair with `put_user`.
    pub fn take_user(&mut self, i: usize) -> (r: (String, UserHandle))
        requires
            i < old(self).users_seq().len(),
        ensures
            r == old(self).users_seq()[i as int],
            final(self).users_seq() == old(self).users_seq().remove(i as int),
    {
        self.users.remove(i)
    }

    /// Puts a taken user handle back at its position.
    pub fn put_user(&mut self, i: usize, entry: (String, UserHandle))
        requires
            i <= old(self).users_seq().len(),
        ensures
            final(self).users_seq() == old(self).users_seq().insert(i as int, entry),
    {
        self.users.insert(i, entry);
    }
}

} // verus!
