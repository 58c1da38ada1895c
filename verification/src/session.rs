//! Per-client bookkeeping: which slice of each buffer's history has already
//! been sent to one attached client, and the handling of that client's
//! requests.
use vstd::prelude::*;
use vstd::string::StrSliceExecFns;
use vstd::string::StringExecFns;
use crate::buffer::Buffer;
use crate::line::LineDataV;
use crate::handle::BaseUpdateHandle;
use crate::line::BufferLine;
use crate::messages::{BufTarget, BufTargetV, ClientBufMsg, ClientNetMsg, CoreMsg, CoreMsgV, CoreBufMsg, CoreBufMsgV, CoreNetMsg, CoreNetMsgV};
use crate::network::{IrcNetwork, IrcSendErr};
use crate::user::{Core, User};
use crate::strutil::str_eq_str;

verus! {

/// Stores how much scrollback has been sent to one client for one buffer:
/// the index boundary below which nothing has been sent yet.
#[derive(Debug, Clone, Copy, PartialEq, Eq)]
pub struct ClientBuf {
    pub last_sent_idx: isize,
}

/// The per-client map from buffer target to scrollback cursor. A cursor is
/// created lazily the first time the client asks about a buffer, starting at
/// the buffer's current front length ("nothing older than now has been
/// sent") — the explicit recovery path for a client that was never told
/// about the buffer.
#[derive(Debug)]
pub struct ClientBufs {
    entries: Vec<(BufTarget, ClientBuf)>,
}

/// The first entry for a target.
pub open spec fn find_cursor(entries: Seq<(BufTarget, ClientBuf)>, t: BufTargetV) -> Option<int>
    decreases entries.len(),
{
    if entries.len() == 0 {
        None
    } else if entries[0].0@ == t {
        Some(0)
    } else {
        match find_cursor(entries.drop_first(), t) {
            Some(i) => Some(i + 1),
            None => None,
        }
    }
}

proof fn lemma_find_cursor(entries: Seq<(BufTarget, ClientBuf)>, t: BufTargetV)
    ensures
        match find_cursor(entries, t) {
            Some(i) => 0 <= i < entries.len() && entries[i].0@ == t && forall|j: int|
                0 <= j < i ==> (#[trigger] entries[j].0@) != t,
            None => forall|j: int| 0 <= j < entries.len() ==> (#[trigger] entries[j].0@) != t,
        },
    decreases entries.len(),
{
    if entries.len() > 0 && entries[0].0@ != t {
        lemma_find_cursor(entries.drop_first(), t);
        match find_cursor(entries.drop_first(), t) {
            Some(i) => {
                assert forall|j: int| 0 <= j < i + 1 implies (#[trigger] entries[j].0@) != t by {
                    if j > 0 {
                        assert(entries.drop_first()[j - 1] == entries[j]);
                    }
                }
            },
            None => {
                assert forall|j: int| 0 <= j < entries.len() implies (#[trigger] entries[j].0@)
                    != t by {
                    if j > 0 {
                        assert(entries.drop_first()[j - 1] == entries[j]);
                    }
                }
            },
        }
    }
}

impl ClientBufs {
    pub closed spec fn entries_seq(&self) -> Seq<(BufTarget, ClientBuf)> {
        self.entries@
    }

    /// Every cursor stays inside the range buffer indices can take.
    pub open spec fn wf(&self) -> bool {
        forall|j: int|
            0 <= j < self.entries_seq().len() ==> -0x7fffffff <= (
            #[trigger] self.entries_seq()[j]).1.last_sent_idx as int <= 0x7fffffff
    }

    /// The cursor recorded for a target, if the client has one.
    pub open spec fn cursor_of(&self, t: BufTargetV) -> Option<ClientBuf> {
        match find_cursor(self.entries_seq(), t) {
            Some(i) => Some(self.entries_seq()[i].1),
            None => None,
        }
    }

    pub fn new() -> (r: ClientBufs)
        ensures
            r.entries_seq() == Seq::<(BufTarget, ClientBuf)>::empty(),
    {
        let r = ClientBufs { entries: Vec::new() };
        proof {
            assert(r.entries_seq() =~= Seq::<(BufTarget, ClientBuf)>::empty());
        }
        r
    }

    /// The cursor recorded for a target, readable.
    pub fn cursor_for(&self, targ: &BufTarget) -> (r: Option<isize>)
        ensures
            match find_cursor(self.entries_seq(), targ@) {
                Some(j) => r == Some(self.entries_seq()[j].1.last_sent_idx),
                None => r is None,
            },
    {
        proof {
            lemma_find_cursor(self.entries_seq(), targ@);
        }
        let mut i: usize = 0;
        while i < self.entries.len()
            invariant
                i <= self.entries_seq().len(),
                forall|j: int| 0 <= j < i ==> (#[trigger] self.entries_seq()[j].0@) != targ@,
                match find_cursor(self.entries_seq(), targ@) {
                    Some(k) => 0 <= k < self.entries_seq().len() && self.entries_seq()[k].0@
                        == targ@ && forall|j: int|
                        0 <= j < k ==> (#[trigger] self.entries_seq()[j].0@) != targ@,
                    None => forall|j: int|
                        0 <= j < self.entries_seq().len() ==> (#[trigger] self.entries_seq()[
                        j].0@) != targ@,
                },
            decreases self.entries.len() - i,
        {
            if self.entries[i].0 == *targ {
                proof {
                    match find_cursor(self.entries_seq(), targ@) {
                        Some(k) => {
                            if k < i {
                                assert(self.entries_seq()[k].0@ != targ@);
                            }
                            if k > i {
                                assert(self.entries_seq()[i as int].0@ != targ@);
                            }
                        },
                        None => {
                            assert(self.entries_seq()[i as int].0@ != targ@);
                        },
                    }
                }
                return Some(self.entries[i].1.last_sent_idx);
            }
            i = i + 1;
        }
        None
    }

    /// The position of the cursor for a target, creating it at the given
    /// front length when the client has none yet.
    fn get_or_create(&mut self, targ: &BufTarget, front_len: isize) -> (i: usize)
        requires
            old(self).wf(),
            0 <= front_len as int <= 0x7fffffff,
        ensures
            final(self).wf(),
            i < final(self).entries_seq().len(),
            final(self).entries_seq()[i as int].0@ == targ@,
            match find_cursor(old(self).entries_seq(), targ@) {
                Some(j) => final(self).entries_seq() == old(self).entries_seq() && i as int == j,
                None => final(self).entries_seq() == old(self).entries_seq().push(
                    (*targ, ClientBuf { last_sent_idx: front_len }),
                ) && i as int == old(self).entries_seq().len(),
            },
    {
        proof {
            lemma_find_cursor(self.entries_seq(), targ@);
        }
        let n = self.entries.len();
        let mut i: usize = 0;
        while i < n
            invariant
                self.wf(),
                self.entries_seq() == old(self).entries_seq(),
                n == self.entries_seq().len(),
                i <= n,
                forall|j: int| 0 <= j < i ==> (#[trigger] self.entries_seq()[j].0@) != targ@,
                match find_cursor(self.entries_seq(), targ@) {
                    Some(k) => 0 <= k < n && self.entries_seq()[k].0@ == targ@ && forall|j: int|
                        0 <= j < k ==> (#[trigger] self.entries_seq()[j].0@) != targ@,
                    None => forall|j: int|
                        0 <= j < n ==> (#[trigger] self.entries_seq()[j].0@) != targ@,
                },
            decreases n - i,
        {
            if self.entries[i].0 == *targ {
                proof {
                    assert forall|j: int|
                        0 <= j < self.entries_seq().len() implies -0x7fffffff <= (
                        #[trigger] self.entries_seq()[j].1.last_sent_idx) as int
                            <= 0x7fffffff by {
                        assert(self.entries_seq()[j] == old(self).entries_seq()[j]);
                        assert(-0x7fffffff <= old(self).entries_seq()[j].1.last_sent_idx as int
                            <= 0x7fffffff);
                    }
                    assert(self.entries_seq()[i as int].0@ == targ@);
                    match find_cursor(self.entries_seq(), targ@) {
                        Some(k) => {
                            if k < i {
                                assert(self.entries_seq()[k].0@ != targ@);
                            }
                            if k > i {
                                assert(self.entries_seq()[i as int].0@ != targ@);
                            }
                        },
                        None => {
                            assert(self.entries_seq()[i as int].0@ != targ@);
                        },
                    }
                }
                return i;
            }
            i = i + 1;
        }
        let ghost pre = self.entries_seq();
        self.entries.push((targ.clone(), ClientBuf { last_sent_idx: front_len }));
        proof {
            assert(self.entries_seq() =~= pre.push((*targ, ClientBuf { last_sent_idx: front_len })));
            assert forall|j: int|
                0 <= j < self.entries_seq().len() implies -0x7fffffff <= (
                #[trigger] self.entries_seq()[j]).1.last_sent_idx as int <= 0x7fffffff by {
                if j < pre.len() {
                    assert(self.entries_seq()[j] == pre[j]);
                }
            }
        }
        n
    }

    /// Serves one scrollback request: reads lines downward from just below
    /// the client's cursor, newest first, stopping after `count` lines or
    /// where history is exhausted, and moves the cursor down by exactly the
    /// number of lines served. A request for zero lines serves nothing and
    /// moves nothing.
    pub fn fetch_logs(&mut self, targ: &BufTarget, buf: &Buffer, count: usize) -> (r: Vec<
        BufferLine,
    >)
        requires
            old(self).wf(),
            buf.wf(),
        ensures
            final(self).wf(),
            ({
                let pre_cursor: int = match find_cursor(old(self).entries_seq(), targ@) {
                    Some(j) => old(self).entries_seq()[j].1.last_sent_idx as int,
                    None => buf.front_seq().len() as int,
                };
                let served = r.deep_view().len() as int;
                &&& served <= count
                &&& (forall|j: int|
                    0 <= j < served ==> buf.get_line_spec(pre_cursor - 1 - j) == Some(
                        #[trigger] r.deep_view()[j],
                    ))
                &&& (served < count ==> buf.get_line_spec(pre_cursor - 1 - served) is None)
                &&& (match find_cursor(final(self).entries_seq(), targ@) {
                    Some(j) => final(self).entries_seq()[j].1.last_sent_idx as int == pre_cursor
                        - served,
                    None => false,
                })
                &&& (count == 0 ==> served == 0)
            }),
    {
        let front_len = buf.front_len();
        let ci = self.get_or_create(targ, front_len);
        proof {
            lemma_find_cursor(self.entries_seq(), targ@);
            if find_cursor(old(self).entries_seq(), targ@) is None {
                assert(self.entries_seq().drop_last() =~= old(self).entries_seq());
                lemma_find_cursor_last(old(self).entries_seq(), targ@, self.entries_seq());
            }
        }
        let ghost mid_entries = self.entries_seq();
        let start: isize = self.entries[ci].1.last_sent_idx;
        let mut lines: Vec<BufferLine> = Vec::new();
        let mut k: usize = 0;
        let mut done: bool = false;
        while k < count && !done
            invariant
                buf.wf(),
                k <= count,
                k as int <= buf.front_seq().len() + buf.back_seq().len(),
                self.entries_seq() == mid_entries,
                ci < mid_entries.len(),
                -0x7fffffff <= start as int <= 0x7fffffff,
                lines.deep_view().len() == k as int,
                done ==> buf.get_line_spec(start as int - 1 - k) is None,
                forall|j: int|
                    0 <= j < k ==> buf.get_line_spec(start as int - 1 - j) == Some(
                        #[trigger] lines.deep_view()[j],
                    ),
            decreases count - k, 1int - (if done { 1int } else { 0int }),
        {
            let idx64: i64 = start as i64 - k as i64 - 1;
            if idx64 < -0x7fffffffi64 {
                done = true;
                proof {
                    assert(buf.get_line_spec(idx64 as int) is None);
                }
            } else {
                match buf.get_line(idx64 as isize) {
                    Some(line) => {
                        let ghost prev = lines.deep_view();
                        lines.push(line.clone());
                        proof {
                            assert(lines.deep_view() =~= prev.push(line@));
                            // The just-found line and the first one bound
                            // how many lines can ever be served.
                            assert(buf.get_line_spec(start as int - 1 - k) is Some);
                            assert(start as int - 1 - k >= -(buf.back_seq().len() as int));
                            if k > 0 {
                                assert(buf.get_line_spec(start as int - 1) == Some(
                                    lines.deep_view()[0],
                                ));
                            }
                            assert(start as int - 1 < buf.front_seq().len());
                            assert(k + 1 <= buf.front_seq().len() + buf.back_seq().len());
                        }
                        k = k + 1;
                    },
                    None => {
                        done = true;
                    },
                }
            }
        }
        let served = lines.len();
        proof {
            if served < count {
                assert(done);
                assert(buf.get_line_spec(start as int - 1 - served as int) is None);
            }
            if served > 0 {
                assert(buf.get_line_spec(start as int - served as int) == Some(
                    lines.deep_view()[served - 1],
                ));
            }
            assert(served as int <= 0x7fffffff);
        }
        let new_idx: isize = start - (served as isize);
        let mut entry = self.entries.remove(ci);
        let ghost removed = self.entries_seq();
        entry.1 = ClientBuf { last_sent_idx: new_idx };
        let ghost target_copy = entry.0;
        self.entries.insert(ci, entry);
        proof {
            assert(self.entries_seq() =~= mid_entries.update(
                ci as int,
                (target_copy, ClientBuf { last_sent_idx: new_idx }),
            ));
            lemma_find_cursor_update(mid_entries, self.entries_seq(), ci as int, targ@);
        }
        lines
    }
}

/// A freshly pushed entry for a missing target is found at the end.
proof fn lemma_find_cursor_last(
    pre: Seq<(BufTarget, ClientBuf)>,
    t: BufTargetV,
    post: Seq<(BufTarget, ClientBuf)>,
)
    requires
        find_cursor(pre, t) is None,
        post.len() == pre.len() + 1,
        post.drop_last() == pre,
        post.last().0@ == t,
    ensures
        find_cursor(post, t) == Some(pre.len() as int),
    decreases pre.len(),
{
    if pre.len() == 0 {
        assert(post[0] == post.last());
    } else {
        assert(pre[0] == post.drop_last()[0]);
        assert(post.drop_last()[0] == post[0]);
        assert(find_cursor(pre, t) is None);
        assert(pre[0].0@ != t) by {
            lemma_find_cursor(pre, t);
        }
        assert(find_cursor(pre.drop_first(), t) is None) by {
            lemma_find_cursor(pre.drop_first(), t);
            if find_cursor(pre.drop_first(), t) is Some {
                let i = find_cursor(pre.drop_first(), t)->Some_0;
                assert(pre.drop_first()[i] == pre[i + 1]);
                lemma_find_cursor(pre, t);
            }
        }
        assert(post.drop_first().drop_last() =~= pre.drop_first());
        assert(post.drop_first().last() == post.last());
        lemma_find_cursor_last(pre.drop_first(), t, post.drop_first());
    }
}

/// Updating the entry at the found position keeps it the found position.
proof fn lemma_find_cursor_update(
    pre: Seq<(BufTarget, ClientBuf)>,
    post: Seq<(BufTarget, ClientBuf)>,
    i: int,
    t: BufTargetV,
)
    requires
        find_cursor(pre, t) == Some(i),
        0 <= i < pre.len(),
        post.len() == pre.len(),
        forall|j: int| 0 <= j < pre.len() && j != i ==> post[j] == pre[j],
        post[i].0@ == t,
    ensures
        find_cursor(post, t) == Some(i),
    decreases pre.len(),
{
    if pre.len() > 0 {
        if pre[0].0@ == t {
            assert(i == 0);
            assert(post[0].0@ == t);
        } else {
            assert(find_cursor(pre, t) == (match find_cursor(pre.drop_first(), t) {
                Some(k) => Some(k + 1),
                None => None::<int>,
            }));
            lemma_find_cursor(pre.drop_first(), t);
            assert(i >= 1);
            assert(post[0] == pre[0]);
            assert(find_cursor(pre.drop_first(), t) == Some(i - 1));
            assert(post.drop_first().len() == pre.drop_first().len());
            assert forall|j: int|
                0 <= j < pre.drop_first().len() && j != i - 1 implies post.drop_first()[j]
                    == pre.drop_first()[j] by {
                assert(post[j + 1] == pre[j + 1]);
            }
            assert(post.drop_first()[i - 1] == post[i]);
            lemma_find_cursor_update(pre.drop_first(), post.drop_first(), i - 1, t);
        }
    }
}

/// The words an `IrcSendErr` is described with.
pub open spec fn err_text(e: IrcSendErr) -> Seq<char> {
    match e {
        IrcSendErr::Unavail => "Target buffer is unavailable"@,
        IrcSendErr::Disconnected => "Not connected to IRC"@,
        IrcSendErr::BadTarget => "Invalid target"@,
    }
}

/// The status text a failed send is reported with.
pub open spec fn send_fail_text(e: IrcSendErr) -> Seq<char> {
    "Can't send to channel: "@ + err_text(e)
}

/// The error a chat send comes back with, if any: the buffer must exist,
/// must not be the network's own, and the network must be connected, tried
/// in that order.
pub open spec fn send_outcome(net: IrcNetwork, t: BufTargetV) -> Option<IrcSendErr> {
    if crate::network::find_buf(net.bufs_seq(), t) is None {
        Some(IrcSendErr::Unavail)
    } else if t is Network {
        Some(IrcSendErr::BadTarget)
    } else if !net.connected() {
        Some(IrcSendErr::Disconnected)
    } else {
        None
    }
}

/// Handles one buffer-level client request against a network: a chat send
/// goes out through the network (a failure comes back as one status reply),
/// and a scrollback request is served from the client's cursor and answered
/// with one scrollback batch.
/// How one buffer-level request is served: the reply it produces and how it
/// changes the cursor map, the network, and the event queue. A send
/// fails (with one status reply) exactly by `send_outcome`; on success the
/// wire message goes out and the line is echoed locally. A scrollback
/// request answers with one batch read downward from the client's cursor
/// and moves that cursor by exactly the number of lines served.
pub open spec fn buf_request_served(
    pre_b: ClientBufs,
    post_b: ClientBufs,
    pre_n: IrcNetwork,
    post_n: IrcNetwork,
    pre_u: BaseUpdateHandle<CoreNetMsg>,
    post_u: BaseUpdateHandle<CoreNetMsg>,
    targ: BufTargetV,
    msg: ClientBufMsg,
    rv: Seq<CoreMsgV>,
) -> bool {
    match msg {
        ClientBufMsg::SendMsg(text, kind) => {
            &&& post_b.entries_seq() == pre_b.entries_seq()
            &&& post_u.queued_alerts() == pre_u.queued_alerts()
            &&& match send_outcome(pre_n, targ) {
                Some(e) => {
                    &&& rv == seq![CoreMsgV::Status(send_fail_text(e))]
                    &&& post_n.bufs_seq() == pre_n.bufs_seq()
                    &&& post_n.outbound() == pre_n.outbound()
                    &&& post_u.queued_msgs() == pre_u.queued_msgs()
                },
                None => {
                    let i = crate::network::find_buf(pre_n.bufs_seq(), targ)->Some_0;
                    let dest = match targ {
                        BufTargetV::Channel(c) => c,
                        BufTargetV::Private(p) => p,
                        BufTargetV::Network => Seq::<char>::empty(),
                    };
                    &&& rv == Seq::<CoreMsgV>::empty()
                    &&& post_n.outbound() == pre_n.outbound().push(
                        IrcNetwork::chat_wire_msg(dest, text@, kind),
                    )
                    &&& post_n.bufs_seq().len() == pre_n.bufs_seq().len()
                    &&& (forall|j: int|
                        0 <= j < pre_n.bufs_seq().len() && j != i ==> post_n.bufs_seq()[j]
                            == pre_n.bufs_seq()[j])
                    &&& (pre_n.bufs_seq()[i].has_room() ==> Buffer::pushed(
                        pre_n.bufs_seq()[i],
                        post_n.bufs_seq()[i],
                        LineDataV::Message {
                            kind: kind.to_msg_kind_spec(),
                            from: pre_n.nick_spec(),
                            msg: text@,
                        },
                    ) && post_u.queued_msgs() == pre_u.queued_msgs().push(
                        CoreNetMsgV::BufMsg(
                            targ,
                            CoreBufMsgV::NewLines(seq![post_n.bufs_seq()[i].front_seq().last()]),
                        ),
                    ))
                    &&& (!pre_n.bufs_seq()[i].has_room() ==> Buffer::no_push(
                        pre_n.bufs_seq()[i],
                        post_n.bufs_seq()[i],
                    ) && post_u.queued_msgs() == pre_u.queued_msgs())
                },
            }
        },
        ClientBufMsg::FetchLogs(count) => {
            &&& post_n.bufs_seq() == pre_n.bufs_seq()
            &&& post_n.outbound() == pre_n.outbound()
            &&& post_u.queued_msgs() == pre_u.queued_msgs()
            &&& post_u.queued_alerts() == pre_u.queued_alerts()
            &&& match crate::network::find_buf(pre_n.bufs_seq(), targ) {
                None => {
                    &&& rv == seq![
                        CoreMsgV::NetMsg(
                            pre_n.id_spec(),
                            CoreNetMsgV::BufMsg(
                                targ,
                                CoreBufMsgV::Scrollback(Seq::<crate::line::BufferLineV>::empty()),
                            ),
                        ),
                    ]
                    &&& post_b.entries_seq() == pre_b.entries_seq()
                },
                Some(i) => {
                    let buf = pre_n.bufs_seq()[i];
                    let pre_cursor: int = match find_cursor(pre_b.entries_seq(), targ) {
                        Some(j) => pre_b.entries_seq()[j].1.last_sent_idx as int,
                        None => buf.front_seq().len() as int,
                    };
                    &&& rv.len() == 1
                    &&& match rv[0] {
                        CoreMsgV::NetMsg(
                            nid,
                            CoreNetMsgV::BufMsg(t, CoreBufMsgV::Scrollback(lines)),
                        ) => {
                            let served = lines.len() as int;
                            &&& nid == pre_n.id_spec()
                            &&& t == targ
                            &&& served <= count
                            &&& (forall|j: int|
                                0 <= j < served ==> buf.get_line_spec(pre_cursor - 1 - j) == Some(
                                    #[trigger] lines[j],
                                ))
                            &&& (served < count ==> buf.get_line_spec(pre_cursor - 1 - served)
                                is None)
                            &&& (count == 0 ==> served == 0)
                            &&& match find_cursor(post_b.entries_seq(), targ) {
                                Some(j) => post_b.entries_seq()[j].1.last_sent_idx as int
                                    == pre_cursor - served,
                                None => false,
                            }
                        },
                        _ => false,
                    }
                },
            }
        },
    }
}

pub fn handle_buf_msg(
    bufs: &mut ClientBufs,
    targ: &BufTarget,
    net: &mut IrcNetwork,
    msg: ClientBufMsg,
    u: &mut BaseUpdateHandle<CoreNetMsg>,
) -> (r: Vec<CoreMsg>)
    requires
        old(bufs).wf(),
        old(net).wf(),
    ensures
        final(bufs).wf(),
        final(net).wf(),
        buf_request_served(
            *old(bufs),
            *final(bufs),
            *old(net),
            *final(net),
            *old(u),
            *final(u),
            targ@,
            msg,
            r.deep_view(),
        ),
{
    match msg {
        ClientBufMsg::SendMsg(text, kind) => {
            let sent = net.send_chat_msg(targ.clone(), text, kind, u);
            match sent {
                Ok(_) => {
                    let none: Vec<CoreMsg> = Vec::new();
                    proof {
                        assert(none.deep_view() =~= Seq::<CoreMsgV>::empty());
                    }
                    none
                },
                Err(e) => {
                    let mut status: String = "Can't send to channel: ".to_owned();
                    status.append(e.describe());
                    proof {
                        assert(status@ =~= send_fail_text(e));
                    }
                    let mut out: Vec<CoreMsg> = Vec::new();
                    out.push(CoreMsg::Status(status));
                    proof {
                        assert(out.deep_view() =~= seq![CoreMsgV::Status(send_fail_text(e))]);
                    }
                    out
                },
            }
        },
        ClientBufMsg::FetchLogs(count) => {
            let lines = match net.buf_index(targ) {
                Some(i) => {
                    proof {
                        crate::network::lemma_find_buf_pub(net.bufs_seq(), targ@);
                    }
                    let buf = net.buf_at(i);
                    bufs.fetch_logs(targ, buf, count)
                },
                None => Vec::new(),
            };
            let ghost lines_dv = lines.deep_view();
            proof {
                if crate::network::find_buf(net.bufs_seq(), targ@) is None {
                    assert(lines_dv =~= Seq::<crate::line::BufferLineV>::empty());
                }
            }
            let nid = net.id().clone();
            let reply = CoreMsg::NetMsg(
                nid,
                CoreNetMsg::BufMsg(targ.clone(), CoreBufMsg::Scrollback(lines)),
            );
            let ghost reply_dv = reply.deep_view();
            let mut out: Vec<CoreMsg> = Vec::new();
            out.push(reply);
            proof {
                assert(out.deep_view() =~= seq![reply_dv]);
                assert(reply_dv == CoreMsgV::NetMsg(
                    old(net).id_spec(),
                    CoreNetMsgV::BufMsg(targ@, CoreBufMsgV::Scrollback(lines_dv)),
                ));
            }
            out
        },
    }
}

/// Handles one network-level client request: buffer requests go to the
/// buffer's handler (requests for unknown buffers are dropped), and join,
/// part and nick requests go out through the network, with a failure coming
/// back as one status reply.
pub fn handle_net_msg(
    bufs: &mut ClientBufs,
    net: &mut IrcNetwork,
    msg: ClientNetMsg,
    u: &mut BaseUpdateHandle<CoreNetMsg>,
) -> (r: Vec<CoreMsg>)
    requires
        old(bufs).wf(),
        old(net).wf(),
    ensures
        final(bufs).wf(),
        final(net).wf(),
        match msg {
            ClientNetMsg::BufMsg(targ, bmsg) => {
                &&& (crate::network::find_buf(old(net).bufs_seq(), targ@) is None
                    ==> r.deep_view() == Seq::<CoreMsgV>::empty() && final(net).bufs_seq()
                    == old(net).bufs_seq() && final(bufs).entries_seq() == old(
                    bufs,
                ).entries_seq())
                &&& (crate::network::find_buf(old(net).bufs_seq(), targ@) is Some
                    ==> buf_request_served(
                    *old(bufs),
                    *final(bufs),
                    *old(net),
                    *final(net),
                    *old(u),
                    *final(u),
                    targ@,
                    bmsg,
                    r.deep_view(),
                ))
            },
            ClientNetMsg::ListBufs => r.deep_view() == Seq::<CoreMsgV>::empty() && final(net).bufs_seq() == old(net).bufs_seq() && final(net).outbound() == old(net).outbound(),
            ClientNetMsg::JoinChan(chan) => final(net).bufs_seq() == old(net).bufs_seq() && final(bufs).entries_seq() == old(bufs).entries_seq() && (if old(net).connected() {
                r.deep_view() == Seq::<CoreMsgV>::empty() && final(net).outbound() == old(net).outbound().push(
                    crate::message::MessageV {
                        prefix: None,
                        command: crate::message::CommandV::Join,
                        args: seq![chan@],
                        body: None,
                    },
                )
            } else {
                r.deep_view() == seq![
                    CoreMsgV::Status(
                        "Can't join channel: "@ + err_text(IrcSendErr::Disconnected),
                    ),
                ] && final(net).outbound() == old(net).outbound()
            }),
            ClientNetMsg::PartChan(chan, optmsg) => final(net).bufs_seq() == old(net).bufs_seq()
                && final(bufs).entries_seq() == old(bufs).entries_seq() && (if old(net).connected() {
                r.deep_view() == Seq::<CoreMsgV>::empty() && final(net).outbound() == old(net).outbound().push(
                    crate::message::MessageV {
                        prefix: None,
                        command: crate::message::CommandV::Part,
                        args: seq![chan@],
                        body: crate::line::opt_str_view(&optmsg),
                    },
                )
            } else {
                r.deep_view() == seq![
                    CoreMsgV::Status(
                        "Can't part channel: "@ + err_text(IrcSendErr::Disconnected),
                    ),
                ] && final(net).outbound() == old(net).outbound()
            }),
            ClientNetMsg::ChangeNick(nick) => final(net).bufs_seq() == old(net).bufs_seq()
                && final(bufs).entries_seq() == old(bufs).entries_seq() && (if old(net).connected() {
                r.deep_view() == Seq::<CoreMsgV>::empty() && final(net).outbound() == old(net).outbound().push(
                    crate::message::MessageV {
                        prefix: None,
                        command: crate::message::CommandV::Nick,
                        args: seq![nick@],
                        body: None,
                    },
                )
            } else {
                r.deep_view() == seq![
                    CoreMsgV::Status("Can't change nick: "@ + err_text(IrcSendErr::Disconnected)),
                ] && final(net).outbound() == old(net).outbound()
            }),
        },
{
    match msg {
        ClientNetMsg::BufMsg(targ, bmsg) => {
            match net.buf_index(&targ) {
                Some(_) => handle_buf_msg(bufs, &targ, net, bmsg, u),
                None => Vec::new(),
            }
        },
        ClientNetMsg::ListBufs => Vec::new(),
        ClientNetMsg::JoinChan(chan) => {
            match net.send_join_chan(chan, u) {
                Ok(_) => Vec::new(),
                Err(e) => one_status("Can't join channel: ", e),
            }
        },
        ClientNetMsg::PartChan(chan, optmsg) => {
            match net.send_part_chan(chan, optmsg, u) {
                Ok(_) => Vec::new(),
                Err(e) => one_status("Can't part channel: ", e),
            }
        },
        ClientNetMsg::ChangeNick(nick) => {
            match net.send_change_nick(nick, u) {
                Ok(_) => Vec::new(),
                Err(e) => one_status("Can't change nick: ", e),
            }
        },
    }
}

/// One status reply naming what failed and why.
fn one_status(what: &str, e: IrcSendErr) -> (r: Vec<CoreMsg>)
    ensures
        r.deep_view() == seq![CoreMsgV::Status(what@ + err_text(e))],
{
    let mut status: String = what.to_owned();
    status.append(e.describe());
    proof {
        assert(status@ =~= what@ + err_text(e));
    }
    let mut out: Vec<CoreMsg> = Vec::new();
    out.push(CoreMsg::Status(status));
    proof {
        assert(out.deep_view() =~= seq![CoreMsgV::Status(what@ + err_text(e))]);
    }
    out
}

/// The networks summary sent to a freshly attached client.
pub fn networks_reply(user: &User) -> (r: CoreMsg)
    ensures
        r.deep_view() == CoreMsgV::Networks(nets_info_seq(*user)),
{
    let ghost goal = nets_info_seq(*user);
    let mut infos: Vec<crate::messages::NetInfo> = Vec::new();
    let n = user.net_count();
    let mut i: usize = 0;
    while i < n
        invariant
            n == user.nets_seq().len(),
            i <= n,
            goal == nets_info_seq(*user),
            goal.len() == n as int,
            infos.deep_view() == goal.take(i as int),
        decreases n - i,
    {
        let ghost prev = infos.deep_view();
        infos.push(user.net_at(i).to_info());
        proof {
            assert(goal[i as int] == crate::network::net_info_spec(user.nets_seq()[i as int]));
            assert(infos.deep_view() =~= prev.push(goal[i as int]));
            assert(infos.deep_view() =~= goal.take(i + 1));
        }
        i = i + 1;
    }
    proof {
        assert(goal.take(n as int) =~= goal);
    }
    CoreMsg::Networks(infos)
}

/// One summary per network, in order.
pub open spec fn nets_info_seq(u: User) -> Seq<crate::messages::NetInfoV> {
    Seq::new(
        u.nets_seq().len(),
        |i: int| crate::network::net_info_spec(u.nets_seq()[i]),
    )
}

/// Answers a client's request for the list of networks.
pub fn handle_list_nets(user: &User) -> (r: Vec<CoreMsg>)
    ensures
        r.deep_view() == seq![CoreMsgV::Networks(nets_info_seq(*user))],
{
    let mut out: Vec<CoreMsg> = Vec::new();
    out.push(networks_reply(user));
    proof {
        assert(out.deep_view() =~= seq![CoreMsgV::Networks(nets_info_seq(*user))]);
    }
    out
}

/// Authenticates one client against the named user: with the right password
/// the client gets a fresh queue (its handle index is handed back) and is
/// told the networks; a wrong password earns one refusal; an unknown user
/// earns nothing, and the caller should drop the connection.
pub fn authenticate(core: &mut Core, uid: &str, pass: &str) -> (r: (
    Option<(usize, usize)>,
    Vec<CoreMsg>,
))
    ensures
        match crate::user::find_user(old(core).users_seq(), uid@) {
            None => {
                &&& r.0 is None
                &&& r.1.deep_view() == Seq::<CoreMsgV>::empty()
                &&& final(core).users_seq() == old(core).users_seq()
            },
            Some(ui) => {
                let handle = old(core).users_seq()[ui].1;
                if handle.user_spec().cfg_spec().password@ == pass@ {
                    &&& (match r.0 {
                        Some((a, b)) => a as int == ui && b as int == handle.queues().len(),
                        None => false,
                    })
                    &&& r.1.deep_view() == seq![
                        CoreMsgV::AuthOk,
                        CoreMsgV::Networks(nets_info_seq(handle.user_spec())),
                    ]
                    &&& final(core).users_seq().len() == old(core).users_seq().len()
                    &&& (forall|j: int|
                        0 <= j < old(core).users_seq().len() && j != ui
                            ==> final(core).users_seq()[j] == old(core).users_seq()[j])
                    &&& final(core).users_seq()[ui].0 == old(core).users_seq()[ui].0
                    &&& final(core).users_seq()[ui].1.user_spec() == handle.user_spec()
                    &&& final(core).users_seq()[ui].1.pending_alerts() == handle.pending_alerts()
                    &&& final(core).users_seq()[ui].1.queues() == handle.queues().push(
                        Seq::<CoreMsgV>::empty(),
                    )
                } else {
                    &&& r.0 is None
                    &&& r.1.deep_view() == seq![CoreMsgV::AuthErr]
                    &&& final(core).users_seq() == old(core).users_seq()
                }
            },
        },
{
    let ui = match core.user_index(uid) {
        Some(i) => i,
        None => {
            let none: Vec<CoreMsg> = Vec::new();
            proof {
                assert(none.deep_view() =~= Seq::<CoreMsgV>::empty());
            }
            return (None, none);
        },
    };
    let ghost pre_users = core.users_seq();
    let (name, mut handle) = core.take_user(ui);
    let ghost removed = core.users_seq();
    if str_eq_str(handle.user_ref().password(), pass) {
        let ci = handle.register_client();
        let mut replies: Vec<CoreMsg> = Vec::new();
        replies.push(CoreMsg::AuthOk);
        replies.push(networks_reply(handle.user_ref()));
        proof {
            assert(replies.deep_view() =~= seq![
                CoreMsgV::AuthOk,
                CoreMsgV::Networks(nets_info_seq(pre_users[ui as int].1.user_spec())),
            ]);
        }
        core.put_user(ui, (name, handle));
        proof {
            assert forall|j: int|
                0 <= j < pre_users.len() && j != ui implies core.users_seq()[j]
                    == pre_users[j] by {
                if j < ui {
                    assert(core.users_seq()[j] == removed[j]);
                    assert(removed[j] == pre_users[j]);
                } else {
                    assert(core.users_seq()[j] == removed[j - 1]);
                    assert(removed[j - 1] == pre_users[j]);
                }
            }
        }
        (Some((ui, ci)), replies)
    } else {
        core.put_user(ui, (name, handle));
        proof {
            assert(core.users_seq() =~= pre_users);
        }
        let mut replies: Vec<CoreMsg> = Vec::new();
        replies.push(CoreMsg::AuthErr);
        proof {
            assert(replies.deep_view() =~= seq![CoreMsgV::AuthErr]);
        }
        (None, replies)
    }
}

} // verus!