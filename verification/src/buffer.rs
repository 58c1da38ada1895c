//! One conversation surface: its live lines, paged-in history, presence set,
//! and the bookkeeping for its on-disk logs.
use vstd::prelude::*;
use vstd::string::StrSliceExecFns;
use vstd::string::StringExecFns;
use crate::alert::{Alert, AlertV, AlertKind};
use crate::clock::now_secs;
use crate::handle::{BaseUpdateHandle, UpdateHandle};
use crate::line::{BufferLine, BufferLineV, LineData, LineDataV, MsgKind, User};
use crate::logfmt::enc_line;
use crate::logfmt::encode_line;
use crate::logstore::{BufferLog, Day, parse_day_spec, day_path_spec};
use crate::messages::{BufTarget, BufTargetV, BufInfo, CoreBufMsg, CoreBufMsgV};
use crate::routing::{BufferCmd, BufferCmdV};
use crate::strutil::{contains_str, contains_spec, split_char, split_from, str_eq_str};
use crate::types::NetId;

verus! {

/// The most lines a buffer will hold in memory, comfortably inside every
/// index type used for addressing them.
pub open spec fn buffer_cap() -> int {
    0x7fffffff
}

/// No name appears twice.
pub open spec fn unique_strs(s: Seq<Seq<char>>) -> bool {
    forall|i: int, j: int| 0 <= i < j < s.len() ==> s[i] != s[j]
}

proof fn lemma_to_set_push<A>(s: Seq<A>, x: A)
    ensures
        s.push(x).to_set() == s.to_set().insert(x),
{
    assert forall|a: A| s.push(x).to_set().contains(a) implies s.to_set().insert(x).contains(
        a,
    ) by {
        let i = choose|i: int| 0 <= i < s.push(x).len() && s.push(x)[i] == a;
        if i < s.len() {
            assert(s[i] == a);
        } else {
            assert(a == x);
        }
    }
    assert forall|a: A| s.to_set().insert(x).contains(a) implies s.push(x).to_set().contains(
        a,
    ) by {
        if s.to_set().contains(a) {
            let i = choose|i: int| 0 <= i < s.len() && s[i] == a;
            assert(s.push(x)[i] == a);
        } else {
            assert(a == x);
            assert(s.push(x)[s.len() as int] == x);
        }
    }
    assert(s.push(x).to_set() =~= s.to_set().insert(x));
}

proof fn lemma_to_set_remove_at<A>(s: Seq<A>, i: int, x: A)
    requires
        0 <= i < s.len(),
        s[i] == x,
        forall|j: int| 0 <= j < s.len() && j != i ==> s[j] != x,
    ensures
        s.remove(i).to_set() == s.to_set().remove(x),
{
    let t = s.remove(i);
    assert forall|a: A| t.to_set().contains(a) implies s.to_set().remove(x).contains(a) by {
        let j = choose|j: int| 0 <= j < t.len() && t[j] == a;
        if j < i {
            assert(s[j] == a);
        } else {
            assert(s[j + 1] == a);
        }
    }
    assert forall|a: A| s.to_set().remove(x).contains(a) implies t.to_set().contains(a) by {
        let j = choose|j: int| 0 <= j < s.len() && s[j] == a;
        if j < i {
            assert(t[j] == a);
        } else {
            assert(j != i);
            assert(t[j - 1] == a);
        }
    }
    assert(t.to_set() =~= s.to_set().remove(x));
}

/// True if the name is present.
fn set_contains(v: &Vec<String>, name: &str) -> (r: bool)
    ensures
        r == v.deep_view().to_set().contains(name@),
{
    let mut i: usize = 0;
    while i < v.len()
        invariant
            i <= v.len(),
            forall|j: int| 0 <= j < i ==> v.deep_view()[j] != name@,
        decreases v.len() - i,
    {
        if str_eq_str(v[i].as_str(), name) {
            proof {
                assert(v.deep_view()[i as int] == name@);
            }
            return true;
        }
        i = i + 1;
    }
    proof {
        assert(!v.deep_view().contains(name@));
    }
    false
}

/// Adds a name unless it is already present.
fn set_insert(v: &mut Vec<String>, name: String)
    requires
        unique_strs(old(v).deep_view()),
    ensures
        unique_strs(final(v).deep_view()),
        final(v).deep_view().to_set() == old(v).deep_view().to_set().insert(name@),
        final(v).deep_view().len() <= old(v).deep_view().len() + 1,
{
    if !set_contains(v, name.as_str()) {
        let ghost pre = v.deep_view();
        v.push(name);
        proof {
            assert(v.deep_view() =~= pre.push(pre.push(name@)[pre.len() as int]));
            assert(v.deep_view() =~= pre.push(name@));
            lemma_to_set_push(pre, name@);
            assert forall|i: int, j: int|
                0 <= i < j < v.deep_view().len() implies v.deep_view()[i] != v.deep_view()[j] by {
                if j == v.deep_view().len() - 1 {
                    assert(!pre.contains(name@));
                    assert(pre[i] != name@);
                }
            }
        }
    } else {
        proof {
            assert(v.deep_view().to_set() =~= v.deep_view().to_set().insert(name@));
        }
    }
}

/// Removes a name if it is present.
fn set_remove(v: &mut Vec<String>, name: &str)
    requires
        unique_strs(old(v).deep_view()),
    ensures
        unique_strs(final(v).deep_view()),
        final(v).deep_view().to_set() == old(v).deep_view().to_set().remove(name@),
        final(v).deep_view().len() <= old(v).deep_view().len(),
{
    let mut i: usize = 0;
    while i < v.len()
        invariant
            i <= v.len(),
            v == old(v),
            unique_strs(v.deep_view()),
            forall|j: int| 0 <= j < i ==> v.deep_view()[j] != name@,
        decreases v.len() - i,
    {
        if str_eq_str(v[i].as_str(), name) {
            let ghost pre = v.deep_view();
            v.remove(i);
            proof {
                assert(v.deep_view() =~= pre.remove(i as int));
                lemma_to_set_remove_at(pre, i as int, name@);
                assert forall|a: int, b: int|
                    0 <= a < b < v.deep_view().len() implies v.deep_view()[a]
                        != v.deep_view()[b] by {
                    let pa: int = if a < i { a } else { a + 1 };
                    let pb: int = if b < i { b } else { b + 1 };
                    assert(v.deep_view()[a] == pre[pa]);
                    assert(v.deep_view()[b] == pre[pb]);
                }
            }
            return ;
        }
        i = i + 1;
    }
    proof {
        assert(!v.deep_view().contains(name@));
        assert(v.deep_view().to_set() =~= v.deep_view().to_set().remove(name@));
    }
}

/// The name a NAMES reply carries for a user, with any leading operator or
/// voice mark dropped.
pub open spec fn trim_name_spec(p: Seq<char>) -> Seq<char> {
    if p.len() > 0 && (p[0] == '@' || p[0] == '+') {
        p.drop_first()
    } else {
        p
    }
}

/// The set of names carried by the pieces of a NAMES reply body.
pub open spec fn names_set(parts: Seq<Seq<char>>) -> Set<Seq<char>>
    decreases parts.len(),
{
    if parts.len() == 0 {
        Set::empty()
    } else {
        names_set(parts.drop_last()).insert(trim_name_spec(parts.last()))
    }
}

/// The text of the alert posted when a channel message mentions our nick.
pub open spec fn ping_text(nick: Seq<char>, chan: Seq<char>) -> Seq<char> {
    "Pinged by "@ + nick + " in channel "@ + chan
}

/// The text of the alert posted for a private message.
pub open spec fn privmsg_text(nick: Seq<char>) -> Seq<char> {
    "New private message from "@ + nick
}

/// A buffer within a network.
#[derive(Debug)]
pub struct Buffer {
    id: BufTarget,
    nid: NetId,
    line_id: u64,
    topic: String,
    /// Messages received since the core started running.
    front: Vec<BufferLine>,
    /// Messages loaded from logs. These have negative indices.
    back: Vec<BufferLine>,
    joined: bool,
    /// Nicks of users present in this channel.
    users: Vec<String>,
    names_ended: bool,
    log: BufferLog,
    /// Encoded records awaiting persistence.
    pending_log: Vec<String>,
}

impl Buffer {
    /// The buffer's target, at the character level.
    pub closed spec fn id_spec(&self) -> BufTargetV {
        self.id@
    }

    /// The owning network's id.
    pub closed spec fn nid_spec(&self) -> Seq<char> {
        self.nid@
    }

    /// The live lines, oldest first.
    pub closed spec fn front_seq(&self) -> Seq<BufferLineV> {
        self.front.deep_view()
    }

    /// The paged-in historical lines, newest first.
    pub closed spec fn back_seq(&self) -> Seq<BufferLineV> {
        self.back.deep_view()
    }

    /// The next sequence id a pushed line will get.
    pub closed spec fn line_id_spec(&self) -> u64 {
        self.line_id
    }

    pub closed spec fn joined_spec(&self) -> bool {
        self.joined
    }

    pub closed spec fn names_ended_spec(&self) -> bool {
        self.names_ended
    }

    /// The set of nicks present in this channel.
    pub closed spec fn users_set(&self) -> Set<Seq<char>> {
        self.users.deep_view().to_set()
    }

    pub closed spec fn users_seq(&self) -> Seq<Seq<char>> {
        self.users.deep_view()
    }

    /// The day the next backward page would be read from.
    pub closed spec fn cursor(&self) -> Day {
        self.log.cursor()
    }

    /// The directory this buffer's logs live under.
    pub closed spec fn dir_spec(&self) -> Seq<char> {
        self.log.dir_spec()
    }

    /// Encoded records that have not been handed out for persistence yet.
    pub closed spec fn pending_log_seq(&self) -> Seq<Seq<char>> {
        self.pending_log.deep_view()
    }

    /// The buffer's well-formedness: sequence ids in the front are exactly
    /// the line's position, the id counter continues from there, the
    /// in-memory line count stays inside every index type used, and the
    /// presence set holds no name twice.
    pub open spec fn wf(&self) -> bool {
        &&& self.line_id_spec() as int == self.front_seq().len()
        &&& forall|i: int|
            0 <= i < self.front_seq().len() ==> (#[trigger] self.front_seq()[i]).id as int == i
        &&& self.front_seq().len() + self.back_seq().len() <= buffer_cap()
        &&& unique_strs(self.users_seq())
        &&& self.cursor().wf()
    }

    /// Whether another line fits in memory.
    pub open spec fn has_room(&self) -> bool {
        self.front_seq().len() + self.back_seq().len() < buffer_cap()
    }

    /// One line was pushed: everything else about the buffer's line state is
    /// unchanged, the new line got the next id, and its record is queued for
    /// persistence. The timestamp is whatever the clock gave.
    pub open spec fn pushed(pre: Buffer, post: Buffer, data: LineDataV) -> bool {
        &&& post.front_seq().len() == pre.front_seq().len() + 1
        &&& post.front_seq().drop_last() == pre.front_seq()
        &&& post.front_seq().last().id == pre.line_id_spec()
        &&& post.front_seq().last().data == data
        &&& post.line_id_spec() == pre.line_id_spec() + 1
        &&& post.pending_log_seq() == pre.pending_log_seq().push(
            enc_line(post.front_seq().last()),
        )
        &&& post.back_seq() == pre.back_seq()
    }

    /// No line was pushed.
    pub open spec fn no_push(pre: Buffer, post: Buffer) -> bool {
        &&& post.front_seq() == pre.front_seq()
        &&& post.line_id_spec() == pre.line_id_spec()
        &&& post.pending_log_seq() == pre.pending_log_seq()
        &&& post.back_seq() == pre.back_seq()
    }

    /// The parts of a buffer no operation but paging ever changes.
    pub open spec fn same_identity(pre: Buffer, post: Buffer) -> bool {
        &&& post.id_spec() == pre.id_spec()
        &&& post.nid_spec() == pre.nid_spec()
        &&& post.dir_spec() == pre.dir_spec()
    }

    pub open spec fn newlines_msg(l: BufferLineV) -> CoreBufMsgV {
        CoreBufMsgV::NewLines(seq![l])
    }

    pub open spec fn state_msg(joined: bool) -> CoreBufMsgV {
        CoreBufMsgV::State { joined }
    }

    /// A new buffer for a target: empty, with its log directory under
    /// `logs/<network>/<target name>` and backward paging starting today.
    /// A private conversation starts out joined; other targets do not.
    pub fn new(nid: NetId, id: BufTarget, today: Day) -> (r: Buffer)
        requires
            today.wf(),
        ensures
            r.wf(),
            r.id_spec() == id@,
            r.nid_spec() == nid@,
            r.front_seq() == Seq::<BufferLineV>::empty(),
            r.back_seq() == Seq::<BufferLineV>::empty(),
            r.line_id_spec() == 0,
            r.joined_spec() == (id@ is Private),
            r.users_set() == Set::<Seq<char>>::empty(),
            r.names_ended_spec(),
            r.cursor() == today,
            r.pending_log_seq() == Seq::<Seq<char>>::empty(),
            r.dir_spec() == "logs/"@ + nid@ + "/"@ + id.name_spec(),
    {
        let mut dir: String = "logs/".to_owned();
        dir.append(nid.as_str());
        dir.append("/");
        dir.append(id.name());
        let joined = match &id {
            BufTarget::Private(_) => true,
            _ => false,
        };
        let log = BufferLog::new(dir, today);
        let r = Buffer {
            id,
            nid,
            line_id: 0,
            topic: String::new(),
            front: Vec::new(),
            back: Vec::new(),
            joined,
            users: Vec::new(),
            names_ended: true,
            log,
            pending_log: Vec::new(),
        };
        proof {
            assert(r.front_seq() =~= Seq::<BufferLineV>::empty());
            assert(r.back_seq() =~= Seq::<BufferLineV>::empty());
            assert(r.pending_log_seq() =~= Seq::<Seq<char>>::empty());
            assert(r.users_set() =~= Set::<Seq<char>>::empty());
        }
        r
    }

    /// Gets the buffer's identifier.
    pub fn id(&self) -> (r: &BufTarget)
        ensures
            r@ == self.id_spec(),
    {
        &self.id
    }

    /// The owning network's id.
    pub fn nid(&self) -> (r: &NetId)
        ensures
            r@ == self.nid_spec(),
    {
        &self.nid
    }

    /// True if a user with the given nick is present in the channel.
    pub fn has_user(&self, nick: &str) -> (r: bool)
        ensures
            r == self.users_set().contains(nick@),
    {
        set_contains(&self.users, nick)
    }

    /// The boundary index below which another page from disk is needed: 0
    /// while no history is loaded, else the negative count of loaded
    /// historical lines.
    pub open spec fn last_idx_spec(&self) -> int {
        if self.back_seq().len() == 0 {
            0
        } else {
            -(self.back_seq().len() as int)
        }
    }

    pub fn last_idx(&self) -> (r: isize)
        requires
            self.wf(),
        ensures
            r as int == self.last_idx_spec(),
    {
        if self.back.len() == 0 {
            0
        } else {
            -(self.back.len() as isize)
        }
    }

    /// Returns the length of the front buffer. This is the index of the most
    /// recently received message + 1.
    pub fn front_len(&self) -> (r: isize)
        requires
            self.wf(),
        ensures
            r as int == self.front_seq().len(),
    {
        self.front.len() as isize
    }

    /// Returns the length of the back buffer. This is the negative of the
    /// index of the oldest loaded message.
    pub fn back_len(&self) -> (r: isize)
        requires
            self.wf(),
        ensures
            r as int == self.back_seq().len(),
    {
        self.back.len() as isize
    }

    /// The line at an index, when it is loaded: index 0 is the oldest live
    /// line, growing upward; index -1 is the newest historical line, growing
    /// downward as far as history has been paged in.
    pub open spec fn get_line_spec(&self, idx: int) -> Option<BufferLineV> {
        if 0 <= idx < self.front_seq().len() {
            Some(self.front_seq()[idx])
        } else if -(self.back_seq().len() as int) <= idx < 0 {
            Some(self.back_seq()[-idx - 1])
        } else {
            None
        }
    }

    /// Looks a line up by index. Indexing alone never pages history in:
    /// whether a fetch is needed is the explicit test `wants_fetch`.
    pub fn get_line(&self, idx: isize) -> (r: Option<&BufferLine>)
        requires
            self.wf(),
        ensures
            match r {
                Some(l) => self.get_line_spec(idx as int) == Some(l@),
                None => self.get_line_spec(idx as int) is None,
            },
    {
        if idx >= 0 {
            let i = idx as usize;
            if i < self.front.len() {
                Some(&self.front[i])
            } else {
                None
            }
        } else {
            let off = (-(idx + 1)) as usize;
            if off < self.back.len() {
                Some(&self.back[off])
            } else {
                None
            }
        }
    }

    /// True when resolving this index takes another page from the log store
    /// first: exactly the indices below the current boundary.
    pub fn wants_fetch(&self, idx: isize) -> (r: bool)
        requires
            self.wf(),
        ensures
            r == ((idx as int) < self.last_idx_spec()),
    {
        let last = self.last_idx();
        idx < last
    }

    /// The relative path of the file the next backward page comes from.
    pub fn next_log_file(&self) -> (r: String)
        ensures
            r@ == day_path_spec(self.dir_spec(), self.cursor()),
    {
        self.log.next_file()
    }

    /// The relative path of the log file for the given day; new lines are
    /// appended to today's file.
    pub fn log_file_for(&self, day: &Day) -> (r: String)
        ensures
            r@ == day_path_spec(self.dir_spec(), *day),
    {
        self.log.file_for_day(day)
    }

    /// Hands out the encoded records that still await persistence, oldest
    /// first, leaving none behind.
    pub fn take_log_writes(&mut self) -> (r: Vec<String>)
        ensures
            r.deep_view() == old(self).pending_log_seq(),
            final(self).pending_log_seq() == Seq::<Seq<char>>::empty(),
            Buffer::same_identity(*old(self), *final(self)),
            final(self).front_seq() == old(self).front_seq(),
            final(self).back_seq() == old(self).back_seq(),
            final(self).line_id_spec() == old(self).line_id_spec(),
            final(self).joined_spec() == old(self).joined_spec(),
            final(self).users_set() == old(self).users_set(),
            final(self).names_ended_spec() == old(self).names_ended_spec(),
            final(self).cursor() == old(self).cursor(),
            final(self).wf() == old(self).wf(),
    {
        let mut out: Vec<String> = Vec::new();
        core::mem::swap(&mut out, &mut self.pending_log);
        proof {
            assert(self.pending_log_seq() =~= Seq::<Seq<char>>::empty());
        }
        out
    }

    /// Applies one backward page: the text of the cursor day's file (or
    /// `None` when that file does not exist) is parsed and appended to the
    /// back, and the cursor moves one day further back, so no day is fetched
    /// twice. Lines beyond the in-memory cap are dropped.
    pub fn apply_fetch(&mut self, text: Option<&str>)
        requires
            old(self).wf(),
        ensures
            final(self).wf(),
            Buffer::same_identity(*old(self), *final(self)),
            final(self).front_seq() == old(self).front_seq(),
            final(self).line_id_spec() == old(self).line_id_spec(),
            final(self).joined_spec() == old(self).joined_spec(),
            final(self).users_set() == old(self).users_set(),
            final(self).names_ended_spec() == old(self).names_ended_spec(),
            final(self).pending_log_seq() == old(self).pending_log_seq(),
            final(self).cursor() == old(self).cursor().prev_spec(),
            old(self).cursor() != Day::min_day() ==> final(self).cursor().key() < old(self).cursor().key(),
            ({
                let fetched = match text {
                    Some(t) => parse_day_spec(t@),
                    None => Seq::<BufferLineV>::empty(),
                };
                final(self).back_seq() == old(self).back_seq() + fetched.take(
                    vstd::math::min(
                        fetched.len() as int,
                        buffer_cap() - old(self).front_seq().len() - old(self).back_seq().len(),
                    ),
                )
            }),
    {
        let mut lines = self.log.fetch_lines(text);
        let ghost mid = *self;
        let ghost fetched = lines.deep_view();
        let mut k: usize = 0;
        let ghost pre_back = self.back.deep_view();
        let ghost room = buffer_cap() - self.front.deep_view().len() - pre_back.len();
        while k < lines.len() && self.front.len() + self.back.len() < 0x7fffffffusize
            invariant
                k <= lines.len(),
                fetched == lines.deep_view(),
                self.id == mid.id,
                self.nid == mid.nid,
                self.line_id == mid.line_id,
                self.topic == mid.topic,
                self.front == mid.front,
                self.joined == mid.joined,
                self.users == mid.users,
                self.names_ended == mid.names_ended,
                self.log == mid.log,
                self.pending_log == mid.pending_log,
                self.front.deep_view().len() + pre_back.len() + room == buffer_cap(),
                self.back.deep_view() == pre_back + fetched.take(k as int),
                k <= room,
                self.back.deep_view().len() == pre_back.len() + k,
                self.front.deep_view().len() + self.back.deep_view().len() <= buffer_cap(),
            decreases lines.len() - k,
        {
            let ghost prev = self.back.deep_view();
            self.back.push(lines[k].clone());
            proof {
                assert(self.back.deep_view() =~= prev.push(fetched[k as int]));
                assert(self.back.deep_view() =~= pre_back + fetched.take(k + 1));
            }
            k = k + 1;
        }
        proof {
            if k < lines.len() {
                assert(k == room);
            } else {
                assert(k == fetched.len());
            }
            assert(fetched.take(vstd::math::min(fetched.len() as int, room)) == fetched.take(
                k as int,
            ));
        }
    }

    /// Sets whether we're joined in this buffer and queues a state update.
    fn set_joined(&mut self, joined: bool, u: &mut BaseUpdateHandle<CoreBufMsg>)
        ensures
            final(self).joined_spec() == joined,
            Buffer::no_push(*old(self), *final(self)),
            Buffer::same_identity(*old(self), *final(self)),
            final(self).users_set() == old(self).users_set(),
            final(self).users_seq() == old(self).users_seq(),
            final(self).names_ended_spec() == old(self).names_ended_spec(),
            final(self).cursor() == old(self).cursor(),
            final(self).line_id_spec() == old(self).line_id_spec(),
            final(self).wf() == old(self).wf(),
            final(u).queued_msgs() == old(u).queued_msgs().push(Buffer::state_msg(joined)),
            final(u).queued_alerts() == old(u).queued_alerts(),
    {
        self.joined = joined;
        u.send_clients(CoreBufMsg::State { joined });
    }

    /// Assigns the next sequence id, timestamps the line with the clock,
    /// appends it to the front, queues its record for persistence, and queues
    /// a new-lines event. A buffer that has reached the in-memory cap leaves
    /// everything unchanged.
    pub fn push_line(&mut self, data: LineData, u: &mut BaseUpdateHandle<CoreBufMsg>)
        requires
            old(self).wf(),
        ensures
            final(self).wf(),
            Buffer::same_identity(*old(self), *final(self)),
            final(self).joined_spec() == old(self).joined_spec(),
            final(self).users_set() == old(self).users_set(),
            final(self).users_seq() == old(self).users_seq(),
            final(self).names_ended_spec() == old(self).names_ended_spec(),
            final(self).cursor() == old(self).cursor(),
            final(u).queued_alerts() == old(u).queued_alerts(),
            old(self).has_room() ==> Buffer::pushed(*old(self), *final(self), data@)
                && final(u).queued_msgs() == old(u).queued_msgs().push(
                Buffer::newlines_msg(final(self).front_seq().last()),
            ),
            !old(self).has_room() ==> Buffer::no_push(*old(self), *final(self)) && final(u).queued_msgs()
                == old(u).queued_msgs(),
    {
        if self.front.len() + self.back.len() >= 0x7fffffffusize {
            return ;
        }
        let time = now_secs();
        let line = BufferLine { id: self.line_id, time, data };
        let ghost pre_front = self.front.deep_view();
        let ghost pre_pending = self.pending_log.deep_view();
        self.line_id = self.line_id + 1;
        self.front.push(line.clone());
        let record = encode_line(&line);
        self.pending_log.push(record);
        proof {
            assert(self.front.deep_view() =~= pre_front.push(line@));
            assert(self.front.deep_view().drop_last() =~= pre_front);
            assert(self.pending_log.deep_view() =~= pre_pending.push(enc_line(line@)));
            assert forall|i: int|
                0 <= i < self.front.deep_view().len() implies (#[trigger] self.front.deep_view()[i]).id
                    as int == i by {
                if i < pre_front.len() {
                    assert(self.front.deep_view()[i] == pre_front[i]);
                }
            }
        }
        let ghost lv = line@;
        let mut batch: Vec<BufferLine> = Vec::new();
        batch.push(line);
        proof {
            assert(batch.deep_view() =~= seq![lv]);
            assert(self.front.deep_view().last() == lv);
        }
        u.send_clients(CoreBufMsg::NewLines(batch));
    }

    /// Handles one routed buffer command: updates membership and presence,
    /// posts ping and private-message alerts, and pushes the line the
    /// command stands for.
    pub fn handle_cmd(
        &mut self,
        cmd: BufferCmd,
        my_nick: &str,
        u: &mut BaseUpdateHandle<CoreBufMsg>,
    )
        requires
            old(self).wf(),
        ensures
            final(self).wf(),
            Buffer::same_identity(*old(self), *final(self)),
            final(self).cursor() == old(self).cursor(),
            final(u).queued_msgs() == old(u).queued_msgs() + Buffer::cmd_msgs(
                *old(self),
                *final(self),
                cmd@,
                my_nick@,
            ),
            final(u).queued_alerts() == old(u).queued_alerts() + Buffer::cmd_alerts(
                *old(self),
                cmd@,
                my_nick@,
            ),
            Buffer::cmd_state(*old(self), *final(self), cmd@, my_nick@),
    {
        let ghost pre = *self;
        let ghost pre_u = *u;
        match cmd {
            BufferCmd::JOIN(user) => {
                if str_eq_str(user.nick.as_str(), my_nick) {
                    self.set_joined(true, u);
                } else {
                    set_insert(&mut self.users, user.nick.clone());
                }
                self.push_line(LineData::Join { user }, u);
                proof {
                    Buffer::lemma_two_msgs(pre_u);
                }
            },
            BufferCmd::PART(user, reason) => {
                let reason_str: String = match reason {
                    Some(r) => r,
                    None => "No reason given".to_owned(),
                };
                if str_eq_str(user.nick.as_str(), my_nick) {
                    self.set_joined(false, u);
                    self.users = Vec::new();
                    proof {
                        assert(self.users.deep_view() =~= Seq::<Seq<char>>::empty());
                        assert(self.users_set() =~= Set::<Seq<char>>::empty());
                    }
                } else {
                    set_remove(&mut self.users, user.nick.as_str());
                }
                self.push_line(LineData::Part { user, reason: reason_str }, u);
                proof {
                    Buffer::lemma_two_msgs(pre_u);
                }
            },
            BufferCmd::KICK { by, targ, reason } => {
                let reason_str: String = match reason {
                    Some(r) => r,
                    None => "No reason given".to_owned(),
                };
                if str_eq_str(targ.as_str(), my_nick) {
                    self.set_joined(false, u);
                    self.users = Vec::new();
                    proof {
                        assert(self.users.deep_view() =~= Seq::<Seq<char>>::empty());
                        assert(self.users_set() =~= Set::<Seq<char>>::empty());
                    }
                } else {
                    set_remove(&mut self.users, targ.as_str());
                }
                self.push_line(LineData::Kick { by, user: targ, reason: reason_str }, u);
                proof {
                    Buffer::lemma_two_msgs(pre_u);
                }
            },
            BufferCmd::PRIVMSG(user, msg) => {
                match &self.id {
                    BufTarget::Channel(bid) => {
                        if contains_str(msg.as_str(), my_nick) {
                            let mut am: String = "Pinged by ".to_owned();
                            am.append(user.nick.as_str());
                            am.append(" in channel ");
                            am.append(bid.as_str());
                            proof {
                                assert(am@ =~= ping_text(user.nick@, bid@));
                            }
                            u.post_alert(Alert::ping(self.nid.clone(), bid.clone(), am));
                        }
                    },
                    BufTarget::Private(bid) => {
                        let mut am: String = "New private message from ".to_owned();
                        am.append(user.nick.as_str());
                        proof {
                            assert(am@ =~= privmsg_text(user.nick@));
                        }
                        u.post_alert(Alert::privmsg(self.nid.clone(), bid.clone(), am));
                    },
                    BufTarget::Network => {},
                }
                let from = user.nick;
                self.push_line(LineData::Message { kind: MsgKind::PrivMsg, from, msg }, u);
                proof {
                    Buffer::lemma_two_msgs(pre_u);
                }
            },
            BufferCmd::NOTICE(sender, msg) => {
                let from = sender.name().to_owned();
                self.push_line(LineData::Message { kind: MsgKind::Notice, from, msg }, u);
                proof {
                    Buffer::lemma_two_msgs(pre_u);
                }
            },
            BufferCmd::ACTION(user, msg) => {
                let from = user.nick;
                self.push_line(LineData::Message { kind: MsgKind::Action, from, msg }, u);
                proof {
                    Buffer::lemma_two_msgs(pre_u);
                }
            },
            BufferCmd::RPL_NAMREPLY(body) => {
                if self.names_ended {
                    self.users = Vec::new();
                    proof {
                        assert(self.users.deep_view() =~= Seq::<Seq<char>>::empty());
                        assert(self.users_set() =~= Set::<Seq<char>>::empty());
                    }
                }
                self.names_ended = false;
                let ghost base = self.users.deep_view().to_set();
                let parts = split_char(body.as_str(), ' ');
                let ghost parts_dv = parts.deep_view();
                let mut k: usize = 0;
                while k < parts.len()
                    invariant
                        k <= parts.len(),
                        parts_dv == parts.deep_view(),
                        unique_strs(self.users.deep_view()),
                        self.users.deep_view().to_set() == base.union(
                            names_set(parts_dv.take(k as int)),
                        ),
                        self.id == pre.id,
                        self.nid == pre.nid,
                        self.line_id == pre.line_id,
                        self.topic == pre.topic,
                        self.front == pre.front,
                        self.back == pre.back,
                        self.joined == pre.joined,
                        self.names_ended == false,
                        self.log == pre.log,
                        self.pending_log == pre.pending_log,
                    decreases parts.len() - k,
                {
                    let piece = &parts[k];
                    let name: String = if piece.as_str().unicode_len() > 0 && (piece.as_str()
                        .get_char(0) == '@' || piece.as_str().get_char(0) == '+') {
                        piece.as_str().substring_char(1, piece.as_str().unicode_len()).to_owned()
                    } else {
                        piece.clone()
                    };
                    proof {
                        assert(piece@ == parts_dv[k as int]);
                        assert(name@ =~= trim_name_spec(parts_dv[k as int]));
                    }
                    let ghost before = self.users.deep_view().to_set();
                    set_insert(&mut self.users, name);
                    proof {
                        assert(parts_dv.take(k + 1).drop_last() =~= parts_dv.take(k as int));
                        assert(parts_dv.take(k + 1).last() == parts_dv[k as int]);
                        assert(names_set(parts_dv.take(k + 1)) == names_set(
                            parts_dv.take(k as int),
                        ).insert(trim_name_spec(parts_dv[k as int])));
                        assert(self.users.deep_view().to_set() =~= base.union(
                            names_set(parts_dv.take(k + 1)),
                        ));
                    }
                    k = k + 1;
                }
                proof {
                    assert(parts_dv.take(parts.len() as int) =~= parts_dv);
                    assert(*u == pre_u);
                    assert(final(u).queued_msgs() =~= old(u).queued_msgs() + Seq::<
                        CoreBufMsgV,
                    >::empty());
                    assert(final(u).queued_alerts() =~= old(u).queued_alerts() + Seq::<
                        AlertV,
                    >::empty());
                }
            },
            BufferCmd::RPL_ENDOFNAMES => {
                self.names_ended = true;
                proof {
                    assert(final(u).queued_msgs() =~= old(u).queued_msgs() + Seq::<
                        CoreBufMsgV,
                    >::empty());
                    assert(final(u).queued_alerts() =~= old(u).queued_alerts() + Seq::<
                        AlertV,
                    >::empty());
                }
            },
            BufferCmd::RPL_MOTD(msg) => {
                let from: String = "motd".to_owned();
                self.push_line(
                    LineData::Message { kind: MsgKind::Response(372), from, msg },
                    u,
                );
                proof {
                    Buffer::lemma_two_msgs(pre_u);
                }
            },
        }
    }

    /// The client-facing events one buffer command queues, in order.
    pub open spec fn cmd_msgs(
        pre: Buffer,
        post: Buffer,
        cmd: BufferCmdV,
        nick: Seq<char>,
    ) -> Seq<CoreBufMsgV> {
        let push_part: Seq<CoreBufMsgV> = if pre.has_room() {
            seq![Buffer::newlines_msg(post.front_seq().last())]
        } else {
            Seq::empty()
        };
        match cmd {
            BufferCmdV::JOIN(uv) => if uv.nick == nick {
                seq![Buffer::state_msg(true)] + push_part
            } else {
                push_part
            },
            BufferCmdV::PART(uv, _) => if uv.nick == nick {
                seq![Buffer::state_msg(false)] + push_part
            } else {
                push_part
            },
            BufferCmdV::KICK { by, targ, reason } => if targ == nick {
                seq![Buffer::state_msg(false)] + push_part
            } else {
                push_part
            },
            BufferCmdV::PRIVMSG(_, _) => push_part,
            BufferCmdV::NOTICE(_, _) => push_part,
            BufferCmdV::ACTION(_, _) => push_part,
            BufferCmdV::RPL_NAMREPLY(_) => Seq::empty(),
            BufferCmdV::RPL_ENDOFNAMES => Seq::empty(),
            BufferCmdV::RPL_MOTD(_) => push_part,
        }
    }

    /// The alerts one buffer command posts: a ping when a channel message
    /// mentions our nick, an alert for every private message, and nothing
    /// otherwise.
    pub open spec fn cmd_alerts(pre: Buffer, cmd: BufferCmdV, nick: Seq<char>) -> Seq<AlertV> {
        match cmd {
            BufferCmdV::PRIVMSG(uv, m) => match pre.id_spec() {
                BufTargetV::Channel(bid) => if contains_spec(m, nick) {
                    seq![
                        AlertV {
                            kind: AlertKind::Ping,
                            net: pre.nid_spec(),
                            buf: bid,
                            msg: ping_text(uv.nick, bid),
                        },
                    ]
                } else {
                    Seq::empty()
                },
                BufTargetV::Private(bid) => seq![
                    AlertV {
                        kind: AlertKind::PrivMsg,
                        net: pre.nid_spec(),
                        buf: bid,
                        msg: privmsg_text(uv.nick),
                    },
                ],
                BufTargetV::Network => Seq::empty(),
            },
            _ => Seq::empty(),
        }
    }

    /// How one buffer command changes the buffer's own state: what line it
    /// pushes, and what happens to membership, presence and the NAMES flag.
    pub open spec fn cmd_state(
        pre: Buffer,
        post: Buffer,
        cmd: BufferCmdV,
        nick: Seq<char>,
    ) -> bool {
        let pushes: Option<LineDataV> = match cmd {
            BufferCmdV::JOIN(uv) => Some(LineDataV::Join { user: uv }),
            BufferCmdV::PART(uv, reason) => Some(
                LineDataV::Part {
                    user: uv,
                    reason: match reason {
                        Some(r) => r,
                        None => "No reason given"@,
                    },
                },
            ),
            BufferCmdV::KICK { by, targ, reason } => Some(
                LineDataV::Kick {
                    by,
                    user: targ,
                    reason: match reason {
                        Some(r) => r,
                        None => "No reason given"@,
                    },
                },
            ),
            BufferCmdV::PRIVMSG(uv, m) => Some(
                LineDataV::Message { kind: MsgKind::PrivMsg, from: uv.nick, msg: m },
            ),
            BufferCmdV::NOTICE(sv, m) => Some(
                LineDataV::Message {
                    kind: MsgKind::Notice,
                    from: crate::line::sender_name_spec(sv),
                    msg: m,
                },
            ),
            BufferCmdV::ACTION(uv, m) => Some(
                LineDataV::Message { kind: MsgKind::Action, from: uv.nick, msg: m },
            ),
            BufferCmdV::RPL_NAMREPLY(_) => None,
            BufferCmdV::RPL_ENDOFNAMES => None,
            BufferCmdV::RPL_MOTD(m) => Some(
                LineDataV::Message { kind: MsgKind::Response(372), from: "motd"@, msg: m },
            ),
        };
        &&& match pushes {
            Some(d) => (pre.has_room() ==> Buffer::pushed(pre, post, d)) && (!pre.has_room()
                ==> Buffer::no_push(pre, post)),
            None => Buffer::no_push(pre, post),
        }
        &&& post.joined_spec() == (match cmd {
            BufferCmdV::JOIN(uv) => if uv.nick == nick {
                true
            } else {
                pre.joined_spec()
            },
            BufferCmdV::PART(uv, _) => if uv.nick == nick {
                false
            } else {
                pre.joined_spec()
            },
            BufferCmdV::KICK { by, targ, reason } => if targ == nick {
                false
            } else {
                pre.joined_spec()
            },
            _ => pre.joined_spec(),
        })
        &&& post.users_set() == (match cmd {
            BufferCmdV::JOIN(uv) => if uv.nick == nick {
                pre.users_set()
            } else {
                pre.users_set().insert(uv.nick)
            },
            BufferCmdV::PART(uv, _) => if uv.nick == nick {
                Set::<Seq<char>>::empty()
            } else {
                pre.users_set().remove(uv.nick)
            },
            BufferCmdV::KICK { by, targ, reason } => if targ == nick {
                Set::<Seq<char>>::empty()
            } else {
                pre.users_set().remove(targ)
            },
            BufferCmdV::RPL_NAMREPLY(body) => (if pre.names_ended_spec() {
                Set::<Seq<char>>::empty()
            } else {
                pre.users_set()
            }).union(names_set(split_from(body, 0, ' '))),
            _ => pre.users_set(),
        })
        &&& post.names_ended_spec() == (match cmd {
            BufferCmdV::RPL_NAMREPLY(_) => false,
            BufferCmdV::RPL_ENDOFNAMES => true,
            _ => pre.names_ended_spec(),
        })
    }

    /// Two queue extensions in a row are one extension by both elements.
    proof fn lemma_two_msgs(pre_u: BaseUpdateHandle<CoreBufMsg>)
        ensures
            forall|a: CoreBufMsgV, b: CoreBufMsgV|
                pre_u.queued_msgs().push(a).push(b) == pre_u.queued_msgs() + seq![a, b],
            forall|a: CoreBufMsgV|
                pre_u.queued_msgs().push(a) == pre_u.queued_msgs() + seq![a],
            pre_u.queued_msgs() == pre_u.queued_msgs() + Seq::<CoreBufMsgV>::empty(),
            forall|a: AlertV| pre_u.queued_alerts().push(a) == pre_u.queued_alerts() + seq![a],
            pre_u.queued_alerts() == pre_u.queued_alerts() + Seq::<AlertV>::empty(),
    {
        assert forall|a: CoreBufMsgV, b: CoreBufMsgV|
            pre_u.queued_msgs().push(a).push(b) == pre_u.queued_msgs() + seq![a, b] by {
            assert(pre_u.queued_msgs().push(a).push(b) =~= pre_u.queued_msgs() + seq![a, b]);
        }
        assert forall|a: CoreBufMsgV|
            pre_u.queued_msgs().push(a) == pre_u.queued_msgs() + seq![a] by {
            assert(pre_u.queued_msgs().push(a) =~= pre_u.queued_msgs() + seq![a]);
        }
        assert(pre_u.queued_msgs() =~= pre_u.queued_msgs() + Seq::<CoreBufMsgV>::empty());
        assert forall|a: AlertV|
            pre_u.queued_alerts().push(a) == pre_u.queued_alerts() + seq![a] by {
            assert(pre_u.queued_alerts().push(a) =~= pre_u.queued_alerts() + seq![a]);
        }
        assert(pre_u.queued_alerts() =~= pre_u.queued_alerts() + Seq::<AlertV>::empty());
    }

    /// Handles a user quitting: the user leaves the presence set and a quit
    /// line is pushed.
    pub fn handle_quit(
        &mut self,
        user: &User,
        msg: Option<String>,
        u: &mut BaseUpdateHandle<CoreBufMsg>,
    )
        requires
            old(self).wf(),
        ensures
            final(self).wf(),
            Buffer::same_identity(*old(self), *final(self)),
            final(self).cursor() == old(self).cursor(),
            final(self).joined_spec() == old(self).joined_spec(),
            final(self).names_ended_spec() == old(self).names_ended_spec(),
            final(self).users_set() == old(self).users_set().remove(user@.nick),
            final(u).queued_alerts() == old(u).queued_alerts(),
            old(self).has_room() ==> Buffer::pushed(
                *old(self),
                *final(self),
                LineDataV::Quit { user: user@, msg: crate::line::opt_str_view(&msg) },
            ) && final(u).queued_msgs() == old(u).queued_msgs().push(
                Buffer::newlines_msg(final(self).front_seq().last()),
            ),
            !old(self).has_room() ==> Buffer::no_push(*old(self), *final(self)) && final(u).queued_msgs()
                == old(u).queued_msgs(),
    {
        set_remove(&mut self.users, user.nick.as_str());
        self.push_line(LineData::Quit { user: user.clone(), msg }, u);
    }

    /// Handles a user changing nick: the presence set swaps the old nick for
    /// the new one and a nick line is pushed.
    pub fn handle_nick(
        &mut self,
        user: &User,
        new: String,
        u: &mut BaseUpdateHandle<CoreBufMsg>,
    )
        requires
            old(self).wf(),
        ensures
            final(self).wf(),
            Buffer::same_identity(*old(self), *final(self)),
            final(self).cursor() == old(self).cursor(),
            final(self).joined_spec() == old(self).joined_spec(),
            final(self).names_ended_spec() == old(self).names_ended_spec(),
            final(self).users_set() == old(self).users_set().remove(user@.nick).insert(new@),
            final(u).queued_alerts() == old(u).queued_alerts(),
            old(self).has_room() ==> Buffer::pushed(
                *old(self),
                *final(self),
                LineDataV::Nick { user: user@, new: new@ },
            ) && final(u).queued_msgs() == old(u).queued_msgs().push(
                Buffer::newlines_msg(final(self).front_seq().last()),
            ),
            !old(self).has_room() ==> Buffer::no_push(*old(self), *final(self)) && final(u).queued_msgs()
                == old(u).queued_msgs(),
    {
        set_remove(&mut self.users, user.nick.as_str());
        set_insert(&mut self.users, new.clone());
        self.push_line(LineData::Nick { user: user.clone(), new }, u);
    }

    /// Gets `BufInfo` data for this buffer.
    pub fn as_info(&self) -> (r: BufInfo)
        ensures
            r@.id == self.id_spec(),
            r@.joined == self.joined_spec(),
    {
        BufInfo { id: self.id.clone(), joined: self.joined }
    }
}

/// For all lines pushed to a buffer, sequence ids strictly increase, and no
/// line appears twice in the front.
pub proof fn lemma_front_ids_strictly_increase(b: &Buffer)
    requires
        b.wf(),
    ensures
        forall|i: int, j: int|
            0 <= i < j < b.front_seq().len() ==> b.front_seq()[i].id < b.front_seq()[j].id,
        forall|i: int, j: int|
            0 <= i < j < b.front_seq().len() ==> b.front_seq()[i] != b.front_seq()[j],
{
    assert forall|i: int, j: int|
        0 <= i < j < b.front_seq().len() implies b.front_seq()[i].id < b.front_seq()[j].id by {
        assert(b.front_seq()[i].id as int == i);
        assert(b.front_seq()[j].id as int == j);
    }
}

/// For an index in historical territory, paging is wanted exactly when the
/// index is not yet resolvable: `get_line` itself never pages, and the
/// boundary test asks for a fetch only when the line is missing. Together
/// with `apply_fetch`, whose cursor strictly descends, paging fetches
/// exactly the days needed and never re-fetches a loaded one.
pub proof fn lemma_paging_needed_iff_unresolved(b: &Buffer, idx: int)
    requires
        b.wf(),
        idx < 0,
    ensures
        (idx < b.last_idx_spec()) <==> b.get_line_spec(idx) is None,
{
}

} // verus!
