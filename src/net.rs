use vstd::prelude::*;
use std::collections::VecDeque;

use crate::message::{Message, MessagePayload, MessageView, PayloadView};
use crate::timespec::Timespec;

verus! {

/// A net, endpoint or group identifier. As a destination `0` means any, and a
/// destination net of `1` means the local net.
pub type ID = u64;

/// The group id of an endpoint that belongs to no group.
pub const UNUSED_ID: u64 = 0xffff_ffff_ffff_ffff;

/// The first endpoint id a net hands out: `0` and `1` have meanings of their
/// own as destinations.
pub const FIRST_EID: u64 = 2;

/// `a + b`, or the largest `usize` if the sum is larger.
pub open spec fn sat_add(a: nat, b: nat) -> nat {
    if a + b > usize::MAX {
        usize::MAX as nat
    } else {
        a + b
    }
}

/// `a - b`, or zero if `b` is larger.
pub open spec fn sat_sub(a: nat, b: nat) -> nat {
    if a >= b {
        (a - b) as nat
    } else {
        0
    }
}

/// An entry in an endpoint's queue.
pub enum Queued {
    /// A raw or clone message of the endpoint's own.
    Own(Message),
    /// A share in the sync message parked in `slot` of the net, whose buffer
    /// holds `cap` bytes. Every endpoint that took the message holds a share;
    /// the first to receive it takes the message out of its slot.
    Share { slot: usize, cap: usize },
}

/// What a queue entry holds: a message of the endpoint's own, or a share
/// (slot, bytes) in a parked sync message.
pub enum QueuedView {
    Own(MessageView),
    Share(nat, nat),
}

impl View for Queued {
    type V = QueuedView;

    open spec fn view(&self) -> QueuedView {
        match self {
            Queued::Own(m) => QueuedView::Own(m@),
            Queued::Share { slot, cap } => QueuedView::Share(*slot as nat, *cap as nat),
        }
    }
}

impl QueuedView {
    /// The bytes the entry counts for against the endpoint's memory limit.
    pub open spec fn cap(self) -> nat {
        match self {
            QueuedView::Own(m) => m.cap(),
            QueuedView::Share(_, c) => c,
        }
    }

    /// Whether receiving the entry yields a message: an own message always
    /// does, a share only while its message is still parked.
    pub open spec fn live(self, parked: Seq<Option<MessageView>>) -> bool {
        match self {
            QueuedView::Own(_) => true,
            QueuedView::Share(slot, _) => slot < parked.len() && parked[slot as int] is Some,
        }
    }

    /// The message that receiving a live entry yields.
    pub open spec fn content(self, parked: Seq<Option<MessageView>>) -> MessageView {
        match self {
            QueuedView::Own(m) => m,
            QueuedView::Share(slot, _) => parked[slot as int]->Some_0,
        }
    }
}

impl Queued {
    fn cap(&self) -> (r: usize)
        ensures
            r == self@.cap(),
    {
        match self {
            Queued::Own(m) => m.cap(),
            Queued::Share { slot: _, cap } => *cap,
        }
    }
}

/// The sum of the entries' `cap`.
pub open spec fn caps(q: Seq<QueuedView>) -> nat
    decreases q.len(),
{
    if q.len() == 0 {
        0
    } else {
        caps(q.drop_last()) + q.last().cap()
    }
}

/// The state of one endpoint: its address, its queue, its limits and how
/// many handles to it are held.
pub struct Mailbox {
    pub key: u64,
    pub sid: u64,
    pub eid: u64,
    pub gid: u64,
    pub messages: VecDeque<Queued>,
    pub wakeupat: Timespec,
    pub memoryused: usize,
    pub limitpending: usize,
    pub limitmemory: usize,
    pub refcnt: usize,
}

/// What an endpoint's state holds; the queue as the entries' views.
pub struct MailboxView {
    pub key: u64,
    pub sid: u64,
    pub eid: u64,
    pub gid: u64,
    pub queue: Seq<QueuedView>,
    pub wakeupat: Timespec,
    pub memoryused: nat,
    pub limitpending: nat,
    pub limitmemory: nat,
    pub refcnt: nat,
}

impl View for Mailbox {
    type V = MailboxView;

    open spec fn view(&self) -> MailboxView {
        MailboxView {
            key: self.key,
            sid: self.sid,
            eid: self.eid,
            gid: self.gid,
            queue: self.messages@.map_values(|e: Queued| e@),
            wakeupat: self.wakeupat,
            memoryused: self.memoryused as nat,
            limitpending: self.limitpending as nat,
            limitmemory: self.limitmemory as nat,
            refcnt: self.refcnt as nat,
        }
    }
}

/// Whether an endpoint at net `sid`, endpoint `eid` is a destination of `m`,
/// on a net whose own id is `serveraddr`:
/// - a message that may not loop back does not reach its own source;
/// - a destination net of `1` is the local net: only endpoints whose net id
///   is the net's own; any other destination net other than `0` must be the
///   endpoint's;
/// - a destination endpoint other than `0` must be the endpoint's.
pub open spec fn addressed(sid: u64, eid: u64, serveraddr: u64, m: MessageView) -> bool {
    &&& (m.canloop || m.srceid != eid || m.srcsid != sid)
    &&& (m.dstsid == 0 || (m.dstsid == 1 && sid == serveraddr) || (m.dstsid != 1 && m.dstsid
        == sid))
    &&& (m.dsteid == 0 || m.dsteid == eid)
}

impl MailboxView {
    /// Neither limit stops one more message: the pending count is under its
    /// limit and the memory used is under its limit (a limit of `0` is off).
    pub open spec fn has_room(self) -> bool {
        &&& (self.limitpending == 0 || self.queue.len() < self.limitpending)
        &&& (self.limitmemory == 0 || self.memoryused < self.limitmemory)
    }

    /// Whether the endpoint takes `m` when it is offered.
    pub open spec fn accepts(self, m: MessageView, serveraddr: u64) -> bool {
        addressed(self.sid, self.eid, serveraddr, m) && self.has_room()
    }

    /// The endpoint after `e` was put at the end of its queue.
    pub open spec fn enqueued(self, e: QueuedView) -> MailboxView {
        MailboxView {
            queue: self.queue.push(e),
            memoryused: sat_add(self.memoryused, e.cap()),
            ..self
        }
    }

    /// The endpoint after `m` was offered to it as the entry `e`.
    pub open spec fn offered(self, m: MessageView, serveraddr: u64, e: QueuedView) -> MailboxView {
        if self.accepts(m, serveraddr) {
            self.enqueued(e)
        } else {
            self
        }
    }
}

/// The entry an endpoint gets for `m`: a share in slot `slot` for a sync
/// message, else a copy that may not loop back.
pub open spec fn entry_for(m: MessageView, slot: nat) -> QueuedView {
    if m.payload is Sync {
        QueuedView::Share(slot, m.cap())
    } else {
        QueuedView::Own(m.no_loop())
    }
}

/// How many of `mbs` accept `m`.
pub open spec fn accepted(mbs: Seq<MailboxView>, m: MessageView, serveraddr: u64) -> nat
    decreases mbs.len(),
{
    if mbs.len() == 0 {
        0
    } else {
        accepted(mbs.drop_last(), m, serveraddr) + if mbs.last().accepts(m, serveraddr) {
            1nat
        } else {
            0nat
        }
    }
}

/// The index of the first entry of `q` that receiving yields a message for,
/// or `q.len()` if there is none.
pub open spec fn first_live(q: Seq<QueuedView>, parked: Seq<Option<MessageView>>) -> nat
    decreases q.len(),
{
    if q.len() == 0 {
        0
    } else if q[0].live(parked) {
        0
    } else {
        1 + first_live(q.drop_first(), parked)
    }
}

/// The parked messages after `e` was received: a share takes its message
/// out of its slot.
pub open spec fn taken(parked: Seq<Option<MessageView>>, e: QueuedView) -> Seq<Option<MessageView>> {
    match e {
        QueuedView::Share(slot, _) => parked.update(slot as int, None),
        QueuedView::Own(_) => parked,
    }
}

/// `first_live` is the first live entry, and every entry before it is dead.
pub proof fn lemma_first_live(q: Seq<QueuedView>, parked: Seq<Option<MessageView>>)
    ensures
        first_live(q, parked) <= q.len(),
        first_live(q, parked) < q.len() ==> q[first_live(q, parked) as int].live(parked),
        forall|j: int| 0 <= j < first_live(q, parked) ==> !(#[trigger] q[j]).live(parked),
    decreases q.len(),
{
    if q.len() > 0 && !q[0].live(parked) {
        lemma_first_live(q.drop_first(), parked);
        assert forall|j: int| 0 <= j < first_live(q, parked) implies !(#[trigger] q[j]).live(parked) by {
            if j > 0 {
                assert(q[j] == q.drop_first()[j - 1]);
            }
        }
    }
}

/// `m` with its source set to net `sid`, endpoint `eid`.
pub open spec fn stamped(m: MessageView, sid: u64, eid: u64) -> MessageView {
    MessageView { srcsid: sid, srceid: eid, ..m }
}

/// What a net holds: its own id, its endpoints, the sync messages parked
/// for their first receiver, and the next endpoint id it will try.
pub struct NetView {
    pub serveraddr: u64,
    pub mailboxes: Seq<MailboxView>,
    pub parked: Seq<Option<MessageView>>,
    pub next_key: u64,
}

impl NetView {
    /// Every share in a queue names a slot below `k`.
    pub open spec fn shares_below(self, k: nat) -> bool {
        forall|i: int, j: int|
            0 <= i < self.mailboxes.len() && 0 <= j < self.mailboxes[i].queue.len() ==> match #[trigger] self.mailboxes[i].queue[j] {
                QueuedView::Share(slot, _) => slot < k,
                QueuedView::Own(_) => true,
            }
    }

    /// Some endpoint has key `key`.
    pub open spec fn has_key(self, key: u64) -> bool {
        exists|i: int| 0 <= i < self.mailboxes.len() && self.mailboxes[i].key == key
    }

    /// Some endpoint has endpoint id `eid`.
    pub open spec fn eid_used(self, eid: u64) -> bool {
        exists|j: int| 0 <= j < self.mailboxes.len() && #[trigger] self.mailboxes[j].eid == eid
    }

    /// Both nets hold endpoints with the same keys.
    pub open spec fn same_keys(self, other: NetView) -> bool {
        forall|k: u64| #[trigger] self.has_key(k) == other.has_key(k)
    }

    /// The index of the endpoint with key `key`.
    pub open spec fn index_of(self, key: u64) -> int {
        choose|i: int| 0 <= i < self.mailboxes.len() && self.mailboxes[i].key == key
    }

    /// The well-formed states: keys unique and below `next_key`, every share
    /// names an existing slot, every endpoint has a handle.
    pub open spec fn wf(self) -> bool {
        &&& forall|i: int, j: int|
            0 <= i < self.mailboxes.len() && 0 <= j < self.mailboxes.len() && i != j
                ==> #[trigger] self.mailboxes[i].key != #[trigger] self.mailboxes[j].key
        &&& forall|i: int| 0 <= i < self.mailboxes.len() ==> #[trigger] self.mailboxes[i].key < self.next_key
        &&& forall|i: int| 0 <= i < self.mailboxes.len() ==> #[trigger] self.mailboxes[i].refcnt >= 1
        &&& forall|i: int, j: int|
            0 <= i < self.mailboxes.len() && 0 <= j < self.mailboxes[i].queue.len() ==> match #[trigger] self.mailboxes[i].queue[j] {
                QueuedView::Share(slot, _) => slot < self.parked.len(),
                QueuedView::Own(_) => true,
            }
    }

    /// The net after endpoint `i` received, and what it received. Entries
    /// are taken from the front of its queue until one yields a message (a
    /// share whose message another endpoint took yields none); the bytes of
    /// each entry taken stop counting as used.
    pub open spec fn after_recv(self, i: int) -> (NetView, Option<MessageView>) {
        let mb = self.mailboxes[i];
        let q = mb.queue;
        let j = first_live(q, self.parked) as int;
        if j >= q.len() {
            (
                NetView {
                    mailboxes: self.mailboxes.update(
                        i,
                        MailboxView { queue: Seq::empty(), memoryused: sat_sub(mb.memoryused, caps(q)), ..mb },
                    ),
                    ..self
                },
                None,
            )
        } else {
            (
                NetView {
                    mailboxes: self.mailboxes.update(
                        i,
                        MailboxView {
                            queue: q.skip(j + 1 as int),
                            memoryused: sat_sub(mb.memoryused, caps(q.take(j + 1 as int))),
                            ..mb
                        },
                    ),
                    parked: taken(self.parked, q[j as int]),
                    ..self
                },
                Some(q[j as int].content(self.parked)),
            )
        }
    }

    /// The net after one more handle to the endpoint at index `i` is taken
    /// (a count at the largest `usize` stays there).
    pub open spec fn after_retain(self, i: int) -> NetView {
        let mb = self.mailboxes[i];
        NetView {
            mailboxes: self.mailboxes.update(i, MailboxView { refcnt: sat_add(mb.refcnt, 1), ..mb }),
            ..self
        }
    }

    /// The net after a handle to the endpoint at index `i` is dropped: the
    /// last handle takes the endpoint out of the net.
    pub open spec fn after_release(self, i: int) -> NetView {
        let mb = self.mailboxes[i];
        if mb.refcnt == 1 {
            NetView { mailboxes: self.mailboxes.remove(i), ..self }
        } else {
            NetView {
                mailboxes: self.mailboxes.update(i, MailboxView { refcnt: (mb.refcnt - 1) as nat, ..mb }),
                ..self
            }
        }
    }

    /// The net after `m` is offered to the endpoint at index `i` alone: it
    /// gets the entry `Net::send` would give it, and a sync message it takes
    /// is parked in a new slot.
    pub open spec fn after_give(self, i: int, m: MessageView) -> NetView {
        let mb = self.mailboxes[i];
        NetView {
            mailboxes: self.mailboxes.update(i, mb.offered(m, self.serveraddr, entry_for(m, self.parked.len()))),
            parked: if m.payload is Sync && mb.accepts(m, self.serveraddr) {
                self.parked.push(Some(m))
            } else {
                self.parked
            },
            ..self
        }
    }

    /// The net after `m` is offered to each endpoint in turn.
    pub open spec fn after_send(self, m: MessageView) -> NetView {
        let e = entry_for(m, self.parked.len());
        NetView {
            mailboxes: self.mailboxes.map_values(|mb: MailboxView| mb.offered(m, self.serveraddr, e)),
            parked: if m.payload is Sync && accepted(self.mailboxes, m, self.serveraddr) > 0 {
                self.parked.push(Some(m))
            } else {
                self.parked
            },
            ..self
        }
    }
}

/// Receiving keeps a net well formed.
pub proof fn lemma_after_recv_wf(o: NetView, i: int)
    requires
        o.wf(),
        0 <= i < o.mailboxes.len(),
    ensures
        o.after_recv(i).0.wf(),
{
    let n = o.after_recv(i).0;
    let q = o.mailboxes[i].queue;
    let j = first_live(q, o.parked) as int;
    assert forall|a: int, b: int|
        0 <= a < n.mailboxes.len() && 0 <= b < n.mailboxes[a].queue.len() implies match #[trigger] n.mailboxes[a].queue[b] {
            QueuedView::Share(sl, _) => sl < n.parked.len(),
            QueuedView::Own(_) => true,
        } by {
        if a == i {
            assert(n.mailboxes[a].queue[b] == q[b + j + 1]);
            assert(match o.mailboxes[a].queue[b + j + 1] {
                QueuedView::Share(sl, _) => sl < o.parked.len(),
                QueuedView::Own(_) => true,
            });
        } else {
            assert(n.mailboxes[a] == o.mailboxes[a]);
            assert(match o.mailboxes[a].queue[b] {
                QueuedView::Share(sl, _) => sl < o.parked.len(),
                QueuedView::Own(_) => true,
            });
        }
    }
    assert forall|a: int, b: int|
        0 <= a < n.mailboxes.len() && 0 <= b < n.mailboxes.len() && a != b implies #[trigger] n.mailboxes[a].key != #[trigger] n.mailboxes[b].key by {
        assert(o.mailboxes[a].key != o.mailboxes[b].key);
    }
    assert forall|a: int| 0 <= a < n.mailboxes.len() implies #[trigger] n.mailboxes[a].key < n.next_key && n.mailboxes[a].refcnt >= 1 by {
        assert(o.mailboxes[a].key < o.next_key);
        assert(o.mailboxes[a].refcnt >= 1);
    }
}

/// Replacing an endpoint's state by one with the same key and queue and at
/// least one handle keeps a net well formed.
pub proof fn lemma_wf_update(o: NetView, i: int, mb: MailboxView)
    requires
        o.wf(),
        0 <= i < o.mailboxes.len(),
        mb.key == o.mailboxes[i].key,
        mb.queue == o.mailboxes[i].queue,
        mb.refcnt >= 1,
    ensures
        (NetView { mailboxes: o.mailboxes.update(i, mb), ..o }).wf(),
{
    let n = NetView { mailboxes: o.mailboxes.update(i, mb), ..o };
    assert forall|a: int, b: int|
        0 <= a < n.mailboxes.len() && 0 <= b < n.mailboxes[a].queue.len() implies match #[trigger] n.mailboxes[a].queue[b] {
            QueuedView::Share(sl, _) => sl < n.parked.len(),
            QueuedView::Own(_) => true,
        } by {
        assert(n.mailboxes[a].queue == o.mailboxes[a].queue);
    }
    assert forall|a: int, b: int|
        0 <= a < n.mailboxes.len() && 0 <= b < n.mailboxes.len() && a != b implies #[trigger] n.mailboxes[a].key != #[trigger] n.mailboxes[b].key by {
        assert(o.mailboxes[a].key != o.mailboxes[b].key);
    }
    assert forall|a: int| 0 <= a < n.mailboxes.len() implies #[trigger] n.mailboxes[a].key < n.next_key && n.mailboxes[a].refcnt >= 1 by {
        assert(o.mailboxes[a].key < o.next_key);
        assert(o.mailboxes[a].refcnt >= 1);
    }
}

/// Taking an endpoint out keeps a net well formed.
pub proof fn lemma_wf_remove(o: NetView, i: int)
    requires
        o.wf(),
        0 <= i < o.mailboxes.len(),
    ensures
        (NetView { mailboxes: o.mailboxes.remove(i), ..o }).wf(),
{
    let n = NetView { mailboxes: o.mailboxes.remove(i), ..o };
    assert forall|a: int| 0 <= a < n.mailboxes.len() implies #[trigger] n.mailboxes[a] == o.mailboxes[if a < i {
        a
    } else {
        a + 1
    }] by {}
    assert forall|a: int, b: int|
        0 <= a < n.mailboxes.len() && 0 <= b < n.mailboxes[a].queue.len() implies match #[trigger] n.mailboxes[a].queue[b] {
            QueuedView::Share(sl, _) => sl < n.parked.len(),
            QueuedView::Own(_) => true,
        } by {
        let a0 = if a < i { a } else { a + 1 };
        assert(n.mailboxes[a] == o.mailboxes[a0]);
        assert(match o.mailboxes[a0].queue[b] {
            QueuedView::Share(sl, _) => sl < o.parked.len(),
            QueuedView::Own(_) => true,
        });
    }
    assert forall|a: int, b: int|
        0 <= a < n.mailboxes.len() && 0 <= b < n.mailboxes.len() && a != b implies #[trigger] n.mailboxes[a].key != #[trigger] n.mailboxes[b].key by {
        let a0 = if a < i { a } else { a + 1 };
        let b0 = if b < i { b } else { b + 1 };
        assert(n.mailboxes[a] == o.mailboxes[a0]);
        assert(n.mailboxes[b] == o.mailboxes[b0]);
        assert(o.mailboxes[a0].key != o.mailboxes[b0].key);
    }
    assert forall|a: int| 0 <= a < n.mailboxes.len() implies #[trigger] n.mailboxes[a].key < n.next_key && n.mailboxes[a].refcnt >= 1 by {
        let a0 = if a < i { a } else { a + 1 };
        assert(n.mailboxes[a] == o.mailboxes[a0]);
        assert(o.mailboxes[a0].key < o.next_key);
        assert(o.mailboxes[a0].refcnt >= 1);
    }
}

/// A net: the endpoints that can reach each other, under one net id.
pub struct Net {
    serveraddr: u64,
    endpoints: Vec<Mailbox>,
    parked: Vec<Option<Message>>,
    next_key: u64,
}

pub open spec fn parked_view(o: Option<Message>) -> Option<MessageView> {
    match o {
        Some(m) => Some(m@),
        None => None,
    }
}

impl View for Net {
    type V = NetView;

    closed spec fn view(&self) -> NetView {
        NetView {
            serveraddr: self.serveraddr,
            mailboxes: self.endpoints@.map_values(|mb: Mailbox| mb@),
            parked: self.parked@.map_values(|o: Option<Message>| parked_view(o)),
            next_key: self.next_key,
        }
    }
}

/// An endpoint as it is registered: no queue, no limits, no group, no wake-up
/// time, one handle.
pub open spec fn fresh_mailbox(key: u64, sid: u64, eid: u64) -> MailboxView {
    MailboxView {
        key,
        sid,
        eid,
        gid: UNUSED_ID,
        queue: Seq::empty(),
        wakeupat: Timespec { sec: i64::MAX, nsec: 0 },
        memoryused: 0,
        limitpending: 0,
        limitmemory: 0,
        refcnt: 1,
    }
}

/// At most every endpoint accepts, and if one does, the count is not zero.
pub proof fn lemma_accepted_bounds(mbs: Seq<MailboxView>, m: MessageView, serveraddr: u64)
    ensures
        accepted(mbs, m, serveraddr) <= mbs.len(),
        (exists|j: int| 0 <= j < mbs.len() && #[trigger] mbs[j].accepts(m, serveraddr))
            ==> accepted(mbs, m, serveraddr) > 0,
    decreases mbs.len(),
{
    if mbs.len() > 0 {
        lemma_accepted_bounds(mbs.drop_last(), m, serveraddr);
        if exists|j: int| 0 <= j < mbs.len() && #[trigger] mbs[j].accepts(m, serveraddr) {
            let j = choose|j: int| 0 <= j < mbs.len() && #[trigger] mbs[j].accepts(m, serveraddr);
            if j < mbs.len() - 1 {
                assert(mbs.drop_last()[j].accepts(m, serveraddr));
            }
        }
    }
}

impl Mailbox {
    fn new(key: u64, sid: u64, eid: u64) -> (r: Mailbox)
        ensures
            r@ == fresh_mailbox(key, sid, eid),
    {
        let r = Mailbox {
            key,
            sid,
            eid,
            gid: UNUSED_ID,
            messages: VecDeque::new(),
            wakeupat: Timespec::never(),
            memoryused: 0,
            limitpending: 0,
            limitmemory: 0,
            refcnt: 1,
        };
        proof {
            assert(r@.queue =~= Seq::<QueuedView>::empty());
        }
        r
    }

    /// Whether the endpoint takes `m` when it is offered, on a net whose own
    /// id is `serveraddr`.
    fn accepts(&self, m: &Message, serveraddr: u64) -> (r: bool)
        ensures
            r == self@.accepts(m@, serveraddr),
    {
        if !m.canloop && m.srceid == self.eid && m.srcsid == self.sid {
            return false;
        }
        if m.dstsid != 0 {
            if m.dstsid != 1 {
                if m.dstsid != self.sid {
                    return false;
                }
            } else if self.sid != serveraddr {
                return false;
            }
        }
        if m.dsteid != 0 && m.dsteid != self.eid {
            return false;
        }
        if self.limitpending > 0 && self.messages.len() >= self.limitpending {
            return false;
        }
        if self.limitmemory > 0 && self.memoryused >= self.limitmemory {
            return false;
        }
        true
    }

    /// Puts `e` at the end of the queue and counts its bytes as used.
    fn enqueue(&mut self, e: Queued)
        ensures
            final(self)@ == old(self)@.enqueued(e@),
    {
        let c = e.cap();
        self.memoryused = self.memoryused.saturating_add(c);
        self.messages.push_back(e);
        proof {
            assert(self@.queue =~= old(self)@.queue.push(e@));
        }
    }
}

impl Net {
    /// A net with id `sid` and no endpoints.
    pub fn new(sid: u64) -> (r: Net)
        ensures
            r@ == (NetView {
                serveraddr: sid,
                mailboxes: Seq::empty(),
                parked: Seq::empty(),
                next_key: FIRST_EID,
            }),
            r@.wf(),
    {
        let r = Net { serveraddr: sid, endpoints: Vec::new(), parked: Vec::new(), next_key: FIRST_EID };
        proof {
            assert(r@.mailboxes =~= Seq::<MailboxView>::empty());
            assert(r@.parked =~= Seq::<Option<MessageView>>::empty());
        }
        r
    }

    /// The net's own id.
    pub fn getserveraddr(&self) -> (r: u64)
        ensures
            r == self@.serveraddr,
    {
        self.serveraddr
    }

    /// How many endpoints the net holds.
    pub fn getepcount(&self) -> (r: usize)
        ensures
            r == self@.mailboxes.len(),
    {
        self.endpoints.len()
    }

    /// The index of the endpoint with key `key`, if there is one.
    pub(crate) fn find(&self, key: u64) -> (r: Option<usize>)
        requires
            self@.wf(),
        ensures
            r is None ==> !self@.has_key(key),
            r matches Some(i) ==> i < self@.mailboxes.len() && self@.mailboxes[i as int].key == key
                && self@.index_of(key) == i,
    {
        let mut i: usize = 0;
        while i < self.endpoints.len()
            invariant
                i <= self@.mailboxes.len(),
                self@.mailboxes.len() == self.endpoints@.len(),
                self@.wf(),
                forall|j: int| 0 <= j < i ==> #[trigger] self@.mailboxes[j].key != key,
            decreases self.endpoints@.len() - i,
        {
            if self.endpoints[i].key == key {
                proof {
                    assert(self@.mailboxes[i as int].key == key);
                    let k = self@.index_of(key);
                    assert(self@.mailboxes[k].key == key);
                    if k != i as int {
                        assert(self@.mailboxes[k].key != self@.mailboxes[i as int].key);
                    }
                }
                return Some(i);
            }
            i = i + 1;
        }
        None
    }

    /// Whether some endpoint has endpoint id `eid`.
    fn eid_in_use(&self, eid: u64) -> (r: bool)
        ensures
            r == self@.eid_used(eid),
    {
        let mut i: usize = 0;
        while i < self.endpoints.len()
            invariant
                i <= self@.mailboxes.len(),
                self@.mailboxes.len() == self.endpoints@.len(),
                forall|j: int| 0 <= j < i ==> #[trigger] self@.mailboxes[j].eid != eid,
            decreases self.endpoints@.len() - i,
        {
            if self.endpoints[i].eid == eid {
                proof {
                    assert(self@.mailboxes[i as int].eid == eid);
                }
                return true;
            }
            i = i + 1;
        }
        false
    }

    /// Adds an endpoint with key `key` at net `sid`, endpoint `eid`.
    fn register(&mut self, key: u64, sid: u64, eid: u64)
        requires
            old(self)@.wf(),
            old(self)@.next_key <= key < u64::MAX,
        ensures
            final(self)@ == (NetView {
                mailboxes: old(self)@.mailboxes.push(fresh_mailbox(key, sid, eid)),
                next_key: (key + 1) as u64,
                ..old(self)@
            }),
            final(self)@.wf(),
    {
        self.endpoints.push(Mailbox::new(key, sid, eid));
        self.next_key = key + 1;
        proof {
            assert(self@.mailboxes =~= old(self)@.mailboxes.push(fresh_mailbox(key, sid, eid)));
            assert(self@.parked =~= old(self)@.parked);
        }
    }

    /// Adds an endpoint at net `sid`, endpoint `eid`, and returns its key; or
    /// `None` when the net has handed out every key.
    pub(crate) fn add_endpoint(&mut self, sid: u64, eid: u64) -> (r: Option<u64>)
        requires
            old(self)@.wf(),
        ensures
            final(self)@.wf(),
            r is None <==> old(self)@.next_key == u64::MAX,
            r is None ==> final(self)@ == old(self)@,
            r matches Some(k) ==> k == old(self)@.next_key && final(self)@ == (NetView {
                mailboxes: old(self)@.mailboxes.push(fresh_mailbox(k, sid, eid)),
                next_key: (k + 1) as u64,
                ..old(self)@
            }),
    {
        if self.next_key == u64::MAX {
            return None;
        }
        let key = self.next_key;
        self.register(key, sid, eid);
        Some(key)
    }

    /// Adds an endpoint at the net's own id, with an endpoint id that no
    /// endpoint of the net has, and returns its key (which is also its
    /// endpoint id); or `None` when no such id is left.
    pub(crate) fn add_fresh_endpoint(&mut self) -> (r: Option<u64>)
        requires
            old(self)@.wf(),
        ensures
            final(self)@.wf(),
            r is None ==> final(self)@ == old(self)@,
            r is None ==> forall|c: u64|
                old(self)@.next_key <= c < u64::MAX ==> #[trigger] old(self)@.eid_used(c),
            old(self)@.next_key < u64::MAX && !old(self)@.eid_used(old(self)@.next_key) ==> r is Some
                && r->Some_0 == old(self)@.next_key,
            r matches Some(k) ==> {
                &&& old(self)@.next_key <= k
                &&& forall|j: int| 0 <= j < old(self)@.mailboxes.len() ==> #[trigger] old(self)@.mailboxes[j].eid != k
                &&& final(self)@ == (NetView {
                    mailboxes: old(self)@.mailboxes.push(fresh_mailbox(k, old(self)@.serveraddr, k)),
                    next_key: (k + 1) as u64,
                    ..old(self)@
                })
            },
    {
        let mut c = self.next_key;
        while c < u64::MAX && self.eid_in_use(c)
            invariant
                self.next_key <= c,
                forall|d: u64| self.next_key <= d < c ==> #[trigger] self@.eid_used(d),
            decreases u64::MAX - c,
        {
            c = c + 1;
        }
        if c == u64::MAX {
            proof {
                assert(self@.eid_used(self@.next_key) || self@.next_key == u64::MAX);
            }
            return None;
        }
        let sid = self.serveraddr;
        self.register(c, sid, c);
        Some(c)
    }

    /// Offers `msg` to every endpoint, as it is, and returns how many took
    /// it. Each endpoint that accepts it gets a copy that may not loop back;
    /// for a sync message each gets a share instead, and the message is
    /// parked for the first of them to receive it.
    pub fn send(&mut self, msg: Message) -> (r: usize)
        requires
            old(self)@.wf(),
        ensures
            final(self)@ == old(self)@.after_send(msg@),
            r == accepted(old(self)@.mailboxes, msg@, old(self)@.serveraddr),
            final(self)@.wf(),
    {
        let ghost m = msg@;
        let ghost old_mbs = self@.mailboxes;
        let slot = self.parked.len();
        let cap = msg.cap();
        let is_sync = msg.is_sync();
        let sa = self.serveraddr;
        let ghost e = entry_for(m, slot as nat);
        let mut count: usize = 0;
        let mut i: usize = 0;
        while i < self.endpoints.len()
            invariant
                self@.serveraddr == old(self)@.serveraddr,
                self@.next_key == old(self)@.next_key,
                self@.parked == old(self)@.parked,
                self.parked@.len() == slot,
                sa == self@.serveraddr,
                m == msg@,
                is_sync == (m.payload is Sync),
                cap == m.cap(),
                e == entry_for(m, slot as nat),
                old_mbs == old(self)@.mailboxes,
                self@.mailboxes.len() == old_mbs.len(),
                self.endpoints@.len() == old_mbs.len(),
                i <= old_mbs.len(),
                count == accepted(old_mbs.take(i as int), m, sa),
                count <= i,
                forall|j: int| 0 <= j < i ==> #[trigger] self@.mailboxes[j] == old_mbs[j].offered(m, sa, e),
                forall|j: int| i <= j < old_mbs.len() ==> #[trigger] self@.mailboxes[j] == old_mbs[j],
            decreases old_mbs.len() - i,
        {
            proof {
                assert(old_mbs.take(i as int + 1).drop_last() =~= old_mbs.take(i as int));
                assert(old_mbs.take(i as int + 1).last() == old_mbs[i as int]);
            }
            let ghost before = self.endpoints@;
            let ghost before_v = self@.mailboxes;
            proof {
                assert(self@.mailboxes[i as int] == old_mbs[i as int]);
                assert(self@.mailboxes[i as int] == before[i as int]@);
            }
            if self.endpoints[i].accepts(&msg, sa) {
                let entry = if is_sync {
                    Queued::Share { slot, cap }
                } else {
                    Queued::Own(msg.clone())
                };
                assert(entry@ == e);
                self.endpoints[i].enqueue(entry);
                count = count + 1;
                proof {
                    assert(before[i as int]@ == old_mbs[i as int]);
                    assert(before[i as int]@.accepts(m, sa));
                    assert(self.endpoints@[i as int]@ == before[i as int]@.enqueued(e));
                    assert(self.endpoints@ == before.update(i as int, self.endpoints@[i as int]));
                    assert(self@.mailboxes[i as int] == old_mbs[i as int].offered(m, sa, e));
                    assert forall|j: int| 0 <= j < old_mbs.len() && j != i implies #[trigger] self@.mailboxes[j] == before_v[j] by {
                        assert(self.endpoints@[j] == before[j]);
                        assert(before_v[j] == before[j]@);
                    }
                }
            }
            i = i + 1;
        }
        proof {
            assert(old_mbs.take(old_mbs.len() as int) =~= old_mbs);
            assert(self@.mailboxes =~= old_mbs.map_values(|mb: MailboxView| mb.offered(m, sa, e)));
            lemma_accepted_bounds(old_mbs, m, sa);
        }
        if is_sync && count > 0 {
            self.parked.push(Some(msg));
            proof {
                assert(self@.parked =~= old(self)@.parked.push(Some(m)));
            }
        }
        proof {
            let n = self@;
            let o = old(self)@;
            assert forall|a: int, b: int|
                0 <= a < n.mailboxes.len() && 0 <= b < n.mailboxes[a].queue.len() implies match #[trigger] n.mailboxes[a].queue[b] {
                    QueuedView::Share(sl, _) => sl < n.parked.len(),
                    QueuedView::Own(_) => true,
                } by {
                if b < o.mailboxes[a].queue.len() {
                    assert(n.mailboxes[a].queue[b] == o.mailboxes[a].queue[b]);
                } else {
                    assert(o.mailboxes[a].accepts(m, sa));
                }
            }
        }
        count
    }

    /// Endpoint `i` receives: see `NetView::after_recv`.
    pub(crate) fn recv_at(&mut self, i: usize) -> (r: Option<Message>)
        requires
            old(self)@.wf(),
            i < old(self)@.mailboxes.len(),
        ensures
            final(self)@ == old(self)@.after_recv(i as int).0,
            parked_view(r) == old(self)@.after_recv(i as int).1,
            final(self)@.wf(),
    {
        let ghost o = self@;
        let ghost mb = self@.mailboxes[i as int];
        let ghost q = mb.queue;
        let ghost parked = self@.parked;
        let ghost fl = first_live(q, parked);
        proof {
            lemma_first_live(q, parked);
        }
        let ghost mut k: int = 0;
        proof {
            assert(q.skip(0) =~= q);
            assert(q.take(0).len() == 0);
            assert(self@.mailboxes =~= o.mailboxes.update(
                0int + i as int,
                MailboxView { queue: q.skip(0), memoryused: sat_sub(mb.memoryused, caps(q.take(0))), ..mb },
            ));
        }
        loop
            invariant
                o == old(self)@,
                mb == o.mailboxes[i as int],
                q == mb.queue,
                parked == o.parked,
                fl == first_live(q, parked),
                fl <= q.len(),
                fl < q.len() ==> q[fl as int].live(parked),
                forall|j: int| 0 <= j < fl ==> !(#[trigger] q[j]).live(parked),
                0 <= k <= fl,
                i < self.endpoints@.len(),
                i < o.mailboxes.len(),
                o.wf(),
                self.endpoints@.len() == o.mailboxes.len(),
                self@ == (NetView {
                    mailboxes: o.mailboxes.update(
                        i as int,
                        MailboxView {
                            queue: q.skip(k),
                            memoryused: sat_sub(mb.memoryused, caps(q.take(k))),
                            ..mb
                        },
                    ),
                    ..o
                }),
            decreases q.len() - k,
        {
            let ghost before = self.endpoints@;
            let ghost before_v = self@.mailboxes;
            proof {
                lemma_after_recv_wf(o, i as int);
                assert(self@.mailboxes[i as int] == before[i as int]@);
                assert(before[i as int]@.queue == q.skip(k));
                assert(before[i as int]@.queue.len() == before[i as int].messages@.len());
            }
            let popped = self.endpoints[i].messages.pop_front();
            match popped {
                None => {
                    proof {
                        assert(q.skip(k).len() == 0);
                        assert(q.take(k) =~= q);
                        assert(q.skip(k) =~= Seq::<QueuedView>::empty());
                        assert(self.endpoints@[i as int]@.queue =~= before[i as int]@.queue);
                        assert(self.endpoints@[i as int]@ == before[i as int]@);
                        assert(self.endpoints@ == before.update(i as int, self.endpoints@[i as int]));
                        assert(self@.mailboxes =~= o.after_recv(i as int).0.mailboxes);
                        assert(self@.parked =~= o.after_recv(i as int).0.parked);
                    }
                    return None;
                },
                Some(e) => {
                    let c = e.cap();
                    let used = self.endpoints[i].memoryused;
                    self.endpoints[i].memoryused = used.saturating_sub(c);
                    proof {
                        assert(q.skip(k)[0] == q[k]);
                        assert(before[i as int]@.queue[0] == before[i as int].messages@[0]@);
                        assert(e@ == q[k]);
                        assert(q.take(k + 1).drop_last() =~= q.take(k));
                        assert(caps(q.take(k + 1)) == caps(q.take(k)) + q[k].cap());
                        assert(q.skip(k).drop_first() =~= q.skip(k + 1));
                        assert(self.endpoints@ == before.update(i as int, self.endpoints@[i as int]));
                        let nb = self.endpoints@[i as int]@;
                        assert(nb.queue =~= q.skip(k + 1));
                        assert(nb == (MailboxView {
                            queue: q.skip(k + 1),
                            memoryused: sat_sub(mb.memoryused, caps(q.take(k + 1))),
                            ..mb
                        }));
                        assert forall|j: int| 0 <= j < o.mailboxes.len() && j != i implies #[trigger] self@.mailboxes[j] == o.mailboxes[j] by {
                            assert(self.endpoints@[j] == before[j]);
                            assert(before_v[j] == before[j]@);
                        }
                        assert(self@.mailboxes =~= o.mailboxes.update(
                            i as int,
                            MailboxView {
                                queue: q.skip(k + 1),
                                memoryused: sat_sub(mb.memoryused, caps(q.take(k + 1))),
                                ..mb
                            },
                        ));
                    }
                    match e {
                        Queued::Own(m) => {
                            proof {
                                assert(k == fl);
                                assert(self.endpoints@ == before.update(i as int, self.endpoints@[i as int]));
                                assert(self@.mailboxes =~= o.after_recv(i as int).0.mailboxes);
                                assert(self@.parked =~= o.after_recv(i as int).0.parked);
                            }
                            return Some(m);
                        },
                        Queued::Share { slot, cap: _ } => {
                            if slot < self.parked.len() && self.parked[slot].is_some() {
                                proof {
                                    assert(self@.parked[slot as int] == parked_view(self.parked@[slot as int]));
                                    assert(q[k].live(parked));
                                    assert(k == fl);
                                }
                                let taken_msg = self.parked[slot].take();
                                proof {
                                    assert(self.endpoints@ == before.update(i as int, self.endpoints@[i as int]));
                                    assert(self@.mailboxes =~= o.after_recv(i as int).0.mailboxes);
                                    assert(self@.parked =~= o.after_recv(i as int).0.parked);
                                }
                                return taken_msg;
                            }
                            proof {
                                assert(!q[k].live(parked));
                                assert(self.endpoints@ == before.update(i as int, self.endpoints@[i as int]));
                                let nb = self.endpoints@[i as int]@;
                                assert(nb.queue =~= q.skip(k + 1));
                                assert(nb.memoryused == sat_sub(mb.memoryused, caps(q.take(k + 1))));
                                assert(nb == (MailboxView {
                                    queue: q.skip(k + 1),
                                    memoryused: sat_sub(mb.memoryused, caps(q.take(k + 1))),
                                    ..mb
                                }));
                                assert forall|j: int| 0 <= j < o.mailboxes.len() && j != i implies #[trigger] self@.mailboxes[j] == o.mailboxes[j] by {
                                    assert(self.endpoints@[j] == before[j]);
                                    assert(before_v[j] == before[j]@);
                                }
                                k = k + 1;
                                assert(self@.mailboxes =~= o.mailboxes.update(
                                    i as int,
                                    MailboxView {
                                        queue: q.skip(k),
                                        memoryused: sat_sub(mb.memoryused, caps(q.take(k))),
                                        ..mb
                                    },
                                ));
                            }
                        },
                    }
                },
            }
        }
    }

    /// Sets the source of `msg` to net `sid`, endpoint `eid`, then sends it.
    pub fn sendas(&mut self, msg: Message, sid: u64, eid: u64) -> (r: usize)
        requires
            old(self)@.wf(),
        ensures
            final(self)@ == old(self)@.after_send(stamped(msg@, sid, eid)),
            r == accepted(old(self)@.mailboxes, stamped(msg@, sid, eid), old(self)@.serveraddr),
            final(self)@.wf(),
    {
        let mut msg = msg;
        msg.srcsid = sid;
        msg.srceid = eid;
        self.send(msg)
    }

    /// The endpoint at index `i`.
    pub(crate) fn mailbox(&self, i: usize) -> (r: &Mailbox)
        requires
            i < self@.mailboxes.len(),
        ensures
            r@ == self@.mailboxes[i as int],
    {
        &self.endpoints[i]
    }

    /// Sets the address, wake-up time and limits of the endpoint at index
    /// `i`.
    pub(crate) fn set_fields(
        &mut self,
        i: usize,
        sid: u64,
        eid: u64,
        gid: u64,
        wakeupat: Timespec,
        limitpending: usize,
        limitmemory: usize,
    )
        requires
            old(self)@.wf(),
            i < old(self)@.mailboxes.len(),
        ensures
            final(self)@ == (NetView {
                mailboxes: old(self)@.mailboxes.update(
                    i as int,
                    MailboxView {
                        sid,
                        eid,
                        gid,
                        wakeupat,
                        limitpending: limitpending as nat,
                        limitmemory: limitmemory as nat,
                        ..old(self)@.mailboxes[i as int]
                    },
                ),
                ..old(self)@
            }),
            final(self)@.wf(),
    {
        let ghost before = self.endpoints@;
        let mb = &mut self.endpoints[i];
        mb.sid = sid;
        mb.eid = eid;
        mb.gid = gid;
        mb.wakeupat = wakeupat;
        mb.limitpending = limitpending;
        mb.limitmemory = limitmemory;
        proof {
            assert(self.endpoints@ == before.update(i as int, self.endpoints@[i as int]));
            assert(self@.mailboxes =~= old(self)@.mailboxes.update(
                i as int,
                MailboxView {
                    sid,
                    eid,
                    gid,
                    wakeupat,
                    limitpending: limitpending as nat,
                    limitmemory: limitmemory as nat,
                    ..old(self)@.mailboxes[i as int]
                },
            ));
            assert(self@.parked =~= old(self)@.parked);
            lemma_wf_update(
                old(self)@,
                i as int,
                MailboxView {
                    sid,
                    eid,
                    gid,
                    wakeupat,
                    limitpending: limitpending as nat,
                    limitmemory: limitmemory as nat,
                    ..old(self)@.mailboxes[i as int]
                },
            );
        }
    }

    /// Offers `msg` to the endpoint at index `i` alone: see
    /// `NetView::after_give`.
    pub(crate) fn give_at(&mut self, i: usize, msg: &Message) -> (r: bool)
        requires
            old(self)@.wf(),
            i < old(self)@.mailboxes.len(),
        ensures
            r == old(self)@.mailboxes[i as int].accepts(msg@, old(self)@.serveraddr),
            final(self)@ == old(self)@.after_give(i as int, msg@),
            final(self)@.wf(),
    {
        let sa = self.serveraddr;
        if !self.endpoints[i].accepts(msg, sa) {
            proof {
                assert(old(self)@.mailboxes.update(i as int, old(self)@.mailboxes[i as int]) =~= old(self)@.mailboxes);
            }
            return false;
        }
        let ghost e = entry_for(msg@, self@.parked.len());
        let ghost before = self.endpoints@;
        let entry = if msg.is_sync() {
            let slot = self.parked.len();
            let cap = msg.cap();
            self.parked.push(Some(msg.internal_clone()));
            Queued::Share { slot, cap }
        } else {
            Queued::Own(msg.clone())
        };
        assert(entry@ == e);
        self.endpoints[i].enqueue(entry);
        proof {
            assert(self.endpoints@ == before.update(i as int, self.endpoints@[i as int]));
            assert(self@.mailboxes =~= old(self)@.after_give(i as int, msg@).mailboxes);
            assert(self@.parked =~= old(self)@.after_give(i as int, msg@).parked);
            let n = self@;
            let o = old(self)@;
            assert forall|a: int, b: int|
                0 <= a < n.mailboxes.len() && 0 <= b < n.mailboxes[a].queue.len() implies match #[trigger] n.mailboxes[a].queue[b] {
                    QueuedView::Share(sl, _) => sl < n.parked.len(),
                    QueuedView::Own(_) => true,
                } by {
                if a != i || b < o.mailboxes[a].queue.len() {
                    assert(n.mailboxes[a].queue[b] == o.mailboxes[a].queue[b]);
                }
            }
        }
        true
    }

    /// One more handle to the endpoint at index `i` (a count at the largest
    /// `usize` stays there).
    pub(crate) fn retain_at(&mut self, i: usize)
        requires
            old(self)@.wf(),
            i < old(self)@.mailboxes.len(),
        ensures
            final(self)@ == old(self)@.after_retain(i as int),
            final(self)@.wf(),
    {
        let ghost before = self.endpoints@;
        let c = self.endpoints[i].refcnt;
        self.endpoints[i].refcnt = c.saturating_add(1);
        proof {
            assert(self.endpoints@ == before.update(i as int, self.endpoints@[i as int]));
            assert(self@.mailboxes =~= old(self)@.mailboxes.update(
                i as int,
                MailboxView {
                    refcnt: sat_add(old(self)@.mailboxes[i as int].refcnt, 1),
                    ..old(self)@.mailboxes[i as int]
                },
            ));
            assert(self@.parked =~= old(self)@.parked);
            lemma_wf_update(
                old(self)@,
                i as int,
                MailboxView {
                    refcnt: sat_add(old(self)@.mailboxes[i as int].refcnt, 1),
                    ..old(self)@.mailboxes[i as int]
                },
            );
        }
    }

    /// One handle fewer to the endpoint at index `i`; when it was the last,
    /// the endpoint leaves the net, with its queue.
    pub(crate) fn release_at(&mut self, i: usize)
        requires
            old(self)@.wf(),
            i < old(self)@.mailboxes.len(),
        ensures
            final(self)@ == old(self)@.after_release(i as int),
            final(self)@.wf(),
    {
        let c = self.endpoints[i].refcnt;
        let ghost before = self.endpoints@;
        proof {
            assert(self@.mailboxes[i as int].refcnt >= 1);
            assert(self@.mailboxes[i as int] == self.endpoints@[i as int]@);
        }
        if c == 1 {
            let _gone = self.endpoints.remove(i);
            proof {
                assert(self@.mailboxes =~= old(self)@.mailboxes.remove(i as int));
                assert(self@.parked =~= old(self)@.parked);
                lemma_wf_remove(old(self)@, i as int);
            }
        } else {
            self.endpoints[i].refcnt = c - 1;
            proof {
                assert(self.endpoints@ == before.update(i as int, self.endpoints@[i as int]));
                assert(self@.mailboxes =~= old(self)@.mailboxes.update(
                    i as int,
                    MailboxView { refcnt: (old(self)@.mailboxes[i as int].refcnt - 1) as nat, ..old(self)@.mailboxes[i as int] },
                ));
                assert(self@.parked =~= old(self)@.parked);
                lemma_wf_update(
                    old(self)@,
                    i as int,
                    MailboxView { refcnt: (old(self)@.mailboxes[i as int].refcnt - 1) as nat, ..old(self)@.mailboxes[i as int] },
                );
            }
        }
    }
}

/// A message addressed to another net (not `0`, not `1`, not the endpoint's
/// net id) or to another endpoint (not `0`, not the endpoint's id) is never
/// queued there: sending it leaves that endpoint as it was.
pub proof fn lemma_misaddressed_not_delivered(n: NetView, m: MessageView, j: int)
    requires
        0 <= j < n.mailboxes.len(),
        (m.dstsid != 0 && m.dstsid != 1 && m.dstsid != n.mailboxes[j].sid) || (m.dsteid != 0
            && m.dsteid != n.mailboxes[j].eid),
    ensures
        !n.mailboxes[j].accepts(m, n.serveraddr),
        n.after_send(m).mailboxes[j] == n.mailboxes[j],
        n.after_give(j, m).mailboxes[j] == n.mailboxes[j],
        n.after_give(j, m).parked == n.parked,
{
}

/// A raw or clone message sent to the local net (`dstsid` `1`) and to any
/// endpoint (`dsteid` `0`), not allowed to loop back, reaches every endpoint
/// of the local net that has room for it, except its own source: each gets a
/// copy at the end of its queue. Its source gets nothing.
pub proof fn lemma_local_broadcast(n: NetView, m: MessageView, j: int)
    requires
        0 <= j < n.mailboxes.len(),
        !(m.payload is Sync),
        m.dstsid == 1,
        m.dsteid == 0,
        !m.canloop,
    ensures
        n.mailboxes[j].sid == n.serveraddr && n.mailboxes[j].has_room() && !(n.mailboxes[j].sid
            == m.srcsid && n.mailboxes[j].eid == m.srceid) ==> n.after_send(m).mailboxes[j].queue
            == n.mailboxes[j].queue.push(QueuedView::Own(m.no_loop())),
        n.mailboxes[j].sid == m.srcsid && n.mailboxes[j].eid == m.srceid ==> n.after_send(
            m,
        ).mailboxes[j] == n.mailboxes[j],
{
}

/// With a pending limit `k`, a send never takes a queue past `k`: a queue
/// already at `k` or more is left as it was, and a shorter one grows by at
/// most one.
pub proof fn lemma_pending_limit(n: NetView, m: MessageView, j: int)
    requires
        0 <= j < n.mailboxes.len(),
        n.mailboxes[j].limitpending > 0,
    ensures
        n.mailboxes[j].queue.len() >= n.mailboxes[j].limitpending ==> n.after_send(m).mailboxes[j]
            == n.mailboxes[j],
        n.mailboxes[j].queue.len() <= n.mailboxes[j].limitpending ==> n.after_send(
            m,
        ).mailboxes[j].queue.len() <= n.mailboxes[j].limitpending,
        n.mailboxes[j].queue.len() >= n.mailboxes[j].limitpending ==> n.after_give(j, m).mailboxes[j]
            == n.mailboxes[j],
        n.mailboxes[j].queue.len() <= n.mailboxes[j].limitpending ==> n.after_give(
            j,
            m,
        ).mailboxes[j].queue.len() <= n.mailboxes[j].limitpending,
{
}

/// Endpoint `i` receives the sync message parked in `slot`: the first entry
/// of its queue that yields a message is its share in that slot.
pub open spec fn yields_from(n: NetView, i: int, slot: nat) -> bool {
    let q = n.mailboxes[i].queue;
    let j = first_live(q, n.parked);
    j < q.len() && (q[j as int] matches QueuedView::Share(s, _) && s == slot)
}

/// A sync message is received at most once: once an endpoint has received
/// the message parked in a slot, no receive by any endpoint yields from that
/// slot again.
pub proof fn lemma_sync_received_once(n: NetView, i1: int, i2: int, slot: nat)
    requires
        n.wf(),
        0 <= i1 < n.mailboxes.len(),
        0 <= i2 < n.mailboxes.len(),
        yields_from(n, i1, slot),
    ensures
        n.after_recv(i1).1 == n.parked[slot as int],
        n.after_recv(i1).0.parked[slot as int] is None,
        !yields_from(n.after_recv(i1).0, i2, slot),
{
    lemma_first_live(n.mailboxes[i1].queue, n.parked);
    let n1 = n.after_recv(i1).0;
    let q = n1.mailboxes[i2].queue;
    lemma_first_live(q, n1.parked);
    let j = first_live(q, n1.parked);
    if j < q.len() {
        assert(q[j as int].live(n1.parked));
    }
}

/// A sync message that some endpoint takes is parked in a new slot, and
/// every endpoint that takes it holds a share in that slot at the end of its
/// queue; the first of them to reach its share receives the message.
pub proof fn lemma_sync_parked(n: NetView, m: MessageView, j: int)
    requires
        0 <= j < n.mailboxes.len(),
        m.payload is Sync,
        n.mailboxes[j].accepts(m, n.serveraddr),
    ensures
        n.after_send(m).parked == n.parked.push(Some(m)),
        n.after_send(m).mailboxes[j].queue == n.mailboxes[j].queue.push(
            QueuedView::Share(n.parked.len(), m.cap()),
        ),
{
    lemma_accepted_bounds(n.mailboxes, m, n.serveraddr);
}

/// Handles balance: taking a handle and dropping it again leaves the net as
/// it was, and dropping the last handle takes the endpoint out of the net,
/// so that no later drop can reach it again.
pub proof fn lemma_handles_balance(n: NetView, i: int)
    requires
        n.wf(),
        0 <= i < n.mailboxes.len(),
    ensures
        n.mailboxes[i].refcnt < usize::MAX ==> n.after_retain(i).after_release(i) == n,
        n.mailboxes[i].refcnt == 1 ==> !n.after_release(i).has_key(n.mailboxes[i].key),
        n.mailboxes[i].refcnt == 1 ==> n.after_release(i).mailboxes.len() + 1 == n.mailboxes.len(),
{
    let mb = n.mailboxes[i];
    if mb.refcnt < usize::MAX {
        assert(n.after_retain(i).after_release(i).mailboxes =~= n.mailboxes);
    }
    if mb.refcnt == 1 {
        let n2 = n.after_release(i);
        if n2.has_key(mb.key) {
            let a = choose|a: int| 0 <= a < n2.mailboxes.len() && n2.mailboxes[a].key == mb.key;
            let a0 = if a < i { a } else { a + 1 };
            assert(n2.mailboxes[a] == n.mailboxes[a0]);
            assert(n.mailboxes[a0].key != n.mailboxes[i].key);
        }
    }
}

impl Net {
    /// The fewest slots that cover every share: one more than the largest
    /// slot a share names, or zero if no queue holds a share.
    fn share_bound(&self) -> (r: usize)
        requires
            self@.wf(),
        ensures
            r <= self@.parked.len(),
            self@.shares_below(r as nat),
            r == 0 || !self@.shares_below((r - 1) as nat),
    {
        let mut m: usize = 0;
        let ghost mut wa: int = 0;
        let ghost mut wb: int = 0;
        let mut i: usize = 0;
        while i < self.endpoints.len()
            invariant
                self@.wf(),
                i <= self.endpoints@.len(),
                self@.mailboxes.len() == self.endpoints@.len(),
                self.parked@.len() == self@.parked.len(),
                m <= self@.parked.len(),
                forall|a: int, b: int|
                    0 <= a < i && 0 <= b < self@.mailboxes[a].queue.len() ==> match #[trigger] self@.mailboxes[a].queue[b] {
                        QueuedView::Share(slot, _) => slot < m,
                        QueuedView::Own(_) => true,
                    },
                m > 0 ==> (0 <= wa < self@.mailboxes.len() && 0 <= wb < self@.mailboxes[wa].queue.len()
                    && (self@.mailboxes[wa].queue[wb] matches QueuedView::Share(slot, _) && slot == m - 1)),
            decreases self.endpoints@.len() - i,
        {
            let q = &self.endpoints[i].messages;
            let mut j: usize = 0;
            while j < q.len()
                invariant
                    self@.wf(),
                    i < self.endpoints@.len(),
                    self@.mailboxes.len() == self.endpoints@.len(),
                    self.parked@.len() == self@.parked.len(),
                    *q == self.endpoints@[i as int].messages,
                    j <= q@.len(),
                    m <= self@.parked.len(),
                    forall|a: int, b: int|
                        0 <= a < i && 0 <= b < self@.mailboxes[a].queue.len() ==> match #[trigger] self@.mailboxes[a].queue[b] {
                            QueuedView::Share(slot, _) => slot < m,
                            QueuedView::Own(_) => true,
                        },
                    forall|b: int| 0 <= b < j ==> match #[trigger] self@.mailboxes[i as int].queue[b] {
                        QueuedView::Share(slot, _) => slot < m,
                        QueuedView::Own(_) => true,
                    },
                    m > 0 ==> (0 <= wa < self@.mailboxes.len() && 0 <= wb < self@.mailboxes[wa].queue.len()
                        && (self@.mailboxes[wa].queue[wb] matches QueuedView::Share(slot, _) && slot == m - 1)),
                decreases q@.len() - j,
            {
                proof {
                    assert(self@.mailboxes[i as int].queue[j as int] == q@[j as int]@);
                }
                match &q[j] {
                    Queued::Share { slot, cap: _ } => {
                        if *slot >= m {
                            proof {
                                assert(match self@.mailboxes[i as int].queue[j as int] {
                                    QueuedView::Share(sl, _) => sl < self@.parked.len(),
                                    QueuedView::Own(_) => true,
                                });
                                assert((*slot as nat) < self@.parked.len());
                                assert(self.parked.len() == self.parked@.len());
                                wa = i as int;
                                wb = j as int;
                            }
                            m = *slot + 1;
                        }
                    },
                    Queued::Own(_) => {},
                }
                j = j + 1;
            }
            proof {
                assert(self@.mailboxes[i as int].queue.len() == q@.len());
            }
            i = i + 1;
        }
        proof {
            if m > 0 {
                assert(match self@.mailboxes[wa].queue[wb] {
                    QueuedView::Share(slot, _) => !(slot < m - 1),
                    QueuedView::Own(_) => false,
                });
            }
        }
        m
    }

    /// Drops the slots of parked sync messages that no share names any more:
    /// every slot past the last one some queue holds a share in. Returns how
    /// many slots are left.
    pub fn collect_parked(&mut self) -> (r: usize)
        requires
            old(self)@.wf(),
        ensures
            final(self)@.wf(),
            r <= old(self)@.parked.len(),
            old(self)@.shares_below(r as nat),
            r == 0 || !old(self)@.shares_below((r - 1) as nat),
            final(self)@ == (NetView { parked: old(self)@.parked.take(r as int), ..old(self)@ }),
    {
        let m = self.share_bound();
        self.parked.truncate(m);
        proof {
            assert(self@.parked =~= old(self)@.parked.take(m as int));
            assert(self@.mailboxes =~= old(self)@.mailboxes);
        }
        m
    }
}

/// Nets whose endpoints have the same keys, index by index, hold the same
/// keys.
pub proof fn lemma_same_keys(a: NetView, b: NetView)
    requires
        a.mailboxes.len() == b.mailboxes.len(),
        forall|i: int| 0 <= i < a.mailboxes.len() ==> #[trigger] a.mailboxes[i].key == b.mailboxes[i].key,
    ensures
        a.same_keys(b),
{
    assert forall|k: u64| #[trigger] a.has_key(k) == b.has_key(k) by {
        if a.has_key(k) {
            let i = a.index_of(k);
            assert(b.mailboxes[i].key == k);
        }
        if b.has_key(k) {
            let i = b.index_of(k);
            assert(a.mailboxes[i].key == k);
        }
    }
}

} // verus!
