use vstd::prelude::*;

use crate::message::{fresh, Message, MessageView, PayloadView};
use crate::net::{accepted, lemma_same_keys, stamped, MailboxView, Net, NetView, ID};
use crate::nopointers::NoPointers;
use crate::rawmessage::image_buffer;
use crate::timespec::{get_time, Timespec};

verus! {

/// Why a receive failed.
#[derive(Clone, Copy, Debug, PartialEq, Eq, Structural)]
pub enum IoErrorCode {
    /// The deadline passed with nothing to receive.
    TimedOut,
    /// There was nothing to receive.
    NoMessages,
}

/// A failed receive; `code` says why.
#[derive(Clone, Copy, Debug, PartialEq, Eq, Structural)]
pub struct IoError {
    pub code: IoErrorCode,
}

/// The result of a receive.
pub enum IoResult<T> {
    Failure(IoError),
    Value(T),
}

impl<T> IoResult<T> {
    /// The value of a success.
    pub fn ok(self) -> (r: T)
        requires
            self is Value,
        ensures
            self == IoResult::<T>::Value(r),
    {
        match self {
            IoResult::Value(v) => v,
            IoResult::Failure(_) => vstd::pervasive::unreached(),
        }
    }

    /// The error of a failure.
    pub fn err(self) -> (r: IoError)
        requires
            self is Failure,
        ensures
            self == IoResult::<T>::Failure(r),
    {
        match self {
            IoResult::Value(_) => vstd::pervasive::unreached(),
            IoResult::Failure(e) => e,
        }
    }

    pub fn is_ok(&self) -> (r: bool)
        ensures
            r == self is Value,
    {
        match self {
            IoResult::Value(_) => true,
            IoResult::Failure(_) => false,
        }
    }

    pub fn is_err(&self) -> (r: bool)
        ensures
            r == self is Failure,
    {
        match self {
            IoResult::Value(_) => false,
            IoResult::Failure(_) => true,
        }
    }
}

/// `r` is the result that receiving with outcome `out` gives: the message,
/// or `NoMessages` when there was none.
pub open spec fn received(r: IoResult<Message>, out: Option<MessageView>) -> bool {
    match r {
        IoResult::Value(m) => out == Some(m@),
        IoResult::Failure(e) => e.code == IoErrorCode::NoMessages && out is None,
    }
}

/// One step of a receive with a deadline.
pub enum RecvStep {
    /// The receive is over, with this result.
    Done(IoResult<Message>),
    /// Nothing to receive yet and the deadline has not passed: wait and try
    /// again.
    Sleep,
}

/// A handle to an endpoint of a net: a node that sends and receives
/// messages. The net holds the endpoint's state; the handle names it.
pub struct Endpoint {
    key: u64,
}

impl Endpoint {
    /// The key of the endpoint in its net.
    pub closed spec fn key(&self) -> u64 {
        self.key
    }

    /// The endpoint is in net `n`.
    pub open spec fn on(&self, n: NetView) -> bool {
        n.has_key(self.key())
    }

    /// Its index in net `n`.
    pub open spec fn index(&self, n: NetView) -> int {
        n.index_of(self.key())
    }

    /// Its state in net `n`.
    pub open spec fn mb(&self, n: NetView) -> MailboxView {
        n.mailboxes[self.index(n)]
    }

    /// Net `n` with the endpoint's state replaced by `mb`.
    pub open spec fn with(&self, n: NetView, mb: MailboxView) -> NetView {
        NetView { mailboxes: n.mailboxes.update(self.index(n), mb), ..n }
    }

    fn locate(&self, net: &Net) -> (r: usize)
        requires
            net@.wf(),
            self.on(net@),
        ensures
            r == self.index(net@),
            r < net@.mailboxes.len(),
    {
        match net.find(self.key) {
            Some(i) => i,
            None => vstd::pervasive::unreached(),
        }
    }

    /// Adds an endpoint at net `sid`, endpoint `eid` to `net`, with no limits
    /// and no group; `None` when the net has handed out every key.
    pub fn new(sid: u64, eid: u64, net: &mut Net) -> (r: Option<Endpoint>)
        requires
            old(net)@.wf(),
        ensures
            final(net)@.wf(),
            forall|k: u64| #[trigger] old(net)@.has_key(k) ==> final(net)@.has_key(k),
            r is None <==> old(net)@.next_key == u64::MAX,
            r is None ==> final(net)@ == old(net)@,
            r matches Some(ep) ==> ep.key() == old(net)@.next_key && ep.on(final(net)@)
                && final(net)@ == (NetView {
                mailboxes: old(net)@.mailboxes.push(crate::net::fresh_mailbox(ep.key(), sid, eid)),
                next_key: (ep.key() + 1) as u64,
                ..old(net)@
            }),
    {
        match net.add_endpoint(sid, eid) {
            Some(key) => {
                proof {
                    assert forall|k: u64| #[trigger] old(net)@.has_key(k) implies net@.has_key(k) by {
                        let j = old(net)@.index_of(k);
                        assert(net@.mailboxes[j].key == k);
                    }
                    let n = net@;
                    assert(n.mailboxes[n.mailboxes.len() - 1].key == key);
                }
                Some(Endpoint { key })
            },
            None => None,
        }
    }

    /// Whether the endpoint is in `net`.
    pub fn is_on(&self, net: &Net) -> (r: bool)
        requires
            net@.wf(),
        ensures
            r == self.on(net@),
    {
        net.find(self.key).is_some()
    }

    /// A number that names the endpoint among those of its net.
    pub fn id(&self) -> (r: u64)
        ensures
            r == self.key(),
    {
        self.key
    }

    /// When a waiting receiver wants to be woken.
    pub fn getwaketime(&self, net: &Net) -> (r: Timespec)
        requires
            net@.wf(),
            self.on(net@),
        ensures
            r == self.mb(net@).wakeupat,
    {
        let i = self.locate(net);
        net.mailbox(i).wakeupat
    }

    /// How many endpoints the net holds.
    pub fn getpeercount(&self, net: &Net) -> (r: usize)
        ensures
            r == net@.mailboxes.len(),
    {
        net.getepcount()
    }

    /// Whether the queue holds anything (a share whose message another
    /// endpoint took counts too, though receiving it yields nothing).
    pub fn hasmessages(&self, net: &Net) -> (r: bool)
        requires
            net@.wf(),
            self.on(net@),
        ensures
            r == (self.mb(net@).queue.len() > 0),
    {
        let i = self.locate(net);
        net.mailbox(i).messages.len() > 0
    }

    /// The net id.
    pub fn getsid(&self, net: &Net) -> (r: ID)
        requires
            net@.wf(),
            self.on(net@),
        ensures
            r == self.mb(net@).sid,
    {
        let i = self.locate(net);
        net.mailbox(i).sid
    }

    /// The endpoint id.
    pub fn geteid(&self, net: &Net) -> (r: ID)
        requires
            net@.wf(),
            self.on(net@),
        ensures
            r == self.mb(net@).eid,
    {
        let i = self.locate(net);
        net.mailbox(i).eid
    }

    /// The group id.
    pub fn getgid(&self, net: &Net) -> (r: ID)
        requires
            net@.wf(),
            self.on(net@),
        ensures
            r == self.mb(net@).gid,
    {
        let i = self.locate(net);
        net.mailbox(i).gid
    }

    /// Sets the address, wake-up time and limits.
    fn set(
        &self,
        net: &mut Net,
        sid: u64,
        eid: u64,
        gid: u64,
        wakeupat: Timespec,
        limitpending: usize,
        limitmemory: usize,
    )
        requires
            old(net)@.wf(),
            self.on(old(net)@),
        ensures
            final(net)@.wf(),
            final(net)@.same_keys(old(net)@),
            self.on(final(net)@),
            self.index(final(net)@) == self.index(old(net)@),
            final(net)@ == self.with(
                old(net)@,
                MailboxView {
                    sid,
                    eid,
                    gid,
                    wakeupat,
                    limitpending: limitpending as nat,
                    limitmemory: limitmemory as nat,
                    ..self.mb(old(net)@)
                },
            ),
    {
        let i = self.locate(net);
        net.set_fields(i, sid, eid, gid, wakeupat, limitpending, limitmemory);
        proof {
            lemma_same_keys(net@, old(net)@);
            let n = net@;
            assert(n.mailboxes[i as int].key == self.key());
            let k = n.index_of(self.key());
            if k != i as int {
                assert(n.mailboxes[k].key != n.mailboxes[i as int].key);
            }
        }
    }

    /// Sets the group id.
    pub fn setgid(&self, net: &mut Net, id: ID)
        requires
            old(net)@.wf(),
            self.on(old(net)@),
        ensures
            final(net)@.wf(),
            final(net)@.same_keys(old(net)@),
            final(net)@ == self.with(old(net)@, MailboxView { gid: id, ..self.mb(old(net)@) }),
    {
        let i = self.locate(net);
        let mb = net.mailbox(i);
        let (sid, eid, w, lp, lm) = (mb.sid, mb.eid, mb.wakeupat, mb.limitpending, mb.limitmemory);
        self.set(net, sid, eid, id, w, lp, lm);
    }

    /// Sets the net id.
    pub fn setsid(&self, net: &mut Net, id: ID)
        requires
            old(net)@.wf(),
            self.on(old(net)@),
        ensures
            final(net)@.wf(),
            final(net)@.same_keys(old(net)@),
            final(net)@ == self.with(old(net)@, MailboxView { sid: id, ..self.mb(old(net)@) }),
    {
        let i = self.locate(net);
        let mb = net.mailbox(i);
        let (eid, gid, w, lp, lm) = (mb.eid, mb.gid, mb.wakeupat, mb.limitpending, mb.limitmemory);
        self.set(net, id, eid, gid, w, lp, lm);
    }

    /// Sets the endpoint id.
    pub fn seteid(&self, net: &mut Net, id: ID)
        requires
            old(net)@.wf(),
            self.on(old(net)@),
        ensures
            final(net)@.wf(),
            final(net)@.same_keys(old(net)@),
            final(net)@ == self.with(old(net)@, MailboxView { eid: id, ..self.mb(old(net)@) }),
    {
        let i = self.locate(net);
        let mb = net.mailbox(i);
        let (sid, gid, w, lp, lm) = (mb.sid, mb.gid, mb.wakeupat, mb.limitpending, mb.limitmemory);
        self.set(net, sid, id, gid, w, lp, lm);
    }

    /// Sets how many messages may wait in the queue (`0`: no limit).
    pub fn setlimitpending(&self, net: &mut Net, limit: usize)
        requires
            old(net)@.wf(),
            self.on(old(net)@),
        ensures
            final(net)@.wf(),
            final(net)@.same_keys(old(net)@),
            final(net)@ == self.with(
                old(net)@,
                MailboxView { limitpending: limit as nat, ..self.mb(old(net)@) },
            ),
    {
        let i = self.locate(net);
        let mb = net.mailbox(i);
        let (sid, eid, gid, w, lm) = (mb.sid, mb.eid, mb.gid, mb.wakeupat, mb.limitmemory);
        self.set(net, sid, eid, gid, w, limit, lm);
    }

    /// Sets how many bytes the messages in the queue may use (`0`: no
    /// limit).
    pub fn setlimitmemory(&self, net: &mut Net, limit: usize)
        requires
            old(net)@.wf(),
            self.on(old(net)@),
        ensures
            final(net)@.wf(),
            final(net)@.same_keys(old(net)@),
            final(net)@ == self.with(
                old(net)@,
                MailboxView { limitmemory: limit as nat, ..self.mb(old(net)@) },
            ),
    {
        let i = self.locate(net);
        let mb = net.mailbox(i);
        let (sid, eid, gid, w, lp) = (mb.sid, mb.eid, mb.gid, mb.wakeupat, mb.limitpending);
        self.set(net, sid, eid, gid, w, lp, limit);
    }

    /// Clears the wake-up time: no waiting receiver needs waking.
    pub fn neverwakeme(&self, net: &mut Net)
        requires
            old(net)@.wf(),
            self.on(old(net)@),
        ensures
            final(net)@.wf(),
            final(net)@.same_keys(old(net)@),
            self.index(final(net)@) == self.index(old(net)@),
            final(net)@ == self.with(
                old(net)@,
                MailboxView { wakeupat: Timespec::spec_never(), ..self.mb(old(net)@) },
            ),
    {
        let i = self.locate(net);
        let mb = net.mailbox(i);
        let (sid, eid, gid, lp, lm) = (mb.sid, mb.eid, mb.gid, mb.limitpending, mb.limitmemory);
        self.set(net, sid, eid, gid, Timespec::never(), lp, lm);
    }

    /// Offers `msg` to this endpoint alone; true if it took it. A raw or
    /// clone message is queued as a copy that may not loop back; a sync
    /// message is parked in a slot of its own and the endpoint queues a share
    /// in it, so the message is received at most once. (Each call parks its
    /// own copy: to have several endpoints share one message, send it through
    /// the net.)
    pub fn give(&self, net: &mut Net, msg: &Message) -> (r: bool)
        requires
            old(net)@.wf(),
            self.on(old(net)@),
        ensures
            final(net)@.wf(),
            final(net)@.same_keys(old(net)@),
            r == self.mb(old(net)@).accepts(msg@, old(net)@.serveraddr),
            final(net)@ == old(net)@.after_give(self.index(old(net)@), msg@),
    {
        let i = self.locate(net);
        let r = net.give_at(i, msg);
        proof {
            lemma_same_keys(net@, old(net)@);
        }
        r
    }

    /// Sends `msg` with its source left as it is; returns how many endpoints
    /// took it.
    pub fn sendx(&self, net: &mut Net, msg: Message) -> (r: usize)
        requires
            old(net)@.wf(),
        ensures
            final(net)@.wf(),
            final(net)@.same_keys(old(net)@),
            final(net)@ == old(net)@.after_send(msg@),
            r == accepted(old(net)@.mailboxes, msg@, old(net)@.serveraddr),
    {
        let r = net.send(msg);
        proof {
            lemma_same_keys(net@, old(net)@);
        }
        r
    }

    /// Sends `msg` from this endpoint: its source becomes this endpoint's
    /// address. Returns how many endpoints took it.
    pub fn send(&self, net: &mut Net, msg: Message) -> (r: usize)
        requires
            old(net)@.wf(),
            self.on(old(net)@),
        ensures
            final(net)@.wf(),
            final(net)@.same_keys(old(net)@),
            final(net)@ == old(net)@.after_send(
                stamped(msg@, self.mb(old(net)@).sid, self.mb(old(net)@).eid),
            ),
            r == accepted(
                old(net)@.mailboxes,
                stamped(msg@, self.mb(old(net)@).sid, self.mb(old(net)@).eid),
                old(net)@.serveraddr,
            ),
    {
        let i = self.locate(net);
        let sid = net.mailbox(i).sid;
        let eid = net.mailbox(i).eid;
        let r = net.sendas(msg, sid, eid);
        proof {
            lemma_same_keys(net@, old(net)@);
        }
        r
    }

    /// Sends `t` as a sync message to every endpoint of the local net; one
    /// of those that take it will receive it. Returns how many took it.
    pub fn sendsynctype<T: NoPointers>(&self, net: &mut Net, t: T) -> (r: usize)
        requires
            old(net)@.wf(),
            self.on(old(net)@),
        ensures
            final(net)@.wf(),
            final(net)@.same_keys(old(net)@),
            final(net)@ == old(net)@.after_send(self.typed_from(old(net)@, PayloadView::Sync(T::tag(), image_buffer(t)))),
            r == accepted(
                old(net)@.mailboxes,
                self.typed_from(old(net)@, PayloadView::Sync(T::tag(), image_buffer(t))),
                old(net)@.serveraddr,
            ),
    {
        let mut msg = Message::new_sync(t);
        msg.dstsid = 1;
        msg.dsteid = 0;
        self.send(net, msg)
    }

    /// Sends `t` as a clone message to every endpoint of the local net; each
    /// that takes it receives a copy. Returns how many took it.
    pub fn sendclonetype<T: NoPointers>(&self, net: &mut Net, t: T) -> (r: usize)
        requires
            old(net)@.wf(),
            self.on(old(net)@),
        ensures
            final(net)@.wf(),
            final(net)@.same_keys(old(net)@),
            final(net)@ == old(net)@.after_send(self.typed_from(old(net)@, PayloadView::Clone(T::tag(), image_buffer(t)))),
            r == accepted(
                old(net)@.mailboxes,
                self.typed_from(old(net)@, PayloadView::Clone(T::tag(), image_buffer(t))),
                old(net)@.serveraddr,
            ),
    {
        let mut msg = Message::new_clone(t);
        msg.dstsid = 1;
        msg.dsteid = 0;
        self.send(net, msg)
    }

    /// A typed message from this endpoint to every endpoint of the local net.
    pub open spec fn typed_from(&self, n: NetView, payload: PayloadView) -> MessageView {
        MessageView {
            srcsid: self.mb(n).sid,
            srceid: self.mb(n).eid,
            dstsid: 1,
            dsteid: 0,
            canloop: false,
            payload,
        }
    }

    /// Receives without waiting: see `NetView::after_recv`. Fails with
    /// `NoMessages` when no entry of the queue yields a message.
    pub fn recv(&self, net: &mut Net) -> (r: IoResult<Message>)
        requires
            old(net)@.wf(),
            self.on(old(net)@),
        ensures
            final(net)@.wf(),
            final(net)@.same_keys(old(net)@),
            final(net)@ == old(net)@.after_recv(self.index(old(net)@)).0,
            received(r, old(net)@.after_recv(self.index(old(net)@)).1),
    {
        let i = self.locate(net);
        let r = net.recv_at(i);
        proof {
            lemma_same_keys(net@, old(net)@);
        }
        match r {
            Some(m) => IoResult::Value(m),
            None => IoResult::Failure(IoError { code: IoErrorCode::NoMessages }),
        }
    }

    /// One step of a receive that waits until `when`, taken at time `now`:
    /// - with something in the queue, the wake-up time is cleared and the
    ///   endpoint receives;
    /// - with nothing, after the deadline, the wake-up time is cleared and the
    ///   receive fails with `TimedOut`;
    /// - with nothing, before the deadline, the wake-up time becomes `when`
    ///   if that is earlier, and the receiver is to sleep.
    pub fn recvorblock_at(&self, net: &mut Net, when: Timespec, now: Timespec) -> (r: RecvStep)
        requires
            old(net)@.wf(),
            self.on(old(net)@),
        ensures
            final(net)@.wf(),
            final(net)@.same_keys(old(net)@),
            ({
                let o = old(net)@;
                let mb = self.mb(o);
                let cleared = self.with(o, MailboxView { wakeupat: Timespec::spec_never(), ..mb });
                if mb.queue.len() > 0 {
                    &&& final(net)@ == cleared.after_recv(self.index(o)).0
                    &&& r matches RecvStep::Done(res) && received(res, cleared.after_recv(self.index(o)).1)
                } else if now.is_after_spec(when) {
                    &&& final(net)@ == cleared
                    &&& r == RecvStep::Done(IoResult::Failure(IoError { code: IoErrorCode::TimedOut }))
                } else {
                    &&& final(net)@ == self.with(o, MailboxView { wakeupat: mb.wakeupat.spec_earliest(when), ..mb })
                    &&& r is Sleep
                }
            }),
    {
        let i = self.locate(net);
        let mb = net.mailbox(i);
        let (sid, eid, gid, w, lp, lm) = (mb.sid, mb.eid, mb.gid, mb.wakeupat, mb.limitpending, mb.limitmemory);
        let queued = mb.messages.len();
        if queued > 0 {
            self.neverwakeme(net);
            RecvStep::Done(self.recv(net))
        } else if now.is_after(&when) {
            self.neverwakeme(net);
            RecvStep::Done(IoResult::Failure(IoError { code: IoErrorCode::TimedOut }))
        } else {
            self.set(net, sid, eid, gid, w.earliest(when), lp, lm);
            RecvStep::Sleep
        }
    }

    /// One step of a receive that waits until `when`, taken now: as
    /// `recvorblock_at` at the current time. With something in the queue the
    /// time does not matter; with nothing, the step either fails with
    /// `TimedOut` or says to sleep.
    pub fn recvorblock(&self, net: &mut Net, when: Timespec) -> (r: RecvStep)
        requires
            old(net)@.wf(),
            self.on(old(net)@),
        ensures
            final(net)@.wf(),
            final(net)@.same_keys(old(net)@),
            ({
                let o = old(net)@;
                let mb = self.mb(o);
                let cleared = self.with(o, MailboxView { wakeupat: Timespec::spec_never(), ..mb });
                if mb.queue.len() > 0 {
                    &&& final(net)@ == cleared.after_recv(self.index(o)).0
                    &&& r matches RecvStep::Done(res) && received(res, cleared.after_recv(self.index(o)).1)
                } else {
                    ||| (final(net)@ == cleared && r == RecvStep::Done(
                        IoResult::Failure(IoError { code: IoErrorCode::TimedOut }),
                    ))
                    ||| (final(net)@ == self.with(o, MailboxView { wakeupat: mb.wakeupat.spec_earliest(when), ..mb })
                        && r is Sleep)
                }
            }),
    {
        let now = get_time();
        self.recvorblock_at(net, when, now)
    }
}

impl Net {
    /// Adds an endpoint at the net's own id, with an endpoint id that no
    /// endpoint of the net has; `None` when no such id is left.
    pub fn new_endpoint(&mut self) -> (r: Option<Endpoint>)
        requires
            old(self)@.wf(),
        ensures
            final(self)@.wf(),
            forall|k: u64| #[trigger] old(self)@.has_key(k) ==> final(self)@.has_key(k),
            r is None ==> final(self)@ == old(self)@,
            r is None ==> forall|c: u64|
                old(self)@.next_key <= c < u64::MAX ==> #[trigger] old(self)@.eid_used(c),
            old(self)@.next_key < u64::MAX && !old(self)@.eid_used(old(self)@.next_key) ==> r is Some
                && r->Some_0.key() == old(self)@.next_key,
            r matches Some(ep) ==> {
                &&& ep.on(final(self)@)
                &&& !old(self)@.has_key(ep.key())
                &&& forall|j: int| 0 <= j < old(self)@.mailboxes.len() ==> #[trigger] old(self)@.mailboxes[j].eid != ep.key()
                &&& final(self)@ == (NetView {
                    mailboxes: old(self)@.mailboxes.push(
                        crate::net::fresh_mailbox(ep.key(), old(self)@.serveraddr, ep.key()),
                    ),
                    next_key: (ep.key() + 1) as u64,
                    ..old(self)@
                })
            },
    {
        match self.add_fresh_endpoint() {
            Some(key) => {
                proof {
                    assert forall|k: u64| #[trigger] old(self)@.has_key(k) implies self@.has_key(k) by {
                        let j = old(self)@.index_of(k);
                        assert(self@.mailboxes[j].key == k);
                    }
                    let n = self@;
                    assert(n.mailboxes[n.mailboxes.len() - 1].key == key);
                    let o = old(self)@;
                    if o.has_key(key) {
                        let j = o.index_of(key);
                        assert(o.mailboxes[j].key < o.next_key);
                    }
                }
                Some(Endpoint { key })
            },
            None => None,
        }
    }

    /// Another handle to the endpoint `ep` names.
    pub fn clone_endpoint(&mut self, ep: &Endpoint) -> (r: Endpoint)
        requires
            old(self)@.wf(),
            ep.on(old(self)@),
        ensures
            final(self)@.wf(),
            r.key() == ep.key(),
            r.on(final(self)@),
            final(self)@ == old(self)@.after_retain(ep.index(old(self)@)),
    {
        let i = ep.locate(self);
        self.retain_at(i);
        proof {
            assert(self@.mailboxes[i as int].key == ep.key());
        }
        Endpoint { key: ep.key }
    }

    /// Drops the handle `ep`. The last handle to an endpoint takes it out of
    /// the net; a handle to an endpoint the net does not hold changes
    /// nothing.
    pub fn drop_endpoint(&mut self, ep: Endpoint)
        requires
            old(self)@.wf(),
        ensures
            final(self)@.wf(),
            ep.on(old(self)@) ==> final(self)@ == old(self)@.after_release(ep.index(old(self)@)),
            !ep.on(old(self)@) ==> final(self)@ == old(self)@,
    {
        match self.find(ep.key) {
            Some(i) => self.release_at(i),
            None => {},
        }
    }
}

} // verus!
