use vstd::prelude::*;

use crate::clonemessage::CloneMessage;
use crate::nopointers::NoPointers;
use crate::rawmessage::{alloc_cap, image_buffer, RawMessage, RawView};
use crate::syncmessage::SyncMessage;

verus! {

/// The three kinds of payload a message can carry.
pub enum MessagePayload {
    /// A byte buffer; each receiver gets a copy.
    Raw(RawMessage),
    /// A typed value that exactly one receiver gets.
    Sync(SyncMessage),
    /// A typed value that each receiver gets a copy of.
    Clone(CloneMessage),
}

/// What a payload holds: its kind, the fingerprint of a typed value, and the
/// buffer's contents.
pub enum PayloadView {
    Raw(RawView),
    Sync(u64, RawView),
    Clone(u64, RawView),
}

impl PayloadView {
    pub open spec fn buffer(self) -> RawView {
        match self {
            PayloadView::Raw(r) => r,
            PayloadView::Sync(_, r) => r,
            PayloadView::Clone(_, r) => r,
        }
    }
}

impl View for MessagePayload {
    type V = PayloadView;

    open spec fn view(&self) -> PayloadView {
        match self {
            MessagePayload::Raw(m) => PayloadView::Raw(m@),
            MessagePayload::Sync(m) => PayloadView::Sync(m.hash, m.payload@),
            MessagePayload::Clone(m) => PayloadView::Clone(m.hash, m.payload@),
        }
    }
}

/// What a message holds: its addresses, its loop-back flag and its payload.
pub struct MessageView {
    pub srcsid: u64,
    pub srceid: u64,
    pub dstsid: u64,
    pub dsteid: u64,
    pub canloop: bool,
    pub payload: PayloadView,
}

impl MessageView {
    /// The capacity of the payload's buffer.
    pub open spec fn cap(self) -> nat {
        self.payload.buffer().cap()
    }

    /// The same message with its loop-back flag cleared.
    pub open spec fn no_loop(self) -> MessageView {
        MessageView { canloop: false, ..self }
    }
}

/// A message: a payload with source and destination addresses.
///
/// An address is a net id (`sid`) and an endpoint id (`eid`). As a
/// destination, `0` means any; a destination net of `1` means the local net.
/// `canloop` lets the message reach the endpoint that sent it.
pub struct Message {
    pub srcsid: u64,
    pub srceid: u64,
    pub dstsid: u64,
    pub dsteid: u64,
    pub canloop: bool,
    pub payload: MessagePayload,
}

impl View for Message {
    type V = MessageView;

    open spec fn view(&self) -> MessageView {
        MessageView {
            srcsid: self.srcsid,
            srceid: self.srceid,
            dstsid: self.dstsid,
            dsteid: self.dsteid,
            canloop: self.canloop,
            payload: self.payload@,
        }
    }
}

/// A message with no addresses set, not allowed to loop back.
pub open spec fn fresh(payload: PayloadView) -> MessageView {
    MessageView { srcsid: 0, srceid: 0, dstsid: 0, dsteid: 0, canloop: false, payload }
}

impl Message {
    pub open spec fn spec_is_raw(&self) -> bool {
        self.payload is Raw
    }

    pub open spec fn spec_is_sync(&self) -> bool {
        self.payload is Sync
    }

    pub open spec fn spec_is_clone(&self) -> bool {
        self.payload is Clone
    }

    /// The message is a sync or clone message carrying `T`'s fingerprint.
    pub open spec fn spec_is_type<T: NoPointers>(&self) -> bool {
        match self.payload {
            MessagePayload::Raw(_) => false,
            MessagePayload::Sync(m) => m.spec_is_type::<T>(),
            MessagePayload::Clone(m) => m.spec_is_type::<T>(),
        }
    }

    /// The capacity of the payload's buffer.
    pub fn cap(&self) -> (r: usize)
        ensures
            r == self@.cap(),
    {
        match &self.payload {
            MessagePayload::Raw(m) => m.cap(),
            MessagePayload::Sync(m) => m.payload.cap(),
            MessagePayload::Clone(m) => m.payload.cap(),
        }
    }

    /// A copy of a raw or clone message, with its loop-back flag cleared. A
    /// sync message has exactly one receiver and is never copied.
    ///
    /// Buffers are held by value here, so a raw message's copy has a buffer
    /// of its own rather than sharing one; a buffer shared between handles
    /// is a matter for code that puts it behind a lock.
    pub fn clone(&self) -> (r: Message)
        requires
            !self.spec_is_sync(),
        ensures
            r@ == self@.no_loop(),
    {
        let payload = match &self.payload {
            MessagePayload::Raw(m) => MessagePayload::Raw(m.dup()),
            MessagePayload::Clone(m) => MessagePayload::Clone(m.clone()),
            MessagePayload::Sync(_) => vstd::pervasive::unreached(),
        };
        Message {
            canloop: false,
            srcsid: self.srcsid,
            srceid: self.srceid,
            dstsid: self.dstsid,
            dsteid: self.dsteid,
            payload,
        }
    }

    /// An exact copy of any message, flags kept: how the net parks a sync
    /// message it was only lent.
    pub(crate) fn internal_clone(&self) -> (r: Message)
        ensures
            r@ == self@,
    {
        let payload = match &self.payload {
            MessagePayload::Raw(m) => MessagePayload::Raw(m.dup()),
            MessagePayload::Clone(m) => MessagePayload::Clone(m.clone()),
            MessagePayload::Sync(m) => MessagePayload::Sync(SyncMessage { hash: m.hash, payload: m.payload.dup() }),
        };
        Message {
            canloop: self.canloop,
            srcsid: self.srcsid,
            srceid: self.srceid,
            dstsid: self.dstsid,
            dsteid: self.dsteid,
            payload,
        }
    }

    /// A copy of a raw message in a buffer of its own, flags kept.
    pub fn dup(&self) -> (r: Message)
        requires
            self.spec_is_raw(),
        ensures
            r@ == self@,
            r.spec_is_raw(),
    {
        let payload = match &self.payload {
            MessagePayload::Raw(m) => MessagePayload::Raw(m.dup()),
            _ => vstd::pervasive::unreached(),
        };
        Message {
            canloop: self.canloop,
            srcsid: self.srcsid,
            srceid: self.srceid,
            dstsid: self.dstsid,
            dsteid: self.dsteid,
            payload,
        }
    }

    /// A raw message in a buffer of its own; any other message as it is.
    pub fn dup_ifok(self) -> (r: Message)
        ensures
            r@ == self@,
    {
        if self.is_raw() {
            self.dup()
        } else {
            self
        }
    }

    /// The buffer of a raw message.
    pub fn get_raw(self) -> (r: RawMessage)
        requires
            self.spec_is_raw(),
        ensures
            self.payload == MessagePayload::Raw(r),
    {
        match self.payload {
            MessagePayload::Raw(m) => m,
            _ => vstd::pervasive::unreached(),
        }
    }

    /// The buffer of a raw message, to change in place.
    pub fn get_rawmutref(&mut self) -> (r: &mut RawMessage)
        requires
            old(self).spec_is_raw(),
        ensures
            old(self).payload == MessagePayload::Raw(*r),
            *final(self) == (Message { payload: MessagePayload::Raw(*final(r)), ..*old(self) }),
    {
        match &mut self.payload {
            MessagePayload::Raw(m) => m,
            _ => vstd::pervasive::unreached(),
        }
    }

    /// The value of a clone message, to change in place.
    pub fn get_clonemutref(&mut self) -> (r: &mut CloneMessage)
        requires
            old(self).spec_is_clone(),
        ensures
            old(self).payload == MessagePayload::Clone(*r),
            *final(self) == (Message { payload: MessagePayload::Clone(*final(r)), ..*old(self) }),
    {
        match &mut self.payload {
            MessagePayload::Clone(m) => m,
            _ => vstd::pervasive::unreached(),
        }
    }

    /// The value of a sync message, to change in place.
    pub fn get_syncmutref(&mut self) -> (r: &mut SyncMessage)
        requires
            old(self).spec_is_sync(),
        ensures
            old(self).payload == MessagePayload::Sync(*r),
            *final(self) == (Message { payload: MessagePayload::Sync(*final(r)), ..*old(self) }),
    {
        match &mut self.payload {
            MessagePayload::Sync(m) => m,
            _ => vstd::pervasive::unreached(),
        }
    }

    /// The buffer of a raw message.
    pub fn get_rawref(&self) -> (r: &RawMessage)
        requires
            self.spec_is_raw(),
        ensures
            self.payload == MessagePayload::Raw(*r),
    {
        match &self.payload {
            MessagePayload::Raw(m) => m,
            _ => vstd::pervasive::unreached(),
        }
    }

    /// The value of a clone message.
    pub fn get_cloneref(&self) -> (r: &CloneMessage)
        requires
            self.spec_is_clone(),
        ensures
            self.payload == MessagePayload::Clone(*r),
    {
        match &self.payload {
            MessagePayload::Clone(m) => m,
            _ => vstd::pervasive::unreached(),
        }
    }

    /// The value of a sync message.
    pub fn get_syncref(&self) -> (r: &SyncMessage)
        requires
            self.spec_is_sync(),
        ensures
            self.payload == MessagePayload::Sync(*r),
    {
        match &self.payload {
            MessagePayload::Sync(m) => m,
            _ => vstd::pervasive::unreached(),
        }
    }

    /// The value of a clone message, consuming the message.
    pub fn get_clone(self) -> (r: CloneMessage)
        requires
            self.spec_is_clone(),
        ensures
            self.payload == MessagePayload::Clone(r),
    {
        match self.payload {
            MessagePayload::Clone(m) => m,
            _ => vstd::pervasive::unreached(),
        }
    }

    /// The value of a sync message, consuming the message.
    pub fn get_sync(self) -> (r: SyncMessage)
        requires
            self.spec_is_sync(),
        ensures
            self.payload == MessagePayload::Sync(r),
    {
        match self.payload {
            MessagePayload::Sync(m) => m,
            _ => vstd::pervasive::unreached(),
        }
    }

    pub fn is_clone(&self) -> (r: bool)
        ensures
            r == self.spec_is_clone(),
    {
        match self.payload {
            MessagePayload::Clone(_) => true,
            _ => false,
        }
    }

    pub fn is_raw(&self) -> (r: bool)
        ensures
            r == self.spec_is_raw(),
    {
        match self.payload {
            MessagePayload::Raw(_) => true,
            _ => false,
        }
    }

    pub fn is_sync(&self) -> (r: bool)
        ensures
            r == self.spec_is_sync(),
    {
        match self.payload {
            MessagePayload::Sync(_) => true,
            _ => false,
        }
    }

    /// A raw message carrying `rmsg`, with no addresses set.
    pub fn new_fromraw(rmsg: RawMessage) -> (r: Message)
        ensures
            r@ == fresh(PayloadView::Raw(rmsg@)),
            r.payload == MessagePayload::Raw(rmsg),
    {
        Message { canloop: false, srcsid: 0, srceid: 0, dstsid: 0, dsteid: 0, payload: MessagePayload::Raw(rmsg) }
    }

    /// A raw message with a new zeroed buffer of `cap` bytes (one byte if
    /// `cap` is zero), with no addresses set.
    pub fn new_raw(cap: usize) -> (r: Message)
        ensures
            r.spec_is_raw(),
            r@ == fresh(r.payload@),
            r@.cap() == alloc_cap(cap as nat),
            r@.payload.buffer().len == alloc_cap(cap as nat),
    {
        Message::new_fromraw(RawMessage::new(cap))
    }

    /// A clone message carrying `t`, with no addresses set.
    pub fn new_clone<T: NoPointers>(t: T) -> (r: Message)
        ensures
            r.spec_is_clone(),
            r@ == fresh(PayloadView::Clone(T::tag(), image_buffer(t))),
            r.spec_is_type::<T>(),
            r@.payload.buffer().bytes.take(T::width() as int) == t.image(),
    {
        Message {
            canloop: false,
            srcsid: 0,
            srceid: 0,
            dstsid: 0,
            dsteid: 0,
            payload: MessagePayload::Clone(CloneMessage::new(t)),
        }
    }

    /// A sync message carrying `t`, with no addresses set.
    pub fn new_sync<T: NoPointers>(t: T) -> (r: Message)
        ensures
            r.spec_is_sync(),
            r@ == fresh(PayloadView::Sync(T::tag(), image_buffer(t))),
            r.spec_is_type::<T>(),
            r@.payload.buffer().bytes.take(T::width() as int) == t.image(),
    {
        Message {
            canloop: false,
            srcsid: 0,
            srceid: 0,
            dstsid: 0,
            dsteid: 0,
            payload: MessagePayload::Sync(SyncMessage::new(t)),
        }
    }

    /// Whether the message is a sync or clone message carrying `T`'s
    /// fingerprint.
    pub fn is_type<T: NoPointers>(&self) -> (r: bool)
        ensures
            r == self.spec_is_type::<T>(),
    {
        match &self.payload {
            MessagePayload::Raw(_) => false,
            MessagePayload::Sync(m) => m.is_type::<T>(),
            MessagePayload::Clone(m) => m.is_type::<T>(),
        }
    }
}

} // verus!
