use vstd::prelude::*;

use crate::nopointers::NoPointers;
use crate::rawmessage::{alloc_cap, image_buffer, RawMessage};

verus! {

/// A typed value that moves from its sender to exactly one receiver: the
/// image of the value in a buffer of its own, with the fingerprint of its
/// type.
pub struct SyncMessage {
    pub hash: u64,
    pub payload: RawMessage,
}

impl SyncMessage {
    /// Whether the message carries `T`'s fingerprint.
    pub open spec fn spec_is_type<T: NoPointers>(&self) -> bool {
        self.hash == T::tag()
    }

    /// Whether the message can be read as a `T`: it carries `T`'s
    /// fingerprint and its buffer holds a whole image of a `T`.
    pub open spec fn holds<T: NoPointers>(&self) -> bool {
        self.spec_is_type::<T>() && T::width() <= self.payload.spec_cap()
    }

    /// Moves `t` into a new message: its image fills a buffer of the type's
    /// width (one byte for a type of width zero).
    pub fn new<T: NoPointers>(t: T) -> (r: SyncMessage)
        ensures
            r.hash == T::tag(),
            r.payload.sound(),
            r.payload.spec_cap() == alloc_cap(T::width()),
            r.payload.spec_len() == r.payload.spec_cap(),
            r.payload.bytes().take(T::width() as int) == t.image(),
            r.holds::<T>(),
            r.payload@ == image_buffer(t),
    {
        let mut rmsg = RawMessage::new(T::size());
        rmsg.writestruct(0, t);
        let hash = T::fingerprint();
        proof {
            T::lemma_image_len(t);
            assert(rmsg.bytes().take(T::width() as int) =~= t.image());
            if T::width() == 0 {
                assert(rmsg.bytes() =~= seq![0u8]);
            } else {
                assert(rmsg.bytes() =~= t.image());
            }
        }
        SyncMessage { hash, payload: rmsg }
    }

    /// Whether the message carries `T`'s fingerprint.
    pub fn is_type<T: NoPointers>(&self) -> (r: bool)
        ensures
            r == self.spec_is_type::<T>(),
    {
        T::fingerprint() == self.hash
    }

    /// Takes the `T` out of the message, consuming it. The message must hold
    /// a `T`.
    pub fn get_payload<T: NoPointers>(self) -> (r: T)
        requires
            self.holds::<T>(),
        ensures
            r.image() == self.payload.bytes().take(T::width() as int),
    {
        let r: T = self.payload.readstruct(0);
        proof {
            assert(self.payload.bytes().subrange(0, T::width() as int) =~= self.payload.bytes().take(
                T::width() as int,
            ));
        }
        r
    }
}

/// A sync message made from `v` and taken out as the same type gives `v`
/// back.
pub proof fn lemma_sync_round_trip<T: NoPointers>(bytes: Seq<u8>, v: T, r: T)
    requires
        T::width() <= bytes.len(),
        bytes.take(T::width() as int) == v.image(),
        r.image() == bytes.take(T::width() as int),
    ensures
        r == v,
{
    T::lemma_image_injective(r, v);
}

} // verus!
