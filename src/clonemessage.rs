use vstd::prelude::*;

use crate::nopointers::NoPointers;
use crate::rawmessage::{alloc_cap, image_buffer, RawMessage};

verus! {

/// A typed value that every receiver gets a copy of: the image of the value
/// in a buffer, with the fingerprint of its type.
pub struct CloneMessage {
    pub hash: u64,
    pub payload: RawMessage,
}

impl CloneMessage {
    /// Whether the message carries `T`'s fingerprint.
    pub open spec fn spec_is_type<T: NoPointers>(&self) -> bool {
        self.hash == T::tag()
    }

    /// Whether the message can be read as a `T`: it carries `T`'s
    /// fingerprint and its buffer holds a whole image of a `T`.
    pub open spec fn holds<T: NoPointers>(&self) -> bool {
        self.spec_is_type::<T>() && T::width() <= self.payload.spec_cap()
    }

    /// Wraps `t`: its image fills a buffer of the type's width (one byte for
    /// a type of width zero).
    pub fn new<T: NoPointers>(t: T) -> (r: CloneMessage)
        ensures
            r.hash == T::tag(),
            r.payload.sound(),
            r.payload.spec_cap() == alloc_cap(T::width()),
            r.payload.spec_len() == r.payload.spec_cap(),
            r.payload.bytes().take(T::width() as int) == t.image(),
            r.holds::<T>(),
            r.payload@ == image_buffer(t),
    {
        let mut rmsg = RawMessage::new(T::size());
        rmsg.writestruct(0, t);
        let hash = T::fingerprint();
        proof {
            T::lemma_image_len(t);
            assert(rmsg.bytes().take(T::width() as int) =~= t.image());
            if T::width() == 0 {
                assert(rmsg.bytes() =~= seq![0u8]);
            } else {
                assert(rmsg.bytes() =~= t.image());
            }
        }
        CloneMessage { hash, payload: rmsg }
    }

    /// A deep copy: the same fingerprint and a copy of the value's buffer.
    pub fn clone(&self) -> (r: CloneMessage)
        ensures
            r.hash == self.hash,
            r.payload@ == self.payload@,
    {
        CloneMessage { hash: self.hash, payload: self.payload.dup() }
    }

    /// Whether the message carries `T`'s fingerprint.
    pub fn is_type<T: NoPointers>(&self) -> (r: bool)
        ensures
            r == self.spec_is_type::<T>(),
    {
        T::fingerprint() == self.hash
    }

    /// The `T` in the message. The message must hold a `T`.
    pub fn get_payload<T: NoPointers>(&self) -> (r: T)
        requires
            self.holds::<T>(),
        ensures
            r.image() == self.payload.bytes().take(T::width() as int),
    {
        let r: T = self.payload.readstruct(0);
        proof {
            assert(self.payload.bytes().subrange(0, T::width() as int) =~= self.payload.bytes().take(
                T::width() as int,
            ));
        }
        r
    }
}

} // verus!
