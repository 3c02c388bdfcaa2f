use vstd::prelude::*;
use vstd::slice::slice_subrange;
use vstd::string::StringSliceAdditionalSpecFns;

use crate::nopointers::NoPointers;

verus! {

/// `s` with the bytes from `off` on replaced by `b`.
pub open spec fn splice(s: Seq<u8>, off: int, b: Seq<u8>) -> Seq<u8> {
    s.take(off) + b + s.skip(off + b.len())
}

/// `n` zero bytes.
pub open spec fn zero_bytes(n: nat) -> Seq<u8> {
    Seq::new(n, |i: int| 0u8)
}

/// A capacity as it is allocated: a request for nothing gets one byte.
pub open spec fn alloc_cap(cap: nat) -> nat {
    if cap == 0 {
        1
    } else {
        cap
    }
}

/// What a `RawMessage` holds: its length mark and all the bytes of its buffer
/// (as many as its capacity).
pub struct RawView {
    pub len: nat,
    pub bytes: Seq<u8>,
}

impl RawView {
    pub open spec fn cap(self) -> nat {
        self.bytes.len()
    }
}

/// The buffer a typed value is carried in: its image, in a buffer of the
/// type's width (a single zero byte for a type of width zero), all of it data.
pub open spec fn image_buffer<T: NoPointers>(t: T) -> RawView {
    let bytes = if T::width() == 0 {
        seq![0u8]
    } else {
        t.image()
    };
    RawView { len: bytes.len(), bytes }
}

/// A byte buffer of fixed capacity with a length mark inside it.
///
/// The buffer always holds `cap` bytes; the length marks how many of them
/// carry data. Values of fixed-width types can be written and read at any
/// offset inside the capacity.
pub struct RawMessage {
    len: usize,
    buf: Vec<u8>,
}

fn zeros(n: usize) -> (r: Vec<u8>)
    ensures
        r@ == zero_bytes(n as nat),
{
    let mut v: Vec<u8> = Vec::new();
    let mut i: usize = 0;
    while i < n
        invariant
            i <= n,
            v@ == zero_bytes(i as nat),
        decreases n - i,
    {
        v.push(0u8);
        i = i + 1;
        proof {
            assert(v@ =~= zero_bytes(i as nat));
        }
    }
    v
}

/// The first `keep` bytes of `src`, followed by zeros up to `total` bytes.
fn copy_prefix(src: &[u8], keep: usize, total: usize) -> (r: Vec<u8>)
    requires
        keep <= src@.len(),
        keep <= total,
    ensures
        r@ == src@.take(keep as int) + zero_bytes((total - keep) as nat),
{
    let mut v: Vec<u8> = Vec::new();
    let mut i: usize = 0;
    while i < keep
        invariant
            i <= keep,
            keep <= src@.len(),
            v@ == src@.take(i as int),
        decreases keep - i,
    {
        v.push(src[i]);
        i = i + 1;
        proof {
            assert(v@ =~= src@.take(i as int));
        }
    }
    while i < total
        invariant
            keep <= i <= total,
            keep <= src@.len(),
            v@ == src@.take(keep as int) + zero_bytes((i - keep) as nat),
        decreases total - i,
    {
        v.push(0u8);
        i = i + 1;
        proof {
            assert(v@ =~= src@.take(keep as int) + zero_bytes((i - keep) as nat));
        }
    }
    v
}

/// `src` with `b` copied in at `off`.
fn spliced(src: &[u8], off: usize, b: &[u8]) -> (r: Vec<u8>)
    requires
        off + b@.len() <= src@.len(),
    ensures
        r@ == splice(src@, off as int, b@),
{
    let mut v: Vec<u8> = Vec::new();
    let mut i: usize = 0;
    while i < src.len()
        invariant
            i <= src@.len(),
            off + b@.len() <= src@.len(),
            v@ == splice(src@, off as int, b@).take(i as int),
        decreases src@.len() - i,
    {
        let x = if off <= i && i < off + b.len() {
            b[i - off]
        } else {
            src[i]
        };
        v.push(x);
        i = i + 1;
        proof {
            assert(v@ =~= splice(src@, off as int, b@).take(i as int));
        }
    }
    proof {
        assert(v@ =~= splice(src@, off as int, b@));
    }
    v
}

impl View for RawMessage {
    type V = RawView;

    open spec fn view(&self) -> RawView {
        RawView { len: self.spec_len(), bytes: self.bytes() }
    }
}

impl RawMessage {
    #[verifier::type_invariant]
    spec fn inv(&self) -> bool {
        1 <= self.buf@.len() && self.len <= self.buf@.len()
    }

    /// How many bytes carry data.
    pub closed spec fn spec_len(&self) -> nat {
        self.len as nat
    }

    /// How many bytes the buffer holds.
    pub open spec fn spec_cap(&self) -> nat {
        self.bytes().len()
    }

    /// All `spec_cap()` bytes of the buffer.
    pub closed spec fn bytes(&self) -> Seq<u8> {
        self.buf@
    }

    /// The bytes that carry data: the first `spec_len()`.
    pub open spec fn data(&self) -> Seq<u8> {
        self.bytes().take(self.spec_len() as int)
    }

    /// The facts that hold of every buffer.
    pub open spec fn sound(&self) -> bool {
        &&& 1 <= self.spec_cap()
        &&& self.spec_len() <= self.spec_cap()
    }

    /// A zeroed buffer of `cap` bytes (one byte if `cap` is zero), all of them
    /// marked as data.
    pub fn new(cap: usize) -> (r: RawMessage)
        ensures
            r.sound(),
            r.spec_cap() == alloc_cap(cap as nat),
            r.spec_len() == r.spec_cap(),
            r.bytes() == zero_bytes(r.spec_cap()),
    {
        let c: usize = if cap == 0 {
            1
        } else {
            cap
        };
        RawMessage { len: c, buf: zeros(c) }
    }

    /// An independent copy: same capacity, length and bytes, in storage of its
    /// own.
    pub fn dup(&self) -> (r: RawMessage)
        ensures
            r.sound(),
            r.spec_cap() == self.spec_cap(),
            r.spec_len() == self.spec_len(),
            r.bytes() == self.bytes(),
    {
        proof {
            use_type_invariant(self);
        }
        let buf = copy_prefix(self.buf.as_slice(), self.buf.len(), self.buf.len());
        proof {
            assert(buf@ =~= self.buf@);
        }
        RawMessage { len: self.len, buf }
    }

    /// A buffer holding the bytes of `s`, with its length set to theirs.
    pub fn new_fromstr(s: &str) -> (r: RawMessage)
        ensures
            r.sound(),
            r.spec_len() == s.spec_bytes().len(),
            r.data() == s.spec_bytes(),
            r.spec_cap() == alloc_cap(s.spec_bytes().len()),
    {
        let b = s.as_bytes();
        let c: usize = if b.len() == 0 {
            1
        } else {
            b.len()
        };
        let buf = copy_prefix(b, b.len(), c);
        proof {
            assert(buf@.take(b@.len() as int) =~= b@);
        }
        RawMessage { len: b.len(), buf }
    }

    /// The capacity.
    pub fn cap(&self) -> (r: usize)
        ensures
            r == self.spec_cap(),
    {
        self.buf.len()
    }

    /// Sets the length; it must not exceed the capacity.
    pub fn setlen(&mut self, len: usize)
        requires
            len <= old(self).spec_cap(),
        ensures
            final(self).spec_len() == len,
            final(self).spec_cap() == old(self).spec_cap(),
            final(self).bytes() == old(self).bytes(),
    {
        proof {
            use_type_invariant(&*self);
        }
        self.len = len;
    }

    /// The length.
    pub fn len(&self) -> (r: usize)
        ensures
            r == self.spec_len(),
    {
        self.len
    }

    /// Gives the buffer a new capacity (one byte if `newcap` is zero),
    /// keeping the bytes that fit and zeroing the rest; the length is cut
    /// down to the new capacity.
    pub fn resize(&mut self, newcap: usize)
        ensures
            final(self).spec_cap() == alloc_cap(newcap as nat),
            final(self).spec_len() == if old(self).spec_len() <= final(self).spec_cap() {
                old(self).spec_len()
            } else {
                final(self).spec_cap()
            },
            final(self).bytes() == if old(self).spec_cap() <= final(self).spec_cap() {
                old(self).bytes() + zero_bytes((final(self).spec_cap() - old(self).spec_cap()) as nat)
            } else {
                old(self).bytes().take(final(self).spec_cap() as int)
            },
    {
        proof {
            use_type_invariant(&*self);
        }
        let c: usize = if newcap == 0 {
            1
        } else {
            newcap
        };
        let keep: usize = if self.buf.len() <= c {
            self.buf.len()
        } else {
            c
        };
        let buf = copy_prefix(self.buf.as_slice(), keep, c);
        let len: usize = if self.len <= c {
            self.len
        } else {
            c
        };
        proof {
            if self.buf@.len() <= c {
                assert(self.buf@.take(keep as int) =~= self.buf@);
            } else {
                assert(zero_bytes(0) =~= Seq::<u8>::empty());
                assert(buf@ =~= self.buf@.take(c as int));
            }
        }
        *self = RawMessage { len, buf };
    }

    /// Copies `b` into the buffer at `off`, leaving the length alone.
    fn put(&mut self, off: usize, b: &[u8])
        requires
            off + b@.len() <= old(self).spec_cap(),
        ensures
            final(self).spec_len() == old(self).spec_len(),
            final(self).spec_cap() == old(self).spec_cap(),
            final(self).bytes() == splice(old(self).bytes(), off as int, b@),
    {
        proof {
            use_type_invariant(&*self);
        }
        let buf = spliced(self.buf.as_slice(), off, b);
        self.buf = buf;
    }

    /// Writes `f` at `offset`, which with `f` must lie inside the capacity;
    /// the length grows to the end of the write if that lies past it.
    pub fn write_from_slice(&mut self, offset: usize, f: &[u8])
        requires
            offset + f@.len() <= old(self).spec_cap(),
        ensures
            final(self).spec_cap() == old(self).spec_cap(),
            final(self).bytes() == splice(old(self).bytes(), offset as int, f@),
            final(self).spec_len() == if offset + f@.len() > old(self).spec_len() {
                (offset + f@.len()) as nat
            } else {
                old(self).spec_len()
            },
    {
        proof {
            assert(self.buf.len() == self.buf@.len());
        }
        let end = offset + f.len();
        self.put(offset, f);
        if end > self.len {
            self.setlen(end);
        }
    }

    /// The bytes that carry data.
    pub fn as_slice(&self) -> (r: &[u8])
        ensures
            r@ == self.data(),
    {
        proof {
            use_type_invariant(self);
        }
        slice_subrange(self.buf.as_slice(), 0, self.len)
    }

    /// Writes the image of `t` at `offset`, which with it must lie inside the
    /// capacity. The length is not changed.
    pub fn writestructref<T: NoPointers>(&mut self, offset: usize, t: &T)
        requires
            offset + T::width() <= old(self).spec_cap(),
        ensures
            final(self).spec_cap() == old(self).spec_cap(),
            final(self).spec_len() == old(self).spec_len(),
            final(self).bytes() == splice(old(self).bytes(), offset as int, t.image()),
    {
        let b = t.to_bytes();
        proof {
            T::lemma_image_len(*t);
        }
        self.put(offset, b.as_slice());
    }

    /// Writes the image of `t` at `offset`, consuming `t`.
    pub fn writestruct<T: NoPointers>(&mut self, offset: usize, t: T)
        requires
            offset + T::width() <= old(self).spec_cap(),
        ensures
            final(self).spec_cap() == old(self).spec_cap(),
            final(self).spec_len() == old(self).spec_len(),
            final(self).bytes() == splice(old(self).bytes(), offset as int, t.image()),
    {
        self.writestructref(offset, &t);
    }

    /// Reads the value whose image lies at `offset`.
    pub fn readstruct<T: NoPointers>(&self, offset: usize) -> (r: T)
        requires
            offset + T::width() <= self.spec_cap(),
        ensures
            r.image() == self.bytes().subrange(offset as int, offset + T::width()),
    {
        proof {
            use_type_invariant(self);
        }
        proof {
            assert(self.buf.len() == self.buf@.len());
        }
        let end = offset + T::size();
        T::from_bytes(slice_subrange(self.buf.as_slice(), offset, end))
    }

    /// Reads the value whose image lies at `offset` into `t`.
    pub fn readstructref<T: NoPointers>(&self, offset: usize, t: &mut T)
        requires
            offset + T::width() <= self.spec_cap(),
        ensures
            final(t).image() == self.bytes().subrange(offset as int, offset + T::width()),
    {
        *t = self.readstruct(offset);
    }

    /// Writes an unsigned 8-bit value at `offset`.
    pub fn writeu8(&mut self, offset: usize, value: u8)
        requires
            offset + 1 <= old(self).spec_cap(),
        ensures
            final(self).spec_cap() == old(self).spec_cap(),
            final(self).spec_len() == old(self).spec_len(),
            final(self).bytes() == old(self).bytes().update(offset as int, value),
    {
        self.writestruct(offset, value);
        proof {
            assert(splice(old(self).bytes(), offset as int, value.image()) =~= old(self).bytes().update(offset as int, value));
        }
    }

    /// Writes an unsigned 16-bit value at `offset`.
    pub fn writeu16(&mut self, offset: usize, value: u16)
        requires
            offset + 2 <= old(self).spec_cap(),
        ensures
            final(self).spec_cap() == old(self).spec_cap(),
            final(self).spec_len() == old(self).spec_len(),
            final(self).bytes() == splice(old(self).bytes(), offset as int, value.image()),
    {
        self.writestruct(offset, value);
    }

    /// Writes an unsigned 32-bit value at `offset`.
    pub fn writeu32(&mut self, offset: usize, value: u32)
        requires
            offset + 4 <= old(self).spec_cap(),
        ensures
            final(self).spec_cap() == old(self).spec_cap(),
            final(self).spec_len() == old(self).spec_len(),
            final(self).bytes() == splice(old(self).bytes(), offset as int, value.image()),
    {
        self.writestruct(offset, value);
    }

    /// Writes a signed 8-bit value at `offset`.
    pub fn writei8(&mut self, offset: usize, value: i8)
        requires
            offset + 1 <= old(self).spec_cap(),
        ensures
            final(self).spec_cap() == old(self).spec_cap(),
            final(self).spec_len() == old(self).spec_len(),
            final(self).bytes() == splice(old(self).bytes(), offset as int, value.image()),
    {
        self.writestruct(offset, value);
    }

    /// Writes a signed 16-bit value at `offset`.
    pub fn writei16(&mut self, offset: usize, value: i16)
        requires
            offset + 2 <= old(self).spec_cap(),
        ensures
            final(self).spec_cap() == old(self).spec_cap(),
            final(self).spec_len() == old(self).spec_len(),
            final(self).bytes() == splice(old(self).bytes(), offset as int, value.image()),
    {
        self.writestruct(offset, value);
    }

    /// Writes a signed 32-bit value at `offset`.
    pub fn writei32(&mut self, offset: usize, value: i32)
        requires
            offset + 4 <= old(self).spec_cap(),
        ensures
            final(self).spec_cap() == old(self).spec_cap(),
            final(self).spec_len() == old(self).spec_len(),
            final(self).bytes() == splice(old(self).bytes(), offset as int, value.image()),
    {
        self.writestruct(offset, value);
    }

    /// Reads an unsigned 8-bit value at `offset`.
    pub fn readu8(&self, offset: usize) -> (r: u8)
        requires
            offset + 1 <= self.spec_cap(),
        ensures
            r == self.bytes()[offset as int],
    {
        let r: u8 = self.readstruct(offset);
        proof {
            assert(r.image()[0] == self.bytes().subrange(offset as int, offset + 1)[0]);
        }
        r
    }

    /// Reads an unsigned 16-bit value at `offset`.
    pub fn readu16(&self, offset: usize) -> (r: u16)
        requires
            offset + 2 <= self.spec_cap(),
        ensures
            r.image() == self.bytes().subrange(offset as int, offset + 2),
    {
        self.readstruct(offset)
    }

    /// Reads an unsigned 32-bit value at `offset`.
    pub fn readu32(&self, offset: usize) -> (r: u32)
        requires
            offset + 4 <= self.spec_cap(),
        ensures
            r.image() == self.bytes().subrange(offset as int, offset + 4),
    {
        self.readstruct(offset)
    }

    /// Reads a signed 8-bit value at `offset`.
    pub fn readi8(&self, offset: usize) -> (r: i8)
        requires
            offset + 1 <= self.spec_cap(),
        ensures
            r.image() == self.bytes().subrange(offset as int, offset + 1),
    {
        self.readstruct(offset)
    }

    /// Reads a signed 16-bit value at `offset`.
    pub fn readi16(&self, offset: usize) -> (r: i16)
        requires
            offset + 2 <= self.spec_cap(),
        ensures
            r.image() == self.bytes().subrange(offset as int, offset + 2),
    {
        self.readstruct(offset)
    }

    /// Reads a signed 32-bit value at `offset`.
    pub fn readi32(&self, offset: usize) -> (r: i32)
        requires
            offset + 4 <= self.spec_cap(),
        ensures
            r.image() == self.bytes().subrange(offset as int, offset + 4),
    {
        self.readstruct(offset)
    }
}

/// A value written at an offset (`writestruct`, which splices its image into
/// the buffer) and read back at that offset as the same type (`readstruct`,
/// whose result has the image found there) is the value that was written.
pub proof fn lemma_struct_round_trip<T: NoPointers>(bytes: Seq<u8>, offset: nat, v: T, r: T)
    requires
        offset + T::width() <= bytes.len(),
        r.image() == splice(bytes, offset as int, v.image()).subrange(
            offset as int,
            (offset + T::width()) as int,
        ),
    ensures
        r == v,
{
    T::lemma_image_len(v);
    assert(splice(bytes, offset as int, v.image()).subrange(offset as int, (offset + T::width()) as int)
        =~= v.image());
    T::lemma_image_injective(r, v);
}

} // verus!
