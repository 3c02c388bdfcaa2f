use vstd::prelude::*;
use vstd::bytes::*;
use vstd::slice::slice_subrange;

verus! {

/// A type whose values can be written into a `RawMessage` and read back as a
/// fixed number of bytes, with no pointer in them: the bytes mean the same
/// value in any process.
///
/// `image` is the byte image of a value, `width` its length, and `tag` a
/// fingerprint of the type, used to check the type of a typed payload.
pub trait NoPointers: Sized {
    spec fn image(&self) -> Seq<u8>;

    spec fn width() -> nat;

    spec fn tag() -> u64;

    /// Every image has the type's width.
    proof fn lemma_image_len(x: Self)
        ensures
            x.image().len() == Self::width(),
    ;

    /// Distinct values have distinct images.
    proof fn lemma_image_injective(a: Self, b: Self)
        requires
            a.image() == b.image(),
        ensures
            a == b,
    ;

    fn size() -> (r: usize)
        ensures
            r == Self::width(),
    ;

    fn fingerprint() -> (r: u64)
        ensures
            r == Self::tag(),
    ;

    fn to_bytes(&self) -> (r: Vec<u8>)
        ensures
            r@ == self.image(),
    ;

    /// Every byte string of the type's width is the image of a value.
    fn from_bytes(b: &[u8]) -> (r: Self)
        requires
            b@.len() == Self::width(),
        ensures
            r.image() == b@,
    ;
}

/// A single fixed-width value (an integer, or nothing at all), from which
/// tuples are built.
pub trait Scalar: NoPointers {
    proof fn lemma_scalar_bounds()
        ensures
            Self::width() <= 8,
            Self::tag() < 16,
    ;
}

impl NoPointers for () {
    open spec fn image(&self) -> Seq<u8> {
        Seq::empty()
    }

    open spec fn width() -> nat {
        0
    }

    open spec fn tag() -> u64 {
        0
    }

    proof fn lemma_image_len(x: Self) {
    }

    proof fn lemma_image_injective(a: Self, b: Self) {
    }

    fn size() -> (r: usize) {
        0
    }

    fn fingerprint() -> (r: u64) {
        0
    }

    fn to_bytes(&self) -> (r: Vec<u8>) {
        Vec::new()
    }

    fn from_bytes(b: &[u8]) -> (r: Self) {
        proof {
            assert(b@ =~= Seq::<u8>::empty());
        }
    }
}

impl Scalar for () {
    proof fn lemma_scalar_bounds() {
    }
}

impl NoPointers for u8 {
    open spec fn image(&self) -> Seq<u8> {
        seq![*self]
    }

    open spec fn width() -> nat {
        1
    }

    open spec fn tag() -> u64 {
        1
    }

    proof fn lemma_image_len(x: Self) {
    }

    proof fn lemma_image_injective(a: Self, b: Self) {
        assert(a.image()[0] == a);
        assert(b.image()[0] == b);
    }

    fn size() -> (r: usize) {
        1
    }

    fn fingerprint() -> (r: u64) {
        1
    }

    fn to_bytes(&self) -> (r: Vec<u8>) {
        let mut v: Vec<u8> = Vec::new();
        v.push(*self);
        proof {
            assert(v@ =~= seq![*self]);
        }
        v
    }

    fn from_bytes(b: &[u8]) -> (r: Self) {
        proof {
            assert(b@ =~= seq![b@[0]]);
        }
        b[0]
    }
}

impl Scalar for u8 {
    proof fn lemma_scalar_bounds() {
    }
}

impl NoPointers for u16 {
    open spec fn image(&self) -> Seq<u8> {
        spec_u16_to_le_bytes(*self)
    }

    open spec fn width() -> nat {
        2
    }

    open spec fn tag() -> u64 {
        2
    }

    proof fn lemma_image_len(x: Self) {
        lemma_auto_spec_u16_to_from_le_bytes();
    }

    proof fn lemma_image_injective(a: Self, b: Self) {
        lemma_auto_spec_u16_to_from_le_bytes();
        assert(spec_u16_to_le_bytes(a).len() == 2);
        assert(spec_u16_from_le_bytes(spec_u16_to_le_bytes(a)) == a);
        assert(spec_u16_to_le_bytes(b).len() == 2);
        assert(spec_u16_from_le_bytes(spec_u16_to_le_bytes(b)) == b);
    }

    fn size() -> (r: usize) {
        2
    }

    fn fingerprint() -> (r: u64) {
        2
    }

    fn to_bytes(&self) -> (r: Vec<u8>) {
        u16_to_le_bytes(*self)
    }

    fn from_bytes(b: &[u8]) -> (r: Self) {
        proof {
            lemma_auto_spec_u16_to_from_le_bytes();
        }
        u16_from_le_bytes(b)
    }
}

impl Scalar for u16 {
    proof fn lemma_scalar_bounds() {
    }
}

impl NoPointers for u32 {
    open spec fn image(&self) -> Seq<u8> {
        spec_u32_to_le_bytes(*self)
    }

    open spec fn width() -> nat {
        4
    }

    open spec fn tag() -> u64 {
        3
    }

    proof fn lemma_image_len(x: Self) {
        lemma_auto_spec_u32_to_from_le_bytes();
    }

    proof fn lemma_image_injective(a: Self, b: Self) {
        lemma_auto_spec_u32_to_from_le_bytes();
        assert(spec_u32_to_le_bytes(a).len() == 4);
        assert(spec_u32_from_le_bytes(spec_u32_to_le_bytes(a)) == a);
        assert(spec_u32_to_le_bytes(b).len() == 4);
        assert(spec_u32_from_le_bytes(spec_u32_to_le_bytes(b)) == b);
    }

    fn size() -> (r: usize) {
        4
    }

    fn fingerprint() -> (r: u64) {
        3
    }

    fn to_bytes(&self) -> (r: Vec<u8>) {
        u32_to_le_bytes(*self)
    }

    fn from_bytes(b: &[u8]) -> (r: Self) {
        proof {
            lemma_auto_spec_u32_to_from_le_bytes();
        }
        u32_from_le_bytes(b)
    }
}

impl Scalar for u32 {
    proof fn lemma_scalar_bounds() {
    }
}

impl NoPointers for u64 {
    open spec fn image(&self) -> Seq<u8> {
        spec_u64_to_le_bytes(*self)
    }

    open spec fn width() -> nat {
        8
    }

    open spec fn tag() -> u64 {
        4
    }

    proof fn lemma_image_len(x: Self) {
        lemma_auto_spec_u64_to_from_le_bytes();
    }

    proof fn lemma_image_injective(a: Self, b: Self) {
        lemma_auto_spec_u64_to_from_le_bytes();
        assert(spec_u64_to_le_bytes(a).len() == 8);
        assert(spec_u64_from_le_bytes(spec_u64_to_le_bytes(a)) == a);
        assert(spec_u64_to_le_bytes(b).len() == 8);
        assert(spec_u64_from_le_bytes(spec_u64_to_le_bytes(b)) == b);
    }

    fn size() -> (r: usize) {
        8
    }

    fn fingerprint() -> (r: u64) {
        4
    }

    fn to_bytes(&self) -> (r: Vec<u8>) {
        u64_to_le_bytes(*self)
    }

    fn from_bytes(b: &[u8]) -> (r: Self) {
        proof {
            lemma_auto_spec_u64_to_from_le_bytes();
        }
        u64_from_le_bytes(b)
    }
}

impl Scalar for u64 {
    proof fn lemma_scalar_bounds() {
    }
}


impl NoPointers for i8 {
    open spec fn image(&self) -> Seq<u8> {
        seq![*self as u8]
    }

    open spec fn width() -> nat {
        1
    }

    open spec fn tag() -> u64 {
        5
    }

    proof fn lemma_image_len(x: Self) {
    }

    proof fn lemma_image_injective(a: Self, b: Self) {
        assert(a.image()[0] == a as u8);
        assert(b.image()[0] == b as u8);
        assert(a as u8 == b as u8 ==> a == b) by (bit_vector);
    }

    fn size() -> (r: usize) {
        1
    }

    fn fingerprint() -> (r: u64) {
        5
    }

    fn to_bytes(&self) -> (r: Vec<u8>) {
        let mut v: Vec<u8> = Vec::new();
        v.push(*self as u8);
        proof {
            assert(v@ =~= seq![*self as u8]);
        }
        v
    }

    fn from_bytes(b: &[u8]) -> (r: Self) {
        let u: u8 = b[0];
        assert((u as i8) as u8 == u) by (bit_vector);
        proof {
            assert(b@ =~= seq![u]);
        }
        u as i8
    }
}

impl Scalar for i8 {
    proof fn lemma_scalar_bounds() {
    }
}

impl NoPointers for i16 {
    open spec fn image(&self) -> Seq<u8> {
        spec_u16_to_le_bytes(*self as u16)
    }

    open spec fn width() -> nat {
        2
    }

    open spec fn tag() -> u64 {
        6
    }

    proof fn lemma_image_len(x: Self) {
        lemma_auto_spec_u16_to_from_le_bytes();
    }

    proof fn lemma_image_injective(a: Self, b: Self) {
        lemma_auto_spec_u16_to_from_le_bytes();
        let (ua, ub) = (a as u16, b as u16);
        assert(spec_u16_to_le_bytes(ua).len() == 2);
        assert(spec_u16_to_le_bytes(ub).len() == 2);
        assert(spec_u16_from_le_bytes(spec_u16_to_le_bytes(ua)) == ua);
        assert(spec_u16_from_le_bytes(spec_u16_to_le_bytes(ub)) == ub);
        assert(a as u16 == b as u16 ==> a == b) by (bit_vector);
    }

    fn size() -> (r: usize) {
        2
    }

    fn fingerprint() -> (r: u64) {
        6
    }

    fn to_bytes(&self) -> (r: Vec<u8>) {
        u16_to_le_bytes(*self as u16)
    }

    fn from_bytes(b: &[u8]) -> (r: Self) {
        proof {
            lemma_auto_spec_u16_to_from_le_bytes();
        }
        let u: u16 = u16_from_le_bytes(b);
        assert((u as i16) as u16 == u) by (bit_vector);
        u as i16
    }
}

impl Scalar for i16 {
    proof fn lemma_scalar_bounds() {
    }
}

impl NoPointers for i32 {
    open spec fn image(&self) -> Seq<u8> {
        spec_u32_to_le_bytes(*self as u32)
    }

    open spec fn width() -> nat {
        4
    }

    open spec fn tag() -> u64 {
        7
    }

    proof fn lemma_image_len(x: Self) {
        lemma_auto_spec_u32_to_from_le_bytes();
    }

    proof fn lemma_image_injective(a: Self, b: Self) {
        lemma_auto_spec_u32_to_from_le_bytes();
        let (ua, ub) = (a as u32, b as u32);
        assert(spec_u32_to_le_bytes(ua).len() == 4);
        assert(spec_u32_to_le_bytes(ub).len() == 4);
        assert(spec_u32_from_le_bytes(spec_u32_to_le_bytes(ua)) == ua);
        assert(spec_u32_from_le_bytes(spec_u32_to_le_bytes(ub)) == ub);
        assert(a as u32 == b as u32 ==> a == b) by (bit_vector);
    }

    fn size() -> (r: usize) {
        4
    }

    fn fingerprint() -> (r: u64) {
        7
    }

    fn to_bytes(&self) -> (r: Vec<u8>) {
        u32_to_le_bytes(*self as u32)
    }

    fn from_bytes(b: &[u8]) -> (r: Self) {
        proof {
            lemma_auto_spec_u32_to_from_le_bytes();
        }
        let u: u32 = u32_from_le_bytes(b);
        assert((u as i32) as u32 == u) by (bit_vector);
        u as i32
    }
}

impl Scalar for i32 {
    proof fn lemma_scalar_bounds() {
    }
}

impl NoPointers for i64 {
    open spec fn image(&self) -> Seq<u8> {
        spec_u64_to_le_bytes(*self as u64)
    }

    open spec fn width() -> nat {
        8
    }

    open spec fn tag() -> u64 {
        8
    }

    proof fn lemma_image_len(x: Self) {
        lemma_auto_spec_u64_to_from_le_bytes();
    }

    proof fn lemma_image_injective(a: Self, b: Self) {
        lemma_auto_spec_u64_to_from_le_bytes();
        let (ua, ub) = (a as u64, b as u64);
        assert(spec_u64_to_le_bytes(ua).len() == 8);
        assert(spec_u64_to_le_bytes(ub).len() == 8);
        assert(spec_u64_from_le_bytes(spec_u64_to_le_bytes(ua)) == ua);
        assert(spec_u64_from_le_bytes(spec_u64_to_le_bytes(ub)) == ub);
        assert(a as u64 == b as u64 ==> a == b) by (bit_vector);
    }

    fn size() -> (r: usize) {
        8
    }

    fn fingerprint() -> (r: u64) {
        8
    }

    fn to_bytes(&self) -> (r: Vec<u8>) {
        u64_to_le_bytes(*self as u64)
    }

    fn from_bytes(b: &[u8]) -> (r: Self) {
        proof {
            lemma_auto_spec_u64_to_from_le_bytes();
        }
        let u: u64 = u64_from_le_bytes(b);
        assert((u as i64) as u64 == u) by (bit_vector);
        u as i64
    }
}

impl Scalar for i64 {
    proof fn lemma_scalar_bounds() {
    }
}


impl<A: Scalar, B: Scalar> NoPointers for (A, B) {
    open spec fn image(&self) -> Seq<u8> {
        self.0.image() + self.1.image()
    }

    open spec fn width() -> nat {
        A::width() + B::width()
    }

    open spec fn tag() -> u64 {
        (256 + A::tag() * 16 + B::tag()) as u64
    }

    proof fn lemma_image_len(x: Self) {
        A::lemma_image_len(x.0);
        B::lemma_image_len(x.1);
    }

    proof fn lemma_image_injective(a: Self, b: Self) {
        A::lemma_image_len(a.0);
        A::lemma_image_len(b.0);
        B::lemma_image_len(a.1);
        B::lemma_image_len(b.1);
        let n = A::width() as int;
        let m = Self::width() as int;
        assert(a.0.image() =~= a.image().subrange(0, n));
        assert(b.0.image() =~= b.image().subrange(0, n));
        assert(a.1.image() =~= a.image().subrange(n, m));
        assert(b.1.image() =~= b.image().subrange(n, m));
        A::lemma_image_injective(a.0, b.0);
        B::lemma_image_injective(a.1, b.1);
    }

    fn size() -> (r: usize) {
        proof {
            A::lemma_scalar_bounds();
            B::lemma_scalar_bounds();
        }
        A::size() + B::size()
    }

    fn fingerprint() -> (r: u64) {
        proof {
            A::lemma_scalar_bounds();
            B::lemma_scalar_bounds();
        }
        256 + A::fingerprint() * 16 + B::fingerprint()
    }

    fn to_bytes(&self) -> (r: Vec<u8>) {
        let mut v = self.0.to_bytes();
        let mut w = self.1.to_bytes();
        v.append(&mut w);
        v
    }

    fn from_bytes(b: &[u8]) -> (r: Self) {
        let n = A::size();
        let x = A::from_bytes(slice_subrange(b, 0, n));
        let y = B::from_bytes(slice_subrange(b, n, b.len()));
        proof {
            assert(b@ =~= x.image() + y.image());
        }
        (x, y)
    }
}

impl<A: Scalar, B: Scalar, C: Scalar> NoPointers for (A, B, C) {
    open spec fn image(&self) -> Seq<u8> {
        self.0.image() + self.1.image() + self.2.image()
    }

    open spec fn width() -> nat {
        A::width() + B::width() + C::width()
    }

    open spec fn tag() -> u64 {
        (4096 + A::tag() * 256 + B::tag() * 16 + C::tag()) as u64
    }

    proof fn lemma_image_len(x: Self) {
        A::lemma_image_len(x.0);
        B::lemma_image_len(x.1);
        C::lemma_image_len(x.2);
    }

    proof fn lemma_image_injective(a: Self, b: Self) {
        A::lemma_image_len(a.0);
        A::lemma_image_len(b.0);
        B::lemma_image_len(a.1);
        B::lemma_image_len(b.1);
        C::lemma_image_len(a.2);
        C::lemma_image_len(b.2);
        let n = A::width() as int;
        let k = n + B::width() as int;
        let m = Self::width() as int;
        assert(a.0.image() =~= a.image().subrange(0, n));
        assert(b.0.image() =~= b.image().subrange(0, n));
        assert(a.1.image() =~= a.image().subrange(n, k));
        assert(b.1.image() =~= b.image().subrange(n, k));
        assert(a.2.image() =~= a.image().subrange(k, m));
        assert(b.2.image() =~= b.image().subrange(k, m));
        A::lemma_image_injective(a.0, b.0);
        B::lemma_image_injective(a.1, b.1);
        C::lemma_image_injective(a.2, b.2);
    }

    fn size() -> (r: usize) {
        proof {
            A::lemma_scalar_bounds();
            B::lemma_scalar_bounds();
            C::lemma_scalar_bounds();
        }
        A::size() + B::size() + C::size()
    }

    fn fingerprint() -> (r: u64) {
        proof {
            A::lemma_scalar_bounds();
            B::lemma_scalar_bounds();
            C::lemma_scalar_bounds();
        }
        4096 + A::fingerprint() * 256 + B::fingerprint() * 16 + C::fingerprint()
    }

    fn to_bytes(&self) -> (r: Vec<u8>) {
        let mut v = self.0.to_bytes();
        let mut w = self.1.to_bytes();
        let mut z = self.2.to_bytes();
        v.append(&mut w);
        v.append(&mut z);
        v
    }

    fn from_bytes(b: &[u8]) -> (r: Self) {
        proof {
            A::lemma_scalar_bounds();
            B::lemma_scalar_bounds();
        }
        let n = A::size();
        let k = n + B::size();
        let x = A::from_bytes(slice_subrange(b, 0, n));
        let y = B::from_bytes(slice_subrange(b, n, k));
        let z = C::from_bytes(slice_subrange(b, k, b.len()));
        proof {
            assert(b@ =~= x.image() + y.image() + z.image());
        }
        (x, y, z)
    }
}

} // verus!
