use water::message::Message;
use water::rawmessage::RawMessage;
use water::syncmessage::SyncMessage;
use water::timespec::{self, Timespec};

#[test]
fn fromstr_holds_the_bytes() {
    let m = RawMessage::new_fromstr("hello");
    assert_eq!(m.len(), 5);
    assert_eq!(m.cap(), 5);
    assert_eq!(m.as_slice(), b"hello");
    let e = RawMessage::new_fromstr("");
    assert_eq!(e.len(), 0);
    assert_eq!(e.cap(), 1);
    assert_eq!(e.as_slice(), b"");
}

#[test]
fn zero_capacity_is_promoted() {
    let m = RawMessage::new(0);
    assert_eq!(m.cap(), 1);
    assert_eq!(m.len(), 1);
    assert_eq!(m.readu8(0), 0);
}

#[test]
fn struct_round_trip() {
    let mut m = RawMessage::new(16);
    let v: (u64, u32, u8) = (0x0102_0304_0506_0708, 0xdead_beef, 0x12);
    m.writestruct(0, v);
    let back: (u64, u32, u8) = m.readstruct(0);
    assert_eq!(back, v);
    assert_eq!(m.readu8(0), 0x08);
    let mut out: (i16, u16) = (0, 0);
    m.writestructref(3, &(-2i16, 0xabcdu16));
    m.readstructref(3, &mut out);
    assert_eq!(out, (-2, 0xabcd));
    assert_eq!(m.len(), 16);
}

#[test]
fn integer_helpers() {
    let mut m = RawMessage::new(8);
    m.writeu16(0, 0x1234);
    assert_eq!(m.readu8(0), 0x34);
    assert_eq!(m.readu8(1), 0x12);
    assert_eq!(m.readu16(0), 0x1234);
    m.writeu32(4, 0xa1b2_c3d4);
    assert_eq!(m.readu32(4), 0xa1b2_c3d4);
    m.writei8(2, -5);
    assert_eq!(m.readi8(2), -5);
    m.writei16(0, -300);
    assert_eq!(m.readi16(0), -300);
    m.writei32(4, -70000);
    assert_eq!(m.readi32(4), -70000);
    m.writeu8(3, 200);
    assert_eq!(m.readu8(3), 200);
}

#[test]
fn dup_is_independent() {
    let mut a = RawMessage::new_fromstr("abc");
    let mut b = a.dup();
    b.writeu8(0, b'x');
    assert_eq!(a.as_slice(), b"abc");
    a.writeu8(1, b'y');
    assert_eq!(b.as_slice(), b"xbc");
    assert_eq!(a.as_slice(), b"ayc");
}

#[test]
fn write_from_slice_extends_length() {
    let mut m = RawMessage::new(8);
    m.setlen(2);
    m.write_from_slice(1, b"abc");
    assert_eq!(m.len(), 4);
    assert_eq!(&m.as_slice()[1..4], b"abc");
    m.write_from_slice(0, b"z");
    assert_eq!(m.len(), 4);
}

#[test]
fn resize_keeps_what_fits() {
    let mut m = RawMessage::new_fromstr("abcdef");
    m.resize(3);
    assert_eq!(m.cap(), 3);
    assert_eq!(m.len(), 3);
    assert_eq!(m.as_slice(), b"abc");
    m.resize(5);
    assert_eq!(m.cap(), 5);
    assert_eq!(m.len(), 3);
    assert_eq!(m.readu8(4), 0);
    m.resize(0);
    assert_eq!(m.cap(), 1);
}

#[test]
fn message_clone_and_dup() {
    let mut m = Message::new_fromraw(RawMessage::new_fromstr("hi"));
    m.canloop = true;
    m.dstsid = 3;
    let c = m.clone();
    assert!(!c.canloop);
    assert_eq!(c.dstsid, 3);
    assert_eq!(c.get_rawref().as_slice(), b"hi");
    let d = m.dup();
    assert!(d.canloop);
    let d2 = d.dup_ifok();
    assert!(d2.is_raw());
    assert_eq!(d2.get_raw().as_slice(), b"hi");
}

#[test]
fn message_kinds() {
    let s = Message::new_sync(4u8);
    assert!(s.is_sync() && !s.is_raw() && !s.is_clone());
    assert!(s.is_type::<u8>());
    assert!(!s.is_type::<i8>());
    assert_eq!(s.cap(), 1);
    assert_eq!(s.get_syncref().hash, SyncMessage::new(0u8).hash);
    let c = Message::new_clone(());
    assert!(c.is_clone());
    assert!(c.is_type::<()>());
    assert_eq!(c.cap(), 1);
    let r = Message::new_raw(0);
    assert!(r.is_raw());
    assert!(!r.is_type::<()>());
    assert_eq!(r.cap(), 1);
}

#[test]
fn message_mutable_access() {
    let mut c = Message::new_clone(5u32);
    c.get_clonemutref().payload.writeu32(0, 6);
    assert_eq!(c.get_cloneref().get_payload::<u32>(), 6);
    let mut s = Message::new_sync(7u16);
    s.get_syncmutref().payload.writeu16(0, 8);
    assert_eq!(s.get_sync().get_payload::<u16>(), 8);
}

#[test]
fn tuple_fingerprints_differ() {
    let a = Message::new_clone((1u8, 2u16));
    assert!(a.is_type::<(u8, u16)>());
    assert!(!a.is_type::<(u16, u8)>());
    assert!(!a.is_type::<(u8, u16, u8)>());
}

#[test]
fn timespec_add_carries_and_saturates() {
    let r = timespec::add(
        Timespec { sec: 1, nsec: 900_000_000 },
        Timespec { sec: 0, nsec: 200_000_000 },
    );
    assert_eq!(r, Timespec { sec: 2, nsec: 100_000_000 });
    let r = timespec::add(Timespec { sec: i64::MAX, nsec: 0 }, Timespec { sec: 1, nsec: 0 });
    assert_eq!(r, Timespec { sec: i64::MAX, nsec: 999_999_999 });
    let r = timespec::add(Timespec { sec: i64::MIN, nsec: 0 }, Timespec { sec: -1, nsec: 0 });
    assert_eq!(r, Timespec { sec: i64::MIN, nsec: 0 });
    assert!(Timespec { sec: 1, nsec: 1 }.is_after(&Timespec { sec: 1, nsec: 0 }));
    assert_eq!(
        Timespec { sec: 3, nsec: 0 }.earliest(Timespec { sec: 2, nsec: 5 }),
        Timespec { sec: 2, nsec: 5 }
    );
}

#[test]
fn is_type_compares_fingerprints_only() {
    let mut s = SyncMessage::new(5u64);
    s.payload = RawMessage::new(1);
    assert!(s.is_type::<u64>());
    assert!(!s.is_type::<u32>());
}
