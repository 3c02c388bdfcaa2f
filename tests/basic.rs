use water::endpoint::{Endpoint, IoErrorCode, IoResult, RecvStep};
use water::message::Message;
use water::net::Net;
use water::rawmessage::RawMessage;
use water::timespec::{self, Timespec};

#[test]
fn rawmessage() {
    let m = RawMessage::new_fromstr("ABCDE");
    assert!(m.readu8(0) == 65);
    assert!(m.readu8(1) == 66);
    assert!(m.readu8(2) == 67);
    assert!(m.readu8(3) == 68);
    assert!(m.readu8(4) == 69);
    assert!(m.len() == 5);
}

#[test]
fn rawmsgstress() {
    let mut v: Vec<RawMessage> = Vec::new();

    for _ in 0..10000usize {
        let rm = RawMessage::new(32);
        v.push(rm.dup());
        v.push(rm);
    }
}

fn endpoint(net: &mut Net) -> Endpoint {
    net.new_endpoint().expect("an endpoint id is left")
}

fn far_deadline() -> Timespec {
    timespec::deadline(Timespec { sec: 5, nsec: 0 })
}

#[test]
fn echo_pair() {
    let mut net = Net::new(100);
    let a = endpoint(&mut net);
    let b = endpoint(&mut net);
    assert_eq!(a.sendclonetype(&mut net, 3u64), 1);
    match b.recvorblock(&mut net, far_deadline()) {
        RecvStep::Done(IoResult::Value(m)) => {
            assert!(m.is_type::<u64>());
            assert!(!m.is_type::<u32>());
            assert_eq!(m.get_clone().get_payload::<u64>(), 3);
        }
        _ => panic!("expected the value"),
    }
}

#[test]
fn sync_uniqueness() {
    let mut net = Net::new(100);
    let a = endpoint(&mut net);
    let b = endpoint(&mut net);
    let c = endpoint(&mut net);
    let hello = u64::from_le_bytes(*b"hello\0\0\0");
    assert_eq!(a.sendsynctype(&mut net, hello), 2);
    let rb = b.recv(&mut net);
    let rc = c.recv(&mut net);
    assert!(rb.is_ok() != rc.is_ok());
    let (won, lost) = if rb.is_ok() { (rb, rc) } else { (rc, rb) };
    assert!(lost.err().code == IoErrorCode::NoMessages);
    let m = won.ok();
    assert!(m.is_sync());
    assert_eq!(m.get_sync().get_payload::<u64>(), hello);
    assert!(!b.hasmessages(&net));
    assert!(!c.hasmessages(&net));
}

#[test]
fn sync_second_receiver_skips_taken_share() {
    let mut net = Net::new(7);
    let a = endpoint(&mut net);
    let b = endpoint(&mut net);
    let c = endpoint(&mut net);
    assert_eq!(a.sendsynctype(&mut net, 11u32), 2);
    assert_eq!(a.sendclonetype(&mut net, 12u32), 2);
    let first = b.recv(&mut net).ok();
    assert_eq!(first.get_sync().get_payload::<u32>(), 11);
    // c's share in the sync message is dead; it gets the clone behind it.
    let second = c.recv(&mut net).ok();
    assert_eq!(second.get_clone().get_payload::<u32>(), 12);
}

#[test]
fn deadline_times_out_or_sleeps() {
    let mut net = Net::new(5);
    let a = endpoint(&mut net);
    let when = Timespec { sec: 1000, nsec: 200_000_000 };
    let before = Timespec { sec: 1000, nsec: 100_000_000 };
    let after = Timespec { sec: 1000, nsec: 500_000_000 };
    assert!(matches!(a.recvorblock_at(&mut net, when, before), RecvStep::Sleep));
    assert_eq!(a.getwaketime(&net), when);
    match a.recvorblock_at(&mut net, when, after) {
        RecvStep::Done(r) => assert!(r.err().code == IoErrorCode::TimedOut),
        RecvStep::Sleep => panic!("the deadline has passed"),
    }
    assert_eq!(a.getwaketime(&net), Timespec::never());
}

#[test]
fn deadline_in_the_past_times_out_now() {
    let mut net = Net::new(5);
    let a = endpoint(&mut net);
    match a.recvorblock(&mut net, Timespec { sec: 0, nsec: 0 }) {
        RecvStep::Done(r) => assert!(r.err().code == IoErrorCode::TimedOut),
        RecvStep::Sleep => panic!("1970 has passed"),
    }
}

#[test]
fn deadline_lies_ahead_of_now() {
    let d = timespec::deadline(Timespec { sec: 100, nsec: 0 });
    assert!(d.sec > 1_000_000_000 + 100);
}

#[test]
fn stress_raw_three_workers() {
    let mut net = Net::new(234);
    let workers: Vec<Endpoint> = (0..3).map(|_| endpoint(&mut net)).collect();
    for (i, w) in workers.iter().enumerate() {
        let mut msg = Message::new_raw(13);
        msg.get_rawmutref().writestructref(0, &(i as u64, 0u32, 0x12u8));
        assert_eq!(msg.cap(), 13);
        assert_eq!(w.send(&mut net, msg), 2);
    }
    for (i, w) in workers.iter().enumerate() {
        let mut seen = [0u32; 3];
        loop {
            let r = w.recv(&mut net);
            if r.is_err() {
                assert!(r.err().code == IoErrorCode::NoMessages);
                break;
            }
            let raw = r.ok().get_raw();
            let (a, b, c): (u64, u32, u8) = raw.readstruct(0);
            assert_eq!((b, c), (0, 0x12));
            seen[a as usize] += 1;
        }
        for j in 0..3 {
            assert_eq!(seen[j], if i == j { 0 } else { 1 });
        }
    }
}

#[test]
fn pending_limit() {
    let mut net = Net::new(9);
    let sender = endpoint(&mut net);
    let ep = endpoint(&mut net);
    ep.setlimitpending(&mut net, 2);
    let mut total = 0;
    for _ in 0..5 {
        let mut m = Message::new_raw(4);
        m.dsteid = ep.geteid(&net);
        total += sender.send(&mut net, m);
    }
    assert_eq!(total, 2);
    assert!(ep.recv(&mut net).is_ok());
    assert!(ep.recv(&mut net).is_ok());
    assert!(ep.recv(&mut net).is_err());
}

#[test]
fn memory_limit() {
    let mut net = Net::new(9);
    let sender = endpoint(&mut net);
    let ep = endpoint(&mut net);
    ep.setlimitmemory(&mut net, 10);
    let mut total = 0;
    for _ in 0..3 {
        total += sender.send(&mut net, Message::new_raw(8));
    }
    assert_eq!(total, 2);
    assert!(ep.recv(&mut net).is_ok());
    assert_eq!(sender.send(&mut net, Message::new_raw(8)), 1);
}

#[test]
fn loopback_suppression() {
    let mut net = Net::new(3);
    let a = endpoint(&mut net);
    assert_eq!(a.sendclonetype(&mut net, 1u32), 0);
    assert!(a.recv(&mut net).err().code == IoErrorCode::NoMessages);

    let mut m = Message::new_clone(1u32);
    m.dstsid = 1;
    m.canloop = true;
    assert_eq!(a.send(&mut net, m), 1);
    let got = a.recv(&mut net).ok();
    assert_eq!(got.get_clone().get_payload::<u32>(), 1);
}

#[test]
fn misaddressed_messages_are_not_delivered() {
    let mut net = Net::new(40);
    let a = endpoint(&mut net);
    let b = endpoint(&mut net);
    let mut m = Message::new_raw(1);
    m.dstsid = 77;
    assert_eq!(a.send(&mut net, m), 0);
    let mut m = Message::new_raw(1);
    m.dsteid = b.geteid(&net) + 100;
    assert_eq!(a.send(&mut net, m), 0);
    let mut m = Message::new_raw(1);
    m.dstsid = 40;
    m.dsteid = b.geteid(&net);
    assert_eq!(a.send(&mut net, m), 1);
    assert!(b.recv(&mut net).is_ok());
}

#[test]
fn local_net_only_reaches_endpoints_at_the_net_id() {
    let mut net = Net::new(40);
    let a = endpoint(&mut net);
    let b = endpoint(&mut net);
    let bridge = endpoint(&mut net);
    bridge.setsid(&mut net, 41);
    assert_eq!(a.sendclonetype(&mut net, 5u8), 1);
    assert!(b.hasmessages(&net));
    assert!(!bridge.hasmessages(&net));
    assert_eq!(bridge.getsid(&net), 41);
}

#[test]
fn give_offers_to_one_endpoint() {
    let mut net = Net::new(2);
    let a = endpoint(&mut net);
    let b = endpoint(&mut net);
    let m = Message::new_clone(9i16);
    assert!(b.give(&mut net, &m));
    assert!(!a.hasmessages(&net));
    let got = b.recv(&mut net).ok();
    assert!(!got.canloop);
    assert_eq!(got.get_clone().get_payload::<i16>(), 9);
}

#[test]
fn handles_clone_and_drop() {
    let mut net = Net::new(1);
    let a = endpoint(&mut net);
    let b = endpoint(&mut net);
    assert_eq!(a.getpeercount(&net), 2);
    let a2 = net.clone_endpoint(&a);
    assert_eq!(a2.id(), a.id());
    net.drop_endpoint(a);
    assert_eq!(net.getepcount(), 2);
    net.drop_endpoint(a2);
    assert_eq!(net.getepcount(), 1);
    assert_eq!(b.getpeercount(&net), 1);
    net.drop_endpoint(b);
    assert_eq!(net.getepcount(), 0);
}

#[test]
fn fresh_endpoint_ids_avoid_ids_in_use() {
    let mut net = Net::new(1);
    let a = endpoint(&mut net);
    let next = a.geteid(&net) + 1;
    a.seteid(&mut net, next);
    let b = endpoint(&mut net);
    assert_ne!(b.geteid(&net), next);
    assert_ne!(b.id(), a.id());
    assert_eq!(a.getgid(&net), water::net::UNUSED_ID);
    a.setgid(&mut net, 4);
    assert_eq!(a.getgid(&net), 4);
}

#[test]
fn explicit_endpoint_address() {
    let mut net = Net::new(8);
    let e = Endpoint::new(8, 500, &mut net).expect("a key is left");
    assert_eq!(e.geteid(&net), 500);
    assert_eq!(e.getsid(&net), 8);
    assert_eq!(net.getserveraddr(), 8);
}

#[test]
fn sendx_keeps_the_source() {
    let mut net = Net::new(8);
    let a = endpoint(&mut net);
    let b = endpoint(&mut net);
    let mut m = Message::new_raw(2);
    m.srcsid = 8;
    m.srceid = b.geteid(&net);
    assert_eq!(a.sendx(&mut net, m), 1);
    let got = a.recv(&mut net).ok();
    assert_eq!(got.srceid, b.geteid(&net));
}

#[test]
fn deadline_blocks_for_the_duration() {
    let mut net = Net::new(5);
    let a = endpoint(&mut net);
    let start = std::time::Instant::now();
    let when = timespec::deadline(Timespec { sec: 0, nsec: 200_000_000 });
    let r = loop {
        match a.recvorblock(&mut net, when) {
            RecvStep::Done(r) => break r,
            RecvStep::Sleep => std::hint::spin_loop(),
        }
    };
    let elapsed = start.elapsed().as_millis();
    assert!(r.err().code == IoErrorCode::TimedOut);
    assert!(elapsed >= 200 && elapsed <= 500, "elapsed {} ms", elapsed);
    assert_eq!(a.getwaketime(&net), Timespec::never());
}

#[test]
fn neverwakeme_clears_the_wake_time() {
    let mut net = Net::new(5);
    let a = endpoint(&mut net);
    let when = Timespec { sec: 10, nsec: 0 };
    assert!(matches!(
        a.recvorblock_at(&mut net, when, Timespec { sec: 9, nsec: 0 }),
        RecvStep::Sleep
    ));
    assert_eq!(a.getwaketime(&net), when);
    a.neverwakeme(&mut net);
    assert_eq!(a.getwaketime(&net), Timespec::never());
}

#[test]
fn parked_slots_are_collected_once_no_share_is_left() {
    let mut net = Net::new(6);
    let a = endpoint(&mut net);
    let b = endpoint(&mut net);
    let c = endpoint(&mut net);
    assert_eq!(a.sendsynctype(&mut net, 1u8), 2);
    assert!(b.recv(&mut net).is_ok());
    // c still holds a (dead) share in slot 0.
    assert_eq!(net.collect_parked(), 1);
    assert!(c.recv(&mut net).is_err());
    assert_eq!(net.collect_parked(), 0);
    // A later sync message is parked afresh and still reaches one receiver.
    assert_eq!(a.sendsynctype(&mut net, 2u8), 2);
    let r = c.recv(&mut net).ok();
    assert_eq!(r.get_sync().get_payload::<u8>(), 2);
    assert!(b.recv(&mut net).is_err());
}

#[test]
fn give_takes_a_sync_message_once() {
    let mut net = Net::new(2);
    let a = endpoint(&mut net);
    let b = endpoint(&mut net);
    let m = Message::new_sync(77u64);
    assert!(b.give(&mut net, &m));
    assert!(!a.hasmessages(&net));
    let got = b.recv(&mut net).ok();
    assert_eq!(got.get_sync().get_payload::<u64>(), 77);
    assert!(b.recv(&mut net).is_err());
    assert_eq!(net.collect_parked(), 0);
}

#[test]
fn give_refuses_misaddressed_and_full() {
    let mut net = Net::new(2);
    let b = endpoint(&mut net);
    let mut m = Message::new_sync(1u8);
    m.dsteid = b.geteid(&net) + 1;
    assert!(!b.give(&mut net, &m));
    assert!(!b.hasmessages(&net));
    b.setlimitpending(&mut net, 1);
    assert!(b.give(&mut net, &Message::new_sync(2u8)));
    assert!(!b.give(&mut net, &Message::new_sync(3u8)));
    assert!(!b.give(&mut net, &Message::new_raw(3)));
    assert_eq!(b.recv(&mut net).ok().get_sync().get_payload::<u8>(), 2);
    assert!(b.recv(&mut net).is_err());
}
