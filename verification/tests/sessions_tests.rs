use kftun::peer::PeerAddr;
use kftun::sessions::{DatagramAction, Sessions};

fn v4(ip: u32, port: u16) -> PeerAddr {
    PeerAddr { is_v6: false, ip: ip as u128, port, flowinfo: 0, scope_id: 0 }
}

fn forwarded(s: &Sessions<u32>, from: PeerAddr, len: usize) -> Option<u32> {
    match s.on_datagram(from, len) {
        DatagramAction::Forward(x) => Some(*x),
        _ => None,
    }
}

#[test]
fn new_client_opens_and_then_forwards() {
    let mut s: Sessions<u32> = Sessions::new(0, 5, false);
    let a = v4(0x7F000001, 5000);
    assert!(matches!(s.on_datagram(a, 10), DatagramAction::Open));
    assert!(s.opened(a, 11, true));
    assert_eq!(forwarded(&s, a, 10), Some(11));
    assert_eq!(forwarded(&s, a, 0), Some(11));
    assert!(matches!(s.on_datagram(v4(0x7F000001, 5001), 10), DatagramAction::Open));
}

#[test]
fn failed_first_send_registers_nothing() {
    let mut s: Sessions<u32> = Sessions::new(0, 5, false);
    let a = v4(1, 1);
    assert!(!s.opened(a, 11, false));
    assert!(matches!(s.on_datagram(a, 3), DatagramAction::Open));
}

#[test]
fn session_is_never_replaced() {
    let mut s: Sessions<u32> = Sessions::new(0, 5, false);
    let a = v4(1, 1);
    assert!(s.opened(a, 11, true));
    assert!(!s.opened(a, 22, true));
    assert_eq!(forwarded(&s, a, 3), Some(11));
}

#[test]
fn empty_datagrams_ignored_only_where_asked() {
    let mut s: Sessions<u32> = Sessions::new(0, 5, true);
    let a = v4(1, 1);
    assert!(matches!(s.on_datagram(a, 0), DatagramAction::Ignore));
    assert!(s.opened(a, 11, true));
    assert!(matches!(s.on_datagram(a, 0), DatagramAction::Ignore));
    assert_eq!(forwarded(&s, a, 1), Some(11));
}

#[test]
fn ipv6_peers_differ_by_scope() {
    let mut s: Sessions<u32> = Sessions::new(0, 5, false);
    let a = PeerAddr { is_v6: true, ip: 1, port: 7, flowinfo: 0, scope_id: 1 };
    let b = PeerAddr { scope_id: 2, ..a };
    assert!(s.opened(a, 1, true));
    assert!(matches!(s.on_datagram(b, 3), DatagramAction::Open));
}

#[test]
fn cleanup_only_when_due_and_only_expired() {
    let mut s: Sessions<u32> = Sessions::new(100, 50, false);
    let a = v4(1, 1);
    let b = v4(2, 2);
    s.opened(a, 11, true);
    s.opened(b, 22, true);
    assert!(!s.cleanup_due(149));
    assert!(!s.tick(149, &vec![a]));
    assert_eq!(forwarded(&s, a, 1), Some(11));
    assert!(!s.cleanup_due(20));
    assert!(s.cleanup_due(150));
    assert!(s.tick(150, &vec![a, v4(3, 3)]));
    assert!(matches!(s.on_datagram(a, 1), DatagramAction::Open));
    assert_eq!(forwarded(&s, b, 1), Some(22));
    // The cleanup time moved to 150.
    assert!(!s.cleanup_due(199));
    assert!(s.tick(200, &vec![]));
    assert_eq!(forwarded(&s, b, 1), Some(22));
}

#[test]
fn zero_period_cleans_every_tick() {
    let mut s: Sessions<u32> = Sessions::new(10, 0, false);
    assert!(s.cleanup_due(10));
    assert!(s.cleanup_due(0));
    assert!(s.tick(10, &vec![]));
}
