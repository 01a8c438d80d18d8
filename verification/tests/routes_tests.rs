use kftun::protocol::Message;
use kftun::routes::{ClientSideRoutes, ServerReply};

#[test]
fn client_datagrams_wait_for_announce() {
    let mut r: ClientSideRoutes<u32, u8> = ClientSideRoutes::new();
    assert_eq!(r.from_client(5000, 1), None);
    assert_eq!(r.from_server(&Message::Announce, 77), ServerReply::Announce);
    assert_eq!(r.from_client(5000, 1), Some(77));
    assert_eq!(r.from_server(&Message::Announce, 78), ServerReply::Announce);
    assert_eq!(r.from_client(6000, 2), Some(78));
}

#[test]
fn data_goes_to_last_client_of_port() {
    let mut r: ClientSideRoutes<u32, u8> = ClientSideRoutes::new();
    let payload = [1u8, 2, 3];
    assert_eq!(r.from_server(&Message::Data(5000, &payload), 9), ServerReply::Drop);
    r.from_client(5000, 1);
    r.from_client(6000, 2);
    assert_eq!(r.from_server(&Message::Data(5000, &payload), 9), ServerReply::ToClient(1, 5000));
    r.from_client(5000, 3);
    assert_eq!(r.from_server(&Message::Data(5000, &payload), 9), ServerReply::ToClient(3, 5000));
    assert_eq!(r.from_server(&Message::Data(6000, &[]), 9), ServerReply::ToClient(2, 6000));
    assert_eq!(r.from_server(&Message::Data(7000, &[]), 9), ServerReply::Drop);
}

#[test]
fn echo_changes_nothing() {
    let mut r: ClientSideRoutes<u32, u8> = ClientSideRoutes::new();
    assert_eq!(r.from_server(&Message::Echo, 5), ServerReply::Echo);
    assert_eq!(r.from_client(1, 1), None);
}

use kftun::peer::PeerAddr;
use kftun::routes::{FromClient, ServerSidePorts};

fn local(port: u16) -> PeerAddr {
    PeerAddr { is_v6: false, ip: 0x7F000001, port, flowinfo: 0, scope_id: 0 }
}

#[test]
fn failed_receive_announces() {
    let p: ServerSidePorts<u32> = ServerSidePorts::new(local(7707));
    assert!(matches!(p.from_client(None), FromClient::Announce));
    assert!(matches!(p.from_client(Some(&Message::Echo)), FromClient::Ignore));
    assert!(matches!(p.from_client(Some(&Message::Announce)), FromClient::Ignore));
}

#[test]
fn data_port_gets_one_socket() {
    let mut p: ServerSidePorts<u32> = ServerSidePorts::new(local(7707));
    let payload = [1u8, 2];
    assert!(matches!(p.from_client(Some(&Message::Data(5000, &payload))), FromClient::Open));
    assert!(p.add(5000, 11));
    assert!(!p.add(5000, 22));
    assert!(matches!(p.from_client(Some(&Message::Data(5000, &payload))), FromClient::SendOn(&11)));
    assert!(p.add(6000, 33));
    assert_eq!(p.count(), 2);
    assert_eq!(p.port_at(0), Some((5000, &11)));
    assert_eq!(p.port_at(1), Some((6000, &33)));
    assert_eq!(p.port_at(2), None);
}

#[test]
fn only_server_datagrams_reach_the_client() {
    let p: ServerSidePorts<u32> = ServerSidePorts::new(local(7707));
    let mut buf = vec![0xEEu8; 8];
    assert!(p.from_server(local(7708), 5000, &[9], &mut buf).is_none());
    assert_eq!(buf, vec![0xEE; 8]);
    let msg = p.from_server(local(7707), 5000, &[9], &mut buf).unwrap().to_vec();
    assert_eq!(msg, vec![0x7A, 0xDA, !0x88u8, !0x13u8, 9]);
}
