use kftun::protocol::{
    msg_announce, msg_data, msg_echo, msg_kind, Message, HDR_ANNOUNCE, HDR_DATA, HDR_ECHO,
    SIGNATURE,
};

fn control_bytes(hdr: u16) -> Vec<u8> {
    let mut v = hdr.to_le_bytes().to_vec();
    v.extend_from_slice(&SIGNATURE.to_le_bytes());
    v
}

#[test]
fn announce_is_header_then_signature() {
    let mut buf = vec![0xAAu8; 32];
    let msg = msg_announce(&mut buf).to_vec();
    assert_eq!(msg, control_bytes(HDR_ANNOUNCE));
    assert_eq!(&msg[..2], &[0xCE, 0xA9]);
    assert_eq!(
        &msg[2..],
        &[0x2F, 0xC8, 0xA9, 0x2C, 0xE5, 0x81, 0xD9, 0x9F, 0x06, 0x44, 0xB7, 0x82, 0x96, 0xC3, 0xE4, 0x15]
    );
    assert_eq!(&buf[18..], &[0xAA; 14]);
}

#[test]
fn echo_is_header_then_signature() {
    let mut buf = vec![0u8; 18];
    let msg = msg_echo(&mut buf).to_vec();
    assert_eq!(msg, control_bytes(HDR_ECHO));
    assert_eq!(&msg[..2], &[0x50, 0xEC]);
}

#[test]
fn data_carries_inverted_port_and_payload() {
    let mut buf = vec![0x55u8; 16];
    let msg = msg_data(&mut buf, 0x1234, &[1, 2, 3]).to_vec();
    assert_eq!(msg, vec![0x7A, 0xDA, 0xCB, 0xED, 1, 2, 3]);
    assert_eq!(HDR_DATA.to_le_bytes(), [0x7A, 0xDA]);
    assert_eq!(&buf[7..], &[0x55; 9]);
}

#[test]
fn data_with_empty_payload_fits_exactly() {
    let mut buf = vec![0u8; 4];
    let msg = msg_data(&mut buf, 0, &[]).to_vec();
    assert_eq!(msg, vec![0x7A, 0xDA, 0xFF, 0xFF]);
}

#[test]
fn announce_reads_back() {
    let mut buf = vec![0u8; 64];
    let msg = msg_announce(&mut buf).to_vec();
    assert!(matches!(msg_kind(&msg), Some(Message::Announce)));
    // The rest of the buffer after the signature does not matter.
    assert!(matches!(msg_kind(&buf), Some(Message::Announce)));
}

#[test]
fn echo_reads_back() {
    let mut buf = vec![7u8; 20];
    let msg = msg_echo(&mut buf).to_vec();
    assert!(matches!(msg_kind(&msg), Some(Message::Echo)));
}

#[test]
fn data_reads_back() {
    for &port in &[0u16, 1, 7707, 0x8000, 0xFFFF] {
        let payload: Vec<u8> = (0..100u8).collect();
        let mut buf = vec![0u8; 200];
        let msg = msg_data(&mut buf, port, &payload).to_vec();
        match msg_kind(&msg) {
            Some(Message::Data(p, d)) => {
                assert_eq!(p, port);
                assert_eq!(d, &payload[..]);
            }
            _ => panic!("not a data message"),
        }
    }
}

#[test]
fn bad_signature_is_no_message() {
    let mut msg = control_bytes(HDR_ECHO);
    msg[17] ^= 1;
    assert!(msg_kind(&msg).is_none());
    let mut msg = control_bytes(HDR_ANNOUNCE);
    msg[2] ^= 0x80;
    assert!(msg_kind(&msg).is_none());
}

#[test]
fn short_control_message_is_no_message() {
    let msg = control_bytes(HDR_ANNOUNCE);
    assert!(msg_kind(&msg[..17]).is_none());
    assert!(msg_kind(&msg[..2]).is_none());
}

#[test]
fn unknown_or_missing_header_is_no_message() {
    assert!(msg_kind(&[]).is_none());
    assert!(msg_kind(&[0x7A]).is_none());
    assert!(msg_kind(&[0xDA, 0x7A, 0, 0]).is_none());
    assert!(msg_kind(&[1, 2, 3, 4, 5]).is_none());
}

#[test]
fn data_header_with_only_port_has_empty_payload() {
    match msg_kind(&[0x7A, 0xDA, 0x00, 0xFF]) {
        Some(Message::Data(p, d)) => {
            assert_eq!(p, 0x00FF);
            assert!(d.is_empty());
        }
        _ => panic!("not a data message"),
    }
}

#[test]
fn read_data_message_encodes_back_to_itself() {
    let wire = [0x7Au8, 0xDA, 0x34, 0x12, 9, 8, 7, 6];
    let (port, payload) = match msg_kind(&wire) {
        Some(Message::Data(p, d)) => (p, d.to_vec()),
        _ => panic!("not a data message"),
    };
    assert_eq!(port, 0xEDCB);
    let mut buf = vec![0u8; 16];
    assert_eq!(msg_data(&mut buf, port, &payload), &wire[..]);
}

#[test]
fn read_control_message_starts_with_its_encoding() {
    let mut wire = control_bytes(HDR_ECHO);
    wire.extend_from_slice(&[1, 2, 3]);
    assert!(matches!(msg_kind(&wire), Some(Message::Echo)));
    let mut buf = vec![0u8; 18];
    assert_eq!(msg_echo(&mut buf), &wire[..18]);
}
