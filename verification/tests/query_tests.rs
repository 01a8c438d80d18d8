use kftun::public_relay;
use kftun::query::{buf_correct_port, check_query_reply, find_zero, suffix};
use kftun::relay;

const TAG: [u8; 12] = [0x1B, 0xFF, 0xFF, 0xFF, b' ', b'[', b'P', b'R', b'O', b'X', b'Y', b']'];

/// A status reply of 30 bytes in a buffer of 64: the name "abcd" with its
/// length byte 5 at byte 18 and its end at byte 23.
fn reply() -> (Vec<u8>, usize) {
    let mut buf = vec![0xEEu8; 64];
    buf[..5].copy_from_slice(&[0x80, 0, 0, 0, 0]);
    for i in 5..30 {
        buf[i] = 0x30 + i as u8;
    }
    buf[18] = 5;
    buf[19..23].copy_from_slice(b"abcd");
    buf[23] = 0;
    (buf, 30)
}

#[test]
fn suffix_is_the_proxy_tag() {
    assert_eq!(suffix(), TAG);
}

#[test]
fn port_goes_little_endian_at_ten() {
    let mut buf = vec![0u8; 12];
    buf_correct_port(&mut buf, 0x1E1B);
    assert_eq!(buf, vec![0, 0, 0, 0, 0, 0, 0, 0, 0, 0, 0x1B, 0x1E]);
}

#[test]
fn query_reply_prefix() {
    assert!(check_query_reply(&[0x80, 0, 0, 0, 0], 5));
    assert!(check_query_reply(&[0x80, 0, 0, 0, 0, 9, 9], 7));
    assert!(!check_query_reply(&[0x80, 0, 0, 0, 0], 4));
    assert!(!check_query_reply(&[0x80, 0, 0, 1, 0], 5));
    assert!(!check_query_reply(&[0x81, 0, 0, 0, 0], 5));
}

#[test]
fn find_zero_from_offset() {
    assert_eq!(find_zero(&[0, 1, 0, 2], 1), Some(2));
    assert_eq!(find_zero(&[0, 1, 2], 1), None);
    assert_eq!(find_zero(&[1, 2], 5), None);
}

#[test]
fn relay_inserts_tag_at_end_of_name() {
    let (mut buf, mut len) = reply();
    let old = buf.clone();
    assert!(relay::can_insert_name_suffix(&buf, len));
    relay::buf_insert_name_suffix(&mut buf, &mut len);
    assert_eq!(len, 42);
    let mut expected = old[..23].to_vec();
    expected.extend_from_slice(&TAG);
    expected.extend_from_slice(&old[23..30]);
    expected.extend_from_slice(&old[42..]);
    expected[18] = 5 + 12;
    assert_eq!(buf, expected);
}

#[test]
fn relay_tag_at_empty_name() {
    let (mut buf, mut len) = reply();
    buf[18] = 0;
    let old = buf.clone();
    relay::buf_insert_name_suffix(&mut buf, &mut len);
    assert_eq!(len, 42);
    assert_eq!(&buf[18..30], &[0x1B + 12, 0xFF, 0xFF, 0xFF, b' ', b'[', b'P', b'R', b'O', b'X', b'Y', b']']);
    assert_eq!(&buf[30..42], &old[18..30]);
}

#[test]
fn relay_no_room_leaves_reply() {
    let (mut buf, _) = reply();
    let mut len = 53;
    let old = buf.clone();
    relay::buf_insert_name_suffix(&mut buf, &mut len);
    assert_eq!((buf, len), (old, 53));
}

#[test]
fn relay_long_name_leaves_reply() {
    let (mut buf, mut len) = reply();
    buf[18] = 243;
    let old = buf.clone();
    relay::buf_insert_name_suffix(&mut buf, &mut len);
    assert_eq!((buf, len), (old, 30));
    let (mut buf, mut len) = reply();
    buf[18] = 242;
    relay::buf_insert_name_suffix(&mut buf, &mut len);
    assert_eq!(len, 42);
    assert_eq!(buf[18], 254);
}

#[test]
fn relay_no_name_end_leaves_reply() {
    let (mut buf, mut len) = reply();
    for b in buf[18..].iter_mut() {
        if *b == 0 {
            *b = 1;
        }
    }
    let old = buf.clone();
    relay::buf_insert_name_suffix(&mut buf, &mut len);
    assert_eq!((buf, len), (old, 30));
}

#[test]
fn relay_insertion_undefined_when_name_ends_after_reply() {
    let (mut buf, _) = reply();
    buf[23] = 1;
    buf[40] = 0;
    assert!(!relay::can_insert_name_suffix(&buf, 30));
    assert!(relay::can_insert_name_suffix(&buf, 41));
    assert!(!relay::can_insert_name_suffix(&buf, 65));
    assert!(!relay::can_insert_name_suffix(&[0u8; 18], 0));
}

#[test]
fn relay_patches_status_reply() {
    let (mut buf, mut n) = reply();
    let old = buf.clone();
    assert!(relay::can_patch_query_reply(&buf, n, 7707));
    relay::patch_query_reply(&mut buf, &mut n, 7707);
    assert_eq!(n, 42);
    assert_eq!(&buf[10..12], &7707u16.to_le_bytes());
    assert_eq!(&buf[23..35], &TAG);
    assert_eq!(&buf[..10], &old[..10]);
}

#[test]
fn relay_leaves_other_replies() {
    let (mut buf, mut n) = reply();
    buf[0] = 0x81;
    let old = buf.clone();
    relay::patch_query_reply(&mut buf, &mut n, 7707);
    assert_eq!((buf, n), (old, 30));
}

#[test]
fn public_relay_never_changes_the_name() {
    let (mut buf, mut len) = reply();
    let old = buf.clone();
    public_relay::buf_insert_name_suffix(&mut buf, &mut len);
    assert_eq!((buf, len), (old, 30));
    let (mut buf, mut len) = reply();
    buf[18] = 250;
    for b in buf[19..].iter_mut() {
        if *b == 0 {
            *b = 1;
        }
    }
    let old = buf.clone();
    assert!(public_relay::can_insert_name_suffix(&buf, len));
    public_relay::buf_insert_name_suffix(&mut buf, &mut len);
    assert_eq!((buf, len), (old, 30));
}

#[test]
fn public_relay_insertion_undefined_on_long_terminated_name() {
    let (mut buf, len) = reply();
    buf[18] = 244;
    assert!(!public_relay::can_insert_name_suffix(&buf, len));
    buf[18] = 243;
    assert!(public_relay::can_insert_name_suffix(&buf, len));
}

#[test]
fn public_relay_patches_only_the_port() {
    let (mut buf, mut n) = reply();
    let mut expected = buf.clone();
    expected[10..12].copy_from_slice(&2000u16.to_le_bytes());
    assert!(public_relay::can_patch_query_reply(&buf, n, 2000));
    public_relay::patch_query_reply(&mut buf, &mut n, 2000);
    assert_eq!((buf, n), (expected, 30));
}
