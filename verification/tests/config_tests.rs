use kftun::decimal::{parse_u16, parse_u64, parse_unsigned};
use kftun::relay::{
    get_cleanup_period_secs, get_timeout_secs, ResetTracker, DEFAULT_TIMEOUT_SECS,
    ENV_TIMEOUT_SECS,
};
use kftun::session::{
    client_recv_error_reported, server_recv_error_action, RecvErrorKind, ServerRecvAction,
};

#[test]
fn decimal_like_str_parse() {
    for s in ["0", "7", "+7", "007", "65535", "65536", "", "+", "-1", "-0", " 1", "1 ", "1a", "１", "++1"] {
        assert_eq!(parse_u16(s), s.parse::<u16>().ok(), "{:?}", s);
        assert_eq!(parse_u64(s), s.parse::<u64>().ok(), "{:?}", s);
    }
    assert_eq!(parse_u64("18446744073709551615"), Some(u64::MAX));
    assert_eq!(parse_u64("18446744073709551616"), None);
    assert_eq!(parse_u64("000000000000000000000000000042"), Some(42));
    assert_eq!(parse_u16("65535"), Some(65535));
    assert_eq!(parse_u16("70000"), None);
    assert_eq!(parse_unsigned("100", 99), None);
    assert_eq!(parse_unsigned("99", 99), Some(99));
}

#[test]
fn timeout_from_environment() {
    assert_eq!(ENV_TIMEOUT_SECS, "KFTUN_TIMEOUT_SECS");
    assert_eq!(get_timeout_secs(None), DEFAULT_TIMEOUT_SECS);
    assert_eq!(DEFAULT_TIMEOUT_SECS, 10);
    assert_eq!(get_timeout_secs(Some("30")), 30);
    assert_eq!(get_timeout_secs(Some("+0")), 0);
    assert_eq!(get_timeout_secs(Some("abc")), 10);
    assert_eq!(get_timeout_secs(Some("")), 10);
    assert_eq!(get_timeout_secs(Some("-5")), 10);
}

#[test]
fn cleanup_period_is_half_the_timeout() {
    assert_eq!(get_cleanup_period_secs(10), 5);
    assert_eq!(get_cleanup_period_secs(11), 5);
    assert_eq!(get_cleanup_period_secs(1), 0);
    assert_eq!(get_cleanup_period_secs(u64::MAX), u64::MAX / 2);
}

#[test]
fn client_side_errors_reported() {
    assert!(!client_recv_error_reported(RecvErrorKind::WouldBlock));
    assert!(!client_recv_error_reported(RecvErrorKind::TimedOut));
    assert!(!client_recv_error_reported(RecvErrorKind::ConnectionReset));
    assert!(client_recv_error_reported(RecvErrorKind::Other));
}

#[test]
fn server_side_errors() {
    assert_eq!(server_recv_error_action(RecvErrorKind::WouldBlock), ServerRecvAction::Ignore);
    assert_eq!(server_recv_error_action(RecvErrorKind::TimedOut), ServerRecvAction::Expire);
    assert_eq!(server_recv_error_action(RecvErrorKind::ConnectionReset), ServerRecvAction::Report);
    assert_eq!(server_recv_error_action(RecvErrorKind::Other), ServerRecvAction::Report);
}

#[test]
fn reset_run_reported_once() {
    let mut t = ResetTracker::new();
    assert_eq!(t.on_error(RecvErrorKind::ConnectionReset), ServerRecvAction::Report);
    assert_eq!(t.on_error(RecvErrorKind::ConnectionReset), ServerRecvAction::Ignore);
    assert_eq!(t.on_error(RecvErrorKind::ConnectionReset), ServerRecvAction::Ignore);
    assert_eq!(t.on_error(RecvErrorKind::Other), ServerRecvAction::Report);
    assert_eq!(t.on_error(RecvErrorKind::ConnectionReset), ServerRecvAction::Report);
    t.on_receive();
    assert_eq!(t.on_error(RecvErrorKind::ConnectionReset), ServerRecvAction::Report);
    assert_eq!(t.on_error(RecvErrorKind::WouldBlock), ServerRecvAction::Ignore);
    assert_eq!(t.on_error(RecvErrorKind::ConnectionReset), ServerRecvAction::Report);
    assert_eq!(t.on_error(RecvErrorKind::TimedOut), ServerRecvAction::Expire);
}
