use battery_health::commands::RequestMethod;
use battery_health::network::{body_len, posted_content, should_reconnect, PostRoute, WifiEventKind, MAX_BODY_LEN};

#[test]
fn body_length_limit() {
    assert_eq!(body_len(None), Some(0));
    assert_eq!(body_len(Some(12)), Some(12));
    assert_eq!(body_len(Some(500)), Some(500));
    assert_eq!(body_len(Some(501)), None);
    assert_eq!(body_len(Some(1 << 40)), None);
    assert_eq!(MAX_BODY_LEN, 500);
}

#[test]
fn body_must_be_utf8() {
    assert_eq!(posted_content(b"time=5".to_vec()), Some("time=5".to_string()));
    assert_eq!(posted_content(vec![0xC3, 0xBC]), Some("ü".to_string()));
    assert_eq!(posted_content(vec![0xFF, 0x20]), None);
    assert_eq!(posted_content(vec![0xC0, 0x80]), None);
    assert_eq!(posted_content(vec![]), Some(String::new()));
}

#[test]
fn routes() {
    assert_eq!(PostRoute::Delete.method(), RequestMethod::RESET);
    assert_eq!(PostRoute::ChangeV.method(), RequestMethod::CHANGE_V);
    assert_eq!(PostRoute::ChangeTime.method(), RequestMethod::CHANGE_T);
    assert!(!PostRoute::Delete.reads_body());
    assert!(PostRoute::ChangeV.reads_body());
}

#[test]
fn reconnect_only_after_disconnect() {
    assert!(should_reconnect(WifiEventKind::StaDisconnected));
    assert!(!should_reconnect(WifiEventKind::StaConnected));
    assert!(!should_reconnect(WifiEventKind::Other));
}
