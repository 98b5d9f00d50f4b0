use roseflower::api::{finish_reply, lookup_reply, read_reply, write_reply, DisbandRequest};

#[test]
fn read_reply_success_and_failure() {
    let ok = read_reply::<Vec<i32>>(Ok(vec![1, 2]));
    assert_eq!(ok.status, 200);
    assert!(ok.success);
    assert_eq!(ok.message, None);
    assert_eq!(ok.data, Some(vec![1, 2]));
    let err = read_reply::<Vec<i32>>(Err("disk I/O error".to_string()));
    assert_eq!(err.status, 500);
    assert!(!err.success);
    assert_eq!(err.message.as_deref(), Some("disk I/O error"));
    assert_eq!(err.data, None);
}

#[test]
fn lookup_reply_not_found() {
    let found = lookup_reply(Ok(Some(3u8)));
    assert_eq!((found.status, found.success, found.data), (200, true, Some(3u8)));
    let missing = lookup_reply::<u8>(Ok(None));
    assert_eq!(missing.status, 404);
    assert!(!missing.success);
    assert_eq!(missing.message.as_deref(), Some("Room not found"));
    assert_eq!(missing.data, None);
    let err = lookup_reply::<u8>(Err("boom".to_string()));
    assert_eq!(err.status, 500);
    assert_eq!(err.message.as_deref(), Some("boom"));
}

#[test]
fn write_and_finish_replies() {
    let ok = write_reply(Ok(()));
    assert_eq!((ok.status, ok.success, ok.game_id, ok.error), (200, true, None, None));
    let err = write_reply(Err("locked".to_string()));
    assert_eq!((err.status, err.success), (500, false));
    assert_eq!(err.error.as_deref(), Some("locked"));
    let fin = finish_reply(Ok(42));
    assert_eq!((fin.status, fin.success, fin.game_id), (200, true, Some(42)));
    let fin_err = finish_reply(Err("x".to_string()));
    assert_eq!((fin_err.status, fin_err.success, fin_err.game_id), (500, false, None));
}

#[test]
fn disband_request_holds_match_id() {
    let r = DisbandRequest { match_id: 77 };
    assert_eq!(r.match_id, 77);
}
