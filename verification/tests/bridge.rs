use neural_mail::bridge::{ChatEntry, SessionBridge};

#[test]
fn fresh_session_is_live_and_idle() {
    let b = SessionBridge::new();
    assert!(b.is_live());
    assert!(!b.is_loading());
    assert_eq!(b.len(), 0);
}

#[test]
fn submit_appends_user_message_and_raises_loading() {
    let mut b = SessionBridge::new();
    assert!(b.submit("summarize my inbox"));
    assert!(b.is_loading());
    assert_eq!(b.len(), 1);
    assert!(b.entry(0).is_user);
    assert_eq!(b.entry(0).text, "summarize my inbox");
}

#[test]
fn deliver_appends_reply_and_clears_loading() {
    let mut b = SessionBridge::new();
    b.submit("question");
    assert!(b.deliver("answer".to_string()));
    assert!(!b.is_loading());
    assert_eq!(b.len(), 2);
    assert!(!b.entry(1).is_user);
    assert_eq!(b.entry(1).text, "answer");
}

#[test]
fn interleaved_deliveries_are_each_kept_once_in_order() {
    let mut b = SessionBridge::new();
    b.submit("first");
    b.submit("second");
    // two concurrent requests complete in some order; each reply is appended
    assert!(b.deliver("reply A".to_string()));
    assert!(b.deliver("reply B".to_string()));
    assert_eq!(b.len(), 4);
    assert_eq!(b.entry(2).text, "reply A");
    assert_eq!(b.entry(3).text, "reply B");
}

#[test]
fn delivery_after_teardown_is_dropped() {
    let mut b = SessionBridge::new();
    b.submit("question");
    b.invalidate();
    assert!(!b.is_live());
    assert!(!b.deliver("stale result".to_string()));
    assert_eq!(b.len(), 1);
    assert!(!b.set_loading(false));
    assert!(b.is_loading());
}

#[test]
fn post_gates_on_liveness() {
    let mut b = SessionBridge::new();
    assert!(b.post(ChatEntry { is_user: false, text: "hello".to_string() }));
    b.invalidate();
    assert!(!b.post(ChatEntry { is_user: false, text: "dropped".to_string() }));
    assert_eq!(b.len(), 1);
    assert_eq!(b.entry(0).text, "hello");
}
