use neural_mail::accounts::{age_label, format_address, master_password_acceptable};

#[test]
fn address_joins_mailbox_and_host() {
    assert_eq!(format_address("alice", "example.com"), "alice@example.com");
    assert_eq!(format_address("", "host"), "@host");
}

#[test]
fn master_password_minimum_length() {
    assert!(!master_password_acceptable(""));
    assert!(!master_password_acceptable("abc"));
    assert!(master_password_acceptable("abcd"));
    assert!(master_password_acceptable("a longer passphrase"));
}

#[test]
fn age_labels_by_magnitude() {
    assert_eq!(age_label(1), "1m ago");
    assert_eq!(age_label(59), "59m ago");
    assert_eq!(age_label(60), "1h ago");
    assert_eq!(age_label(125), "2h ago");
    assert_eq!(age_label(1439), "23h ago");
    assert_eq!(age_label(1440), "1d ago");
    assert_eq!(age_label(2880), "2d ago");
    assert_eq!(age_label(59999), "41d ago");
}
