use neural_mail::store::{Category, DbEmail, MailStore, StorageError};

fn email(id: i32, subject: &str, sender: &str, body: &str, category: Category) -> DbEmail {
    DbEmail {
        id,
        subject: subject.to_string(),
        sender: sender.to_string(),
        date: "1h ago".to_string(),
        body: body.to_string(),
        has_attachment: false,
        category,
    }
}

fn seeded() -> MailStore {
    let mut s = MailStore::new();
    let batch = vec![
        email(1, "Project Update", "boss@company.com", "We are on track", Category::Inbox),
        email(2, "Invoice #1001", "billing@services.io", "Your invoice is due", Category::Finance),
        email(3, "Lunch?", "friend@email.com", "Grab lunch today?", Category::Social),
    ];
    s.replace_all(batch).unwrap();
    s
}

#[test]
fn new_store_is_empty() {
    let s = MailStore::new();
    assert_eq!(s.count(), 0);
    assert!(s.all().is_empty());
}

#[test]
fn replace_all_installs_batch() {
    let s = seeded();
    assert_eq!(s.count(), 3);
    let all = s.all();
    assert_eq!(all.len(), 3);
    assert_eq!(all[0].id, 1);
    assert_eq!(all[1].subject, "Invoice #1001");
    assert_eq!(all[2].category, Category::Social);
}

#[test]
fn replace_all_duplicate_id_leaves_old_contents() {
    let mut s = seeded();
    let bad = vec![
        email(7, "A", "a@x", "aa", Category::Inbox),
        email(8, "B", "b@x", "bb", Category::Inbox),
        email(7, "C", "c@x", "cc", Category::Inbox),
    ];
    let r = s.replace_all(bad);
    assert!(matches!(r, Err(StorageError::DuplicateId)));
    // the old set stands fully intact, never a mix
    let all = s.all();
    assert_eq!(all.len(), 3);
    assert_eq!(all[0].id, 1);
    assert_eq!(all[1].id, 2);
    assert_eq!(all[2].id, 3);
    assert_eq!(all[0].subject, "Project Update");
}

#[test]
fn search_empty_query_returns_everything() {
    let s = seeded();
    let all = s.all();
    let hits = s.search("");
    assert_eq!(hits.len(), all.len());
    for (h, a) in hits.iter().zip(all.iter()) {
        assert_eq!(h.id, a.id);
    }
}

#[test]
fn search_whitespace_query_returns_everything() {
    let s = seeded();
    let all = s.all();
    let hits = s.search("   ");
    assert_eq!(hits.len(), all.len());
    for (h, a) in hits.iter().zip(all.iter()) {
        assert_eq!(h.id, a.id);
    }
}

#[test]
fn search_unicode_whitespace_query_returns_everything() {
    let s = seeded();
    let all = s.all();
    // no-break space and em space: whitespace as str::trim counts it
    let hits = s.search("\u{a0}\u{2003}");
    assert_eq!(hits.len(), all.len());
    for (h, a) in hits.iter().zip(all.iter()) {
        assert_eq!(h.id, a.id);
    }
}

#[test]
fn search_matches_subject_sender_and_body() {
    let s = seeded();
    let by_subject = s.search("Invoice");
    assert_eq!(by_subject.len(), 1);
    assert_eq!(by_subject[0].id, 2);
    let by_sender = s.search("friend@");
    assert_eq!(by_sender.len(), 1);
    assert_eq!(by_sender[0].id, 3);
    let by_body = s.search("on track");
    assert_eq!(by_body.len(), 1);
    assert_eq!(by_body[0].id, 1);
    assert!(s.search("absent-needle").is_empty());
}

#[test]
fn search_is_case_sensitive() {
    let s = seeded();
    assert_eq!(s.search("project").len(), 0);
    assert_eq!(s.search("Project").len(), 1);
}

#[test]
fn by_category_returns_exact_matches() {
    let s = seeded();
    let fin = s.by_category(Category::Finance);
    assert_eq!(fin.len(), 1);
    assert_eq!(fin[0].id, 2);
    assert!(s.by_category(Category::Promotions).is_empty());
}

#[test]
fn update_category_relabels_one_row() {
    let mut s = seeded();
    s.update_category(1, Category::Work).unwrap();
    let work = s.by_category(Category::Work);
    assert_eq!(work.len(), 1);
    assert_eq!(work[0].id, 1);
    assert!(s.by_category(Category::Inbox).is_empty());
}

#[test]
fn update_category_missing_id_is_success_and_noop() {
    let mut s = seeded();
    let r = s.update_category(99, Category::Work);
    assert!(r.is_ok());
    // nothing mutated: the listings still reflect only real rows
    assert!(s.by_category(Category::Work).is_empty());
    assert_eq!(s.by_category(Category::Inbox).len(), 1);
    assert_eq!(s.by_category(Category::Finance).len(), 1);
    assert_eq!(s.by_category(Category::Social).len(), 1);
    assert_eq!(s.count(), 3);
}

#[test]
fn racing_updates_settle_on_one_valid_label() {
    let mut s = MailStore::new();
    let mut batch = Vec::new();
    for id in 1..=6 {
        batch.push(email(id, "S", "x@y", "B", Category::Inbox));
    }
    s.replace_all(batch).unwrap();
    // two writers touch id 5 at overlapping times; the store serializes them
    s.update_category(5, Category::Work).unwrap();
    s.update_category(5, Category::Social).unwrap();
    let work = s.by_category(Category::Work);
    let social = s.by_category(Category::Social);
    let in_work = work.iter().filter(|e| e.id == 5).count();
    let in_social = social.iter().filter(|e| e.id == 5).count();
    // the row ends under exactly one of the two labels, never corrupted
    assert_eq!(in_work + in_social, 1);
    assert_eq!(in_social, 1);
    let row = &social[0];
    assert_eq!(row.subject, "S");
    assert_eq!(row.body, "B");
}

#[test]
fn get_setting_absent_key_yields_default() {
    let s = MailStore::new();
    assert_eq!(s.get_setting("theme_mode", "system"), "system");
}

#[test]
fn set_setting_upserts() {
    let mut s = MailStore::new();
    s.set_setting("theme_mode", "dark");
    assert_eq!(s.get_setting("theme_mode", "system"), "dark");
    s.set_setting("theme_mode", "light");
    assert_eq!(s.get_setting("theme_mode", "system"), "light");
    s.set_setting("sidebar_width", "570");
    assert_eq!(s.get_setting("sidebar_width", "0"), "570");
    assert_eq!(s.get_setting("theme_mode", "system"), "light");
}

#[test]
fn settings_do_not_touch_messages() {
    let mut s = seeded();
    s.set_setting("theme_mode", "dark");
    assert_eq!(s.count(), 3);
}

#[test]
fn storage_error_messages() {
    assert_eq!(
        StorageError::DuplicateId.message(),
        "duplicate message id in batch"
    );
    assert_eq!(
        StorageError::Engine("disk full".to_string()).message(),
        "disk full"
    );
}
