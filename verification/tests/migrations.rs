use docbox_ops::migrate::{apply_pending, pending_migrations, record_applied};
use docbox_ops::order::{name_le, name_lt};

fn names(list: &[&str]) -> Vec<String> {
    list.iter().map(|s| s.to_string()).collect()
}

#[test]
fn name_order_basics() {
    assert!(name_lt("0001_init", "0002_users"));
    assert!(!name_lt("0002_users", "0001_init"));
    assert!(!name_lt("0001_init", "0001_init"));
    assert!(name_le("0001_init", "0001_init"));
    assert!(name_lt("", "a"));
    assert!(!name_lt("a", ""));
    // a proper prefix comes first
    assert!(name_lt("m1", "m10"));
    assert!(!name_lt("m10", "m1"));
}

#[test]
fn pending_is_everything_after_last_applied() {
    let applied = names(&["m1", "m2"]);
    let available = names(&["m1", "m2", "m3"]);
    let pending = pending_migrations(&applied, &available, None);
    assert_eq!(pending, names(&["m3"]));
}

#[test]
fn pending_from_empty_history_is_everything() {
    let applied: Vec<String> = Vec::new();
    let available = names(&["m1", "m2", "m3"]);
    let pending = pending_migrations(&applied, &available, None);
    assert_eq!(pending, available);
}

#[test]
fn pending_respects_target_cap() {
    let applied = names(&["m1"]);
    let available = names(&["m1", "m2", "m3", "m4"]);
    let target = "m3".to_string();
    let pending = pending_migrations(&applied, &available, Some(&target));
    assert_eq!(pending, names(&["m2", "m3"]));
}

#[test]
fn nothing_pending_when_up_to_date() {
    let applied = names(&["m1", "m2", "m3"]);
    let available = names(&["m1", "m2", "m3"]);
    let pending = pending_migrations(&applied, &available, None);
    assert!(pending.is_empty());
}

#[test]
fn applying_twice_finds_nothing_pending() {
    let mut applied = names(&["m1"]);
    let available = names(&["m1", "m2", "m3"]);
    let first_run = apply_pending(&mut applied, &available, None);
    assert_eq!(first_run, names(&["m2", "m3"]));
    assert_eq!(applied, names(&["m1", "m2", "m3"]));
    let second_run = apply_pending(&mut applied, &available, None);
    assert!(second_run.is_empty());
    assert_eq!(applied, names(&["m1", "m2", "m3"]));
}

#[test]
fn record_appends_in_order() {
    let mut applied = names(&["m1"]);
    let ran = names(&["m2", "m3"]);
    record_applied(&mut applied, &ran);
    assert_eq!(applied, names(&["m1", "m2", "m3"]));
}
