use yinchabot::settings::Settings;
use yinchabot::settings::Subscribe;

#[test]
fn new_subscription_has_default_timezone() {
    let s = Subscribe::new(42);
    assert_eq!(s.chat_id, 42);
    assert_eq!(s.timezone, "UTC+8");
}

#[test]
fn subscription_equality_is_by_chat_id() {
    let a = Subscribe::new(7);
    let mut b = Subscribe::new(7);
    b.update_tz("UTC+1");
    assert!(a == b);
    let c = Subscribe::new(8);
    assert!(a != c);
}

#[test]
fn update_changes_chat_and_timezone() {
    let mut s = Subscribe::new(1);
    s.update(2, "UTC+3");
    assert_eq!(s.chat_id, 2);
    assert_eq!(s.timezone, "UTC+3");
    s.update_tz("UTC+5");
    assert_eq!(s.chat_id, 2);
    assert_eq!(s.timezone, "UTC+5");
}

#[test]
fn empty_store_has_no_subscriptions() {
    let s = Settings::new();
    assert!(s.all().is_empty());
}

#[test]
fn loading_no_records_yields_empty_store() {
    let s = Settings::from_parts(Vec::new(), String::from("Settings.json"));
    assert!(s.all().is_empty());
    assert_eq!(s.get_file_path().unwrap(), "Settings.json");
}

#[test]
fn add_sub_deduplicates_by_chat_id() {
    let mut s = Settings::new();
    assert!(s.add_sub(Subscribe::new(10)));
    assert!(!s.add_sub(Subscribe::new(10)));
    let count = s.all().iter().filter(|r| r.chat_id == 10).count();
    assert_eq!(count, 1);
    assert_eq!(s.all().len(), 1);
}

#[test]
fn add_sub_keeps_distinct_chats() {
    let mut s = Settings::new();
    assert!(s.add_sub(Subscribe::new(1)));
    assert!(s.add_sub(Subscribe::new(2)));
    assert!(s.add_sub(Subscribe::new(3)));
    assert_eq!(s.all().len(), 3);
    assert_eq!(s.all()[0].chat_id, 1);
    assert_eq!(s.all()[1].chat_id, 2);
    assert_eq!(s.all()[2].chat_id, 3);
}

#[test]
fn duplicate_records_in_loaded_file_are_dropped() {
    let mut records = Vec::new();
    records.push(Subscribe::new(5));
    let mut second = Subscribe::new(5);
    second.update_tz("UTC+0");
    records.push(second);
    records.push(Subscribe::new(6));
    let s = Settings::from_parts(records, String::from("p"));
    assert_eq!(s.all().len(), 2);
    assert_eq!(s.all()[0].chat_id, 5);
    // the first record for a chat wins
    assert_eq!(s.all()[0].timezone, "UTC+8");
    assert_eq!(s.all()[1].chat_id, 6);
}

#[test]
fn missing_file_path_is_an_error() {
    let s = Settings::new();
    let err = s.get_file_path().unwrap_err();
    assert_eq!(
        err.message(),
        "Setting file path does not exist, ensure call 'Settings::new()' first."
    );
}
