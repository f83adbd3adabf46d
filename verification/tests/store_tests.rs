use items_service::ids::parse_object_id;
use items_service::records::Payload;
use items_service::store::Store;

fn payload(name: &str, value: i32) -> Payload {
    Payload { name: name.to_string(), value }
}

#[test]
fn new_store_is_empty() {
    let store = Store::new();
    assert_eq!(store.record_count(), 0);
    assert_eq!(store.next_counter(), 0);
    assert_eq!(store.current_clock(), i64::MIN);
}

#[test]
fn insert_assigns_fresh_identifiers_and_advances_counter() {
    let mut store = Store::new();
    let a = store.insert("first".to_string(), 1, 1000);
    let b = store.insert("second".to_string(), 2, 1001);
    assert!(!a.eq_id(&b));
    assert_eq!(store.record_count(), 2);
    assert_eq!(store.next_counter(), 2);
    assert_eq!(store.current_clock(), 1001);
}

#[test]
fn find_by_id_returns_the_stored_record() {
    let mut store = Store::new();
    let id = store.insert("widget".to_string(), 42, 1000);
    let item = store.find_by_id(&id).expect("just inserted");
    assert_eq!(item.name, "widget");
    assert_eq!(item.value, 42);
    assert_eq!(item.created_at, 1000);
    assert_eq!(item.updated_at, 1000);
    assert!(item.id.expect("assigned").eq_id(&id));
}

#[test]
fn update_by_id_changes_only_the_matched_record() {
    let mut store = Store::new();
    let a = store.insert("first".to_string(), 1, 1000);
    let b = store.insert("second".to_string(), 2, 1000);
    let matched = store.update_by_id(&a, &payload("renamed", 9), 2000);
    assert!(matched);
    let got_a = store.find_by_id(&a).expect("still present");
    assert_eq!(got_a.name, "renamed");
    assert_eq!(got_a.value, 9);
    assert_eq!(got_a.created_at, 1000);
    assert_eq!(got_a.updated_at, 2000);
    let got_b = store.find_by_id(&b).expect("untouched");
    assert_eq!(got_b.name, "second");
    assert_eq!(got_b.updated_at, 1000);
}

#[test]
fn update_miss_reports_unmatched_and_changes_nothing() {
    let mut store = Store::new();
    store.insert("first".to_string(), 1, 1000);
    let absent = parse_object_id("0123456789abcdef01234567").expect("valid id");
    let matched = store.update_by_id(&absent, &payload("renamed", 9), 2000);
    assert!(!matched);
    assert_eq!(store.record_count(), 1);
}

#[test]
fn delete_by_id_removes_exactly_the_matched_record() {
    let mut store = Store::new();
    let a = store.insert("first".to_string(), 1, 1000);
    let b = store.insert("second".to_string(), 2, 1000);
    assert!(store.delete_by_id(&a));
    assert_eq!(store.record_count(), 1);
    assert!(store.find_by_id(&a).is_none());
    assert!(store.find_by_id(&b).is_some());
    assert!(!store.delete_by_id(&a));
}

#[test]
fn deleted_identifier_is_never_reassigned() {
    let mut store = Store::new();
    let a = store.insert("first".to_string(), 1, 1000);
    assert!(store.delete_by_id(&a));
    let b = store.insert("second".to_string(), 2, 1001);
    assert!(!a.eq_id(&b));
    assert!(store.find_by_id(&a).is_none());
}

#[test]
fn find_all_returns_records_in_insertion_order() {
    let mut store = Store::new();
    store.insert("first".to_string(), 1, 1000);
    store.insert("second".to_string(), 2, 1001);
    let all = store.find_all();
    assert_eq!(all.len(), 2);
    assert_eq!(all[0].name, "first");
    assert_eq!(all[1].name, "second");
}
