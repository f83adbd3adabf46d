use items_service::handlers::{
    create_item, delete_item, get_item, get_items, health_check, update_item,
};
use items_service::records::Payload;
use items_service::store::Store;

fn payload(name: &str, value: i32) -> Payload {
    Payload { name: name.to_string(), value }
}

fn create_and_return_hex(store: &mut Store, name: &str, value: i32, now: i64) -> String {
    let (status, resp) = create_item(store, &payload(name, value), now);
    assert_eq!(status, 200);
    assert!(!resp.error);
    resp._id.expect("create returns the assigned identifier").to_hex()
}

#[test]
fn health_check_reports_reachable_store() {
    let (status, resp) = health_check(true);
    assert_eq!(status, 200);
    assert!(!resp.error);
}

#[test]
fn health_check_reports_unreachable_store_without_crashing() {
    let (status, resp) = health_check(false);
    assert_eq!(status, 500);
    assert!(resp.error);
    assert!(resp.message.is_some());
}

#[test]
fn create_then_get_returns_identical_record() {
    let mut store = Store::new();
    let hex = create_and_return_hex(&mut store, "widget", 42, 1000);
    let (status, resp) = get_item(&store, &hex);
    assert_eq!(status, 200);
    assert!(!resp.error);
    assert_eq!(resp.name.as_deref(), Some("widget"));
    assert_eq!(resp.value, Some(42));
    assert_eq!(resp.created_at, Some(1000));
    assert_eq!(resp.updated_at, Some(1000));
}

#[test]
fn create_rejects_invalid_payload_without_storing() {
    let mut store = Store::new();
    let (status, resp) = create_item(&mut store, &payload("", 42), 1000);
    assert_eq!(status, 400);
    assert!(resp.error);
    assert_eq!(store.record_count(), 0);
}

#[test]
fn get_with_malformed_id_yields_400() {
    let store = Store::new();
    let (status, resp) = get_item(&store, "not-an-id");
    assert_eq!(status, 400);
    assert!(resp.error);
    let (status, _) = get_item(&store, "");
    assert_eq!(status, 400);
}

#[test]
fn update_with_malformed_id_yields_400() {
    let mut store = Store::new();
    let (status, resp) = update_item(&mut store, "not-an-id", &payload("gadget", 7), 1000);
    assert_eq!(status, 400);
    assert!(resp.error);
    let (status, _) = update_item(&mut store, "", &payload("gadget", 7), 1000);
    assert_eq!(status, 400);
}

#[test]
fn delete_with_malformed_id_yields_400() {
    let mut store = Store::new();
    let (status, resp) = delete_item(&mut store, "not-an-id");
    assert_eq!(status, 400);
    assert!(resp.error);
    let (status, _) = delete_item(&mut store, "");
    assert_eq!(status, 400);
}

#[test]
fn get_with_unknown_id_yields_404() {
    let store = Store::new();
    let (status, resp) = get_item(&store, "0123456789abcdef01234567");
    assert_eq!(status, 404);
    assert!(resp.error);
}

#[test]
fn update_replaces_fields_and_keeps_creation_time() {
    let mut store = Store::new();
    let hex = create_and_return_hex(&mut store, "widget", 42, 1000);
    let (status, resp) = update_item(&mut store, &hex, &payload("gadget", 7), 2000);
    assert_eq!(status, 200);
    assert!(!resp.error);
    assert_eq!(resp.name.as_deref(), Some("gadget"));
    assert_eq!(resp.value, Some(7));
    assert_eq!(resp.created_at, Some(1000));
    assert_eq!(resp.updated_at, Some(2000));
    let (status, resp) = get_item(&store, &hex);
    assert_eq!(status, 200);
    assert_eq!(resp.name.as_deref(), Some("gadget"));
    assert_eq!(resp.updated_at, Some(2000));
}

#[test]
fn update_with_same_timestamp_keeps_updated_at_equal() {
    let mut store = Store::new();
    let hex = create_and_return_hex(&mut store, "widget", 42, 1000);
    let (status, resp) = update_item(&mut store, &hex, &payload("gadget", 7), 1000);
    assert_eq!(status, 200);
    assert_eq!(resp.created_at, Some(1000));
    assert_eq!(resp.updated_at, Some(1000));
}

#[test]
fn update_rejects_invalid_payload_without_storing() {
    let mut store = Store::new();
    let hex = create_and_return_hex(&mut store, "widget", 42, 1000);
    let (status, resp) = update_item(&mut store, &hex, &payload("", 7), 2000);
    assert_eq!(status, 400);
    assert!(resp.error);
    let (_, resp) = get_item(&store, &hex);
    assert_eq!(resp.name.as_deref(), Some("widget"));
}

#[test]
fn update_with_unknown_id_yields_404() {
    let mut store = Store::new();
    let (status, resp) = update_item(&mut store, "0123456789abcdef01234567", &payload("gadget", 7), 1000);
    assert_eq!(status, 404);
    assert!(resp.error);
}

#[test]
fn delete_then_get_yields_404() {
    let mut store = Store::new();
    let hex = create_and_return_hex(&mut store, "widget", 42, 1000);
    let (status, resp) = delete_item(&mut store, &hex);
    assert_eq!(status, 200);
    assert!(!resp.error);
    let (status, resp) = get_item(&store, &hex);
    assert_eq!(status, 404);
    assert!(resp.error);
}

#[test]
fn delete_with_unknown_id_yields_404() {
    let mut store = Store::new();
    let (status, resp) = delete_item(&mut store, "0123456789abcdef01234567");
    assert_eq!(status, 404);
    assert!(resp.error);
}

#[test]
fn get_all_returns_remaining_records_after_deletions() {
    let mut store = Store::new();
    let first = create_and_return_hex(&mut store, "first", 1, 1000);
    let _second = create_and_return_hex(&mut store, "second", 2, 1001);
    let _third = create_and_return_hex(&mut store, "third", 3, 1002);
    let (status, all) = get_items(&store);
    assert_eq!(status, 200);
    assert_eq!(all.len(), 3);

    let (status, _) = delete_item(&mut store, &first);
    assert_eq!(status, 200);
    let (status, all) = get_items(&store);
    assert_eq!(status, 200);
    assert_eq!(all.len(), 2);
    assert_eq!(all[0].name.as_deref(), Some("second"));
    assert_eq!(all[0].value, Some(2));
    assert_eq!(all[1].name.as_deref(), Some("third"));
    assert_eq!(all[1].value, Some(3));
}

#[test]
fn get_all_on_empty_store_returns_empty_list() {
    let store = Store::new();
    let (status, all) = get_items(&store);
    assert_eq!(status, 200);
    assert!(all.is_empty());
}

#[test]
fn full_item_lifecycle() {
    let mut store = Store::new();
    let (status, resp) = create_item(&mut store, &payload("widget", 42), 1000);
    assert!(status == 200 || status == 201);
    let hex = resp._id.expect("identifier assigned").to_hex();

    let (status, resp) = get_item(&store, &hex);
    assert_eq!(status, 200);
    assert_eq!(resp.name.as_deref(), Some("widget"));
    assert_eq!(resp.value, Some(42));

    let (status, _) = delete_item(&mut store, &hex);
    assert_eq!(status, 200);

    let (status, resp) = get_item(&store, &hex);
    assert_eq!(status, 404);
    assert!(resp.error);
}
