use items_service::handlers::status_of_error;
use items_service::records::{
    apply_update, error_envelope, success_envelope, to_info, to_record, validate_payload, ApiError,
    Payload,
};

fn payload(name: &str, value: i32) -> Payload {
    Payload { name: name.to_string(), value }
}

#[test]
fn validate_accepts_non_empty_name() {
    assert!(validate_payload(&payload("widget", 42)));
}

#[test]
fn validate_rejects_empty_name() {
    assert!(!validate_payload(&payload("", 42)));
}

#[test]
fn to_record_sets_both_timestamps_to_now() {
    let item = to_record(&payload("widget", 42), 1000).expect("valid payload");
    assert!(item.id.is_none());
    assert_eq!(item.name, "widget");
    assert_eq!(item.value, 42);
    assert_eq!(item.created_at, 1000);
    assert_eq!(item.updated_at, 1000);
}

#[test]
fn to_record_rejects_missing_name() {
    let err = to_record(&payload("", 42), 1000).expect_err("empty name");
    assert_eq!(err, ApiError::ValidationError);
}

#[test]
fn apply_update_keeps_identifier_and_creation_time() {
    let before = to_record(&payload("widget", 42), 1000).expect("valid payload");
    let updated = apply_update(&before, &payload("gadget", 7), 2000);
    assert!(updated.id.is_none());
    assert_eq!(updated.name, "gadget");
    assert_eq!(updated.value, 7);
    assert_eq!(updated.created_at, 1000);
    assert_eq!(updated.updated_at, 2000);
}

#[test]
fn success_envelope_copies_every_field() {
    let item = to_record(&payload("widget", 42), 1000).expect("valid payload");
    let resp = success_envelope(&item);
    assert!(!resp.error);
    assert!(resp.message.is_none());
    assert_eq!(resp.name.as_deref(), Some("widget"));
    assert_eq!(resp.value, Some(42));
    assert_eq!(resp.created_at, Some(1000));
    assert_eq!(resp.updated_at, Some(1000));
}

#[test]
fn to_info_copies_the_user_visible_fields() {
    let item = to_record(&payload("widget", 42), 1000).expect("valid payload");
    let info = to_info(&item);
    assert_eq!(info.name, "widget");
    assert_eq!(info.value, 42);
    assert_eq!(info.created_at, 1000);
    assert_eq!(info.updated_at, 1000);
}

#[test]
fn every_error_maps_to_its_status_class() {
    assert_eq!(status_of_error(ApiError::ValidationError), 400);
    assert_eq!(status_of_error(ApiError::InvalidIdentifier), 400);
    assert_eq!(status_of_error(ApiError::NotFound), 404);
    assert_eq!(status_of_error(ApiError::StoreUnavailable), 500);
    assert_eq!(status_of_error(ApiError::StoreRejected), 500);
}

#[test]
fn error_envelope_has_no_data_fields() {
    let resp = error_envelope("something went wrong");
    assert!(resp.error);
    assert_eq!(resp.message.as_deref(), Some("something went wrong"));
    assert!(resp._id.is_none());
    assert!(resp.name.is_none());
    assert!(resp.value.is_none());
    assert!(resp.created_at.is_none());
    assert!(resp.updated_at.is_none());
}
