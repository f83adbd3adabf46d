use items_service::ids::{id_from_counter, parse_object_id};

#[test]
fn parse_rejects_not_an_id() {
    assert!(parse_object_id("not-an-id").is_none());
}

#[test]
fn parse_rejects_empty_string() {
    assert!(parse_object_id("").is_none());
}

#[test]
fn parse_rejects_wrong_length() {
    assert!(parse_object_id("0123456789abcdef0123456").is_none());
    assert!(parse_object_id("0123456789abcdef012345678").is_none());
}

#[test]
fn parse_rejects_non_hex_character() {
    assert!(parse_object_id("0123456789abcdef0123456g").is_none());
    assert!(parse_object_id("zzzzzzzzzzzzzzzzzzzzzzzz").is_none());
}

#[test]
fn parse_accepts_lowercase_hex() {
    let id = parse_object_id("0123456789abcdef01234567").expect("valid id");
    let hex = id.to_hex();
    assert_eq!(hex, "0123456789abcdef01234567");
}

#[test]
fn parse_accepts_uppercase_hex() {
    let id = parse_object_id("ABCDEF000000000000000000").expect("valid id");
    assert_eq!(id.to_hex(), "abcdef000000000000000000");
}

#[test]
fn hex_digits_decode_to_bytes() {
    let id = parse_object_id("000000000000000000000010").expect("valid id");
    let bytes = id.to_hex_bytes();
    assert_eq!(bytes.len(), 24);
    assert_eq!(bytes[22], b'1');
    assert_eq!(bytes[23], b'0');
}

#[test]
fn counter_id_round_trips_through_hex() {
    let id = id_from_counter(5);
    let hex = id.to_hex();
    assert_eq!(hex.len(), 24);
    let back = parse_object_id(&hex).expect("hex of an id is valid");
    assert!(back.eq_id(&id));
}

#[test]
fn distinct_counters_give_distinct_ids() {
    let a = id_from_counter(1);
    let b = id_from_counter(2);
    assert!(!a.eq_id(&b));
    assert_ne!(a.to_hex(), b.to_hex());
}
