use validated_struct::error::{GetError, InsertionError};

#[test]
fn sync_insert_not_available_variant() {
    assert!(matches!(
        InsertionError::sync_insert_not_available(),
        InsertionError::SyncInsertNotAvailable
    ));
}

#[test]
fn insertion_error_from_static_str() {
    let e: InsertionError = "unknown key".into();
    assert!(matches!(e, InsertionError::Str("unknown key")));
}

#[test]
fn insertion_error_from_string() {
    let e: InsertionError = String::from("bad value").into();
    match e {
        InsertionError::String(s) => assert_eq!(s, "bad value"),
        _ => panic!("wrong variant"),
    }
}

#[test]
fn insertion_error_from_json_error() {
    let err = serde_json::from_str::<u8>("not json").unwrap_err();
    let e: InsertionError = err.into();
    assert!(matches!(e, InsertionError::JsonErr(_)));
}

#[test]
fn insertion_error_from_json5_error() {
    let err = json5::from_str::<u8>("{").unwrap_err();
    let e: InsertionError = err.into();
    assert!(matches!(e, InsertionError::Json5Err(_)));
}

#[test]
fn get_error_variants() {
    let e: GetError<String> = GetError::Other("broken".to_string());
    assert!(matches!(e, GetError::Other(ref s) if s == "broken"));
    assert!(matches!(GetError::<String>::NoMatchingKey, GetError::NoMatchingKey));
    assert!(matches!(GetError::<String>::TypeMissMatch, GetError::TypeMissMatch));
}
