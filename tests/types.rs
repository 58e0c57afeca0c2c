use indradb_lib::{Type, ValidationError};

#[test]
fn should_fail_for_invalid_types() {
    let long_t = (0..256).map(|_| "X").collect::<String>();
    assert!(Type::new(&long_t).is_err());
    assert!(Type::new("$").is_err());
}

#[test]
fn should_convert_str_to_type() {
    assert_eq!(Type::from_str("foo").unwrap(), Type::new("foo").unwrap());
}

#[test]
fn type_length_limit_is_255_bytes() {
    let ok = "X".repeat(255);
    assert_eq!(Type::new(&ok).unwrap().0, ok);
    assert_eq!(Type::new(&"X".repeat(256)), Err(ValidationError::ValueTooLong));
    // Two bytes per character: 128 of them make 256 bytes.
    assert_eq!(Type::new(&"é".repeat(128)), Err(ValidationError::ValueTooLong));
}

#[test]
fn type_characters() {
    assert_eq!(Type::new("a-b_C9").unwrap().0, "a-b_C9");
    assert_eq!(Type::new("héllo"), Err(ValidationError::InvalidValue));
    assert_eq!(Type::new("٣"), Err(ValidationError::InvalidValue));
    assert_eq!(Type::new("AZaz09").unwrap().0, "AZaz09");
    assert_eq!(Type::new("a b"), Err(ValidationError::InvalidValue));
    assert_eq!(Type::new("a.b"), Err(ValidationError::InvalidValue));
    assert_eq!(Type::new("").unwrap().0, "");
}

#[test]
fn type_try_from_string() {
    assert_eq!(Type::try_from("foo".to_string()).unwrap(), Type::new("foo").unwrap());
    assert_eq!(Type::try_from("$".to_string()), Err(ValidationError::InvalidValue));
}
