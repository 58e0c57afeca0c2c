use indradb_lib::{Identifier, ValidationError};

#[test]
fn should_create() {
    assert_eq!(Identifier::new("https://example.org/foo").unwrap().as_str(), "https://example.org/foo");
    assert!(Identifier::new("$").is_err());
}

#[test]
fn should_create_unchecked() {
    assert_eq!(Identifier::new_unchecked("foo").as_str(), "foo");
    assert_eq!(Identifier::new_unchecked("$").as_str(), "$");
}

#[test]
fn should_try_from_str() {
    assert_eq!(
        Identifier::try_from("https://example.org/foo".to_string()).unwrap().as_str(),
        "https://example.org/foo"
    );
    assert!(Identifier::try_from("$".to_string()).is_err());
}

#[test]
fn should_convert_between_identifier_and_string() {
    let id = Identifier::new("https://example.org/foo").unwrap();
    assert_eq!(Identifier::from_str("https://example.org/foo").unwrap(), id);
    assert_eq!(id.as_str(), "https://example.org/foo");
    assert_eq!(id.to_string(), "https://example.org/foo".to_string());
}

#[test]
fn identifier_rejects_relative_text_as_invalid_value() {
    assert_eq!(Identifier::new("test_vertex_type"), Err(ValidationError::InvalidValue));
    assert_eq!(Identifier::new(""), Err(ValidationError::InvalidValue));
}

#[test]
fn identifier_length_limit_is_255_bytes() {
    let prefix = "https://example.org/";
    let ok = format!("{}{}", prefix, "x".repeat(255 - prefix.len()));
    assert_eq!(Identifier::new(&ok).unwrap().as_str(), ok);
    let long = format!("{}x", ok);
    assert_eq!(Identifier::new(&long), Err(ValidationError::ValueTooLong));
    assert_eq!(Identifier::new(&"$".repeat(300)), Err(ValidationError::ValueTooLong));
}

#[test]
fn identifier_accepts_other_schemes() {
    assert_eq!(Identifier::new("urn:isbn:0451450523").unwrap().as_str(), "urn:isbn:0451450523");
}

#[test]
fn identifier_default_is_empty() {
    assert_eq!(Identifier::default().as_str(), "");
}

#[test]
fn identifier_equality_goes_by_text() {
    let a = Identifier::new_unchecked("a");
    assert!(a.same(&Identifier::new_unchecked("a")));
    assert!(!a.same(&Identifier::new_unchecked("b")));
    assert!(Identifier::new_unchecked("a") < Identifier::new_unchecked("b"));
}
