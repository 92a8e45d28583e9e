use pgcodec::email::EmailAddress;
use pgcodec::error::CodecError;
use pgcodec::number::Number;
use pgcodec::value::Value;

fn to_value(j: &serde_json::Value) -> Value {
    match j {
        serde_json::Value::Null => Value::Null,
        serde_json::Value::Bool(b) => Value::Bool(*b),
        serde_json::Value::Number(n) => match n.as_i64() {
            Some(i) => Value::Number(Number::I64(i)),
            None => Value::Number(Number::U64(n.as_u64().unwrap())),
        },
        serde_json::Value::String(s) => Value::String(s.clone()),
        serde_json::Value::Array(a) => Value::Array(a.iter().map(to_value).collect()),
        serde_json::Value::Object(m) => {
            Value::Object(m.iter().map(|(k, v)| (k.clone(), to_value(v))).collect())
        }
    }
}

fn deserialize(json: &str) -> Result<EmailAddress, CodecError> {
    let parsed: serde_json::Value = serde_json::from_str(json).unwrap();
    EmailAddress::from_document(&to_value(&parsed))
}

fn test_serialize(email: EmailAddress, expected_json: &str) {
    let json = email.serialize();
    assert_eq!(json, expected_json);
}

fn test_deserialize(json: &str, expected_email: EmailAddress) {
    let email = deserialize(json).unwrap();
    assert_eq!(email, expected_email);
}

#[test]
fn test_email_address_serialization() {
    test_serialize(
        EmailAddress::new("user@domain.com").unwrap(),
        r#"{"email":"user@domain.com","verified":false}"#,
    );
    test_serialize(
        EmailAddress::new("user@domain.com").unwrap().verify(),
        r#"{"email":"user@domain.com","verified":true}"#,
    );
}

#[test]
fn test_email_address_deserialization() {
    test_deserialize(
        r#"{"email":"user@domain.com","verified":false}"#,
        EmailAddress::new("user@domain.com").unwrap(),
    );
    test_deserialize(
        r#"{"email":"user@domain.com","verified":true}"#,
        EmailAddress::new("user@domain.com").unwrap().verify(),
    );
}

#[test]
fn serialized_new_address_reads_back_as_new() {
    let stored = EmailAddress::new("a@b.com").unwrap();
    let back = deserialize(&stored.serialize()).unwrap();
    assert_eq!(back, EmailAddress::new("a@b.com").unwrap());
}

#[test]
fn bare_string_reads_as_new_address() {
    assert_eq!(deserialize(r#""a@b.com""#).unwrap(), EmailAddress::new("a@b.com").unwrap());
}

#[test]
fn verified_document_reads_as_verified_address() {
    assert_eq!(
        deserialize(r#"{"email":"a@b.com","verified":true}"#).unwrap(),
        EmailAddress::new("a@b.com").unwrap().verify()
    );
}

#[test]
fn document_without_verified_is_missing_field() {
    assert_eq!(deserialize(r#"{"email":"a@b.com"}"#), Err(CodecError::MissingField));
    assert_eq!(deserialize(r#"{"verified":true}"#), Err(CodecError::MissingField));
}

#[test]
fn unknown_members_are_ignored() {
    assert_eq!(
        deserialize(r#"{"extra":[1,2],"email":"a@b.com","verified":false}"#).unwrap(),
        EmailAddress::new("a@b.com").unwrap()
    );
}

#[test]
fn invalid_mailbox_is_rejected() {
    assert_eq!(deserialize(r#""not an address""#), Err(CodecError::InvalidAddress));
    assert_eq!(
        deserialize(r#"{"email":"nobody","verified":true}"#),
        Err(CodecError::InvalidAddress)
    );
    assert!(EmailAddress::new("nobody").is_err());
}

#[test]
fn wrong_shapes_are_rejected() {
    assert_eq!(deserialize("42"), Err(CodecError::UnexpectedShape));
    assert_eq!(
        deserialize(r#"{"email":"a@b.com","verified":"yes"}"#),
        Err(CodecError::UnexpectedShape)
    );
}

#[test]
fn repeated_fields_are_rejected() {
    let doc = Value::Object(vec![
        ("email".to_string(), Value::String("a@b.com".to_string())),
        ("email".to_string(), Value::String("c@d.com".to_string())),
        ("verified".to_string(), Value::Bool(true)),
    ]);
    assert_eq!(EmailAddress::from_document(&doc), Err(CodecError::DuplicateField));
    let doc = Value::Object(vec![
        ("verified".to_string(), Value::Bool(true)),
        ("email".to_string(), Value::String("a@b.com".to_string())),
        ("verified".to_string(), Value::Bool(false)),
    ]);
    assert_eq!(EmailAddress::from_document(&doc), Err(CodecError::DuplicateField));
}

#[test]
fn verification_transition_keeps_address() {
    let created = EmailAddress::new("x@y.com").unwrap();
    assert_eq!(created, EmailAddress::new("x@y.com").unwrap());
    assert!(!created.is_verified());
    let verified = created.verify();
    assert_eq!(verified, EmailAddress::new("x@y.com").unwrap().verify());
    assert_eq!(verified.address(), "x@y.com");
    let stored = verified.serialize();
    assert_eq!(deserialize(&stored).unwrap(), EmailAddress::new("x@y.com").unwrap().verify());
}

#[test]
fn address_column_is_a_jsonb_document() {
    let mut expected = vec![1u8];
    expected.extend_from_slice(br#"{"email":"x@y.com","verified":false}"#);
    assert_eq!(EmailAddress::new("x@y.com").unwrap().encode(), expected);
}
