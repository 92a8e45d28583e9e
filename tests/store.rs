use pgcodec::number::Number;
use pgcodec::store::{plan_user_update, Error, QueryOutcome};
use pgcodec::value::Value;

fn text(s: &str) -> Value {
    Value::String(s.to_string())
}

#[test]
fn empty_first_name_is_left_alone() {
    let request = vec![("first_name".to_string(), text("")), ("last_name".to_string(), text("Doe"))];
    let plan = plan_user_update(&request).unwrap();
    assert_eq!(plan.columns, vec!["last_name"]);
    assert_eq!(plan.sources, vec![1]);
    assert_eq!(
        plan.statement,
        "WITH updated AS (UPDATE users SET last_name = $1 WHERE id = $2 RETURNING id) SELECT * FROM users_view WHERE id IN (SELECT id FROM updated);"
    );
}

#[test]
fn all_three_names_are_set_in_order() {
    let request = vec![
        ("last_name".to_string(), text("Doe")),
        ("password".to_string(), text("ignored")),
        ("user_name".to_string(), text("jd")),
        ("first_name".to_string(), text("John")),
    ];
    let plan = plan_user_update(&request).unwrap();
    assert_eq!(plan.columns, vec!["user_name", "first_name", "last_name"]);
    assert_eq!(plan.sources, vec![2, 3, 0]);
    assert_eq!(
        plan.statement,
        "WITH updated AS (UPDATE users SET user_name = $1, first_name = $2, last_name = $3 WHERE id = $4 RETURNING id) SELECT * FROM users_view WHERE id IN (SELECT id FROM updated);"
    );
}

#[test]
fn empty_request_has_no_fields_to_update() {
    assert_eq!(plan_user_update(&vec![]).unwrap_err(), Error::NoFieldsToUpdate);
}

#[test]
fn all_empty_request_has_no_fields_to_update() {
    let request = vec![
        ("first_name".to_string(), text("")),
        ("last_name".to_string(), Value::Null),
        ("user_name".to_string(), Value::Number(Number::I64(0))),
        ("email".to_string(), text("x@y.com")),
    ];
    assert_eq!(plan_user_update(&request).unwrap_err(), Error::NoFieldsToUpdate);
}

#[test]
fn query_outcomes_map_to_record_errors() {
    assert_eq!(Error::from_email_lookup(QueryOutcome::Row), Err(Error::UserWithEmailExists));
    assert_eq!(Error::from_email_lookup(QueryOutcome::NoRow), Ok(()));
    assert_eq!(Error::from_email_lookup(QueryOutcome::Failed), Err(Error::Storage));
    assert_eq!(Error::from_record_lookup(QueryOutcome::NoRow), Err(Error::UserNotFound));
    assert_eq!(Error::from_record_lookup(QueryOutcome::Row), Ok(()));
}

#[test]
fn password_is_not_among_the_visible_fields() {
    assert_eq!(
        pgcodec::store::User::fields(),
        vec!["id", "email", "user_name", "first_name", "last_name", "created_at", "profile_picture"]
    );
}

#[test]
fn request_naming_a_field_twice_is_rejected() {
    let request = vec![("last_name".to_string(), text("Doe")), ("last_name".to_string(), text("Roe"))];
    assert_eq!(plan_user_update(&request).unwrap_err(), Error::DuplicateField);
}
