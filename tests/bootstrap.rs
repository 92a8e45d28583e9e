use pgcodec::bootstrap::{Action, Bootstrap, Outcome, Phase, Statement};
use pgcodec::schema::{
    BootstrapError, Credentials, Database, EMAIL_INDEX_ON_USERS_TABLE_STATEMENT, MAX_PROVISIONING_HOPS,
};

fn drive(outcomes: &[Outcome]) -> (Bootstrap, Vec<Action>) {
    let (mut machine, first) = Bootstrap::start();
    let mut actions = vec![first];
    for o in outcomes {
        actions.push(machine.step(*o));
    }
    (machine, actions)
}

fn database(url: &str, credentials: Option<(&str, &str)>, name: &str) -> Database {
    Database {
        credentials: credentials.map(|(n, p)| Credentials { name: n.to_string(), password: p.to_string() }),
        name: name.to_string(),
        url: url.to_string(),
    }
}

#[test]
fn default_configuration() {
    let d = Database::default();
    assert!(d.credentials.is_none());
    assert_eq!(d.name, "interphlix");
    assert_eq!(d.url, "postgres://localhost:5432");
}

#[test]
fn credentials_and_name_are_merged_where_missing() {
    let d = database("postgres://localhost:5432", Some(("u", "p")), "app");
    assert_eq!(d.db_url().unwrap(), "postgres://u:p@localhost:5432/app");
}

#[test]
fn address_parts_that_are_present_are_kept() {
    let d = database("postgres://me:secret@db:5432/other", Some(("u", "p")), "app");
    assert_eq!(d.db_url().unwrap(), "postgres://me:secret@db:5432/other");
    let d = database("postgres://me@db/", None, "app");
    assert_eq!(d.db_url().unwrap(), "postgres://me@db/app");
}

#[test]
fn invalid_address_is_reported() {
    let d = database("not a url", None, "app");
    assert_eq!(d.db_url(), Err(BootstrapError::InvalidUrl));
    assert!(d.plan().is_err());
}

#[test]
fn credentials_cannot_merge_into_an_address_without_host() {
    let d = database("postgres:/var/run/db", Some(("u", "p")), "app");
    assert_eq!(d.db_url(), Err(BootstrapError::InvalidUrl));
    let d = database("postgres:/var/run/db", None, "app");
    assert_eq!(d.db_url().unwrap(), "postgres:/var/run/db");
}

#[test]
fn plan_names_the_default_database_and_the_target() {
    let d = database("postgres://localhost:5432", Some(("u", "p")), "app");
    let plan = d.plan().unwrap();
    assert_eq!(plan.target_url, "postgres://u:p@localhost:5432/app");
    assert_eq!(plan.admin_url, "postgres://u:p@localhost:5432/postgres");
    assert_eq!(plan.create_database, "CREATE DATABASE app");
}

#[test]
fn fresh_server_is_provisioned_then_schema_created() {
    let (machine, actions) = drive(&[
        Outcome::DatabaseMissing,
        Outcome::Succeeded,
        Outcome::Succeeded,
        Outcome::Succeeded,
        Outcome::Succeeded,
        Outcome::Succeeded,
    ]);
    assert_eq!(machine.phase, Phase::Ready);
    assert_eq!(machine.hops, 1);
    assert_eq!(
        actions,
        vec![
            Action::Connect,
            Action::CreateDatabase,
            Action::Connect,
            Action::Execute(Statement::CreateTable),
            Action::Execute(Statement::CreateEmailIndex),
            Action::Execute(Statement::CreateReadView),
            Action::Finish,
        ]
    );
}

#[test]
fn second_bootstrap_on_provisioned_server_migrates_without_error() {
    for _ in 0..2 {
        let (machine, actions) = drive(&[
            Outcome::Succeeded,
            Outcome::RelationExists,
            Outcome::Succeeded,
            Outcome::Succeeded,
            Outcome::Succeeded,
        ]);
        assert_eq!(machine.phase, Phase::Ready);
        let index_statements =
            actions.iter().filter(|a| **a == Action::Execute(Statement::CreateEmailIndex)).count();
        assert_eq!(index_statements, 1);
        assert!(Statement::CreateEmailIndex.sql().contains("IF NOT EXISTS"));
        assert_eq!(Statement::CreateEmailIndex.sql(), EMAIL_INDEX_ON_USERS_TABLE_STATEMENT);
    }
}

#[test]
fn persistent_missing_database_hits_the_ceiling() {
    let mut outcomes = Vec::new();
    for _ in 0..MAX_PROVISIONING_HOPS {
        outcomes.push(Outcome::DatabaseMissing);
        outcomes.push(Outcome::Succeeded);
    }
    outcomes.push(Outcome::DatabaseMissing);
    let (machine, actions) = drive(&outcomes);
    assert_eq!(machine.phase, Phase::Failed(BootstrapError::ProvisioningLoop));
    assert_eq!(*actions.last().unwrap(), Action::Abort(BootstrapError::ProvisioningLoop));
    assert_eq!(machine.hops, MAX_PROVISIONING_HOPS);
}

#[test]
fn other_failures_are_fatal() {
    let (m, _) = drive(&[Outcome::Failed]);
    assert_eq!(m.phase, Phase::Failed(BootstrapError::ConnectionFailed));
    let (m, _) = drive(&[Outcome::DatabaseMissing, Outcome::Failed]);
    assert_eq!(m.phase, Phase::Failed(BootstrapError::ProvisioningFailed));
    let (m, _) = drive(&[Outcome::Succeeded, Outcome::DatabaseMissing]);
    assert_eq!(m.phase, Phase::Failed(BootstrapError::SchemaFailed));
    let (m, a) = drive(&[Outcome::Succeeded, Outcome::RelationExists, Outcome::Failed, Outcome::Succeeded]);
    assert_eq!(m.phase, Phase::Failed(BootstrapError::SchemaFailed));
    assert_eq!(*a.last().unwrap(), Action::Abort(BootstrapError::SchemaFailed));
}

#[test]
fn server_error_codes_are_classified() {
    assert_eq!(Outcome::from_error_code(Some("3D000")), Outcome::DatabaseMissing);
    assert_eq!(Outcome::from_error_code(Some("42P07")), Outcome::RelationExists);
    assert_eq!(Outcome::from_error_code(Some("23505")), Outcome::Failed);
    assert_eq!(Outcome::from_error_code(None), Outcome::Failed);
}
