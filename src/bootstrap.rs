use vstd::prelude::*;
use vstd::string::StringExecFns;

use crate::schema::{
    ALTER_USERS_TABLE_STATEMENT, BootstrapError, CREATE_USERS_TABLE_STATEMENT,
    EMAIL_INDEX_ON_USERS_TABLE_STATEMENT, ERROR_CODE_DB_DOES_NOT_EXIST, ERROR_CODE_TABLE_EXISTS,
    MAX_PROVISIONING_HOPS, USERS_VIEW_STATEMENT,
};

verus! {

/// A schema statement that startup runs on the target database.
#[derive(Clone, Copy, Debug, PartialEq, Eq, Structural)]
pub enum Statement {
    /// Creates the records table.
    CreateTable,
    /// Adds any missing column to an existing records table.
    AlterTable,
    /// Creates the unique index on the address inside the email document,
    /// after looking it up in the catalog.
    CreateEmailIndex,
    /// Creates the read view that leaves out the password.
    CreateReadView,
}

/// Where startup stands.
#[derive(Clone, Copy, Debug, PartialEq, Eq, Structural)]
pub enum Phase {
    Connecting,
    Provisioning,
    CreatingTable,
    Migrating,
    Indexing,
    CreatingView,
    Ready,
    Failed(BootstrapError),
}

/// How the last action went, as the server reported it.
#[derive(Clone, Copy, Debug, PartialEq, Eq, Structural)]
pub enum Outcome {
    Succeeded,
    /// The server reported that the database does not exist.
    DatabaseMissing,
    /// The server reported that the relation already exists.
    RelationExists,
    /// Any other failure.
    Failed,
}

/// What to do next.
#[derive(Clone, Copy, Debug, PartialEq, Eq, Structural)]
pub enum Action {
    /// Connect to the target database.
    Connect,
    /// Connect to the server's default database and create the target.
    CreateDatabase,
    /// Run a statement on the target database.
    Execute(Statement),
    /// The pool is ready for use.
    Finish,
    /// Give up.
    Abort(BootstrapError),
}

/// The startup state: its phase and how many times it has created the
/// target database.
#[derive(Clone, Copy, Debug, PartialEq, Eq, Structural)]
pub struct Bootstrap {
    pub phase: Phase,
    pub hops: u32,
}

impl Statement {
    pub open spec fn spec_sql(self) -> &'static str {
        match self {
            Statement::CreateTable => CREATE_USERS_TABLE_STATEMENT,
            Statement::AlterTable => ALTER_USERS_TABLE_STATEMENT,
            Statement::CreateEmailIndex => EMAIL_INDEX_ON_USERS_TABLE_STATEMENT,
            Statement::CreateReadView => USERS_VIEW_STATEMENT,
        }
    }

    /// The text of the statement.
    pub fn sql(&self) -> (r: &'static str)
        ensures
            r == self.spec_sql(),
    {
        match self {
            Statement::CreateTable => CREATE_USERS_TABLE_STATEMENT,
            Statement::AlterTable => ALTER_USERS_TABLE_STATEMENT,
            Statement::CreateEmailIndex => EMAIL_INDEX_ON_USERS_TABLE_STATEMENT,
            Statement::CreateReadView => USERS_VIEW_STATEMENT,
        }
    }
}

impl Outcome {
    /// The outcome of a failure that carried the given server error code.
    pub fn from_error_code(code: Option<&str>) -> (r: Outcome)
        ensures
            r == match code {
                Some(c) => if c@ == ERROR_CODE_DB_DOES_NOT_EXIST@ {
                    Outcome::DatabaseMissing
                } else if c@ == ERROR_CODE_TABLE_EXISTS@ {
                    Outcome::RelationExists
                } else {
                    Outcome::Failed
                },
                None => Outcome::Failed,
            },
    {
        match code {
            Some(c) => {
                let c = String::from_str(c);
                if c.eq(&String::from_str(ERROR_CODE_DB_DOES_NOT_EXIST)) {
                    Outcome::DatabaseMissing
                } else if c.eq(&String::from_str(ERROR_CODE_TABLE_EXISTS)) {
                    Outcome::RelationExists
                } else {
                    Outcome::Failed
                }
            },
            None => Outcome::Failed,
        }
    }
}

pub open spec fn fail(b: Bootstrap, e: BootstrapError) -> (Bootstrap, Action) {
    (Bootstrap { phase: Phase::Failed(e), hops: b.hops }, Action::Abort(e))
}

pub open spec fn go(b: Bootstrap, phase: Phase, action: Action) -> (Bootstrap, Action) {
    (Bootstrap { phase, hops: b.hops }, action)
}

/// The next state and action after an outcome.
pub open spec fn next(b: Bootstrap, o: Outcome) -> (Bootstrap, Action) {
    match b.phase {
        Phase::Connecting => match o {
            Outcome::Succeeded => go(b, Phase::CreatingTable, Action::Execute(Statement::CreateTable)),
            Outcome::DatabaseMissing => if b.hops < MAX_PROVISIONING_HOPS {
                (
                    Bootstrap { phase: Phase::Provisioning, hops: (b.hops + 1) as u32 },
                    Action::CreateDatabase,
                )
            } else {
                fail(b, BootstrapError::ProvisioningLoop)
            },
            _ => fail(b, BootstrapError::ConnectionFailed),
        },
        Phase::Provisioning => match o {
            Outcome::Succeeded => go(b, Phase::Connecting, Action::Connect),
            _ => fail(b, BootstrapError::ProvisioningFailed),
        },
        Phase::CreatingTable => match o {
            Outcome::Succeeded => go(b, Phase::Indexing, Action::Execute(Statement::CreateEmailIndex)),
            Outcome::RelationExists => go(b, Phase::Migrating, Action::Execute(Statement::AlterTable)),
            _ => fail(b, BootstrapError::SchemaFailed),
        },
        Phase::Migrating => match o {
            Outcome::Succeeded => go(b, Phase::Indexing, Action::Execute(Statement::CreateEmailIndex)),
            _ => fail(b, BootstrapError::SchemaFailed),
        },
        Phase::Indexing => match o {
            Outcome::Succeeded => go(b, Phase::CreatingView, Action::Execute(Statement::CreateReadView)),
            _ => fail(b, BootstrapError::SchemaFailed),
        },
        Phase::CreatingView => match o {
            Outcome::Succeeded => go(b, Phase::Ready, Action::Finish),
            _ => fail(b, BootstrapError::SchemaFailed),
        },
        Phase::Ready => go(b, Phase::Ready, Action::Finish),
        Phase::Failed(e) => fail(b, e),
    }
}

/// Feeds outcomes to the machine in order; gives the last state and the
/// actions it asked for.
pub open spec fn run(b: Bootstrap, outcomes: Seq<Outcome>) -> (Bootstrap, Seq<Action>)
    decreases outcomes.len(),
{
    if outcomes.len() == 0 {
        (b, Seq::empty())
    } else {
        let (b1, a) = next(b, outcomes[0]);
        let (last, rest) = run(b1, outcomes.skip(1));
        (last, seq![a] + rest)
    }
}

pub open spec fn initial() -> Bootstrap {
    Bootstrap { phase: Phase::Connecting, hops: 0 }
}

impl Bootstrap {
    /// The state to start from, and its first action: connect.
    pub fn start() -> (r: (Bootstrap, Action))
        ensures
            r == (initial(), Action::Connect),
    {
        (Bootstrap { phase: Phase::Connecting, hops: 0 }, Action::Connect)
    }

    /// Moves on after an outcome and tells what to do next.
    pub fn step(&mut self, o: Outcome) -> (r: Action)
        ensures
            (*final(self), r) == next(*old(self), o),
    {
        let fail_with = |e: BootstrapError| -> (r: (Phase, Action))
            ensures
                r == (Phase::Failed(e), Action::Abort(e)),
            { (Phase::Failed(e), Action::Abort(e)) };
        let (phase, action) = match self.phase {
            Phase::Connecting => match o {
                Outcome::Succeeded => (Phase::CreatingTable, Action::Execute(Statement::CreateTable)),
                Outcome::DatabaseMissing => {
                    if self.hops < MAX_PROVISIONING_HOPS {
                        self.hops = self.hops + 1;
                        (Phase::Provisioning, Action::CreateDatabase)
                    } else {
                        fail_with(BootstrapError::ProvisioningLoop)
                    }
                },
                _ => fail_with(BootstrapError::ConnectionFailed),
            },
            Phase::Provisioning => match o {
                Outcome::Succeeded => (Phase::Connecting, Action::Connect),
                _ => fail_with(BootstrapError::ProvisioningFailed),
            },
            Phase::CreatingTable => match o {
                Outcome::Succeeded => (Phase::Indexing, Action::Execute(Statement::CreateEmailIndex)),
                Outcome::RelationExists => (Phase::Migrating, Action::Execute(Statement::AlterTable)),
                _ => fail_with(BootstrapError::SchemaFailed),
            },
            Phase::Migrating => match o {
                Outcome::Succeeded => (Phase::Indexing, Action::Execute(Statement::CreateEmailIndex)),
                _ => fail_with(BootstrapError::SchemaFailed),
            },
            Phase::Indexing => match o {
                Outcome::Succeeded => (Phase::CreatingView, Action::Execute(Statement::CreateReadView)),
                _ => fail_with(BootstrapError::SchemaFailed),
            },
            Phase::CreatingView => match o {
                Outcome::Succeeded => (Phase::Ready, Action::Finish),
                _ => fail_with(BootstrapError::SchemaFailed),
            },
            Phase::Ready => (Phase::Ready, Action::Finish),
            Phase::Failed(e) => fail_with(e),
        };
        self.phase = phase;
        action
    }
}

/// The machine never creates the target database more often than the
/// ceiling allows, whatever the server answers.
pub proof fn lemma_hops_bounded(b: Bootstrap, outcomes: Seq<Outcome>)
    requires
        b.hops <= MAX_PROVISIONING_HOPS,
    ensures
        run(b, outcomes).0.hops <= MAX_PROVISIONING_HOPS,
    decreases outcomes.len(),
{
    if outcomes.len() > 0 {
        lemma_hops_bounded(next(b, outcomes[0]).0, outcomes.skip(1));
    }
}

/// Once the database has been created as often as the ceiling allows,
/// another report that it is missing ends startup with the
/// provisioning-loop failure.
pub proof fn lemma_ceiling_reached_fails(b: Bootstrap)
    requires
        b.phase == Phase::Connecting,
        b.hops >= MAX_PROVISIONING_HOPS,
    ensures
        next(b, Outcome::DatabaseMissing) == fail(b, BootstrapError::ProvisioningLoop),
{
}

/// Running startup again against a server whose database, table and index
/// already exist ends ready, without an error: the existing table is
/// migrated in place, and the one index statement issued is the one that
/// first looks the index up in the catalog.
pub proof fn lemma_rerun_on_provisioned_server()
    ensures
        ({
            let outcomes = seq![
                Outcome::Succeeded,
                Outcome::RelationExists,
                Outcome::Succeeded,
                Outcome::Succeeded,
                Outcome::Succeeded,
            ];
            let (last, actions) = run(initial(), outcomes);
            &&& last.phase == Phase::Ready
            &&& actions == seq![
                Action::Execute(Statement::CreateTable),
                Action::Execute(Statement::AlterTable),
                Action::Execute(Statement::CreateEmailIndex),
                Action::Execute(Statement::CreateReadView),
                Action::Finish,
            ]
        }),
{
    reveal_with_fuel(run, 6);
    let outcomes = seq![
        Outcome::Succeeded,
        Outcome::RelationExists,
        Outcome::Succeeded,
        Outcome::Succeeded,
        Outcome::Succeeded,
    ];
    assert(outcomes.skip(1) =~= seq![Outcome::RelationExists, Outcome::Succeeded, Outcome::Succeeded, Outcome::Succeeded]);
    assert(outcomes.skip(1).skip(1) =~= seq![Outcome::Succeeded, Outcome::Succeeded, Outcome::Succeeded]);
    assert(outcomes.skip(1).skip(1).skip(1) =~= seq![Outcome::Succeeded, Outcome::Succeeded]);
    assert(outcomes.skip(1).skip(1).skip(1).skip(1) =~= seq![Outcome::Succeeded]);
    assert(outcomes.skip(1).skip(1).skip(1).skip(1).skip(1) =~= Seq::<Outcome>::empty());
}

} // verus!
