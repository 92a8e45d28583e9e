use vstd::prelude::*;
use vstd::string::StringExecFns;

use crate::email::{field, first_key_index, has_key, EmailAddress};
use crate::id::Id;
use crate::value::{distinct_keys, has_distinct_keys, is_empty_value, is_zero_value, Value};

verus! {

pub const INSERT_USER_STATEMENT: &'static str = "INSERT INTO users
    (id, email, user_name, first_name, last_name, password, created_at, profile_picture)
    VALUES ($1, $2, $3, $4, $5, $6, $7, $8);";

pub const SELECT_USER_BY_EMAIL_STATEMENT: &'static str = "SELECT id FROM users WHERE email->>'email' = $1;";

pub const SELECT_USER_BY_ID_STATEMENT: &'static str = "SELECT * FROM users_view WHERE id = $1";

pub const DELETE_USER_BY_ID_STATEMENT: &'static str = "DELETE FROM users WHERE id = $1;";

/// A failure of a record operation, as callers see it.
#[derive(Clone, Copy, Debug, PartialEq, Eq, Structural)]
pub enum Error {
    /// Another record already carries the address.
    UserWithEmailExists,
    /// No record has the identifier.
    UserNotFound,
    /// An update named no field with something to set.
    NoFieldsToUpdate,
    /// An update named a field more than once.
    DuplicateField,
    /// The store failed.
    Storage,
}

/// How a query that reads at most one row went.
#[derive(Clone, Copy, Debug, PartialEq, Eq, Structural)]
pub enum QueryOutcome {
    Row,
    NoRow,
    Failed,
}

/// A stored user record. `created_at` counts microseconds since the Unix
/// epoch.
#[derive(Debug)]
pub struct User {
    pub id: Id,
    pub email: EmailAddress,
    pub user_name: String,
    pub first_name: String,
    pub last_name: String,
    pub password: String,
    pub created_at: i64,
    pub profile_picture: Option<String>,
}

/// The columns of the records table.
pub open spec fn column_names() -> Seq<&'static str> {
    seq![
        "id",
        "email",
        "user_name",
        "first_name",
        "last_name",
        "password",
        "created_at",
        "profile_picture",
    ]
}

/// Every column but the password is shown to callers.
pub open spec fn visible() -> spec_fn(&'static str) -> bool {
    |f: &'static str| f@ != "password"@
}

/// The columns an update may set, in the order they are set.
pub open spec fn updatable(k: int) -> &'static str {
    if k == 0 {
        "user_name"
    } else if k == 1 {
        "first_name"
    } else {
        "last_name"
    }
}

/// The entry an update takes for a column: the first one under its name,
/// where its value is neither absent, empty nor zero.
pub open spec fn picked(entries: Seq<(String, Value)>, column: &'static str) -> Seq<(&'static str, int)> {
    if has_key(entries, column@) && !is_empty_value(field(entries, column@)) && !is_zero_value(
        field(entries, column@),
    ) {
        seq![(column, choose|i: int| first_key_index(entries, column@, i))]
    } else {
        Seq::empty()
    }
}

/// The columns an update sets, each with the position of its value.
pub open spec fn selected(entries: Seq<(String, Value)>) -> Seq<(&'static str, int)> {
    picked(entries, updatable(0)) + picked(entries, updatable(1)) + picked(entries, updatable(2))
}

/// The placeholder text for parameter `k`, counted from one.
pub open spec fn placeholder(k: int) -> Seq<char> {
    "$"@ + if k == 1 {
        "1"@
    } else if k == 2 {
        "2"@
    } else if k == 3 {
        "3"@
    } else {
        "4"@
    }
}

/// `col = $k` for the first `n` columns, separated by commas.
pub open spec fn set_clause(columns: Seq<(&'static str, int)>, n: int) -> Seq<char>
    decreases n,
{
    if n <= 0 {
        Seq::empty()
    } else {
        set_clause(columns, n - 1) + (if n > 1 {
            ", "@
        } else {
            Seq::empty()
        }) + columns[n - 1].0@ + " = "@ + placeholder(n)
    }
}

/// The statement that sets the columns and reads the row back through the
/// read view; the identifier is the last parameter.
pub open spec fn update_statement(columns: Seq<(&'static str, int)>) -> Seq<char> {
    "WITH updated AS (UPDATE users SET "@ + set_clause(columns, columns.len() as int)
        + " WHERE id = "@ + placeholder(columns.len() + 1 as int)
        + " RETURNING id) SELECT * FROM users_view WHERE id IN (SELECT id FROM updated);"@
}

/// An update ready to run: its statement, and for each placeholder before
/// the identifier, the column and the position of its value in the request.
#[derive(Debug)]
pub struct UpdatePlan {
    pub statement: String,
    pub columns: Vec<&'static str>,
    pub sources: Vec<usize>,
}

fn placeholder_text(k: usize) -> (r: &'static str)
    requires
        1 <= k <= 4,
    ensures
        "$"@ + r@ == placeholder(k as int),
{
    if k == 1 {
        "1"
    } else if k == 2 {
        "2"
    } else if k == 3 {
        "3"
    } else {
        "4"
    }
}

fn pick(
    entries: &Vec<(String, Value)>,
    column: &'static str,
    columns: &mut Vec<&'static str>,
    sources: &mut Vec<usize>,
)
    requires
        old(columns)@.len() == old(sources)@.len(),
    ensures
        final(columns)@.len() == final(sources)@.len(),
        final(columns)@.len() == old(columns)@.len() + picked(entries@, column).len(),
        forall|k: int|
            0 <= k < old(columns)@.len() ==> final(columns)@[k] == old(columns)@[k]
                && final(sources)@[k] == old(sources)@[k],
        forall|k: int|
            0 <= k < picked(entries@, column).len() ==> final(columns)@[old(columns)@.len() + k]
                == picked(entries@, column)[k].0 && final(sources)@[old(columns)@.len() + k]
                == picked(entries@, column)[k].1,
{
    let key = String::from_str(column);
    let mut i: usize = 0;
    let mut found: Option<usize> = None;
    while i < entries.len()
        invariant
            i <= entries@.len(),
            key@ == column@,
            found is None ==> forall|j: int| 0 <= j < i ==> (#[trigger] entries@[j]).0@ != key@,
            found matches Some(f) ==> first_key_index(entries@, key@, f as int),
        decreases entries@.len() - i,
    {
        if found.is_none() && entries[i].0.eq(&key) {
            found = Some(i);
        }
        i = i + 1;
    }
    match found {
        Some(f) => {
            proof {
                let c = choose|k: int| first_key_index(entries@, column@, k);
                assert(first_key_index(entries@, column@, c));
                if c < f {
                    assert(entries@[c].0@ != column@);
                } else if c > f {
                    assert(entries@[f as int].0@ != column@);
                }
            }
            let v = &entries[f].1;
            if !v.is_empty() && !v.is_zero() {
                columns.push(column);
                sources.push(f);
            }
        },
        None => {
            assert forall|k: int| !first_key_index(entries@, column@, k) by {
                if 0 <= k < entries@.len() {
                    assert(entries@[k].0@ != column@);
                }
            }
        },
    }
}

/// Plans an update from a partial map of field names to values: only the
/// user name, first name and last name can change, and only to a value
/// that is neither absent, empty nor zero. A request that names a field
/// twice is refused.
pub fn plan_user_update(entries: &Vec<(String, Value)>) -> (r: Result<UpdatePlan, Error>)
    ensures
        r is Err <==> (!distinct_keys(entries@) || selected(entries@).len() == 0),
        r matches Err(e) ==> e == if distinct_keys(entries@) {
            Error::NoFieldsToUpdate
        } else {
            Error::DuplicateField
        },
        r matches Ok(p) ==> {
            let s = selected(entries@);
            &&& p.columns@.len() == s.len()
            &&& p.sources@.len() == s.len()
            &&& forall|k: int|
                0 <= k < s.len() ==> p.columns@[k] == s[k].0 && p.sources@[k] == s[k].1
            &&& p.statement@ == update_statement(s)
        },
{
    if !has_distinct_keys(entries) {
        return Err(Error::DuplicateField);
    }
    let mut columns: Vec<&'static str> = Vec::new();
    let mut sources: Vec<usize> = Vec::new();
    pick(entries, "user_name", &mut columns, &mut sources);
    pick(entries, "first_name", &mut columns, &mut sources);
    pick(entries, "last_name", &mut columns, &mut sources);
    let ghost s = selected(entries@);
    assert(columns@.len() == s.len());
    assert forall|k: int| 0 <= k < s.len() implies columns@[k] == s[k].0 && sources@[k] == s[k].1 by {}
    if columns.len() == 0 {
        return Err(Error::NoFieldsToUpdate);
    }
    let mut statement = String::from_str("WITH updated AS (UPDATE users SET ");
    let ghost head = statement@;
    let mut k: usize = 0;
    while k < columns.len()
        invariant
            k <= columns@.len() <= 3,
            columns@.len() == s.len(),
            forall|j: int| 0 <= j < s.len() ==> columns@[j] == s[j].0,
            statement@ == head + set_clause(s, k as int),
        decreases columns@.len() - k,
    {
        if k > 0 {
            statement.append(", ");
        }
        statement.append(columns[k]);
        statement.append(" = $");
        let digit = placeholder_text(k + 1);
        statement.append(digit);
        assert(statement@ =~= head + set_clause(s, k + 1)) by {
            reveal_strlit(" = $");
            reveal_strlit(" = ");
            reveal_strlit("$");
        };
        k = k + 1;
    }
    statement.append(" WHERE id = $");
    let digit = placeholder_text(columns.len() + 1);
    statement.append(digit);
    statement.append(" RETURNING id) SELECT * FROM users_view WHERE id IN (SELECT id FROM updated);");
    assert(statement@ =~= update_statement(s)) by {
        reveal_strlit(" WHERE id = $");
        reveal_strlit(" WHERE id = ");
        reveal_strlit("$");
    };
    Ok(UpdatePlan { statement, columns, sources })
}

impl User {
    /// The columns callers may read: all but the password, in table order.
    pub fn fields() -> (r: Vec<&'static str>)
        ensures
            r@ == column_names().filter(visible()),
    {
        let all: Vec<&'static str> = vec![
            "id",
            "email",
            "user_name",
            "first_name",
            "last_name",
            "password",
            "created_at",
            "profile_picture",
        ];
        let password = String::from_str("password");
        let mut shown: Vec<&'static str> = Vec::new();
        let mut i: usize = 0;
        assert(all@.subrange(0, 0) =~= Seq::<&'static str>::empty());
        proof {
            reveal(Seq::filter);
        }
        while i < all.len()
            invariant
                i <= all@.len(),
                password@ == "password"@,
                shown@ == all@.subrange(0, i as int).filter(visible()),
            decreases all@.len() - i,
        {
            let name = all[i];
            proof {
                all@.subrange(0, i as int).lemma_filter_push(name, visible());
                assert(all@.subrange(0, i as int + 1) =~= all@.subrange(0, i as int).push(name));
            }
            if !String::from_str(name).eq(&password) {
                shown.push(name);
            }
            i = i + 1;
        }
        assert(all@.subrange(0, i as int) =~= all@);
        assert(all@ =~= column_names());
        shown
    }
}

impl Error {
    /// What the look-up of an address before an insert means: a row is a
    /// conflict, no row clears the insert.
    pub fn from_email_lookup(o: QueryOutcome) -> (r: Result<(), Error>)
        ensures
            r == match o {
                QueryOutcome::Row => Err(Error::UserWithEmailExists),
                QueryOutcome::NoRow => Ok(()),
                QueryOutcome::Failed => Err(Error::Storage),
            },
    {
        match o {
            QueryOutcome::Row => Err(Error::UserWithEmailExists),
            QueryOutcome::NoRow => Ok(()),
            QueryOutcome::Failed => Err(Error::Storage),
        }
    }

    /// What a read by identifier means: no row is a missing record.
    pub fn from_record_lookup(o: QueryOutcome) -> (r: Result<(), Error>)
        ensures
            r == match o {
                QueryOutcome::Row => Ok(()),
                QueryOutcome::NoRow => Err(Error::UserNotFound),
                QueryOutcome::Failed => Err(Error::Storage),
            },
    {
        match o {
            QueryOutcome::Row => Ok(()),
            QueryOutcome::NoRow => Err(Error::UserNotFound),
            QueryOutcome::Failed => Err(Error::Storage),
        }
    }
}

} // verus!
