use vstd::prelude::*;
use vstd::string::StringExecFns;

verus! {

/// The database that the application's records live in, unless configured
/// otherwise.
pub const DB_NAME: &'static str = "interphlix";

/// The server address used unless configured otherwise.
pub const DEFAULT_URL: &'static str = "postgres://localhost:5432";

/// The database every server has, used to create the target database.
pub const DEFAULT_DB_NAME: &'static str = "postgres";

/// The server's code for "database does not exist".
pub const ERROR_CODE_DB_DOES_NOT_EXIST: &'static str = "3D000";

/// The server's code for "relation already exists".
pub const ERROR_CODE_TABLE_EXISTS: &'static str = "42P07";

/// How many times a missing database is created before startup gives up.
pub const MAX_PROVISIONING_HOPS: u32 = 3;

pub const CREATE_USERS_TABLE_STATEMENT: &'static str = "CREATE TABLE users (
    id BYTEA PRIMARY KEY,
    email JSONB NOT NULL,
    user_name TEXT NOT NULL,
    first_name TEXT NOT NULL,
    last_name TEXT NOT NULL,
    password TEXT NOT NULL,
    profile_picture TEXT,
    created_at TIMESTAMPTZ NOT NULL DEFAULT CURRENT_TIMESTAMP
);";

pub const ALTER_USERS_TABLE_STATEMENT: &'static str = "ALTER TABLE users
    ADD COLUMN IF NOT EXISTS id BYTEA PRIMARY KEY,
    ADD COLUMN IF NOT EXISTS email JSONB NOT NULL,
    ADD COLUMN IF NOT EXISTS user_name TEXT NOT NULL,
    ADD COLUMN IF NOT EXISTS first_name TEXT NOT NULL,
    ADD COLUMN IF NOT EXISTS last_name TEXT NOT NULL,
    ADD COLUMN IF NOT EXISTS password TEXT NOT NULL,
    ADD COLUMN IF NOT EXISTS profile_picture TEXT,
    ADD COLUMN IF NOT EXISTS created_at TIMESTAMPTZ NOT NULL DEFAULT CURRENT_TIMESTAMP;";

pub const EMAIL_INDEX_ON_USERS_TABLE_STATEMENT: &'static str = "DO $$
BEGIN
    IF NOT EXISTS (
        SELECT 1
        FROM pg_class c
        JOIN pg_namespace n ON n.oid = c.relnamespace
        WHERE c.relname = 'users_email_index'
        AND n.nspname = 'public'
    ) THEN
        EXECUTE 'CREATE UNIQUE INDEX users_email_index ON users ((email->>''email''))';
    END IF;
END $$;";

pub const USERS_VIEW_STATEMENT: &'static str = "CREATE OR REPLACE VIEW users_view AS
    SELECT id, email, user_name, first_name, last_name, profile_picture, created_at
    FROM users;";

/// A user name and password for a server.
#[derive(Clone, Debug)]
pub struct Credentials {
    pub name: String,
    pub password: String,
}

/// Where the records live: a server address, the database's name, and the
/// credentials to use where the address carries none.
#[derive(Clone, Debug)]
pub struct Database {
    pub credentials: Option<Credentials>,
    pub name: String,
    pub url: String,
}

/// The parts of a parsed address that the merge rules read.
#[derive(Clone, Debug)]
pub struct UrlParts {
    pub username: String,
    pub password: Option<String>,
    pub path: String,
}

/// The changes the merge rules make to an address; `None` leaves a part as
/// it is.
#[derive(Clone, Debug)]
pub struct UrlEdits {
    pub username: Option<String>,
    pub password: Option<String>,
    pub path: Option<String>,
}

/// url's error for an address that does not parse.
#[verifier::external_type_specification]
#[verifier::external_body]
pub struct ExUrlParseError(url::ParseError);

pub open spec fn opt_view(o: Option<String>) -> Option<Seq<char>> {
    match o {
        Some(s) => Some(s@),
        None => None,
    }
}

impl View for UrlParts {
    type V = (Seq<char>, Option<Seq<char>>, Seq<char>);

    open spec fn view(&self) -> Self::V {
        (self.username@, opt_view(self.password), self.path@)
    }
}

impl View for UrlEdits {
    type V = (Option<Seq<char>>, Option<Seq<char>>, Option<Seq<char>>);

    open spec fn view(&self) -> Self::V {
        (opt_view(self.username), opt_view(self.password), opt_view(self.path))
    }
}

/// The user name, password and path of an address, where it parses.
pub uninterp spec fn url_parts(s: Seq<char>) -> Option<(Seq<char>, Option<Seq<char>>, Seq<char>)>;

/// An address with its user name set, where the address parses and can
/// carry one.
pub uninterp spec fn url_with_username(s: Seq<char>, username: Seq<char>) -> Option<Seq<char>>;

/// An address with its password set, where the address parses and can
/// carry one.
pub uninterp spec fn url_with_password(s: Seq<char>, password: Seq<char>) -> Option<Seq<char>>;

/// An address with its path set, where the address parses.
pub uninterp spec fn url_with_path(s: Seq<char>, path: Seq<char>) -> Option<Seq<char>>;

/// Relies on `url::Url::parse` and its `username`, `password` and `path`
/// accessors.
#[verifier::external_body]
fn inspect_url(s: &str) -> (r: Result<UrlParts, url::ParseError>)
    ensures
        r is Ok <==> url_parts(s@) is Some,
        r matches Ok(p) ==> url_parts(s@) == Some(p@),
{
    match url::Url::parse(s) {
        Ok(u) => Ok(UrlParts {
            username: u.username().to_string(),
            password: u.password().map(|p| p.to_string()),
            path: u.path().to_string(),
        }),
        Err(e) => Err(e),
    }
}

/// Relies on `url::Url::parse`, `Url::set_username`, which fails on an
/// address without a host, and the serialized form of the result.
#[verifier::external_body]
fn url_set_username(s: &str, username: &str) -> (r: Option<String>)
    ensures
        opt_view(r) == url_with_username(s@, username@),
        url_parts(s@) is None ==> r is None,
{
    let mut u = match url::Url::parse(s) {
        Ok(u) => u,
        Err(_) => return None,
    };
    match u.set_username(username) {
        Ok(()) => Some(u.as_str().to_string()),
        Err(()) => None,
    }
}

/// Relies on `url::Url::parse`, `Url::set_password`, which fails on an
/// address without a host, and the serialized form of the result.
#[verifier::external_body]
fn url_set_password(s: &str, password: &str) -> (r: Option<String>)
    ensures
        opt_view(r) == url_with_password(s@, password@),
        url_parts(s@) is None ==> r is None,
{
    let mut u = match url::Url::parse(s) {
        Ok(u) => u,
        Err(_) => return None,
    };
    match u.set_password(Some(password)) {
        Ok(()) => Some(u.as_str().to_string()),
        Err(()) => None,
    }
}

/// Relies on `url::Url::parse`, `Url::set_path` and the serialized form of
/// the result.
#[verifier::external_body]
fn url_set_path(s: &str, path: &str) -> (r: Option<String>)
    ensures
        opt_view(r) == url_with_path(s@, path@),
        r is Some <==> url_parts(s@) is Some,
{
    let mut u = match url::Url::parse(s) {
        Ok(u) => u,
        Err(_) => return None,
    };
    u.set_path(path);
    Some(u.as_str().to_string())
}

/// Why startup could not bring the database up.
#[derive(Clone, Copy, Debug, PartialEq, Eq, Structural)]
pub enum BootstrapError {
    /// The configured address does not parse.
    InvalidUrl,
    /// Connecting failed for a reason other than a missing database.
    ConnectionFailed,
    /// Creating the missing database failed.
    ProvisioningFailed,
    /// The database was still missing after the allowed number of creations.
    ProvisioningLoop,
    /// A schema statement failed for a reason other than an existing table.
    SchemaFailed,
}

/// What the merge rules change: credentials only where the address lacks
/// them, the database name only where the address has no path.
pub open spec fn planned_edits(db: Database, parts: (Seq<char>, Option<Seq<char>>, Seq<char>)) -> (
    Option<Seq<char>>,
    Option<Seq<char>>,
    Option<Seq<char>>,
) {
    let (username, password, path) = parts;
    (
        if username.len() == 0 && db.credentials is Some {
            Some(db.credentials->Some_0.name@)
        } else {
            None
        },
        if password is None && db.credentials is Some {
            Some(db.credentials->Some_0.password@)
        } else {
            None
        },
        if path.len() == 0 || path == "/"@ {
            Some(db.name@)
        } else {
            None
        },
    )
}

/// The address startup connects to, where the configured one parses and
/// takes the edits: user name, then password, then path.
pub open spec fn effective_url(db: Database) -> Option<Seq<char>> {
    match url_parts(db.url@) {
        None => None,
        Some(parts) => {
            let e = planned_edits(db, parts);
            let t1 = match e.0 {
                Some(u) => url_with_username(db.url@, u),
                None => Some(db.url@),
            };
            let t2 = match (t1, e.1) {
                (Some(t), Some(p)) => url_with_password(t, p),
                _ => t1,
            };
            match (t2, e.2) {
                (Some(t), Some(p)) => url_with_path(t, p),
                _ => t2,
            }
        },
    }
}

/// A path without its leading slashes.
pub open spec fn trim_leading_slashes(s: Seq<char>) -> Seq<char>
    decreases s.len(),
{
    if s.len() > 0 && s[0] == '/' {
        trim_leading_slashes(s.skip(1))
    } else {
        s
    }
}

/// The addresses and statement that bootstrap works with.
#[derive(Debug)]
pub struct BootstrapPlan {
    /// The address of the target database.
    pub target_url: String,
    /// The same server's default database, used to create the target.
    pub admin_url: String,
    /// The statement that creates the target database.
    pub create_database: String,
}

impl Database {
    /// The default configuration: the local server and the application's
    /// database, with no credentials.
    pub fn default() -> (r: Database)
        ensures
            r.credentials is None,
            r.name@ == DB_NAME@,
            r.url@ == DEFAULT_URL@,
    {
        Database {
            credentials: None,
            name: String::from_str(DB_NAME),
            url: String::from_str(DEFAULT_URL),
        }
    }

    /// The changes the merge rules make to an address with the given parts.
    pub fn url_edits(&self, parts: &UrlParts) -> (r: UrlEdits)
        ensures
            r@ == planned_edits(*self, parts@),
    {
        let username = if parts.username.as_str().is_empty() {
            match &self.credentials {
                Some(c) => Some(c.name.clone()),
                None => None,
            }
        } else {
            None
        };
        let password = if parts.password.is_none() {
            match &self.credentials {
                Some(c) => Some(c.password.clone()),
                None => None,
            }
        } else {
            None
        };
        let slash = String::from_str("/");
        let path = if parts.path.as_str().is_empty() || parts.path.eq(&slash) {
            Some(self.name.clone())
        } else {
            None
        };
        UrlEdits { username, password, path }
    }

    /// The address to connect to: the configured one with credentials
    /// merged in where it lacks them and the database name where it has no
    /// path.
    pub fn db_url(&self) -> (r: Result<String, BootstrapError>)
        ensures
            r is Ok <==> effective_url(*self) is Some,
            r matches Ok(t) ==> effective_url(*self) == Some(t@),
            r matches Err(e) ==> e == BootstrapError::InvalidUrl,
    {
        let parts = match inspect_url(self.url.as_str()) {
            Ok(p) => p,
            Err(_) => {
                return Err(BootstrapError::InvalidUrl);
            },
        };
        let edits = self.url_edits(&parts);
        let mut t = self.url.clone();
        match &edits.username {
            Some(u) => {
                t = match url_set_username(t.as_str(), u.as_str()) {
                    Some(x) => x,
                    None => {
                        return Err(BootstrapError::InvalidUrl);
                    },
                };
            },
            None => {},
        }
        match &edits.password {
            Some(p) => {
                t = match url_set_password(t.as_str(), p.as_str()) {
                    Some(x) => x,
                    None => {
                        return Err(BootstrapError::InvalidUrl);
                    },
                };
            },
            None => {},
        }
        match &edits.path {
            Some(p) => {
                t = match url_set_path(t.as_str(), p.as_str()) {
                    Some(x) => x,
                    None => {
                        return Err(BootstrapError::InvalidUrl);
                    },
                };
            },
            None => {},
        }
        Ok(t)
    }

    /// The addresses and statement for bringing the database up: the
    /// effective address, the same server's default database, and the
    /// statement that creates the database the effective address names.
    pub fn plan(&self) -> (r: Result<BootstrapPlan, BootstrapError>)
        ensures
            r is Ok <==> ({
                &&& effective_url(*self) is Some
                &&& url_parts(effective_url(*self)->Some_0) is Some
            }),
            r matches Ok(p) ==> {
                let target = effective_url(*self)->Some_0;
                &&& p.target_url@ == target
                &&& Some(p.admin_url@) == url_with_path(target, DEFAULT_DB_NAME@)
                &&& p.create_database@ == "CREATE DATABASE "@ + trim_leading_slashes(
                    url_parts(target)->Some_0.2,
                )
            },
            r matches Err(e) ==> e == BootstrapError::InvalidUrl,
    {
        let target_url = match self.db_url() {
            Ok(t) => t,
            Err(e) => {
                return Err(e);
            },
        };
        let parts = match inspect_url(target_url.as_str()) {
            Ok(p) => p,
            Err(_) => {
                return Err(BootstrapError::InvalidUrl);
            },
        };
        let admin_url = match url_set_path(target_url.as_str(), DEFAULT_DB_NAME) {
            Some(a) => a,
            None => {
                return Err(BootstrapError::InvalidUrl);
            },
        };
        let name = trim_slashes(parts.path.as_str());
        let mut create_database = String::from_str("CREATE DATABASE ");
        create_database.append(name);
        Ok(BootstrapPlan { target_url, admin_url, create_database })
    }
}

/// Drops the leading slashes of a path.
fn trim_slashes(s: &str) -> (r: &str)
    ensures
        r@ == trim_leading_slashes(s@),
{
    let n = s.unicode_len();
    let mut i: usize = 0;
    assert(s@.skip(0) == s@);
    while i < n && s.get_char(i) == '/'
        invariant
            n == s@.len(),
            i <= n,
            trim_leading_slashes(s@) == trim_leading_slashes(s@.skip(i as int)),
        decreases n - i,
    {
        assert(s@.skip(i as int).skip(1) == s@.skip(i as int + 1));
        i = i + 1;
    }
    assert(s@.subrange(i as int, n as int) == s@.skip(i as int));
    s.substring_char(i, n)
}

} // verus!
