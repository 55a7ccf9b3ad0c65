use vstd::prelude::*;
use crate::session::{
    datetime_saturating_add, representable_duration, representable_instant,
    saturating_add, SessionExpiry,
};
use crate::text::str_eq;

verus! {

/// A signed-in user as the pages see it.
#[derive(Clone, Debug, PartialEq, Eq)]
pub struct User {
    pub id: i64,
    pub username: String,
    pub email: String,
    pub permissions: Vec<String>,
}

impl User {
    /// The permissions, by their text; they hold no duplicates.
    pub open spec fn permission_names(&self) -> Seq<Seq<char>> {
        self.permissions.deep_view()
    }

    /// A user whose permissions are a set: none occurs twice.
    pub open spec fn well_formed(&self) -> bool {
        self.permission_names().no_duplicates()
    }

    /// Whether the user holds permission `perm`.
    pub fn has(&self, perm: &str) -> (r: bool)
        ensures
            r == self.permission_names().contains(perm@),
    {
        let mut i: usize = 0;
        while i < self.permissions.len()
            invariant
                i <= self.permissions.len(),
                forall|j: int| 0 <= j < i ==> self.permission_names()[j] != perm@,
            decreases self.permissions.len() - i,
        {
            assert(self.permission_names()[i as int] == self.permissions[i as int]@);
            if str_eq(self.permissions[i].as_str(), perm) {
                return true;
            }
            i = i + 1;
        }
        false
    }
}

impl Default for User {
    /// The guest: id -1, named `Guest`, with no email and no permissions.
    fn default() -> (r: Self)
        ensures
            r.id == -1,
            r.username@ == "Guest"@,
            r.email@ == ""@,
            r.permissions@.len() == 0,
            r.well_formed(),
    {
        let r = User {
            id: -1,
            username: String::from_str("Guest"),
            email: String::from_str(""),
            permissions: Vec::new(),
        };
        assert(r.permission_names() =~= Seq::<Seq<char>>::empty());
        r
    }
}

/// A row of the user table.
#[derive(Clone)]
pub struct SqlUser {
    pub id: i64,
    pub username: String,
    pub email: String,
    pub password: String,
    pub signed_up: bool,
    pub admin: bool,
}

/// The permissions that a user row grants: `admin` for administrators, none else.
pub open spec fn granted_permissions(admin: bool) -> Seq<Seq<char>> {
    if admin { seq!["admin"@] } else { Seq::empty() }
}

impl SqlUser {
    /// The user as the pages see it: same id, name and email, and the
    /// permission `admin` exactly when the row marks an administrator.
    pub fn into_user(self) -> (r: User)
        ensures
            r.id == self.id,
            r.username == self.username,
            r.email == self.email,
            r.permission_names() == granted_permissions(self.admin),
            r.well_formed(),
    {
        let mut permissions: Vec<String> = Vec::new();
        if self.admin == true {
            permissions.push(String::from_str("admin"));
        }
        let r = User { id: self.id, username: self.username, email: self.email, permissions };
        assert(r.permission_names() =~= granted_permissions(self.admin));
        r
    }
}

/// A user name and a password as the login form sends them.
#[derive(Debug, Clone)]
pub struct Credentials {
    pub username: String,
    pub password: String,
}

/// Why an authentication failed: the database, the task that checks the
/// password (as when no user has the name), or the password hash.
#[derive(Debug, PartialEq, Eq, Structural, Clone, Copy)]
pub enum AuthError {
    Sqlx,
    TaskJoin,
    Bcrypt,
}

/// What `bcrypt::verify` returns for a password and a stored hash: `Some`
/// with whether the password matches, or `None` where the hash is malformed.
pub uninterp spec fn bcrypt_verify_outcome(password: Seq<char>, hash: Seq<char>) -> Option<bool>;

#[verifier::external_type_specification]
#[verifier::external_body]
pub struct ExBcryptError(bcrypt::BcryptError);

/// Calls `bcrypt::verify` on the password's bytes and the stored hash.
/// Claimed: it returns `Ok(b)` exactly when the named outcome is `Some(b)`,
/// and an error exactly when the outcome is `None`.
#[verifier::external_body]
fn verify_password(password: &str, hash: &str) -> (r: Result<bool, bcrypt::BcryptError>)
    ensures
        r is Ok <==> bcrypt_verify_outcome(password@, hash@) is Some,
        r matches Ok(b) ==> bcrypt_verify_outcome(password@, hash@) == Some(b),
{
    bcrypt::verify(password, hash)
}

/// Calls `bcrypt::hash` with `bcrypt::DEFAULT_COST` and a random salt.
/// Claimed: a hash it returns verifies the password, that is, the named
/// outcome of `bcrypt::verify` on the same password and that hash is
/// `Some(true)` (the hash records the cost and the salt, and `verify` hashes
/// the password again with them). Which hash comes back depends on the salt
/// and is not stated; it fails only where the system gives no random bytes.
#[verifier::external_body]
fn hash_password(password: &str) -> (r: Result<String, bcrypt::BcryptError>)
    ensures
        r matches Ok(h) ==> bcrypt_verify_outcome(password@, h@) == Some(true),
{
    bcrypt::hash(password, bcrypt::DEFAULT_COST)
}

/// Hashes a new password for storage, or `None` where hashing failed. A
/// returned hash verifies the password it was made from.
pub fn hash_new_password(password: &str) -> (r: Option<String>)
    ensures
        r matches Some(h) ==> bcrypt_verify_outcome(password@, h@) == Some(true),
{
    match hash_password(password) {
        Ok(h) => Some(h),
        Err(_) => None,
    }
}

/// The authentication result once the password check is known.
pub open spec fn password_check_spec(user: SqlUser, outcome: Option<bool>) -> Result<Option<SqlUser>, AuthError> {
    match outcome {
        Some(true) => Ok(Some(user)),
        Some(false) => Ok(None),
        None => Err(AuthError::Bcrypt),
    }
}

/// Turns the outcome of the password check into the authentication result:
/// the user when the password matches, nothing when it does not, and an
/// error when the hash could not be read.
pub fn password_check(user: SqlUser, outcome: Option<bool>) -> (r: Result<Option<SqlUser>, AuthError>)
    ensures
        r == password_check_spec(user, outcome),
{
    match outcome {
        Some(true) => Ok(Some(user)),
        Some(false) => Ok(None),
        None => Err(AuthError::Bcrypt),
    }
}

/// Authenticates `creds` against the user row found for its name, if any. No
/// row is an error of the checking task; else the password is checked with
/// bcrypt against the row's hash.
pub fn authenticate(found: Option<SqlUser>, creds: Credentials) -> (r: Result<Option<SqlUser>, AuthError>)
    ensures
        found is None ==> r == Err::<Option<SqlUser>, AuthError>(AuthError::TaskJoin),
        found matches Some(u) ==> r == password_check_spec(
            u,
            bcrypt_verify_outcome(creds.password@, u.password@),
        ),
{
    match found {
        None => Err(AuthError::TaskJoin),
        Some(user) => {
            let outcome = match verify_password(creds.password.as_str(), user.password.as_str()) {
                Ok(b) => Some(b),
                Err(_) => None,
            };
            password_check(user, outcome)
        },
    }
}

/// Durations, in nanoseconds, for the session expiry of signed-in users.
#[derive(Debug, Clone, Copy)]
pub struct CustomExpirySessionConfig {
    /// Expire on inactivity after expiry on default
    pub expiry: i128,
    /// if remember me option is on allow long long sessions
    /// Switch to on inactivity after max_age_term_expiry
    pub max_age_term_expiry: i128,
    /// time interval to check for to update expiry to prevent
    /// too many database writes
    /// needs to be smaller than expiry
    pub on_activity_check: i128,
}

impl Default for CustomExpirySessionConfig {
    /// Three hours, sixty days and one hour.
    fn default() -> (r: Self)
        ensures
            r.expiry == 10_800_000_000_000,
            r.max_age_term_expiry == 5_184_000_000_000_000,
            r.on_activity_check == 3_600_000_000_000,
    {
        CustomExpirySessionConfig {
            expiry: 10_800_000_000_000,
            max_age_term_expiry: 5_184_000_000_000_000,
            on_activity_check: 3_600_000_000_000,
        }
    }
}

/// The expiry that an active session switches to: an inactivity expiry of
/// the configured length when the session's expiry date falls before
/// `now + expiry`, else none.
pub fn extended_expiry(expiry_date: i128, now: i128, config: CustomExpirySessionConfig) -> (r: Option<SessionExpiry>)
    requires
        representable_instant(now as int),
        representable_duration(config.expiry as int),
    ensures
        r == (if expiry_date < datetime_saturating_add(now as int, config.expiry as int) {
            Some(SessionExpiry::OnInactivity(config.expiry))
        } else {
            None
        }),
{
    if expiry_date < saturating_add(now, config.expiry) {
        Some(SessionExpiry::OnInactivity(config.expiry))
    } else {
        None
    }
}

/// A password stored at sign-up is accepted at login: for a row whose hash
/// verifies the password (as every hash made by `hash_new_password` does for
/// its password), the check of that password gives the row back.
pub proof fn law_stored_password_logs_in(row: SqlUser, password: Seq<char>)
    requires
        bcrypt_verify_outcome(password, row.password@) == Some(true),
    ensures
        password_check_spec(row, bcrypt_verify_outcome(password, row.password@))
            == Ok::<Option<SqlUser>, AuthError>(Some(row)),
{
}

/// A row becomes a user with the `admin` permission exactly when it marks an
/// administrator, and with no other permission.
pub proof fn law_admin_permission_iff_admin_row(row: SqlUser, user: User)
    requires
        user.permission_names() == granted_permissions(row.admin),
    ensures
        user.permission_names().contains("admin"@) == row.admin,
        forall|p: Seq<char>| user.permission_names().contains(p) ==> p == "admin"@,
{
    if row.admin {
        assert(user.permission_names()[0] == "admin"@);
    }
}

} // verus!
