use vstd::prelude::*;
use vstd::string::*;
use crate::auth::{AuthError, SqlUser};

verus! {

/// The message for a refused login.
pub open spec fn refused_login_message() -> Seq<char> {
    "Password does not match or user does not exist."@
}

/// The message for a login that failed on an error.
pub open spec fn failed_login_message() -> Seq<char> {
    "An error occured"@
}

/// The answer to a login attempt: the user to sign in, or the message shown.
pub fn login_outcome(authenticated: Result<Option<SqlUser>, AuthError>) -> (r: Result<SqlUser, String>)
    ensures
        authenticated matches Ok(Some(u)) ==> r == Ok::<SqlUser, String>(u),
        authenticated matches Ok(None) ==> (r matches Err(m) && m@ == refused_login_message()),
        authenticated is Err ==> (r matches Err(m) && m@ == failed_login_message()),
{
    match authenticated {
        Ok(Some(user)) => Ok(user),
        Ok(None) => Err(String::from_str("Password does not match or user does not exist.")),
        Err(_) => Err(String::from_str("An error occured")),
    }
}

} // verus!
