use vstd::prelude::*;
use vstd::string::*;
use crate::text::str_eq;

verus! {

/// The message for a sign-up whose two passwords differ.
pub open spec fn mismatch_message() -> Seq<char> {
    "Passwords did not match."@
}

/// Refuses a sign-up whose password and confirmation differ.
pub fn check_password_confirmation(password: &str, confirmation: &str) -> (r: Result<(), String>)
    ensures
        password@ == confirmation@ ==> r is Ok,
        password@ != confirmation@ ==> (r matches Err(m) && m@ == mismatch_message()),
{
    if !str_eq(password, confirmation) {
        return Err(String::from_str("Passwords did not match."));
    }
    Ok(())
}

} // verus!
