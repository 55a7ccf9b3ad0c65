use vstd::prelude::*;
use vstd::string::*;
use crate::random::{new_uuid_text, uuid_text};
use crate::text::str_eq;

verus! {

/// A user as the administration panel lists it.
#[derive(Clone, Debug)]
pub struct UserInfo {
    pub id: i64,
    pub username: String,
    pub email: String,
    pub signed_up: bool,
    pub admin: bool,
}

impl UserInfo {
    /// Whether the panel offers an invitation: only to users not signed up yet.
    pub fn may_be_invited(&self) -> (r: bool)
        ensures
            r == !self.signed_up,
    {
        !self.signed_up
    }

    /// Whether the panel offers to make the user an administrator: only a
    /// signed-up user who is not one already.
    pub fn may_become_admin(&self) -> (r: bool)
        ensures
            r == (self.signed_up && !self.admin),
    {
        self.signed_up && !self.admin
    }
}

/// The path of the sign-up page for an invitation token.
pub fn invitation_link(token: &str) -> (r: String)
    ensures
        r@ == "/signup/"@ + token@,
{
    let mut link = String::from_str("/signup/");
    link.append(token);
    link
}

/// A new invitation: a fresh token and the sign-up path for it.
pub fn new_invitation() -> (r: (String, String))
    ensures
        uuid_text(r.0@),
        r.1@ == "/signup/"@ + r.0@,
{
    let token = new_uuid_text();
    let link = invitation_link(token.as_str());
    (token, link)
}

/// The full invitation address: the site's origin followed by the link.
pub fn invitation_address(origin: &str, link: &str) -> (r: String)
    ensures
        r@ == origin@ + link@,
{
    let mut address = String::from_str(origin);
    address.append(link);
    address
}

/// Whether the panel may delete a user: every user but the first
/// administrator, named `admin`.
pub fn can_delete_user(username: &str) -> (r: bool)
    ensures
        r == (username@ != "admin"@),
{
    !str_eq(username, "admin")
}

} // verus!
