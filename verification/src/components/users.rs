use vstd::prelude::*;

verus! {

/// A user as the pickers for people list it.
#[derive(Debug, Eq, Ord, PartialEq, PartialOrd, Clone)]
pub struct UserInfo {
    pub id: i64,
    pub username: String,
}

} // verus!
