use vstd::prelude::*;

pub mod text;
pub mod encoding;
pub mod random;
pub mod imaging;
pub mod image_filter;
pub mod components;
pub mod session;
pub mod auth;
pub mod schema;
pub mod pages;

verus! {

} // verus!
