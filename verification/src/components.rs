pub mod feed;
pub mod upload;
pub mod image_view;
pub mod home_page;
pub mod invite;
pub mod users;
pub mod login;
pub mod signup;
pub mod testdb;
