pub mod admin;
pub mod gallery;
pub mod roles;
pub mod users;
