pub mod admin;
pub mod auth;
pub mod fight;
