pub mod auth;
pub mod entities;
pub mod handlers;
