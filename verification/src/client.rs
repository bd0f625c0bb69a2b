pub mod api;
pub mod arena;
pub mod routing;
