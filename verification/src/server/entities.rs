pub mod fighters;
pub mod plays;
