pub mod builtin;
pub mod ping;
