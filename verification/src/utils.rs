pub mod args;
pub mod error;
