pub mod pkg;
pub mod repo;
