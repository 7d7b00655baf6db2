//! Compatibility layer of a package-manager front end.
//!
//! Two independent halves share one idea, canonical normalisation:
//! `modules::compats::repo` reads stanza-based repository source text into
//! repository descriptors, and `modules::compats::pkg` holds the canonical
//! dependency-relation model together with the adapter that maps a package
//! metadata record onto it.

pub mod error;
pub mod modules;
pub mod text;
pub mod utils;
pub mod version;

pub use error::Error;
