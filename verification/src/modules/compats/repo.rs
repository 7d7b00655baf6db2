//! Repositories, whatever tool they are written for.

use vstd::prelude::*;

pub mod apt;
pub mod theorems;

verus! {

/// The kind of a package repository.
#[derive(Debug, Clone, PartialEq, Eq)]
pub enum RepoType {
    /// An APT repository, as Debian-based systems use.
    Apt,
}

/// A package repository with the attributes common to all kinds.
#[derive(Debug, Clone, PartialEq, Eq)]
pub struct Repository {
    /// A unique name for the repository.
    pub name: String,
    /// The base URL.
    pub url: String,
    /// The components or sections within the repository.
    pub components: Vec<String>,
    /// The architectures the repository serves.
    pub architectures: Vec<String>,
    /// The id or fingerprint of the key that signs the repository, if known.
    pub key: Option<String>,
    /// The kind of repository.
    pub repo_type: RepoType,
}

impl Repository {
    /// A repository made of the given parts, each kept as it is.
    pub fn new(
        name: String,
        url: String,
        components: Vec<String>,
        architectures: Vec<String>,
        key: Option<String>,
        repo_type: RepoType,
    ) -> (r: Self)
        ensures
            r.name == name,
            r.url == url,
            r.components == components,
            r.architectures == architectures,
            r.key == key,
            r.repo_type == repo_type,
    {
        Repository { name, url, components, architectures, key, repo_type }
    }
}

} // verus!
