//! Versions and version ranges, carried in their canonical string form.

use crate::error::Error;
use vstd::prelude::*;

verus! {

/// A version, held as its canonical text.
#[derive(Debug, PartialEq, Eq, Default)]
pub struct Version {
    text: String,
}

/// A constraint on versions, held as its canonical text.
#[derive(Debug, PartialEq, Eq, Default)]
pub struct VersionRange {
    text: String,
}

impl View for Version {
    type V = Seq<char>;

    closed spec fn view(&self) -> Seq<char> {
        self.text@
    }
}

impl View for VersionRange {
    type V = Seq<char>;

    closed spec fn view(&self) -> Seq<char> {
        self.text@
    }
}

impl Version {
    /// The version whose canonical text is `text`.
    pub fn new(text: &str) -> (r: Version)
        ensures
            r@ == text@,
    {
        Version { text: text.to_owned() }
    }

    /// The canonical text.
    pub fn as_str(&self) -> (r: &str)
        ensures
            r@ == self@,
    {
        self.text.as_str()
    }

    /// The canonical text, as a string of its own.
    pub fn to_string(&self) -> (r: String)
        ensures
            r@ == self@,
    {
        self.text.clone()
    }
}

impl std::str::FromStr for Version {
    type Err = Error;

    /// Takes `text` as the canonical text of a version.
    fn from_str(text: &str) -> (r: Result<Version, Error>)
        ensures
            r is Ok,
            r->Ok_0@ == text@,
    {
        Ok(Version::new(text))
    }
}

impl std::str::FromStr for VersionRange {
    type Err = Error;

    /// Takes `text` as the canonical text of a range.
    fn from_str(text: &str) -> (r: Result<VersionRange, Error>)
        ensures
            r is Ok,
            r->Ok_0@ == text@,
    {
        Ok(VersionRange::new(text))
    }
}

impl VersionRange {
    /// The range whose canonical text is `text`.
    pub fn new(text: &str) -> (r: VersionRange)
        ensures
            r@ == text@,
    {
        VersionRange { text: text.to_owned() }
    }

    /// The canonical text.
    pub fn as_str(&self) -> (r: &str)
        ensures
            r@ == self@,
    {
        self.text.as_str()
    }

    /// The canonical text, as a string of its own.
    pub fn to_string(&self) -> (r: String)
        ensures
            r@ == self@,
    {
        self.text.clone()
    }
}

} // verus!
