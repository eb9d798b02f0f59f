//! The package that a manifest describes.

use vstd::prelude::*;
use crate::error::FdmError;
use crate::types::version::{version_of, Version, VersionView};

verus! {

/// A package as the manifest writes it: every field is text.
#[derive(Debug)]
pub struct PackagePT {
    pub name: String,
    pub version: String,
    pub authors: Vec<String>,
}

/// A package whose version was read.
#[derive(Debug, PartialEq, Eq)]
pub struct Package {
    pub name: String,
    pub version: Version,
    pub authors: Vec<String>,
}

impl Default for PackagePT {
    fn default() -> (r: Self)
        ensures
            r.name@ == Seq::<char>::empty(),
            r.version@ == Seq::<char>::empty(),
            r.authors@ == Seq::<String>::empty(),
    {
        PackagePT { name: String::new(), version: String::new(), authors: Vec::new() }
    }
}

impl Default for Package {
    fn default() -> (r: Self)
        ensures
            r.name@ == Seq::<char>::empty(),
            r.version@ == (VersionView { major: 0, minor: 0, patch: 0, qualifier: None }),
            r.authors@ == Seq::<String>::empty(),
    {
        Package { name: String::new(), version: Version::default(), authors: Vec::new() }
    }
}

impl Package {
    /// The package with its version read. A version that cannot be read
    /// is refused as an invalid identifier; the name and the authors are
    /// kept as they are.
    pub fn try_from(value: PackagePT) -> (r: Result<Package, FdmError>)
        ensures
            match r {
                Ok(p) => version_of(value.version@) == Some(p.version@) && p.name == value.name
                    && p.authors == value.authors,
                Err(e) => version_of(value.version@) is None && e is InvalidIdentifier,
            },
    {
        let version = match Version::parse(value.version.as_str()) {
            Ok(v) => v,
            Err(e) => {
                return Err(e);
            },
        };
        Ok(Package { name: value.name, version, authors: value.authors })
    }
}

} // verus!
