//! The dependencies that a manifest declares.

use vstd::prelude::*;
use crate::error::FdmError;
use crate::types::dependencies::DependencyView;
use crate::types::distribution::{distribution_of, Distribution};
use crate::types::platform::{platform_of, PlatformArch};
use crate::types::version::{version_of, Version};

verus! {

/// A dependency as the manifest writes it: every field is text, and the
/// platform may be left out.
#[derive(Debug)]
pub struct DependencyPT {
    pub version: String,
    pub distribution: String,
    pub arch: Option<String>,
}

/// What a [`DependencyPT`] stands for.
pub struct DependencyPTView {
    pub version: Seq<char>,
    pub distribution: Seq<char>,
    pub arch: Option<Seq<char>>,
}

impl View for DependencyPT {
    type V = DependencyPTView;

    open spec fn view(&self) -> DependencyPTView {
        DependencyPTView {
            version: self.version@,
            distribution: self.distribution@,
            arch: match self.arch {
                Some(a) => Some(a@),
                None => None,
            },
        }
    }
}

/// A declared dependency whose version and distribution were read.
#[derive(Debug, PartialEq, Eq)]
pub struct Dependency {
    pub version: Version,
    pub distribution: Distribution,
}

/// The request that a declared dependency makes, where its version can be
/// read. A distribution or platform that has no name is `Unknown`.
pub open spec fn request_of_declared(d: DependencyPTView) -> Option<DependencyView> {
    match version_of(d.version) {
        Some(version) => Some(
            DependencyView {
                version,
                distribution: distribution_of(d.distribution),
                arch: match d.arch {
                    Some(a) => Some(platform_of(a)),
                    None => None,
                },
            },
        ),
        None => None,
    }
}

impl Dependency {
    /// The dependency with its version and distribution read. A version
    /// that cannot be read is refused as an invalid identifier.
    pub fn try_from(value: DependencyPT) -> (r: Result<Dependency, FdmError>)
        ensures
            match r {
                Ok(d) => version_of(value@.version) == Some(d.version@) && d.distribution
                    == distribution_of(value@.distribution),
                Err(e) => version_of(value@.version) is None && e is InvalidIdentifier,
            },
    {
        let version = match Version::parse(value.version.as_str()) {
            Ok(v) => v,
            Err(e) => {
                return Err(e);
            },
        };
        Ok(Dependency { version, distribution: Distribution::parse(value.distribution.as_str()) })
    }
}

impl DependencyPT {
    /// The request that the declared dependency makes. A version that
    /// cannot be read is refused as an invalid identifier.
    pub fn request(&self) -> (r: Result<crate::types::dependencies::Dependency, FdmError>)
        ensures
            match r {
                Ok(d) => request_of_declared(self@) == Some(d@),
                Err(e) => request_of_declared(self@) is None && e is InvalidIdentifier,
            },
    {
        let version = match Version::parse(self.version.as_str()) {
            Ok(v) => v,
            Err(e) => {
                return Err(e);
            },
        };
        let arch = match &self.arch {
            Some(a) => Some(PlatformArch::parse(a.as_str())),
            None => None,
        };
        Ok(
            crate::types::dependencies::Dependency {
                version,
                distribution: Distribution::parse(self.distribution.as_str()),
                arch,
            },
        )
    }
}

} // verus!
