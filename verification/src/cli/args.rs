//! The arguments of the command line, already read.

use vstd::prelude::*;

verus! {

/// The arguments of one call of the program.
#[derive(Debug)]
pub struct Args {
    /// Print the version and leave.
    pub version: bool,
    /// Load all dependencies of the project.
    pub load: bool,
    /// The URL of the registry, in place of the default one.
    pub registry: Option<String>,
    /// Use a local registry only.
    pub offline: bool,
    /// The path of the local registry.
    pub local: Option<String>,
    /// The operating system of the target.
    pub operating_system: Option<String>,
    /// The architecture of the target.
    pub architecture: Option<String>,
    /// Create an empty project of this name.
    pub init: Option<String>,
    /// The new project builds with CMake.
    pub cmake: bool,
    /// The new project builds with Cargo.
    pub cargo: bool,
}

} // verus!
