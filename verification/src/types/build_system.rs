//! The build systems that a new project can be set up for.

use vstd::prelude::*;
use vstd::string::*;
use crate::text::str_eq;

verus! {

/// A build system. `Unknown` is every one that the library has no name
/// for.
#[derive(Debug, Clone, Copy, PartialEq, Eq, Structural)]
pub enum BuildSystem {
    CMake,
    Cargo,
    Unknown,
}

/// The build system that a tag names.
pub open spec fn build_system_of(s: Seq<char>) -> BuildSystem {
    if s == "cmake"@ {
        BuildSystem::CMake
    } else if s == "cargo"@ {
        BuildSystem::Cargo
    } else {
        BuildSystem::Unknown
    }
}

/// The canonical tag of a build system.
pub open spec fn build_system_text(b: BuildSystem) -> Seq<char> {
    match b {
        BuildSystem::CMake => "cmake"@,
        BuildSystem::Cargo => "cargo"@,
        BuildSystem::Unknown => "unknown"@,
    }
}

/// Writing a build system's tag and reading it gives the build system
/// back.
pub proof fn lemma_build_system_text_reads_back(b: BuildSystem)
    ensures
        build_system_of(build_system_text(b)) == b,
{
    reveal_strlit("cmake");
    reveal_strlit("cargo");
    reveal_strlit("unknown");
    assert("cmake"@.len() == 5 && "cargo"@.len() == 5 && "unknown"@.len() == 7);
    assert("cmake"@[1] != "cargo"@[1]);
}

impl Default for BuildSystem {
    fn default() -> (r: Self)
        ensures
            r == BuildSystem::Unknown,
    {
        BuildSystem::Unknown
    }
}

impl BuildSystem {
    /// The build system that a tag names. No tag is refused: one that the
    /// library has no name for is `Unknown`.
    pub fn parse(s: &str) -> (r: Self)
        ensures
            r == build_system_of(s@),
    {
        if str_eq(s, "cmake") {
            BuildSystem::CMake
        } else if str_eq(s, "cargo") {
            BuildSystem::Cargo
        } else {
            BuildSystem::Unknown
        }
    }

    /// The canonical tag of the build system.
    pub fn to_string(&self) -> (r: String)
        ensures
            r@ == build_system_text(*self),
    {
        let tag = match self {
            BuildSystem::CMake => "cmake",
            BuildSystem::Cargo => "cargo",
            BuildSystem::Unknown => "unknown",
        };
        String::from_str(tag)
    }
}

impl From<&str> for BuildSystem {
    fn from(s: &str) -> (r: Self) {
        BuildSystem::parse(s)
    }
}

impl vstd::std_specs::convert::FromSpecImpl<&str> for BuildSystem {
    open spec fn obeys_from_spec() -> bool {
        true
    }

    open spec fn from_spec(s: &str) -> Self {
        build_system_of(s@)
    }
}

impl From<String> for BuildSystem {
    fn from(s: String) -> (r: Self) {
        BuildSystem::parse(s.as_str())
    }
}

impl vstd::std_specs::convert::FromSpecImpl<String> for BuildSystem {
    open spec fn obeys_from_spec() -> bool {
        true
    }

    open spec fn from_spec(s: String) -> Self {
        build_system_of(s@)
    }
}

} // verus!
