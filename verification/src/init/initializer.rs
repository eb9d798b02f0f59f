//! What a new project is made of.

use vstd::prelude::*;
use vstd::string::*;
use crate::cli::args::Args;
use crate::error::FdmError;
use crate::types::build_system::BuildSystem;

verus! {

/// A project that is to be created.
#[derive(Debug)]
pub struct Initializer {
    pub name: String,
    pub build_system: BuildSystem,
}

/// The build system that the arguments choose: CMake before Cargo.
pub open spec fn build_system_of_args(args: Args) -> BuildSystem {
    if args.cmake {
        BuildSystem::CMake
    } else if args.cargo {
        BuildSystem::Cargo
    } else {
        BuildSystem::Unknown
    }
}

/// The files that every new project starts with.
pub open spec fn scaffold_files() -> Seq<Seq<char>> {
    seq![".clang-format"@, ".gitignore"@, ".gitattributes"@]
}

impl Initializer {
    /// The project that the arguments ask for. Arguments without a name
    /// for the project are refused.
    pub fn from_args(args: &Args) -> (r: Result<Initializer, FdmError>)
        ensures
            match r {
                Ok(i) => args.init matches Some(name) && i.name@ == name@ && i.build_system
                    == build_system_of_args(*args),
                Err(e) => args.init is None && e is MissingProjectName,
            },
    {
        let build_system = if args.cmake {
            BuildSystem::CMake
        } else if args.cargo {
            BuildSystem::Cargo
        } else {
            BuildSystem::Unknown
        };
        match &args.init {
            Some(name) => Ok(Initializer { name: name.clone(), build_system }),
            None => Err(FdmError::MissingProjectName),
        }
    }

    /// The names of the files that are copied into the new project, in
    /// the order in which they are written.
    pub fn create(&self) -> (r: Vec<String>)
        ensures
            r@.len() == scaffold_files().len(),
            forall|i: int| 0 <= i < r@.len() ==> r@[i]@ == scaffold_files()[i],
    {
        let mut files: Vec<String> = Vec::new();
        files.push(String::from_str(".clang-format"));
        files.push(String::from_str(".gitignore"));
        files.push(String::from_str(".gitattributes"));
        files
    }
}

} // verus!
