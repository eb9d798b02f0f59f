//! The names of the files and directories of a project.

use vstd::prelude::*;

verus! {

/// The file that holds the manifest of a project.
pub const FDM_MANIFEST_FILENAME: &'static str = "fdm.toml";

/// The directory, in the project, of all that the manager keeps.
pub const FDM_DIRECTORY_NAME: &'static str = "fdm";

/// The directory of the mirror of the registry.
pub const FDM_REGISTRY_NAME: &'static str = "reg";

/// The directory of the cache.
pub const FDM_CACHE_NAME: &'static str = "cache";

/// The directory of what is handed to the build.
pub const FDM_PACK_NAME: &'static str = "pack";

/// The directory of the staged libraries.
pub const FDM_LIBS_NAME: &'static str = "libs";

} // verus!
