//! The failures that the library reports.

use vstd::prelude::*;

verus! {

/// Why an operation of the library failed.
#[derive(Debug, Clone, Copy, PartialEq, Eq, Structural)]
pub enum FdmError {
    /// A version, platform or distribution string is malformed.
    InvalidIdentifier,
    /// The mirror is missing or empty and could not be cloned.
    RegistryUnavailable,
    /// An index document breaks the schema of the registry.
    MalformedIndexDocument,
    /// No entry of the index matches the package, version, distribution
    /// and platform asked for.
    DependencyNotFound,
    /// The transport answered with a failure, or the stream broke.
    DownloadFailed,
    /// The archive could not be unpacked.
    ExtractionFailed,
    /// The project has no manifest.
    ManifestNotFound,
    /// The offline registry was asked for without the path of a local one.
    OfflineWithoutLocal,
    /// Of the operating system and the architecture of the target, only
    /// one was given.
    IncompleteTarget,
    /// A project was to be created without a name.
    MissingProjectName,
    /// A language was named that the library does not know.
    UnknownLanguage,
}

} // verus!
