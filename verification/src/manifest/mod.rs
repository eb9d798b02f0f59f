//! The manifest of a project: its package and what it depends on.

pub mod dependencies;
pub mod manifest;
pub mod package;

pub use dependencies::{Dependency, DependencyPT};
pub use manifest::{Manifest, ManifestPT};
pub use package::{Package, PackagePT};
