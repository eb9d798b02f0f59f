//! The identifier and index types of the registry.

pub mod build_system;
pub mod dependencies;
pub mod descriptor;
pub mod distribution;
pub mod index;
pub mod language;
pub mod platform;
pub mod version;

pub use build_system::BuildSystem;
pub use descriptor::Descriptor;
pub use distribution::Distribution;
pub use index::RegistryIndex;
pub use language::Language;
pub use platform::PlatformArch;
pub use version::Version;
