//! The registry: its index, how the index is read from documents, and how
//! requests are looked up and resolved in it.

pub mod documents;
pub mod git;
pub mod laws;
pub mod registry;
pub mod resolver;
pub mod sync;

pub use registry::Registry;
