//! Setting up a new project.

pub mod initializer;

pub use initializer::Initializer;
