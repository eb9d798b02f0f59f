//! What the command line hands to the library.

pub mod args;

pub use args::Args;
