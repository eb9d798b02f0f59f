//! Build files for CMake: the commands and the text of a file.

pub mod commands;
pub mod parser;
pub mod project;

pub use commands::{CMakeCommand, FileGlobMode, FileRelativeMode, ListMode};
pub use parser::CMakeFile;
