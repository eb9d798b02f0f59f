//! The text of a build file, written command by command.

use vstd::prelude::*;
use vstd::string::*;
use crate::cmake::commands::{command_text, CMakeCommand};

verus! {

/// A build file: where it is written, and its text.
#[derive(Debug)]
pub struct CMakeFile {
    pub path: String,
    pub content: String,
}

impl CMakeFile {
    /// An empty build file for `path`.
    pub fn new(path: &str) -> (r: CMakeFile)
        ensures
            r.path@ == path@,
            r.content@ == Seq::<char>::empty(),
    {
        CMakeFile { path: path.to_owned(), content: String::new() }
    }

    /// The build file at `path` with the text that it was found to hold.
    pub fn from_file(path: &str, content: String) -> (r: CMakeFile)
        ensures
            r.path@ == path@,
            r.content == content,
    {
        CMakeFile { path: path.to_owned(), content }
    }

    /// Writes a line of text at the end of the file.
    pub fn append(&mut self, content: &str)
        ensures
            final(self).content@ == old(self).content@ + content@ + "\n"@,
            final(self).path == old(self).path,
    {
        self.content.append(content);
        self.content.append("\n");
    }

    /// Writes a command, on a line of its own, at the end of the file.
    pub fn command(&mut self, cmd: CMakeCommand)
        ensures
            final(self).content@ == old(self).content@ + command_text(cmd@) + "\n"@,
            final(self).path == old(self).path,
    {
        let line = cmd.to_string();
        self.content.append(line.as_str());
        self.content.append("\n");
    }
}

} // verus!
