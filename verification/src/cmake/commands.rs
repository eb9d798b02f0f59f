//! The commands that the build files are made of, and how each is
//! written.

use vstd::prelude::*;
use vstd::string::*;

verus! {

/// How `file` collects paths.
#[derive(Debug, Clone, Copy, PartialEq, Eq, Structural)]
pub enum FileGlobMode {
    Glob,
    GlobRecurse,
}

/// Whether `file` gives paths relative to a directory.
#[derive(Debug, Clone, Copy, PartialEq, Eq, Structural)]
pub enum FileRelativeMode {
    Default,
    Relative,
}

/// What `list` does to a list.
#[derive(Debug, Clone, Copy, PartialEq, Eq, Structural)]
pub enum ListMode {
    Append,
}

/// One command of a build file.
#[allow(non_camel_case_types)]
#[derive(Debug)]
pub enum CMakeCommand {
    add_subdirectory(String),
    macro_start(String, String),
    macro_end,
    file_glob(FileGlobMode, String, FileRelativeMode, String, String),
    set(String, String),
    foreach_start(String, String),
    foreach_end,
    if_start(String),
    if_end,
    list(ListMode, String, String),
    any(String),
}

/// What a [`CMakeCommand`] stands for.
#[allow(non_camel_case_types)]
pub enum CommandView {
    add_subdirectory(Seq<char>),
    macro_start(Seq<char>, Seq<char>),
    macro_end,
    file_glob(FileGlobMode, Seq<char>, FileRelativeMode, Seq<char>, Seq<char>),
    set(Seq<char>, Seq<char>),
    foreach_start(Seq<char>, Seq<char>),
    foreach_end,
    if_start(Seq<char>),
    if_end,
    list(ListMode, Seq<char>, Seq<char>),
    any(Seq<char>),
}

impl View for CMakeCommand {
    type V = CommandView;

    open spec fn view(&self) -> CommandView {
        match self {
            CMakeCommand::add_subdirectory(path) => CommandView::add_subdirectory(path@),
            CMakeCommand::macro_start(name, args) => CommandView::macro_start(name@, args@),
            CMakeCommand::macro_end => CommandView::macro_end,
            CMakeCommand::file_glob(mode, path, relative, glob, body) => CommandView::file_glob(
                *mode,
                path@,
                *relative,
                glob@,
                body@,
            ),
            CMakeCommand::set(name, value) => CommandView::set(name@, value@),
            CMakeCommand::foreach_start(name, value) => CommandView::foreach_start(name@, value@),
            CMakeCommand::foreach_end => CommandView::foreach_end,
            CMakeCommand::if_start(cond) => CommandView::if_start(cond@),
            CMakeCommand::if_end => CommandView::if_end,
            CMakeCommand::list(mode, name, value) => CommandView::list(*mode, name@, value@),
            CMakeCommand::any(text) => CommandView::any(text@),
        }
    }
}

/// How a mode of `file` is written.
pub open spec fn glob_mode_text(mode: FileGlobMode) -> Seq<char> {
    match mode {
        FileGlobMode::Glob => "GLOB"@,
        FileGlobMode::GlobRecurse => "GLOB_RECURSE"@,
    }
}

/// How the relative mode of `file` is written.
pub open spec fn relative_mode_text(mode: FileRelativeMode) -> Seq<char> {
    match mode {
        FileRelativeMode::Default => Seq::empty(),
        FileRelativeMode::Relative => "RELATIVE"@,
    }
}

/// How a mode of `list` is written.
pub open spec fn list_mode_text(mode: ListMode) -> Seq<char> {
    match mode {
        ListMode::Append => "APPEND"@,
    }
}

/// How a command is written.
pub open spec fn command_text(c: CommandView) -> Seq<char> {
    match c {
        CommandView::add_subdirectory(path) => "add_subdirectory("@ + path + ")"@,
        CommandView::macro_start(name, args) => "macro("@ + name + " "@ + args + ")"@,
        CommandView::macro_end => "endmacro()"@,
        CommandView::file_glob(mode, path, relative, glob, body) => "file("@ + glob_mode_text(mode)
            + " "@ + path + " "@ + relative_mode_text(relative) + " "@ + glob + " "@ + body + ")"@,
        CommandView::set(name, value) => "set("@ + name + " "@ + value + ")"@,
        CommandView::foreach_start(name, value) => "foreach("@ + name + " "@ + value + ")"@,
        CommandView::foreach_end => "endforeach()"@,
        CommandView::if_start(cond) => "if("@ + cond + ")"@,
        CommandView::if_end => "endif()"@,
        CommandView::list(mode, name, value) => "list("@ + list_mode_text(mode) + " "@ + name
            + " "@ + value + ")"@,
        CommandView::any(text) => text,
    }
}

impl Default for FileRelativeMode {
    fn default() -> (r: Self)
        ensures
            r == FileRelativeMode::Default,
    {
        FileRelativeMode::Default
    }
}

impl FileGlobMode {
    /// How the mode is written.
    pub fn to_string(&self) -> (r: String)
        ensures
            r@ == glob_mode_text(*self),
    {
        match self {
            FileGlobMode::Glob => String::from_str("GLOB"),
            FileGlobMode::GlobRecurse => String::from_str("GLOB_RECURSE"),
        }
    }
}

impl FileRelativeMode {
    /// How the mode is written.
    pub fn to_string(&self) -> (r: String)
        ensures
            r@ == relative_mode_text(*self),
    {
        match self {
            FileRelativeMode::Default => String::new(),
            FileRelativeMode::Relative => String::from_str("RELATIVE"),
        }
    }
}

impl ListMode {
    /// How the mode is written.
    pub fn to_string(&self) -> (r: String)
        ensures
            r@ == list_mode_text(*self),
    {
        match self {
            ListMode::Append => String::from_str("APPEND"),
        }
    }
}

impl CMakeCommand {
    /// How the command is written.
    pub fn to_string(&self) -> (r: String)
        ensures
            r@ == command_text(self@),
    {
        match self {
            CMakeCommand::add_subdirectory(path) => {
                let mut out = String::from_str("add_subdirectory(");
                out.append(path.as_str());
                out.append(")");
                out
            },
            CMakeCommand::macro_start(name, args) => {
                let mut out = String::from_str("macro(");
                out.append(name.as_str());
                out.append(" ");
                out.append(args.as_str());
                out.append(")");
                out
            },
            CMakeCommand::macro_end => String::from_str("endmacro()"),
            CMakeCommand::file_glob(mode, path, relative, glob, body) => {
                let mut out = String::from_str("file(");
                out.append(mode.to_string().as_str());
                out.append(" ");
                out.append(path.as_str());
                out.append(" ");
                out.append(relative.to_string().as_str());
                out.append(" ");
                out.append(glob.as_str());
                out.append(" ");
                out.append(body.as_str());
                out.append(")");
                out
            },
            CMakeCommand::set(name, value) => {
                let mut out = String::from_str("set(");
                out.append(name.as_str());
                out.append(" ");
                out.append(value.as_str());
                out.append(")");
                out
            },
            CMakeCommand::foreach_start(name, value) => {
                let mut out = String::from_str("foreach(");
                out.append(name.as_str());
                out.append(" ");
                out.append(value.as_str());
                out.append(")");
                out
            },
            CMakeCommand::foreach_end => String::from_str("endforeach()"),
            CMakeCommand::if_start(cond) => {
                let mut out = String::from_str("if(");
                out.append(cond.as_str());
                out.append(")");
                out
            },
            CMakeCommand::if_end => String::from_str("endif()"),
            CMakeCommand::list(mode, name, value) => {
                let mut out = String::from_str("list(");
                out.append(mode.to_string().as_str());
                out.append(" ");
                out.append(name.as_str());
                out.append(" ");
                out.append(value.as_str());
                out.append(")");
                out
            },
            CMakeCommand::any(text) => text.clone(),
        }
    }
}

} // verus!
