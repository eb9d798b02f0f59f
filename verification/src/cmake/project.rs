//! The three build files that hand the staged libraries to the build of
//! the project.

use vstd::prelude::*;
use vstd::string::*;
use crate::cmake::commands::{
    command_text, CMakeCommand, CommandView, FileGlobMode, FileRelativeMode, ListMode,
};
use crate::cmake::parser::CMakeFile;

verus! {

/// The text of a file that holds the commands, each on a line of its own.
pub open spec fn file_text(commands: Seq<CommandView>) -> Seq<char>
    decreases commands.len(),
{
    if commands.len() == 0 {
        Seq::empty()
    } else {
        file_text(commands.drop_last()) + command_text(commands.last()) + "\n"@
    }
}

/// What a list of commands stands for.
pub open spec fn commands_view(commands: Seq<CMakeCommand>) -> Seq<CommandView> {
    Seq::new(commands.len(), |i: int| commands[i]@)
}

/// The commands of the file at the root: it hands over to the directory
/// of what is handed to the build.
pub open spec fn root_commands() -> Seq<CommandView> {
    seq![CommandView::add_subdirectory("pack"@)]
}

/// The commands of the file beside the staged libraries: it hands over
/// to their directory.
pub open spec fn internal_commands() -> Seq<CommandView> {
    seq![CommandView::add_subdirectory("libs"@)]
}

/// The commands of the file among the staged libraries: it adds every
/// directory that it finds beside itself.
pub open spec fn collection_commands() -> Seq<CommandView> {
    seq![
        CommandView::macro_start("SUBDIRLIST"@, "result curdir"@),
        CommandView::file_glob(
            FileGlobMode::Glob,
            "children"@,
            FileRelativeMode::Relative,
            "${curdir}"@,
            "${curdir}/*"@,
        ),
        CommandView::set("dirlist"@, "\"\""@),
        CommandView::foreach_start("child"@, "${children}"@),
        CommandView::if_start("IS_DIRECTORY ${curdir}/${child}"@),
        CommandView::list(ListMode::Append, "dirlist"@, "${child}"@),
        CommandView::if_end,
        CommandView::foreach_end,
        CommandView::set("${result}"@, "${dirlist}"@),
        CommandView::macro_end,
        CommandView::any("\n"@),
        CommandView::any("SUBDIRLIST(SUBDIRS ${CMAKE_CURRENT_SOURCE_DIR})"@),
        CommandView::foreach_start("subdir"@, "${SUBDIRS}"@),
        CommandView::add_subdirectory("${subdir}"@),
        CommandView::foreach_end,
        CommandView::any("\n"@),
    ]
}

impl CMakeFile {
    /// Writes the commands, in order, at the end of the file.
    pub fn commands(&mut self, commands: Vec<CMakeCommand>)
        ensures
            final(self).content@ == old(self).content@ + file_text(commands_view(commands@)),
            final(self).path == old(self).path,
    {
        let ghost all = commands_view(commands@);
        let mut i: usize = 0;
        assert(all.take(0) =~= Seq::<CommandView>::empty());
        while i < commands.len()
            invariant
                i <= commands.len(),
                all == commands_view(commands@),
                self.content@ == old(self).content@ + file_text(all.take(i as int)),
                self.path == old(self).path,
            decreases commands.len() - i,
        {
            let line = commands[i].to_string();
            self.content.append(line.as_str());
            self.content.append("\n");
            proof {
                let next = all.take(i + 1);
                assert(next.drop_last() =~= all.take(i as int));
                assert(next.last() == commands@[i as int]@);
                assert(self.content@ =~= old(self).content@ + file_text(next));
            }
            i = i + 1;
        }
        proof {
            assert(all.take(commands.len() as int) =~= all);
        }
    }
}

/// The build file at the root of what the manager keeps, with its path
/// from the working directory of the project.
pub fn root_file() -> (r: CMakeFile)
    ensures
        r.path@ == "fdm/CMakeLists.txt"@,
        r.content@ == file_text(root_commands()),
{
    let mut file = CMakeFile::new("fdm/CMakeLists.txt");
    let commands = vec![CMakeCommand::add_subdirectory(String::from_str("pack"))];
    assert(commands_view(commands@) =~= root_commands());
    file.commands(commands);
    file
}

/// The build file beside the directory of the staged libraries, with its
/// path from the working directory of the project.
pub fn internal_file() -> (r: CMakeFile)
    ensures
        r.path@ == "fdm/pack/CMakeLists.txt"@,
        r.content@ == file_text(internal_commands()),
{
    let mut file = CMakeFile::new("fdm/pack/CMakeLists.txt");
    let commands = vec![CMakeCommand::add_subdirectory(String::from_str("libs"))];
    assert(commands_view(commands@) =~= internal_commands());
    file.commands(commands);
    file
}

/// The build file among the staged libraries, with its path from the
/// working directory of the project.
pub fn collection_file() -> (r: CMakeFile)
    ensures
        r.path@ == "fdm/pack/libs/CMakeLists.txt"@,
        r.content@ == file_text(collection_commands()),
{
    let mut file = CMakeFile::new("fdm/pack/libs/CMakeLists.txt");
    let commands = vec![
        CMakeCommand::macro_start(
            String::from_str("SUBDIRLIST"),
            String::from_str("result curdir"),
        ),
        CMakeCommand::file_glob(
            FileGlobMode::Glob,
            String::from_str("children"),
            FileRelativeMode::Relative,
            String::from_str("${curdir}"),
            String::from_str("${curdir}/*"),
        ),
        CMakeCommand::set(String::from_str("dirlist"), String::from_str("\"\"")),
        CMakeCommand::foreach_start(String::from_str("child"), String::from_str("${children}")),
        CMakeCommand::if_start(String::from_str("IS_DIRECTORY ${curdir}/${child}")),
        CMakeCommand::list(
            ListMode::Append,
            String::from_str("dirlist"),
            String::from_str("${child}"),
        ),
        CMakeCommand::if_end,
        CMakeCommand::foreach_end,
        CMakeCommand::set(String::from_str("${result}"), String::from_str("${dirlist}")),
        CMakeCommand::macro_end,
        CMakeCommand::any(String::from_str("\n")),
        CMakeCommand::any(String::from_str("SUBDIRLIST(SUBDIRS ${CMAKE_CURRENT_SOURCE_DIR})")),
        CMakeCommand::foreach_start(String::from_str("subdir"), String::from_str("${SUBDIRS}")),
        CMakeCommand::add_subdirectory(String::from_str("${subdir}")),
        CMakeCommand::foreach_end,
        CMakeCommand::any(String::from_str("\n")),
    ];
    assert(commands_view(commands@) =~= collection_commands());
    file.commands(commands);
    file
}

} // verus!
