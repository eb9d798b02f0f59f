use fdm::cli::args::Args;
use fdm::cmake::commands::{CMakeCommand, FileGlobMode, FileRelativeMode, ListMode};
use fdm::cmake::parser::CMakeFile;
use fdm::cmake::project::{collection_file, internal_file, root_file};
use fdm::config::Config;
use fdm::consts::{
    FDM_CACHE_NAME, FDM_DIRECTORY_NAME, FDM_LIBS_NAME, FDM_MANIFEST_FILENAME, FDM_PACK_NAME,
    FDM_REGISTRY_NAME,
};
use fdm::error::FdmError;
use fdm::init::initializer::Initializer;
use fdm::types::build_system::BuildSystem;
use fdm::types::platform::{HostWidth, PlatformArch};

fn args() -> Args {
    Args {
        version: false,
        load: false,
        registry: None,
        offline: false,
        local: None,
        operating_system: None,
        architecture: None,
        init: None,
        cmake: false,
        cargo: false,
    }
}

fn s(text: &str) -> String {
    text.to_string()
}

#[test]
fn config_new_is_online_with_the_default_registry() {
    let config = Config::new(PlatformArch::LinuxX64);
    assert_eq!(config.offline_registry_url, None);
    assert_eq!(config.online_registry_url, "http://uav.radar-mms.com/gitlab/test/rdm/rdm-registry");
    assert_eq!(config.platform, PlatformArch::LinuxX64);
    assert_eq!(config.registry_location(), "http://uav.radar-mms.com/gitlab/test/rdm/rdm-registry");
    let on_host = Config::from_env(HostWidth::Bits64);
    assert_eq!(on_host.offline_registry_url, None);
    assert_eq!(on_host.online_registry_url, config.online_registry_url);
    assert_eq!(on_host.platform, PlatformArch::from_env(HostWidth::Bits64));
    assert_eq!(Config::from_env(HostWidth::Unreported).platform, PlatformArch::Unknown);
}

#[test]
fn load_args_without_options_changes_nothing() {
    let mut config = Config::new(PlatformArch::Android);
    config.load_args(&args()).unwrap();
    assert_eq!(config.offline_registry_url, None);
    assert_eq!(config.online_registry_url, "http://uav.radar-mms.com/gitlab/test/rdm/rdm-registry");
    assert_eq!(config.platform, PlatformArch::Android);
}

#[test]
fn load_args_takes_registry_local_and_target() {
    let mut config = Config::new(PlatformArch::LinuxX64);
    let a = Args {
        registry: Some(s("https://example.com/reg")),
        offline: true,
        local: Some(s("/srv/registry")),
        operating_system: Some(s("windows")),
        architecture: Some(s("x64")),
        ..args()
    };
    config.load_args(&a).unwrap();
    assert_eq!(config.offline_registry_url, Some(s("/srv/registry")));
    assert_eq!(config.online_registry_url, "https://example.com/reg");
    assert_eq!(config.platform, PlatformArch::WindowsX64);
    assert_eq!(config.registry_location(), "/srv/registry");
}

#[test]
fn load_args_ignores_local_when_online() {
    let mut config = Config::new(PlatformArch::LinuxX64);
    let a = Args { local: Some(s("/srv/registry")), ..args() };
    config.load_args(&a).unwrap();
    assert_eq!(config.offline_registry_url, None);
    assert_eq!(config.registry_location(), "http://uav.radar-mms.com/gitlab/test/rdm/rdm-registry");
}

#[test]
fn load_args_makes_unknown_targets_unknown() {
    let mut config = Config::new(PlatformArch::LinuxX64);
    let a = Args { operating_system: Some(s("beos")), architecture: Some(s("x64")), ..args() };
    config.load_args(&a).unwrap();
    assert_eq!(config.platform, PlatformArch::Unknown);
}

#[test]
fn load_args_refuses_offline_without_local() {
    let mut config = Config::new(PlatformArch::LinuxX64);
    let a = Args { offline: true, registry: Some(s("https://example.com/reg")), ..args() };
    assert_eq!(config.load_args(&a), Err(FdmError::OfflineWithoutLocal));
    assert_eq!(config.online_registry_url, "http://uav.radar-mms.com/gitlab/test/rdm/rdm-registry");
    assert_eq!(config.offline_registry_url, None);
}

#[test]
fn load_args_refuses_half_a_target() {
    let mut config = Config::new(PlatformArch::LinuxX64);
    let only_os = Args { operating_system: Some(s("linux")), registry: Some(s("x")), ..args() };
    assert_eq!(config.load_args(&only_os), Err(FdmError::IncompleteTarget));
    let only_arch = Args { architecture: Some(s("x64")), ..args() };
    assert_eq!(config.load_args(&only_arch), Err(FdmError::IncompleteTarget));
    assert_eq!(config.online_registry_url, "http://uav.radar-mms.com/gitlab/test/rdm/rdm-registry");
    assert_eq!(config.platform, PlatformArch::LinuxX64);
    let both_wrong = Args { offline: true, architecture: Some(s("x64")), ..args() };
    assert_eq!(config.load_args(&both_wrong), Err(FdmError::OfflineWithoutLocal));
}

#[test]
fn initializer_takes_name_and_build_system() {
    let a = Args { init: Some(s("demo")), cmake: true, cargo: true, ..args() };
    let i = Initializer::from_args(&a).unwrap();
    assert_eq!(i.name, "demo");
    assert_eq!(i.build_system, BuildSystem::CMake);
    let cargo = Initializer::from_args(&Args { init: Some(s("demo")), cargo: true, ..args() }).unwrap();
    assert_eq!(cargo.build_system, BuildSystem::Cargo);
    let none = Initializer::from_args(&Args { init: Some(s("")), ..args() }).unwrap();
    assert_eq!(none.build_system, BuildSystem::Unknown);
    assert_eq!(none.name, "");
    assert_eq!(i.create(), vec![".clang-format", ".gitignore", ".gitattributes"]);
}

#[test]
fn initializer_needs_a_name() {
    assert!(matches!(
        Initializer::from_args(&Args { cmake: true, ..args() }),
        Err(FdmError::MissingProjectName)
    ));
}

#[test]
fn commands_are_written_as_cmake_reads_them() {
    assert_eq!(CMakeCommand::add_subdirectory(s("pack")).to_string(), "add_subdirectory(pack)");
    assert_eq!(CMakeCommand::macro_start(s("M"), s("a b")).to_string(), "macro(M a b)");
    assert_eq!(CMakeCommand::macro_end.to_string(), "endmacro()");
    assert_eq!(
        CMakeCommand::file_glob(FileGlobMode::Glob, s("out"), FileRelativeMode::Relative, s("dir"), s("dir/*"))
            .to_string(),
        "file(GLOB out RELATIVE dir dir/*)"
    );
    assert_eq!(
        CMakeCommand::file_glob(FileGlobMode::GlobRecurse, s("out"), FileRelativeMode::Default, s("dir"), s("*"))
            .to_string(),
        "file(GLOB_RECURSE out  dir *)"
    );
    assert_eq!(CMakeCommand::set(s("x"), s("1")).to_string(), "set(x 1)");
    assert_eq!(CMakeCommand::foreach_start(s("i"), s("${list}")).to_string(), "foreach(i ${list})");
    assert_eq!(CMakeCommand::foreach_end.to_string(), "endforeach()");
    assert_eq!(CMakeCommand::if_start(s("A AND B")).to_string(), "if(A AND B)");
    assert_eq!(CMakeCommand::if_end.to_string(), "endif()");
    assert_eq!(CMakeCommand::list(ListMode::Append, s("l"), s("v")).to_string(), "list(APPEND l v)");
    assert_eq!(CMakeCommand::any(s("anything at all")).to_string(), "anything at all");
    assert_eq!(FileGlobMode::Glob.to_string(), "GLOB");
    assert_eq!(FileGlobMode::GlobRecurse.to_string(), "GLOB_RECURSE");
    assert_eq!(FileRelativeMode::Default.to_string(), "");
    assert_eq!(FileRelativeMode::Relative.to_string(), "RELATIVE");
    assert_eq!(FileRelativeMode::default(), FileRelativeMode::Default);
    assert_eq!(ListMode::Append.to_string(), "APPEND");
}

#[test]
fn a_file_holds_one_line_for_each_append_and_command() {
    let mut file = CMakeFile::new("fdm/CMakeLists.txt");
    assert_eq!(file.path, "fdm/CMakeLists.txt");
    assert_eq!(file.content, "");
    file.append("# libraries");
    file.command(CMakeCommand::add_subdirectory(s("libs")));
    file.append("");
    file.commands(vec![CMakeCommand::if_start(s("X")), CMakeCommand::if_end]);
    assert_eq!(file.content, "# libraries\nadd_subdirectory(libs)\n\nif(X)\nendif()\n");
    assert_eq!(file.path, "fdm/CMakeLists.txt");
    let read = CMakeFile::from_file("a.txt", s("set(a b)\n"));
    assert_eq!(read.path, "a.txt");
    assert_eq!(read.content, "set(a b)\n");
}

#[test]
fn the_build_files_hand_the_libraries_to_the_build() {
    assert_eq!(root_file().content, "add_subdirectory(pack)\n");
    assert_eq!(root_file().path, "fdm/CMakeLists.txt");
    assert_eq!(internal_file().content, "add_subdirectory(libs)\n");
    assert_eq!(internal_file().path, "fdm/pack/CMakeLists.txt");
    let collection = collection_file();
    assert_eq!(collection.path, "fdm/pack/libs/CMakeLists.txt");
    assert_eq!(
        collection.content,
        "macro(SUBDIRLIST result curdir)\n\
         file(GLOB children RELATIVE ${curdir} ${curdir}/*)\n\
         set(dirlist \"\")\n\
         foreach(child ${children})\n\
         if(IS_DIRECTORY ${curdir}/${child})\n\
         list(APPEND dirlist ${child})\n\
         endif()\n\
         endforeach()\n\
         set(${result} ${dirlist})\n\
         endmacro()\n\
         \n\n\
         SUBDIRLIST(SUBDIRS ${CMAKE_CURRENT_SOURCE_DIR})\n\
         foreach(subdir ${SUBDIRS})\n\
         add_subdirectory(${subdir})\n\
         endforeach()\n\
         \n\n"
    );
}

#[test]
fn the_names_of_the_project_tree_are_fixed() {
    assert_eq!(FDM_MANIFEST_FILENAME, "fdm.toml");
    assert_eq!(FDM_DIRECTORY_NAME, "fdm");
    assert_eq!(FDM_REGISTRY_NAME, "reg");
    assert_eq!(FDM_CACHE_NAME, "cache");
    assert_eq!(FDM_PACK_NAME, "pack");
    assert_eq!(FDM_LIBS_NAME, "libs");
}
