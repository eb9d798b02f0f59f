use fdm::error::FdmError;
use fdm::types::build_system::BuildSystem;
use fdm::types::distribution::Distribution;
use fdm::types::language::Language;
use fdm::types::platform::{HostOs, HostWidth, PlatformArch};

#[test]
fn platform_parse_reads_every_tag() {
    assert_eq!(PlatformArch::parse("windows-x32"), PlatformArch::WindowsX32);
    assert_eq!(PlatformArch::parse("windows-x64"), PlatformArch::WindowsX64);
    assert_eq!(PlatformArch::parse("linux-x32"), PlatformArch::LinuxX32);
    assert_eq!(PlatformArch::parse("linux-x64"), PlatformArch::LinuxX64);
    assert_eq!(PlatformArch::parse("android"), PlatformArch::Android);
    assert_eq!(PlatformArch::parse("any"), PlatformArch::Any);
    assert_eq!(PlatformArch::parse("unknown"), PlatformArch::Unknown);
}

#[test]
fn platform_parse_fails_closed_to_unknown() {
    assert_eq!(PlatformArch::parse(""), PlatformArch::Unknown);
    assert_eq!(PlatformArch::parse("Linux-x64"), PlatformArch::Unknown);
    assert_eq!(PlatformArch::parse("linux-x64 "), PlatformArch::Unknown);
    assert_eq!(PlatformArch::parse("macos-arm64"), PlatformArch::Unknown);
}

#[test]
fn platform_from_agrees_with_parse() {
    assert_eq!(PlatformArch::from("linux-x64"), PlatformArch::LinuxX64);
    assert_eq!(PlatformArch::from(String::from("windows-x32")), PlatformArch::WindowsX32);
    assert_eq!(PlatformArch::from("nothing"), PlatformArch::Unknown);
}

#[test]
fn platform_to_string_round_trips() {
    for p in [
        PlatformArch::WindowsX32,
        PlatformArch::WindowsX64,
        PlatformArch::LinuxX32,
        PlatformArch::LinuxX64,
        PlatformArch::Android,
        PlatformArch::Any,
        PlatformArch::Unknown,
    ] {
        assert_eq!(PlatformArch::parse(p.to_string().as_str()), p);
    }
    assert_eq!(PlatformArch::LinuxX64.to_string(), "linux-x64");
    assert_eq!(PlatformArch::Any.to_string(), "any");
}

#[test]
fn platform_default_is_unknown() {
    assert_eq!(PlatformArch::default(), PlatformArch::Unknown);
}

#[test]
fn platform_from_host_pairs_system_and_width() {
    assert_eq!(PlatformArch::from_host(HostOs::Windows, HostWidth::Bits64), PlatformArch::WindowsX64);
    assert_eq!(PlatformArch::from_host(HostOs::Windows, HostWidth::Bits32), PlatformArch::WindowsX32);
    assert_eq!(PlatformArch::from_host(HostOs::Linux, HostWidth::Bits64), PlatformArch::LinuxX64);
    assert_eq!(PlatformArch::from_host(HostOs::Linux, HostWidth::Bits32), PlatformArch::LinuxX32);
    assert_eq!(PlatformArch::from_host(HostOs::Android, HostWidth::Bits64), PlatformArch::Android);
    assert_eq!(PlatformArch::from_host(HostOs::Android, HostWidth::Bits32), PlatformArch::Android);
    assert_eq!(PlatformArch::from_host(HostOs::Other, HostWidth::Bits64), PlatformArch::Unknown);
    assert_eq!(PlatformArch::from_host(HostOs::Linux, HostWidth::Unreported), PlatformArch::Unknown);
    assert_eq!(PlatformArch::from_host(HostOs::Android, HostWidth::Unreported), PlatformArch::Unknown);
}

#[test]
fn platform_from_env_names_the_host() {
    let host = PlatformArch::from_env(HostWidth::Bits64);
    assert!(
        [
            PlatformArch::LinuxX64,
            PlatformArch::WindowsX64,
            PlatformArch::Android,
            PlatformArch::Unknown
        ]
        .contains(&host)
    );
    assert_eq!(PlatformArch::from_env(HostWidth::Bits64), host);
    let narrow = PlatformArch::from_env(HostWidth::Bits32);
    assert!(
        [
            PlatformArch::LinuxX32,
            PlatformArch::WindowsX32,
            PlatformArch::Android,
            PlatformArch::Unknown
        ]
        .contains(&narrow)
    );
    assert_eq!(host == PlatformArch::Unknown, narrow == PlatformArch::Unknown);
    assert_eq!(PlatformArch::from_env(HostWidth::Unreported), PlatformArch::Unknown);
}

#[test]
fn distribution_parse_normalises_aliases() {
    assert_eq!(Distribution::parse("static"), Distribution::Static);
    assert_eq!(Distribution::parse("shared"), Distribution::Shared);
    assert_eq!(Distribution::parse("sources"), Distribution::Sources);
    assert_eq!(Distribution::parse("source"), Distribution::Sources);
    assert_eq!(Distribution::parse("src"), Distribution::Sources);
}

#[test]
fn distribution_parse_treats_unrecognised_as_unknown() {
    assert_eq!(Distribution::parse(""), Distribution::Unknown);
    assert_eq!(Distribution::parse("Static"), Distribution::Unknown);
    assert_eq!(Distribution::parse("header-only"), Distribution::Unknown);
    assert_eq!(Distribution::from("dynamic"), Distribution::Unknown);
    assert_eq!(Distribution::from(String::from("src")), Distribution::Sources);
}

#[test]
fn distribution_to_string_round_trips() {
    for d in [Distribution::Static, Distribution::Shared, Distribution::Sources, Distribution::Unknown] {
        assert_eq!(Distribution::parse(d.to_string().as_str()), d);
    }
    assert_eq!(Distribution::Sources.to_string(), "sources");
    assert_eq!(Distribution::default(), Distribution::Unknown);
}

#[test]
fn build_system_parse_and_to_string() {
    assert_eq!(BuildSystem::parse("cmake"), BuildSystem::CMake);
    assert_eq!(BuildSystem::from("cargo"), BuildSystem::Cargo);
    assert_eq!(BuildSystem::from(String::from("make")), BuildSystem::Unknown);
    assert_eq!(BuildSystem::CMake.to_string(), "cmake");
    assert_eq!(BuildSystem::Cargo.to_string(), "cargo");
    assert_eq!(BuildSystem::Unknown.to_string(), "unknown");
    assert_eq!(BuildSystem::default(), BuildSystem::Unknown);
}

#[test]
fn language_try_from_ignores_case() {
    assert_eq!(Language::try_from("c").unwrap(), Language::C);
    assert_eq!(Language::try_from("CPP").unwrap(), Language::CPP);
    assert_eq!(Language::try_from("C++").unwrap(), Language::CPP);
    assert_eq!(Language::try_from("Cxx").unwrap(), Language::CPP);
    assert_eq!(Language::try_from("C#").unwrap(), Language::CSharp);
    assert_eq!(Language::try_from("CSharp").unwrap(), Language::CSharp);
    assert_eq!(Language::try_from("QML").unwrap(), Language::QML);
    assert_eq!(Language::try_from("JS").unwrap(), Language::JavaScript);
    assert_eq!(Language::try_from("JavaScript").unwrap(), Language::JavaScript);
    assert_eq!(Language::try_from("Py").unwrap(), Language::Python);
    assert_eq!(Language::try_from("PYTHON").unwrap(), Language::Python);
    assert_eq!(Language::try_from("Rust").unwrap(), Language::Rust);
    assert_eq!(Language::try_from("RS").unwrap(), Language::Rust);
    assert_eq!(Language::try_from("GoLang").unwrap(), Language::Go);
    assert_eq!(Language::try_from("go").unwrap(), Language::Go);
}

#[test]
fn language_from_lowercase_is_exact() {
    assert_eq!(Language::from_lowercase("cpp").unwrap(), Language::CPP);
    assert!(matches!(Language::from_lowercase("CPP"), Err(FdmError::UnknownLanguage)));
}

#[test]
fn language_try_from_refuses_unknown_names() {
    assert!(matches!(Language::try_from("cobol"), Err(FdmError::UnknownLanguage)));
    assert!(matches!(Language::try_from(""), Err(FdmError::UnknownLanguage)));
    assert!(matches!(Language::try_from("undefined"), Err(FdmError::UnknownLanguage)));
}

#[test]
fn language_to_string_shows_names() {
    assert_eq!(Language::C.to_string(), "C");
    assert_eq!(Language::CPP.to_string(), "C++");
    assert_eq!(Language::CSharp.to_string(), "C#");
    assert_eq!(Language::QML.to_string(), "QML");
    assert_eq!(Language::JavaScript.to_string(), "JavaScript");
    assert_eq!(Language::Python.to_string(), "Python");
    assert_eq!(Language::Rust.to_string(), "Rust");
    assert_eq!(Language::Go.to_string(), "Go");
    assert_eq!(Language::Undefined.to_string(), "Undefined");
    assert_eq!(Language::default(), Language::Undefined);
}
