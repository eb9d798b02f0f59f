//! The platforms that a distribution can be built for.

use vstd::prelude::*;
use vstd::string::*;
use crate::ordered_map::Key;
use crate::text::str_eq;

verus! {

/// An operating system together with a pointer width. `Any` marks what
/// does not depend on the platform; `Unknown` is every platform that the
/// library has no name for.
#[derive(Debug, Clone, Copy, PartialEq, Eq, PartialOrd, Ord, Hash, Structural)]
pub enum PlatformArch {
    WindowsX32,
    WindowsX64,
    LinuxX32,
    LinuxX64,
    Android,
    Any,
    Unknown,
}

impl View for PlatformArch {
    type V = PlatformArch;

    open spec fn view(&self) -> PlatformArch {
        *self
    }
}

/// The platform that a tag names; a tag that names none is `Unknown`.
pub open spec fn platform_of(s: Seq<char>) -> PlatformArch {
    if s == "windows-x32"@ {
        PlatformArch::WindowsX32
    } else if s == "windows-x64"@ {
        PlatformArch::WindowsX64
    } else if s == "linux-x32"@ {
        PlatformArch::LinuxX32
    } else if s == "linux-x64"@ {
        PlatformArch::LinuxX64
    } else if s == "android"@ {
        PlatformArch::Android
    } else if s == "any"@ {
        PlatformArch::Any
    } else {
        PlatformArch::Unknown
    }
}

/// The canonical tag of a platform.
pub open spec fn platform_text(p: PlatformArch) -> Seq<char> {
    match p {
        PlatformArch::WindowsX32 => "windows-x32"@,
        PlatformArch::WindowsX64 => "windows-x64"@,
        PlatformArch::LinuxX32 => "linux-x32"@,
        PlatformArch::LinuxX64 => "linux-x64"@,
        PlatformArch::Android => "android"@,
        PlatformArch::Any => "any"@,
        PlatformArch::Unknown => "unknown"@,
    }
}

/// The operating systems that the host can report, as far as the library
/// tells them apart.
#[derive(Debug, Clone, Copy, PartialEq, Eq, Structural)]
pub enum HostOs {
    Windows,
    Linux,
    Android,
    Other,
}

/// The pointer widths that the host can report.
#[derive(Debug, Clone, Copy, PartialEq, Eq, Structural)]
pub enum HostWidth {
    Bits32,
    Bits64,
    Unreported,
}

/// The platform of a host with the given system and pointer width.
pub open spec fn platform_of_host(os: HostOs, width: HostWidth) -> PlatformArch {
    match (os, width) {
        (HostOs::Windows, HostWidth::Bits64) => PlatformArch::WindowsX64,
        (HostOs::Windows, HostWidth::Bits32) => PlatformArch::WindowsX32,
        (HostOs::Linux, HostWidth::Bits64) => PlatformArch::LinuxX64,
        (HostOs::Linux, HostWidth::Bits32) => PlatformArch::LinuxX32,
        (HostOs::Android, HostWidth::Bits64) => PlatformArch::Android,
        (HostOs::Android, HostWidth::Bits32) => PlatformArch::Android,
        _ => PlatformArch::Unknown,
    }
}

/// Writing a platform's tag and reading it gives the platform back.
pub proof fn lemma_platform_text_reads_back(p: PlatformArch)
    ensures
        platform_of(platform_text(p)) == p,
{
    reveal_strlit("windows-x32");
    reveal_strlit("windows-x64");
    reveal_strlit("linux-x32");
    reveal_strlit("linux-x64");
    reveal_strlit("android");
    reveal_strlit("any");
    reveal_strlit("unknown");
    assert("windows-x32"@.len() == 11 && "windows-x64"@.len() == 11);
    assert("linux-x32"@.len() == 9 && "linux-x64"@.len() == 9);
    assert("android"@.len() == 7 && "unknown"@.len() == 7 && "any"@.len() == 3);
    assert("windows-x32"@[9] != "windows-x64"@[9]);
    assert("linux-x32"@[7] != "linux-x64"@[7]);
    assert("android"@[0] != "unknown"@[0]);
}

impl From<&str> for PlatformArch {
    fn from(s: &str) -> (r: Self) {
        PlatformArch::parse(s)
    }
}

impl vstd::std_specs::convert::FromSpecImpl<&str> for PlatformArch {
    open spec fn obeys_from_spec() -> bool {
        true
    }

    open spec fn from_spec(s: &str) -> Self {
        platform_of(s@)
    }
}

impl From<String> for PlatformArch {
    fn from(s: String) -> (r: Self) {
        PlatformArch::from(s.as_str())
    }
}

impl vstd::std_specs::convert::FromSpecImpl<String> for PlatformArch {
    open spec fn obeys_from_spec() -> bool {
        true
    }

    open spec fn from_spec(s: String) -> Self {
        platform_of(s@)
    }
}

impl Default for PlatformArch {
    fn default() -> (r: Self)
        ensures
            r == PlatformArch::Unknown,
    {
        PlatformArch::Unknown
    }
}

impl PlatformArch {
    /// The canonical tag of the platform.
    pub fn to_string(&self) -> (r: String)
        ensures
            r@ == platform_text(*self),
    {
        let tag = match self {
            PlatformArch::WindowsX32 => "windows-x32",
            PlatformArch::WindowsX64 => "windows-x64",
            PlatformArch::LinuxX32 => "linux-x32",
            PlatformArch::LinuxX64 => "linux-x64",
            PlatformArch::Android => "android",
            PlatformArch::Any => "any",
            PlatformArch::Unknown => "unknown",
        };
        String::from_str(tag)
    }

    /// The platform of a host, from the system and pointer width that it
    /// reports. A host that the library has no name for is `Unknown`.
    pub fn from_host(os: HostOs, width: HostWidth) -> (r: PlatformArch)
        ensures
            r == platform_of_host(os, width),
    {
        match (os, width) {
            (HostOs::Windows, HostWidth::Bits64) => PlatformArch::WindowsX64,
            (HostOs::Windows, HostWidth::Bits32) => PlatformArch::WindowsX32,
            (HostOs::Linux, HostWidth::Bits64) => PlatformArch::LinuxX64,
            (HostOs::Linux, HostWidth::Bits32) => PlatformArch::LinuxX32,
            (HostOs::Android, _) => match width {
                HostWidth::Unreported => PlatformArch::Unknown,
                _ => PlatformArch::Android,
            },
            _ => PlatformArch::Unknown,
        }
    }
}

/// Asks `whoami::platform` which system the process runs on and keeps the
/// three systems that the library has builds for; every other answer is
/// `Other`. Nothing is claimed of the answer: it depends on the host.
#[verifier::external_body]
fn host_os() -> HostOs {
    match whoami::platform() {
        whoami::Platform::Windows => HostOs::Windows,
        whoami::Platform::Linux => HostOs::Linux,
        whoami::Platform::Android => HostOs::Android,
        _ => HostOs::Other,
    }
}

impl PlatformArch {
    /// The platform of the host that the process runs on, given the
    /// pointer width that was found for it. The system is asked for here;
    /// a host that cannot be told is `Unknown`, never an error, and never
    /// `Any`.
    pub fn from_env(width: HostWidth) -> (r: PlatformArch)
        ensures
            exists|os: HostOs| r == platform_of_host(os, width),
            r != PlatformArch::Any,
            width == HostWidth::Unreported ==> r == PlatformArch::Unknown,
    {
        let os = host_os();
        PlatformArch::from_host(os, width)
    }
}

impl Key for PlatformArch {
    fn same_key(&self, other: &Self) -> (r: bool) {
        *self == *other
    }
}

impl PlatformArch {
    /// The value that a tag names. No tag is refused: one that the library
    /// has no name for is `Unknown`.
    pub fn parse(s: &str) -> (r: Self)
        ensures
            r == platform_of(s@),
    {
        if str_eq(s, "windows-x32") {
            PlatformArch::WindowsX32
        } else if str_eq(s, "windows-x64") {
            PlatformArch::WindowsX64
        } else if str_eq(s, "linux-x32") {
            PlatformArch::LinuxX32
        } else if str_eq(s, "linux-x64") {
            PlatformArch::LinuxX64
        } else if str_eq(s, "android") {
            PlatformArch::Android
        } else if str_eq(s, "any") {
            PlatformArch::Any
        } else {
            PlatformArch::Unknown
        }
    }
}

} // verus!
