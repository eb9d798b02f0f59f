//! The languages that a project can be written in.

use vstd::prelude::*;
use vstd::string::*;
use crate::error::FdmError;
use crate::text::str_eq;

verus! {

/// A programming language.
#[derive(Debug, Clone, Copy, PartialEq, Eq, Structural)]
pub enum Language {
    C,
    CPP,
    CSharp,
    QML,
    JavaScript,
    Python,
    Rust,
    Go,
    Undefined,
}

/// The language that a name in lower case names, if it names one.
pub open spec fn language_of(s: Seq<char>) -> Option<Language> {
    if s == "c"@ {
        Some(Language::C)
    } else if s == "cpp"@ || s == "c++"@ || s == "cxx"@ {
        Some(Language::CPP)
    } else if s == "c#"@ || s == "csharp"@ {
        Some(Language::CSharp)
    } else if s == "qml"@ {
        Some(Language::QML)
    } else if s == "js"@ || s == "javascript"@ {
        Some(Language::JavaScript)
    } else if s == "py"@ || s == "python"@ {
        Some(Language::Python)
    } else if s == "rs"@ || s == "rust"@ {
        Some(Language::Rust)
    } else if s == "go"@ || s == "golang"@ {
        Some(Language::Go)
    } else {
        None
    }
}

/// The name of a language as it is shown.
pub open spec fn language_text(l: Language) -> Seq<char> {
    match l {
        Language::C => "C"@,
        Language::CPP => "C++"@,
        Language::CSharp => "C#"@,
        Language::QML => "QML"@,
        Language::JavaScript => "JavaScript"@,
        Language::Python => "Python"@,
        Language::Rust => "Rust"@,
        Language::Go => "Go"@,
        Language::Undefined => "Undefined"@,
    }
}

/// What `str::to_lowercase` makes of a text.
pub uninterp spec fn lowercase_of(s: Seq<char>) -> Seq<char>;

/// Calls `str::to_lowercase`, which maps every character to its lower
/// case as Unicode defines it. The contract names the result: the same
/// text always gives the same one.
#[verifier::external_body]
fn to_lowercase(s: &str) -> (r: String)
    ensures
        r@ == lowercase_of(s@),
{
    s.to_lowercase()
}

impl Default for Language {
    fn default() -> (r: Self)
        ensures
            r == Language::Undefined,
    {
        Language::Undefined
    }
}

impl Language {
    /// The language that a name in lower case names. A name of no
    /// language is refused.
    pub fn from_lowercase(s: &str) -> (r: Result<Language, FdmError>)
        ensures
            match r {
                Ok(l) => language_of(s@) == Some(l),
                Err(e) => language_of(s@) is None && e is UnknownLanguage,
            },
    {
        if str_eq(s, "c") {
            Ok(Language::C)
        } else if str_eq(s, "cpp") || str_eq(s, "c++") || str_eq(s, "cxx") {
            Ok(Language::CPP)
        } else if str_eq(s, "c#") || str_eq(s, "csharp") {
            Ok(Language::CSharp)
        } else if str_eq(s, "qml") {
            Ok(Language::QML)
        } else if str_eq(s, "js") || str_eq(s, "javascript") {
            Ok(Language::JavaScript)
        } else if str_eq(s, "py") || str_eq(s, "python") {
            Ok(Language::Python)
        } else if str_eq(s, "rs") || str_eq(s, "rust") {
            Ok(Language::Rust)
        } else if str_eq(s, "go") || str_eq(s, "golang") {
            Ok(Language::Go)
        } else {
            Err(FdmError::UnknownLanguage)
        }
    }

    /// The language that a name names, whatever the case of its letters.
    /// A name of no language is refused.
    pub fn try_from(s: &str) -> (r: Result<Language, FdmError>)
        ensures
            match r {
                Ok(l) => language_of(lowercase_of(s@)) == Some(l),
                Err(e) => language_of(lowercase_of(s@)) is None && e is UnknownLanguage,
            },
    {
        let lower = to_lowercase(s);
        Language::from_lowercase(lower.as_str())
    }

    /// The name of the language as it is shown.
    pub fn to_string(&self) -> (r: String)
        ensures
            r@ == language_text(*self),
    {
        let name = match self {
            Language::C => "C",
            Language::CPP => "C++",
            Language::CSharp => "C#",
            Language::QML => "QML",
            Language::JavaScript => "JavaScript",
            Language::Python => "Python",
            Language::Rust => "Rust",
            Language::Go => "Go",
            Language::Undefined => "Undefined",
        };
        String::from_str(name)
    }
}

} // verus!
