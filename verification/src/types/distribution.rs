//! The packaging forms of an artifact.

use vstd::prelude::*;
use vstd::string::*;
use crate::ordered_map::Key;
use crate::text::str_eq;

verus! {

/// How an artifact is packaged: a static library, a shared library or
/// raw sources. `Unknown` is every form that the library has no name for.
#[derive(Debug, Clone, Copy, PartialEq, Eq, PartialOrd, Ord, Hash, Structural)]
pub enum Distribution {
    Static,
    Shared,
    Sources,
    Unknown,
}

impl View for Distribution {
    type V = Distribution;

    open spec fn view(&self) -> Distribution {
        *self
    }
}

/// The distribution that a tag names; `src`, `source` and `sources` all
/// name the sources, and a tag that names none is `Unknown`.
pub open spec fn distribution_of(s: Seq<char>) -> Distribution {
    if s == "static"@ {
        Distribution::Static
    } else if s == "shared"@ {
        Distribution::Shared
    } else if s == "sources"@ || s == "src"@ || s == "source"@ {
        Distribution::Sources
    } else {
        Distribution::Unknown
    }
}

/// The canonical tag of a distribution.
pub open spec fn distribution_text(d: Distribution) -> Seq<char> {
    match d {
        Distribution::Static => "static"@,
        Distribution::Shared => "shared"@,
        Distribution::Sources => "sources"@,
        Distribution::Unknown => "unknown"@,
    }
}

/// Writing a distribution's tag and reading it gives the distribution back.
pub proof fn lemma_distribution_text_reads_back(d: Distribution)
    ensures
        distribution_of(distribution_text(d)) == d,
{
    reveal_strlit("static");
    reveal_strlit("shared");
    reveal_strlit("sources");
    reveal_strlit("src");
    reveal_strlit("source");
    reveal_strlit("unknown");
    assert("static"@.len() == 6 && "shared"@.len() == 6 && "source"@.len() == 6);
    assert("sources"@.len() == 7 && "unknown"@.len() == 7 && "src"@.len() == 3);
    assert("static"@[1] != "shared"@[1]);
    assert("sources"@[0] != "unknown"@[0]);
}

impl Default for Distribution {
    fn default() -> (r: Self)
        ensures
            r == Distribution::Unknown,
    {
        Distribution::Unknown
    }
}

impl From<&str> for Distribution {
    fn from(value: &str) -> (r: Self) {
        Distribution::parse(value)
    }
}

impl vstd::std_specs::convert::FromSpecImpl<&str> for Distribution {
    open spec fn obeys_from_spec() -> bool {
        true
    }

    open spec fn from_spec(value: &str) -> Self {
        distribution_of(value@)
    }
}

impl From<String> for Distribution {
    fn from(value: String) -> (r: Self) {
        Distribution::from(value.as_str())
    }
}

impl vstd::std_specs::convert::FromSpecImpl<String> for Distribution {
    open spec fn obeys_from_spec() -> bool {
        true
    }

    open spec fn from_spec(value: String) -> Self {
        distribution_of(value@)
    }
}

impl Distribution {
    /// The canonical tag of the distribution.
    pub fn to_string(&self) -> (r: String)
        ensures
            r@ == distribution_text(*self),
    {
        let tag = match self {
            Distribution::Static => "static",
            Distribution::Shared => "shared",
            Distribution::Sources => "sources",
            Distribution::Unknown => "unknown",
        };
        String::from_str(tag)
    }
}

impl Key for Distribution {
    fn same_key(&self, other: &Self) -> (r: bool) {
        *self == *other
    }
}

impl Distribution {
    /// The value that a tag names. No tag is refused: one that the library
    /// has no name for is `Unknown`.
    pub fn parse(value: &str) -> (r: Self)
        ensures
            r == distribution_of(value@),
    {
        if str_eq(value, "static") {
            Distribution::Static
        } else if str_eq(value, "shared") {
            Distribution::Shared
        } else if str_eq(value, "sources") || str_eq(value, "src") || str_eq(value, "source") {
            Distribution::Sources
        } else {
            Distribution::Unknown
        }
    }
}

} // verus!
