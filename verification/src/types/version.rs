//! Package versions: a triple of numbers with an optional qualifier.

use vstd::prelude::*;
use vstd::string::*;
use crate::error::FdmError;
use crate::ordered_map::Key;
use crate::text::{
    all_digits, chars_of, decimal, find_char, first_index_from, is_digit, is_number,
    is_plain_from, plain,
    lemma_decimal, lemma_first_index_is, lemma_first_index_skip,
    number_of, parse_number, push_decimal,
};

verus! {

/// A version: `major.minor.patch`, optionally followed by `-` and a
/// qualifier. Two versions are the same when all four parts are. A
/// version that is held can always be written and read back: its
/// qualifier, if it has one, is not empty and holds no `_`.
#[derive(Debug, PartialEq, Eq, PartialOrd, Ord, Hash)]
pub struct Version {
    pub(crate) major: u64,
    pub(crate) minor: u64,
    pub(crate) patch: u64,
    pub(crate) qualifier: Option<String>,
}

/// What a [`Version`] stands for.
pub struct VersionView {
    pub major: nat,
    pub minor: nat,
    pub patch: nat,
    pub qualifier: Option<Seq<char>>,
}

impl View for Version {
    type V = VersionView;

    closed spec fn view(&self) -> VersionView {
        VersionView {
            major: self.major as nat,
            minor: self.minor as nat,
            patch: self.patch as nat,
            qualifier: match self.qualifier {
                Some(q) => Some(q@),
                None => None,
            },
        }
    }
}

/// The part of `s` before the first `c`, and what follows that `c` where
/// there is one.
pub open spec fn split_first(s: Seq<char>, c: char) -> (Seq<char>, Option<Seq<char>>) {
    let i = first_index_from(s, c, 0);
    if i < s.len() {
        (s.take(i), Some(s.skip(i + 1)))
    } else {
        (s, None)
    }
}

/// The number that an optional component writes; a component left out
/// counts as zero.
pub open spec fn component(part: Option<Seq<char>>) -> Option<nat> {
    match part {
        None => Some(0),
        Some(t) => if is_number(t) {
            Some(number_of(t))
        } else {
            None
        },
    }
}

/// The version that `s` writes, if it writes one: up to three numbers
/// separated by `.`, each fitting 64 bits, then optionally `-` and a
/// qualifier that is not empty and holds no `_`.
pub open spec fn version_of(s: Seq<char>) -> Option<VersionView> {
    let (core, qualifier) = split_first(s, '-');
    let (a, rest) = split_first(core, '.');
    let (b, c) = match rest {
        Some(r) => (Some(split_first(r, '.').0), split_first(r, '.').1),
        None => (None, None),
    };
    if is_number(a) && component(b) is Some && component(c) is Some && (qualifier matches Some(q)
        ==> q.len() > 0 && plain(q)) {
        Some(
            VersionView {
                major: number_of(a),
                minor: component(b)->0,
                patch: component(c)->0,
                qualifier,
            },
        )
    } else {
        None
    }
}

/// The canonical text of a version.
pub open spec fn version_text(v: VersionView) -> Seq<char> {
    decimal(v.major) + seq!['.'] + decimal(v.minor) + seq!['.'] + decimal(v.patch) + match v.qualifier {
        Some(q) => seq!['-'] + q,
        None => Seq::empty(),
    }
}

/// Whether a version can be held: its numbers fit 64 bits and its
/// qualifier, if any, is not empty and holds no `_`.
pub open spec fn version_valid(v: VersionView) -> bool {
    &&& v.major <= u64::MAX
    &&& v.minor <= u64::MAX
    &&& v.patch <= u64::MAX
    &&& v.qualifier matches Some(q) ==> q.len() > 0 && plain(q)
}

impl Version {
    /// Whether the version can be written and read back.
    pub open spec fn valid(&self) -> bool {
        version_valid(self@)
    }

    /// Every version that is held can be written and read back.
    #[verifier::type_invariant]
    closed spec fn held(&self) -> bool {
        version_valid(self@)
    }
}

/// A written number holds neither `.` nor `-`.
proof fn lemma_digits_hold_no_mark(s: Seq<char>)
    requires
        all_digits(s),
    ensures
        forall|i: int| 0 <= i < s.len() ==> s[i] != '.' && s[i] != '-',
{
    assert forall|i: int| 0 <= i < s.len() implies s[i] != '.' && s[i] != '-' by {
        assert(is_digit(s[i]));
    }
}

/// The canonical text of a version that can be held reads as that version.
pub proof fn lemma_text_reads_back(v: VersionView)
    requires
        version_valid(v),
    ensures
        version_of(version_text(v)) == Some(v),
{
    let a = decimal(v.major);
    let b = decimal(v.minor);
    let c = decimal(v.patch);
    lemma_decimal(v.major);
    lemma_decimal(v.minor);
    lemma_decimal(v.patch);
    lemma_digits_hold_no_mark(a);
    lemma_digits_hold_no_mark(b);
    lemma_digits_hold_no_mark(c);
    let core = a + seq!['.'] + b + seq!['.'] + c;
    let t = version_text(v);
    let n = core.len() as int;
    assert forall|j: int| 0 <= j < n implies core[j] != '-' by {
        if j < a.len() {
            assert(core[j] == a[j]);
        } else if j == a.len() {
        } else if j < a.len() + 1 + b.len() {
            assert(core[j] == b[j - a.len() - 1]);
        } else if j == a.len() + 1 + b.len() {
        } else {
            assert(core[j] == c[j - a.len() - b.len() - 2]);
        }
    }
    match v.qualifier {
        Some(q) => {
            assert(t =~= core + (seq!['-'] + q));
            assert forall|j: int| 0 <= j < n implies t[j] != '-' by {
                assert(t[j] == core[j]);
            }
            assert(t[n] == '-');
            lemma_first_index_is(t, '-', 0, n);
            assert(t.take(n) =~= core);
            assert(t.skip(n + 1) =~= q);
        },
        None => {
            assert(t =~= core);
            lemma_first_index_is(t, '-', 0, n);
        },
    }
    assert(split_first(t, '-') == (core, v.qualifier));
    // The first component ends at the first dot of the core.
    let la = a.len() as int;
    assert forall|j: int| 0 <= j < la implies core[j] != '.' by {
        assert(core[j] == a[j]);
    }
    assert(core[la] == '.');
    lemma_first_index_is(core, '.', 0, la);
    assert(core.take(la) =~= a);
    let rest = b + seq!['.'] + c;
    assert(core.skip(la + 1) =~= rest);
    assert(split_first(core, '.') == (a, Some(rest)));
    // The second ends at the first dot of what is left.
    let lb = b.len() as int;
    assert forall|j: int| 0 <= j < lb implies rest[j] != '.' by {
        assert(rest[j] == b[j]);
    }
    assert(rest[lb] == '.');
    lemma_first_index_is(rest, '.', 0, lb);
    assert(rest.take(lb) =~= b);
    assert(rest.skip(lb + 1) =~= c);
    assert(split_first(rest, '.') == (b, Some(c)));
}

/// Reading a version, writing it and reading what was written gives the
/// version that was read first.
pub proof fn lemma_read_write_read(s: Seq<char>)
    requires
        version_of(s) is Some,
    ensures
        version_of(version_text(version_of(s)->0)) == version_of(s),
{
    lemma_text_reads_back(version_of(s)->0);
}

impl Clone for Version {
    fn clone(&self) -> (r: Self)
        ensures
            r == *self,
    {
        proof {
            use_type_invariant(self);
        }
        Version {
            major: self.major,
            minor: self.minor,
            patch: self.patch,
            qualifier: match &self.qualifier {
                Some(q) => Some(q.clone()),
                None => None,
            },
        }
    }
}

impl Default for Version {
    fn default() -> (r: Self)
        ensures
            r@ == (VersionView { major: 0, minor: 0, patch: 0, qualifier: None }),
    {
        Version { major: 0, minor: 0, patch: 0, qualifier: None }
    }
}

impl Version {
    /// The version `major.minor.patch` without a qualifier.
    pub fn new(major: u64, minor: u64, patch: u64) -> (r: Version)
        ensures
            r@ == (VersionView {
                major: major as nat,
                minor: minor as nat,
                patch: patch as nat,
                qualifier: None,
            }),
            r.valid(),
    {
        Version { major, minor, patch, qualifier: None }
    }

    /// Reads a version from its text. Text that writes no version is
    /// refused as an invalid identifier.
    pub fn parse(text: &str) -> (r: Result<Version, FdmError>)
        ensures
            match r {
                Ok(v) => version_of(text@) == Some(v@) && v.valid(),
                Err(e) => version_of(text@) is None && e is InvalidIdentifier,
            },
    {
        let chars = chars_of(text);
        let n = chars.len();
        let ghost s = text@;
        let dash = find_char(&chars, '-', 0, n);
        let ghost core = split_first(s, '-').0;
        proof {
            assert(chars@.take(n as int) =~= s);
            assert(core =~= s.take(dash as int));
            assert(chars@.take(dash as int) =~= core);
        }
        if dash < n && (dash + 1 == n || !is_plain_from(&chars, dash + 1)) {
            proof {
                assert(split_first(s, '-').1 == Some(s.skip(dash + 1)));
            }
            return Err(FdmError::InvalidIdentifier);
        }
        let dot1 = find_char(&chars, '.', 0, dash);
        let ghost a = split_first(core, '.').0;
        proof {
            assert(a =~= chars@.subrange(0, dot1 as int));
        }
        let major = match parse_number(&chars, 0, dot1) {
            Some(m) => m,
            None => {
                return Err(FdmError::InvalidIdentifier);
            },
        };
        let mut minor: u64 = 0;
        let mut patch: u64 = 0;
        if dot1 < dash {
            let ghost rest = core.skip(dot1 + 1);
            let dot2 = find_char(&chars, '.', dot1 + 1, dash);
            proof {
                lemma_first_index_skip(core, '.', dot1 + 1, 0);
                assert(split_first(core, '.').1 == Some(rest));
                assert(first_index_from(rest, '.', 0) == dot2 - dot1 - 1);
                if dot2 < dash {
                    assert(rest.take(dot2 - dot1 - 1) =~= chars@.subrange(dot1 + 1, dot2 as int));
                    assert(rest.skip(dot2 - dot1) =~= chars@.subrange(dot2 + 1, dash as int));
                } else {
                    assert(rest =~= chars@.subrange(dot1 + 1, dot2 as int));
                }
            }
            minor = match parse_number(&chars, dot1 + 1, dot2) {
                Some(m) => m,
                None => {
                    return Err(FdmError::InvalidIdentifier);
                },
            };
            if dot2 < dash {
                patch = match parse_number(&chars, dot2 + 1, dash) {
                    Some(m) => m,
                    None => {
                        return Err(FdmError::InvalidIdentifier);
                    },
                };
            }
        }
        let qualifier = if dash < n {
            let q = text.substring_char(dash + 1, n).to_owned();
            proof {
                assert(q@ =~= s.skip(dash + 1));
            }
            Some(q)
        } else {
            None
        };
        Ok(Version { major, minor, patch, qualifier })
    }

    /// Reads a version from its text, as [`Version::parse`] does.
    pub fn try_from(text: &str) -> (r: Result<Version, FdmError>)
        ensures
            match r {
                Ok(v) => version_of(text@) == Some(v@) && v.valid(),
                Err(e) => version_of(text@) is None && e is InvalidIdentifier,
            },
    {
        Version::parse(text)
    }

    /// The canonical text of the version, which reads back as the
    /// version.
    pub fn to_string(&self) -> (r: String)
        ensures
            r@ == version_text(self@),
            self.valid(),
            version_of(r@) == Some(self@),
    {
        let mut out = String::new();
        proof {
            use_type_invariant(self);
            lemma_text_reads_back(self@);
            reveal_strlit(".");
            reveal_strlit("-");
        }
        push_decimal(&mut out, self.major);
        out.append(".");
        push_decimal(&mut out, self.minor);
        out.append(".");
        push_decimal(&mut out, self.patch);
        match &self.qualifier {
            Some(q) => {
                out.append("-");
                out.append(q.as_str());
            },
            None => {},
        }
        proof {
            assert("."@ =~= seq!['.']);
            assert("-"@ =~= seq!['-']);
            assert(out@ =~= version_text(self@));
        }
        out
    }

    /// The first of the three numbers.
    pub fn major(&self) -> (r: u64)
        ensures
            r == self@.major,
    {
        self.major
    }

    /// The second of the three numbers.
    pub fn minor(&self) -> (r: u64)
        ensures
            r == self@.minor,
    {
        self.minor
    }

    /// The third of the three numbers.
    pub fn patch(&self) -> (r: u64)
        ensures
            r == self@.patch,
    {
        self.patch
    }

    /// The qualifier, where the version has one.
    pub fn qualifier(&self) -> (r: Option<&String>)
        ensures
            match r {
                Some(q) => self@.qualifier == Some(q@),
                None => self@.qualifier is None,
            },
    {
        match &self.qualifier {
            Some(q) => Some(q),
            None => None,
        }
    }

    /// Whether two versions are the same in all four parts.
    pub fn same(&self, other: &Version) -> (r: bool)
        ensures
            r == (self@ == other@),
    {
        if self.major != other.major || self.minor != other.minor || self.patch != other.patch {
            return false;
        }
        match (&self.qualifier, &other.qualifier) {
            (Some(p), Some(q)) => *p == *q,
            (None, None) => true,
            _ => false,
        }
    }
}

impl Key for Version {
    fn same_key(&self, other: &Self) -> (r: bool) {
        self.same(other)
    }
}

} // verus!
