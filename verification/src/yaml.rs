//! Index documents as trees of text, lists and tables.

use vstd::prelude::*;
use crate::error::FdmError;
use crate::text::chars_of;

verus! {

/// A node of a document, as far as the index reads it: a text scalar, a
/// list, a table of key and value pairs in the order of the document, or
/// anything else (a number, a boolean, a null, an alias).
#[derive(Debug, PartialEq, Eq)]
pub enum YamlNode {
    Text(String),
    List(Vec<YamlNode>),
    Table(Vec<(YamlNode, YamlNode)>),
    Other,
}

/// What a [`YamlNode`] stands for.
pub enum YamlValue {
    Text(Seq<char>),
    List(Seq<YamlValue>),
    Table(Seq<(YamlValue, YamlValue)>),
    Other,
}

/// What a node stands for: its own kind, with the views of what it holds.
pub open spec fn node_value(n: YamlNode) -> YamlValue
    decreases n,
{
    match n {
        YamlNode::Text(s) => YamlValue::Text(s@),
        YamlNode::List(items) => YamlValue::List(
            Seq::new(
                items@.len(),
                |i: int|
                    if 0 <= i < items@.len() {
                        node_value(items@[i])
                    } else {
                        YamlValue::Other
                    },
            ),
        ),
        YamlNode::Table(entries) => YamlValue::Table(
            Seq::new(
                entries@.len(),
                |i: int|
                    if 0 <= i < entries@.len() {
                        (node_value(entries@[i].0), node_value(entries@[i].1))
                    } else {
                        (YamlValue::Other, YamlValue::Other)
                    },
            ),
        ),
        YamlNode::Other => YamlValue::Other,
    }
}

impl View for YamlNode {
    type V = YamlValue;

    open spec fn view(&self) -> YamlValue {
        node_value(*self)
    }
}

/// The views of a list of nodes, one for one.
pub open spec fn nodes_view(nodes: Seq<YamlNode>) -> Seq<YamlValue> {
    Seq::new(nodes.len(), |i: int| nodes[i]@)
}

/// The views of the entries of a table, one for one.
pub open spec fn pairs_view(entries: Seq<(YamlNode, YamlNode)>) -> Seq<(YamlValue, YamlValue)> {
    Seq::new(entries.len(), |i: int| (entries[i].0@, entries[i].1@))
}

impl YamlNode {
    /// The text of a text scalar.
    pub fn as_text(&self) -> (r: Option<&String>)
        ensures
            match r {
                Some(s) => self@ == YamlValue::Text(s@),
                None => !(self@ is Text),
            },
    {
        match self {
            YamlNode::Text(s) => Some(s),
            _ => None,
        }
    }

    /// The items of a list.
    pub fn as_list(&self) -> (r: Option<&Vec<YamlNode>>)
        ensures
            match r {
                Some(items) => self@ == YamlValue::List(nodes_view(items@)),
                None => !(self@ is List),
            },
    {
        match self {
            YamlNode::List(items) => {
                assert(self@->List_0 =~= nodes_view(items@));
                Some(items)
            },
            _ => None,
        }
    }

    /// The entries of a table, in the order of the document.
    pub fn as_table(&self) -> (r: Option<&Vec<(YamlNode, YamlNode)>>)
        ensures
            match r {
                Some(entries) => self@ == YamlValue::Table(pairs_view(entries@)),
                None => !(self@ is Table),
            },
    {
        match self {
            YamlNode::Table(entries) => {
                assert(self@->Table_0 =~= pairs_view(entries@));
                Some(entries)
            },
            _ => None,
        }
    }
}

#[verifier::external_type_specification]
#[verifier::external_body]
pub struct ExYaml(yaml_rust::Yaml);

#[verifier::external_type_specification]
#[verifier::external_body]
pub struct ExScanError(yaml_rust::ScanError);

/// The documents that `yaml_rust::YamlLoader::load_from_str` reads from a
/// text, or `None` where it refuses the text.
pub uninterp spec fn yaml_documents(text: Seq<char>) -> Option<Seq<YamlValue>>;

/// Turns a node of `yaml_rust` into a node of this library: a string
/// scalar becomes `Text`, an array `List`, a hash `Table` with its entries
/// in the order in which `yaml_rust` walks them, and every other variant
/// `Other`. Nothing is claimed of it by itself.
#[verifier::external_body]
fn node_of(node: &yaml_rust::Yaml) -> YamlNode {
    match node {
        yaml_rust::Yaml::String(s) => YamlNode::Text(s.clone()),
        yaml_rust::Yaml::Array(a) => YamlNode::List(a.iter().map(node_of).collect()),
        yaml_rust::Yaml::Hash(h) => YamlNode::Table(
            h.iter().map(|(k, v)| (node_of(k), node_of(v))).collect(),
        ),
        yaml_rust::Yaml::Real(_) => YamlNode::Other,
        yaml_rust::Yaml::Integer(_) => YamlNode::Other,
        yaml_rust::Yaml::Boolean(_) => YamlNode::Other,
        yaml_rust::Yaml::Alias(_) => YamlNode::Other,
        yaml_rust::Yaml::Null => YamlNode::Other,
        yaml_rust::Yaml::BadValue => YamlNode::Other,
    }
}

/// The most levels of nesting that a text may ask the loader to follow.
pub const MAX_NESTING: u64 = 128;

/// Whether `c` can stand before the first node of a line: blanks and the
/// marks of a sequence entry, a key and a value.
pub open spec fn is_indent(c: char) -> bool {
    c == ' ' || c == '\t' || c == '-' || c == '?' || c == ':'
}

/// Whether `c` ends a line.
pub open spec fn is_line_break(c: char) -> bool {
    c == '\n' || c == '\r'
}

/// What decides how deep a text can nest: how far the last line is
/// indented and whether it still is being indented, how far the most
/// indented line is, how many brackets and braces open, and how many
/// stars there are.
pub struct Nesting {
    pub lead: nat,
    pub leading: bool,
    pub deepest: nat,
    pub opens: nat,
    pub aliases: nat,
}

/// The counts after one more character.
pub open spec fn nesting_after(n: Nesting, c: char) -> Nesting {
    let indents = !is_line_break(c) && n.leading && is_indent(c);
    Nesting {
        lead: if is_line_break(c) {
            0
        } else if indents {
            n.lead + 1
        } else {
            n.lead
        },
        leading: is_line_break(c) || indents,
        deepest: if indents && n.lead + 1 > n.deepest {
            n.lead + 1
        } else {
            n.deepest
        },
        opens: if c == '[' || c == '{' {
            n.opens + 1
        } else {
            n.opens
        },
        aliases: if c == '*' {
            n.aliases + 1
        } else {
            n.aliases
        },
    }
}

/// The counts of a text.
pub open spec fn nesting_of(text: Seq<char>) -> Nesting
    decreases text.len(),
{
    if text.len() == 0 {
        Nesting { lead: 0, leading: true, deepest: 0, opens: 0, aliases: 0 }
    } else {
        nesting_after(nesting_of(text.drop_last()), text.last())
    }
}

/// A bound on the levels of nesting of what a text holds. A block
/// collection starts only at a column beyond that of the one around it,
/// among the indenting characters of its line, and holds at most one
/// sequence at its own column; a flow collection starts at a bracket or a
/// brace and holds at most one pair without braces; and an alias, which
/// starts at a star, repeats what was nested elsewhere.
pub open spec fn nesting_bound(text: Seq<char>) -> nat {
    let n = nesting_of(text);
    (n.aliases + 1) * (2 * n.deepest + 2 * n.opens + 3)
}

/// Whether a text nests no deeper than the loader is asked to follow.
pub open spec fn nests_within_limit(text: Seq<char>) -> bool {
    nesting_bound(text) <= MAX_NESTING
}

/// The documents of a text: those that the loader reads from it, where
/// the text nests within the limit and the loader accepts it.
pub open spec fn documents_of(text: Seq<char>) -> Option<Seq<YamlValue>> {
    if nests_within_limit(text) {
        yaml_documents(text)
    } else {
        None
    }
}

/// Whether a text nests no deeper than the loader is asked to follow.
pub fn check_nesting(text: &str) -> (r: bool)
    ensures
        r == nests_within_limit(text@),
{
    let chars = chars_of(text);
    let mut lead: usize = 0;
    let mut leading = true;
    let mut deepest: usize = 0;
    let mut opens: usize = 0;
    let mut aliases: usize = 0;
    let mut i: usize = 0;
    assert(chars@.take(0) =~= Seq::<char>::empty());
    while i < chars.len()
        invariant
            i <= chars.len(),
            lead <= i,
            deepest <= i,
            opens <= i,
            aliases <= i,
            nesting_of(chars@.take(i as int)) == (Nesting {
                lead: lead as nat,
                leading,
                deepest: deepest as nat,
                opens: opens as nat,
                aliases: aliases as nat,
            }),
        decreases chars.len() - i,
    {
        let c = chars[i];
        proof {
            assert(chars@.take(i + 1).drop_last() =~= chars@.take(i as int));
            assert(chars@.take(i + 1).last() == c);
        }
        let line_break = c == '\n' || c == '\r';
        let indents = !line_break && leading && (c == ' ' || c == '\t' || c == '-' || c == '?'
            || c == ':');
        if line_break {
            lead = 0;
        } else if indents {
            lead = lead + 1;
            if lead > deepest {
                deepest = lead;
            }
        }
        leading = line_break || indents;
        if c == '[' || c == '{' {
            opens = opens + 1;
        }
        if c == '*' {
            aliases = aliases + 1;
        }
        i = i + 1;
    }
    proof {
        assert(chars@.take(chars.len() as int) =~= text@);
    }
    if aliases > 128 || deepest > 128 || opens > 128 {
        proof {
            let a = aliases as int + 1;
            let x = 2 * deepest as int + 2 * opens as int + 3;
            assert(a * x >= x && a * x >= a) by (nonlinear_arith)
                requires
                    a >= 1,
                    x >= 1,
            ;
        }
        return false;
    }
    let a: u64 = aliases as u64 + 1;
    let x: u64 = 2 * (deepest as u64) + 2 * (opens as u64) + 3;
    proof {
        assert(a * x <= 129 * 515) by (nonlinear_arith)
            requires
                0 <= a <= 129,
                0 <= x <= 515,
        ;
    }
    a * x <= MAX_NESTING
}

/// Calls `yaml_rust::YamlLoader::load_from_str` and turns each document
/// that it returns into a node of this library. The contract names what
/// the loader returns for a text: the same text always gives the same
/// documents, or is always refused. The loader, and the copying and
/// dropping of what it builds, go one call deeper for every level of
/// nesting, so texts that nest beyond the limit are left out.
#[verifier::external_body]
fn load_from_str(text: &str) -> (r: Result<Vec<YamlNode>, yaml_rust::ScanError>)
    requires
        nests_within_limit(text@),
    ensures
        match r {
            Ok(docs) => yaml_documents(text@) == Some(nodes_view(docs@)),
            Err(_) => yaml_documents(text@) is None,
        },
{
    match yaml_rust::YamlLoader::load_from_str(text) {
        Ok(docs) => Ok(docs.iter().map(node_of).collect()),
        Err(e) => Err(e),
    }
}

/// Reads the documents of a text. A text that nests beyond the limit, or
/// that is no well-formed document stream, is refused as a malformed
/// index document.
pub fn load_documents(text: &str) -> (r: Result<Vec<YamlNode>, FdmError>)
    ensures
        match r {
            Ok(docs) => documents_of(text@) == Some(nodes_view(docs@)),
            Err(e) => documents_of(text@) is None && e is MalformedIndexDocument,
        },
{
    if !check_nesting(text) {
        return Err(FdmError::MalformedIndexDocument);
    }
    match load_from_str(text) {
        Ok(docs) => Ok(docs),
        Err(_) => Err(FdmError::MalformedIndexDocument),
    }
}

} // verus!
