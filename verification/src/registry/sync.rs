//! Synchronisation: what to do with the mirror, which of its files are
//! index documents, and how the index is rebuilt from them.

use vstd::prelude::*;
use vstd::string::*;
use crate::error::FdmError;
use crate::ordered_map::{assoc_put, lemma_position_from, position_from, OrderedMap};
use crate::registry::documents::{
    fault_outside_versions, index_of_documents, lemma_index_read_wf, read_index, versions_wf,
    Fault, FaultView,
};
use crate::registry::registry::{IndexView, Registry};
use crate::text::{chars_of, str_eq, text_of};
use crate::types::index::{DescriptorView, RegistryIndex};
use crate::types::version::VersionView;
use crate::yaml::{documents_of, load_documents, nodes_view, YamlNode};

verus! {

/// One thing to do to the mirror, in the order of a plan.
#[derive(Debug, Clone, Copy, PartialEq, Eq, Structural)]
pub enum SyncStep {
    /// Remove the mirror with all that it holds.
    RemoveMirror,
    /// Create the directory of the mirror.
    CreateMirror,
    /// Clone the upstream registry into the mirror.
    CloneUpstream,
}

/// The steps that bring the mirror up to date. A mirror that is there and
/// holds something is only a copy of the upstream and is thrown away
/// before it is cloned again; otherwise the mirror is created and cloned.
pub open spec fn sync_steps(present: bool, empty: bool) -> Seq<SyncStep> {
    if present && !empty {
        seq![SyncStep::RemoveMirror, SyncStep::CreateMirror, SyncStep::CloneUpstream]
    } else {
        seq![SyncStep::CreateMirror, SyncStep::CloneUpstream]
    }
}

/// The place of the last `c` in `s`, or -1 where there is none.
pub open spec fn last_index_of(s: Seq<char>, c: char) -> int
    decreases s.len(),
{
    if s.len() == 0 {
        -1
    } else if s.last() == c {
        s.len() - 1
    } else {
        last_index_of(s.drop_last(), c)
    }
}

/// The package that a file of the mirror is the index document of: the
/// name of the file without its extension, where the extension is `yml`.
/// The extension is what follows the last dot, and a dot that begins the
/// name starts no extension.
pub open spec fn document_name_of(file_name: Seq<char>) -> Option<Seq<char>> {
    let dot = last_index_of(file_name, '.');
    if dot > 0 && file_name.skip(dot + 1) == "yml"@ {
        Some(file_name.take(dot))
    } else {
        None
    }
}

/// A fault in the documents of a mirror: the package whose document is
/// at fault, the version and the field in which the fault lies, as far as
/// it lies under a version and in a field, and the kind of fault.
#[derive(Debug, PartialEq, Eq)]
pub struct DocumentFault {
    pub package: String,
    pub version: Option<String>,
    pub field: Option<String>,
    pub error: FdmError,
}

/// What a [`DocumentFault`] stands for.
pub struct DocumentFaultView {
    pub package: Seq<char>,
    pub fault: FaultView,
}

impl View for DocumentFault {
    type V = DocumentFaultView;

    open spec fn view(&self) -> DocumentFaultView {
        DocumentFaultView {
            package: self.package@,
            fault: FaultView {
                version: text_of(self.version),
                field: text_of(self.field),
                error: self.error,
            },
        }
    }
}

/// The index that the documents of a mirror make when they are read in
/// order onto `acc`: each is the text of the index document of the
/// package that it is listed under. The first document at fault decides
/// the error, which names its package and where in it the fault lies.
pub open spec fn index_of_library(library: Seq<(Seq<char>, Seq<char>)>, acc: IndexView) -> Result<
    IndexView,
    DocumentFaultView,
>
    decreases library.len(),
{
    if library.len() == 0 {
        Ok(acc)
    } else {
        match documents_of(library[0].1) {
            Some(docs) => match index_of_documents(docs, Seq::empty()) {
                Ok(versions) => index_of_library(
                    library.drop_first(),
                    assoc_put(acc, library[0].0, versions),
                ),
                Err(fault) => Err(DocumentFaultView { package: library[0].0, fault }),
            },
            None => Err(
                DocumentFaultView { package: library[0].0, fault: fault_outside_versions() },
            ),
        }
    }
}

/// Whether every descriptor of an index is as the registry keeps it.
pub open spec fn index_wf(index: IndexView) -> bool {
    forall|i: int| 0 <= i < index.len() ==> versions_wf((#[trigger] index[i]).1)
}

/// The index that was read from a mirror is as the registry keeps it.
pub proof fn lemma_library_read_wf(library: Seq<(Seq<char>, Seq<char>)>, acc: IndexView)
    requires
        index_wf(acc),
        index_of_library(library, acc) is Ok,
    ensures
        index_wf(index_of_library(library, acc)->Ok_0),
    decreases library.len(),
{
    if library.len() > 0 {
        let docs = documents_of(library[0].1)->0;
        let versions = index_of_documents(docs, Seq::empty())->Ok_0;
        lemma_index_read_wf(docs, Seq::empty());
        let next = assoc_put(acc, library[0].0, versions);
        lemma_position_from(acc, library[0].0, 0);
        let p = position_from(acc, library[0].0, 0);
        assert forall|i: int| 0 <= i < next.len() implies versions_wf((#[trigger] next[i]).1) by {
            if i != p {
                assert(next[i] == acc[i]);
            }
        }
        lemma_library_read_wf(library.drop_first(), next);
    }
}

/// What a list of documents stands for.
pub open spec fn library_view(documents: Seq<(String, String)>) -> Seq<(Seq<char>, Seq<char>)> {
    Seq::new(documents.len(), |i: int| (documents[i].0@, documents[i].1@))
}

impl Registry {
    /// The steps that bring the mirror up to date, given whether it is
    /// there and whether it is empty.
    pub fn seek_registry(present: bool, empty: bool) -> (r: Vec<SyncStep>)
        ensures
            r@ == sync_steps(present, empty),
    {
        let mut steps: Vec<SyncStep> = Vec::new();
        if present && !empty {
            steps.push(SyncStep::RemoveMirror);
        }
        steps.push(SyncStep::CreateMirror);
        steps.push(SyncStep::CloneUpstream);
        assert(steps@ =~= sync_steps(present, empty));
        steps
    }

    /// The package that a file of the mirror is the index document of, if
    /// it is one.
    pub fn document_name(file_name: &str) -> (r: Option<String>)
        ensures
            match r {
                Some(name) => document_name_of(file_name@) == Some(name@),
                None => document_name_of(file_name@) is None,
            },
    {
        let chars = chars_of(file_name);
        let n = chars.len();
        let mut i: usize = n;
        assert(chars@.take(n as int) =~= chars@);
        while i > 0 && chars[i - 1] != '.'
            invariant
                i <= n,
                n == chars.len(),
                chars@ == file_name@,
                last_index_of(chars@, '.') == last_index_of(chars@.take(i as int), '.'),
            decreases i,
        {
            proof {
                assert(chars@.take(i as int).drop_last() =~= chars@.take(i - 1));
            }
            i = i - 1;
        }
        proof {
            if i > 0 {
                assert(chars@.take(i as int).last() == '.');
            }
        }
        // `i` is one past the last dot, or 0 where there is none.
        if i < 2 {
            return None;
        }
        let extension = file_name.substring_char(i, n);
        proof {
            assert(extension@ =~= file_name@.skip(i as int));
        }
        if str_eq(extension, "yml") {
            let stem = file_name.substring_char(0, i - 1);
            proof {
                assert(stem@ =~= file_name@.take(i - 1));
            }
            Some(stem.to_owned())
        } else {
            None
        }
    }

    /// Reads the documents of one package into its index. The first fault
    /// decides the error, which names the version and the field that it
    /// lies in.
    pub fn parse_yaml(yaml: &Vec<YamlNode>) -> (r: Result<RegistryIndex, Fault>)
        ensures
            match r {
                Ok(index) => index_of_documents(nodes_view(yaml@), Seq::empty()) == Ok::<
                    Seq<(VersionView, DescriptorView)>,
                    FaultView,
                >(index@) && versions_wf(index@),
                Err(e) => index_of_documents(nodes_view(yaml@), Seq::empty()) == Err::<
                    Seq<(VersionView, DescriptorView)>,
                    FaultView,
                >(e@),
            },
    {
        let r = read_index(yaml);
        proof {
            if r is Ok {
                lemma_index_read_wf(nodes_view(yaml@), Seq::empty());
            }
        }
        r
    }

    /// Rebuilds the index from the documents of the mirror, each given as
    /// the name of its package and its text. The new index replaces the
    /// old one as a whole; where any document is at fault the registry
    /// stays as it was, and the first fault is reported with its package,
    /// version and field.
    pub fn init_registry(&mut self, documents: &Vec<(String, String)>) -> (r: Result<
        (),
        DocumentFault,
    >)
        ensures
            match r {
                Ok(_) => {
                    &&& index_of_library(library_view(documents@), Seq::empty()) == Ok::<
                        IndexView,
                        DocumentFaultView,
                    >(final(self)@.index)
                    &&& final(self)@.path == old(self)@.path
                    &&& final(self)@.platform == old(self)@.platform
                    &&& index_wf(final(self)@.index)
                },
                Err(fault) => index_of_library(library_view(documents@), Seq::empty()) == Err::<
                    IndexView,
                    DocumentFaultView,
                >(fault@) && *final(self) == *old(self),
            },
    {
        let ghost library = library_view(documents@);
        let mut index: OrderedMap<String, RegistryIndex> = OrderedMap::new();
        let mut i: usize = 0;
        assert(library.skip(0) =~= library);
        while i < documents.len()
            invariant
                i <= documents.len(),
                library == library_view(documents@),
                index_of_library(library, Seq::empty()) == index_of_library(
                    library.skip(i as int),
                    index@,
                ),
            decreases documents.len() - i,
        {
            proof {
                assert(library.skip(i as int)[0] == library[i as int]);
                assert(library.skip(i as int).drop_first() =~= library.skip(i + 1));
            }
            let docs = match load_documents(documents[i].1.as_str()) {
                Ok(d) => d,
                Err(error) => {
                    return Err(
                        DocumentFault {
                            package: documents[i].0.clone(),
                            version: None,
                            field: None,
                            error,
                        },
                    );
                },
            };
            let versions = match Registry::parse_yaml(&docs) {
                Ok(v) => v,
                Err(fault) => {
                    return Err(
                        DocumentFault {
                            package: documents[i].0.clone(),
                            version: fault.version,
                            field: fault.field,
                            error: fault.error,
                        },
                    );
                },
            };
            index.insert(documents[i].0.clone(), versions);
            i = i + 1;
        }
        proof {
            lemma_library_read_wf(library, Seq::empty());
        }
        self.index = index;
        Ok(())
    }
}

} // verus!
