//! The schema of index documents: what each document means, and the
//! reader that builds the index from it.

use vstd::prelude::*;
use crate::error::FdmError;
use crate::ordered_map::{assoc_put, lemma_position_from, position_from, OrderedMap};
use crate::text::{str_eq, text_of};
use crate::types::dependencies::{default_request, Dependency, DependencyMap, DependencyView};
use crate::types::descriptor::PlatformUrls;
use crate::types::distribution::{distribution_of, Distribution};
use crate::types::index::{Descriptor, DescriptorView, RegistryIndex};
use crate::types::platform::{platform_of, PlatformArch};
use crate::types::version::{version_of, Version, VersionView};
use crate::urls::{parse_url, parsed_url};
use crate::yaml::{nodes_view, pairs_view, YamlNode, YamlValue};

verus! {

/// The request that the fields of a dependency record make when they are
/// read in order onto `acc`. Only `version` and `distribution` are fields
/// of a record, and both hold text.
pub open spec fn request_of_fields(
    fields: Seq<(YamlValue, YamlValue)>,
    acc: DependencyView,
) -> Result<DependencyView, FdmError>
    decreases fields.len(),
{
    if fields.len() == 0 {
        Ok(acc)
    } else {
        match fields[0] {
            (YamlValue::Text(key), YamlValue::Text(value)) => {
                if key == "version"@ {
                    match version_of(value) {
                        Some(v) => request_of_fields(
                            fields.drop_first(),
                            DependencyView {
                                version: v,
                                distribution: acc.distribution,
                                arch: acc.arch,
                            },
                        ),
                        None => Err(FdmError::InvalidIdentifier),
                    }
                } else if key == "distribution"@ {
                    request_of_fields(
                        fields.drop_first(),
                        DependencyView {
                            version: acc.version,
                            distribution: distribution_of(value),
                            arch: acc.arch,
                        },
                    )
                } else {
                    Err(FdmError::MalformedIndexDocument)
                }
            },
            _ => Err(FdmError::MalformedIndexDocument),
        }
    }
}

/// The requests of one item of a `dependencies` list, put onto `acc` in
/// order: each entry of the item names a package and holds its record.
pub open spec fn requests_of_entries(
    entries: Seq<(YamlValue, YamlValue)>,
    acc: Seq<(Seq<char>, DependencyView)>,
) -> Result<Seq<(Seq<char>, DependencyView)>, FdmError>
    decreases entries.len(),
{
    if entries.len() == 0 {
        Ok(acc)
    } else {
        match entries[0] {
            (YamlValue::Text(name), YamlValue::Table(fields)) => {
                match request_of_fields(fields, default_request()) {
                    Ok(request) => requests_of_entries(
                        entries.drop_first(),
                        assoc_put(acc, name, request),
                    ),
                    Err(e) => Err(e),
                }
            },
            _ => Err(FdmError::MalformedIndexDocument),
        }
    }
}

/// The requests of a `dependencies` list, put onto `acc` item by item.
pub open spec fn requests_of_items(
    items: Seq<YamlValue>,
    acc: Seq<(Seq<char>, DependencyView)>,
) -> Result<Seq<(Seq<char>, DependencyView)>, FdmError>
    decreases items.len(),
{
    if items.len() == 0 {
        Ok(acc)
    } else {
        match items[0] {
            YamlValue::Table(entries) => match requests_of_entries(entries, acc) {
                Ok(next) => requests_of_items(items.drop_first(), next),
                Err(e) => Err(e),
            },
            _ => Err(FdmError::MalformedIndexDocument),
        }
    }
}

/// The download locations under one distribution tag, put onto `acc` in
/// order: each entry names a platform and holds a URL.
pub open spec fn urls_of_entries(
    entries: Seq<(YamlValue, YamlValue)>,
    acc: Seq<(PlatformArch, Seq<char>)>,
) -> Result<Seq<(PlatformArch, Seq<char>)>, FdmError>
    decreases entries.len(),
{
    if entries.len() == 0 {
        Ok(acc)
    } else {
        match entries[0] {
            (YamlValue::Text(platform), YamlValue::Text(location)) => {
                match parsed_url(location) {
                    Some(url) => urls_of_entries(
                        entries.drop_first(),
                        assoc_put(acc, platform_of(platform), url),
                    ),
                    None => Err(FdmError::MalformedIndexDocument),
                }
            },
            _ => Err(FdmError::MalformedIndexDocument),
        }
    }
}

/// Whether a distribution can be held for a platform: sources are for
/// any platform only, static and shared libraries are for a platform of
/// their own, and a distribution that has no name is held as it comes.
pub open spec fn platform_fits(distribution: Distribution, platform: PlatformArch) -> bool {
    match distribution {
        Distribution::Sources => platform == PlatformArch::Any,
        Distribution::Static => platform != PlatformArch::Any,
        Distribution::Shared => platform != PlatformArch::Any,
        Distribution::Unknown => true,
    }
}

/// Whether the platforms of `urls` are such as the distribution allows.
pub open spec fn platforms_fit(
    distribution: Distribution,
    urls: Seq<(PlatformArch, Seq<char>)>,
) -> bool {
    forall|i: int| 0 <= i < urls.len() ==> platform_fits(distribution, (#[trigger] urls[i]).0)
}

/// A fault in a descriptor: the field in which it lies, where the fault
/// is in a field with a name, and the kind of fault.
pub type FieldFault = (Option<Seq<char>>, FdmError);

/// The descriptor that the fields of a version make when they are read in
/// order onto `acc`: `dependencies` holds a list of requests, `source` one
/// URL for the sources on any platform, and every other field is the tag
/// of a distribution over a table from platform to URL. The first fault
/// decides the error, which names the field that it lies in.
pub open spec fn descriptor_of_fields(
    fields: Seq<(YamlValue, YamlValue)>,
    acc: DescriptorView,
) -> Result<DescriptorView, FieldFault>
    decreases fields.len(),
{
    if fields.len() == 0 {
        Ok(acc)
    } else {
        match fields[0] {
            (YamlValue::Text(key), value) => {
                if key == "dependencies"@ {
                    match value {
                        YamlValue::List(items) => match requests_of_items(items, acc.dependencies) {
                            Ok(requests) => descriptor_of_fields(
                                fields.drop_first(),
                                DescriptorView {
                                    distribution: acc.distribution,
                                    dependencies: requests,
                                },
                            ),
                            Err(e) => Err((Some(key), e)),
                        },
                        _ => Err((Some(key), FdmError::MalformedIndexDocument)),
                    }
                } else if key == "source"@ {
                    match value {
                        YamlValue::Text(location) => match parsed_url(location) {
                            Some(url) => descriptor_of_fields(
                                fields.drop_first(),
                                DescriptorView {
                                    distribution: assoc_put(
                                        acc.distribution,
                                        Distribution::Sources,
                                        seq![(PlatformArch::Any, url)],
                                    ),
                                    dependencies: acc.dependencies,
                                },
                            ),
                            None => Err((Some(key), FdmError::MalformedIndexDocument)),
                        },
                        _ => Err((Some(key), FdmError::MalformedIndexDocument)),
                    }
                } else {
                    match value {
                        YamlValue::Table(entries) => match urls_of_entries(entries, Seq::empty()) {
                            Ok(urls) => {
                                if urls.len() == 0 {
                                    descriptor_of_fields(fields.drop_first(), acc)
                                } else if platforms_fit(distribution_of(key), urls) {
                                    descriptor_of_fields(
                                        fields.drop_first(),
                                        DescriptorView {
                                            distribution: assoc_put(
                                                acc.distribution,
                                                distribution_of(key),
                                                urls,
                                            ),
                                            dependencies: acc.dependencies,
                                        },
                                    )
                                } else {
                                    Err((Some(key), FdmError::MalformedIndexDocument))
                                }
                            },
                            Err(e) => Err((Some(key), e)),
                        },
                        _ => Err((Some(key), FdmError::MalformedIndexDocument)),
                    }
                }
            },
            _ => Err((None, FdmError::MalformedIndexDocument)),
        }
    }
}

/// The descriptor without distributions and without dependencies.
pub open spec fn empty_descriptor() -> DescriptorView {
    DescriptorView { distribution: Seq::empty(), dependencies: Seq::empty() }
}

/// A fault in the documents of a package: the version under which it
/// lies, as the document writes it, and the field of that version, as far
/// as the fault lies under a version and in a field, and the kind of
/// fault.
pub struct FaultView {
    pub version: Option<Seq<char>>,
    pub field: Option<Seq<char>>,
    pub error: FdmError,
}

/// The fault of a document or an entry that is not what the schema asks
/// for, outside every version.
pub open spec fn fault_outside_versions() -> FaultView {
    FaultView { version: None, field: None, error: FdmError::MalformedIndexDocument }
}

/// The versions of one document, put onto `acc` in order: each entry
/// names a version and holds the fields of its descriptor. The first
/// fault decides the error, which names the version and the field.
pub open spec fn versions_of_entries(
    entries: Seq<(YamlValue, YamlValue)>,
    acc: Seq<(VersionView, DescriptorView)>,
) -> Result<Seq<(VersionView, DescriptorView)>, FaultView>
    decreases entries.len(),
{
    if entries.len() == 0 {
        Ok(acc)
    } else {
        match entries[0] {
            (YamlValue::Text(key), descriptor) => match version_of(key) {
                Some(version) => match descriptor {
                    YamlValue::Table(fields) => match descriptor_of_fields(
                        fields,
                        empty_descriptor(),
                    ) {
                        Ok(d) => versions_of_entries(
                            entries.drop_first(),
                            assoc_put(acc, version, d),
                        ),
                        Err(e) => Err(FaultView { version: Some(key), field: e.0, error: e.1 }),
                    },
                    _ => Err(
                        FaultView {
                            version: Some(key),
                            field: None,
                            error: FdmError::MalformedIndexDocument,
                        },
                    ),
                },
                None => Err(
                    FaultView {
                        version: Some(key),
                        field: None,
                        error: FdmError::InvalidIdentifier,
                    },
                ),
            },
            _ => Err(fault_outside_versions()),
        }
    }
}

/// The index of a package whose documents are read in order onto `acc`.
/// Every document is a table of versions; the first fault decides the
/// error, and a later entry for a version replaces an earlier one.
pub open spec fn index_of_documents(
    docs: Seq<YamlValue>,
    acc: Seq<(VersionView, DescriptorView)>,
) -> Result<Seq<(VersionView, DescriptorView)>, FaultView>
    decreases docs.len(),
{
    if docs.len() == 0 {
        Ok(acc)
    } else {
        match docs[0] {
            YamlValue::Table(entries) => match versions_of_entries(entries, acc) {
                Ok(next) => index_of_documents(docs.drop_first(), next),
                Err(e) => Err(e),
            },
            _ => Err(fault_outside_versions()),
        }
    }
}

/// A fault in the documents of a package.
#[derive(Debug, PartialEq, Eq)]
pub struct Fault {
    /// The version under which the fault lies, as the document writes it.
    pub version: Option<String>,
    /// The field of that version in which the fault lies.
    pub field: Option<String>,
    /// The kind of fault.
    pub error: FdmError,
}

impl View for Fault {
    type V = FaultView;

    open spec fn view(&self) -> FaultView {
        FaultView { version: text_of(self.version), field: text_of(self.field), error: self.error }
    }
}

/// What is left of `s` after `i` items starts with item `i` and goes on
/// with what is left after `i + 1`.
pub proof fn lemma_skip_step<A>(s: Seq<A>, i: int)
    requires
        0 <= i < s.len(),
    ensures
        s.skip(i).len() > 0,
        s.skip(i)[0] == s[i],
        s.skip(i).drop_first() == s.skip(i + 1),
{
    assert(s.skip(i).drop_first() =~= s.skip(i + 1));
}

/// Reads the fields of a dependency record.
pub fn read_request(fields: &Vec<(YamlNode, YamlNode)>) -> (r: Result<Dependency, FdmError>)
    ensures
        match r {
            Ok(d) => request_of_fields(pairs_view(fields@), default_request()) == Ok::<
                DependencyView,
                FdmError,
            >(d@),
            Err(e) => request_of_fields(pairs_view(fields@), default_request()) == Err::<
                DependencyView,
                FdmError,
            >(e),
        },
{
    let ghost all = pairs_view(fields@);
    let mut acc = Dependency::default();
    let mut i: usize = 0;
    assert(all.skip(0) =~= all);
    while i < fields.len()
        invariant
            i <= fields.len(),
            all == pairs_view(fields@),
            request_of_fields(all, default_request()) == request_of_fields(
                all.skip(i as int),
                acc@,
            ),
        decreases fields.len() - i,
    {
        proof {
            lemma_skip_step(all, i as int);
        }
        let key = match fields[i].0.as_text() {
            Some(k) => k,
            None => {
                return Err(FdmError::MalformedIndexDocument);
            },
        };
        let value = match fields[i].1.as_text() {
            Some(v) => v,
            None => {
                return Err(FdmError::MalformedIndexDocument);
            },
        };
        if str_eq(key.as_str(), "version") {
            match Version::parse(value.as_str()) {
                Ok(v) => {
                    acc.version = v;
                },
                Err(_) => {
                    return Err(FdmError::InvalidIdentifier);
                },
            }
        } else if str_eq(key.as_str(), "distribution") {
            acc.distribution = Distribution::parse(value.as_str());
        } else {
            return Err(FdmError::MalformedIndexDocument);
        }
        i = i + 1;
    }
    Ok(acc)
}

/// Reads one item of a `dependencies` list onto `acc`.
pub fn read_request_entries(entries: &Vec<(YamlNode, YamlNode)>, acc: DependencyMap) -> (r: Result<
    DependencyMap,
    FdmError,
>)
    ensures
        match r {
            Ok(m) => requests_of_entries(pairs_view(entries@), acc@) == Ok::<
                Seq<(Seq<char>, DependencyView)>,
                FdmError,
            >(m@),
            Err(e) => requests_of_entries(pairs_view(entries@), acc@) == Err::<
                Seq<(Seq<char>, DependencyView)>,
                FdmError,
            >(e),
        },
{
    let ghost all = pairs_view(entries@);
    let mut map = acc;
    let mut i: usize = 0;
    assert(all.skip(0) =~= all);
    while i < entries.len()
        invariant
            i <= entries.len(),
            all == pairs_view(entries@),
            requests_of_entries(all, acc@) == requests_of_entries(all.skip(i as int), map@),
        decreases entries.len() - i,
    {
        proof {
            lemma_skip_step(all, i as int);
        }
        let name = match entries[i].0.as_text() {
            Some(n) => n,
            None => {
                return Err(FdmError::MalformedIndexDocument);
            },
        };
        let fields = match entries[i].1.as_table() {
            Some(f) => f,
            None => {
                return Err(FdmError::MalformedIndexDocument);
            },
        };
        let request = match read_request(fields) {
            Ok(d) => d,
            Err(e) => {
                return Err(e);
            },
        };
        map.insert(name.clone(), request);
        i = i + 1;
    }
    Ok(map)
}

/// Reads a `dependencies` list onto `acc`.
pub fn read_request_items(items: &Vec<YamlNode>, acc: DependencyMap) -> (r: Result<
    DependencyMap,
    FdmError,
>)
    ensures
        match r {
            Ok(m) => requests_of_items(nodes_view(items@), acc@) == Ok::<
                Seq<(Seq<char>, DependencyView)>,
                FdmError,
            >(m@),
            Err(e) => requests_of_items(nodes_view(items@), acc@) == Err::<
                Seq<(Seq<char>, DependencyView)>,
                FdmError,
            >(e),
        },
{
    let ghost all = nodes_view(items@);
    let mut map = acc;
    let mut i: usize = 0;
    assert(all.skip(0) =~= all);
    while i < items.len()
        invariant
            i <= items.len(),
            all == nodes_view(items@),
            requests_of_items(all, acc@) == requests_of_items(all.skip(i as int), map@),
        decreases items.len() - i,
    {
        proof {
            lemma_skip_step(all, i as int);
        }
        let entries = match items[i].as_table() {
            Some(e) => e,
            None => {
                return Err(FdmError::MalformedIndexDocument);
            },
        };
        map = match read_request_entries(entries, map) {
            Ok(m) => m,
            Err(e) => {
                return Err(e);
            },
        };
        i = i + 1;
    }
    Ok(map)
}

/// Reads the table from platform to URL of one distribution tag.
pub fn read_urls(entries: &Vec<(YamlNode, YamlNode)>) -> (r: Result<PlatformUrls, FdmError>)
    ensures
        match r {
            Ok(m) => urls_of_entries(pairs_view(entries@), Seq::empty()) == Ok::<
                Seq<(PlatformArch, Seq<char>)>,
                FdmError,
            >(m@),
            Err(e) => urls_of_entries(pairs_view(entries@), Seq::empty()) == Err::<
                Seq<(PlatformArch, Seq<char>)>,
                FdmError,
            >(e),
        },
{
    let ghost all = pairs_view(entries@);
    let mut acc: PlatformUrls = OrderedMap::new();
    let mut i: usize = 0;
    assert(all.skip(0) =~= all);
    while i < entries.len()
        invariant
            i <= entries.len(),
            all == pairs_view(entries@),
            urls_of_entries(all, Seq::empty()) == urls_of_entries(all.skip(i as int), acc@),
        decreases entries.len() - i,
    {
        proof {
            lemma_skip_step(all, i as int);
        }
        let platform = match entries[i].0.as_text() {
            Some(p) => p,
            None => {
                return Err(FdmError::MalformedIndexDocument);
            },
        };
        let location = match entries[i].1.as_text() {
            Some(l) => l,
            None => {
                return Err(FdmError::MalformedIndexDocument);
            },
        };
        let url = match parse_url(location.as_str()) {
            Ok(u) => u,
            Err(_) => {
                return Err(FdmError::MalformedIndexDocument);
            },
        };
        acc.insert(PlatformArch::parse(platform.as_str()), url);
        i = i + 1;
    }
    Ok(acc)
}

/// Whether the platforms of `urls` are such as the distribution allows.
pub fn check_platforms(distribution: Distribution, urls: &PlatformUrls) -> (r: bool)
    ensures
        r == platforms_fit(distribution, urls@),
{
    let mut i: usize = 0;
    while i < urls.entries.len()
        invariant
            i <= urls.entries.len(),
            forall|j: int| 0 <= j < i ==> platform_fits(distribution, (#[trigger] urls@[j]).0),
        decreases urls.entries.len() - i,
    {
        let any = urls.entries[i].0 == PlatformArch::Any;
        let fits = match distribution {
            Distribution::Sources => any,
            Distribution::Static => !any,
            Distribution::Shared => !any,
            Distribution::Unknown => true,
        };
        if !fits {
            assert(urls@[i as int].0 == urls.entries@[i as int].0);
            return false;
        }
        assert(urls@[i as int].0 == urls.entries@[i as int].0);
        i = i + 1;
    }
    true
}

/// Reads the fields of one version into its descriptor.
pub fn read_descriptor(fields: &Vec<(YamlNode, YamlNode)>) -> (r: Result<
    Descriptor,
    (Option<String>, FdmError),
>)
    ensures
        match r {
            Ok(d) => descriptor_of_fields(pairs_view(fields@), empty_descriptor()) == Ok::<
                DescriptorView,
                FieldFault,
            >(d@),
            Err(e) => descriptor_of_fields(pairs_view(fields@), empty_descriptor()) == Err::<
                DescriptorView,
                FieldFault,
            >((text_of(e.0), e.1)),
        },
{
    let ghost all = pairs_view(fields@);
    let mut distribution: OrderedMap<Distribution, PlatformUrls> = OrderedMap::new();
    let mut dependencies: DependencyMap = OrderedMap::new();
    let mut i: usize = 0;
    assert(all.skip(0) =~= all);
    while i < fields.len()
        invariant
            i <= fields.len(),
            all == pairs_view(fields@),
            descriptor_of_fields(all, empty_descriptor()) == descriptor_of_fields(
                all.skip(i as int),
                DescriptorView { distribution: distribution@, dependencies: dependencies@ },
            ),
        decreases fields.len() - i,
    {
        proof {
            lemma_skip_step(all, i as int);
        }
        let key = match fields[i].0.as_text() {
            Some(k) => k,
            None => {
                return Err((None, FdmError::MalformedIndexDocument));
            },
        };
        if str_eq(key.as_str(), "dependencies") {
            let items = match fields[i].1.as_list() {
                Some(l) => l,
                None => {
                    return Err((Some(key.clone()), FdmError::MalformedIndexDocument));
                },
            };
            dependencies = match read_request_items(items, dependencies) {
                Ok(m) => m,
                Err(e) => {
                    return Err((Some(key.clone()), e));
                },
            };
        } else if str_eq(key.as_str(), "source") {
            let location = match fields[i].1.as_text() {
                Some(l) => l,
                None => {
                    return Err((Some(key.clone()), FdmError::MalformedIndexDocument));
                },
            };
            let url = match parse_url(location.as_str()) {
                Ok(u) => u,
                Err(_) => {
                    return Err((Some(key.clone()), FdmError::MalformedIndexDocument));
                },
            };
            let mut urls: PlatformUrls = OrderedMap::new();
            urls.insert(PlatformArch::Any, url);
            assert(urls@ =~= seq![(PlatformArch::Any, url@)]);
            distribution.insert(Distribution::Sources, urls);
        } else {
            let entries = match fields[i].1.as_table() {
                Some(t) => t,
                None => {
                    return Err((Some(key.clone()), FdmError::MalformedIndexDocument));
                },
            };
            let urls = match read_urls(entries) {
                Ok(u) => u,
                Err(e) => {
                    return Err((Some(key.clone()), e));
                },
            };
            if urls.len() > 0 {
                let tag = Distribution::parse(key.as_str());
                if !check_platforms(tag, &urls) {
                    return Err((Some(key.clone()), FdmError::MalformedIndexDocument));
                }
                distribution.insert(tag, urls);
            }
        }
        i = i + 1;
    }
    Ok(Descriptor { distribution, dependencies })
}

/// Reads the versions of one document onto `acc`.
pub fn read_versions(entries: &Vec<(YamlNode, YamlNode)>, acc: RegistryIndex) -> (r: Result<
    RegistryIndex,
    Fault,
>)
    ensures
        match r {
            Ok(index) => versions_of_entries(pairs_view(entries@), acc@) == Ok::<
                Seq<(VersionView, DescriptorView)>,
                FaultView,
            >(index@),
            Err(e) => versions_of_entries(pairs_view(entries@), acc@) == Err::<
                Seq<(VersionView, DescriptorView)>,
                FaultView,
            >(e@),
        },
{
    let ghost all = pairs_view(entries@);
    let mut index = acc;
    let mut i: usize = 0;
    assert(all.skip(0) =~= all);
    while i < entries.len()
        invariant
            i <= entries.len(),
            all == pairs_view(entries@),
            versions_of_entries(all, acc@) == versions_of_entries(all.skip(i as int), index@),
        decreases entries.len() - i,
    {
        proof {
            lemma_skip_step(all, i as int);
        }
        let key = match entries[i].0.as_text() {
            Some(k) => k,
            None => {
                return Err(
                    Fault { version: None, field: None, error: FdmError::MalformedIndexDocument },
                );
            },
        };
        let version = match Version::parse(key.as_str()) {
            Ok(v) => v,
            Err(_) => {
                return Err(
                    Fault {
                        version: Some(key.clone()),
                        field: None,
                        error: FdmError::InvalidIdentifier,
                    },
                );
            },
        };
        let fields = match entries[i].1.as_table() {
            Some(f) => f,
            None => {
                return Err(
                    Fault {
                        version: Some(key.clone()),
                        field: None,
                        error: FdmError::MalformedIndexDocument,
                    },
                );
            },
        };
        let descriptor = match read_descriptor(fields) {
            Ok(d) => d,
            Err(e) => {
                return Err(Fault { version: Some(key.clone()), field: e.0, error: e.1 });
            },
        };
        index.versions.insert(version, descriptor);
        i = i + 1;
    }
    Ok(index)
}

/// Reads the documents of one package into its index.
pub fn read_index(docs: &Vec<YamlNode>) -> (r: Result<RegistryIndex, Fault>)
    ensures
        match r {
            Ok(index) => index_of_documents(nodes_view(docs@), Seq::empty()) == Ok::<
                Seq<(VersionView, DescriptorView)>,
                FaultView,
            >(index@),
            Err(e) => index_of_documents(nodes_view(docs@), Seq::empty()) == Err::<
                Seq<(VersionView, DescriptorView)>,
                FaultView,
            >(e@),
        },
{
    let ghost all = nodes_view(docs@);
    let mut index = RegistryIndex::default();
    let mut i: usize = 0;
    assert(all.skip(0) =~= all);
    while i < docs.len()
        invariant
            i <= docs.len(),
            all == nodes_view(docs@),
            index_of_documents(all, Seq::empty()) == index_of_documents(
                all.skip(i as int),
                index@,
            ),
        decreases docs.len() - i,
    {
        proof {
            lemma_skip_step(all, i as int);
        }
        let entries = match docs[i].as_table() {
            Some(e) => e,
            None => {
                return Err(
                    Fault { version: None, field: None, error: FdmError::MalformedIndexDocument },
                );
            },
        };
        index = match read_versions(entries, index) {
            Ok(next) => next,
            Err(e) => {
                return Err(e);
            },
        };
        i = i + 1;
    }
    Ok(index)
}

/// Whether the locations of one distribution are as the index keeps
/// them: there is at least one, the sources are held under `Any` only,
/// and no static or shared library is held under `Any`.
pub open spec fn urls_fit(entry: (Distribution, Seq<(PlatformArch, Seq<char>)>)) -> bool {
    entry.1.len() > 0 && platforms_fit(entry.0, entry.1)
}

/// Whether every distribution of a descriptor is as the index keeps it.
pub open spec fn descriptor_wf(d: DescriptorView) -> bool {
    forall|i: int| 0 <= i < d.distribution.len() ==> urls_fit(#[trigger] d.distribution[i])
}

/// Whether every descriptor of a package is as the index keeps it.
pub open spec fn versions_wf(versions: Seq<(VersionView, DescriptorView)>) -> bool {
    forall|j: int| 0 <= j < versions.len() ==> descriptor_wf((#[trigger] versions[j]).1)
}

/// Putting a fitting entry among fitting entries leaves fitting entries.
proof fn lemma_put_fitting(
    s: Seq<(Distribution, Seq<(PlatformArch, Seq<char>)>)>,
    k: Distribution,
    v: Seq<(PlatformArch, Seq<char>)>,
)
    requires
        forall|i: int| 0 <= i < s.len() ==> urls_fit(#[trigger] s[i]),
        urls_fit((k, v)),
    ensures
        forall|i: int|
            0 <= i < assoc_put(s, k, v).len() ==> urls_fit(#[trigger] assoc_put(s, k, v)[i]),
{
    lemma_position_from(s, k, 0);
    let t = assoc_put(s, k, v);
    let p = position_from(s, k, 0);
    assert forall|i: int| 0 <= i < t.len() implies urls_fit(#[trigger] t[i]) by {
        if i != p {
            assert(t[i] == s[i]);
        }
    }
}

/// A descriptor that was read is as the index keeps it.
pub proof fn lemma_descriptor_read_wf(fields: Seq<(YamlValue, YamlValue)>, acc: DescriptorView)
    requires
        descriptor_wf(acc),
        descriptor_of_fields(fields, acc) is Ok,
    ensures
        descriptor_wf(descriptor_of_fields(fields, acc)->Ok_0),
    decreases fields.len(),
{
    if fields.len() > 0 {
        match fields[0] {
            (YamlValue::Text(key), value) => {
                if key == "dependencies"@ {
                    match value {
                        YamlValue::List(items) => {
                            let requests = requests_of_items(items, acc.dependencies)->Ok_0;
                            lemma_descriptor_read_wf(
                                fields.drop_first(),
                                DescriptorView {
                                    distribution: acc.distribution,
                                    dependencies: requests,
                                },
                            );
                        },
                        _ => {},
                    }
                } else if key == "source"@ {
                    match value {
                        YamlValue::Text(location) => {
                            let url = parsed_url(location)->0;
                            let urls = seq![(PlatformArch::Any, url)];
                            assert(urls_fit((Distribution::Sources, urls)));
                            lemma_put_fitting(acc.distribution, Distribution::Sources, urls);
                            lemma_descriptor_read_wf(
                                fields.drop_first(),
                                DescriptorView {
                                    distribution: assoc_put(
                                        acc.distribution,
                                        Distribution::Sources,
                                        urls,
                                    ),
                                    dependencies: acc.dependencies,
                                },
                            );
                        },
                        _ => {},
                    }
                } else {
                    match value {
                        YamlValue::Table(entries) => {
                            let urls = urls_of_entries(entries, Seq::empty())->Ok_0;
                            if urls.len() == 0 {
                                lemma_descriptor_read_wf(fields.drop_first(), acc);
                            } else {
                                lemma_put_fitting(acc.distribution, distribution_of(key), urls);
                                lemma_descriptor_read_wf(
                                    fields.drop_first(),
                                    DescriptorView {
                                        distribution: assoc_put(
                                            acc.distribution,
                                            distribution_of(key),
                                            urls,
                                        ),
                                        dependencies: acc.dependencies,
                                    },
                                );
                            }
                        },
                        _ => {},
                    }
                }
            },
            _ => {},
        }
    }
}

/// Putting a descriptor that is as the index keeps it among such
/// descriptors leaves such descriptors.
proof fn lemma_put_descriptor(
    s: Seq<(VersionView, DescriptorView)>,
    k: VersionView,
    d: DescriptorView,
)
    requires
        versions_wf(s),
        descriptor_wf(d),
    ensures
        versions_wf(assoc_put(s, k, d)),
{
    lemma_position_from(s, k, 0);
    let t = assoc_put(s, k, d);
    let p = position_from(s, k, 0);
    assert forall|j: int| 0 <= j < t.len() implies descriptor_wf((#[trigger] t[j]).1) by {
        if j != p {
            assert(t[j] == s[j]);
        }
    }
}

/// The versions that were read from a document are as the index keeps
/// them.
pub proof fn lemma_versions_read_wf(
    entries: Seq<(YamlValue, YamlValue)>,
    acc: Seq<(VersionView, DescriptorView)>,
)
    requires
        versions_wf(acc),
        versions_of_entries(entries, acc) is Ok,
    ensures
        versions_wf(versions_of_entries(entries, acc)->Ok_0),
    decreases entries.len(),
{
    if entries.len() > 0 {
        match entries[0] {
            (YamlValue::Text(key), YamlValue::Table(fields)) => {
                let version = version_of(key)->0;
                let d = descriptor_of_fields(fields, empty_descriptor())->Ok_0;
                lemma_descriptor_read_wf(fields, empty_descriptor());
                lemma_put_descriptor(acc, version, d);
                lemma_versions_read_wf(entries.drop_first(), assoc_put(acc, version, d));
            },
            _ => {},
        }
    }
}

/// The index that was read from the documents of a package is as the
/// registry keeps it.
pub proof fn lemma_index_read_wf(docs: Seq<YamlValue>, acc: Seq<(VersionView, DescriptorView)>)
    requires
        versions_wf(acc),
        index_of_documents(docs, acc) is Ok,
    ensures
        versions_wf(index_of_documents(docs, acc)->Ok_0),
    decreases docs.len(),
{
    if docs.len() > 0 {
        match docs[0] {
            YamlValue::Table(entries) => {
                lemma_versions_read_wf(entries, acc);
                lemma_index_read_wf(docs.drop_first(), versions_of_entries(entries, acc)->Ok_0);
            },
            _ => {},
        }
    }
}

} // verus!
