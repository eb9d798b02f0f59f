//! The registry: the index of every package of the mirror, and the
//! lookups that the resolver and the fetch pipeline make in it.

use vstd::prelude::*;
use crate::error::FdmError;
use crate::ordered_map::{assoc_get, OrderedMap};
use crate::types::dependencies::{
    clone_requests, resolved_arch, Dependency, DependencyMap, DependencyView,
};
use crate::types::distribution::Distribution;
use crate::types::index::{DescriptorView, RegistryIndex};
use crate::types::platform::PlatformArch;
use crate::types::version::{Version, VersionView};

verus! {

/// The registry of a project: where its mirror lies, the index that was
/// built from the mirror, and the platform that requests without a
/// platform are resolved for.
#[derive(Debug)]
pub struct Registry {
    pub path: String,
    pub index: OrderedMap<String, RegistryIndex>,
    pub platform: PlatformArch,
}

/// The index of a registry: for each package, by name, its versions.
pub type IndexView = Seq<(Seq<char>, Seq<(VersionView, DescriptorView)>)>;

/// What a [`Registry`] stands for.
pub struct RegistryView {
    pub path: Seq<char>,
    pub index: IndexView,
    pub platform: PlatformArch,
}

impl View for Registry {
    type V = RegistryView;

    open spec fn view(&self) -> RegistryView {
        RegistryView { path: self.path@, index: self.index@, platform: self.platform }
    }
}

/// The descriptor of exactly the given version of a package.
pub open spec fn descriptor_in(index: IndexView, name: Seq<char>, version: VersionView) -> Option<
    DescriptorView,
> {
    match assoc_get(index, name) {
        Some(versions) => assoc_get(versions, version),
        None => None,
    }
}

/// The download locations that the index has for the package, version and
/// distribution of a request.
pub open spec fn urls_in(index: IndexView, name: Seq<char>, request: DependencyView) -> Option<
    Seq<(PlatformArch, Seq<char>)>,
> {
    match descriptor_in(index, name, request.version) {
        Some(d) => assoc_get(d.distribution, request.distribution),
        None => None,
    }
}

/// Whether the index can serve a request: it has the package at exactly
/// the version, the distribution, and, unless the sources are asked for,
/// the platform that the request resolves to on `host`.
pub open spec fn contains_request(
    index: IndexView,
    name: Seq<char>,
    request: DependencyView,
    host: PlatformArch,
) -> bool {
    match urls_in(index, name, request) {
        Some(urls) => request.distribution == Distribution::Sources || assoc_get(
            urls,
            resolved_arch(request, host),
        ) is Some,
        None => false,
    }
}

/// The download location of a request: that of the sources, which are
/// held under `Any`, whatever platform is asked for, and otherwise that of
/// the platform that the request resolves to on `host`.
pub open spec fn url_of_request(
    index: IndexView,
    name: Seq<char>,
    request: DependencyView,
    host: PlatformArch,
) -> Option<Seq<char>> {
    match urls_in(index, name, request) {
        Some(urls) => if request.distribution == Distribution::Sources {
            assoc_get(urls, PlatformArch::Any)
        } else {
            assoc_get(urls, resolved_arch(request, host))
        },
        None => None,
    }
}

/// What the package of a request depends on at the version of the
/// request; nothing where the index lacks the package or the version.
pub open spec fn direct_requests(index: IndexView, name: Seq<char>, request: DependencyView) -> Seq<
    (Seq<char>, DependencyView),
> {
    match descriptor_in(index, name, request.version) {
        Some(d) => d.dependencies,
        None => Seq::empty(),
    }
}

/// A request that the index has no download location for: the package,
/// the version, the distribution and the platform that were looked for.
#[derive(Debug, PartialEq, Eq)]
pub struct MissingDependency {
    pub name: String,
    pub version: Version,
    pub distribution: Distribution,
    pub arch: PlatformArch,
}

/// The platform under which the location of a request is looked for:
/// `Any` for the sources, and otherwise the platform that the request
/// resolves to on `host`.
pub open spec fn lookup_arch(request: DependencyView, host: PlatformArch) -> PlatformArch {
    if request.distribution == Distribution::Sources {
        PlatformArch::Any
    } else {
        resolved_arch(request, host)
    }
}

impl MissingDependency {
    /// The failure that the missing request is reported as.
    pub fn error(&self) -> (r: FdmError)
        ensures
            r is DependencyNotFound,
    {
        FdmError::DependencyNotFound
    }

    /// Whether this is what is reported of a request for `name` that was
    /// not found on `host`.
    pub open spec fn reports(&self, name: Seq<char>, request: DependencyView, host: PlatformArch) -> bool {
        &&& self.name@ == name
        &&& self.version@ == request.version
        &&& self.distribution == request.distribution
        &&& self.arch == lookup_arch(request, host)
    }
}

impl Registry {
    /// A registry with an empty index, for the mirror at `path` and the
    /// given platform.
    pub fn new(path: String, platform: PlatformArch) -> (r: Registry)
        ensures
            r@ == (RegistryView { path: path@, index: Seq::empty(), platform }),
    {
        Registry { path, index: OrderedMap::new(), platform }
    }

    /// Whether the index can serve the request.
    pub fn contains(&self, name: &str, dependency: &Dependency) -> (r: bool)
        ensures
            r == contains_request(self@.index, name@, dependency@, self@.platform),
    {
        let key = name.to_owned();
        let versions = match self.index.get(&key) {
            Some(v) => v,
            None => {
                return false;
            },
        };
        let descriptor = match versions.versions.get(&dependency.version) {
            Some(d) => d,
            None => {
                return false;
            },
        };
        let urls = match descriptor.distribution.get(&dependency.distribution) {
            Some(u) => u,
            None => {
                return false;
            },
        };
        if dependency.distribution == Distribution::Sources {
            true
        } else {
            urls.contains_key(&dependency.arch_on(self.platform))
        }
    }

    /// The download location of the request. Where any step of the lookup
    /// misses, the request is reported as not found, with what was looked
    /// for.
    pub fn get(&self, name: &str, dependency: &Dependency) -> (r: Result<String, MissingDependency>)
        ensures
            match r {
                Ok(url) => url_of_request(self@.index, name@, dependency@, self@.platform)
                    == Some(url@),
                Err(missing) => url_of_request(self@.index, name@, dependency@, self@.platform)
                    is None && missing.reports(name@, dependency@, self@.platform),
            },
    {
        let arch = if dependency.distribution == Distribution::Sources {
            PlatformArch::Any
        } else {
            dependency.arch_on(self.platform)
        };
        let key = name.to_owned();
        let found = match self.index.get(&key) {
            Some(versions) => match versions.versions.get(&dependency.version) {
                Some(descriptor) => match descriptor.distribution.get(&dependency.distribution) {
                    Some(urls) => urls.get(&arch),
                    None => None,
                },
                None => None,
            },
            None => None,
        };
        match found {
            Some(url) => Ok(url.clone()),
            None => Err(
                MissingDependency {
                    name: key,
                    version: dependency.version.clone(),
                    distribution: dependency.distribution,
                    arch,
                },
            ),
        }
    }

    /// What the package depends on at the version of the request; nothing
    /// where the index lacks the package or the version.
    pub fn get_indirect_dependencies(&self, name: &str, dependency: &Dependency) -> (r:
        DependencyMap)
        ensures
            r@ == direct_requests(self@.index, name@, dependency@),
    {
        let key = name.to_owned();
        let versions = match self.index.get(&key) {
            Some(v) => v,
            None => {
                return OrderedMap::new();
            },
        };
        match versions.versions.get(&dependency.version) {
            Some(d) => clone_requests(&d.dependencies),
            None => OrderedMap::new(),
        }
    }
}

} // verus!
