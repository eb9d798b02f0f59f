//! The manifest, and the set of requests that a project needs staged.

use vstd::prelude::*;
use crate::error::FdmError;
use crate::manifest::dependencies::{request_of_declared, DependencyPT, DependencyPTView};
use crate::manifest::package::{Package, PackagePT};
use crate::ordered_map::{assoc_put, OrderedMap};
use crate::registry::registry::{IndexView, Registry};
use crate::registry::resolver::{resolve, Edge};
use crate::types::dependencies::DependencyMap;
use crate::types::version::version_of;

verus! {

/// A manifest as it is written: the package, and the declared
/// dependencies by name, in the order of the file.
#[derive(Debug)]
pub struct ManifestPT {
    pub package: PackagePT,
    pub dependencies: Option<Vec<(String, DependencyPT)>>,
}

/// A manifest whose versions were read.
#[derive(Debug)]
pub struct Manifest {
    pub package: Package,
    pub dependencies: Option<DependencyMap>,
}

/// What a list of declared dependencies stands for.
pub open spec fn declared_view(declared: Seq<(String, DependencyPT)>) -> Seq<
    (Seq<char>, DependencyPTView),
> {
    Seq::new(declared.len(), |i: int| (declared[i].0@, declared[i].1@))
}

/// The requests that declared dependencies make, put onto `acc` in
/// order; `None` where the version of one cannot be read.
pub open spec fn requests_of_declared(
    declared: Seq<(Seq<char>, DependencyPTView)>,
    acc: Seq<Edge>,
) -> Option<Seq<Edge>>
    decreases declared.len(),
{
    if declared.len() == 0 {
        Some(acc)
    } else {
        match request_of_declared(declared[0].1) {
            Some(request) => requests_of_declared(
                declared.drop_first(),
                assoc_put(acc, declared[0].0, request),
            ),
            None => None,
        }
    }
}

/// Whether `r` is what reading the written manifest `value` gives: the
/// manifest with the version of the package and the requests of the
/// declared dependencies read, or an invalid identifier where the version
/// of the package or of a dependency cannot be read.
pub open spec fn reads_as(value: ManifestPT, r: Result<Manifest, FdmError>) -> bool {
    match r {
        Ok(m) => {
            &&& version_of(value.package.version@) == Some(m.package.version@)
            &&& m.package.name == value.package.name
            &&& m.package.authors == value.package.authors
            &&& match value.dependencies {
                Some(declared) => m.dependencies is Some && requests_of_declared(
                    declared_view(declared@),
                    Seq::empty(),
                ) == Some(m.dependencies->0@),
                None => m.dependencies is None,
            }
        },
        Err(e) => {
            &&& e is InvalidIdentifier
            &&& (version_of(value.package.version@) is None || match value.dependencies {
                Some(declared) => requests_of_declared(declared_view(declared@), Seq::empty())
                    is None,
                None => false,
            })
        },
    }
}

/// `acc` with the requests of `more` put onto it in order.
pub open spec fn merged(acc: Seq<Edge>, more: Seq<Edge>) -> Seq<Edge>
    decreases more.len(),
{
    if more.len() == 0 {
        acc
    } else {
        merged(assoc_put(acc, more[0].0, more[0].1), more.drop_first())
    }
}

/// `acc` with, for each request of `direct` in order, all that the
/// request resolves to put onto it.
pub open spec fn closure_onto(index: IndexView, direct: Seq<Edge>, acc: Seq<Edge>) -> Seq<Edge>
    decreases direct.len(),
{
    if direct.len() == 0 {
        acc
    } else {
        closure_onto(
            index,
            direct.drop_first(),
            merged(acc, resolve(index, direct[0].0, direct[0].1)),
        )
    }
}

/// Every request that a project with the given direct dependencies needs
/// staged: the direct ones, then all that each of them resolves to. Where
/// two requests name one package, the later one stays.
pub open spec fn dependency_tree(index: IndexView, direct: Seq<Edge>) -> Seq<Edge> {
    closure_onto(index, direct, merged(Seq::empty(), direct))
}

/// Puts the requests of `more` onto `acc` in order.
pub fn extend(acc: &mut DependencyMap, more: &DependencyMap)
    ensures
        final(acc)@ == merged(old(acc)@, more@),
{
    let ghost all = more@;
    let mut i: usize = 0;
    assert(all.skip(0) =~= all);
    while i < more.entries.len()
        invariant
            i <= more.entries.len(),
            all == more@,
            merged(old(acc)@, all) == merged(acc@, all.skip(i as int)),
        decreases more.entries.len() - i,
    {
        proof {
            assert(all.skip(i as int)[0] == all[i as int]);
            assert(all.skip(i as int).drop_first() =~= all.skip(i + 1));
        }
        acc.insert(more.entries[i].0.clone(), more.entries[i].1.clone());
        i = i + 1;
    }
}

impl Default for Manifest {
    fn default() -> (r: Self)
        ensures
            r.dependencies is None,
    {
        Manifest { package: Package::default(), dependencies: None }
    }
}

impl Manifest {
    /// The manifest with its versions read. The version of the package is
    /// read first, then the dependencies in order; the first version that
    /// cannot be read is refused as an invalid identifier.
    pub fn try_from(value: ManifestPT) -> (r: Result<Manifest, FdmError>)
        ensures
            reads_as(value, r),
    {
        let ManifestPT { package, dependencies } = value;
        let package = match Package::try_from(package) {
            Ok(p) => p,
            Err(e) => {
                return Err(e);
            },
        };
        let dependencies = match dependencies {
            Some(declared) => {
                let ghost all = declared_view(declared@);
                let mut map: DependencyMap = OrderedMap::new();
                let mut i: usize = 0;
                assert(all.skip(0) =~= all);
                while i < declared.len()
                    invariant
                        i <= declared.len(),
                        all == declared_view(declared@),
                        value.dependencies == Some(declared),
                        requests_of_declared(all, Seq::empty()) == requests_of_declared(
                            all.skip(i as int),
                            map@,
                        ),
                    decreases declared.len() - i,
                {
                    proof {
                        assert(all.skip(i as int)[0] == all[i as int]);
                        assert(all.skip(i as int).drop_first() =~= all.skip(i + 1));
                    }
                    let request = match declared[i].1.request() {
                        Ok(d) => d,
                        Err(e) => {
                            return Err(e);
                        },
                    };
                    map.insert(declared[i].0.clone(), request);
                    i = i + 1;
                }
                Some(map)
            },
            None => None,
        };
        Ok(Manifest { package, dependencies })
    }

    /// The manifest of the project, from what was found in its directory.
    /// A project without a manifest is reported as such.
    pub fn seek(found: Option<ManifestPT>) -> (r: Result<Manifest, FdmError>)
        ensures
            match found {
                Some(value) => reads_as(value, r),
                None => r == Err::<Manifest, FdmError>(FdmError::ManifestNotFound),
            },
    {
        match found {
            Some(value) => Manifest::try_from(value),
            None => Err(FdmError::ManifestNotFound),
        }
    }

    /// Every request that the project needs staged, in the order in which
    /// it is to be staged: the direct dependencies, then all that each of
    /// them resolves to in the registry. A manifest without dependencies
    /// needs nothing.
    pub fn download_dependencies(&self, registry: &Registry) -> (r: DependencyMap)
        ensures
            r@ == match self.dependencies {
                Some(direct) => dependency_tree(registry@.index, direct@),
                None => Seq::empty(),
            },
    {
        let direct = match &self.dependencies {
            Some(d) => d,
            None => {
                return OrderedMap::new();
            },
        };
        let ghost index = registry@.index;
        let ghost all = direct@;
        let mut tree: DependencyMap = OrderedMap::new();
        extend(&mut tree, direct);
        let mut i: usize = 0;
        assert(all.skip(0) =~= all);
        while i < direct.entries.len()
            invariant
                i <= direct.entries.len(),
                all == direct@,
                index == registry@.index,
                dependency_tree(index, all) == closure_onto(index, all.skip(i as int), tree@),
            decreases direct.entries.len() - i,
        {
            proof {
                assert(all.skip(i as int)[0] == all[i as int]);
                assert(all.skip(i as int).drop_first() =~= all.skip(i + 1));
            }
            let resolved = registry.get_recursively(
                direct.entries[i].0.as_str(),
                &direct.entries[i].1,
            );
            extend(&mut tree, &resolved);
            i = i + 1;
        }
        tree
    }
}

} // verus!
