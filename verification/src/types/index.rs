//! The index of one package: what each of its versions offers and needs.

use vstd::prelude::*;
use crate::ordered_map::OrderedMap;
use crate::types::dependencies::{DependencyMap, DependencyView};
use crate::types::descriptor::PlatformUrls;
use crate::types::distribution::Distribution;
use crate::types::platform::PlatformArch;
use crate::types::version::{Version, VersionView};

verus! {

/// What one version of a package offers, by distribution and platform,
/// and what it depends on.
#[derive(Debug)]
pub struct Descriptor {
    pub distribution: OrderedMap<Distribution, PlatformUrls>,
    pub dependencies: DependencyMap,
}

/// What a [`Descriptor`] stands for.
pub struct DescriptorView {
    pub distribution: Seq<(Distribution, Seq<(PlatformArch, Seq<char>)>)>,
    pub dependencies: Seq<(Seq<char>, DependencyView)>,
}

impl View for Descriptor {
    type V = DescriptorView;

    open spec fn view(&self) -> DescriptorView {
        DescriptorView { distribution: self.distribution@, dependencies: self.dependencies@ }
    }
}

/// The versions of one package, each with its descriptor.
#[derive(Debug)]
pub struct RegistryIndex {
    pub versions: OrderedMap<Version, Descriptor>,
}

impl View for RegistryIndex {
    type V = Seq<(VersionView, DescriptorView)>;

    open spec fn view(&self) -> Seq<(VersionView, DescriptorView)> {
        self.versions@
    }
}

impl Default for RegistryIndex {
    fn default() -> (r: Self)
        ensures
            r@ == Seq::<(VersionView, DescriptorView)>::empty(),
    {
        RegistryIndex { versions: OrderedMap::new() }
    }
}

impl Default for Descriptor {
    fn default() -> (r: Self)
        ensures
            r@ == (DescriptorView { distribution: Seq::empty(), dependencies: Seq::empty() }),
    {
        Descriptor { distribution: OrderedMap::new(), dependencies: OrderedMap::new() }
    }
}

} // verus!
