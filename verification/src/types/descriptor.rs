//! The download locations of one distribution.

use vstd::prelude::*;
use crate::ordered_map::OrderedMap;
use crate::types::distribution::Distribution;
use crate::types::platform::PlatformArch;

verus! {

/// The download locations of a distribution, one for each platform that
/// it was built for.
pub type PlatformUrls = OrderedMap<PlatformArch, String>;

/// One distribution of a package with its download locations.
#[derive(Debug)]
pub struct Descriptor {
    pub distribution: Distribution,
    pub urls: PlatformUrls,
}

/// What a [`Descriptor`] stands for.
pub struct DescriptorView {
    pub distribution: Distribution,
    pub urls: Seq<(PlatformArch, Seq<char>)>,
}

impl View for Descriptor {
    type V = DescriptorView;

    open spec fn view(&self) -> DescriptorView {
        DescriptorView { distribution: self.distribution, urls: self.urls@ }
    }
}

impl Default for Descriptor {
    fn default() -> (r: Self)
        ensures
            r@ == (DescriptorView { distribution: Distribution::Unknown, urls: Seq::empty() }),
    {
        Descriptor { distribution: Distribution::Unknown, urls: OrderedMap::new() }
    }
}

} // verus!
