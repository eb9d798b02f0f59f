//! What holds of every lookup in the index.

use vstd::prelude::*;
use crate::ordered_map::{assoc_get, lemma_position_from, position_from};
use crate::registry::documents::{descriptor_wf, urls_fit, versions_wf};
use crate::registry::registry::{contains_request, url_of_request, urls_in, IndexView};
use crate::registry::sync::index_wf;
use crate::types::dependencies::{resolved_arch, DependencyView};
use crate::types::distribution::Distribution;
use crate::types::platform::PlatformArch;

verus! {

/// Where the index has the sources of a package at a version, it can
/// serve a request for them whatever platform the request names and
/// whatever the host is, and the location that it gives is the one that
/// it holds under `Any`.
pub proof fn lemma_sources_on_every_platform(
    index: IndexView,
    name: Seq<char>,
    request: DependencyView,
    arch: Option<PlatformArch>,
    host: PlatformArch,
)
    requires
        request.distribution == Distribution::Sources,
        urls_in(index, name, request) is Some,
    ensures
        contains_request(
            index,
            name,
            DependencyView { version: request.version, distribution: Distribution::Sources, arch },
            host,
        ),
        url_of_request(
            index,
            name,
            DependencyView { version: request.version, distribution: Distribution::Sources, arch },
            host,
        ) == assoc_get(urls_in(index, name, request)->0, PlatformArch::Any),
{
}

/// Where the index has a distribution other than the sources, but not
/// for the platform that a request resolves to, it cannot serve the
/// request and has no location for it.
pub proof fn lemma_missing_platform_is_not_found(
    index: IndexView,
    name: Seq<char>,
    request: DependencyView,
    host: PlatformArch,
)
    requires
        request.distribution != Distribution::Sources,
        urls_in(index, name, request) is Some,
        assoc_get(urls_in(index, name, request)->0, resolved_arch(request, host)) is None,
    ensures
        !contains_request(index, name, request, host),
        url_of_request(index, name, request, host) is None,
{
}

/// In an index that is as the registry keeps it, a request has a location
/// exactly when the index can serve it.
pub proof fn lemma_located_iff_contained(
    index: IndexView,
    name: Seq<char>,
    request: DependencyView,
    host: PlatformArch,
)
    requires
        index_wf(index),
    ensures
        url_of_request(index, name, request, host) is Some <==> contains_request(
            index,
            name,
            request,
            host,
        ),
{
    if urls_in(index, name, request) is Some && request.distribution == Distribution::Sources {
        lemma_position_from(index, name, 0);
        let versions = index[position_from(index, name, 0)].1;
        assert(versions_wf(versions));
        lemma_position_from(versions, request.version, 0);
        let d = versions[position_from(versions, request.version, 0)].1;
        assert(descriptor_wf(d));
        lemma_position_from(d.distribution, request.distribution, 0);
        let entry = d.distribution[position_from(d.distribution, request.distribution, 0)];
        assert(urls_fit(entry));
        let urls = entry.1;
        assert(urls[0].0 == PlatformArch::Any);
        assert(position_from(urls, PlatformArch::Any, 0) == 0);
    }
}

} // verus!
