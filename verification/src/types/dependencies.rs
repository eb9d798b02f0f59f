//! Dependency requests: what a manifest or a descriptor asks for.

use vstd::prelude::*;
use vstd::string::*;
use crate::ordered_map::OrderedMap;
use crate::text::{decimal, is_digit, lemma_decimal, plain};
use crate::types::distribution::{
    distribution_text, lemma_distribution_text_reads_back, Distribution,
};
use crate::types::platform::{lemma_platform_text_reads_back, platform_text, PlatformArch};
use crate::types::version::{
    lemma_text_reads_back, version_text, version_valid, Version, VersionView,
};

verus! {

/// A request for one package: an exact version, a distribution and,
/// optionally, a platform. Without a platform the request is for the
/// platform of the host that resolves it.
#[derive(Debug, PartialEq, Eq)]
pub struct Dependency {
    pub version: Version,
    pub distribution: Distribution,
    pub arch: Option<PlatformArch>,
}

/// What a [`Dependency`] stands for.
pub struct DependencyView {
    pub version: VersionView,
    pub distribution: Distribution,
    pub arch: Option<PlatformArch>,
}

impl View for Dependency {
    type V = DependencyView;

    open spec fn view(&self) -> DependencyView {
        DependencyView {
            version: self.version@,
            distribution: self.distribution,
            arch: self.arch,
        }
    }
}

/// The requests of a package or of a manifest, each under the name of the
/// package that it asks for.
pub type DependencyMap = OrderedMap<String, Dependency>;

/// The request that a record without fields makes.
pub open spec fn default_request() -> DependencyView {
    DependencyView {
        version: VersionView { major: 0, minor: 0, patch: 0, qualifier: None },
        distribution: Distribution::Unknown,
        arch: None,
    }
}

/// The platform that a request is resolved for on a given host.
pub open spec fn resolved_arch(d: DependencyView, host: PlatformArch) -> PlatformArch {
    match d.arch {
        Some(a) => a,
        None => host,
    }
}

impl Clone for Dependency {
    fn clone(&self) -> (r: Self)
        ensures
            r == *self,
    {
        Dependency {
            version: self.version.clone(),
            distribution: self.distribution,
            arch: self.arch,
        }
    }
}

impl Default for Dependency {
    fn default() -> (r: Self)
        ensures
            r@ == default_request(),
    {
        Dependency { version: Version::default(), distribution: Distribution::Unknown, arch: None }
    }
}

impl Dependency {
    /// Whether the request can be held: its version can be written and
    /// read back.
    pub open spec fn valid(&self) -> bool {
        version_valid(self@.version)
    }

    /// Whether two requests ask for the same.
    pub fn same(&self, other: &Dependency) -> (r: bool)
        ensures
            r == (self@ == other@),
    {
        if !self.version.same(&other.version) {
            return false;
        }
        if self.distribution != other.distribution {
            return false;
        }
        match (self.arch, other.arch) {
            (Some(a), Some(b)) => a == b,
            (None, None) => true,
            _ => false,
        }
    }

    /// The platform that the request is resolved for on the given host.
    pub fn arch_on(&self, host: PlatformArch) -> (r: PlatformArch)
        ensures
            r == resolved_arch(self@, host),
    {
        match self.arch {
            Some(a) => a,
            None => host,
        }
    }
}

/// A copy of a map of requests.
pub fn clone_requests(map: &DependencyMap) -> (r: DependencyMap)
    ensures
        r@ == map@,
{
    let mut out: DependencyMap = OrderedMap { entries: Vec::new() };
    let mut i: usize = 0;
    while i < map.entries.len()
        invariant
            i <= map.entries.len(),
            out.entries@.len() == i,
            forall|j: int| 0 <= j < i ==> out.entries@[j] == map.entries@[j],
        decreases map.entries.len() - i,
    {
        let name = map.entries[i].0.clone();
        let request = map.entries[i].1.clone();
        out.entries.push((name, request));
        i = i + 1;
    }
    assert(out@ =~= map@);
    out
}

/// The text of a request: the version, then the distribution and the
/// platform in brackets; a request without a platform shows `unknown`.
pub open spec fn request_text(d: DependencyView) -> Seq<char> {
    version_text(d.version) + " ("@ + distribution_text(d.distribution) + "/"@ + platform_text(
        match d.arch {
            Some(a) => a,
            None => PlatformArch::Unknown,
        },
    ) + ")"@
}

/// The name of the cache entry of a request for the package `name` on
/// `host`: the name, the distribution, the version and the platform that
/// the request resolves to, joined by `_`.
pub open spec fn cache_key_text(name: Seq<char>, d: DependencyView, host: PlatformArch) -> Seq<
    char,
> {
    name + "_"@ + distribution_text(d.distribution) + "_"@ + version_text(d.version) + "_"@
        + platform_text(resolved_arch(d, host))
}

/// The directory of the cache entry, from the working directory of the
/// project.
pub open spec fn cache_path_text(name: Seq<char>, d: DependencyView, host: PlatformArch) -> Seq<
    char,
> {
    "fdm/cache/"@ + cache_key_text(name, d, host)
}

impl Dependency {
    /// The text of the request.
    pub fn to_string(&self) -> (r: String)
        ensures
            r@ == request_text(self@),
    {
        let mut out = self.version.to_string();
        out.append(" (");
        out.append(self.distribution.to_string().as_str());
        out.append("/");
        let arch = match self.arch {
            Some(a) => a,
            None => PlatformArch::Unknown,
        };
        out.append(arch.to_string().as_str());
        out.append(")");
        out
    }

    /// The name of the cache entry of the request for the package `name`
    /// on `host`.
    pub fn cache_key(&self, name: &str, host: PlatformArch) -> (r: String)
        ensures
            r@ == cache_key_text(name@, self@, host),
            self.valid(),
    {
        let mut out = name.to_owned();
        out.append("_");
        out.append(self.distribution.to_string().as_str());
        out.append("_");
        out.append(self.version.to_string().as_str());
        out.append("_");
        out.append(self.arch_on(host).to_string().as_str());
        out
    }

    /// The directory of the cache entry of the request, from the working
    /// directory of the project.
    pub fn cache_path(&self, name: &str, host: PlatformArch) -> (r: String)
        ensures
            r@ == cache_path_text(name@, self@, host),
            self.valid(),
    {
        let mut out = String::from_str("fdm/cache/");
        out.append(self.cache_key(name, host).as_str());
        out
    }
}

/// Two texts that are each a part, then `_`, then a rest without `_`,
/// are the same only if the parts are and the rests are.
proof fn lemma_split_at_last_mark(x1: Seq<char>, y1: Seq<char>, x2: Seq<char>, y2: Seq<char>)
    requires
        plain(y1),
        plain(y2),
        x1 + seq!['_'] + y1 == x2 + seq!['_'] + y2,
    ensures
        x1 == x2,
        y1 == y2,
{
    let s = x1 + seq!['_'] + y1;
    let t = x2 + seq!['_'] + y2;
    assert(s.len() == x1.len() + 1 + y1.len());
    assert(t.len() == x2.len() + 1 + y2.len());
    if x1.len() < x2.len() {
        assert(t[x2.len() as int] == '_');
        assert(s[x2.len() as int] == y1[x2.len() - x1.len() - 1]);
    }
    if x2.len() < x1.len() {
        assert(s[x1.len() as int] == '_');
        assert(t[x1.len() as int] == y2[x1.len() - x2.len() - 1]);
    }
    assert(x1 =~= s.take(x1.len() as int));
    assert(x2 =~= t.take(x2.len() as int));
    assert(y1 =~= s.skip(x1.len() as int + 1));
    assert(y2 =~= t.skip(x2.len() as int + 1));
}

/// The tag of a platform holds no `_`.
proof fn lemma_platform_text_plain(p: PlatformArch)
    ensures
        plain(platform_text(p)),
{
    reveal_strlit("windows-x32");
    reveal_strlit("windows-x64");
    reveal_strlit("linux-x32");
    reveal_strlit("linux-x64");
    reveal_strlit("android");
    reveal_strlit("any");
    reveal_strlit("unknown");
}

/// The tag of a distribution holds no `_`.
proof fn lemma_distribution_text_plain(d: Distribution)
    ensures
        plain(distribution_text(d)),
{
    reveal_strlit("static");
    reveal_strlit("shared");
    reveal_strlit("sources");
    reveal_strlit("unknown");
}

/// The text of a version whose qualifier holds no `_` holds none.
proof fn lemma_version_text_plain(v: VersionView)
    requires
        v.qualifier matches Some(q) ==> plain(q),
    ensures
        plain(version_text(v)),
{
    let a = decimal(v.major);
    let b = decimal(v.minor);
    let c = decimal(v.patch);
    lemma_decimal(v.major);
    lemma_decimal(v.minor);
    lemma_decimal(v.patch);
    let core = a + seq!['.'] + b + seq!['.'] + c;
    assert forall|j: int| 0 <= j < core.len() implies core[j] != '_' by {
        if j < a.len() {
            assert(is_digit(a[j]));
        } else if j == a.len() {
        } else if j < a.len() + 1 + b.len() {
            assert(is_digit(b[j - a.len() - 1]));
        } else if j == a.len() + 1 + b.len() {
        } else {
            assert(is_digit(c[j - a.len() - b.len() - 2]));
        }
    }
    let t = version_text(v);
    match v.qualifier {
        Some(q) => {
            assert(t =~= core + seq!['-'] + q);
            assert forall|j: int| 0 <= j < t.len() implies t[j] != '_' by {
                if j < core.len() {
                    assert(t[j] == core[j]);
                } else if j > core.len() {
                    assert(t[j] == q[j - core.len() - 1]);
                }
            }
        },
        None => {
            assert(t =~= core);
        },
    }
}

/// The name of a cache entry, part by part.
proof fn lemma_cache_key_parts(name: Seq<char>, d: DependencyView, host: PlatformArch)
    ensures
        cache_key_text(name, d, host) == name + seq!['_'] + distribution_text(d.distribution)
            + seq!['_'] + version_text(d.version) + seq!['_'] + platform_text(
            resolved_arch(d, host),
        ),
{
    reveal_strlit("_");
    assert("_"@ =~= seq!['_']);
}

/// Two distributions with one tag are the same.
proof fn lemma_distribution_of_one_text(a: Distribution, b: Distribution)
    requires
        distribution_text(a) == distribution_text(b),
    ensures
        a == b,
{
    lemma_distribution_text_reads_back(a);
    lemma_distribution_text_reads_back(b);
}

/// Two platforms with one tag are the same.
proof fn lemma_platform_of_one_text(a: PlatformArch, b: PlatformArch)
    requires
        platform_text(a) == platform_text(b),
    ensures
        a == b,
{
    lemma_platform_text_reads_back(a);
    lemma_platform_text_reads_back(b);
}

/// Two versions with one text are the same.
proof fn lemma_version_of_one_text(a: VersionView, b: VersionView)
    requires
        version_valid(a),
        version_valid(b),
        version_text(a) == version_text(b),
    ensures
        a == b,
{
    lemma_text_reads_back(a);
    lemma_text_reads_back(b);
}

/// The names of cache entries do not collide: two requests with one
/// cache entry are for the same package, distribution, version and
/// platform, whatever the names of the packages hold.
pub proof fn lemma_cache_keys_do_not_collide(
    name1: Seq<char>,
    d1: DependencyView,
    host1: PlatformArch,
    name2: Seq<char>,
    d2: DependencyView,
    host2: PlatformArch,
)
    requires
        version_valid(d1.version),
        version_valid(d2.version),
        cache_key_text(name1, d1, host1) == cache_key_text(name2, d2, host2),
    ensures
        name1 == name2,
        d1.distribution == d2.distribution,
        d1.version == d2.version,
        resolved_arch(d1, host1) == resolved_arch(d2, host2),
{
    let dist1 = distribution_text(d1.distribution);
    let dist2 = distribution_text(d2.distribution);
    let ver1 = version_text(d1.version);
    let ver2 = version_text(d2.version);
    let arch1 = platform_text(resolved_arch(d1, host1));
    let arch2 = platform_text(resolved_arch(d2, host2));
    lemma_cache_key_parts(name1, d1, host1);
    lemma_cache_key_parts(name2, d2, host2);
    lemma_distribution_text_plain(d1.distribution);
    lemma_distribution_text_plain(d2.distribution);
    lemma_version_text_plain(d1.version);
    lemma_version_text_plain(d2.version);
    lemma_platform_text_plain(resolved_arch(d1, host1));
    lemma_platform_text_plain(resolved_arch(d2, host2));
    lemma_split_at_last_mark(
        name1 + seq!['_'] + dist1 + seq!['_'] + ver1,
        arch1,
        name2 + seq!['_'] + dist2 + seq!['_'] + ver2,
        arch2,
    );
    lemma_split_at_last_mark(
        name1 + seq!['_'] + dist1,
        ver1,
        name2 + seq!['_'] + dist2,
        ver2,
    );
    lemma_split_at_last_mark(name1, dist1, name2, dist2);
    lemma_distribution_of_one_text(d1.distribution, d2.distribution);
    lemma_version_of_one_text(d1.version, d2.version);
    lemma_platform_of_one_text(resolved_arch(d1, host1), resolved_arch(d2, host2));
}

/// The directories of cache entries do not collide either.
pub proof fn lemma_cache_paths_do_not_collide(
    name1: Seq<char>,
    d1: DependencyView,
    host1: PlatformArch,
    name2: Seq<char>,
    d2: DependencyView,
    host2: PlatformArch,
)
    requires
        version_valid(d1.version),
        version_valid(d2.version),
        cache_path_text(name1, d1, host1) == cache_path_text(name2, d2, host2),
    ensures
        name1 == name2,
        d1.distribution == d2.distribution,
        d1.version == d2.version,
        resolved_arch(d1, host1) == resolved_arch(d2, host2),
{
    let k1 = cache_key_text(name1, d1, host1);
    let k2 = cache_key_text(name2, d2, host2);
    let root = "fdm/cache/"@;
    assert(k1 =~= (root + k1).skip(root.len() as int));
    assert(k2 =~= (root + k2).skip(root.len() as int));
    lemma_cache_keys_do_not_collide(name1, d1, host1, name2, d2, host2);
}

} // verus!
