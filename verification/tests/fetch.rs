use fdm::error::FdmError;
use fdm::fetch::{progress, staging_path, Fetch, FetchAction, FetchEvent, Phase};
use fdm::registry::Registry;
use fdm::types::dependencies::Dependency;
use fdm::types::distribution::Distribution;
use fdm::types::platform::PlatformArch;
use fdm::types::version::Version;

const ZLIB: &str = "1.2.11:\n  source: \"https://example/zlib.tar.gz\"\n  static:\n    linux-x64: \"https://example/zlib-linux.a\"\n";

fn registry() -> Registry {
    let mut registry = Registry::new(String::from("fdm/reg"), PlatformArch::LinuxX64);
    registry.init_registry(&vec![(String::from("zlib"), ZLIB.to_string())]).unwrap();
    registry
}

fn request(distribution: Distribution, arch: Option<PlatformArch>) -> Dependency {
    Dependency { version: Version::new(1, 2, 11), distribution, arch }
}

/// Stands for the disk and the network: it remembers which directories are
/// there and counts what was asked of it.
struct World {
    directories: Vec<String>,
    requests: Vec<String>,
    unpacked: usize,
    status: u16,
    chunks: Vec<u64>,
    length: Option<u64>,
    unpack_fails: bool,
    positions: Vec<u64>,
}

impl World {
    fn new() -> World {
        World {
            directories: Vec::new(),
            requests: Vec::new(),
            unpacked: 0,
            status: 200,
            chunks: vec![4, 4, 2],
            length: Some(10),
            unpack_fails: false,
            positions: Vec::new(),
        }
    }
}

fn materialize(world: &mut World, registry: &Registry, name: &str, dependency: &Dependency) -> Result<String, FdmError> {
    let mut state = Fetch::new();
    let mut event = FetchEvent::Begin;
    let mut next_chunk = 0;
    loop {
        let (next, action) = dependency.download_from_registry(name, registry, state, event);
        state = next;
        event = match action {
            FetchAction::Probe { directory } => {
                FetchEvent::Cache { present: world.directories.contains(&directory), empty: false }
            }
            FetchAction::Download { url, directory, archive } => {
                assert_eq!(archive, format!("{}/archive.tar.gz", directory));
                world.requests.push(url);
                if !world.directories.contains(&directory) {
                    world.directories.push(directory);
                }
                FetchEvent::Response { status: world.status, length: world.length }
            }
            FetchAction::Receive { position } => {
                world.positions.push(position);
                if next_chunk < world.chunks.len() {
                    next_chunk += 1;
                    FetchEvent::Chunk { len: world.chunks[next_chunk - 1] }
                } else {
                    FetchEvent::EndOfStream
                }
            }
            FetchAction::Unpack { archive, target, strip } => {
                assert_eq!(strip, 1);
                assert!(archive.ends_with(".partial/archive.tar.gz"));
                assert_eq!(target, staging_path(name));
                if world.unpack_fails {
                    FetchEvent::UnpackFailed
                } else {
                    world.unpacked += 1;
                    FetchEvent::Unpacked
                }
            }
            FetchAction::Publish { from, to } => {
                assert_eq!(from, format!("{}.partial", to));
                world.directories.retain(|d| d != &from);
                world.directories.push(to);
                FetchEvent::Published
            }
            FetchAction::Done { staged } => {
                assert!(state.is_over());
                assert_eq!(state.phase, Phase::Finished);
                return Ok(staged);
            }
            FetchAction::Fail { error } => {
                assert!(state.is_over());
                assert_eq!(state.phase, Phase::Failed);
                return Err(error);
            }
        };
    }
}

#[test]
fn materialize_twice_asks_the_network_once() {
    let registry = registry();
    let mut world = World::new();
    let dependency = request(Distribution::Static, None);
    let first = materialize(&mut world, &registry, "zlib", &dependency).unwrap();
    let second = materialize(&mut world, &registry, "zlib", &dependency).unwrap();
    assert_eq!(first, "fdm/pack/libs/zlib");
    assert_eq!(second, first);
    assert_eq!(world.requests, vec!["https://example/zlib-linux.a"]);
    assert_eq!(world.unpacked, 1);
    assert_eq!(world.directories, vec!["fdm/cache/zlib_static_1.2.11_linux-x64"]);
    assert_eq!(world.positions, vec![0, 4, 8, 10]);
}

#[test]
fn requests_with_different_keys_have_different_cache_entries() {
    let registry = registry();
    let mut world = World::new();
    materialize(&mut world, &registry, "zlib", &request(Distribution::Static, None)).unwrap();
    materialize(&mut world, &registry, "zlib", &request(Distribution::Sources, None)).unwrap();
    materialize(&mut world, &registry, "zlib", &request(Distribution::Static, Some(PlatformArch::LinuxX64))).unwrap();
    assert_eq!(
        world.requests,
        vec!["https://example/zlib-linux.a", "https://example/zlib.tar.gz"]
    );
    assert_eq!(
        world.directories,
        vec![
            "fdm/cache/zlib_static_1.2.11_linux-x64",
            "fdm/cache/zlib_sources_1.2.11_linux-x64"
        ]
    );
}

#[test]
fn a_request_that_the_index_lacks_is_not_found_without_a_download() {
    let registry = registry();
    let mut world = World::new();
    let dependency = request(Distribution::Static, Some(PlatformArch::WindowsX64));
    assert_eq!(
        materialize(&mut world, &registry, "zlib", &dependency),
        Err(FdmError::DependencyNotFound)
    );
    assert!(world.requests.is_empty());
    assert!(world.directories.is_empty());
}

#[test]
fn a_status_of_failure_fails_the_download_and_leaves_no_entry() {
    let registry = registry();
    for status in [404u16, 500, 199, 300, 301, 0, 65535] {
        let mut world = World::new();
        world.status = status;
        let dependency = request(Distribution::Static, None);
        assert_eq!(
            materialize(&mut world, &registry, "zlib", &dependency),
            Err(FdmError::DownloadFailed),
            "{}",
            status
        );
        assert_eq!(world.requests.len(), 1);
        assert_eq!(world.unpacked, 0);
        assert_eq!(world.directories, vec!["fdm/cache/zlib_static_1.2.11_linux-x64.partial"]);
        world.status = 200;
        assert!(materialize(&mut world, &registry, "zlib", &dependency).is_ok());
        assert_eq!(world.requests.len(), 2);
    }
}

#[test]
fn every_status_of_success_is_accepted() {
    let registry = registry();
    for status in [200u16, 201, 204, 299] {
        let mut world = World::new();
        world.status = status;
        assert!(materialize(&mut world, &registry, "zlib", &request(Distribution::Static, None)).is_ok());
    }
}

#[test]
fn an_archive_that_cannot_be_unpacked_fails_and_is_fetched_again() {
    let registry = registry();
    let mut world = World::new();
    world.unpack_fails = true;
    let dependency = request(Distribution::Sources, None);
    assert_eq!(
        materialize(&mut world, &registry, "zlib", &dependency),
        Err(FdmError::ExtractionFailed)
    );
    world.unpack_fails = false;
    assert_eq!(materialize(&mut world, &registry, "zlib", &dependency).unwrap(), "fdm/pack/libs/zlib");
    assert_eq!(world.requests.len(), 2);
}

#[test]
fn progress_never_shows_more_than_the_whole() {
    let registry = registry();
    let mut world = World::new();
    world.chunks = vec![6, 6, u64::MAX];
    world.length = None;
    materialize(&mut world, &registry, "zlib", &request(Distribution::Static, None)).unwrap();
    assert_eq!(world.positions, vec![0, 1, 1, 1]);
    assert_eq!(progress(0, 4, 10), 4);
    assert_eq!(progress(4, 6, 10), 10);
    assert_eq!(progress(4, 7, 10), 10);
    assert_eq!(progress(u64::MAX - 1, 5, u64::MAX), u64::MAX);
    assert_eq!(progress(20, 1, 10), 10);
    assert_eq!(progress(0, 0, 0), 0);
}

#[test]
fn a_broken_stream_fails_the_download() {
    let registry = registry();
    let dependency = request(Distribution::Static, None);
    let streaming = Fetch { phase: Phase::Streaming, downloaded: 3, total: 10 };
    let (state, action) = dependency.download_from_registry("zlib", &registry, streaming, FetchEvent::Broken);
    assert_eq!(state, Fetch { phase: Phase::Failed, downloaded: 3, total: 10 });
    assert_eq!(action, FetchAction::Fail { error: FdmError::DownloadFailed });
    let requesting = Fetch { phase: Phase::Requesting, downloaded: 0, total: 0 };
    let (state, action) = dependency.download_from_registry("zlib", &registry, requesting, FetchEvent::Broken);
    assert_eq!(state.phase, Phase::Failed);
    assert_eq!(action, FetchAction::Fail { error: FdmError::DownloadFailed });
}

#[test]
fn an_event_that_the_phase_does_not_wait_for_fails_the_run() {
    let registry = registry();
    let dependency = request(Distribution::Static, None);
    let cases = [
        (Phase::Idle, FetchEvent::EndOfStream),
        (Phase::Probing, FetchEvent::Begin),
        (Phase::Streaming, FetchEvent::Unpacked),
        (Phase::Extracting, FetchEvent::Published),
        (Phase::Publishing, FetchEvent::Unpacked),
        (Phase::Finished, FetchEvent::Begin),
        (Phase::Failed, FetchEvent::Begin),
    ];
    for (phase, event) in cases {
        let state = Fetch { phase, downloaded: 1, total: 2 };
        let (next, action) = dependency.download_from_registry("zlib", &registry, state, event);
        assert_eq!(next, Fetch { phase: Phase::Failed, downloaded: 1, total: 2 });
        assert_eq!(action, FetchAction::Fail { error: FdmError::DownloadFailed });
    }
}

#[test]
fn an_empty_cache_directory_is_no_hit() {
    let registry = registry();
    let dependency = request(Distribution::Static, None);
    let probing = Fetch { phase: Phase::Probing, downloaded: 0, total: 0 };
    let (state, action) = dependency.download_from_registry(
        "zlib",
        &registry,
        probing,
        FetchEvent::Cache { present: true, empty: true },
    );
    assert_eq!(state.phase, Phase::Requesting);
    assert_eq!(
        action,
        FetchAction::Download {
            url: String::from("https://example/zlib-linux.a"),
            directory: String::from("fdm/cache/zlib_static_1.2.11_linux-x64.partial"),
            archive: String::from("fdm/cache/zlib_static_1.2.11_linux-x64.partial/archive.tar.gz"),
        }
    );
    let (state, action) = dependency.download_from_registry(
        "zlib",
        &registry,
        probing,
        FetchEvent::Cache { present: true, empty: false },
    );
    assert_eq!(state.phase, Phase::Finished);
    assert_eq!(action, FetchAction::Done { staged: String::from("fdm/pack/libs/zlib") });
}

#[test]
fn cache_key_joins_name_distribution_version_and_platform() {
    let d = request(Distribution::Static, None);
    assert_eq!(d.cache_key("zlib", PlatformArch::LinuxX64), "zlib_static_1.2.11_linux-x64");
    assert_eq!(d.cache_key("zlib", PlatformArch::Unknown), "zlib_static_1.2.11_unknown");
    let pinned = request(Distribution::Shared, Some(PlatformArch::WindowsX32));
    assert_eq!(pinned.cache_key("zlib", PlatformArch::LinuxX64), "zlib_shared_1.2.11_windows-x32");
    let sources = Dependency {
        version: Version::parse("2.0-rc1").unwrap(),
        distribution: Distribution::Sources,
        arch: Some(PlatformArch::Any),
    };
    assert_eq!(sources.cache_key("lib png", PlatformArch::Android), "lib png_sources_2.0.0-rc1_any");
    assert_eq!(sources.cache_path("png", PlatformArch::Android), "fdm/cache/png_sources_2.0.0-rc1_any");
    assert_eq!(
        sources.partial_path("png", PlatformArch::Android),
        "fdm/cache/png_sources_2.0.0-rc1_any.partial"
    );
    assert_eq!(
        sources.archive_path("png", PlatformArch::Android),
        "fdm/cache/png_sources_2.0.0-rc1_any.partial/archive.tar.gz"
    );
    assert_eq!(d.arch_on(PlatformArch::Android), PlatformArch::Android);
    assert_eq!(pinned.arch_on(PlatformArch::Android), PlatformArch::WindowsX32);
}

#[test]
fn requests_for_names_with_underscores_have_cache_entries_of_their_own() {
    let a = Dependency {
        version: Version::parse("2.0.0").unwrap(),
        distribution: Distribution::Shared,
        arch: Some(PlatformArch::Any),
    };
    let b = Dependency {
        version: Version::parse("1.0.0-x").unwrap(),
        distribution: Distribution::Static,
        arch: Some(PlatformArch::Any),
    };
    assert_eq!(
        a.cache_path("p_static_1.0.0-x", PlatformArch::Any),
        "fdm/cache/p_static_1.0.0-x_shared_2.0.0_any"
    );
    assert_eq!(b.cache_path("p", PlatformArch::Any), "fdm/cache/p_static_1.0.0-x_any");
    assert!(Version::parse("1.0.0-x_shared_2.0.0").is_err());
}

#[test]
fn request_to_string_shows_version_distribution_and_platform() {
    assert_eq!(request(Distribution::Static, None).to_string(), "1.2.11 (static/unknown)");
    assert_eq!(
        request(Distribution::Sources, Some(PlatformArch::Any)).to_string(),
        "1.2.11 (sources/any)"
    );
    assert_eq!(Dependency::default().to_string(), "0.0.0 (unknown/unknown)");
}

#[test]
fn requests_are_the_same_when_all_parts_are() {
    let a = request(Distribution::Static, None);
    assert!(a.same(&request(Distribution::Static, None)));
    assert!(!a.same(&request(Distribution::Shared, None)));
    assert!(!a.same(&request(Distribution::Static, Some(PlatformArch::LinuxX64))));
    assert!(!a.same(&Dependency { version: Version::new(1, 2, 12), distribution: Distribution::Static, arch: None }));
    assert_eq!(a.clone(), a);
}
