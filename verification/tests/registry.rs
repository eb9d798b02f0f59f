use fdm::error::FdmError;
use fdm::ordered_map::OrderedMap;
use fdm::registry::documents::Fault;
use fdm::registry::git::clone_repo;
use fdm::registry::sync::{DocumentFault, SyncStep};
use fdm::registry::registry::MissingDependency;
use fdm::registry::Registry;
use fdm::types::dependencies::Dependency;
use fdm::types::distribution::Distribution;
use fdm::types::platform::PlatformArch;
use fdm::types::version::Version;
use fdm::urls::parse_url;
use fdm::yaml::{check_nesting, load_documents, YamlNode};

const ZLIB: &str = "1.2.11:\n  source: \"https://example/zlib.tar.gz\"\n  static:\n    linux-x64: \"https://example/zlib-linux.a\"\n";

fn request(version: &str, distribution: Distribution, arch: Option<PlatformArch>) -> Dependency {
    Dependency { version: Version::parse(version).unwrap(), distribution, arch }
}

fn registry_of(documents: &[(&str, &str)], platform: PlatformArch) -> Registry {
    let mut registry = Registry::new(String::from("fdm/reg"), platform);
    let documents: Vec<(String, String)> =
        documents.iter().map(|(n, t)| (n.to_string(), t.to_string())).collect();
    registry.init_registry(&documents).unwrap();
    registry
}

fn text(s: &str) -> YamlNode {
    YamlNode::Text(s.to_string())
}

#[test]
fn load_documents_reads_tables_lists_and_text() {
    let docs = load_documents("a: b\nc:\n  - d\n  - e: f\n").unwrap();
    assert_eq!(
        docs,
        vec![YamlNode::Table(vec![
            (text("a"), text("b")),
            (
                text("c"),
                YamlNode::List(vec![text("d"), YamlNode::Table(vec![(text("e"), text("f"))])])
            ),
        ])]
    );
}

#[test]
fn load_documents_keeps_only_strings_as_text() {
    let docs = load_documents("- 1.0\n- 7\n- true\n- ~\n- \"1.0\"\n- 1.2.11\n").unwrap();
    assert_eq!(
        docs,
        vec![YamlNode::List(vec![
            YamlNode::Other,
            YamlNode::Other,
            YamlNode::Other,
            YamlNode::Other,
            text("1.0"),
            text("1.2.11"),
        ])]
    );
}

#[test]
fn load_documents_reads_every_document_of_a_stream() {
    let docs = load_documents("a: b\n---\nc: d\n").unwrap();
    assert_eq!(
        docs,
        vec![
            YamlNode::Table(vec![(text("a"), text("b"))]),
            YamlNode::Table(vec![(text("c"), text("d"))]),
        ]
    );
    assert_eq!(load_documents("").unwrap(), Vec::<YamlNode>::new());
}

#[test]
fn load_documents_refuses_broken_text() {
    assert!(matches!(load_documents("a: [b"), Err(FdmError::MalformedIndexDocument)));
    assert!(matches!(load_documents("a: \"b"), Err(FdmError::MalformedIndexDocument)));
}

#[test]
fn parse_url_gives_the_normal_form() {
    assert_eq!(parse_url("https://example/zlib.tar.gz").unwrap(), "https://example/zlib.tar.gz");
    assert_eq!(parse_url("HTTPS://Example.COM").unwrap(), "https://example.com/");
    assert_eq!(parse_url("http://example.com:80/a/../b").unwrap(), "http://example.com/b");
}

#[test]
fn parse_url_refuses_what_is_no_absolute_url() {
    assert!(matches!(parse_url("not a url"), Err(FdmError::MalformedIndexDocument)));
    assert!(matches!(parse_url("/relative/path"), Err(FdmError::MalformedIndexDocument)));
    assert!(matches!(parse_url(""), Err(FdmError::MalformedIndexDocument)));
    assert!(matches!(parse_url("https://exa mple.com/"), Err(FdmError::MalformedIndexDocument)));
}

#[test]
fn get_returns_source_url_regardless_of_arch() {
    let registry = registry_of(&[("zlib", ZLIB)], PlatformArch::LinuxX64);
    for arch in [
        None,
        Some(PlatformArch::LinuxX64),
        Some(PlatformArch::WindowsX64),
        Some(PlatformArch::Any),
        Some(PlatformArch::Unknown),
    ] {
        let r = request("1.2.11", Distribution::Sources, arch);
        assert!(registry.contains("zlib", &r));
        assert_eq!(registry.get("zlib", &r).unwrap(), "https://example/zlib.tar.gz");
    }
}

#[test]
fn get_returns_static_url_for_listed_platform() {
    let registry = registry_of(&[("zlib", ZLIB)], PlatformArch::WindowsX64);
    let r = request("1.2.11", Distribution::Static, Some(PlatformArch::LinuxX64));
    assert!(registry.contains("zlib", &r));
    assert_eq!(registry.get("zlib", &r).unwrap(), "https://example/zlib-linux.a");
}

#[test]
fn get_fails_for_platform_that_is_not_listed() {
    let registry = registry_of(&[("zlib", ZLIB)], PlatformArch::LinuxX64);
    let r = request("1.2.11", Distribution::Static, Some(PlatformArch::WindowsX64));
    assert!(!registry.contains("zlib", &r));
    assert_eq!(registry.get("zlib", &r).unwrap_err().error(), FdmError::DependencyNotFound);
    let any = request("1.2.11", Distribution::Static, Some(PlatformArch::Any));
    assert!(!registry.contains("zlib", &any));
    assert_eq!(registry.get("zlib", &any).unwrap_err().error(), FdmError::DependencyNotFound);
}

#[test]
fn a_missing_request_is_reported_with_what_was_looked_for() {
    let registry = registry_of(&[("zlib", ZLIB)], PlatformArch::WindowsX64);
    assert_eq!(
        registry.get("zlib", &request("1.2.11", Distribution::Static, None)),
        Err(MissingDependency {
            name: String::from("zlib"),
            version: Version::new(1, 2, 11),
            distribution: Distribution::Static,
            arch: PlatformArch::WindowsX64,
        })
    );
    assert_eq!(
        registry.get("png", &request("1.6-rc", Distribution::Sources, Some(PlatformArch::LinuxX32))),
        Err(MissingDependency {
            name: String::from("png"),
            version: Version::parse("1.6.0-rc").unwrap(),
            distribution: Distribution::Sources,
            arch: PlatformArch::Any,
        })
    );
    assert_eq!(
        registry.get("zlib", &request("1.2.11", Distribution::Shared, Some(PlatformArch::Android))),
        Err(MissingDependency {
            name: String::from("zlib"),
            version: Version::new(1, 2, 11),
            distribution: Distribution::Shared,
            arch: PlatformArch::Android,
        })
    );
}

#[test]
fn request_without_arch_is_resolved_for_the_platform_of_the_registry() {
    let r = request("1.2.11", Distribution::Static, None);
    let on_linux = registry_of(&[("zlib", ZLIB)], PlatformArch::LinuxX64);
    assert!(on_linux.contains("zlib", &r));
    assert_eq!(on_linux.get("zlib", &r).unwrap(), "https://example/zlib-linux.a");
    let on_windows = registry_of(&[("zlib", ZLIB)], PlatformArch::WindowsX64);
    assert!(!on_windows.contains("zlib", &r));
    assert_eq!(on_windows.get("zlib", &r).unwrap_err().error(), FdmError::DependencyNotFound);
}

#[test]
fn lookup_misses_on_every_level() {
    let registry = registry_of(&[("zlib", ZLIB)], PlatformArch::LinuxX64);
    let cases = [
        ("zlibx", request("1.2.11", Distribution::Sources, None)),
        ("zlib", request("1.2.12", Distribution::Sources, None)),
        ("zlib", request("1.2.11-rc", Distribution::Sources, None)),
        ("zlib", request("1.2.11", Distribution::Shared, Some(PlatformArch::LinuxX64))),
        ("zlib", request("1.2.11", Distribution::Unknown, Some(PlatformArch::LinuxX64))),
    ];
    for (name, r) in cases.iter() {
        assert!(!registry.contains(name, r));
        assert_eq!(registry.get(name, r).unwrap_err().error(), FdmError::DependencyNotFound);
    }
}

#[test]
fn version_lookup_is_exact_but_ignores_how_the_version_was_written() {
    let registry = registry_of(
        &[("pkg", "\"1.0\":\n  source: \"https://example/pkg.tar.gz\"\n")],
        PlatformArch::LinuxX64,
    );
    assert!(registry.contains("pkg", &request("1.0.0", Distribution::Sources, None)));
    assert!(registry.contains("pkg", &request("1", Distribution::Sources, None)));
    assert!(!registry.contains("pkg", &request("1.0.1", Distribution::Sources, None)));
}

#[test]
fn unknown_tags_are_kept_as_unknown_distribution() {
    let registry = registry_of(
        &[("pkg", "1.2.3:\n  wheel:\n    linux-x64: \"https://example/pkg.whl\"\n    beos: \"https://example/pkg-beos.whl\"\n")],
        PlatformArch::LinuxX64,
    );
    let r = request("1.2.3", Distribution::Unknown, None);
    assert_eq!(registry.get("pkg", &r).unwrap(), "https://example/pkg.whl");
    let beos = request("1.2.3", Distribution::Unknown, Some(PlatformArch::Unknown));
    assert_eq!(registry.get("pkg", &beos).unwrap(), "https://example/pkg-beos.whl");
}

#[test]
fn every_platform_of_a_distribution_is_kept() {
    let registry = registry_of(
        &[("pkg", "1.2.3:\n  shared:\n    linux-x64: \"https://example/l64.so\"\n    linux-x32: \"https://example/l32.so\"\n    windows-x64: \"https://example/w64.dll\"\n")],
        PlatformArch::LinuxX64,
    );
    let url = |arch| registry.get("pkg", &request("1.2.3", Distribution::Shared, Some(arch))).unwrap();
    assert_eq!(url(PlatformArch::LinuxX64), "https://example/l64.so");
    assert_eq!(url(PlatformArch::LinuxX32), "https://example/l32.so");
    assert_eq!(url(PlatformArch::WindowsX64), "https://example/w64.dll");
}

#[test]
fn urls_are_stored_in_normal_form() {
    let registry = registry_of(
        &[("pkg", "1.2.3:\n  source: \"HTTPS://Example.COM/a/../pkg.tar.gz\"\n")],
        PlatformArch::LinuxX64,
    );
    let r = request("1.2.3", Distribution::Sources, None);
    assert_eq!(registry.get("pkg", &r).unwrap(), "https://example.com/pkg.tar.gz");
}

#[test]
fn init_registry_reads_dependencies() {
    let registry = registry_of(
        &[("app", "1.0.0:\n  dependencies:\n    - libA:\n        version: \"1.0\"\n        distribution: static\n    - libB:\n        distribution: src\n")],
        PlatformArch::LinuxX64,
    );
    let deps = registry.get_indirect_dependencies("app", &request("1.0.0", Distribution::Static, None));
    assert_eq!(deps.entries.len(), 2);
    assert_eq!(deps.entries[0].0, "libA");
    assert_eq!(deps.entries[0].1, request("1.0", Distribution::Static, None));
    assert_eq!(deps.entries[1].0, "libB");
    assert_eq!(deps.entries[1].1, request("0.0.0", Distribution::Sources, None));
}

#[test]
fn get_indirect_dependencies_is_empty_for_what_the_index_lacks() {
    let registry = registry_of(&[("zlib", ZLIB)], PlatformArch::LinuxX64);
    let r = request("1.2.11", Distribution::Sources, None);
    assert!(registry.get_indirect_dependencies("zlib", &r).is_empty());
    assert!(registry.get_indirect_dependencies("nothing", &r).is_empty());
    let other = request("9.9.9", Distribution::Sources, None);
    assert!(registry.get_indirect_dependencies("zlib", &other).is_empty());
}

#[test]
fn malformed_document_fails_sync_and_installs_nothing() {
    let mut registry = registry_of(&[("zlib", ZLIB)], PlatformArch::LinuxX64);
    let good = String::from("1.0.0:\n  source: \"https://example/good.tar.gz\"\n");
    let bad = String::from(
        "1.0.0:\n  dependencies:\n    - libA:\n        version: \"1.0\"\n        foo: bar\n",
    );
    let documents = vec![
        (String::from("good"), good),
        (String::from("bad"), bad),
        (String::from("worse"), String::from("latest: {}\n")),
    ];
    assert_eq!(
        registry.init_registry(&documents),
        Err(DocumentFault {
            package: String::from("bad"),
            version: Some(String::from("1.0.0")),
            field: Some(String::from("dependencies")),
            error: FdmError::MalformedIndexDocument
        })
    );
    assert_eq!(registry.index.entries.len(), 1);
    assert_eq!(registry.index.entries[0].0, "zlib");
    let r = request("1.2.11", Distribution::Sources, None);
    assert_eq!(registry.get("zlib", &r).unwrap(), "https://example/zlib.tar.gz");
    assert!(!registry.contains("good", &request("1.0.0", Distribution::Sources, None)));
}

#[test]
fn malformed_document_fails_first_sync_and_leaves_index_empty() {
    let mut registry = Registry::new(String::from("fdm/reg"), PlatformArch::LinuxX64);
    let bad = String::from("1.0.0:\n  dependencies:\n    - libA:\n        foo: bar\n");
    let documents = vec![(String::from("bad"), bad)];
    assert_eq!(
        registry.init_registry(&documents).unwrap_err().error,
        FdmError::MalformedIndexDocument
    );
    assert!(registry.index.is_empty());
    assert!(!registry.contains("bad", &request("1.0.0", Distribution::Sources, None)));
}

#[test]
fn sync_replaces_the_index_as_a_whole() {
    let mut registry = registry_of(&[("zlib", ZLIB)], PlatformArch::LinuxX64);
    let documents =
        vec![(String::from("png"), String::from("1.6.0:\n  source: \"https://example/png.tar.gz\"\n"))];
    registry.init_registry(&documents).unwrap();
    assert!(!registry.contains("zlib", &request("1.2.11", Distribution::Sources, None)));
    assert!(registry.contains("png", &request("1.6.0", Distribution::Sources, None)));
    assert_eq!(registry.path, "fdm/reg");
    assert_eq!(registry.platform, PlatformArch::LinuxX64);
}

fn sync_error(document: &str) -> Option<FdmError> {
    let mut registry = Registry::new(String::new(), PlatformArch::LinuxX64);
    registry
        .init_registry(&vec![(String::from("pkg"), document.to_string())])
        .err()
        .map(|fault| {
            assert_eq!(fault.package, "pkg");
            fault.error
        })
}

#[test]
fn schema_violations_are_malformed_documents() {
    let malformed = [
        "- a\n- b\n",
        "just text\n",
        "1.0.0: text\n",
        "1.0: {}\n",
        "7: {}\n",
        "1.0.0:\n  dependencies: text\n",
        "1.0.0:\n  dependencies:\n    - text\n",
        "1.0.0:\n  dependencies:\n    - libA: text\n",
        "1.0.0:\n  dependencies:\n    - libA:\n        version: 1.5\n",
        "1.0.0:\n  dependencies:\n    - libA:\n        arch: linux-x64\n",
        "1.0.0:\n  source:\n    any: \"https://example/a\"\n",
        "1.0.0:\n  source: \"not a url\"\n",
        "1.0.0:\n  static: \"https://example/a\"\n",
        "1.0.0:\n  static:\n    linux-x64: \"not a url\"\n",
        "1.0.0:\n  static:\n    linux-x64: 5\n",
        "1.0.0:\n  static:\n    any: \"https://example/a\"\n",
        "1.0.0:\n  sources:\n    linux-x64: \"https://example/a\"\n",
        "1.0.0:\n  7: text\n",
        "a: [b\n",
    ];
    for document in malformed {
        assert_eq!(sync_error(document), Some(FdmError::MalformedIndexDocument), "{:?}", document);
    }
}

#[test]
fn versions_that_cannot_be_read_are_invalid_identifiers() {
    let invalid = [
        "latest:\n  source: \"https://example/a\"\n",
        "1.2.3.4:\n  source: \"https://example/a\"\n",
        "1.0.0:\n  dependencies:\n    - libA:\n        version: newest\n",
    ];
    for document in invalid {
        assert_eq!(sync_error(document), Some(FdmError::InvalidIdentifier), "{:?}", document);
    }
}

#[test]
fn the_first_fault_decides_the_error() {
    assert_eq!(
        sync_error("1.0.0:\n  source: \"not a url\"\nlatest: {}\n"),
        Some(FdmError::MalformedIndexDocument)
    );
    assert_eq!(
        sync_error("latest: {}\n1.0.0:\n  source: \"not a url\"\n"),
        Some(FdmError::InvalidIdentifier)
    );
}

fn fault(document: &str) -> (Option<String>, Option<String>, FdmError) {
    let mut registry = Registry::new(String::new(), PlatformArch::LinuxX64);
    let fault = registry
        .init_registry(&vec![(String::from("pkg"), document.to_string())])
        .unwrap_err();
    assert_eq!(fault.package, "pkg");
    (fault.version, fault.field, fault.error)
}

fn at(version: Option<&str>, field: Option<&str>, error: FdmError) -> (Option<String>, Option<String>, FdmError) {
    (version.map(String::from), field.map(String::from), error)
}

#[test]
fn a_fault_names_the_version_and_the_field() {
    let bad = FdmError::MalformedIndexDocument;
    assert_eq!(
        fault("1.0.0: {dependencies: [{libB: {version: 2.0.0, foo: x}}]}"),
        at(Some("1.0.0"), Some("dependencies"), bad)
    );
    assert_eq!(
        fault("\"1.0\":\n  source: \"https://example/a\"\n\"2.0\":\n  static:\n    linux-x64: \"no url\"\n"),
        at(Some("2.0"), Some("static"), bad)
    );
    assert_eq!(
        fault("1.5.0-rc:\n  source: [a]\n"),
        at(Some("1.5.0-rc"), Some("source"), bad)
    );
    assert_eq!(
        fault("1.0.0:\n  dependencies:\n    - libA:\n        version: newest\n"),
        at(Some("1.0.0"), Some("dependencies"), FdmError::InvalidIdentifier)
    );
    assert_eq!(fault("latest: {}\n"), at(Some("latest"), None, FdmError::InvalidIdentifier));
    assert_eq!(fault("1.0.0: text\n"), at(Some("1.0.0"), None, bad));
    assert_eq!(fault("1.0.0:\n  7: text\n"), at(Some("1.0.0"), None, bad));
    assert_eq!(fault("7: {}\n"), at(None, None, bad));
    assert_eq!(fault("- a\n"), at(None, None, bad));
    assert_eq!(fault("a: [b\n"), at(None, None, bad));
}

#[test]
fn a_tag_that_names_no_distribution_is_held_for_every_platform() {
    let registry = registry_of(
        &[("pkg", "1.2.3:\n  wheel:\n    any: \"https://example/pkg.whl\"\n    linux-x64: \"https://example/pkg-linux.whl\"\n")],
        PlatformArch::LinuxX64,
    );
    let any = request("1.2.3", Distribution::Unknown, Some(PlatformArch::Any));
    assert_eq!(registry.get("pkg", &any).unwrap(), "https://example/pkg.whl");
    let host = request("1.2.3", Distribution::Unknown, None);
    assert_eq!(registry.get("pkg", &host).unwrap(), "https://example/pkg-linux.whl");
}

fn dashes(n: usize) -> String {
    let mut s = String::new();
    for _ in 0..n {
        s.push_str("- ");
    }
    s.push_str("x\n");
    s
}

#[test]
fn documents_that_nest_within_the_limit_are_read() {
    let mut expected = text("x");
    for _ in 0..30 {
        expected = YamlNode::List(vec![expected]);
    }
    assert_eq!(load_documents(&dashes(30)).unwrap(), vec![expected]);
    assert!(check_nesting(&dashes(31)));
    assert!(check_nesting("a:\n  b:\n    c: [d, {e: f}]\n"));
    assert!(check_nesting(""));
}

#[test]
fn documents_that_nest_too_deep_are_refused_unread() {
    for n in [32, 100, 1000, 100000] {
        assert!(!check_nesting(&dashes(n)));
        assert!(matches!(load_documents(&dashes(n)), Err(FdmError::MalformedIndexDocument)));
    }
    let mut maps = String::new();
    for i in 0..70 {
        maps.push_str(&" ".repeat(i));
        maps.push_str("a:\n");
    }
    assert!(matches!(load_documents(&maps), Err(FdmError::MalformedIndexDocument)));
    let flow = "[".repeat(70);
    assert!(matches!(load_documents(&flow), Err(FdmError::MalformedIndexDocument)));
    let aliases = "- &a [[[[[[[[x]]]]]]]]\n- [*a, *a, *a, *a, *a, *a]\n";
    assert!(!check_nesting(aliases));
    assert_eq!(sync_error(&dashes(1000)), Some(FdmError::MalformedIndexDocument));
}

#[test]
fn nesting_counts_the_indent_of_every_kind_of_line_break() {
    assert!(check_nesting(&format!("a:\n{}b: c\n", " ".repeat(62))));
    assert!(!check_nesting(&format!("a:\n{}b: c\n", " ".repeat(63))));
    assert!(!check_nesting(&format!("a:\r{}b: c\r", " ".repeat(63))));
    assert!(check_nesting(&format!("a: {}\n", "- ".repeat(500))));
    assert!(check_nesting(&format!("{}\n", "[]".repeat(62))));
    assert!(!check_nesting(&format!("{}\n", "[]".repeat(63))));
    assert!(check_nesting("a: \"*\"\nb: [c, d]\n"));
}

#[test]
fn well_formed_documents_are_accepted() {
    let accepted = [
        "",
        "{}\n",
        "1.0.0: {}\n",
        "1.0.0:\n  static: {}\n",
        "1.0.0:\n  dependencies: []\n",
        "1.0.0:\n  sources:\n    any: \"https://example/a\"\n",
        "1.0.0:\n  dependencies:\n    - libA: {}\n",
    ];
    for document in accepted {
        assert_eq!(sync_error(document), None, "{:?}", document);
    }
}

#[test]
fn a_tag_without_platforms_adds_no_distribution() {
    let registry = registry_of(&[("pkg", "1.0.0:\n  static: {}\n")], PlatformArch::LinuxX64);
    assert_eq!(registry.index.entries[0].1.versions.entries[0].1.distribution.len(), 0);
}

#[test]
fn later_documents_replace_versions_of_earlier_ones() {
    let registry = registry_of(
        &[("pkg", "1.0.0:\n  source: \"https://example/old\"\n2.0.0:\n  source: \"https://example/two\"\n---\n1.0.0:\n  source: \"https://example/new\"\n")],
        PlatformArch::LinuxX64,
    );
    assert_eq!(registry.index.entries[0].1.versions.len(), 2);
    let r = request("1.0.0", Distribution::Sources, None);
    assert_eq!(registry.get("pkg", &r).unwrap(), "https://example/new");
}

#[test]
fn parse_yaml_reads_nodes_built_by_hand() {
    let descriptor = YamlNode::Table(vec![(text("source"), text("https://example/zlib.tar.gz"))]);
    let docs = vec![YamlNode::Table(vec![(text("1.2.11"), descriptor)])];
    let index = Registry::parse_yaml(&docs).unwrap();
    assert_eq!(index.versions.len(), 1);
    assert_eq!(index.versions.entries[0].0, Version::new(1, 2, 11));
    let urls = index.versions.entries[0].1.distribution.get(&Distribution::Sources).unwrap();
    assert_eq!(urls.get(&PlatformArch::Any).unwrap(), "https://example/zlib.tar.gz");
    let other = vec![YamlNode::Table(vec![(YamlNode::Other, YamlNode::Table(vec![]))])];
    assert_eq!(
        Registry::parse_yaml(&other).unwrap_err(),
        Fault { version: None, field: None, error: FdmError::MalformedIndexDocument }
    );
}

#[test]
fn document_name_is_the_stem_of_yml_files() {
    assert_eq!(Registry::document_name("zlib.yml"), Some(String::from("zlib")));
    assert_eq!(Registry::document_name("lib.png.yml"), Some(String::from("lib.png")));
    assert_eq!(Registry::document_name("ü.yml"), Some(String::from("ü")));
    assert_eq!(Registry::document_name("zlib.yaml"), None);
    assert_eq!(Registry::document_name("zlib.YML"), None);
    assert_eq!(Registry::document_name("zlib"), None);
    assert_eq!(Registry::document_name(".yml"), None);
    assert_eq!(Registry::document_name("yml"), None);
    assert_eq!(Registry::document_name("zlib.yml.bak"), None);
    assert_eq!(Registry::document_name("zlib."), None);
    assert_eq!(Registry::document_name(""), None);
}

#[test]
fn seek_registry_refreshes_a_mirror_that_holds_something() {
    assert_eq!(
        Registry::seek_registry(true, false),
        vec![SyncStep::RemoveMirror, SyncStep::CreateMirror, SyncStep::CloneUpstream]
    );
    let fresh = vec![SyncStep::CreateMirror, SyncStep::CloneUpstream];
    assert_eq!(Registry::seek_registry(true, true), fresh);
    assert_eq!(Registry::seek_registry(false, true), fresh);
    assert_eq!(Registry::seek_registry(false, false), fresh);
}

#[test]
fn clone_repo_puts_git_behind_the_location() {
    assert_eq!(clone_repo("https://example.com/registry"), "https://example.com/registry.git");
    assert_eq!(clone_repo("https://example.com/registry.git"), "https://example.com/registry.git");
    assert_eq!(clone_repo(""), ".git");
    assert_eq!(clone_repo(".git"), ".git");
    assert_eq!(clone_repo("git"), "git.git");
    assert_eq!(clone_repo("a.GIT"), "a.GIT.git");
}

#[test]
fn ordered_map_keeps_first_place_and_last_value() {
    let mut map: OrderedMap<String, String> = OrderedMap::new();
    assert!(map.is_empty());
    map.insert(String::from("a"), String::from("1"));
    map.insert(String::from("b"), String::from("2"));
    map.insert(String::from("a"), String::from("3"));
    assert_eq!(map.len(), 2);
    assert_eq!(map.entries[0].0, "a");
    assert_eq!(map.get(&String::from("a")).unwrap(), "3");
    assert_eq!(map.get(&String::from("b")).unwrap(), "2");
    assert!(map.get(&String::from("c")).is_none());
    assert!(map.contains_key(&String::from("b")));
    assert!(!map.contains_key(&String::from("")));
    assert_eq!(map.position(&String::from("b")), Some(1));
    assert_eq!(map.position(&String::from("z")), None);
}
