use charon::main_index::GlobalIndex;
use charon::main_index::PkgRecord;
use charon::updater::RemoteProbe;
use charon::updater::collect_updates;
use charon::updater::force_update_prompt;
use charon::updater::force_update_targets;
use charon::updater::update_prompt;
use charon::updater::wants_update;

fn record(version: Option<&str>, source: Option<&str>) -> PkgRecord {
    PkgRecord {
        version: version.map(|s| s.to_string()),
        source: source.map(|s| s.to_string()),
        description: None,
    }
}

fn sample_index() -> GlobalIndex {
    let mut index = GlobalIndex::new();
    index.upsert("a", record(Some("0.0.1"), Some("/src/a")));
    index.upsert("b", record(Some("1.2"), Some("/src/b")));
    index.upsert("c", record(Some("0.5"), Some("/src/c")));
    index
}

#[test]
fn test_update() {
    // a and b have newer source versions, c does not: exactly a and b
    // are collected, in index order, with their manifest paths
    let index = sample_index();
    let probes = vec![
        RemoteProbe::Version("0.0.2".to_string()),
        RemoteProbe::Version("1.3".to_string()),
        RemoteProbe::Version("0.5".to_string()),
    ];
    let (names, paths) = collect_updates(&index, &probes);
    assert_eq!(names, vec!["a".to_string(), "b".to_string()]);
    assert_eq!(
        paths,
        vec![
            "/src/a/a.charon".to_string(),
            "/src/b/b.charon".to_string()
        ]
    );
}

#[test]
fn test_invalid_update() {
    // entries that cannot be compared or probed are skipped, never
    // treated as updates
    let mut index = GlobalIndex::new();
    index.upsert("bad-version", record(Some("one.two"), Some("/src/x")));
    index.upsert("no-source", record(Some("0.1"), None));
    index.upsert("no-version", record(None, Some("/src/y")));
    index.upsert("unreadable", record(Some("0.1"), Some("/src/z")));
    let probes = vec![
        RemoteProbe::Version("0.2".to_string()),
        RemoteProbe::NotProbed,
        RemoteProbe::NotProbed,
        RemoteProbe::Unreadable,
    ];
    let (names, paths) = collect_updates(&index, &probes);
    assert!(names.is_empty());
    assert!(paths.is_empty());
}

#[test]
fn wants_update_requires_strictly_newer() {
    let rec = record(Some("1.0"), Some("/s"));
    assert!(wants_update(&rec, &RemoteProbe::Version("1.0.1".to_string())));
    assert!(!wants_update(&rec, &RemoteProbe::Version("1.0".to_string())));
    assert!(!wants_update(&rec, &RemoteProbe::Version("0.9".to_string())));
    assert!(!wants_update(&rec, &RemoteProbe::NoInfo));
    assert!(!wants_update(&rec, &RemoteProbe::NoVersion));
}

#[test]
fn force_update_resolves_sources() {
    let index = sample_index();
    let utils = vec![
        "c".to_string(),
        "missing".to_string(),
        "a".to_string(),
    ];
    let (names, paths) = force_update_targets(&index, &utils);
    assert_eq!(names, vec!["c".to_string(), "a".to_string()]);
    assert_eq!(paths, vec!["/src/c".to_string(), "/src/a".to_string()]);
}

#[test]
fn prompts_render_exactly() {
    let names = vec!["a".to_string(), "b".to_string()];
    let paths = vec!["/src/a".to_string(), "/src/b".to_string()];
    assert_eq!(
        update_prompt(&names),
        "The following utils will be updated: \na\nb\n"
    );
    assert_eq!(
        force_update_prompt(&names, &paths),
        "Found source paths for the following source paths:\na\t\t\"/src/a\"\nb\t\t\"/src/b\"\n\nWould you like to continue?"
    );
}
