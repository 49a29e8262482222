use charon::installation_cmd::InstallationCmd;
use charon::main_index::GlobalIndex;
use charon::main_index::ListMode;
use charon::main_index::PkgRecord;
use charon::main_index::record_from_cmd;
use charon::manifest::InfoFields;
use charon::manifest::SourceFact;

fn record(version: Option<&str>, source: Option<&str>, description: Option<&str>) -> PkgRecord {
    PkgRecord {
        version: version.map(|s| s.to_string()),
        source: source.map(|s| s.to_string()),
        description: description.map(|s| s.to_string()),
    }
}

#[test]
fn test_update_main_index() {
    // removing two packages keeps the third, and the stored form is
    // the plain TOML table of what is left
    let mut index = GlobalIndex::new();
    index.upsert("a", record(Some("0.0.1"), None, None));
    index.upsert("b", record(Some("0.0.2"), None, None));
    index.upsert("c", record(Some("0.0.3"), None, None));
    let missing = index.remove_names(&vec!["a".to_string(), "b".to_string()]);
    assert!(missing.is_empty());
    assert_eq!(index.to_toml_string(), "[c]\nversion = \"0.0.3\"\n");
}

#[test]
fn remove_names_reports_missing_packages() {
    let mut index = GlobalIndex::new();
    index.upsert("a", record(None, None, None));
    let missing = index.remove_names(&vec!["x".to_string(), "a".to_string(), "y".to_string()]);
    assert_eq!(missing, vec!["x".to_string(), "y".to_string()]);
    assert_eq!(index.entries.len(), 0);
}

#[test]
fn upsert_replaces_in_place() {
    let mut index = GlobalIndex::new();
    index.upsert("a", record(Some("1"), None, None));
    index.upsert("b", record(Some("2"), None, None));
    index.upsert("a", record(Some("3"), Some("/s"), None));
    assert_eq!(index.entries.len(), 2);
    assert_eq!(index.entries[0].0, "a");
    assert_eq!(index.entries[0].1.version.as_deref(), Some("3"));
    assert_eq!(index.entries[0].1.source.as_deref(), Some("/s"));
    assert_eq!(index.entries[1].1.version.as_deref(), Some("2"));
}

#[test]
fn lookup_finds_records() {
    let mut index = GlobalIndex::new();
    index.upsert("pkg", record(Some("1"), Some("/s"), None));
    let rec = index.lookup("pkg").unwrap();
    assert_eq!(rec.version.as_deref(), Some("1"));
    assert!(index.lookup("other").is_none());
}

#[test]
fn serialization_orders_keys_and_tables() {
    let mut index = GlobalIndex::new();
    index.upsert("a", record(Some("1.0"), Some("/src/a"), Some("first")));
    index.upsert("b", record(None, Some("/src/b"), None));
    assert_eq!(
        index.to_toml_string(),
        "[a]\ndescription = \"first\"\nsource = \"/src/a\"\nversion = \"1.0\"\n\n[b]\nsource = \"/src/b\"\n"
    );
}

#[test]
fn record_from_cmd_copies_metadata() {
    let mut cmd = InstallationCmd::new();
    let info = InfoFields {
        name: Some("pkg".to_string()),
        version: Some("2.0".to_string()),
        description: None,
        source: Some("/abs".to_string()),
    };
    let fact = SourceFact {
        charon_canon: Ok("/abs/pkg.charon".to_string()),
        source_exists: false,
        source_canon: Err("not probed".to_string()),
    };
    cmd.set_info(&info, &fact).unwrap();
    let rec = record_from_cmd(&cmd);
    assert_eq!(rec.version.as_deref(), Some("2.0"));
    assert_eq!(rec.source.as_deref(), Some("/abs"));
    assert!(rec.description.is_none());
}

#[test]
fn list_lines_render_each_mode() {
    let mut index = GlobalIndex::new();
    index.upsert("pkg", record(Some("1.0"), Some("/s"), Some("demo")));
    index.upsert("bare", record(None, None, None));
    assert_eq!(
        index.list_lines(&ListMode::Simple),
        vec!["pkg".to_string(), "bare".to_string()]
    );
    assert_eq!(
        index.list_lines(&ListMode::Verbose),
        vec![
            "pkg\t\t\"1.0\"\t\t\"demo\"".to_string(),
            "bare\t\t\t".to_string()
        ]
    );
    assert_eq!(
        index.list_lines(&ListMode::Source),
        vec!["pkg\t\t\"/s\"".to_string(), "bare\t\t".to_string()]
    );
}
