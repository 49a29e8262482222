use charon::errors::CharonIoError;
use charon::installation_cmd::DirConfig;
use charon::installation_cmd::entry_resolvable;
use charon::installation_cmd::InstallationCmd;
use charon::installation_cmd::KeyClass;
use charon::manifest::InfoFields;
use charon::manifest::ManifestEntry;
use charon::manifest::RawEntry;
use charon::manifest::SourceFact;
use charon::manifest::TargetFact;

fn existing_target(canon: &str) -> TargetFact {
    TargetFact {
        canon: Some(canon.to_string()),
        exists: true,
    }
}

fn entry(raw: RawEntry) -> ManifestEntry {
    ManifestEntry::Item(raw)
}

fn plain_info_fact() -> SourceFact {
    SourceFact {
        charon_canon: Ok("/home/user/pkg/pkg.charon".to_string()),
        source_exists: false,
        source_canon: Err("not probed".to_string()),
    }
}

#[test]
fn alias_dominates_dest_and_strip_ext() {
    let mut cmd = InstallationCmd::new();
    let raw = RawEntry {
        target: Some("tool.bin".to_string()),
        dest: Some("ignored-name".to_string()),
        alias: Some("tool".to_string()),
        strip_ext: Some(true),
        ..RawEntry::default()
    };
    let fact = existing_target("/src/tool.bin");
    cmd.add_item("/src", "/usr/local/bin", &entry(raw), &fact, 0)
        .unwrap();
    assert_eq!(cmd.items.len(), 1);
    assert_eq!(cmd.items[0].dest, "/usr/local/bin/tool");
    assert_eq!(cmd.items[0].target, "/src/tool.bin");
}

#[test]
fn strip_ext_removes_final_extension() {
    let mut cmd = InstallationCmd::new();
    let raw = RawEntry {
        target: Some("exec.bin".to_string()),
        strip_ext: Some(true),
        ..RawEntry::default()
    };
    let fact = existing_target("/src/exec.bin");
    cmd.add_item("/src", "/bin", &entry(raw), &fact, 0).unwrap();
    assert_eq!(cmd.items[0].dest, "/bin/exec");
}

#[test]
fn strip_ext_applies_to_explicit_dest() {
    let mut cmd = InstallationCmd::new();
    let raw = RawEntry {
        target: Some("conf".to_string()),
        dest: Some("app.conf.txt".to_string()),
        strip_ext: Some(true),
        ..RawEntry::default()
    };
    let fact = existing_target("/src/conf");
    cmd.add_item("/src", "/etc", &entry(raw), &fact, 0).unwrap();
    assert_eq!(cmd.items[0].dest, "/etc/app.conf");
}

#[test]
fn target_file_name_is_the_default() {
    let mut cmd = InstallationCmd::new();
    let raw = RawEntry {
        target: Some("config.conf".to_string()),
        perms: Some(0o644),
        overwrite: Some(false),
        comment: Some("from the manifest".to_string()),
        ..RawEntry::default()
    };
    let fact = existing_target("/src/pkg/config.conf");
    cmd.add_item("/src/pkg", "/etc/pkg", &entry(raw), &fact, 3)
        .unwrap();
    let item = &cmd.items[0];
    assert_eq!(item.target, "/src/pkg/config.conf");
    assert_eq!(item.dest, "/etc/pkg/config.conf");
    assert_eq!(item.perms, 0o644);
    assert!(!item.overwrite);
    assert!(!item.strip_ext);
    assert_eq!(item.comment, "from the manifest");
}

#[test]
fn shorthand_entry_is_a_rename_of_the_parent() {
    let mut cmd = InstallationCmd::new();
    let fact = TargetFact::unknown();
    cmd.add_item(
        "/src/pkg",
        "/data/pkg",
        &ManifestEntry::Shorthand("alias-name".to_string()),
        &fact,
        1,
    )
    .unwrap();
    assert_eq!(cmd.items[0].target, "/src/pkg");
    assert_eq!(cmd.items[0].dest, "/data/pkg/alias-name");
    assert!(cmd.items[0].overwrite);
    assert_eq!(cmd.items[0].perms, 0);
}

#[test]
fn missing_target_is_an_error() {
    let mut cmd = InstallationCmd::new();
    let raw = RawEntry::default();
    let fact = TargetFact::unknown();
    let err = cmd
        .add_item("/src", "/etc", &entry(raw), &fact, 7)
        .unwrap_err();
    assert!(matches!(err, CharonIoError::NoTargetProvided(7)));
    assert!(cmd.items.is_empty());
}

#[test]
fn nonexistent_target_is_an_error() {
    let mut cmd = InstallationCmd::new();
    let raw = RawEntry {
        target: Some("ghost.txt".to_string()),
        ..RawEntry::default()
    };
    let fact = TargetFact {
        canon: None,
        exists: false,
    };
    let err = cmd
        .add_item("/src", "/etc", &entry(raw), &fact, 2)
        .unwrap_err();
    match err {
        CharonIoError::TargetFileNotFound(path, line) => {
            assert_eq!(path, "ghost.txt");
            assert_eq!(line, 2);
        }
        other => panic!("unexpected error: {other:?}"),
    }
}

#[test]
fn invalid_entry_shape_is_an_error() {
    let mut cmd = InstallationCmd::new();
    let fact = TargetFact::unknown();
    let err = cmd
        .add_item(
            "/src",
            "/etc",
            &ManifestEntry::Other("17".to_string()),
            &fact,
            4,
        )
        .unwrap_err();
    assert!(matches!(err, CharonIoError::InvalidInstallItem(ref t, 4) if t == "17"));
}

#[test]
fn classify_key_expands_known_shortcuts() {
    let mut cmd = InstallationCmd::new();
    let info = InfoFields {
        name: Some("pkg".to_string()),
        ..InfoFields::default()
    };
    cmd.set_info(&info, &plain_info_fact()).unwrap();
    let config = DirConfig {
        entries: vec![
            ("bin".to_string(), "/usr/local/bin".to_string()),
            ("data".to_string(), "/usr/local/share".to_string()),
        ],
    };
    match cmd.classify_key(&config, "data") {
        KeyClass::Dir(p) => assert_eq!(p, "/usr/local/share/pkg"),
        other => panic!("unexpected class: {other:?}"),
    }
    assert!(matches!(cmd.classify_key(&config, "info"), KeyClass::Info));
    assert!(matches!(cmd.classify_key(&config, "INFO"), KeyClass::Info));
    assert!(matches!(
        cmd.classify_key(&config, "nowhere"),
        KeyClass::Unknown
    ));
}

#[test]
fn add_dir_deduplicates_and_skips_existing() {
    let mut cmd = InstallationCmd::new();
    cmd.add_dir("/data/pkg", false);
    cmd.add_dir("/data/pkg", false);
    cmd.add_dir("/data/existing", true);
    cmd.add_dir("/data/pkg/sub", false);
    assert_eq!(
        cmd.mkdirs,
        vec!["/data/pkg".to_string(), "/data/pkg/sub".to_string()]
    );
}

#[test]
fn set_info_copies_fields_and_keeps_absolute_source() {
    let mut cmd = InstallationCmd::new();
    let info = InfoFields {
        name: Some("pkg".to_string()),
        version: Some("0.1.0".to_string()),
        description: Some("a tool".to_string()),
        source: Some("/abs/source".to_string()),
    };
    cmd.set_info(&info, &plain_info_fact()).unwrap();
    assert_eq!(cmd.name, "pkg");
    assert_eq!(cmd.version.as_deref(), Some("0.1.0"));
    assert_eq!(cmd.description.as_deref(), Some("a tool"));
    assert_eq!(cmd.source.as_deref(), Some("/abs/source"));
}

#[test]
fn set_info_dot_source_means_manifest_directory() {
    let mut cmd = InstallationCmd::new();
    let info = InfoFields {
        source: Some(".".to_string()),
        ..InfoFields::default()
    };
    cmd.set_info(&info, &plain_info_fact()).unwrap();
    assert_eq!(cmd.source.as_deref(), Some("/home/user/pkg"));
}

#[test]
fn set_info_relative_existing_source_is_canonicalized() {
    let mut cmd = InstallationCmd::new();
    let info = InfoFields {
        source: Some("srcdir".to_string()),
        ..InfoFields::default()
    };
    let fact = SourceFact {
        charon_canon: Ok("/home/user/pkg/pkg.charon".to_string()),
        source_exists: true,
        source_canon: Ok("/home/user/pkg/srcdir".to_string()),
    };
    cmd.set_info(&info, &fact).unwrap();
    assert_eq!(cmd.source.as_deref(), Some("/home/user/pkg/srcdir"));
}

#[test]
fn set_info_dot_source_needs_the_manifest_path() {
    // `.` can only be resolved against the manifest's own canonical
    // path; when that could not be determined, the failure is passed on
    let mut cmd = InstallationCmd::new();
    let info = InfoFields {
        source: Some(".".to_string()),
        ..InfoFields::default()
    };
    let fact = SourceFact {
        charon_canon: Err("no such file or directory".to_string()),
        source_exists: false,
        source_canon: Err("not probed".to_string()),
    };
    let err = cmd.set_info(&info, &fact).unwrap_err();
    assert!(matches!(err, CharonIoError::GenericIoError(ref m) if m == "no such file or directory"));
    assert!(cmd.source.is_none());
}

#[test]
fn set_info_dot_source_at_root_is_rejected() {
    let mut cmd = InstallationCmd::new();
    let info = InfoFields {
        source: Some(".".to_string()),
        ..InfoFields::default()
    };
    let fact = SourceFact {
        charon_canon: Ok("/".to_string()),
        source_exists: false,
        source_canon: Err("not probed".to_string()),
    };
    let err = cmd.set_info(&info, &fact).unwrap_err();
    assert!(matches!(err, CharonIoError::InfoSourceBad(ref p) if p == "."));
}

#[test]
fn set_info_relative_source_that_cannot_canonicalize_is_rejected() {
    let mut cmd = InstallationCmd::new();
    let info = InfoFields {
        source: Some("srcdir".to_string()),
        ..InfoFields::default()
    };
    let fact = SourceFact {
        charon_canon: Ok("/home/user/pkg/pkg.charon".to_string()),
        source_exists: true,
        source_canon: Err("permission denied".to_string()),
    };
    let err = cmd.set_info(&info, &fact).unwrap_err();
    assert!(matches!(err, CharonIoError::InfoSourceBad(ref p) if p == "srcdir"));
    assert!(cmd.source.is_none());
}

#[test]
fn resolvability_is_decidable_up_front() {
    // a target that is a bare slash has no file name to fall back on
    let raw = RawEntry {
        target: Some("/".to_string()),
        ..RawEntry::default()
    };
    let fact = TargetFact {
        canon: Some("/".to_string()),
        exists: true,
    };
    assert!(!entry_resolvable(&entry(raw.clone()), &fact));
    // an alias rescues it
    let with_alias = RawEntry {
        alias: Some("rootcopy".to_string()),
        ..raw
    };
    assert!(entry_resolvable(&entry(with_alias), &fact));
}

#[test]
fn add_simple_item_strips_when_asked() {
    let mut cmd = InstallationCmd::new();
    cmd.add_simple_item(
        "/src/tool.sh".to_string(),
        "/bin".to_string(),
        0o755,
        true,
        true,
    );
    cmd.add_simple_item(
        "/src/notes.txt".to_string(),
        "/share/notes.txt".to_string(),
        0,
        false,
        false,
    );
    assert_eq!(cmd.items[0].dest, "/bin/tool");
    assert_eq!(cmd.items[1].dest, "/share/notes.txt");
}

#[test]
fn to_toml_str_renders_metadata() {
    let mut cmd = InstallationCmd::new();
    let info = InfoFields {
        name: Some("pkg".to_string()),
        version: Some("1.0".to_string()),
        description: Some("demo".to_string()),
        source: Some("/s".to_string()),
    };
    cmd.set_info(&info, &plain_info_fact()).unwrap();
    assert_eq!(
        cmd.to_toml_str(),
        "pkg = {version = \"1.0\", description = \"demo\", source = \"/s\" }"
    );
    let bare = InstallationCmd::new();
    assert_eq!(bare.to_toml_str(), " = {source = \"charon\" }");
}
