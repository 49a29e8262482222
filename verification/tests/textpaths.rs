use charon::charon_file::first_charon_file;
use charon::charon_file::has_charon_ext;
use charon::charon_file::parse_util_name;
use charon::errors::CharonInstallError;
use charon::errors::CharonIoError;
use charon::paths::extension_of;
use charon::paths::file_name_of;
use charon::paths::file_stem_of;
use charon::paths::join;
use charon::paths::parent_of;
use charon::text::contains_substr;
use charon::text::join_newline;
use charon::text::split_char;
use charon::text::trim;
use charon::text::usize_to_string;

fn lines(v: &[&str]) -> Vec<String> {
    v.iter().map(|s| s.to_string()).collect()
}

#[test]
fn join_inserts_separators_like_pathbuf_push() {
    assert_eq!(join("/data", "pkg"), "/data/pkg");
    assert_eq!(join("/data/", "pkg"), "/data/pkg");
    assert_eq!(join("", "pkg"), "pkg");
    assert_eq!(join("/data", "/abs/name"), "/abs/name");
}

#[test]
fn path_components_follow_std_semantics() {
    assert_eq!(file_name_of("/a/b/config.conf").as_deref(), Some("config.conf"));
    assert_eq!(file_name_of("/a/b/").as_deref(), Some("b"));
    assert_eq!(file_name_of("/").as_deref(), None);
    assert_eq!(file_name_of("/a/..").as_deref(), None);

    assert_eq!(file_stem_of("exec.bin").as_deref(), Some("exec"));
    assert_eq!(file_stem_of("archive.tar.gz").as_deref(), Some("archive.tar"));
    assert_eq!(file_stem_of(".hidden").as_deref(), Some(".hidden"));
    assert_eq!(file_stem_of("noext").as_deref(), Some("noext"));

    assert_eq!(extension_of("exec.bin").as_deref(), Some("bin"));
    assert_eq!(extension_of(".hidden").as_deref(), None);
    assert_eq!(extension_of("trailing.").as_deref(), Some(""));

    assert_eq!(parent_of("/a/b/c").as_deref(), Some("/a/b"));
    assert_eq!(parent_of("/a").as_deref(), Some("/"));
    assert_eq!(parent_of("name").as_deref(), Some(""));
    assert_eq!(parent_of("/").as_deref(), None);
}

#[test]
fn split_keeps_empty_pieces() {
    assert_eq!(split_char("0.0.1", '.'), lines(&["0", "0", "1"]));
    assert_eq!(split_char("a..b", '.'), lines(&["a", "", "b"]));
    assert_eq!(split_char("", '.'), lines(&[""]));
    assert_eq!(split_char("one", '.'), lines(&["one"]));
}

#[test]
fn trim_strips_surrounding_whitespace() {
    assert_eq!(trim("  spaced\t\n"), "spaced");
    assert_eq!(trim("\n\n"), "");
    assert_eq!(trim("inner space stays"), "inner space stays");
}

#[test]
fn contains_substr_finds_needles() {
    assert!(contains_substr("/opt/mythos/data", "mythos"));
    assert!(!contains_substr("/opt/myth/data", "mythos"));
    assert!(contains_substr("anything", ""));
}

#[test]
fn join_newline_matches_slice_join() {
    assert_eq!(join_newline(&lines(&["a", "b", "c"])), "a\nb\nc");
    assert_eq!(join_newline(&lines(&[])), "");
    assert_eq!(join_newline(&lines(&["only"])), "only");
}

#[test]
fn usize_renders_in_decimal() {
    assert_eq!(usize_to_string(0), "0");
    assert_eq!(usize_to_string(7), "7");
    assert_eq!(usize_to_string(1203), "1203");
}

#[test]
fn util_name_comes_from_file_or_directory() {
    assert_eq!(
        parse_util_name("/home/u/pkg/mytool.charon").as_deref(),
        Some("mytool")
    );
    assert_eq!(
        parse_util_name("/home/u/mytool/manifest.toml").as_deref(),
        Some("mytool")
    );
    assert_eq!(parse_util_name("/home/u/noext").as_deref(), None);
}

#[test]
fn charon_files_are_recognized_by_extension() {
    assert!(has_charon_ext("pkg.charon"));
    assert!(!has_charon_ext("pkg.toml"));
    assert!(!has_charon_ext("charon"));
    let names = lines(&["readme.md", "empty.charon", "other.charon"]);
    assert_eq!(first_charon_file(&names).as_deref(), Some("empty.charon"));
    assert_eq!(first_charon_file(&lines(&["a.txt"])), None);
}

#[test]
fn error_messages_render_like_the_cli() {
    assert_eq!(
        CharonIoError::CharonFileEmpty.to_message(),
        "Charon file provided is empty."
    );
    assert_eq!(
        CharonIoError::InvalidDirKey("attic".to_string(), 3).to_message(),
        "Invalid directory shortcut on line 3: \"attic\"."
    );
    assert_eq!(
        CharonIoError::NoTargetProvided(12).to_message(),
        "Installation item without a target on line 12."
    );
    assert_eq!(
        CharonInstallError::FileExistsNoOverwrite.to_message(),
        "File exists and !overwrite."
    );
    assert_eq!(
        CharonInstallError::DryRun.to_message(),
        "Installation is dryrun, no changes were made."
    );
}
