use charon::util_index::find_orphans;
use charon::util_index::parse_index_lines;
use charon::util_index::should_delete_orphan;

fn lines(v: &[&str]) -> Vec<String> {
    v.iter().map(|s| s.to_string()).collect()
}

#[test]
fn orphans_are_old_minus_new() {
    let old_index = lines(&["/a", "/b", "/c"]);
    let new_index = lines(&["/a", "/c"]);
    assert_eq!(find_orphans(&old_index, &new_index), lines(&["/b"]));
}

#[test]
fn comments_are_never_orphans() {
    let old_index = lines(&["# Directories", "/data/x", "# Files", "/data/y"]);
    let new_index = lines(&["/data/x"]);
    assert_eq!(find_orphans(&old_index, &new_index), lines(&["/data/y"]));
}

#[test]
fn identical_indexes_leave_no_orphans() {
    let index = lines(&["# Directories", "/d", "# Files", "/d/f1", "/d/f2"]);
    assert!(find_orphans(&index, &index).is_empty());
}

#[test]
fn orphans_keep_old_index_order() {
    let old_index = lines(&["/one", "/two", "/three"]);
    let new_index = lines(&[]);
    assert_eq!(
        find_orphans(&old_index, &new_index),
        lines(&["/one", "/two", "/three"])
    );
}

#[test]
fn orphan_match_is_verbatim() {
    // paths are compared as exact strings; a differing textual form is
    // not a match
    let old_index = lines(&["/a/", "/b"]);
    let new_index = lines(&["/a", "/b "]);
    assert_eq!(find_orphans(&old_index, &new_index), lines(&["/a/", "/b"]));
}

#[test]
fn deletion_needs_existence_and_a_real_run() {
    assert!(should_delete_orphan(true, false));
    assert!(!should_delete_orphan(true, true));
    assert!(!should_delete_orphan(false, false));
    assert!(!should_delete_orphan(false, true));
}

#[test]
fn load_old_index() {
    // a stored index is trimmed, split and stripped of blank lines
    let content = "\n# Directories\n/data/util1\n\n# Files\n/data/util1/a\n\n";
    let parsed = parse_index_lines(content);
    assert_eq!(
        parsed,
        lines(&["# Directories", "/data/util1", "# Files", "/data/util1/a"])
    );
}

#[test]
fn read_old_index_dne() {
    // a missing index file reads back as empty content: no lines at all
    assert!(parse_index_lines("").is_empty());
}

#[test]
fn remove_orphans() {
    // a fresh run that no longer lists three recorded paths reports
    // exactly those three, whatever else both indexes hold
    let old_index = lines(&[
        "# Directories",
        "/data/orphan_test",
        "# Files",
        "/data/orphan_test/Keep",
        "/data/orphan_test/Orphan1",
        "/data/orphan_test/Orphan2",
        "/data/orphan_test/Orphan3/Item1",
    ]);
    let new_index = lines(&[
        "# Directories",
        "/data/orphan_test",
        "# Files",
        "/data/orphan_test/Keep",
    ]);
    let orphans = find_orphans(&old_index, &new_index);
    assert!(orphans.contains(&"/data/orphan_test/Orphan1".to_string()));
    assert!(orphans.contains(&"/data/orphan_test/Orphan2".to_string()));
    assert!(orphans.contains(&"/data/orphan_test/Orphan3/Item1".to_string()));
    assert_eq!(orphans.len(), 3);
}
