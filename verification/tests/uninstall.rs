use charon::uninstaller::RemovalFacts;
use charon::uninstaller::filter_existing;
use charon::uninstaller::index_path_candidates;
use charon::uninstaller::remove_files;
use charon::uninstaller::should_attempt_rmdir;
use charon::uninstaller::split_uninstall_args;

fn lines(v: &[&str]) -> Vec<String> {
    v.iter().map(|s| s.to_string()).collect()
}

fn no_parent_fact() -> RemovalFacts {
    RemovalFacts {
        remove_file_ok: true,
        parent_is_dir: false,
        parent_entry_count: None,
        remove_dir_ok: false,
    }
}

#[test]
fn test_delete_files() {
    // a dry run reports every file it would remove, and their parents
    // are left alone when they are not directories here
    let files = lines(&[
        "tests/uninstall/data/b",
        "tests/uninstall/local_data/b",
        "tests/uninstall/config/b",
    ]);
    let facts = vec![no_parent_fact(), no_parent_fact(), no_parent_fact()];
    let removed = remove_files(&files, &facts, true);
    assert_eq!(
        removed,
        lines(&[
            "tests/uninstall/data/b",
            "tests/uninstall/local_data/b",
            "tests/uninstall/config/b",
        ])
    );
}

#[test]
fn emptied_managed_directory_goes_too() {
    // in a real run, an emptied directory on a managed path is removed
    // along with the file
    let files = lines(&["/opt/mythos/data/b"]);
    let facts = vec![RemovalFacts {
        remove_file_ok: true,
        parent_is_dir: true,
        parent_entry_count: Some(0),
        remove_dir_ok: true,
    }];
    let removed = remove_files(&files, &facts, false);
    assert_eq!(removed, lines(&["/opt/mythos/data/b", "/opt/mythos/data"]));
}

#[test]
fn unmanaged_directory_is_never_removed() {
    let files = lines(&["/opt/elsewhere/data/b"]);
    let facts = vec![RemovalFacts {
        remove_file_ok: true,
        parent_is_dir: true,
        parent_entry_count: Some(0),
        remove_dir_ok: true,
    }];
    let removed = remove_files(&files, &facts, false);
    assert_eq!(removed, lines(&["/opt/elsewhere/data/b"]));
}

#[test]
fn dry_run_counts_the_file_itself_in_the_directory() {
    // a dry run treats a directory holding only the file about to go
    // as emptied
    let files = lines(&["/opt/mythos/data/b"]);
    let facts = vec![RemovalFacts {
        remove_file_ok: false,
        parent_is_dir: true,
        parent_entry_count: Some(1),
        remove_dir_ok: false,
    }];
    let removed = remove_files(&files, &facts, true);
    assert_eq!(removed, lines(&["/opt/mythos/data/b", "/opt/mythos/data"]));
}

#[test]
fn failed_file_removal_is_not_reported() {
    let files = lines(&["/opt/mythos/data/b"]);
    let facts = vec![RemovalFacts {
        remove_file_ok: false,
        parent_is_dir: false,
        parent_entry_count: None,
        remove_dir_ok: false,
    }];
    let removed = remove_files(&files, &facts, false);
    assert!(removed.is_empty());
}

#[test]
fn rmdir_is_attempted_only_on_empty_managed_dirs_in_real_runs() {
    assert!(should_attempt_rmdir("/opt/mythos/data", true, &Some(0), false));
    assert!(!should_attempt_rmdir("/opt/mythos/data", true, &Some(0), true));
    assert!(!should_attempt_rmdir("/opt/mythos/data", true, &Some(2), false));
    assert!(!should_attempt_rmdir("/opt/mythos/data", false, &Some(0), false));
    assert!(!should_attempt_rmdir("/opt/other/data", true, &Some(0), false));
    assert!(!should_attempt_rmdir("/opt/mythos/data", true, &None, false));
}

#[test]
fn candidates_skip_comments_and_blanks() {
    let content = "# files installed\n/bin/a\n\n  # indented comment\n/data/b\n";
    assert_eq!(index_path_candidates(content), lines(&["/bin/a", "/data/b"]));
}

#[test]
fn filter_existing_keeps_flagged_paths() {
    let paths = lines(&["/a", "/b", "/c"]);
    let exists = vec![true, false, true];
    assert_eq!(filter_existing(&paths, &exists), lines(&["/a", "/c"]));
}

#[test]
fn uninstall_args_split_flags_from_packages() {
    let args = lines(&["pkg1", "-n", "pkg2", "--verbose", "pkg3"]);
    let (dry, pkgs) = split_uninstall_args(&args, false);
    assert!(dry);
    assert_eq!(pkgs, lines(&["pkg1", "pkg2", "pkg3"]));

    let (dry2, pkgs2) = split_uninstall_args(&lines(&["pkg"]), false);
    assert!(!dry2);
    assert_eq!(pkgs2, lines(&["pkg"]));

    let (dry3, _) = split_uninstall_args(&lines(&["--dryrun"]), false);
    assert!(dry3);
}
