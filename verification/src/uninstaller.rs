//! Uninstallation: reading a package's recorded paths and deciding what
//! is removed.
//!
//! The caller reads the stored list and performs the deletions; every
//! decision — which lines name paths, which paths are reported removed,
//! and when an emptied directory goes too — is made here.

use vstd::prelude::*;
use crate::paths::parent_spec;
use crate::paths::parent_of;
use crate::text::contains_seq;
use crate::text::contains_substr;
use crate::text::is_comment_spec;
use crate::text::split_spec;
use crate::text::split_char;
use crate::text::starts_with_char;
use crate::text::trim;
use crate::text::trim_spec;
use crate::util_index::views_of;

verus! {

/// A line of a stored file list that names a path: not blank, and not a
/// comment once leading whitespace is ignored.
pub open spec fn candidate_spec(line: Seq<char>) -> bool {
    !is_comment_spec(trim_spec(line)) && line.len() > 0
}

/// The path-naming lines, in order.
pub open spec fn candidates_spec(lines: Seq<Seq<char>>) -> Seq<Seq<char>>
    decreases lines.len(),
{
    if lines.len() == 0 {
        Seq::empty()
    } else if candidate_spec(lines.last()) {
        candidates_spec(lines.drop_last()).push(lines.last())
    } else {
        candidates_spec(lines.drop_last())
    }
}

/// The paths a stored file list names.
pub fn index_path_candidates(content: &str) -> (r: Vec<String>)
    ensures
        views_of(r@) == candidates_spec(split_spec(content@, '\n')),
{
    let pieces = split_char(content, '\n');
    let mut out: Vec<String> = Vec::new();
    let n = pieces.len();
    let mut i: usize = 0;
    proof {
        assert(views_of(pieces@).take(0) =~= Seq::<Seq<char>>::empty());
        assert(views_of(out@) =~= Seq::<Seq<char>>::empty());
    }
    while i < n
        invariant
            i <= n,
            n == pieces@.len(),
            views_of(pieces@) == split_spec(content@, '\n'),
            views_of(out@) == candidates_spec(views_of(pieces@).take(i as int)),
        decreases n - i,
    {
        let ghost pre = views_of(out@);
        proof {
            assert(views_of(pieces@).take(i + 1).drop_last() =~= views_of(pieces@).take(i as int));
            assert(views_of(pieces@).take(i + 1).last() == pieces@[i as int]@);
        }
        let trimmed = trim(pieces[i].as_str());
        if !starts_with_char(trimmed.as_str(), '#') && pieces[i].as_str().unicode_len() > 0 {
            out.push(pieces[i].clone());
            proof {
                assert(views_of(out@) =~= pre.push(pieces@[i as int]@));
            }
        }
        i = i + 1;
    }
    proof {
        assert(views_of(pieces@).take(n as int) =~= views_of(pieces@));
    }
    out
}

/// The paths whose flag is set, in order: the caller reports which of
/// the candidates still exist on disk.
pub open spec fn existing_spec(paths: Seq<Seq<char>>, exists: Seq<bool>) -> Seq<Seq<char>>
    decreases paths.len(),
{
    if paths.len() == 0 {
        Seq::empty()
    } else if exists.last() {
        existing_spec(paths.drop_last(), exists.drop_last()).push(paths.last())
    } else {
        existing_spec(paths.drop_last(), exists.drop_last())
    }
}

pub fn filter_existing(paths: &Vec<String>, exists: &Vec<bool>) -> (r: Vec<String>)
    requires
        paths@.len() == exists@.len(),
    ensures
        views_of(r@) == existing_spec(views_of(paths@), exists@),
{
    let mut out: Vec<String> = Vec::new();
    let n = paths.len();
    let mut i: usize = 0;
    proof {
        assert(views_of(paths@).take(0) =~= Seq::<Seq<char>>::empty());
        assert(exists@.take(0) =~= Seq::<bool>::empty());
        assert(views_of(out@) =~= Seq::<Seq<char>>::empty());
    }
    while i < n
        invariant
            i <= n,
            n == paths@.len() == exists@.len(),
            views_of(out@) == existing_spec(views_of(paths@).take(i as int), exists@.take(i as int)),
        decreases n - i,
    {
        let ghost pre = views_of(out@);
        proof {
            assert(views_of(paths@).take(i + 1).drop_last() =~= views_of(paths@).take(i as int));
            assert(exists@.take(i + 1).drop_last() =~= exists@.take(i as int));
            assert(views_of(paths@).take(i + 1).last() == paths@[i as int]@);
        }
        if exists[i] {
            out.push(paths[i].clone());
            proof {
                assert(views_of(out@) =~= pre.push(paths@[i as int]@));
            }
        }
        i = i + 1;
    }
    proof {
        assert(views_of(paths@).take(n as int) =~= views_of(paths@));
        assert(exists@.take(n as int) =~= exists@);
    }
    out
}

/// What the filesystem reports while one recorded file is removed: how
/// the deletion went, and the state of the file's parent directory
/// afterwards.
#[derive(Debug, Clone, PartialEq, Eq)]
pub struct RemovalFacts {
    /// Deleting the file succeeded (ignored in a dry run, where no
    /// deletion is attempted).
    pub remove_file_ok: bool,
    /// The parent path is a directory.
    pub parent_is_dir: bool,
    /// How many entries the parent directory holds, when it could be
    /// read.
    pub parent_entry_count: Option<usize>,
    /// Removing the emptied parent directory succeeded (only attempted
    /// when it is empty and the run is real).
    pub remove_dir_ok: bool,
}

/// The paths reported removed for one file: the file itself when its
/// removal went through (or would, in a dry run), then its parent
/// directory under the managed-directory rule. A parent counts when it
/// is a directory on a path that mentions the installation root name,
/// and it is empty apart from the file just considered.
pub open spec fn removed_for_spec(f: Seq<char>, fact: RemovalFacts, do_dry_run: bool) -> Seq<
    Seq<char>,
> {
    let file_part: Seq<Seq<char>> = if do_dry_run || fact.remove_file_ok {
        seq![f]
    } else {
        Seq::empty()
    };
    let dir_part: Seq<Seq<char>> = match parent_spec(f) {
        None => Seq::empty(),
        Some(par) => {
            if !fact.parent_is_dir || !contains_seq(par, "mythos"@) {
                Seq::empty()
            } else {
                match fact.parent_entry_count {
                    None => Seq::empty(),
                    Some(cnt) => {
                        if do_dry_run {
                            if cnt == 1 {
                                seq![par]
                            } else {
                                Seq::empty()
                            }
                        } else if cnt == 0 {
                            if fact.remove_dir_ok {
                                seq![par]
                            } else {
                                Seq::empty()
                            }
                        } else {
                            seq![par]
                        }
                    },
                }
            }
        },
    };
    file_part + dir_part
}

/// The removals a whole run reports, file by file.
pub open spec fn remove_files_spec(
    files: Seq<Seq<char>>,
    facts: Seq<RemovalFacts>,
    do_dry_run: bool,
) -> Seq<Seq<char>>
    decreases files.len(),
{
    if files.len() == 0 {
        Seq::empty()
    } else {
        remove_files_spec(files.drop_last(), facts.drop_last(), do_dry_run) + removed_for_spec(
            files.last(),
            facts.last(),
            do_dry_run,
        )
    }
}

/// Whether removing the parent directory is attempted at all: only in a
/// real run, on an empty managed directory.
pub fn should_attempt_rmdir(
    parent: &str,
    parent_is_dir: bool,
    entry_count: &Option<usize>,
    do_dry_run: bool,
) -> (r: bool)
    ensures
        r == (!do_dry_run && parent_is_dir && contains_seq(parent@, "mythos"@) && entry_count
            == Some(0usize)),
{
    if do_dry_run || !parent_is_dir {
        return false;
    }
    if !contains_substr(parent, "mythos") {
        return false;
    }
    match entry_count {
        Some(c) => *c == 0,
        None => false,
    }
}

/// Settle a whole removal run: given what the filesystem reported for
/// each file, the paths the run removed (or, in a dry run, would have).
pub fn remove_files(files: &Vec<String>, facts: &Vec<RemovalFacts>, do_dry_run: bool) -> (r: Vec<
    String,
>)
    requires
        files@.len() == facts@.len(),
    ensures
        views_of(r@) == remove_files_spec(views_of(files@), facts@, do_dry_run),
{
    let mut out: Vec<String> = Vec::new();
    let n = files.len();
    let mut i: usize = 0;
    proof {
        assert(views_of(files@).take(0) =~= Seq::<Seq<char>>::empty());
        assert(facts@.take(0) =~= Seq::<RemovalFacts>::empty());
        assert(views_of(out@) =~= Seq::<Seq<char>>::empty());
    }
    while i < n
        invariant
            i <= n,
            n == files@.len() == facts@.len(),
            views_of(out@) == remove_files_spec(
                views_of(files@).take(i as int),
                facts@.take(i as int),
                do_dry_run,
            ),
        decreases n - i,
    {
        let ghost pre = views_of(out@);
        proof {
            assert(views_of(files@).take(i + 1).drop_last() =~= views_of(files@).take(i as int));
            assert(facts@.take(i + 1).drop_last() =~= facts@.take(i as int));
            assert(views_of(files@).take(i + 1).last() == files@[i as int]@);
        }
        let ghost contributed = removed_for_spec(files@[i as int]@, facts@[i as int], do_dry_run);
        let fact = &facts[i];
        if do_dry_run || fact.remove_file_ok {
            out.push(files[i].clone());
        }
        match parent_of(files[i].as_str()) {
            None => {},
            Some(par) => {
                if fact.parent_is_dir && contains_substr(par.as_str(), "mythos") {
                    match &fact.parent_entry_count {
                        None => {},
                        Some(cnt) => {
                            if do_dry_run {
                                if *cnt == 1 {
                                    out.push(par);
                                }
                            } else if *cnt == 0 {
                                if fact.remove_dir_ok {
                                    out.push(par);
                                }
                            } else {
                                out.push(par);
                            }
                        },
                    }
                }
            },
        }
        proof {
            assert(views_of(out@) =~= pre + contributed);
        }
        i = i + 1;
    }
    proof {
        assert(views_of(files@).take(n as int) =~= views_of(files@));
        assert(facts@.take(n as int) =~= facts@);
    }
    out
}

/// Split the arguments of an uninstall run: a dry-run flag turns the
/// simulation on, any other flag is ignored, everything else names a
/// package.
pub open spec fn uninstall_pkgs_spec(args: Seq<Seq<char>>) -> Seq<Seq<char>>
    decreases args.len(),
{
    if args.len() == 0 {
        Seq::empty()
    } else if args.last().len() > 0 && args.last()[0] == '-' {
        uninstall_pkgs_spec(args.drop_last())
    } else {
        uninstall_pkgs_spec(args.drop_last()).push(args.last())
    }
}

pub open spec fn uninstall_dry_spec(args: Seq<Seq<char>>, do_dry_run: bool) -> bool {
    do_dry_run || exists|i: int|
        0 <= i < args.len() && ((#[trigger] args[i]) == "-n"@ || args[i] == "--dryrun"@)
}

pub fn split_uninstall_args(args: &Vec<String>, do_dry_run: bool) -> (r: (bool, Vec<String>))
    ensures
        r.0 == uninstall_dry_spec(views_of(args@), do_dry_run),
        views_of(r.1@) == uninstall_pkgs_spec(views_of(args@)),
{
    let mut dry = do_dry_run;
    let mut pkgs: Vec<String> = Vec::new();
    let n = args.len();
    let mut i: usize = 0;
    proof {
        assert(views_of(args@).take(0) =~= Seq::<Seq<char>>::empty());
        assert(views_of(pkgs@) =~= Seq::<Seq<char>>::empty());
    }
    while i < n
        invariant
            i <= n,
            n == args@.len(),
            dry == uninstall_dry_spec(views_of(args@).take(i as int), do_dry_run),
            views_of(pkgs@) == uninstall_pkgs_spec(views_of(args@).take(i as int)),
        decreases n - i,
    {
        let ghost pre = views_of(pkgs@);
        let ghost avs = views_of(args@);
        proof {
            assert(avs.take(i + 1).drop_last() =~= avs.take(i as int));
            assert(avs.take(i + 1).last() == args@[i as int]@);
        }
        let arg = &args[i];
        if crate::text::str_eq(arg.as_str(), "-n") || crate::text::str_eq(arg.as_str(), "--dryrun")
        {
            dry = true;
        }
        if starts_with_char(arg.as_str(), '-') {
        } else {
            pkgs.push(arg.clone());
            proof {
                assert(views_of(pkgs@) =~= pre.push(args@[i as int]@));
            }
        }
        proof {
            let t = avs.take(i + 1);
            if dry {
                if !uninstall_dry_spec(avs.take(i as int), do_dry_run) {
                    assert(t[i as int] == "-n"@ || t[i as int] == "--dryrun"@);
                }
            } else {
                assert forall|j: int| 0 <= j < t.len() implies !((#[trigger] t[j]) == "-n"@ || t[j]
                    == "--dryrun"@) by {
                    if j < i {
                        assert(avs.take(i as int)[j] == t[j]);
                    }
                }
            }
        }
        i = i + 1;
    }
    proof {
        assert(views_of(args@).take(n as int) =~= views_of(args@));
    }
    (dry, pkgs)
}

} // verus!
