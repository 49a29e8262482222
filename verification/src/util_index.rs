//! The per-package index and its reconciliation.
//!
//! Every install run records one text line per directory and per file it
//! touched, plus `#`-prefixed comments. The next run diffs the previous
//! index against the fresh one: a recorded path that is no longer
//! produced is an orphan and a candidate for deletion.

use vstd::prelude::*;
use crate::install_item::CopyOutcome;
use crate::install_item::InstallItem;
use crate::install_item::install_comment_spec;
use crate::installation_cmd::InstallationCmd;
use crate::text::is_comment_spec;
use crate::text::split_spec;
use crate::text::starts_with_char;
use crate::text::str_eq;
use crate::text::trim;
use crate::text::trim_spec;
use crate::text::split_char;

verus! {

/// The views of a vector of lines.
pub open spec fn views_of(lines: Seq<String>) -> Seq<Seq<char>> {
    lines.map_values(|s: String| s@)
}

/// The lines of a stored index file: the file is trimmed, split on
/// newlines, and empty lines are dropped.
pub open spec fn index_lines_spec(content: Seq<char>) -> Seq<Seq<char>> {
    nonempty_of(split_spec(trim_spec(content), '\n'))
}

/// The subsequence of nonempty lines.
pub open spec fn nonempty_of(lines: Seq<Seq<char>>) -> Seq<Seq<char>>
    decreases lines.len(),
{
    if lines.len() == 0 {
        Seq::empty()
    } else if lines.last().len() > 0 {
        nonempty_of(lines.drop_last()).push(lines.last())
    } else {
        nonempty_of(lines.drop_last())
    }
}

/// Read a stored index back into its lines.
pub fn parse_index_lines(content: &str) -> (r: Vec<String>)
    ensures
        views_of(r@) == index_lines_spec(content@),
{
    let trimmed = trim(content);
    let pieces = split_char(trimmed.as_str(), '\n');
    let mut out: Vec<String> = Vec::new();
    let n = pieces.len();
    let mut i: usize = 0;
    proof {
        assert(views_of(pieces@).take(0) =~= Seq::<Seq<char>>::empty());
        assert(nonempty_of(views_of(pieces@).take(0)) =~= views_of(out@));
    }
    while i < n
        invariant
            i <= n,
            n == pieces@.len(),
            views_of(pieces@) == split_spec(trim_spec(content@), '\n'),
            views_of(out@) == nonempty_of(views_of(pieces@).take(i as int)),
        decreases n - i,
    {
        let ghost pre = views_of(out@);
        proof {
            assert(views_of(pieces@).take(i + 1).drop_last() =~= views_of(pieces@).take(i as int));
            assert(views_of(pieces@).take(i + 1).last() == pieces@[i as int]@);
        }
        if pieces[i].as_str().unicode_len() > 0 {
            out.push(pieces[i].clone());
            proof {
                assert(views_of(out@) =~= pre.push(pieces@[i as int]@));
            }
        }
        i = i + 1;
    }
    proof {
        assert(views_of(pieces@).take(n as int) =~= views_of(pieces@));
    }
    out
}

/// A line of a previous index is an orphan when it is not a comment and
/// does not occur verbatim in the new index.
pub open spec fn orphan_spec(line: Seq<char>, new_index: Seq<Seq<char>>) -> bool {
    !is_comment_spec(line) && !new_index.contains(line)
}

/// The orphans of an old index with respect to a new one, in the order
/// the old index lists them.
pub open spec fn orphans_spec(old_index: Seq<Seq<char>>, new_index: Seq<Seq<char>>) -> Seq<
    Seq<char>,
>
    decreases old_index.len(),
{
    if old_index.len() == 0 {
        Seq::empty()
    } else {
        let rest = orphans_spec(old_index.drop_last(), new_index);
        if orphan_spec(old_index.last(), new_index) {
            rest.push(old_index.last())
        } else {
            rest
        }
    }
}

/// Whether some line of `lines` is exactly `s`.
fn lines_contain(lines: &Vec<String>, s: &str) -> (r: bool)
    ensures
        r == views_of(lines@).contains(s@),
{
    let n = lines.len();
    let mut i: usize = 0;
    while i < n
        invariant
            i <= n,
            n == lines@.len(),
            forall|j: int| 0 <= j < i ==> views_of(lines@)[j] != s@,
        decreases n - i,
    {
        if str_eq(lines[i].as_str(), s) {
            proof {
                assert(views_of(lines@)[i as int] == s@);
            }
            return true;
        }
        i = i + 1;
    }
    false
}

/// Diff a previous index against a fresh one: every non-comment line of
/// the old index that the new index no longer lists, in order.
pub fn find_orphans(old_index: &Vec<String>, new_index: &Vec<String>) -> (r: Vec<String>)
    ensures
        views_of(r@) == orphans_spec(views_of(old_index@), views_of(new_index@)),
{
    let mut out: Vec<String> = Vec::new();
    let n = old_index.len();
    let mut i: usize = 0;
    proof {
        assert(views_of(old_index@).take(0) =~= Seq::<Seq<char>>::empty());
        assert(views_of(out@) =~= orphans_spec(
            views_of(old_index@).take(0),
            views_of(new_index@),
        ));
    }
    while i < n
        invariant
            i <= n,
            n == old_index@.len(),
            views_of(out@) == orphans_spec(
                views_of(old_index@).take(i as int),
                views_of(new_index@),
            ),
        decreases n - i,
    {
        let ghost pre = views_of(out@);
        proof {
            assert(views_of(old_index@).take(i + 1).drop_last() =~= views_of(old_index@).take(
                i as int,
            ));
            assert(views_of(old_index@).take(i + 1).last() == old_index@[i as int]@);
        }
        let line = &old_index[i];
        if !starts_with_char(line.as_str(), '#') && !lines_contain(new_index, line.as_str()) {
            out.push(line.clone());
            proof {
                assert(views_of(out@) =~= pre.push(old_index@[i as int]@));
            }
        }
        i = i + 1;
    }
    proof {
        assert(views_of(old_index@).take(n as int) =~= views_of(old_index@));
    }
    out
}

/// The index lines one directory contributes: its path, and a note when
/// it already existed and was therefore not created. The note is stored
/// verbatim, braces and all: that is the exact line the index format
/// carries.
pub open spec fn dir_lines_spec(dir: Seq<char>, already_exists: bool) -> Seq<Seq<char>> {
    if already_exists {
        seq![dir, "# Directory already exists: {dir:?}"@]
    } else {
        seq![dir]
    }
}

/// The directory section of a fresh index, one directory at a time.
pub open spec fn dirs_section_spec(dirs: Seq<Seq<char>>, already_exists: Seq<bool>) -> Seq<
    Seq<char>,
>
    decreases dirs.len(),
{
    if dirs.len() == 0 {
        Seq::empty()
    } else {
        dirs_section_spec(dirs.drop_last(), already_exists.drop_last()) + dir_lines_spec(
            dirs.last(),
            already_exists.last(),
        )
    }
}

/// The index lines one directory contributes.
pub fn dir_index_lines(dir: &str, already_exists: bool) -> (r: Vec<String>)
    ensures
        views_of(r@) == dir_lines_spec(dir@, already_exists),
{
    let mut out: Vec<String> = Vec::new();
    out.push(dir.to_owned());
    if already_exists {
        out.push("# Directory already exists: {dir:?}".to_owned());
    }
    proof {
        assert(views_of(out@) =~= dir_lines_spec(dir@, already_exists));
    }
    out
}

/// The index lines one settled item contributes: its destination path,
/// then its comment line.
pub fn item_index_lines(item: &InstallItem) -> (r: Vec<String>)
    ensures
        views_of(r@) == seq![item.dest@, item.comment@],
{
    let mut out: Vec<String> = Vec::new();
    out.push(item.print_dest());
    out.push(item.comment.clone());
    proof {
        assert(views_of(out@) =~= seq![item.dest@, item.comment@]);
    }
    out
}

/// The file section a dry run projects: each item's destination and the
/// comment `try_install` leaves when nothing is attempted.
pub open spec fn sim_items_section_spec(items: Seq<InstallItem>, dest_exists: Seq<bool>) -> Seq<
    Seq<char>,
>
    decreases items.len(),
{
    if items.len() == 0 {
        Seq::empty()
    } else {
        sim_items_section_spec(items.drop_last(), dest_exists.drop_last())
            + seq![
            items.last().dest@,
            install_comment_spec(
                items.last(),
                dest_exists.last(),
                true,
                CopyOutcome::NotAttempted,
            ),
        ]
    }
}

/// The whole index a dry run projects: the directory section, then the
/// file section.
pub open spec fn sim_index_spec(
    cmd: InstallationCmd,
    dir_exists: Seq<bool>,
    dest_exists: Seq<bool>,
) -> Seq<Seq<char>> {
    seq!["# Directories"@] + dirs_section_spec(views_of(cmd.mkdirs@), dir_exists) + seq![
        "# Files"@,
    ] + sim_items_section_spec(cmd.items@, dest_exists)
}

/// Run a whole installation in simulate mode: no filesystem fact is
/// changed, only read. Every item is settled with nothing attempted,
/// and the function returns the projected index, exactly the one a real
/// run would write apart from each item's copy outcome.
pub fn copy_files_simulated(
    cmd: &mut InstallationCmd,
    dir_exists: &Vec<bool>,
    dest_exists: &Vec<bool>,
) -> (r: Vec<String>)
    requires
        dir_exists@.len() == old(cmd).mkdirs@.len(),
        dest_exists@.len() == old(cmd).items@.len(),
    ensures
        views_of(r@) == sim_index_spec(*old(cmd), dir_exists@, dest_exists@),
        final(cmd).mkdirs == old(cmd).mkdirs,
        final(cmd).name == old(cmd).name,
        final(cmd).source == old(cmd).source,
        final(cmd).version == old(cmd).version,
        final(cmd).description == old(cmd).description,
        final(cmd).items@.len() == old(cmd).items@.len(),
        forall|i: int|
            0 <= i < old(cmd).items@.len() ==> {
                &&& (#[trigger] final(cmd).items@[i]).target@ == old(cmd).items@[i].target@
                &&& final(cmd).items@[i].dest@ == old(cmd).items@[i].dest@
                &&& final(cmd).items@[i].perms == old(cmd).items@[i].perms
                &&& final(cmd).items@[i].strip_ext == old(cmd).items@[i].strip_ext
                &&& final(cmd).items@[i].overwrite == old(cmd).items@[i].overwrite
                &&& final(cmd).items@[i].comment@ == install_comment_spec(
                    old(cmd).items@[i],
                    dest_exists@[i],
                    true,
                    CopyOutcome::NotAttempted,
                )
            },
{
    let mut index: Vec<String> = Vec::new();
    index.push("# Directories".to_owned());

    let nd = cmd.mkdirs.len();
    let mut i: usize = 0;
    proof {
        assert(views_of(cmd.mkdirs@).take(0) =~= Seq::<Seq<char>>::empty());
        assert(dirs_section_spec(views_of(cmd.mkdirs@).take(0), dir_exists@.take(0)) =~= Seq::<
            Seq<char>,
        >::empty());
        assert(views_of(index@) =~= seq!["# Directories"@]);
    }
    while i < nd
        invariant
            i <= nd,
            nd == cmd.mkdirs@.len(),
            dir_exists@.len() == nd,
            views_of(index@) == seq!["# Directories"@] + dirs_section_spec(
                views_of(cmd.mkdirs@).take(i as int),
                dir_exists@.take(i as int),
            ),
        decreases nd - i,
    {
        let ghost pre = views_of(index@);
        index.push(cmd.mkdirs[i].clone());
        if dir_exists[i] {
            index.push("# Directory already exists: {dir:?}".to_owned());
        }
        proof {
            assert(views_of(cmd.mkdirs@).take(i + 1).drop_last() =~= views_of(cmd.mkdirs@).take(
                i as int,
            ));
            assert(dir_exists@.take(i + 1).drop_last() =~= dir_exists@.take(i as int));
            assert(views_of(cmd.mkdirs@).take(i + 1).last() == cmd.mkdirs@[i as int]@);
            assert(views_of(index@) =~= pre + dir_lines_spec(
                cmd.mkdirs@[i as int]@,
                dir_exists@[i as int],
            ));
        }
        i = i + 1;
    }
    proof {
        assert(views_of(cmd.mkdirs@).take(nd as int) =~= views_of(cmd.mkdirs@));
        assert(dir_exists@.take(nd as int) =~= dir_exists@);
    }

    index.push("# Files".to_owned());
    let ghost dirs_part = views_of(index@);

    let ni = cmd.items.len();
    let mut j: usize = 0;
    proof {
        assert(old(cmd).items@.take(0) =~= Seq::<InstallItem>::empty());
        assert(sim_items_section_spec(old(cmd).items@.take(0), dest_exists@.take(0)) =~= Seq::<
            Seq<char>,
        >::empty());
    }
    while j < ni
        invariant
            j <= ni,
            ni == cmd.items@.len() == old(cmd).items@.len(),
            dest_exists@.len() == ni,
            cmd.mkdirs == old(cmd).mkdirs,
            cmd.name == old(cmd).name,
            cmd.source == old(cmd).source,
            cmd.version == old(cmd).version,
            cmd.description == old(cmd).description,
            forall|k: int| j <= k < ni ==> #[trigger] cmd.items@[k] == old(cmd).items@[k],
            forall|k: int|
                0 <= k < j ==> {
                    &&& (#[trigger] cmd.items@[k]).target@ == old(cmd).items@[k].target@
                    &&& cmd.items@[k].dest@ == old(cmd).items@[k].dest@
                    &&& cmd.items@[k].perms == old(cmd).items@[k].perms
                    &&& cmd.items@[k].strip_ext == old(cmd).items@[k].strip_ext
                    &&& cmd.items@[k].overwrite == old(cmd).items@[k].overwrite
                    &&& cmd.items@[k].comment@ == install_comment_spec(
                        old(cmd).items@[k],
                        dest_exists@[k],
                        true,
                        CopyOutcome::NotAttempted,
                    )
                },
            views_of(index@) == dirs_part + sim_items_section_spec(
                old(cmd).items@.take(j as int),
                dest_exists@.take(j as int),
            ),
            dirs_part == seq!["# Directories"@] + dirs_section_spec(
                views_of(old(cmd).mkdirs@),
                dir_exists@,
            ) + seq!["# Files"@],
        decreases ni - j,
    {
        let ghost pre = views_of(index@);
        let ghost it0 = old(cmd).items@[j as int];
        let de = dest_exists[j];
        let _ = cmd.items[j].try_install(true, de, &CopyOutcome::NotAttempted);
        index.push(cmd.items[j].print_dest());
        index.push(cmd.items[j].comment.clone());
        proof {
            assert(old(cmd).items@.take(j + 1).drop_last() =~= old(cmd).items@.take(j as int));
            assert(dest_exists@.take(j + 1).drop_last() =~= dest_exists@.take(j as int));
            assert(old(cmd).items@.take(j + 1).last() == it0);
            assert(views_of(index@) =~= pre + seq![
                it0.dest@,
                install_comment_spec(it0, de, true, CopyOutcome::NotAttempted),
            ]);
        }
        j = j + 1;
    }
    proof {
        assert(old(cmd).items@.take(ni as int) =~= old(cmd).items@);
        assert(dest_exists@.take(ni as int) =~= dest_exists@);
        assert(views_of(index@) =~= sim_index_spec(*old(cmd), dir_exists@, dest_exists@));
    }
    index
}

/// An orphan is actually deleted only when it still exists on disk and
/// the run is not a simulation.
pub fn should_delete_orphan(path_exists: bool, do_dry_run: bool) -> (r: bool)
    ensures
        r == (path_exists && !do_dry_run),
{
    path_exists && !do_dry_run
}
/// Membership in the orphan list is exactly "recorded before, not a
/// comment, and absent from the new index".
pub proof fn lemma_orphans_membership(old_index: Seq<Seq<char>>, new_index: Seq<Seq<char>>)
    ensures
        forall|l: Seq<char>|
            #![trigger orphans_spec(old_index, new_index).contains(l)]
            orphans_spec(old_index, new_index).contains(l) <==> (old_index.contains(l)
                && !is_comment_spec(l) && !new_index.contains(l)),
    decreases old_index.len(),
{
    if old_index.len() > 0 {
        lemma_orphans_membership(old_index.drop_last(), new_index);
    }
    let full = orphans_spec(old_index, new_index);
    assert forall|l: Seq<char>|
        #![trigger orphans_spec(old_index, new_index).contains(l)]
        orphans_spec(old_index, new_index).contains(l) <==> (old_index.contains(l)
            && !is_comment_spec(l) && !new_index.contains(l)) by {
        if old_index.len() > 0 {
            let rest = orphans_spec(old_index.drop_last(), new_index);
            let last = old_index.last();
            if full.contains(l) {
                let j = choose|j: int| 0 <= j < full.len() && full[j] == l;
                if orphan_spec(last, new_index) && j == full.len() - 1 {
                    assert(full[j] == last);
                    assert(old_index[old_index.len() - 1] == l);
                    assert(old_index.contains(l));
                } else {
                    assert(rest[j] == l);
                    assert(rest.contains(l));
                    assert(old_index.drop_last().contains(l));
                    let k = choose|k: int|
                        0 <= k < old_index.drop_last().len() && old_index.drop_last()[k] == l;
                    assert(old_index[k] == l);
                    assert(old_index.contains(l));
                }
            }
            if old_index.contains(l) && !is_comment_spec(l) && !new_index.contains(l) {
                let j = choose|j: int| 0 <= j < old_index.len() && old_index[j] == l;
                if j < old_index.len() - 1 {
                    assert(old_index.drop_last()[j] == l);
                    assert(old_index.drop_last().contains(l));
                    assert(rest.contains(l));
                    let k = choose|k: int| 0 <= k < rest.len() && rest[k] == l;
                    assert(full[k] == rest[k]);
                    assert(full.contains(l));
                } else {
                    assert(l == last);
                    assert(full[full.len() - 1] == l);
                    assert(full.contains(l));
                }
            }
        }
    }
}

/// Reconciling an index against itself finds nothing: running the same
/// install twice in a row leaves no orphans on the second run.
pub proof fn lemma_reinstall_finds_no_orphans(index: Seq<Seq<char>>)
    ensures
        orphans_spec(index, index) == Seq::<Seq<char>>::empty(),
{
    lemma_covered_index_has_no_orphans(index, index);
}

/// Keeping only the nonempty lines changes nothing when every line is
/// nonempty.
proof fn lemma_nonempty_of_identity(lines: Seq<Seq<char>>)
    requires
        forall|i: int| 0 <= i < lines.len() ==> (#[trigger] lines[i]).len() > 0,
    ensures
        nonempty_of(lines) == lines,
    decreases lines.len(),
{
    if lines.len() > 0 {
        assert forall|i: int| 0 <= i < lines.drop_last().len() implies (#[trigger] lines.drop_last()[
        i]).len() > 0 by {
            assert(lines.drop_last()[i] == lines[i]);
        }
        lemma_nonempty_of_identity(lines.drop_last());
        assert(nonempty_of(lines) =~= lines);
    }
}

/// Writing a fresh index and reading it back yields the same lines:
/// the stored file is the lines joined with newlines, and parsing
/// undoes that exactly, as long as every line is nonempty and free of
/// newlines and the file's edges carry no stray whitespace.
pub proof fn lemma_index_store_round_trip(lines: Seq<Seq<char>>)
    requires
        lines.len() > 0,
        forall|i: int| 0 <= i < lines.len() ==> (#[trigger] lines[i]).len() > 0,
        forall|i: int| 0 <= i < lines.len() ==> !(#[trigger] lines[i]).contains('\n'),
        !crate::text::is_space(lines[0][0]),
        !crate::text::is_space(lines.last().last()),
    ensures
        index_lines_spec(crate::text::join_newline_spec(lines)) == lines,
{
    let s = crate::text::join_newline_spec(lines);
    crate::text::lemma_join_newline_first_last(lines);
    assert(trim_spec(s) == s);
    crate::text::lemma_split_join_newline(lines);
    lemma_nonempty_of_identity(lines);
}

/// Installing twice in a row with an unchanged manifest: the second run
/// reads back the index the first run stored and, producing the same
/// lines again, finds nothing to remove.
pub proof fn lemma_second_run_finds_no_orphans(lines: Seq<Seq<char>>)
    requires
        lines.len() > 0,
        forall|i: int| 0 <= i < lines.len() ==> (#[trigger] lines[i]).len() > 0,
        forall|i: int| 0 <= i < lines.len() ==> !(#[trigger] lines[i]).contains('\n'),
        !crate::text::is_space(lines[0][0]),
        !crate::text::is_space(lines.last().last()),
    ensures
        orphans_spec(index_lines_spec(crate::text::join_newline_spec(lines)), lines) == Seq::<
            Seq<char>,
        >::empty(),
{
    lemma_index_store_round_trip(lines);
    lemma_reinstall_finds_no_orphans(lines);
}

/// When every non-comment line of the old index still occurs in the new
/// one — the new run produced a superset — nothing is an orphan.
pub proof fn lemma_covered_index_has_no_orphans(
    old_index: Seq<Seq<char>>,
    new_index: Seq<Seq<char>>,
)
    requires
        forall|j: int|
            0 <= j < old_index.len() && !is_comment_spec(#[trigger] old_index[j])
                ==> new_index.contains(old_index[j]),
    ensures
        orphans_spec(old_index, new_index) == Seq::<Seq<char>>::empty(),
    decreases old_index.len(),
{
    if old_index.len() > 0 {
        assert forall|j: int|
            0 <= j < old_index.drop_last().len() && !is_comment_spec(
                #[trigger] old_index.drop_last()[j],
            ) implies new_index.contains(old_index.drop_last()[j]) by {
            assert(old_index.drop_last()[j] == old_index[j]);
        }
        lemma_covered_index_has_no_orphans(old_index.drop_last(), new_index);
        assert(old_index[old_index.len() - 1] == old_index.last());
    }
}

} // verus!
