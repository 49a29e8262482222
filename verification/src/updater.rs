//! Version comparison and the update decision.
//!
//! A version string is split on dots and compared component by
//! component, numerically, left to right. A component present in one
//! version but missing in the other makes the longer version greater;
//! a component that is not a number makes the comparison undecided.

use vstd::prelude::*;
use crate::main_index::GlobalIndex;
use crate::main_index::PkgRecord;
use crate::text::split_spec;
use crate::text::split_char;

verus! {

/// The numeric value of a decimal digit, or 10 for any other character.
pub open spec fn digit_val(c: char) -> nat {
    if c == '0' {
        0
    } else if c == '1' {
        1
    } else if c == '2' {
        2
    } else if c == '3' {
        3
    } else if c == '4' {
        4
    } else if c == '5' {
        5
    } else if c == '6' {
        6
    } else if c == '7' {
        7
    } else if c == '8' {
        8
    } else if c == '9' {
        9
    } else {
        10
    }
}

pub open spec fn is_digit(c: char) -> bool {
    digit_val(c) < 10
}

pub open spec fn all_digits(s: Seq<char>) -> bool {
    forall|i: int| 0 <= i < s.len() ==> is_digit(#[trigger] s[i])
}

/// The number a digit string denotes.
pub open spec fn digits_val(s: Seq<char>) -> nat
    decreases s.len(),
{
    if s.len() == 0 {
        0
    } else {
        digits_val(s.drop_last()) * 10 + digit_val(s.last())
    }
}

/// What `str::parse::<i32>` accepts: an optional sign followed by at
/// least one digit, denoting a value that fits in an `i32`.
pub open spec fn parse_i32_spec(s: Seq<char>) -> Option<int> {
    let negative = s.len() > 0 && s[0] == '-';
    let digits = if s.len() > 0 && (s[0] == '-' || s[0] == '+') {
        s.drop_first()
    } else {
        s
    };
    if digits.len() == 0 || !all_digits(digits) {
        None
    } else {
        let v = if negative {
            -1 * digits_val(digits)
        } else {
            digits_val(digits) as int
        };
        if -0x8000_0000 <= v <= 0x7fff_ffff {
            Some(v)
        } else {
            None
        }
    }
}

fn digit_of(c: char) -> (r: Option<u64>)
    ensures
        match r {
            Some(d) => is_digit(c) && d == digit_val(c),
            None => !is_digit(c),
        },
{
    match c {
        '0' => Some(0),
        '1' => Some(1),
        '2' => Some(2),
        '3' => Some(3),
        '4' => Some(4),
        '5' => Some(5),
        '6' => Some(6),
        '7' => Some(7),
        '8' => Some(8),
        '9' => Some(9),
        _ => None,
    }
}

/// Parse a signed 32-bit integer the way `str::parse::<i32>` does.
pub fn parse_i32(s: &str) -> (r: Option<i32>)
    ensures
        match r {
            Some(v) => parse_i32_spec(s@) == Some(v as int),
            None => parse_i32_spec(s@) is None,
        },
{
    let n = s.unicode_len();
    let (negative, start): (bool, usize) = if n > 0 && (s.get_char(0) == '-' || s.get_char(0)
        == '+') {
        (s.get_char(0) == '-', 1)
    } else {
        (false, 0)
    };
    let ghost digits = if start == 1 {
        s@.drop_first()
    } else {
        s@
    };
    proof {
        assert(digits =~= s@.subrange(start as int, n as int));
    }
    if n == start {
        return None;
    }
    // accumulate, clamping at 2^32: any clamped value is out of range
    // for an i32 whatever the sign
    let mut acc: u64 = 0;
    let mut i = start;
    while i < n
        invariant
            start <= i <= n,
            n == s@.len(),
            digits == s@.subrange(start as int, n as int),
            start == 0 || start == 1,
            (start == 1) == (s@.len() > 0 && (s@[0] == '-' || s@[0] == '+')),
            negative == (s@.len() > 0 && s@[0] == '-'),
            all_digits(digits.take(i - start)),
            acc <= 0x1_0000_0000,
            (acc == 0x1_0000_0000 && digits_val(digits.take(i - start)) >= 0x1_0000_0000) || (acc
                == digits_val(digits.take(i - start)) && acc < 0x1_0000_0000),
        decreases n - i,
    {
        let ghost pre = digits.take(i - start);
        proof {
            assert(digits.take(i - start + 1).drop_last() =~= pre);
            assert(digits.take(i - start + 1).last() == s@[i as int]);
        }
        let d = match digit_of(s.get_char(i)) {
            Some(d) => d,
            None => {
                proof {
                    assert(!is_digit(digits[i - start]));
                }
                return None;
            },
        };
        proof {
            assert(digits_val(digits.take(i - start + 1)) == digits_val(pre) * 10 + digit_val(
                s@[i as int],
            ));
            assert forall|k: int| 0 <= k < i - start + 1 implies is_digit(
                #[trigger] digits.take(i - start + 1)[k],
            ) by {
                if k < i - start {
                    assert(digits.take(i - start + 1)[k] == pre[k]);
                } else {
                    assert(digits.take(i - start + 1)[k] == s@[i as int]);
                }
            }
        }
        let ghost dv_new = digits_val(digits.take(i - start + 1));
        proof {
            assert(d < 10);
            assert(dv_new == digits_val(pre) * 10 + d);
            if acc == 0x1_0000_0000 {
                assert(digits_val(pre) >= 0x1_0000_0000);
                assert(digits_val(pre) * 10 >= 0x1_0000_0000) by (nonlinear_arith)
                    requires
                        digits_val(pre) >= 0x1_0000_0000,
                ;
                assert(dv_new >= 0x1_0000_0000);
            } else {
                assert(acc == digits_val(pre));
                assert(dv_new == acc * 10 + d);
            }
        }
        acc = if acc * 10 + d >= 0x1_0000_0000 {
            0x1_0000_0000
        } else {
            acc * 10 + d
        };
        i = i + 1;
    }
    proof {
        assert(digits.take(n - start) =~= digits);
    }
    if acc >= 0x1_0000_0000 {
        return None;
    }
    if negative {
        if acc > 0x8000_0000 {
            return None;
        }
        let v: i64 = -(acc as i64);
        return Some(v as i32);
    }
    if acc > 0x7fff_ffff {
        return None;
    }
    Some(acc as i32)
}

/// Compare two lists of version components, left to right: the first
/// numerically different pair decides; a missing component loses; a
/// non-numeric component makes the result undecided.
pub open spec fn cmp_components_spec(a: Seq<Seq<char>>, b: Seq<Seq<char>>) -> Option<bool>
    decreases a.len() + b.len(),
{
    if b.len() == 0 {
        Some(false)
    } else if a.len() == 0 {
        Some(true)
    } else {
        match (parse_i32_spec(a[0]), parse_i32_spec(b[0])) {
            (Some(n1), Some(n2)) => {
                if n1 == n2 {
                    cmp_components_spec(a.drop_first(), b.drop_first())
                } else {
                    Some(n1 < n2)
                }
            },
            _ => None,
        }
    }
}

/// Whether version `new_v` is strictly newer than version `old_v`, or
/// `None` when the strings cannot be compared.
pub open spec fn compare_versions_spec(old_v: Seq<char>, new_v: Seq<char>) -> Option<bool> {
    cmp_components_spec(split_spec(old_v, '.'), split_spec(new_v, '.'))
}

/// Returns `Some(true)` exactly when `new_v` is newer than `old_v`,
/// `Some(false)` when it is the same or older, and `None` when some
/// component of either version is not a number.
pub fn compare_versions(old_v: &str, new_v: &str) -> (r: Option<bool>)
    ensures
        r == compare_versions_spec(old_v@, new_v@),
{
    let a = split_char(old_v, '.');
    let b = split_char(new_v, '.');
    let ghost av = a@.map_values(|t: String| t@);
    let ghost bv = b@.map_values(|t: String| t@);
    let na = a.len();
    let nb = b.len();
    let mut i: usize = 0;
    proof {
        assert(av.skip(0) =~= av);
        assert(bv.skip(0) =~= bv);
    }
    loop
        invariant
            i <= na,
            i <= nb,
            na == av.len(),
            nb == bv.len(),
            av == a@.map_values(|t: String| t@),
            bv == b@.map_values(|t: String| t@),
            compare_versions_spec(old_v@, new_v@) == cmp_components_spec(av, bv),
            cmp_components_spec(av.skip(i as int), bv.skip(i as int)) == cmp_components_spec(
                av,
                bv,
            ),
        decreases na - i,
    {
        if i >= nb {
            proof {
                assert(bv.skip(i as int) =~= Seq::<Seq<char>>::empty());
            }
            return Some(false);
        }
        if i >= na {
            proof {
                assert(av.skip(i as int) =~= Seq::<Seq<char>>::empty());
            }
            return Some(true);
        }
        proof {
            assert(av.skip(i as int)[0] == av[i as int]);
            assert(bv.skip(i as int)[0] == bv[i as int]);
            assert(av[i as int] == a@[i as int]@);
            assert(bv[i as int] == b@[i as int]@);
        }
        let n1 = match parse_i32(a[i].as_str()) {
            Some(v) => v,
            None => {
                return None;
            },
        };
        let n2 = match parse_i32(b[i].as_str()) {
            Some(v) => v,
            None => {
                return None;
            },
        };
        if n1 != n2 {
            return Some(n1 < n2);
        }
        proof {
            assert(av.skip(i as int).drop_first() =~= av.skip(i + 1));
            assert(bv.skip(i as int).drop_first() =~= bv.skip(i + 1));
        }
        i = i + 1;
    }
}

/// The manifest a package's updates are read from: `source/name.charon`.
pub open spec fn source_manifest_path_spec(source: Seq<char>, name: Seq<char>) -> Seq<char> {
    source + "/"@ + name + ".charon"@
}

pub fn source_manifest_path(source: &str, name: &str) -> (r: String)
    ensures
        r@ == source_manifest_path_spec(source@, name@),
{
    let mut r = source.to_owned();
    r.append("/");
    r.append(name);
    r.append(".charon");
    proof {
        assert(r@ =~= source_manifest_path_spec(source@, name@));
    }
    r
}

/// What the caller learned from a package's source manifest.
#[derive(Debug, Clone, PartialEq, Eq)]
pub enum RemoteProbe {
    /// The entry lacked the fields needed to probe, so nothing was read.
    NotProbed,
    /// The manifest could not be read or parsed.
    Unreadable,
    /// The manifest has no `info` section.
    NoInfo,
    /// The `info` section has no version string.
    NoVersion,
    /// The version string the source manifest declares.
    Version(String),
}

/// Whether one package is updated: it needs a recorded version and
/// source, a readable source manifest with a version, and that version
/// must compare strictly newer.
pub open spec fn wants_update_spec(rec: PkgRecord, probe: RemoteProbe) -> bool {
    &&& rec.version is Some
    &&& rec.source is Some
    &&& probe matches RemoteProbe::Version(v) && compare_versions_spec(
        rec.version->0@,
        v@,
    ) == Some(true)
}

/// Decide whether a package is updated, from its record and what the
/// probe of its source manifest found.
pub fn wants_update(rec: &PkgRecord, probe: &RemoteProbe) -> (r: bool)
    ensures
        r == wants_update_spec(*rec, *probe),
{
    let old_v = match &rec.version {
        Some(v) => v,
        None => {
            return false;
        },
    };
    if rec.source.is_none() {
        return false;
    }
    let new_v = match probe {
        RemoteProbe::Version(v) => v,
        _ => {
            return false;
        },
    };
    match compare_versions(old_v.as_str(), new_v.as_str()) {
        Some(true) => true,
        _ => false,
    }
}

/// The packages an update run touches, with the manifest each one is
/// reinstalled from, in index order.
pub open spec fn collect_updates_spec(
    entries: Seq<(String, PkgRecord)>,
    probes: Seq<RemoteProbe>,
) -> (Seq<Seq<char>>, Seq<Seq<char>>)
    decreases entries.len(),
{
    if entries.len() == 0 {
        (Seq::empty(), Seq::empty())
    } else {
        let rest = collect_updates_spec(entries.drop_last(), probes.drop_last());
        let e = entries.last();
        if wants_update_spec(e.1, probes.last()) {
            (
                rest.0.push(e.0@),
                rest.1.push(source_manifest_path_spec(e.1.source->0@, e.0@)),
            )
        } else {
            rest
        }
    }
}

/// Walk the whole index with the probe results the caller gathered and
/// collect every package that is updated, with its manifest path.
pub fn collect_updates(index: &GlobalIndex, probes: &Vec<RemoteProbe>) -> (r: (
    Vec<String>,
    Vec<String>,
))
    requires
        probes@.len() == index.entries@.len(),
    ensures
        r.0@.map_values(|s: String| s@) == collect_updates_spec(index.entries@, probes@).0,
        r.1@.map_values(|s: String| s@) == collect_updates_spec(index.entries@, probes@).1,
{
    let mut names: Vec<String> = Vec::new();
    let mut paths: Vec<String> = Vec::new();
    let n = index.entries.len();
    let mut i: usize = 0;
    proof {
        assert(index.entries@.take(0) =~= Seq::<(String, PkgRecord)>::empty());
        assert(probes@.take(0) =~= Seq::<RemoteProbe>::empty());
    }
    while i < n
        invariant
            i <= n,
            n == index.entries@.len(),
            probes@.len() == n,
            names@.map_values(|s: String| s@) == collect_updates_spec(
                index.entries@.take(i as int),
                probes@.take(i as int),
            ).0,
            paths@.map_values(|s: String| s@) == collect_updates_spec(
                index.entries@.take(i as int),
                probes@.take(i as int),
            ).1,
        decreases n - i,
    {
        let ghost pre_names = names@.map_values(|s: String| s@);
        let ghost pre_paths = paths@.map_values(|s: String| s@);
        proof {
            assert(index.entries@.take(i + 1).drop_last() =~= index.entries@.take(i as int));
            assert(probes@.take(i + 1).drop_last() =~= probes@.take(i as int));
            assert(index.entries@.take(i + 1).last() == index.entries@[i as int]);
            assert(probes@.take(i + 1).last() == probes@[i as int]);
        }
        if wants_update(&index.entries[i].1, &probes[i]) {
            let name = &index.entries[i].0;
            let src = match &index.entries[i].1.source {
                Some(s) => s.clone(),
                None => {
                    // excluded: wants_update demands a recorded source
                    proof {
                        assert(false);
                    }
                    String::new()
                },
            };
            names.push(name.clone());
            paths.push(source_manifest_path(src.as_str(), name.as_str()));
            proof {
                assert(names@.map_values(|s: String| s@) =~= pre_names.push(index.entries@[
                i as int].0@));
                assert(paths@.map_values(|s: String| s@) =~= pre_paths.push(
                    source_manifest_path_spec(
                        index.entries@[i as int].1.source->0@,
                        index.entries@[i as int].0@,
                    ),
                ));
            }
        }
        i = i + 1;
    }
    proof {
        assert(index.entries@.take(n as int) =~= index.entries@);
        assert(probes@.take(n as int) =~= probes@);
    }
    (names, paths)
}

/// The confirmation message an update run shows: every package about to
/// be touched, one per line.
pub open spec fn update_prompt_spec(names: Seq<Seq<char>>) -> Seq<char> {
    "The following utils will be updated: \n"@ + crate::text::join_newline_spec(names) + "\n"@
}

pub fn update_prompt(names: &Vec<String>) -> (r: String)
    ensures
        r@ == update_prompt_spec(names@.map_values(|s: String| s@)),
{
    let mut r = "The following utils will be updated: \n".to_owned();
    r.append(crate::text::join_newline(names).as_str());
    r.append("\n");
    proof {
        assert(r@ =~= update_prompt_spec(names@.map_values(|s: String| s@)));
    }
    r
}

/// The lines of a forced update's confirmation: each package with the
/// source path it resolves to.
pub open spec fn force_lines_spec(names: Seq<Seq<char>>, paths: Seq<Seq<char>>) -> Seq<Seq<char>>
    decreases names.len(),
{
    if names.len() == 0 {
        Seq::empty()
    } else {
        force_lines_spec(names.drop_last(), paths.drop_last()).push(
            names.last() + "\t\t\""@ + paths.last() + "\""@,
        )
    }
}

/// The confirmation message a forced update shows.
pub open spec fn force_prompt_spec(names: Seq<Seq<char>>, paths: Seq<Seq<char>>) -> Seq<char> {
    "Found source paths for the following source paths:\n"@ + crate::text::join_newline_spec(
        force_lines_spec(names, paths),
    ) + "\n\nWould you like to continue?"@
}

pub fn force_update_prompt(names: &Vec<String>, paths: &Vec<String>) -> (r: String)
    ensures
        names@.len() == paths@.len() ==> r@ == force_prompt_spec(
            names@.map_values(|s: String| s@),
            paths@.map_values(|s: String| s@),
        ),
{
    let ghost nv = names@.map_values(|s: String| s@);
    let ghost pv = paths@.map_values(|s: String| s@);
    let mut lines: Vec<String> = Vec::new();
    let n = if names.len() < paths.len() {
        names.len()
    } else {
        paths.len()
    };
    let mut i: usize = 0;
    proof {
        if names@.len() == paths@.len() {
            assert(nv.take(0) =~= Seq::<Seq<char>>::empty());
            assert(pv.take(0) =~= Seq::<Seq<char>>::empty());
        }
    }
    while i < n
        invariant
            i <= n,
            n <= names@.len(),
            n <= paths@.len(),
            nv == names@.map_values(|s: String| s@),
            pv == paths@.map_values(|s: String| s@),
            names@.len() == paths@.len() ==> lines@.map_values(|s: String| s@)
                == force_lines_spec(nv.take(i as int), pv.take(i as int)),
        decreases n - i,
    {
        let ghost pre = lines@.map_values(|s: String| s@);
        let mut line = names[i].clone();
        line.append("\t\t\"");
        line.append(paths[i].as_str());
        line.append("\"");
        lines.push(line);
        proof {
            if names@.len() == paths@.len() {
                assert(nv.take(i + 1).drop_last() =~= nv.take(i as int));
                assert(pv.take(i + 1).drop_last() =~= pv.take(i as int));
                assert(lines@.map_values(|s: String| s@) =~= pre.push(
                    nv[i as int] + "\t\t\""@ + pv[i as int] + "\""@,
                ));
            }
        }
        i = i + 1;
    }
    let mut r = "Found source paths for the following source paths:\n".to_owned();
    r.append(crate::text::join_newline(&lines).as_str());
    r.append("\n\nWould you like to continue?");
    proof {
        if names@.len() == paths@.len() {
            assert(nv.take(n as int) =~= nv);
            assert(pv.take(n as int) =~= pv);
            assert(r@ =~= force_prompt_spec(nv, pv));
        }
    }
    r
}

/// The packages a forced update touches: each requested name that has a
/// recorded source, with that source, in request order.
pub open spec fn force_targets_spec(
    entries: Seq<(String, PkgRecord)>,
    utils: Seq<Seq<char>>,
) -> (Seq<Seq<char>>, Seq<Seq<char>>)
    decreases utils.len(),
{
    if utils.len() == 0 {
        (Seq::empty(), Seq::empty())
    } else {
        let rest = force_targets_spec(entries, utils.drop_last());
        let idx = crate::main_index::index_of_name(entries, utils.last());
        if idx >= 0 && entries[idx].1.source is Some {
            (rest.0.push(utils.last()), rest.1.push(entries[idx].1.source->0@))
        } else {
            rest
        }
    }
}

/// Resolve the requested packages against the index: the names that
/// have a recorded source, with those sources.
pub fn force_update_targets(index: &GlobalIndex, utils: &Vec<String>) -> (r: (
    Vec<String>,
    Vec<String>,
))
    ensures
        r.0@.map_values(|s: String| s@) == force_targets_spec(
            index.entries@,
            utils@.map_values(|s: String| s@),
        ).0,
        r.1@.map_values(|s: String| s@) == force_targets_spec(
            index.entries@,
            utils@.map_values(|s: String| s@),
        ).1,
{
    let mut names: Vec<String> = Vec::new();
    let mut paths: Vec<String> = Vec::new();
    let ghost us = utils@.map_values(|s: String| s@);
    let n = utils.len();
    let mut i: usize = 0;
    proof {
        assert(us.take(0) =~= Seq::<Seq<char>>::empty());
    }
    while i < n
        invariant
            i <= n,
            n == utils@.len(),
            us == utils@.map_values(|s: String| s@),
            names@.map_values(|s: String| s@) == force_targets_spec(
                index.entries@,
                us.take(i as int),
            ).0,
            paths@.map_values(|s: String| s@) == force_targets_spec(
                index.entries@,
                us.take(i as int),
            ).1,
        decreases n - i,
    {
        let ghost pre_names = names@.map_values(|s: String| s@);
        let ghost pre_paths = paths@.map_values(|s: String| s@);
        proof {
            assert(us.take(i + 1).drop_last() =~= us.take(i as int));
            assert(us.take(i + 1).last() == utils@[i as int]@);
        }
        match index.lookup(utils[i].as_str()) {
            Some(rec) => {
                match &rec.source {
                    Some(src) => {
                        names.push(utils[i].clone());
                        paths.push(src.clone());
                        proof {
                            assert(names@.map_values(|s: String| s@) =~= pre_names.push(utils@[
                            i as int]@));
                            assert(paths@.map_values(|s: String| s@) =~= pre_paths.push(
                                index.entries@[crate::main_index::index_of_name(
                                    index.entries@,
                                    utils@[i as int]@,
                                )].1.source->0@,
                            ));
                        }
                    },
                    None => {},
                }
            },
            None => {},
        }
        i = i + 1;
    }
    proof {
        assert(us.take(n as int) =~= us);
    }
    (names, paths)
}

} // verus!
