//! Naming rules for manifest files.
//!
//! A manifest carries the `charon` extension; the package name comes
//! from the manifest file's stem, or, when the manifest is named
//! otherwise, from the directory that holds it.

use vstd::prelude::*;
use crate::paths::extension_spec;
use crate::paths::extension_of;
use crate::paths::file_stem_spec;
use crate::paths::file_stem_of;
use crate::paths::parent_spec;
use crate::paths::parent_of;
use crate::text::str_eq;

verus! {

/// A manifest file name: the path's extension is `charon`.
pub open spec fn has_charon_ext_spec(p: Seq<char>) -> bool {
    extension_spec(p) == Some("charon"@)
}

pub fn has_charon_ext(p: &str) -> (r: bool)
    ensures
        r == has_charon_ext_spec(p@),
{
    match extension_of(p) {
        Some(e) => str_eq(e.as_str(), "charon"),
        None => false,
    }
}

/// The package name a manifest path implies: the file's stem when the
/// file itself is a manifest, else the stem of its parent directory.
/// There is no name when the path has no extension at all, or when the
/// needed stem does not exist.
pub open spec fn util_name_spec(p: Seq<char>) -> Option<Seq<char>> {
    match extension_spec(p) {
        None => None,
        Some(e) => {
            if e == "charon"@ {
                file_stem_spec(p)
            } else {
                match parent_spec(p) {
                    None => None,
                    Some(par) => file_stem_spec(par),
                }
            }
        },
    }
}

pub fn parse_util_name(p: &str) -> (r: Option<String>)
    ensures
        match r {
            Some(s) => util_name_spec(p@) == Some(s@),
            None => util_name_spec(p@) is None,
        },
{
    let ext = match extension_of(p) {
        Some(e) => e,
        None => {
            return None;
        },
    };
    if str_eq(ext.as_str(), "charon") {
        file_stem_of(p)
    } else {
        match parent_of(p) {
            Some(par) => file_stem_of(par.as_str()),
            None => None,
        }
    }
}

/// The first entry of a directory listing that names a manifest file,
/// the way the installer scans a directory for one.
pub fn first_charon_file(names: &Vec<String>) -> (r: Option<String>)
    ensures
        match r {
            Some(s) => exists|i: int|
                0 <= i < names@.len() && names@[i]@ == s@ && has_charon_ext_spec(#[trigger] names@[
                i]@) && forall|j: int| 0 <= j < i ==> !has_charon_ext_spec(#[trigger] names@[j]@),
            None => forall|j: int|
                0 <= j < names@.len() ==> !has_charon_ext_spec(#[trigger] names@[j]@),
        },
{
    let n = names.len();
    let mut i: usize = 0;
    while i < n
        invariant
            i <= n,
            n == names@.len(),
            forall|j: int| 0 <= j < i ==> !has_charon_ext_spec(#[trigger] names@[j]@),
        decreases n - i,
    {
        if has_charon_ext(names[i].as_str()) {
            return Some(names[i].clone());
        }
        i = i + 1;
    }
    None
}

} // verus!
