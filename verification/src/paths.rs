//! String-level path manipulation for Unix-style paths.
//!
//! The installer treats every path as a plain string, so the usual path
//! operations (joining, taking the file name, stripping an extension) are
//! defined here as verified functions over character sequences.

use vstd::prelude::*;

verus! {

/// A path is absolute when it starts with a slash.
pub open spec fn is_absolute_spec(p: Seq<char>) -> bool {
    p.len() > 0 && p[0] == '/'
}

pub fn is_absolute(p: &str) -> (r: bool)
    ensures
        r == is_absolute_spec(p@),
{
    if p.unicode_len() == 0 {
        return false;
    }
    p.get_char(0) == '/'
}

/// Joining a directory and a further component, the way `PathBuf::push`
/// does it: an absolute component replaces the directory entirely, and a
/// separator is inserted only where one is missing.
pub open spec fn join_spec(dir: Seq<char>, name: Seq<char>) -> Seq<char> {
    if is_absolute_spec(name) {
        name
    } else if dir.len() == 0 {
        name
    } else if dir[dir.len() - 1] == '/' {
        dir + name
    } else {
        dir + seq!['/'] + name
    }
}

pub fn join(dir: &str, name: &str) -> (r: String)
    ensures
        r@ == join_spec(dir@, name@),
{
    let dir_len = dir.unicode_len();
    if is_absolute(name) || dir_len == 0 {
        return name.to_owned();
    }
    let mut r = dir.to_owned();
    if dir.get_char(dir_len - 1) != '/' {
        r.append("/");
        proof {
            reveal_strlit("/");
            assert(r@ =~= dir@ + seq!['/']);
        }
    }
    r.append(name);
    proof {
        if dir@[dir@.len() - 1] == '/' {
            assert(r@ =~= dir@ + name@);
        } else {
            assert(r@ =~= dir@ + seq!['/'] + name@);
        }
    }
    r
}

/// Index of the last occurrence of `c` in `s`, or -1 when `c` does not occur.
pub open spec fn last_index_spec(s: Seq<char>, c: char) -> int
    decreases s.len(),
{
    if s.len() == 0 {
        -1
    } else if s[s.len() - 1] == c {
        s.len() - 1
    } else {
        last_index_spec(s.drop_last(), c)
    }
}

pub proof fn lemma_last_index(s: Seq<char>, c: char)
    ensures
        -1 <= last_index_spec(s, c) < s.len(),
        last_index_spec(s, c) == -1 ==> forall|j: int| 0 <= j < s.len() ==> s[j] != c,
        last_index_spec(s, c) >= 0 ==> {
            let i = last_index_spec(s, c);
            &&& i < s.len()
            &&& s[i] == c
            &&& forall|j: int| i < j < s.len() ==> s[j] != c
        },
    decreases s.len(),
{
    if s.len() > 0 && s[s.len() - 1] != c {
        lemma_last_index(s.drop_last(), c);
        let i = last_index_spec(s, c);
        assert forall|j: int| i < j < s.len() implies s[j] != c by {
            if j < s.len() - 1 {
                assert(s[j] == s.drop_last()[j]);
            }
        }
        if i >= 0 {
            assert(s[i] == s.drop_last()[i]);
        }
    }
}

/// Scan for the last occurrence of `c`.
pub fn last_char_index(s: &str, c: char) -> (r: Option<usize>)
    ensures
        match r {
            Some(i) => i == last_index_spec(s@, c),
            None => last_index_spec(s@, c) == -1,
        },
{
    let n = s.unicode_len();
    let mut i = n;
    proof {
        assert(s@.take(n as int) =~= s@);
    }
    while i > 0
        invariant
            i <= n,
            n == s@.len(),
            last_index_spec(s@.take(i as int), c) == last_index_spec(s@, c),
        decreases i,
    {
        proof {
            assert(s@.take(i as int).drop_last() =~= s@.take(i - 1));
        }
        i = i - 1;
        if s.get_char(i) == c {
            proof {
                assert(s@.take(i + 1)[i as int] == c);
            }
            return Some(i);
        }
    }
    proof {
        assert(s@.take(0) =~= Seq::<char>::empty());
    }
    None
}

/// `p` with every trailing slash removed.
pub open spec fn strip_trailing_slashes_spec(p: Seq<char>) -> Seq<char>
    decreases p.len(),
{
    if p.len() > 0 && p[p.len() - 1] == '/' {
        strip_trailing_slashes_spec(p.drop_last())
    } else {
        p
    }
}

fn strip_trailing_slashes(p: &str) -> (r: String)
    ensures
        r@ == strip_trailing_slashes_spec(p@),
{
    let n = p.unicode_len();
    let mut i = n;
    proof {
        assert(p@.take(n as int) =~= p@);
    }
    while i > 0 && p.get_char(i - 1) == '/'
        invariant
            i <= n,
            n == p@.len(),
            strip_trailing_slashes_spec(p@.take(i as int)) == strip_trailing_slashes_spec(p@),
        decreases i,
    {
        proof {
            assert(p@.take(i as int).drop_last() =~= p@.take(i - 1));
        }
        i = i - 1;
    }
    p.substring_char(0, i).to_owned()
}

/// The final component of a path, as `Path::file_name` reports it for
/// well-formed names: trailing slashes are ignored, and there is no file
/// name when nothing is left or the last component is `.` or `..`.
pub open spec fn file_name_spec(p: Seq<char>) -> Option<Seq<char>> {
    let q = strip_trailing_slashes_spec(p);
    if q.len() == 0 {
        None
    } else {
        let name = q.subrange(last_index_spec(q, '/') + 1, q.len() as int);
        if name =~= seq!['.'] || name =~= seq!['.', '.'] {
            None
        } else {
            Some(name)
        }
    }
}

pub fn file_name_of(p: &str) -> (r: Option<String>)
    ensures
        match r {
            Some(s) => file_name_spec(p@) == Some(s@),
            None => file_name_spec(p@) is None,
        },
{
    let q = strip_trailing_slashes(p);
    let qn = q.as_str().unicode_len();
    if qn == 0 {
        return None;
    }
    proof {
        lemma_last_index(q@, '/');
    }
    let start = match last_char_index(q.as_str(), '/') {
        Some(i) => i + 1,
        None => 0,
    };
    let name = q.as_str().substring_char(start, qn).to_owned();
    let nn = qn - start;
    if nn == 1 && name.as_str().get_char(0) == '.' {
        return None;
    }
    if nn == 2 && name.as_str().get_char(0) == '.' && name.as_str().get_char(1) == '.' {
        proof {
            assert(name@ =~= seq!['.', '.']);
        }
        return None;
    }
    proof {
        assert(name@ != seq!['.'] && name@ != seq!['.', '.']) by {
            if name@.len() == 1 {
                assert(name@ =~= seq![name@[0]]);
            }
            if name@.len() == 2 && name@[0] == '.' && name@[1] == '.' {
                assert(name@ =~= seq!['.', '.']);
            }
        }
    }
    Some(name)
}

/// The stem of a file name: everything before the last dot, except that a
/// dot in the first position (a hidden file) does not count as a separator.
pub open spec fn stem_of_name_spec(name: Seq<char>) -> Seq<char> {
    let i = last_index_spec(name, '.');
    if i <= 0 {
        name
    } else {
        name.take(i)
    }
}

/// The extension of a file name: everything after the last dot, under the
/// same hidden-file rule; `None` when there is no separating dot.
pub open spec fn extension_of_name_spec(name: Seq<char>) -> Option<Seq<char>> {
    let i = last_index_spec(name, '.');
    if i <= 0 {
        None
    } else {
        Some(name.subrange(i + 1, name.len() as int))
    }
}

/// `Path::file_stem`: the stem of the file name, when there is one.
pub open spec fn file_stem_spec(p: Seq<char>) -> Option<Seq<char>> {
    match file_name_spec(p) {
        Some(name) => Some(stem_of_name_spec(name)),
        None => None,
    }
}

/// `Path::extension`: the extension of the file name, when there is one.
pub open spec fn extension_spec(p: Seq<char>) -> Option<Seq<char>> {
    match file_name_spec(p) {
        Some(name) => extension_of_name_spec(name),
        None => None,
    }
}

pub fn file_stem_of(p: &str) -> (r: Option<String>)
    ensures
        match r {
            Some(s) => file_stem_spec(p@) == Some(s@),
            None => file_stem_spec(p@) is None,
        },
{
    let name = match file_name_of(p) {
        Some(name) => name,
        None => {
            return None;
        },
    };
    proof {
        lemma_last_index(name@, '.');
    }
    match last_char_index(name.as_str(), '.') {
        Some(i) if i > 0 => Some(name.as_str().substring_char(0, i).to_owned()),
        _ => Some(name),
    }
}

pub fn extension_of(p: &str) -> (r: Option<String>)
    ensures
        match r {
            Some(s) => extension_spec(p@) == Some(s@),
            None => extension_spec(p@) is None,
        },
{
    let name = match file_name_of(p) {
        Some(name) => name,
        None => {
            return None;
        },
    };
    proof {
        lemma_last_index(name@, '.');
    }
    match last_char_index(name.as_str(), '.') {
        Some(i) if i > 0 => {
            let n = name.as_str().unicode_len();
            Some(name.as_str().substring_char(i + 1, n).to_owned())
        },
        _ => None,
    }
}

/// `Path::parent`: the path with its final component removed. A lone
/// relative component has the empty parent; the root has none.
pub open spec fn parent_spec(p: Seq<char>) -> Option<Seq<char>> {
    let q = strip_trailing_slashes_spec(p);
    if q.len() == 0 {
        None
    } else {
        let i = last_index_spec(q, '/');
        if i == -1 {
            Some(Seq::empty())
        } else {
            let pre = strip_trailing_slashes_spec(q.take(i));
            if pre.len() == 0 {
                Some(seq!['/'])
            } else {
                Some(pre)
            }
        }
    }
}

pub fn parent_of(p: &str) -> (r: Option<String>)
    ensures
        match r {
            Some(s) => parent_spec(p@) == Some(s@),
            None => parent_spec(p@) is None,
        },
{
    let q = strip_trailing_slashes(p);
    let qn = q.as_str().unicode_len();
    if qn == 0 {
        return None;
    }
    proof {
        lemma_last_index(q@, '/');
    }
    match last_char_index(q.as_str(), '/') {
        None => {
            proof {
                reveal_strlit("");
            }
            Some("".to_owned())
        },
        Some(i) => {
            let pre = strip_trailing_slashes(q.as_str().substring_char(0, i));
            if pre.as_str().unicode_len() == 0 {
                proof {
                    reveal_strlit("/");
                    assert("/"@ =~= seq!['/']);
                }
                Some("/".to_owned())
            } else {
                Some(pre)
            }
        },
    }
}

} // verus!
