//! Verified text utilities: splitting, trimming, substring search and the
//! small character tests the installer needs.

use vstd::prelude::*;

verus! {

/// Position of the first occurrence of `c` in `s`, or `s.len()` when `c`
/// does not occur.
pub open spec fn first_index_or_len(s: Seq<char>, c: char) -> nat
    decreases s.len(),
{
    if s.len() == 0 {
        0
    } else if s[0] == c {
        0
    } else {
        1 + first_index_or_len(s.drop_first(), c)
    }
}

pub proof fn lemma_first_index(s: Seq<char>, c: char)
    ensures
        first_index_or_len(s, c) <= s.len(),
        first_index_or_len(s, c) < s.len() ==> s[first_index_or_len(s, c) as int] == c,
        forall|j: int| 0 <= j < first_index_or_len(s, c) ==> s[j] != c,
    decreases s.len(),
{
    if s.len() > 0 && s[0] != c {
        lemma_first_index(s.drop_first(), c);
        let i = first_index_or_len(s, c);
        assert forall|j: int| 0 <= j < i implies s[j] != c by {
            if j > 0 {
                assert(s[j] == s.drop_first()[j - 1]);
            }
        }
        if i < s.len() {
            assert(s[i as int] == s.drop_first()[i - 1]);
        }
    }
}

/// Splitting on a separator character, the way `str::split` does it: the
/// separators themselves are dropped and empty pieces are kept.
pub open spec fn split_spec(s: Seq<char>, c: char) -> Seq<Seq<char>>
    decreases s.len(),
{
    let i = first_index_or_len(s, c) as int;
    if i >= s.len() {
        seq![s]
    } else {
        seq![s.take(i)] + split_spec(s.subrange(i + 1, s.len() as int), c)
    }
}

/// Scan for `c` at or after position `from`; the result is the position of
/// the first occurrence, or the length of `s` when there is none.
fn first_index_from(s: &str, c: char, from: usize) -> (r: usize)
    requires
        from <= s@.len(),
    ensures
        from <= r <= s@.len(),
        r - from == first_index_or_len(s@.subrange(from as int, s@.len() as int), c),
        r < s@.len() ==> s@[r as int] == c,
{
    let n = s.unicode_len();
    let ghost suffix = s@.subrange(from as int, s@.len() as int);
    proof {
        lemma_first_index(suffix, c);
    }
    let mut i = from;
    while i < n && s.get_char(i) != c
        invariant
            from <= i <= n,
            n == s@.len(),
            forall|j: int| from <= j < i ==> s@[j] != c,
        decreases n - i,
    {
        i = i + 1;
    }
    proof {
        let fi = first_index_or_len(suffix, c) as int;
        let k = i - from;
        assert forall|j: int| from <= j < s@.len() implies s@[j] == suffix[j - from] by {}
        if i < n {
            // a hit at i: the first index can be neither before nor after k
            assert(suffix[k] == c);
            if fi < k {
                assert(s@[fi + from] == c);
            }
        } else {
            if fi < k {
                assert(s@[fi + from] == c);
            }
        }
    }
    i
}

pub fn split_char(s: &str, c: char) -> (r: Vec<String>)
    ensures
        r@.map_values(|t: String| t@) == split_spec(s@, c),
{
    let n = s.unicode_len();
    let mut out: Vec<String> = Vec::new();
    let mut start: usize = 0;
    proof {
        assert(s@.subrange(0, n as int) =~= s@);
    }
    loop
        invariant_except_break
            start <= n,
            n == s@.len(),
            split_spec(s@, c) == out@.map_values(|t: String| t@) + split_spec(
                s@.subrange(start as int, n as int),
                c,
            ),
        ensures
            out@.map_values(|t: String| t@) == split_spec(s@, c),
        decreases n - start,
    {
        let ghost suffix = s@.subrange(start as int, n as int);
        let j = first_index_from(s, c, start);
        let piece = s.substring_char(start, j).to_owned();
        let ghost pre = out@.map_values(|t: String| t@);
        out.push(piece);
        proof {
            assert(out@.map_values(|t: String| t@) =~= pre.push(piece@));
        }
        if j == n {
            proof {
                assert(piece@ =~= suffix);
                assert(split_spec(suffix, c) == seq![suffix]);
                assert(pre.push(suffix) =~= pre + seq![suffix]);
            }
            break ;
        }
        proof {
            assert(piece@ =~= suffix.take(j - start));
            assert(suffix.subrange(j - start + 1, suffix.len() as int) =~= s@.subrange(
                j + 1,
                n as int,
            ));
            assert(split_spec(suffix, c) == seq![piece@] + split_spec(
                s@.subrange(j + 1, n as int),
                c,
            ));
            assert(pre.push(piece@) + split_spec(s@.subrange(j + 1, n as int), c) =~= pre + (
            seq![piece@] + split_spec(s@.subrange(j + 1, n as int), c)));
        }
        start = j + 1;
    }
    out
}

/// The whitespace characters `str::trim` removes, restricted to ASCII.
pub open spec fn is_space(c: char) -> bool {
    c == ' ' || c == '\t' || c == '\n' || c == '\r' || c == '\u{b}' || c == '\u{c}'
}

pub open spec fn trim_start_spec(s: Seq<char>) -> Seq<char>
    decreases s.len(),
{
    if s.len() > 0 && is_space(s[0]) {
        trim_start_spec(s.drop_first())
    } else {
        s
    }
}

pub open spec fn trim_end_spec(s: Seq<char>) -> Seq<char>
    decreases s.len(),
{
    if s.len() > 0 && is_space(s.last()) {
        trim_end_spec(s.drop_last())
    } else {
        s
    }
}

/// `str::trim` over ASCII whitespace.
pub open spec fn trim_spec(s: Seq<char>) -> Seq<char> {
    trim_end_spec(trim_start_spec(s))
}

pub fn trim(s: &str) -> (r: String)
    ensures
        r@ == trim_spec(s@),
{
    let n = s.unicode_len();
    let mut i: usize = 0;
    proof {
        assert(s@.skip(0) =~= s@);
    }
    while i < n && is_space_exec(s.get_char(i))
        invariant
            i <= n,
            n == s@.len(),
            trim_start_spec(s@.skip(i as int)) == trim_start_spec(s@),
        decreases n - i,
    {
        proof {
            assert(s@.skip(i as int).drop_first() =~= s@.skip(i + 1));
        }
        i = i + 1;
    }
    let ghost head = s@.skip(i as int);
    proof {
        assert(trim_start_spec(s@) == head);
        assert(head =~= s@.subrange(i as int, n as int));
    }
    let mut j = n;
    while j > i && is_space_exec(s.get_char(j - 1))
        invariant
            i <= j <= n,
            n == s@.len(),
            trim_end_spec(s@.subrange(i as int, j as int)) == trim_end_spec(head),
        decreases j,
    {
        proof {
            assert(s@.subrange(i as int, j as int).drop_last() =~= s@.subrange(i as int, j - 1));
        }
        j = j - 1;
    }
    s.substring_char(i, j).to_owned()
}

fn is_space_exec(c: char) -> (r: bool)
    ensures
        r == is_space(c),
{
    c == ' ' || c == '\t' || c == '\n' || c == '\r' || c == '\u{b}' || c == '\u{c}'
}

/// `needle` occurs in `s` starting at position `i`.
pub open spec fn match_at(s: Seq<char>, needle: Seq<char>, i: int) -> bool {
    &&& 0 <= i
    &&& i + needle.len() <= s.len()
    &&& forall|k: int| 0 <= k < needle.len() ==> s[i + k] == needle[k]
}

/// `needle` occurs somewhere in `s`, as `str::contains` reports it.
pub open spec fn contains_seq(s: Seq<char>, needle: Seq<char>) -> bool {
    exists|i: int| match_at(s, needle, i)
}

pub fn contains_substr(s: &str, needle: &str) -> (r: bool)
    ensures
        r == contains_seq(s@, needle@),
{
    let n = s.unicode_len();
    let m = needle.unicode_len();
    if m > n {
        return false;
    }
    let mut i: usize = 0;
    while i <= n - m
        invariant
            m <= n,
            n == s@.len(),
            m == needle@.len(),
            forall|i0: int| 0 <= i0 < i ==> !match_at(s@, needle@, i0),
        decreases n - i,
    {
        let mut k: usize = 0;
        while k < m && s.get_char(i + k) == needle.get_char(k)
            invariant
                i + m <= n,
                n == s@.len(),
                m == needle@.len(),
                k <= m,
                forall|k0: int| 0 <= k0 < k ==> s@[i + k0] == needle@[k0],
            decreases m - k,
        {
            k = k + 1;
        }
        if k == m {
            proof {
                assert(match_at(s@, needle@, i as int));
            }
            return true;
        }
        i = i + 1;
    }
    false
}

/// The decimal digit `d` as a character, for `d < 10`.
pub open spec fn digit_char(d: nat) -> char {
    if d == 0 {
        '0'
    } else if d == 1 {
        '1'
    } else if d == 2 {
        '2'
    } else if d == 3 {
        '3'
    } else if d == 4 {
        '4'
    } else if d == 5 {
        '5'
    } else if d == 6 {
        '6'
    } else if d == 7 {
        '7'
    } else if d == 8 {
        '8'
    } else {
        '9'
    }
}

/// The decimal rendering of `n`, most significant digit first.
pub open spec fn dec_spec(n: nat) -> Seq<char>
    decreases n,
{
    if n < 10 {
        seq![digit_char(n)]
    } else {
        dec_spec(n / 10).push(digit_char(n % 10))
    }
}

fn digit_str(d: usize) -> (r: &'static str)
    requires
        d < 10,
    ensures
        r@ == seq![digit_char(d as nat)],
{
    proof {
        reveal_strlit("0");
        reveal_strlit("1");
        reveal_strlit("2");
        reveal_strlit("3");
        reveal_strlit("4");
        reveal_strlit("5");
        reveal_strlit("6");
        reveal_strlit("7");
        reveal_strlit("8");
        reveal_strlit("9");
    }
    let r = match d {
        0 => "0",
        1 => "1",
        2 => "2",
        3 => "3",
        4 => "4",
        5 => "5",
        6 => "6",
        7 => "7",
        8 => "8",
        _ => "9",
    };
    proof {
        assert(r@ =~= seq![digit_char(d as nat)]);
    }
    r
}

pub fn usize_to_string(n: usize) -> (r: String)
    ensures
        r@ == dec_spec(n as nat),
    decreases n,
{
    if n < 10 {
        digit_str(n).to_owned()
    } else {
        let mut r = usize_to_string(n / 10);
        r.append(digit_str(n % 10));
        proof {
            assert(dec_spec((n / 10) as nat) + seq![digit_char((n % 10) as nat)] =~= dec_spec(
                (n / 10) as nat,
            ).push(digit_char((n % 10) as nat)));
        }
        r
    }
}

/// Character-for-character string equality.
pub fn str_eq(a: &str, b: &str) -> (r: bool)
    ensures
        r == (a@ == b@),
{
    let n = a.unicode_len();
    if n != b.unicode_len() {
        return false;
    }
    let mut i: usize = 0;
    while i < n
        invariant
            i <= n,
            n == a@.len() == b@.len(),
            forall|j: int| 0 <= j < i ==> a@[j] == b@[j],
        decreases n - i,
    {
        if a.get_char(i) != b.get_char(i) {
            return false;
        }
        i = i + 1;
    }
    proof {
        assert(a@ =~= b@);
    }
    true
}

/// Lines joined with a newline between each pair, `slice::join` style.
pub open spec fn join_newline_spec(lines: Seq<Seq<char>>) -> Seq<char>
    decreases lines.len(),
{
    if lines.len() == 0 {
        Seq::empty()
    } else if lines.len() == 1 {
        lines[0]
    } else {
        join_newline_spec(lines.drop_last()) + "\n"@ + lines.last()
    }
}

pub fn join_newline(lines: &Vec<String>) -> (r: String)
    ensures
        r@ == join_newline_spec(lines@.map_values(|s: String| s@)),
{
    let ghost views = lines@.map_values(|s: String| s@);
    let mut out = String::new();
    let n = lines.len();
    let mut i: usize = 0;
    proof {
        assert(views.take(0) =~= Seq::<Seq<char>>::empty());
    }
    while i < n
        invariant
            i <= n,
            n == lines@.len(),
            views == lines@.map_values(|s: String| s@),
            out@ == join_newline_spec(views.take(i as int)),
        decreases n - i,
    {
        let ghost pre = out@;
        proof {
            assert(views.take(i + 1).drop_last() =~= views.take(i as int));
            assert(views.take(i + 1).last() == lines@[i as int]@);
        }
        if i > 0 {
            out.append("\n");
        }
        out.append(lines[i].as_str());
        proof {
            if i > 0 {
                assert(out@ =~= pre + "\n"@ + lines@[i as int]@);
            }
        }
        i = i + 1;
    }
    proof {
        assert(views.take(n as int) =~= views);
    }
    out
}

/// Joined nonempty lines start with the first line's first character
/// and end with the last line's last character.
pub proof fn lemma_join_newline_first_last(lines: Seq<Seq<char>>)
    requires
        lines.len() > 0,
        forall|i: int| 0 <= i < lines.len() ==> (#[trigger] lines[i]).len() > 0,
    ensures
        join_newline_spec(lines).len() > 0,
        join_newline_spec(lines)[0] == lines[0][0],
        join_newline_spec(lines).last() == lines.last().last(),
    decreases lines.len(),
{
    if lines.len() > 1 {
        assert forall|i: int| 0 <= i < lines.drop_last().len() implies (#[trigger] lines.drop_last()[
        i]).len() > 0 by {
            assert(lines.drop_last()[i] == lines[i]);
        }
        lemma_join_newline_first_last(lines.drop_last());
        assert(lines.drop_last()[0] == lines[0]);
    }
}

/// The first occurrence of `c` in `x + [c] + y` is right after `x`,
/// when `x` itself is free of `c`.
pub proof fn lemma_first_index_concat(x: Seq<char>, y: Seq<char>, c: char)
    requires
        !x.contains(c),
    ensures
        first_index_or_len(x + seq![c] + y, c) == x.len(),
{
    let s = x + seq![c] + y;
    lemma_first_index(s, c);
    let fi = first_index_or_len(s, c) as int;
    assert(s[x.len() as int] == c);
    if fi < x.len() {
        assert(s[fi] == x[fi]);
        assert(x.contains(x[fi]));
    }
}

/// Splitting joined lines on the newline gives the lines back, when no
/// line holds a newline of its own.
pub proof fn lemma_split_join_newline(lines: Seq<Seq<char>>)
    requires
        lines.len() > 0,
        forall|i: int| 0 <= i < lines.len() ==> !(#[trigger] lines[i]).contains('\n'),
    ensures
        split_spec(join_newline_spec(lines), '\n') == lines,
    decreases lines.len(),
{
    let s = join_newline_spec(lines);
    if lines.len() == 1 {
        lemma_first_index(s, '\n');
        let fi = first_index_or_len(s, '\n') as int;
        if fi < s.len() {
            assert(lines[0].contains(lines[0][fi]));
        }
        assert(split_spec(s, '\n') =~= lines);
    } else {
        lemma_join_newline_front(lines);
        let x = lines[0];
        let rest = join_newline_spec(lines.drop_first());
        reveal_strlit("\n");
        lemma_first_index_concat(x, rest, '\n');
        assert(s =~= x + seq!['\n'] + rest);
        assert(s.take(x.len() as int) =~= x);
        assert(s.subrange(x.len() as int + 1, s.len() as int) =~= rest);
        assert forall|i: int| 0 <= i < lines.drop_first().len() implies !(
        #[trigger] lines.drop_first()[i]).contains('\n') by {
            assert(lines.drop_first()[i] == lines[i + 1]);
        }
        lemma_split_join_newline(lines.drop_first());
        assert(split_spec(s, '\n') =~= seq![x] + lines.drop_first());
        assert(seq![x] + lines.drop_first() =~= lines);
    }
}

/// Joined lines read from the front: the first line, a newline, then
/// the rest joined.
pub proof fn lemma_join_newline_front(lines: Seq<Seq<char>>)
    requires
        lines.len() >= 2,
    ensures
        join_newline_spec(lines) == lines[0] + "\n"@ + join_newline_spec(lines.drop_first()),
    decreases lines.len(),
{
    if lines.len() == 2 {
        assert(lines.drop_last() =~= seq![lines[0]]);
        assert(lines.drop_first() =~= seq![lines[1]]);
        assert(join_newline_spec(lines.drop_last()) == lines[0]);
        assert(join_newline_spec(lines.drop_first()) == lines[1]);
    } else {
        lemma_join_newline_front(lines.drop_last());
        assert(lines.drop_last()[0] == lines[0]);
        assert(join_newline_spec(lines.drop_first()) == join_newline_spec(
            lines.drop_first().drop_last(),
        ) + "\n"@ + lines.drop_first().last());
        assert(lines.drop_last().drop_first() =~= lines.drop_first().drop_last());
        assert(lines.drop_first().last() == lines.last());
        assert((lines[0] + "\n"@ + join_newline_spec(lines.drop_first().drop_last())) + "\n"@
            + lines.last() =~= lines[0] + "\n"@ + (join_newline_spec(
            lines.drop_first().drop_last(),
        ) + "\n"@ + lines.last()));
    }
    assert(join_newline_spec(lines) =~= lines[0] + "\n"@ + join_newline_spec(lines.drop_first()));
}

/// The line is a comment: it starts with `#`.
pub open spec fn is_comment_spec(s: Seq<char>) -> bool {
    s.len() > 0 && s[0] == '#'
}

pub fn starts_with_char(s: &str, c: char) -> (r: bool)
    ensures
        r == (s@.len() > 0 && s@[0] == c),
{
    s.unicode_len() > 0 && s.get_char(0) == c
}

/// The key names the manifest's `info` section, compared without regard
/// to ASCII case.
pub open spec fn is_info_key_spec(s: Seq<char>) -> bool {
    &&& s.len() == 4
    &&& (s[0] == 'i' || s[0] == 'I')
    &&& (s[1] == 'n' || s[1] == 'N')
    &&& (s[2] == 'f' || s[2] == 'F')
    &&& (s[3] == 'o' || s[3] == 'O')
}

pub fn is_info_key(s: &str) -> (r: bool)
    ensures
        r == is_info_key_spec(s@),
{
    if s.unicode_len() != 4 {
        return false;
    }
    let c0 = s.get_char(0);
    let c1 = s.get_char(1);
    let c2 = s.get_char(2);
    let c3 = s.get_char(3);
    (c0 == 'i' || c0 == 'I') && (c1 == 'n' || c1 == 'N') && (c2 == 'f' || c2 == 'F') && (c3 == 'o'
        || c3 == 'O')
}

} // verus!
