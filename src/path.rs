//! A small model of slash-separated paths, as plain character sequences.
//!
//! A directory `d` contains a path `p` when `p` starts with `d` at a
//! component boundary and something follows it; what follows is the part of
//! `p` relative to `d`.
//!
//! Paths are compared as text: `.` and `..` are not resolved, and repeated
//! or trailing separators are kept, so `a/b/` has an empty file name.
use vstd::prelude::*;
use vstd::string::StrSliceExecFns;
use vstd::string::StringExecFns;

verus! {

/// Index of the last occurrence of `c` in `s`, or -1 when `c` does not occur.
pub open spec fn last_index(s: Seq<char>, c: char) -> int
    decreases s.len(),
{
    if s.len() == 0 {
        -1
    } else if s.last() == c {
        s.len() - 1
    } else {
        last_index(s.drop_last(), c)
    }
}

pub open spec fn lacks(s: Seq<char>, c: char) -> bool {
    forall|i: int| 0 <= i < s.len() ==> s[i] != c
}

/// Where the part of `path` relative to `dir` starts, if `dir` is a prefix
/// of `path` that ends at a component boundary.
pub open spec fn rest_start(dir: Seq<char>, path: Seq<char>) -> Option<int> {
    if dir.len() == 0 {
        Some(0)
    } else if dir.len() <= path.len() && path.subrange(0, dir.len() as int) == dir {
        if dir.last() == '/' {
            Some(dir.len() as int)
        } else if dir.len() < path.len() && path[dir.len() as int] == '/' {
            Some(dir.len() + 1int)
        } else {
            None
        }
    } else {
        None
    }
}

/// `path` lies strictly below `dir`.
pub open spec fn lies_under(dir: Seq<char>, path: Seq<char>) -> bool {
    match rest_start(dir, path) {
        Some(k) => k < path.len(),
        None => false,
    }
}

/// The part of `path` relative to `dir`; meaningful when `lies_under(dir, path)`.
pub open spec fn relative_part(dir: Seq<char>, path: Seq<char>) -> Seq<char> {
    match rest_start(dir, path) {
        Some(k) => path.subrange(k, path.len() as int),
        None => path,
    }
}

/// `dir` followed by `rel`, with one separator between them.
pub open spec fn join(dir: Seq<char>, rel: Seq<char>) -> Seq<char> {
    if dir.len() == 0 || dir.last() == '/' {
        dir + rel
    } else {
        dir + seq!['/'] + rel
    }
}

/// Everything before the last separator (empty when there is none).
pub open spec fn parent_of(rel: Seq<char>) -> Seq<char> {
    let j = last_index(rel, '/');
    if j < 0 {
        Seq::empty()
    } else {
        rel.subrange(0, j)
    }
}

/// Everything after the last separator.
pub open spec fn file_name_of(rel: Seq<char>) -> Seq<char> {
    rel.subrange(last_index(rel, '/') + 1, rel.len() as int)
}

/// The file name without its final extension. A name whose only `.` is its
/// first character has no extension.
pub open spec fn stem_of(f: Seq<char>) -> Seq<char> {
    let d = last_index(f, '.');
    if d <= 0 {
        f
    } else {
        f.subrange(0, d)
    }
}

/// The last occurrence is the position after which `c` no longer occurs.
pub proof fn lemma_last_index_is(s: Seq<char>, c: char, i: int)
    requires
        -1 <= i < s.len(),
        i >= 0 ==> s[i] == c,
        forall|j: int| i < j < s.len() ==> s[j] != c,
    ensures
        last_index(s, c) == i,
    decreases s.len(),
{
    if s.len() > 0 && s.last() != c {
        lemma_last_index_is(s.drop_last(), c, i);
    }
}

/// The characters of `s`.
pub fn chars_of(s: &str) -> (r: Vec<char>)
    ensures
        r@ == s@,
{
    let n = s.unicode_len();
    let mut r: Vec<char> = Vec::new();
    let mut i: usize = 0;
    while i < n
        invariant
            n == s@.len(),
            i <= n,
            r@ == s@.subrange(0, i as int),
        decreases n - i,
    {
        r.push(s.get_char(i));
        i = i + 1;
    }
    assert(r@ =~= s@);
    r
}

/// Position of the last `c` in `v[lo..hi]`.
pub fn find_last(v: &Vec<char>, lo: usize, hi: usize, c: char) -> (r: Option<usize>)
    requires
        lo <= hi <= v@.len(),
    ensures
        match r {
            Some(i) => lo <= i < hi && v@[i as int] == c && forall|j: int|
                i < j < hi ==> v@[j] != c,
            None => forall|j: int| lo <= j < hi ==> v@[j] != c,
        },
{
    let mut k: usize = hi;
    while k > lo
        invariant
            lo <= k <= hi <= v@.len(),
            forall|j: int| k <= j < hi ==> v@[j] != c,
        decreases k - lo,
    {
        if v[k - 1] == c {
            return Some(k - 1);
        }
        k = k - 1;
    }
    None
}

/// Where the part of `path` relative to `dir` starts, following `rest_start`.
pub fn rest_start_exec(dir: &Vec<char>, path: &Vec<char>) -> (r: Option<usize>)
    ensures
        match rest_start(dir@, path@) {
            Some(k) => r == Some(k as usize),
            None => r is None,
        },
{
    let dn = dir.len();
    if dn == 0 {
        return Some(0);
    }
    if dn > path.len() {
        return None;
    }
    let mut i: usize = 0;
    while i < dn
        invariant
            dn == dir@.len(),
            dn <= path@.len(),
            i <= dn,
            forall|j: int| 0 <= j < i ==> path@[j] == dir@[j],
        decreases dn - i,
    {
        if path[i] != dir[i] {
            assert(path@.subrange(0, dn as int)[i as int] != dir@[i as int]);
            return None;
        }
        i = i + 1;
    }
    assert(path@.subrange(0, dn as int) =~= dir@);
    if dir[dn - 1] == '/' {
        Some(dn)
    } else if dn < path.len() && path[dn] == '/' {
        Some(dn + 1)
    } else {
        None
    }
}

/// `dir` joined with `rel`.
pub fn join_paths(dir: &str, rel: &str) -> (r: String)
    ensures
        r@ == join(dir@, rel@),
{
    let n = dir.unicode_len();
    if n == 0 || dir.get_char(n - 1) == '/' {
        let mut r = String::from_str(dir);
        r.append(rel);
        r
    } else {
        let mut r = String::from_str(dir);
        r.append("/");
        r.append(rel);
        proof {
            reveal_strlit("/");
        }
        r
    }
}

} // verus!
