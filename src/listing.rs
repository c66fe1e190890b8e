//! The output of a file search: one path per line.
use vstd::prelude::*;
use vstd::string::StrSliceExecFns;
use vstd::string::StringExecFns;

verus! {

/// Scans `s` line by line: the non-empty lines that a newline has closed,
/// and the line still open at the end.
pub open spec fn scan_lines(s: Seq<char>) -> (Seq<Seq<char>>, Seq<char>)
    decreases s.len(),
{
    if s.len() == 0 {
        (Seq::empty(), Seq::empty())
    } else {
        let (done, cur) = scan_lines(s.drop_last());
        if s.last() == '\n' {
            (
                if cur.len() > 0 {
                    done.push(cur)
                } else {
                    done
                },
                Seq::empty(),
            )
        } else {
            (done, cur.push(s.last()))
        }
    }
}

/// The non-empty lines of `s`, in order.
pub open spec fn listed_paths(s: Seq<char>) -> Seq<Seq<char>> {
    let (done, cur) = scan_lines(s);
    if cur.len() > 0 {
        done.push(cur)
    } else {
        done
    }
}

pub open spec fn string_views(v: Seq<String>) -> Seq<Seq<char>> {
    v.map_values(|s: String| s@)
}

/// The non-empty lines of `listing`.
pub fn split_listing(listing: &str) -> (r: Vec<String>)
    ensures
        string_views(r@) == listed_paths(listing@),
{
    let n = listing.unicode_len();
    let mut r: Vec<String> = Vec::new();
    let mut start: usize = 0;
    let mut i: usize = 0;
    while i < n
        invariant
            n == listing@.len(),
            start <= i <= n,
            scan_lines(listing@.subrange(0, i as int)) == (
                string_views(r@),
                listing@.subrange(start as int, i as int),
            ),
        decreases n - i,
    {
        let c = listing.get_char(i);
        proof {
            assert(listing@.subrange(0, i + 1).drop_last() =~= listing@.subrange(0, i as int));
        }
        if c == '\n' {
            if start < i {
                let line = String::from_str(listing.substring_char(start, i));
                let ghost before = r@;
                r.push(line);
                assert(string_views(r@) =~= string_views(before).push(line@));
            }
            start = i + 1;
            assert(listing@.subrange(start as int, i + 1) =~= Seq::<char>::empty());
        } else {
            assert(listing@.subrange(start as int, i + 1) =~= listing@.subrange(
                start as int,
                i as int,
            ).push(c));
        }
        i = i + 1;
    }
    assert(listing@.subrange(0, n as int) =~= listing@);
    if start < n {
        let line = String::from_str(listing.substring_char(start, n));
        let ghost before = r@;
        r.push(line);
        assert(string_views(r@) =~= string_views(before).push(line@));
    }
    r
}

} // verus!
