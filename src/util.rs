use vstd::prelude::*;
use vstd::string::StrSliceExecFns;
use vstd::string::StringExecFns;

verus! {

/// `s` with every space turned into a hyphen.
pub open spec fn normalised(s: Seq<char>) -> Seq<char> {
    s.map_values(|c: char| if c == ' ' { '-' } else { c })
}

/// Turns every space of `s` into a hyphen.
pub fn normalise_str(s: &str) -> (r: String)
    ensures
        r@ == normalised(s@),
{
    let n = s.unicode_len();
    let mut r = String::new();
    let mut i: usize = 0;
    while i < n
        invariant
            n == s@.len(),
            i <= n,
            r@ == normalised(s@.subrange(0, i as int)),
        decreases n - i,
    {
        let c = s.get_char(i);
        let ghost before = r@;
        if c == ' ' {
            r.append("-");
            proof {
                reveal_strlit("-");
            }
        } else {
            r.append(s.substring_char(i, i + 1));
        }
        assert(r@ =~= normalised(s@.subrange(0, i + 1)));
        i = i + 1;
    }
    assert(s@.subrange(0, n as int) =~= s@);
    r
}

} // verus!
