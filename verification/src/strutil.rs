//! Small verified string helpers: equality and quote trimming.

use vstd::prelude::*;

verus! {

/// Whether two string slices hold the same characters.
pub fn str_eq(a: &str, b: &str) -> (r: bool)
    ensures
        r == (a@ == b@),
{
    let x: String = a.to_owned();
    let y: String = b.to_owned();
    x == y
}

/// `s` without its leading `"` characters.
pub open spec fn spec_trim_leading_quotes(s: Seq<char>) -> Seq<char>
    decreases s.len(),
{
    if s.len() > 0 && s[0] == '"' {
        spec_trim_leading_quotes(s.drop_first())
    } else {
        s
    }
}

/// `s` without its trailing `"` characters.
pub open spec fn spec_trim_trailing_quotes(s: Seq<char>) -> Seq<char>
    decreases s.len(),
{
    if s.len() > 0 && s[s.len() - 1] == '"' {
        spec_trim_trailing_quotes(s.drop_last())
    } else {
        s
    }
}

/// `s` without surrounding `"` characters.
pub open spec fn spec_trim_quotes(s: Seq<char>) -> Seq<char> {
    spec_trim_trailing_quotes(spec_trim_leading_quotes(s))
}

/// Strips the surrounding `"` characters from a token.
pub fn trim_quotes(s: &str) -> (r: &str)
    ensures
        r@ == spec_trim_quotes(s@),
{
    let n: usize = s.unicode_len();
    let mut from: usize = 0;
    let mut to: usize = n;
    proof {
        assert(s@.subrange(0, n as int) =~= s@);
    }
    loop
        invariant
            0 <= from <= n,
            n == s@.len(),
            spec_trim_leading_quotes(s@) == spec_trim_leading_quotes(
                s@.subrange(from as int, n as int),
            ),
        ensures
            0 <= from <= n,
            n == s@.len(),
            spec_trim_leading_quotes(s@) == s@.subrange(from as int, n as int),
        decreases n - from,
    {
        if from >= n {
            proof {
                assert(s@.subrange(from as int, n as int) =~= Seq::<char>::empty());
            }
            break ;
        }
        if s.get_char(from) != '"' {
            break ;
        }
        proof {
            assert(s@.subrange(from as int, n as int).drop_first() =~= s@.subrange(
                from as int + 1,
                n as int,
            ));
        }
        from = from + 1;
    }
    let ghost lead: Seq<char> = s@.subrange(from as int, n as int);
    loop
        invariant
            0 <= from <= to <= n,
            n == s@.len(),
            lead == spec_trim_leading_quotes(s@),
            lead == s@.subrange(from as int, n as int),
            spec_trim_trailing_quotes(lead) == spec_trim_trailing_quotes(
                s@.subrange(from as int, to as int),
            ),
        ensures
            from <= to <= n,
            spec_trim_quotes(s@) == s@.subrange(from as int, to as int),
        decreases to,
    {
        if to <= from {
            proof {
                assert(s@.subrange(from as int, to as int) =~= Seq::<char>::empty());
            }
            break ;
        }
        if s.get_char(to - 1) != '"' {
            break ;
        }
        proof {
            assert(s@.subrange(from as int, to as int).drop_last() =~= s@.subrange(
                from as int,
                to as int - 1,
            ));
        }
        to = to - 1;
    }
    s.substring_char(from, to)
}

} // verus!
