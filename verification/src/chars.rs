//! Conversions between strings and character vectors, used at the
//! edges of the grid renderer and the parser.

use vstd::prelude::*;

verus! {

/// The characters of `s`, in order, as a vector.
pub(crate) fn chars_of(s: &str) -> (r: Vec<char>)
    ensures
        r@ == s@,
{
    let n = s.unicode_len();
    let mut out: Vec<char> = Vec::new();
    let mut i: usize = 0;
    while i < n
        invariant
            n == s@.len(),
            i <= n,
            out@ == s@.subrange(0, i as int),
        decreases n - i,
    {
        out.push(s.get_char(i));
        proof {
            assert(out@ =~= s@.subrange(0, i + 1));
        }
        i = i + 1;
    }
    proof {
        assert(out@ =~= s@);
    }
    out
}

/// Relies on `Iterator::collect` building a `String` from characters:
/// the resulting string holds exactly the characters of `v`, in order.
#[verifier::external_body]
pub(crate) fn string_from_chars(v: &Vec<char>) -> (r: String)
    ensures
        r@ == v@,
{
    v.iter().collect()
}

} // verus!
