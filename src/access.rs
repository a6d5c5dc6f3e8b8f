use vstd::prelude::*;

verus! {

/// Whether a caller's credential equals the configured one.
pub fn token_matches(given: &String, expected: &String) -> (r: bool)
    ensures
        r == (given@ == expected@),
{
    given.eq(expected)
}

} // verus!
