//! The random-selection edge: one trusted call into the `rand` crate.

use vstd::prelude::*;

use rand::seq::SliceRandom;

verus! {

/// Relies on `rand::seq::SliceRandom::choose`, which returns `None` exactly
/// when the slice is empty, and otherwise a uniformly chosen element of it.
#[verifier::external_body]
pub(crate) fn choose_from(words: &Vec<&'static str>) -> (r: Option<&'static str>)
    ensures
        match r {
            Some(w) => words@.len() > 0 && (exists|i: int|
                0 <= i < words@.len() && (#[trigger] words@[i])@ == w@),
            None => words@.len() == 0,
        },
{
    words.as_slice().choose(&mut rand::thread_rng()).copied()
}

} // verus!
