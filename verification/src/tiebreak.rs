//! Random choice among equally near colours.

use crate::color::Color;
use rand::rngs::StdRng;
use rand::seq::SliceRandom;
use vstd::prelude::*;

verus! {

/// `rand::rngs::StdRng`, the generator that breaks ties. Nothing is known of
/// its state.
#[verifier::external_type_specification]
#[verifier::external_body]
pub struct ExStdRng(rand::rngs::StdRng);

/// Calls `rand::seq::SliceRandom::choose` on the candidates. Trusted: the
/// call returns `None` for an empty slice and otherwise one of the slice's
/// elements; which one depends on the generator.
#[verifier::external_body]
pub(crate) fn choose_color(candidates: &Vec<Color>, rng: &mut StdRng) -> (picked: Option<Color>)
    ensures
        picked is None <==> candidates@.len() == 0,
        picked matches Some(c) ==> candidates@.contains(c),
{
    candidates.choose(rng).copied()
}

} // verus!
