use vstd::prelude::*;
use rand::rngs::StdRng;
use rand::seq::{IndexedRandom, IteratorRandom, SliceRandom};
use rand::Rng;

verus! {

/// The random number generator that drives everything random in a run.
#[verifier::external_type_specification]
#[verifier::external_body]
pub struct ExStdRng(StdRng);

/// `Rng::random_range(0..n)`: a number below `n`, which must be positive (the
/// call panics on an empty range).
#[verifier::external_body]
pub(crate) fn random_below(rng: &mut StdRng, n: usize) -> (r: usize)
    requires
        n > 0,
    ensures
        r < n,
{
    rng.random_range(0..n)
}

/// `SliceRandom::shuffle`: the same items in some order (the crate swaps items
/// in place, so nothing is added or lost).
#[verifier::external_body]
pub(crate) fn shuffle<T>(items: &mut Vec<T>, rng: &mut StdRng)
    ensures
        final(items)@.to_multiset() == old(items)@.to_multiset(),
        final(items)@.len() == old(items)@.len(),
{
    items.shuffle(rng)
}

/// `IteratorRandom::choose` over the given numbers: `None` exactly when there
/// are none, else one of them.
#[verifier::external_body]
pub(crate) fn choose_one(candidates: &Vec<usize>, rng: &mut StdRng) -> (r: Option<usize>)
    ensures
        r is None <==> candidates@.len() == 0,
        r matches Some(c) ==> candidates@.contains(c),
{
    candidates.iter().copied().choose(rng)
}

/// `IndexedRandom::choose` on the given numbers: `None` exactly when there are
/// none, else one of them.
#[verifier::external_body]
pub(crate) fn choose_index(candidates: &Vec<usize>, rng: &mut StdRng) -> (r: Option<usize>)
    ensures
        r is None <==> candidates@.len() == 0,
        r matches Some(c) ==> candidates@.contains(c),
{
    candidates.as_slice().choose(rng).copied()
}

/// `IndexedRandom::choose_multiple`: as many of the numbers as asked for (all
/// of them if fewer), taken from distinct places without repetition, in some
/// order.
#[verifier::external_body]
pub(crate) fn choose_distinct(candidates: &Vec<usize>, amount: usize, rng: &mut StdRng) -> (r: Vec<usize>)
    ensures
        r@.len() == if amount < candidates@.len() {
            amount as int
        } else {
            candidates@.len() as int
        },
        forall|i: int| 0 <= i < r@.len() ==> candidates@.contains(#[trigger] r@[i]),
        candidates@.no_duplicates() ==> r@.no_duplicates(),
{
    candidates.as_slice().choose_multiple(rng, amount).copied().collect()
}

/// The version and variant bits that every random (version 4) UUID carries.
pub open spec fn is_random_uuid(u: u128) -> bool {
    u & 0x0000_0000_0000_F000_C000_0000_0000_0000u128 == 0x0000_0000_0000_4000_8000_0000_0000_0000u128
}

/// `uuid::Uuid::new_v4`, as its 128-bit value: random bits with the version
/// nibble set to 4 and the variant bits to `10`.
#[verifier::external_body]
pub(crate) fn new_uuid() -> (r: u128)
    ensures
        is_random_uuid(r),
{
    uuid::Uuid::new_v4().as_u128()
}

} // verus!
