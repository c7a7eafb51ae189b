//! Trusted access to the thread-local random generator of `rand`.
use vstd::prelude::*;
use rand::rngs::ThreadRng;
use rand::seq::SliceRandom;
use rand::Rng;
use std::ops::Range;

verus! {

/// `rand`'s lazily seeded, thread-local generator.
#[verifier::external_type_specification]
#[verifier::external_body]
pub struct ExThreadRng(ThreadRng);

/// `rand::thread_rng`: a handle on this thread's generator. Nothing is
/// claimed of its state.
#[verifier::external_body]
pub(crate) fn thread_rng() -> ThreadRng {
    rand::thread_rng()
}

/// `Rng::gen_range` on a `Range<u64>`: claimed to give a value inside the
/// range, which `rand` documents and which must not be empty (it panics then).
#[verifier::external_body]
pub(crate) fn gen_range_u64(rng: &mut ThreadRng, range: Range<u64>) -> (r: u64)
    requires
        range.start < range.end,
    ensures
        range.start <= r < range.end,
{
    rng.gen_range(range)
}

/// `rand::random::<u8>()`: any byte; nothing more is claimed.
#[verifier::external_body]
pub(crate) fn random_u8() -> u8 {
    rand::random::<u8>()
}

/// `SliceRandom::choose`: `None` exactly on an empty slice, else a
/// reference to one of its elements, picked at random.
#[verifier::external_body]
pub(crate) fn choose_from<'a, T>(items: &'a [T], rng: &mut ThreadRng) -> (r: Option<&'a T>)
    ensures
        items@.len() == 0 <==> r is None,
        r matches Some(x) ==> items@.contains(*x),
{
    items.choose(rng)
}

} // verus!
