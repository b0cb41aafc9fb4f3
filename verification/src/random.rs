//! Random draws. The generator is the thread-local one of the `rand` crate;
//! nothing is known of a draw beyond the range it was asked for.

use vstd::prelude::*;
use rand::rngs::ThreadRng;
use rand::seq::SliceRandom;
use rand::Rng;

verus! {

/// The thread-local generator of `rand`, carried through as an opaque value.
#[verifier::external_type_specification]
#[verifier::external_body]
pub struct ExThreadRng(ThreadRng);

/// `rand::rng` hands out a handle to the thread-local generator. Nothing is
/// claimed of it.
pub assume_specification[ rand::rng ]() -> (rng: ThreadRng);

/// `Rng::random_range` on a half-open range of `usize`. The range must not
/// be empty, or the call panics; the number drawn lies inside it.
#[verifier::external_body]
pub(crate) fn random_range(rng: &mut ThreadRng, low: usize, high: usize) -> (n: usize)
    requires
        low < high,
    ensures
        low <= n < high,
{
    rng.random_range(low..high)
}

/// `Rng::random_ratio`: true with a chance of `numerator` in `denominator`.
/// The call panics on a zero denominator and on a ratio above one. A
/// numerator of zero never hits and a ratio of one always does; of any
/// other outcome nothing is claimed.
#[verifier::external_body]
pub(crate) fn random_ratio(rng: &mut ThreadRng, numerator: u32, denominator: u32) -> (hit: bool)
    requires
        denominator > 0,
        numerator <= denominator,
    ensures
        numerator == 0 ==> !hit,
        numerator == denominator ==> hit,
{
    rng.random_ratio(numerator, denominator)
}

/// `SliceRandom::shuffle` on the items of a vector: the same items come
/// back, each as often as before, in an order that is not known.
#[verifier::external_body]
pub(crate) fn shuffle(rng: &mut ThreadRng, items: &mut Vec<usize>)
    ensures
        final(items)@.to_multiset() == old(items)@.to_multiset(),
{
    items.shuffle(rng)
}

/// A number drawn from `low..high`, or `low` itself where that range is
/// empty.
pub fn draw(rng: &mut ThreadRng, low: usize, high: usize) -> (n: usize)
    ensures
        low < high ==> low <= n < high,
        low >= high ==> n == low,
{
    if low < high {
        random_range(rng, low, high)
    } else {
        low
    }
}

/// True with a chance of `numerator` in `denominator`; never where the
/// numerator or the denominator is zero, else always where the ratio is one
/// or more.
pub fn chance(rng: &mut ThreadRng, numerator: u32, denominator: u32) -> (hit: bool)
    ensures
        denominator == 0 || numerator == 0 ==> !hit,
        denominator > 0 && numerator >= denominator ==> hit,
{
    if denominator == 0 {
        false
    } else if numerator >= denominator {
        true
    } else {
        random_ratio(rng, numerator, denominator)
    }
}

/// The numbers `0..n` in a random order.
pub fn shuffled_indices(rng: &mut ThreadRng, n: usize) -> (order: Vec<usize>)
    ensures
        order@.len() == n,
        forall|i: usize| i < n ==> order@.contains(i),
        forall|k: int| 0 <= k < n ==> order@[k] < n,
{
    let mut order: Vec<usize> = Vec::new();
    let mut i: usize = 0;
    while i < n
        invariant
            i <= n,
            order@ == Seq::new(i as nat, |k: int| k as usize),
        decreases n - i,
    {
        order.push(i);
        assert(order@ =~= Seq::new((i + 1) as nat, |k: int| k as usize));
        i += 1;
    }
    let ghost before = order@;
    shuffle(rng, &mut order);
    proof {
        before.to_multiset_ensures();
        order@.to_multiset_ensures();
        assert forall|i: usize| i < n implies order@.contains(i) by {
            assert(before[i as int] == i);
            assert(before.contains(i));
            assert(before.to_multiset().count(i) > 0);
        }
        assert forall|k: int| 0 <= k < n implies order@[k] < n by {
            assert(order@.contains(order@[k]));
            assert(order@.to_multiset().count(order@[k]) > 0);
            assert(before.contains(order@[k]));
        }
    }
    order
}

} // verus!
