use vstd::prelude::*;
use rand::Rng;
use rand::seq::SliceRandom;

verus! {

/// Calls `Rng::gen_range(0..n)` on `rand::thread_rng()`. Trusted: the
/// result lies in `0..n`. The crate panics on an empty range, so `requires`
/// leaves `n == 0` out.
#[verifier::external_body]
fn gen_index(n: usize) -> (r: usize)
    requires
        n > 0,
    ensures
        r < n,
{
    rand::thread_rng().gen_range(0..n)
}

/// Calls `SliceRandom::choose` on `rand::thread_rng()` and clones the pick.
/// Trusted: the result is `None` exactly for an empty list, and otherwise
/// one of its entries.
#[verifier::external_body]
fn choose_string(items: &Vec<String>) -> (r: Option<String>)
    ensures
        r is Some <==> items@.len() > 0,
        r matches Some(s) ==> exists|i: int| 0 <= i < items@.len() && #[trigger] items@[i] == s,
{
    items.choose(&mut rand::thread_rng()).cloned()
}

/// A random position in a list of `vector_size` entries.
pub fn get_random_index(vector_size: usize) -> (r: usize)
    requires
        vector_size > 0,
    ensures
        r < vector_size,
{
    gen_index(vector_size)
}

/// One of the offered peers, picked at random; `None` when none is offered.
pub fn pick_peer(peers: &Vec<String>) -> (r: Option<String>)
    ensures
        r is Some <==> peers@.len() > 0,
        r matches Some(s) ==> exists|i: int| 0 <= i < peers@.len() && #[trigger] peers@[i] == s,
{
    choose_string(peers)
}

} // verus!
