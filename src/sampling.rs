use vstd::prelude::*;
use crate::util::Torus;

verus! {

/// Relies on `rand::random`, which draws a value from the thread-local
/// generator. Nothing is promised of the value drawn.
pub assume_specification<X>[ rand::random::<X> ]() -> (r: X)
    where
        rand::distributions::Standard: rand::distributions::Distribution<X>,
;

#[verifier::external_type_specification]
#[verifier::external_body]
pub struct ExThreadRng(rand::rngs::ThreadRng);

/// Relies on `rand::thread_rng`, which hands out the thread-local generator.
pub assume_specification[ rand::thread_rng ]() -> (r: rand::rngs::ThreadRng);

/// Relies on `RngCore::next_u32` of `ThreadRng`, which draws a uniform word.
/// Nothing is promised of the word drawn.
#[verifier::external_body]
fn next_word(rng: &mut rand::rngs::ThreadRng) -> (r: u32) {
    rand::RngCore::next_u32(rng)
}

/// `n` independent uniform torus words.
pub fn ndim_torus_uniform(n: usize) -> (r: Vec<Torus>)
    ensures
        r@.len() == n,
{
    let mut rng = rand::thread_rng();
    let mut ret: Vec<Torus> = Vec::with_capacity(n);
    let mut i: usize = 0;
    while i < n
        invariant
            i <= n,
            ret@.len() == i,
        decreases n - i,
    {
        let u: u32 = next_word(&mut rng);
        ret.push(u);
        i += 1;
    }
    ret
}

/// `n` independent uniform bits, each as the word 0 or 1.
pub fn ndim_bin_uniform(n: usize) -> (r: Vec<Torus>)
    ensures
        r@.len() == n,
        forall|i: int| 0 <= i < n ==> r@[i] <= 1,
{
    let mut ret: Vec<Torus> = Vec::with_capacity(n);
    let mut i: usize = 0;
    while i < n
        invariant
            i <= n,
            ret@.len() == i,
            forall|j: int| 0 <= j < i ==> ret@[j] <= 1,
        decreases n - i,
    {
        let b: bool = rand::random::<bool>();
        ret.push(if b { 1 } else { 0 });
        i += 1;
    }
    ret
}

/// `n` independent uniform booleans.
pub fn random_bool_initialization(n: usize) -> (r: Vec<bool>)
    ensures
        r@.len() == n,
{
    let mut ret: Vec<bool> = Vec::with_capacity(n);
    let mut i: usize = 0;
    while i < n
        invariant
            i <= n,
            ret@.len() == i,
        decreases n - i,
    {
        let b: bool = rand::random::<bool>();
        ret.push(b);
        i += 1;
    }
    ret
}

} // verus!
