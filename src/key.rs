use vstd::prelude::*;
use crate::params::{N_LV0, N_LV1};
use crate::sampling::ndim_bin_uniform;
use crate::util::Torus;

verus! {

/// A secret key pair: `lv0` is the level-0 binary vector of length `n`,
/// `lv1` the level-1 binary polynomial of length `N`.
#[derive(Clone, Debug)]
pub struct SecretKey {
    pub lv0: Vec<Torus>,
    pub lv1: Vec<Torus>,
}

/// Every coefficient is 0 or 1.
pub open spec fn is_binary(s: Seq<Torus>) -> bool {
    forall|i: int| 0 <= i < s.len() ==> #[trigger] s[i] <= 1
}

impl SecretKey {
    /// Both halves have their dimension and hold only bits.
    pub open spec fn wf(&self) -> bool {
        &&& self.lv0@.len() == N_LV0
        &&& self.lv1@.len() == N_LV1
        &&& is_binary(self.lv0@)
        &&& is_binary(self.lv1@)
    }

    /// Draws a fresh key pair of uniform bits.
    pub fn new() -> (r: Self)
        ensures
            r.wf(),
    {
        let lv0 = ndim_bin_uniform(N_LV0);
        let lv1 = ndim_bin_uniform(N_LV1);
        SecretKey { lv0, lv1 }
    }

    /// A copy of the key.
    pub fn copy(&self) -> (r: Self)
        ensures
            r.lv0@ == self.lv0@,
            r.lv1@ == self.lv1@,
    {
        SecretKey { lv0: copy_ring(&self.lv0), lv1: copy_ring(&self.lv1) }
    }
}

/// A copy of a torus vector.
pub fn copy_ring(v: &Vec<Torus>) -> (r: Vec<Torus>)
    ensures
        r@ == v@,
{
    let r = v.clone();
    assert(r@ =~= v@);
    r
}

} // verus!
