use vstd::prelude::*;
use crate::bootstrapping::{BootstrappingKey, gate_bootstrapping, gate_bootstrapping_spec, bk_view};
use crate::key_switching::{KeySwitchingKey, identity_key_switching, ks_acc, ksk_view};
use crate::ops::{vadd_spec, vsub_spec, zero_ring};
use crate::params::{N_LV0, N_LV1, T};
use crate::tlwe::CipherTLWELv0;
use crate::trlwe::CipherTRLWE;
use crate::util::{Torus, to_torus, encode_bit};

verus! {

/// The input of the NAND gate: `clearly_true - (x + y)`.
pub open spec fn nand_input(
    x: (Seq<Torus>, Torus),
    y: (Seq<Torus>, Torus),
) -> (Seq<Torus>, Torus) {
    (
        vsub_spec(zero_ring(N_LV0 as nat), vadd_spec(x.0, y.0)),
        to_torus(encode_bit(true) - to_torus(x.1 + y.1)),
    )
}

/// Homomorphic NAND of two level-0 ciphertexts: gate-bootstraps
/// `clearly_true - (x + y)` through the test vector `tv` and key-switches the
/// result back to level 0.
pub fn homnand(
    x: &CipherTLWELv0,
    y: &CipherTLWELv0,
    bk: &BootstrappingKey,
    tv: &CipherTRLWE,
    ksk: &KeySwitchingKey,
) -> (r: CipherTLWELv0)
    requires
        x.wf(),
        y.wf(),
        bk.wf(),
        tv.wf(),
        ksk.wf(),
    ensures
        r.wf(),
        (r.0@, r.1) == ({
            let c = nand_input((x.0@, x.1), (y.0@, y.1));
            let g = gate_bootstrapping_spec(c.0, c.1, (tv.0@, tv.1@), bk_view(bk));
            ks_acc(ksk_view(ksk), g.0, g.1, (N_LV1 * T) as int)
        }),
{
    let c_true = CipherTLWELv0::clearly_true();
    let sum = x.add(y);
    let input = c_true.sub(&sum);
    let c = gate_bootstrapping(&input, bk, tv);
    identity_key_switching(&c, ksk)
}

} // verus!
