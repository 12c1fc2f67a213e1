use vstd::prelude::*;
use crate::key::SecretKey;
use crate::ops::{nega_sum, nega_term, pmul_spec, vadd_spec, vsub_spec, zero_ring, lemma_vadd_zero};
use crate::params::{N_LV0, N_LV1, NBIT, L};
use crate::tlwe::{
    CipherTLWELv0, CipherTLWELv1, tlwe_phase, small, lemma_phase_sub, lemma_zero_phase,
    lemma_decode_encode,
};
use crate::trgsw::{
    TRGSWMatrix, TRGSW, cmux, cmux_spec, mat_view, mat_wf, noise_wf, noise_view, const_poly,
    encrypts_gadget, decomp_spec, digit, digit_state, digit_ring, ext_acc,
};
use crate::trlwe::{CipherTRLWE, sample_extract_index, extract_mask, trlwe_phase, sample_extract_phase};
use crate::util::{
    Torus, to_torus, tneg, encode_bit, decode_bit, rotate_ring, rotate_spec, rotate_special_amounts,
    lemma_rotate_at_cases, lemma_tneg_tneg,
};

verus! {

/// The bootstrapping key: entry `j` is a TRGSW matrix of the level-0 key bit `s0[j]`.
#[derive(Clone, Debug)]
pub struct BootstrappingKey(pub Vec<TRGSWMatrix>);

/// The matrices of a bootstrapping key, row by row.
pub open spec fn bk_view(bk: &BootstrappingKey) -> Seq<Seq<(Seq<Torus>, Seq<Torus>)>> {
    bk.0@.map_values(|m: TRGSWMatrix| mat_view(&m))
}

/// `p * X^k` on both halves of a TRLWE ciphertext.
pub open spec fn rot_cipher(c: (Seq<Torus>, Seq<Torus>), k: int) -> (Seq<Torus>, Seq<Torus>) {
    (rotate_spec(c.0, k), rotate_spec(c.1, k))
}

/// `b >> (31 - Nbit)`: the index in `[0, 2N)` of `b` rounded down to a `2N`-th of the torus.
pub open spec fn b_floor(b: Torus) -> int {
    (b / 0x20_0000) as int
}

/// `(a + 2^(30 - Nbit)) >> (31 - Nbit)`: `a` rounded to the nearest `2N`-th of the torus.
pub open spec fn a_floor(a: Torus) -> int {
    (to_torus(a + 0x10_0000) / 0x20_0000) as int
}

/// The test vector after the first rotation and `j` CMUX steps of blind rotation.
pub open spec fn blind_rotate_acc(
    a0: Seq<Torus>,
    b0: Torus,
    tv: (Seq<Torus>, Seq<Torus>),
    bk: Seq<Seq<(Seq<Torus>, Seq<Torus>)>>,
    j: int,
) -> (Seq<Torus>, Seq<Torus>)
    decreases j,
{
    if j <= 0 {
        rot_cipher(tv, 2 * N_LV1 - b_floor(b0))
    } else {
        let c = blind_rotate_acc(a0, b0, tv, bk, j - 1);
        cmux_spec(bk[j - 1], rot_cipher(c, a_floor(a0[j - 1])), c)
    }
}

/// The level-1 ciphertext that gate bootstrapping returns: coefficient 0 of
/// the blind rotation of `tv` by `(a0, b0)`.
pub open spec fn gate_bootstrapping_spec(
    a0: Seq<Torus>,
    b0: Torus,
    tv: (Seq<Torus>, Seq<Torus>),
    bk: Seq<Seq<(Seq<Torus>, Seq<Torus>)>>,
) -> (Seq<Torus>, Torus) {
    let c = blind_rotate_acc(a0, b0, tv, bk, N_LV0 as int);
    (extract_mask(c.0, 0), c.1[0])
}

impl BootstrappingKey {
    /// `n` matrices of the TRGSW shape.
    pub open spec fn wf(&self) -> bool {
        &&& self.0@.len() == N_LV0
        &&& forall|j: int| 0 <= j < N_LV0 ==> mat_wf(#[trigger] &self.0@[j])
    }

    /// Matrix `k`.
    pub fn get(&self, k: usize) -> (r: &TRGSWMatrix)
        requires
            k < self.0.len(),
        ensures
            *r == self.0@[k as int],
    {
        &self.0[k]
    }

    /// Replaces matrix `k`.
    pub fn set(&mut self, k: usize, val: TRGSWMatrix)
        requires
            k < old(self).0.len(),
        ensures
            final(self).0@ == old(self).0@.update(k as int, val),
    {
        self.0.set(k, val);
    }
}

/// Builds the bootstrapping key: matrix `j` encrypts the key bit `s0[j]` under
/// `s1`, its zero rows taking the noise polynomials `noise[j]`.
pub fn bootstrapping_key(sk: &SecretKey, noise: &Vec<Vec<Vec<Torus>>>) -> (bk: BootstrappingKey)
    requires
        sk.wf(),
        noise.len() == N_LV0,
        forall|j: int| 0 <= j < N_LV0 ==> noise_wf(#[trigger] &noise@[j]),
    ensures
        bk.wf(),
        forall|j: int|
            0 <= j < N_LV0 ==> encrypts_gadget(
                sk.lv1@,
                #[trigger] mat_view(&bk.0@[j]),
                const_poly(if sk.lv0@[j] == 1 { 1 } else { 0 }),
                noise_view(&noise@[j]),
            ),
{
    let trgsw = TRGSW::new(sk);
    let mut v: Vec<TRGSWMatrix> = Vec::with_capacity(N_LV0);
    let mut j: usize = 0;
    while j < N_LV0
        invariant
            sk.wf(),
            trgsw.wf(),
            trgsw.secret() == sk.lv1@,
            noise.len() == N_LV0,
            forall|x: int| 0 <= x < N_LV0 ==> noise_wf(#[trigger] &noise@[x]),
            j <= N_LV0,
            v@.len() == j,
            forall|x: int| 0 <= x < j ==> mat_wf(#[trigger] &v@[x]),
            forall|x: int|
                0 <= x < j ==> encrypts_gadget(
                    sk.lv1@,
                    #[trigger] mat_view(&v@[x]),
                    const_poly(if sk.lv0@[x] == 1 { 1 } else { 0 }),
                    noise_view(&noise@[x]),
                ),
        decreases N_LV0 - j,
    {
        let bit: i8 = if sk.lv0[j] == 1 { 1 } else { 0 };
        let m = trgsw.coefficient(bit, &noise[j]);
        v.push(m);
        j += 1;
    }
    BootstrappingKey(v)
}

/// Multiplies both halves of a TRLWE ciphertext by `X^k`.
pub fn rotate_trlwe_cipher(c: &CipherTRLWE, k: usize) -> (r: CipherTRLWE)
    requires
        c.wf(),
        k <= 2 * N_LV1,
    ensures
        r.wf(),
        (r.0@, r.1@) == rot_cipher((c.0@, c.1@), k as int),
{
    let a_rot = rotate_ring(&c.0, k);
    let b_rot = rotate_ring(&c.1, k);
    CipherTRLWE(a_rot, b_rot)
}

/// Blind rotation: rotates the test vector `c1` by `-b0`, then for each `j`
/// selects, through `bk[j]`, between rotating further by the rounded `a0[j]`
/// or not.
pub fn blind_rotate(c0: &CipherTLWELv0, c1: &CipherTRLWE, bk: &BootstrappingKey) -> (r: CipherTRLWE)
    requires
        c0.wf(),
        c1.wf(),
        bk.wf(),
    ensures
        r.wf(),
        (r.0@, r.1@) == blind_rotate_acc(c0.0@, c0.1, (c1.0@, c1.1@), bk_view(bk), N_LV0 as int),
{
    let b0 = c0.1;
    let b_floor = (b0 >> (31 - NBIT as u32)) as usize;
    proof {
        assert(b0 >> 21u32 == b0 / 0x20_0000) by (bit_vector);
    }
    let offset: u32 = 1u32 << (30 - NBIT as u32);
    proof {
        assert(1u32 << 20u32 == 0x10_0000) by (bit_vector);
    }
    let mut c_ret = rotate_trlwe_cipher(c1, 2 * N_LV1 - b_floor);
    let mut j: usize = 0;
    while j < N_LV0
        invariant
            c0.wf(),
            bk.wf(),
            offset == 0x10_0000,
            c_ret.wf(),
            j <= N_LV0,
            (c_ret.0@, c_ret.1@) == blind_rotate_acc(c0.0@, c0.1, (c1.0@, c1.1@), bk_view(bk), j as int),
        decreases N_LV0 - j,
    {
        let aj = c0.0[j].wrapping_add(offset);
        let a_floor = (aj >> (31 - NBIT as u32)) as usize;
        proof {
            assert(aj >> 21u32 == aj / 0x20_0000) by (bit_vector);
        }
        let c_ret_rot = rotate_trlwe_cipher(&c_ret, a_floor);
        let m = bk.get(j);
        assert(mat_wf(&bk.0@[j as int]));
        assert(bk_view(bk)[j as int] == mat_view(m));
        c_ret = cmux(m, &c_ret_rot, &c_ret);
        j += 1;
    }
    c_ret
}

/// Gate bootstrapping: blind-rotates the test vector `tv` by the level-0
/// ciphertext `c0` and extracts coefficient 0 as a fresh level-1 ciphertext.
pub fn gate_bootstrapping(c0: &CipherTLWELv0, bk: &BootstrappingKey, tv: &CipherTRLWE) -> (r: CipherTLWELv1)
    requires
        c0.wf(),
        bk.wf(),
        tv.wf(),
    ensures
        r.wf(),
        (r.0@, r.1) == gate_bootstrapping_spec(c0.0@, c0.1, (tv.0@, tv.1@), bk_view(bk)),
{
    let c = blind_rotate(c0, tv, bk);
    sample_extract_index(&c, 0)
}

proof fn lemma_pmul_zero(p: Seq<Torus>, q: Seq<Torus>, k: int, m: int)
    requires
        p == zero_ring(p.len()),
        0 <= m <= p.len(),
    ensures
        nega_sum(p, q, k, m) == 0,
    decreases m,
{
    if m > 0 {
        lemma_pmul_zero(p, q, k, m - 1);
        let i = m - 1;
        let y: int = if i <= k { q[k - i] as int } else { q[k - i + p.len()] as int };
        assert(p[i] == 0);
        assert(0 * y == 0);
        assert(nega_term(p, q, k, i) == 0);
    }
}

proof fn lemma_digit_state_zero(l: nat)
    ensures
        digit_state(0, l) == (0int, 0int),
    decreases l,
{
    if l > 0 {
        lemma_digit_state_zero((l - 1) as nat);
    }
}

proof fn lemma_ext_acc_zero(m: Seq<(Seq<Torus>, Seq<Torus>)>, i: int)
    requires
        0 <= i <= L,
    ensures
        ext_acc(m, decomp_spec(zero_ring(N_LV1 as nat)), decomp_spec(zero_ring(N_LV1 as nat)), i)
            == (zero_ring(N_LV1 as nat), zero_ring(N_LV1 as nat)),
    decreases i,
{
    if i > 0 {
        let z = zero_ring(N_LV1 as nat);
        let d = decomp_spec(z);
        lemma_ext_acc_zero(m, i - 1);
        lemma_digit_state_zero((L - 1 - (i - 1)) as nat);
        assert(digit(0, (L - 1 - (i - 1)) as nat) == 0);
        assert(digit_ring(d[i - 1]) =~= z);
        assert forall|k: int| 0 <= k < N_LV1 implies #[trigger] pmul_spec(z, m[i - 1].0)[k] == 0 by {
            lemma_pmul_zero(z, m[i - 1].0, k, N_LV1 as int);
        }
        assert forall|k: int| 0 <= k < N_LV1 implies #[trigger] pmul_spec(z, m[i - 1].1)[k] == 0 by {
            lemma_pmul_zero(z, m[i - 1].1, k, N_LV1 as int);
        }
        assert forall|k: int| 0 <= k < N_LV1 implies #[trigger] pmul_spec(z, m[i - 1 + L].0)[k] == 0 by {
            lemma_pmul_zero(z, m[i - 1 + L].0, k, N_LV1 as int);
        }
        assert forall|k: int| 0 <= k < N_LV1 implies #[trigger] pmul_spec(z, m[i - 1 + L].1)[k] == 0 by {
            lemma_pmul_zero(z, m[i - 1 + L].1, k, N_LV1 as int);
        }
        assert(pmul_spec(z, m[i - 1].0) =~= z);
        assert(pmul_spec(z, m[i - 1].1) =~= z);
        assert(pmul_spec(z, m[i - 1 + L].0) =~= z);
        assert(pmul_spec(z, m[i - 1 + L].1) =~= z);
        lemma_vadd_zero(z);
    }
}

/// CMUX between a ciphertext and itself returns it unchanged, whatever the selector.
proof fn lemma_cmux_same(m: Seq<(Seq<Torus>, Seq<Torus>)>, c: (Seq<Torus>, Seq<Torus>))
    requires
        c.0.len() == N_LV1,
        c.1.len() == N_LV1,
    ensures
        cmux_spec(m, c, c) == c,
{
    let z = zero_ring(N_LV1 as nat);
    assert(vsub_spec(c.0, c.0) =~= z);
    assert(vsub_spec(c.1, c.1) =~= z);
    lemma_ext_acc_zero(m, L as int);
    lemma_vadd_zero(c.0);
    lemma_vadd_zero(c.1);
}

proof fn lemma_blind_rotate_zero_mask(
    a0: Seq<Torus>,
    b0: Torus,
    tv: (Seq<Torus>, Seq<Torus>),
    bk: Seq<Seq<(Seq<Torus>, Seq<Torus>)>>,
    j: int,
)
    requires
        a0 == zero_ring(N_LV0 as nat),
        tv.0.len() == N_LV1,
        tv.1.len() == N_LV1,
        0 <= j <= N_LV0,
    ensures
        blind_rotate_acc(a0, b0, tv, bk, j) == rot_cipher(tv, 2 * N_LV1 - b_floor(b0)),
    decreases j,
{
    if j > 0 {
        lemma_blind_rotate_zero_mask(a0, b0, tv, bk, j - 1);
        let c = blind_rotate_acc(a0, b0, tv, bk, j - 1);
        assert(a_floor(a0[j - 1]) == 0);
        rotate_special_amounts(c.0);
        rotate_special_amounts(c.1);
        lemma_cmux_same(bk[j - 1], c);
    }
}

/// Extracting coefficient 0 after a rotation by `2N - t` extracts coefficient
/// `t` (or, past `N`, the negation of coefficient `t - N`).
proof fn lemma_extract_rotated(a: Seq<Torus>, t: int)
    requires
        a.len() == N_LV1,
        0 <= t < 2 * N_LV1,
    ensures
        t < N_LV1 ==> extract_mask(rotate_spec(a, 2 * N_LV1 - t), 0) == extract_mask(a, t),
        t < N_LV1 ==> rotate_spec(a, 2 * N_LV1 - t)[0] == a[t],
        t >= N_LV1 ==> extract_mask(rotate_spec(a, 2 * N_LV1 - t), 0) == vsub_spec(
            zero_ring(N_LV1 as nat),
            extract_mask(a, t - N_LV1),
        ),
        t >= N_LV1 ==> rotate_spec(a, 2 * N_LV1 - t)[0] == tneg(a[t - N_LV1]),
{
    let n = N_LV1 as int;
    let k = 2 * n - t;
    let r = rotate_spec(a, k);
    lemma_rotate_at_cases(a, k, 0);
    assert forall|i: int| 0 <= i < n implies #[trigger] extract_mask(r, 0)[i] == (if t < n {
        extract_mask(a, t)[i]
    } else {
        vsub_spec(zero_ring(N_LV1 as nat), extract_mask(a, t - n))[i]
    }) by {
        if i > 0 {
            lemma_rotate_at_cases(a, k, n - i);
        }
        if t < n {
            if 0 < i <= t {
                lemma_tneg_tneg(a[t - i]);
            }
        } else {
            if 0 < i <= t - n {
                lemma_tneg_tneg(a[t - n - i]);
            } else if i > t - n {
                lemma_tneg_tneg(a[n + t - n - i]);
            }
        }
    }
    if t < n {
        assert(extract_mask(r, 0) =~= extract_mask(a, t));
    } else {
        assert(extract_mask(r, 0) =~= vsub_spec(zero_ring(N_LV1 as nat), extract_mask(a, t - n)));
    }
}

/// Blind rotation of a ciphertext `(0, b)` with a zero mask: gate
/// bootstrapping returns a level-1 ciphertext whose phase is coefficient
/// `b_floor(b)` of the test vector's phase, negated when that index is `N` or
/// more, for every key and every bootstrapping key.
pub proof fn blind_rotate_zero_mask(
    s: Seq<Torus>,
    a0: Seq<Torus>,
    b0: Torus,
    tv: (Seq<Torus>, Seq<Torus>),
    bk: Seq<Seq<(Seq<Torus>, Seq<Torus>)>>,
)
    requires
        s.len() == N_LV1,
        a0 == zero_ring(N_LV0 as nat),
        tv.0.len() == N_LV1,
        tv.1.len() == N_LV1,
    ensures
        ({
            let g = gate_bootstrapping_spec(a0, b0, tv, bk);
            let t = b_floor(b0);
            &&& t < N_LV1 ==> tlwe_phase(s, g.0, g.1) == trlwe_phase(s, tv.0, tv.1)[t]
            &&& t >= N_LV1 ==> tlwe_phase(s, g.0, g.1) == tneg(trlwe_phase(s, tv.0, tv.1)[t - N_LV1])
        }),
{
    let t = b_floor(b0);
    assert(0 <= t < 2 * N_LV1);
    lemma_blind_rotate_zero_mask(a0, b0, tv, bk, N_LV0 as int);
    lemma_extract_rotated(tv.0, t);
    lemma_extract_rotated(tv.1, t);
    if t < N_LV1 {
        sample_extract_phase(s, tv.0, tv.1, t);
    } else {
        let u = t - N_LV1;
        let z = zero_ring(N_LV1 as nat);
        sample_extract_phase(s, tv.0, tv.1, u);
        let x = extract_mask(tv.0, u);
        lemma_phase_sub(s, z, 0, x, tv.1[u]);
        lemma_zero_phase(s, z, 0);
        assert(to_torus(0 - tv.1[u]) == tneg(tv.1[u]));
    }
}

proof fn lemma_decode_negated_true(e: Torus)
    requires
        small(e, 0x2000_0000),
    ensures
        !decode_bit(tneg(to_torus(encode_bit(true) + e))),
{
}

/// Blind rotation of `clearly_true = (0, +1/8)` through a test vector whose
/// phase is `+1/8 + e` with every `|e_i| < 1/8` decrypts to true, and that of
/// its negation `(0, -1/8)` to false.
pub proof fn blind_rotate_clearly_true(
    s: Seq<Torus>,
    tv: (Seq<Torus>, Seq<Torus>),
    e: Seq<Torus>,
    bk: Seq<Seq<(Seq<Torus>, Seq<Torus>)>>,
)
    requires
        s.len() == N_LV1,
        tv.0.len() == N_LV1,
        tv.1.len() == N_LV1,
        e.len() == N_LV1,
        trlwe_phase(s, tv.0, tv.1) == vadd_spec(Seq::new(N_LV1 as nat, |i: int| encode_bit(true)), e),
        forall|i: int| 0 <= i < N_LV1 ==> small(#[trigger] e[i], 0x2000_0000),
    ensures
        ({
            let g = gate_bootstrapping_spec(zero_ring(N_LV0 as nat), encode_bit(true), tv, bk);
            decode_bit(tlwe_phase(s, g.0, g.1))
        }),
        ({
            let g = gate_bootstrapping_spec(zero_ring(N_LV0 as nat), tneg(encode_bit(true)), tv, bk);
            !decode_bit(tlwe_phase(s, g.0, g.1))
        }),
{
    let z = zero_ring(N_LV0 as nat);
    let ph = trlwe_phase(s, tv.0, tv.1);
    let t = encode_bit(true);
    let f = tneg(encode_bit(true));
    assert(b_floor(t) == 256);
    assert(b_floor(f) == 1792);
    blind_rotate_zero_mask(s, z, t, tv, bk);
    blind_rotate_zero_mask(s, z, f, tv, bk);
    let g1 = gate_bootstrapping_spec(z, t, tv, bk);
    let g2 = gate_bootstrapping_spec(z, f, tv, bk);
    assert(tlwe_phase(s, g1.0, g1.1) == ph[256]);
    assert(tlwe_phase(s, g2.0, g2.1) == tneg(ph[768]));
    assert(ph[256] == to_torus(encode_bit(true) + e[256]));
    assert(ph[768] == to_torus(encode_bit(true) + e[768]));
    lemma_decode_encode(true, e[256]);
    lemma_decode_negated_true(e[768]);
}

} // verus!
