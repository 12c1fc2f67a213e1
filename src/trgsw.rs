use vstd::prelude::*;
use crate::key::SecretKey;
use crate::ops::{
    pmul, vadd, zeros, rmadd, intpoly_mul_as_torus, pmul_spec, vadd_spec, vsub_spec, intpoly_spec,
    zero_ring, lemma_vadd_zero, lemma_add_sub_cancel,
};
use crate::params::{N_LV1, L, BG, BGBIT, SIGN_MIN, SIGN_MAX};
use crate::tlwe::small;
use crate::trlwe::{CipherTRLWE, TRLWE, trlwe_phase, decode_bits, lemma_trlwe_phase_add};
use crate::util::{Torus, to_torus, encode_bit, decode_bit, zpoly_to_ring, lemma_to_torus_add};

verus! {

/// A TRGSW matrix: `2l` rows, each a pair `[a, b]` of ring elements.
pub type TRGSWMatrix = Vec<Vec<Vec<Torus>>>;

/// The rows of a matrix as pairs `(a, b)`.
pub open spec fn mat_view(m: &TRGSWMatrix) -> Seq<(Seq<Torus>, Seq<Torus>)> {
    Seq::new(m@.len(), |i: int| (m@[i]@[0]@, m@[i]@[1]@))
}

/// `2l` rows of two ring elements of length `N`.
pub open spec fn mat_wf(m: &TRGSWMatrix) -> bool {
    &&& m@.len() == 2 * L
    &&& forall|i: int| 0 <= i < 2 * L ==> (#[trigger] m@[i])@.len() == 2
    &&& forall|i: int, j: int|
        0 <= i < 2 * L && 0 <= j < 2 ==> (#[trigger] m@[i]@[j])@.len() == N_LV1
}

/// The state `(a, carry)` of the signed digit loop for the word `p`, before
/// digit `l`: `a` starts as the top `l * Bgbit` bits of `p`, and each step
/// divides it by `Bg`.
pub open spec fn digit_state(p: Torus, l: nat) -> (int, int)
    decreases l,
{
    if l == 0 {
        ((p / 0x4000) as int, 0)
    } else {
        let (a, c) = digit_state(p, (l - 1) as nat);
        let r = a % 64 + c;
        (a / 64, if r >= 32 { 1 } else { 0 })
    }
}

/// Signed digit `l` (from the least significant) of the word `p`, in `[-Bg/2, Bg/2)`.
pub open spec fn digit(p: Torus, l: nat) -> int {
    let (a, c) = digit_state(p, l);
    let r = a % 64 + c;
    if r >= 32 {
        r - 64
    } else {
        r
    }
}

/// Weight `2^(32 - (i + 1) * Bgbit)` of gadget row `i`.
pub open spec fn gadget_weight(i: int) -> Torus {
    if i == 0 {
        0x0400_0000
    } else if i == 1 {
        0x0010_0000
    } else {
        0x4000
    }
}

/// Row `i` of the decomposition of a polynomial: digit `l - 1 - i` of each
/// coefficient, so that row 0 holds the most significant digits.
pub open spec fn decomp_spec(p: Seq<Torus>) -> Seq<Seq<i8>> {
    Seq::new(L as nat, |i: int| Seq::new(p.len(), |n: int| digit(p[n], (L - 1 - i) as nat) as i8))
}

/// `sum_i d_i * 2^(32 - (i + 1) * Bgbit)`, over the digits read from the top.
pub open spec fn recompose(p: Torus) -> int {
    digit(p, 2) * 0x0400_0000 + digit(p, 1) * 0x0010_0000 + digit(p, 0) * 0x4000
}

/// Digit `l` of `p`, by running the carry loop up to it.
fn digit_at(pn: Torus, l: usize) -> (s: i8)
    requires
        l < L,
    ensures
        s as int == digit(pn, l as nat),
        SIGN_MIN <= s <= SIGN_MAX,
{
    let mut a: u32 = pn >> (32 - L as u32 * BGBIT);
    proof {
        assert(pn >> 14u32 == pn / 0x4000) by (bit_vector);
    }
    let mut cflag: bool = false;
    let mut m: usize = 0;
    while m < l
        invariant
            m <= l,
            l < L,
            digit_state(pn, m as nat) == (a as int, if cflag { 1int } else { 0int }),
        decreases l - m,
    {
        let r = a % BG + if cflag { 1u32 } else { 0u32 };
        cflag = r >= BG / 2;
        a = a / BG;
        m += 1;
    }
    let r = a % BG + if cflag { 1u32 } else { 0u32 };
    if r >= BG / 2 {
        ((r - BG / 2) as i8) - (BG / 2) as i8
    } else {
        r as i8
    }
}

/// Signed base-`Bg` decomposition of a torus polynomial into `l` rows of
/// digits in `[-Bg/2, Bg/2)`; row 0 holds the most significant digits.
pub fn decompose_poly(poly: &Vec<Torus>) -> (d: Vec<Vec<i8>>)
    ensures
        d@.len() == L,
        forall|i: int| 0 <= i < L ==> (#[trigger] d@[i])@ == decomp_spec(poly@)[i],
{
    let mut d: Vec<Vec<i8>> = Vec::with_capacity(L);
    let mut i: usize = 0;
    while i < L
        invariant
            i <= L,
            d@.len() == i,
            forall|x: int| 0 <= x < i ==> (#[trigger] d@[x])@ == decomp_spec(poly@)[x],
        decreases L - i,
    {
        let mut row: Vec<i8> = Vec::with_capacity(poly.len());
        let mut n: usize = 0;
        while n < poly.len()
            invariant
                i < L,
                n <= poly.len(),
                row@.len() == n,
                forall|y: int|
                    0 <= y < n ==> row@[y] as int == digit(poly@[y], (L - 1 - i) as nat),
            decreases poly.len() - n,
        {
            let s = digit_at(poly[n], L - 1 - i);
            row.push(s);
            n += 1;
        }
        assert(row@ =~= decomp_spec(poly@)[i as int]);
        d.push(row);
        i += 1;
    }
    d
}

/// Decomposition reconstructs its input: the digits of `p`, weighted by
/// `2^(32 - (i + 1) * Bgbit)`, sum to `p` with its low `32 - l * Bgbit` bits
/// cleared, modulo `2^32`; and each digit lies in `[-Bg/2, Bg/2)`.
pub proof fn decomposition_reconstructs(p: Torus)
    ensures
        to_torus(recompose(p)) == p - p % 0x4000,
        forall|l: nat| l < L ==> -32 <= #[trigger] digit(p, l) < 32,
{
    let t = (p / 0x4000) as int;
    let (a0, c0) = digit_state(p, 0);
    let (a1, c1) = digit_state(p, 1);
    let (a2, c2) = digit_state(p, 2);
    let (a3, c3) = digit_state(p, 3);
    assert(a0 == t && c0 == 0);
    assert(0 <= t < 0x40000);
    assert(a1 == t / 64);
    assert(a2 == t / 64 / 64);
    assert(t == t % 64 + 64 * (a1 % 64) + 4096 * a2);
    assert(a2 < 64);
    let sum = recompose(p);
    assert(sum == (t - 0x40000 * c3) * 0x4000);
    assert(t * 0x4000 == p - p % 0x4000);
    assert(sum == (p - p % 0x4000) - 0x1_0000_0000 * c3);
    assert(to_torus(sum) == p - p % 0x4000);
    assert forall|l: nat| l < L implies -32 <= #[trigger] digit(p, l) < 32 by {
        let (a, c) = digit_state(p, l);
        assert(0 <= c <= 1);
    }
}

/// A row of signed digits as a torus polynomial.
pub open spec fn digit_ring(d: Seq<i8>) -> Seq<Torus> {
    d.map_values(|z: i8| to_torus(z as int))
}

/// The first `i` steps of the external product sums
/// `a' = sum_i abar_i * M[i].a + bbar_i * M[i + l].a` and
/// `b' = sum_i abar_i * M[i].b + bbar_i * M[i + l].b`.
pub open spec fn ext_acc(
    m: Seq<(Seq<Torus>, Seq<Torus>)>,
    abar: Seq<Seq<i8>>,
    bbar: Seq<Seq<i8>>,
    i: int,
) -> (Seq<Torus>, Seq<Torus>)
    decreases i,
{
    if i <= 0 {
        (zero_ring(N_LV1 as nat), zero_ring(N_LV1 as nat))
    } else {
        let (a, b) = ext_acc(m, abar, bbar, i - 1);
        let da = digit_ring(abar[i - 1]);
        let db = digit_ring(bbar[i - 1]);
        (
            vadd_spec(vadd_spec(a, pmul_spec(da, m[i - 1].0)), pmul_spec(db, m[i - 1 + L].0)),
            vadd_spec(vadd_spec(b, pmul_spec(da, m[i - 1].1)), pmul_spec(db, m[i - 1 + L].1)),
        )
    }
}

/// The external product of a TRGSW matrix and a TRLWE ciphertext `(a, b)`.
pub open spec fn external_product_spec(
    m: Seq<(Seq<Torus>, Seq<Torus>)>,
    c: (Seq<Torus>, Seq<Torus>),
) -> (Seq<Torus>, Seq<Torus>) {
    ext_acc(m, decomp_spec(c.0), decomp_spec(c.1), L as int)
}

/// `external_product(M, c0 - c1) + c1`.
pub open spec fn cmux_spec(
    m: Seq<(Seq<Torus>, Seq<Torus>)>,
    c0: (Seq<Torus>, Seq<Torus>),
    c1: (Seq<Torus>, Seq<Torus>),
) -> (Seq<Torus>, Seq<Torus>) {
    let e = external_product_spec(m, (vsub_spec(c0.0, c1.0), vsub_spec(c0.1, c1.1)));
    (vadd_spec(e.0, c1.0), vadd_spec(e.1, c1.1))
}

/// The decomposition `(abar, bbar)` of both halves of a TRLWE ciphertext.
pub fn decomposition(c: &CipherTRLWE) -> (r: (Vec<Vec<i8>>, Vec<Vec<i8>>))
    ensures
        r.0@.len() == L,
        r.1@.len() == L,
        forall|i: int| 0 <= i < L ==> (#[trigger] r.0@[i])@ == decomp_spec(c.0@)[i],
        forall|i: int| 0 <= i < L ==> (#[trigger] r.1@[i])@ == decomp_spec(c.1@)[i],
{
    let a_decomp = decompose_poly(&c.0);
    let b_decomp = decompose_poly(&c.1);
    (a_decomp, b_decomp)
}

/// The external product of a TRGSW matrix with a TRLWE ciphertext: decompose
/// `c` into `(abar, bbar)`, then `a' = sum_i abar_i * M[i][0] + bbar_i * M[i + l][0]`
/// and `b' = sum_i abar_i * M[i][1] + bbar_i * M[i + l][1]`.
pub fn external_product(matrix: &TRGSWMatrix, c: &CipherTRLWE) -> (r: CipherTRLWE)
    requires
        mat_wf(matrix),
        c.wf(),
    ensures
        r.wf(),
        (r.0@, r.1@) == external_product_spec(mat_view(matrix), (c.0@, c.1@)),
{
    let ghost m = mat_view(matrix);
    let ghost abar = decomp_spec(c.0@);
    let ghost bbar = decomp_spec(c.1@);
    let (a_bar, b_bar) = decomposition(c);
    let mut a_: Vec<Torus> = zeros(N_LV1);
    let mut b_: Vec<Torus> = zeros(N_LV1);
    let mut i: usize = 0;
    while i < L
        invariant
            mat_wf(matrix),
            m == mat_view(matrix),
            a_bar@.len() == L,
            b_bar@.len() == L,
            forall|x: int| 0 <= x < L ==> (#[trigger] a_bar@[x])@ == abar[x],
            forall|x: int| 0 <= x < L ==> (#[trigger] b_bar@[x])@ == bbar[x],
            abar == decomp_spec(c.0@),
            bbar == decomp_spec(c.1@),
            c.wf(),
            i <= L,
            a_@.len() == N_LV1,
            b_@.len() == N_LV1,
            (a_@, b_@) == ext_acc(m, abar, bbar, i as int),
        decreases L - i,
    {
        let za = zpoly_to_ring(&a_bar[i]);
        let zb = zpoly_to_ring(&b_bar[i]);
        assert(za@ =~= digit_ring(abar[i as int]));
        assert(zb@ =~= digit_ring(bbar[i as int]));
        assert(matrix@[i as int]@[0]@.len() == N_LV1);
        assert(matrix@[i + L]@[0]@.len() == N_LV1);
        assert(matrix@[i as int]@[1]@.len() == N_LV1);
        assert(matrix@[i + L]@[1]@.len() == N_LV1);
        a_ = vadd(&a_, &pmul(&za, &matrix[i][0]));
        a_ = vadd(&a_, &pmul(&zb, &matrix[i + L][0]));
        b_ = vadd(&b_, &pmul(&za, &matrix[i][1]));
        b_ = vadd(&b_, &pmul(&zb, &matrix[i + L][1]));
        i += 1;
    }
    CipherTRLWE(a_, b_)
}

/// Oblivious selection: `external_product(M, c0 - c1) + c1`. When `M`
/// encrypts 1 the result decrypts as `c0`, when it encrypts 0 as `c1`.
pub fn cmux(matrix: &TRGSWMatrix, c0: &CipherTRLWE, c1: &CipherTRLWE) -> (r: CipherTRLWE)
    requires
        mat_wf(matrix),
        c0.wf(),
        c1.wf(),
    ensures
        r.wf(),
        (r.0@, r.1@) == cmux_spec(mat_view(matrix), (c0.0@, c0.1@), (c1.0@, c1.1@)),
{
    let d = c0.sub(c1);
    let e = external_product(matrix, &d);
    e.add(c1)
}

/// The gadget matrix of an integer polynomial `mu`: row `i < l` is
/// `(mu * w_i, 0)` and row `l + i` is `(0, mu * w_i)`, `w_i = 2^(32 - (i + 1) * Bgbit)`.
pub open spec fn gadget_spec(mu: Seq<i8>) -> Seq<(Seq<Torus>, Seq<Torus>)> {
    Seq::new(
        (2 * L) as nat,
        |i: int|
            if i < L {
                (intpoly_spec(mu, gadget_weight(i)), zero_ring(mu.len()))
            } else {
                (zero_ring(mu.len()), intpoly_spec(mu, gadget_weight(i - L)))
            },
    )
}

/// Every row of `m` minus the gadget of `mu` is a TRLWE encryption of zero
/// under `s` whose phase is the matching noise polynomial.
pub open spec fn encrypts_gadget(
    s: Seq<Torus>,
    m: Seq<(Seq<Torus>, Seq<Torus>)>,
    mu: Seq<i8>,
    noise: Seq<Seq<Torus>>,
) -> bool {
    &&& m.len() == 2 * L
    &&& forall|i: int|
        0 <= i < 2 * L ==> #[trigger] trlwe_phase(
            s,
            vsub_spec(m[i].0, gadget_spec(mu)[i].0),
            vsub_spec(m[i].1, gadget_spec(mu)[i].1),
        ) == noise[i]
}

/// The noise rings of a matrix as sequences.
pub open spec fn noise_view(noise: &Vec<Vec<Torus>>) -> Seq<Seq<Torus>> {
    noise@.map_values(|e: Vec<Torus>| e@)
}

/// `2l` noise rings of length `N`.
pub open spec fn noise_wf(noise: &Vec<Vec<Torus>>) -> bool {
    noise@.len() == 2 * L && forall|i: int| 0 <= i < 2 * L ==> (#[trigger] noise@[i])@.len() == N_LV1
}

/// `2^(32 - (i + 1) * Bgbit)`.
fn gadget_weight_exec(i: usize) -> (w: Torus)
    requires
        i < L,
    ensures
        w == gadget_weight(i as int),
{
    let sh: u32 = 32 - (i as u32 + 1) * BGBIT;
    proof {
        assert(1u32 << 26u32 == 0x0400_0000) by (bit_vector);
        assert(1u32 << 20u32 == 0x0010_0000) by (bit_vector);
        assert(1u32 << 14u32 == 0x4000) by (bit_vector);
    }
    1u32 << sh
}

/// The gadget matrix of `mu`, with no noise added.
fn gadget_matrix(mu: &Vec<i8>) -> (m: TRGSWMatrix)
    ensures
        m@.len() == 2 * L,
        forall|i: int| 0 <= i < 2 * L ==> (#[trigger] m@[i])@.len() == 2,
        forall|i: int, j: int|
            0 <= i < 2 * L && 0 <= j < 2 ==> (#[trigger] m@[i]@[j])@.len() == mu@.len(),
        mat_view(&m) == gadget_spec(mu@),
{
    let mut matrix: TRGSWMatrix = Vec::with_capacity(2 * L);
    let mut i: usize = 0;
    while i < 2 * L
        invariant
            i <= 2 * L,
            matrix@.len() == i,
            forall|x: int| 0 <= x < i ==> (#[trigger] matrix@[x])@.len() == 2,
            forall|x: int, j: int|
                0 <= x < i && 0 <= j < 2 ==> (#[trigger] matrix@[x]@[j])@.len() == mu@.len(),
            forall|x: int|
                0 <= x < i ==> (#[trigger] matrix@[x])@[0]@ == gadget_spec(mu@)[x].0
                    && matrix@[x]@[1]@ == gadget_spec(mu@)[x].1,
        decreases 2 * L - i,
    {
        let mut row: Vec<Vec<Torus>> = Vec::with_capacity(2);
        if i < L {
            let w = gadget_weight_exec(i);
            row.push(intpoly_mul_as_torus(mu, w));
            row.push(zeros(mu.len()));
        } else {
            let w = gadget_weight_exec(i - L);
            row.push(zeros(mu.len()));
            row.push(intpoly_mul_as_torus(mu, w));
        }
        matrix.push(row);
        i += 1;
    }
    assert(mat_view(&matrix) =~= gadget_spec(mu@));
    matrix
}

/// Gadget encryption under the level-1 key.
#[derive(Clone, Debug)]
pub struct TRGSW {
    sk: SecretKey,
}

impl TRGSW {
    /// The level-1 key polynomial.
    pub closed spec fn secret(&self) -> Seq<Torus> {
        self.sk.lv1@
    }

    pub closed spec fn wf(&self) -> bool {
        self.sk.wf()
    }

    pub fn new(sk: &SecretKey) -> (r: Self)
        requires
            sk.wf(),
        ensures
            r.wf(),
            r.secret() == sk.lv1@,
    {
        TRGSW { sk: sk.copy() }
    }

    /// `2l` independent TRLWE encryptions of the zero polynomial; row `i`
    /// takes the noise polynomial `noise[i]`.
    pub fn zero_matrix(&self, noise: &Vec<Vec<Torus>>) -> (m: TRGSWMatrix)
        requires
            self.wf(),
            noise_wf(noise),
        ensures
            mat_wf(&m),
            forall|i: int|
                0 <= i < 2 * L ==> #[trigger] trlwe_phase(self.secret(), mat_view(&m)[i].0, mat_view(&m)[i].1)
                    == noise@[i]@,
    {
        let trlwe = TRLWE::new(&self.sk);
        let zero_ring_v = zeros(N_LV1);
        let mut matrix: TRGSWMatrix = Vec::with_capacity(2 * L);
        let mut i: usize = 0;
        while i < 2 * L
            invariant
                trlwe.wf(),
                trlwe.secret() == self.secret(),
                zero_ring_v@ == zero_ring(N_LV1 as nat),
                noise_wf(noise),
                i <= 2 * L,
                matrix@.len() == i,
                forall|x: int| 0 <= x < i ==> (#[trigger] matrix@[x])@.len() == 2,
                forall|x: int, j: int|
                    0 <= x < i && 0 <= j < 2 ==> (#[trigger] matrix@[x]@[j])@.len() == N_LV1,
                forall|x: int|
                    0 <= x < i ==> trlwe_phase(self.secret(), (#[trigger] matrix@[x])@[0]@, matrix@[x]@[1]@)
                        == noise@[x]@,
            decreases 2 * L - i,
        {
            let c = trlwe.encrypt_torus(&zero_ring_v, &noise[i]);
            proof {
                lemma_vadd_zero(noise@[i as int]@);
            }
            let (a, b) = c.describe();
            let mut row: Vec<Vec<Torus>> = Vec::with_capacity(2);
            row.push(a);
            row.push(b);
            matrix.push(row);
            i += 1;
        }
        matrix
    }

    /// The gadget matrix of `mu` plus a fresh zero matrix built from `noise`.
    pub fn coefficient_matrix(&self, mu: &Vec<i8>, noise: &Vec<Vec<Torus>>) -> (m: TRGSWMatrix)
        requires
            self.wf(),
            mu.len() == N_LV1,
            noise_wf(noise),
        ensures
            mat_wf(&m),
            encrypts_gadget(self.secret(), mat_view(&m), mu@, noise_view(noise)),
    {
        let g = gadget_matrix(mu);
        let z = self.zero_matrix(noise);
        let m = rmadd(&g, &z);
        proof {
            assert forall|i: int| 0 <= i < 2 * L implies #[trigger] trlwe_phase(
                self.secret(),
                vsub_spec(mat_view(&m)[i].0, gadget_spec(mu@)[i].0),
                vsub_spec(mat_view(&m)[i].1, gadget_spec(mu@)[i].1),
            ) == noise_view(noise)[i] by {
                assert(g@[i]@.len() == 2);
                assert(g@[i]@[0]@.len() == N_LV1);
                assert(g@[i]@[1]@.len() == N_LV1);
                lemma_add_sub_cancel(g@[i]@[0]@, z@[i]@[0]@);
                lemma_add_sub_cancel(g@[i]@[1]@, z@[i]@[1]@);
                assert(mat_view(&g)[i] == gadget_spec(mu@)[i]);
                assert(m@[i]@[0]@ == vadd_spec(g@[i]@[0]@, z@[i]@[0]@));
                assert(m@[i]@[1]@ == vadd_spec(g@[i]@[1]@, z@[i]@[1]@));
                assert(mat_view(&m)[i].0 == m@[i]@[0]@);
                assert(mat_view(&m)[i].1 == m@[i]@[1]@);
                assert(gadget_spec(mu@)[i].0 == g@[i]@[0]@);
                assert(gadget_spec(mu@)[i].1 == g@[i]@[1]@);
                assert(trlwe_phase(self.secret(), mat_view(&z)[i].0, mat_view(&z)[i].1) == noise@[i]@);
                assert(mat_view(&z)[i].0 == z@[i]@[0]@);
                assert(mat_view(&z)[i].1 == z@[i]@[1]@);
            }
        }
        m
    }

    /// The matrix of the constant polynomial `m`.
    pub fn coefficient(&self, m: i8, noise: &Vec<Vec<Torus>>) -> (r: TRGSWMatrix)
        requires
            self.wf(),
            noise_wf(noise),
        ensures
            mat_wf(&r),
            encrypts_gadget(self.secret(), mat_view(&r), const_poly(m), noise_view(noise)),
    {
        let mut mu: Vec<i8> = Vec::with_capacity(N_LV1);
        mu.push(m);
        let mut i: usize = 1;
        while i < N_LV1
            invariant
                1 <= i <= N_LV1,
                mu@.len() == i,
                mu@[0] == m,
                forall|j: int| 1 <= j < i ==> mu@[j] == 0,
            decreases N_LV1 - i,
        {
            mu.push(0);
            i += 1;
        }
        assert(mu@ =~= const_poly(m));
        self.coefficient_matrix(&mu, noise)
    }

    /// The matrix of the constant polynomial 1 or 0.
    pub fn coefficient_bool(&self, b: bool, noise: &Vec<Vec<Torus>>) -> (r: TRGSWMatrix)
        requires
            self.wf(),
            noise_wf(noise),
        ensures
            mat_wf(&r),
            encrypts_gadget(self.secret(), mat_view(&r), const_poly(if b { 1 } else { 0 }), noise_view(noise)),
    {
        self.coefficient(if b { 1 } else { 0 }, noise)
    }

    /// CMUX with a freshly built selector matrix of `flag`.
    pub fn cmux(&self, flag: bool, c0: &CipherTRLWE, c1: &CipherTRLWE, noise: &Vec<Vec<Torus>>) -> (r: CipherTRLWE)
        requires
            self.wf(),
            noise_wf(noise),
            c0.wf(),
            c1.wf(),
        ensures
            r.wf(),
            exists|m: TRGSWMatrix|
                mat_wf(&m) && encrypts_gadget(self.secret(), mat_view(&m), const_poly(if flag { 1 } else { 0 }), noise_view(noise))
                    && (r.0@, r.1@) == cmux_spec(mat_view(&m), (c0.0@, c0.1@), (c1.0@, c1.1@)),
    {
        let matrix = self.coefficient(if flag { 1 } else { 0 }, noise);
        cmux(&matrix, c0, c1)
    }
}

/// The polynomial `(m, 0, ..., 0)` of length `N`.
pub open spec fn const_poly(m: i8) -> Seq<i8> {
    Seq::new(N_LV1 as nat, |i: int| if i == 0 { m } else { 0i8 })
}

/// An all-zero matrix of the TRGSW shape.
pub fn uninitialized_trgsw_matrix() -> (m: TRGSWMatrix)
    ensures
        mat_wf(&m),
        forall|i: int| 0 <= i < 2 * L ==> #[trigger] mat_view(&m)[i] == (zero_ring(N_LV1 as nat), zero_ring(N_LV1 as nat)),
{
    let mut matrix: TRGSWMatrix = Vec::with_capacity(2 * L);
    let mut i: usize = 0;
    while i < 2 * L
        invariant
            i <= 2 * L,
            matrix@.len() == i,
            forall|x: int| 0 <= x < i ==> (#[trigger] matrix@[x])@.len() == 2,
            forall|x: int, j: int|
                0 <= x < i && 0 <= j < 2 ==> (#[trigger] matrix@[x]@[j])@ == zero_ring(N_LV1 as nat),
        decreases 2 * L - i,
    {
        let mut row: Vec<Vec<Torus>> = Vec::with_capacity(2);
        row.push(zeros(N_LV1));
        row.push(zeros(N_LV1));
        matrix.push(row);
        i += 1;
    }
    matrix
}

/// Adding a row `z` of a zero matrix to a TRLWE ciphertext `(a, b)` adds the
/// row's noise `e` to the phase, coefficient by coefficient; so when the
/// plaintext bits carry noise `ec` and both noises stay below `1/16` in
/// absolute value, the decrypted bits are unchanged.
pub proof fn zero_row_addition(
    s: Seq<Torus>,
    a: Seq<Torus>,
    b: Seq<Torus>,
    z: (Seq<Torus>, Seq<Torus>),
    e: Seq<Torus>,
    bits: Seq<bool>,
    ec: Seq<Torus>,
)
    requires
        s.len() == N_LV1,
        a.len() == N_LV1,
        b.len() == N_LV1,
        z.0.len() == N_LV1,
        z.1.len() == N_LV1,
        trlwe_phase(s, z.0, z.1) == e,
    ensures
        trlwe_phase(s, vadd_spec(a, z.0), vadd_spec(b, z.1)) == vadd_spec(trlwe_phase(s, a, b), e),
        bits.len() == N_LV1 && ec.len() == N_LV1 && trlwe_phase(s, a, b) == vadd_spec(
            bits.map_values(|x: bool| encode_bit(x)),
            ec,
        ) && (forall|i: int| 0 <= i < N_LV1 ==> small(#[trigger] ec[i], 0x1000_0000) && small(e[i], 0x1000_0000))
            ==> decode_bits(trlwe_phase(s, vadd_spec(a, z.0), vadd_spec(b, z.1))) == bits,
{
    lemma_trlwe_phase_add(s, a, b, z.0, z.1);
    if bits.len() == N_LV1 && ec.len() == N_LV1 && trlwe_phase(s, a, b) == vadd_spec(
        bits.map_values(|x: bool| encode_bit(x)),
        ec,
    ) && (forall|i: int| 0 <= i < N_LV1 ==> small(#[trigger] ec[i], 0x1000_0000) && small(e[i], 0x1000_0000)) {
        let ph = trlwe_phase(s, vadd_spec(a, z.0), vadd_spec(b, z.1));
        assert forall|i: int| 0 <= i < N_LV1 implies #[trigger] decode_bits(ph)[i] == bits[i] by {
            let m = encode_bit(bits[i]);
            lemma_to_torus_add(m + ec[i], e[i] as int);
            lemma_noisy_decode(bits[i], ec[i], e[i]);
        }
        assert(decode_bits(ph) =~= bits);
    }
}

proof fn lemma_noisy_decode(b: bool, e1: Torus, e2: Torus)
    requires
        small(e1, 0x1000_0000),
        small(e2, 0x1000_0000),
    ensures
        decode_bit(to_torus(encode_bit(b) + e1 + e2)) == b,
{
}

/// The phase of `cmux(M, c0, c1)` is the phase of `external_product(M, c0 - c1)`
/// plus the phase of `c1`.
pub proof fn cmux_phase(
    s: Seq<Torus>,
    m: Seq<(Seq<Torus>, Seq<Torus>)>,
    c0: (Seq<Torus>, Seq<Torus>),
    c1: (Seq<Torus>, Seq<Torus>),
)
    requires
        s.len() == N_LV1,
        c1.0.len() == N_LV1,
        c1.1.len() == N_LV1,
    ensures
        ({
            let e = external_product_spec(m, (vsub_spec(c0.0, c1.0), vsub_spec(c0.1, c1.1)));
            let r = cmux_spec(m, c0, c1);
            trlwe_phase(s, r.0, r.1) == vadd_spec(trlwe_phase(s, e.0, e.1), trlwe_phase(s, c1.0, c1.1))
        }),
{
    let d = (vsub_spec(c0.0, c1.0), vsub_spec(c0.1, c1.1));
    let e = external_product_spec(m, d);
    lemma_ext_acc_len(m, decomp_spec(d.0), decomp_spec(d.1), L as int);
    lemma_trlwe_phase_add(s, e.0, e.1, c1.0, c1.1);
}

/// Both halves of the external product sums are ring elements of length `N`.
pub proof fn lemma_ext_acc_len(
    m: Seq<(Seq<Torus>, Seq<Torus>)>,
    abar: Seq<Seq<i8>>,
    bbar: Seq<Seq<i8>>,
    i: int,
)
    ensures
        ext_acc(m, abar, bbar, i).0.len() == N_LV1,
        ext_acc(m, abar, bbar, i).1.len() == N_LV1,
    decreases i,
{
    if i > 0 {
        lemma_ext_acc_len(m, abar, bbar, i - 1);
    }
}

} // verus!
