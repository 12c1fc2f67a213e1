use vstd::prelude::*;
use crate::key::{SecretKey, copy_ring, is_binary};
use crate::ops::{
    pmul, vadd, vsub, pmul_spec, vadd_spec, vsub_spec, dot_sum, nega_sum, nega_term,
    lemma_nega_add,
};
use crate::params::N_LV1;
use crate::sampling::ndim_torus_uniform;
use crate::tlwe::{CipherTLWELv1, tlwe_phase, small, lemma_decode_encode};
use crate::util::{
    Torus, to_torus, tneg, encode_bit, decode_bit, boolpoly_to_torus_ring, lemma_to_torus_add,
    lemma_to_torus_sub, lemma_to_torus_mul,
};

verus! {

/// The phase `b - a * s` of a TRLWE ciphertext `(a, b)` under the key
/// polynomial `s`; the negacyclic product is formed as `s * a`.
pub open spec fn trlwe_phase(s: Seq<Torus>, a: Seq<Torus>, b: Seq<Torus>) -> Seq<Torus> {
    vsub_spec(b, pmul_spec(s, a))
}

/// Bit-wise decoding of a phase polynomial.
pub open spec fn decode_bits(m: Seq<Torus>) -> Seq<bool> {
    m.map_values(|u: Torus| decode_bit(u))
}

/// The mask that sample extraction at index `k` builds from `a`.
pub open spec fn extract_mask(a: Seq<Torus>, k: int) -> Seq<Torus> {
    Seq::new(
        a.len(),
        |i: int|
            if i <= k {
                a[k - i]
            } else {
                tneg(a[a.len() + k - i])
            },
    )
}

/// A TRLWE ciphertext `(a, b)` of two ring elements.
#[derive(Clone, Debug)]
pub struct CipherTRLWE(pub Vec<Torus>, pub Vec<Torus>);

impl CipherTRLWE {
    pub open spec fn wf(&self) -> bool {
        self.0@.len() == N_LV1 && self.1@.len() == N_LV1
    }

    /// The pair `(a, b)`.
    pub fn describe(self) -> (r: (Vec<Torus>, Vec<Torus>))
        ensures
            r.0@ == self.0@,
            r.1@ == self.1@,
    {
        (self.0, self.1)
    }

    /// Component-wise sum.
    pub fn add(&self, rhs: &Self) -> (r: Self)
        requires
            self.wf(),
            rhs.wf(),
        ensures
            r.wf(),
            r.0@ == vadd_spec(self.0@, rhs.0@),
            r.1@ == vadd_spec(self.1@, rhs.1@),
    {
        CipherTRLWE(vadd(&self.0, &rhs.0), vadd(&self.1, &rhs.1))
    }

    /// Component-wise difference.
    pub fn sub(&self, rhs: &Self) -> (r: Self)
        requires
            self.wf(),
            rhs.wf(),
        ensures
            r.wf(),
            r.0@ == vsub_spec(self.0@, rhs.0@),
            r.1@ == vsub_spec(self.1@, rhs.1@),
    {
        CipherTRLWE(vsub(&self.0, &rhs.0), vsub(&self.1, &rhs.1))
    }
}

/// The phase of `(a, s * a + m + e)` is `m + e`.
pub proof fn lemma_trlwe_phase_of_encryption(
    s: Seq<Torus>,
    a: Seq<Torus>,
    m: Seq<Torus>,
    e: Seq<Torus>,
)
    requires
        s.len() == a.len(),
        m.len() == a.len(),
        e.len() == a.len(),
    ensures
        trlwe_phase(s, a, vadd_spec(vadd_spec(pmul_spec(s, a), m), e)) == vadd_spec(m, e),
{
    let p = pmul_spec(s, a);
    assert forall|i: int| 0 <= i < a.len() implies #[trigger] trlwe_phase(
        s,
        a,
        vadd_spec(vadd_spec(p, m), e),
    )[i] == vadd_spec(m, e)[i] by {
        lemma_to_torus_add(p[i] + m[i], e[i] as int);
        lemma_to_torus_sub(p[i] + m[i] + e[i], p[i] as int);
        assert(p[i] + m[i] + e[i] - p[i] == m[i] + e[i]);
    }
    assert(trlwe_phase(s, a, vadd_spec(vadd_spec(p, m), e)) =~= vadd_spec(m, e));
}

/// Phases add up: the phase of `c1 + c2` is the sum of the phases.
pub proof fn lemma_trlwe_phase_add(
    s: Seq<Torus>,
    a1: Seq<Torus>,
    b1: Seq<Torus>,
    a2: Seq<Torus>,
    b2: Seq<Torus>,
)
    requires
        s.len() == a1.len(),
        a1.len() == b1.len(),
        a1.len() == a2.len(),
        a1.len() == b2.len(),
    ensures
        trlwe_phase(s, vadd_spec(a1, a2), vadd_spec(b1, b2)) == vadd_spec(
            trlwe_phase(s, a1, b1),
            trlwe_phase(s, a2, b2),
        ),
{
    let n = a1.len() as int;
    assert forall|k: int| 0 <= k < n implies #[trigger] trlwe_phase(
        s,
        vadd_spec(a1, a2),
        vadd_spec(b1, b2),
    )[k] == vadd_spec(trlwe_phase(s, a1, b1), trlwe_phase(s, a2, b2))[k] by {
        lemma_nega_add(s, a1, a2, k, n);
        let d1 = nega_sum(s, a1, k, n);
        let d2 = nega_sum(s, a2, k, n);
        let du = nega_sum(s, vadd_spec(a1, a2), k, n);
        lemma_to_torus_sub(to_torus(b1[k] + b2[k]) as int, du);
        lemma_to_torus_sub(b1[k] + b2[k], du);
        lemma_to_torus_sub(b1[k] + b2[k], d1 + d2);
        lemma_to_torus_sub(b1[k] as int, d1);
        lemma_to_torus_sub(b2[k] as int, d2);
        lemma_to_torus_add(b1[k] - d1, b2[k] - d2);
        lemma_to_torus_add(b1[k] as int, b2[k] as int);
        assert(b1[k] + b2[k] - (d1 + d2) == (b1[k] - d1) + (b2[k] - d2));
    }
    assert(trlwe_phase(s, vadd_spec(a1, a2), vadd_spec(b1, b2)) =~= vadd_spec(
        trlwe_phase(s, a1, b1),
        trlwe_phase(s, a2, b2),
    ));
}

/// TRLWE round trip: decrypting the encryption `(a, s * a + m(bits) + e)` of
/// a bit vector gives the bits back whenever every noise coefficient is below
/// `1/8` in absolute value, for every key and every mask.
pub proof fn trlwe_round_trip(s: Seq<Torus>, a: Seq<Torus>, bits: Seq<bool>, e: Seq<Torus>)
    requires
        s.len() == a.len(),
        bits.len() == a.len(),
        e.len() == a.len(),
        forall|i: int| 0 <= i < e.len() ==> small(#[trigger] e[i], 0x2000_0000),
    ensures
        decode_bits(
            trlwe_phase(
                s,
                a,
                vadd_spec(
                    vadd_spec(pmul_spec(s, a), bits.map_values(|b: bool| encode_bit(b))),
                    e,
                ),
            ),
        ) == bits,
{
    let m = bits.map_values(|b: bool| encode_bit(b));
    lemma_trlwe_phase_of_encryption(s, a, m, e);
    assert forall|i: int| 0 <= i < bits.len() implies decode_bits(vadd_spec(m, e))[i]
        == bits[i] by {
        lemma_decode_encode(bits[i], e[i]);
    }
    assert(decode_bits(vadd_spec(m, e)) =~= bits);
}

/// Sample extraction: the level-1 TLWE ciphertext `(extract_mask(a, k), b[k])`
/// has as phase the coefficient `k` of the phase of `(a, b)`, for every key.
pub proof fn sample_extract_phase(s: Seq<Torus>, a: Seq<Torus>, b: Seq<Torus>, k: int)
    requires
        s.len() == a.len(),
        b.len() == a.len(),
        0 <= k < a.len(),
    ensures
        tlwe_phase(s, extract_mask(a, k), b[k]) == trlwe_phase(s, a, b)[k],
{
    let n = a.len() as int;
    lemma_extract_dot(s, a, k, n);
    let d = dot_sum(extract_mask(a, k), s, n);
    let p = nega_sum(s, a, k, n);
    lemma_to_torus_sub(b[k] as int, d);
    lemma_to_torus_sub(b[k] as int, p);
}

proof fn lemma_extract_dot(s: Seq<Torus>, a: Seq<Torus>, k: int, m: int)
    requires
        s.len() == a.len(),
        0 <= k < a.len(),
        0 <= m <= a.len(),
    ensures
        to_torus(dot_sum(extract_mask(a, k), s, m)) == to_torus(nega_sum(s, a, k, m)),
    decreases m,
{
    if m > 0 {
        let i = m - 1;
        let n = a.len() as int;
        let x = extract_mask(a, k);
        lemma_extract_dot(s, a, k, i);
        let d = dot_sum(x, s, i);
        let p = nega_sum(s, a, k, i);
        let z: int = s[i] as int;
        let t: int = nega_term(s, a, k, i);
        if i <= k {
            let y: int = a[k - i] as int;
            assert(x[i] * z == t) by (nonlinear_arith)
                requires x[i] == y, t == z * y;
            lemma_to_torus_add(d, t);
            lemma_to_torus_add(p, t);
        } else {
            let y: int = a[n + k - i] as int;
            assert(x[i] == to_torus(-y));
            lemma_to_torus_mul(-y, z);
            assert(-y * z == t) by (nonlinear_arith)
                requires t == -(z * y);
            lemma_to_torus_add(d, x[i] * z);
            lemma_to_torus_add(d, t);
            lemma_to_torus_add(p, t);
        }
    }
}

/// Encryption of ring elements under the level-1 key polynomial.
#[derive(Clone, Debug)]
pub struct TRLWE {
    s: Vec<Torus>,
}

impl TRLWE {
    /// The level-1 key polynomial.
    pub closed spec fn secret(&self) -> Seq<Torus> {
        self.s@
    }

    pub closed spec fn wf(&self) -> bool {
        self.s@.len() == N_LV1 && is_binary(self.s@)
    }

    pub fn new(sk: &SecretKey) -> (r: Self)
        requires
            sk.wf(),
        ensures
            r.wf(),
            r.secret() == sk.lv1@,
    {
        TRLWE { s: copy_ring(&sk.lv1) }
    }

    /// The key polynomial.
    pub fn get_secret(&self) -> (r: Vec<Torus>)
        ensures
            r@ == self.secret(),
    {
        copy_ring(&self.s)
    }

    /// `(a, a * s + msg + e)` for a fresh uniform `a`; `e` is the noise polynomial.
    pub fn encrypt_torus(&self, msg: &Vec<Torus>, e: &Vec<Torus>) -> (r: CipherTRLWE)
        requires
            self.wf(),
            msg.len() == N_LV1,
            e.len() == N_LV1,
        ensures
            r.wf(),
            r.1@ == vadd_spec(vadd_spec(pmul_spec(self.secret(), r.0@), msg@), e@),
            trlwe_phase(self.secret(), r.0@, r.1@) == vadd_spec(msg@, e@),
    {
        let a = ndim_torus_uniform(N_LV1);
        let sa = pmul(&self.s, &a);
        let b = vadd(&vadd(&sa, msg), e);
        proof {
            lemma_trlwe_phase_of_encryption(self.s@, a@, msg@, e@);
        }
        CipherTRLWE(a, b)
    }

    /// Encrypts each bit as `+-1/8`, with noise polynomial `e`.
    pub fn encrypt(&self, msg: &Vec<bool>, e: &Vec<Torus>) -> (r: CipherTRLWE)
        requires
            self.wf(),
            msg.len() == N_LV1,
            e.len() == N_LV1,
        ensures
            r.wf(),
            r.1@ == vadd_spec(
                vadd_spec(pmul_spec(self.secret(), r.0@), msg@.map_values(|b: bool| encode_bit(b))),
                e@,
            ),
            trlwe_phase(self.secret(), r.0@, r.1@) == vadd_spec(
                msg@.map_values(|b: bool| encode_bit(b)),
                e@,
            ),
    {
        let m = boolpoly_to_torus_ring(msg);
        self.encrypt_torus(&m, e)
    }

    /// The phase `b - a * s`.
    pub fn decrypt_torus(&self, c: &CipherTRLWE) -> (r: Vec<Torus>)
        requires
            self.wf(),
            c.wf(),
        ensures
            r@ == trlwe_phase(self.secret(), c.0@, c.1@),
    {
        let sa = pmul(&self.s, &c.0);
        vsub(&c.1, &sa)
    }

    /// Coefficient `i` is true when coefficient `i` of the phase is below `2^31`.
    pub fn decrypt(&self, c: &CipherTRLWE) -> (r: Vec<bool>)
        requires
            self.wf(),
            c.wf(),
        ensures
            r@ == decode_bits(trlwe_phase(self.secret(), c.0@, c.1@)),
    {
        let m = self.decrypt_torus(c);
        let mut bs: Vec<bool> = Vec::with_capacity(N_LV1);
        let mut i: usize = 0;
        while i < m.len()
            invariant
                i <= m.len(),
                bs@.len() == i,
                forall|j: int| 0 <= j < i ==> bs@[j] == decode_bit(m@[j]),
            decreases m.len() - i,
        {
            bs.push(m[i] < 0x8000_0000);
            i += 1;
        }
        assert(bs@ =~= decode_bits(m@));
        bs
    }

    /// An encryption of the all-true polynomial (every coefficient `+1/8`),
    /// with noise polynomial `e`.
    pub fn test_vector(&self, e: &Vec<Torus>) -> (r: CipherTRLWE)
        requires
            self.wf(),
            e.len() == N_LV1,
        ensures
            r.wf(),
            trlwe_phase(self.secret(), r.0@, r.1@) == vadd_spec(
                Seq::new(N_LV1 as nat, |i: int| encode_bit(true)),
                e@,
            ),
    {
        let mut bs: Vec<bool> = Vec::with_capacity(N_LV1);
        let mut i: usize = 0;
        while i < N_LV1
            invariant
                i <= N_LV1,
                bs@.len() == i,
                forall|j: int| 0 <= j < i ==> bs@[j],
            decreases N_LV1 - i,
        {
            bs.push(true);
            i += 1;
        }
        let r = self.encrypt(&bs, e);
        assert(bs@.map_values(|b: bool| encode_bit(b)) =~= Seq::new(
            N_LV1 as nat,
            |i: int| encode_bit(true),
        ));
        r
    }
}

/// The level-1 TLWE ciphertext `(ext_a, b[k])` of coefficient `k` of the
/// plaintext of `c = (a, b)`: `ext_a[i] = a[k - i]` for `i <= k`, else
/// `-a[N + k - i]`.
pub fn sample_extract_index(c: &CipherTRLWE, k: usize) -> (r: CipherTLWELv1)
    requires
        c.wf(),
        k < N_LV1,
    ensures
        r.wf(),
        r.0@ == extract_mask(c.0@, k as int),
        r.1 == c.1@[k as int],
{
    let n = N_LV1;
    let a = &c.0;
    let mut ext_a: Vec<Torus> = Vec::with_capacity(n);
    let mut i: usize = 0;
    while i < n
        invariant
            n == N_LV1,
            a@.len() == n,
            k < n,
            i <= n,
            ext_a@.len() == i,
            forall|j: int| 0 <= j < i ==> ext_a@[j] == extract_mask(a@, k as int)[j],
        decreases n - i,
    {
        if i <= k {
            ext_a.push(a[k - i]);
        } else {
            ext_a.push(0u32.wrapping_sub(a[n + k - i]));
        }
        i += 1;
    }
    assert(ext_a@ =~= extract_mask(a@, k as int));
    CipherTLWELv1(ext_a, c.1[k])
}

} // verus!
