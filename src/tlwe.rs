use vstd::prelude::*;
use crate::key::{SecretKey, copy_ring, is_binary};
use crate::ops::{dot, dot_spec, dot_sum, vadd, vsub, vadd_spec, vsub_spec, zero_ring, lemma_dot_add, lemma_dot_sub};
use crate::params::{N_LV0, N_LV1};
use crate::sampling::ndim_torus_uniform;
use crate::util::{
    Torus, to_torus, tneg, encode_bit, decode_bit, modulus, bool_to_torus, ring_negative,
    torus_negative, lemma_to_torus_add, lemma_to_torus_sub,
};

verus! {

/// The phase `b - <a, s>` of a TLWE ciphertext `(a, b)` under the key `s`.
pub open spec fn tlwe_phase(s: Seq<Torus>, a: Seq<Torus>, b: Torus) -> Torus {
    to_torus(b - dot_spec(a, s))
}

/// A torus word whose signed reading lies strictly between `-bound` and `bound`.
pub open spec fn small(e: Torus, bound: int) -> bool {
    e < bound || e > modulus() - bound
}

/// A level-0 ciphertext `(a, b)` with `a` of length `n`.
#[derive(Clone, Debug)]
pub struct CipherTLWELv0(pub Vec<Torus>, pub Torus);

impl CipherTLWELv0 {
    pub open spec fn wf(&self) -> bool {
        self.0@.len() == N_LV0
    }

    /// The pair `(a, b)`.
    pub fn describe(self) -> (r: (Vec<Torus>, Torus))
        ensures
            r.0@ == self.0@,
            r.1 == self.1,
    {
        (self.0, self.1)
    }

    /// The ciphertext `(0, 0)`.
    pub fn empty() -> (r: Self)
        ensures
            r.0@ == zero_ring(N_LV0 as nat),
            r.1 == 0,
    {
        let mut a: Vec<Torus> = Vec::with_capacity(N_LV0);
        let mut i: usize = 0;
        while i < N_LV0
            invariant
                i <= N_LV0,
                a@.len() == i,
                forall|j: int| 0 <= j < i ==> a@[j] == 0,
            decreases N_LV0 - i,
        {
            a.push(0);
            i += 1;
        }
        assert(a@ =~= zero_ring(N_LV0 as nat));
        CipherTLWELv0(a, 0)
    }

    /// The noiseless encryption `(0, +1/8)` of true.
    pub fn clearly_true() -> (r: Self)
        ensures
            r.0@ == zero_ring(N_LV0 as nat),
            r.1 == encode_bit(true),
    {
        let e = Self::empty();
        CipherTLWELv0(e.0, bool_to_torus(true))
    }

    /// Component-wise sum.
    pub fn add(&self, rhs: &Self) -> (r: Self)
        requires
            self.0.len() == rhs.0.len(),
        ensures
            r.0@ == vadd_spec(self.0@, rhs.0@),
            r.1 == to_torus(self.1 + rhs.1),
    {
        CipherTLWELv0(vadd(&self.0, &rhs.0), self.1.wrapping_add(rhs.1))
    }

    /// Component-wise difference.
    pub fn sub(&self, rhs: &Self) -> (r: Self)
        requires
            self.0.len() == rhs.0.len(),
        ensures
            r.0@ == vsub_spec(self.0@, rhs.0@),
            r.1 == to_torus(self.1 - rhs.1),
    {
        CipherTLWELv0(vsub(&self.0, &rhs.0), self.1.wrapping_sub(rhs.1))
    }

    /// Component-wise negation.
    pub fn neg(&self) -> (r: Self)
        ensures
            r.0@ == self.0@.map_values(|u: Torus| tneg(u)),
            r.1 == tneg(self.1),
    {
        CipherTLWELv0(ring_negative(&self.0), torus_negative(self.1))
    }
}

/// A level-1 ciphertext `(a, b)` with `a` of length `N`.
#[derive(Clone, Debug)]
pub struct CipherTLWELv1(pub Vec<Torus>, pub Torus);

impl CipherTLWELv1 {
    pub open spec fn wf(&self) -> bool {
        self.0@.len() == N_LV1
    }

    /// The pair `(a, b)`.
    pub fn describe(self) -> (r: (Vec<Torus>, Torus))
        ensures
            r.0@ == self.0@,
            r.1 == self.1,
    {
        (self.0, self.1)
    }

    /// Component-wise negation.
    pub fn neg(&self) -> (r: Self)
        ensures
            r.0@ == self.0@.map_values(|u: Torus| tneg(u)),
            r.1 == tneg(self.1),
    {
        CipherTLWELv1(ring_negative(&self.0), torus_negative(self.1))
    }
}

/// The phase of a sum is the sum of the phases.
pub proof fn lemma_phase_add(s: Seq<Torus>, a1: Seq<Torus>, b1: Torus, a2: Seq<Torus>, b2: Torus)
    requires
        a1.len() == a2.len(),
        a1.len() <= s.len(),
    ensures
        tlwe_phase(s, vadd_spec(a1, a2), to_torus(b1 + b2)) == to_torus(
            tlwe_phase(s, a1, b1) + tlwe_phase(s, a2, b2),
        ),
{
    let n = a1.len() as int;
    lemma_dot_add(a1, a2, s, n);
    let d1 = dot_sum(a1, s, n);
    let d2 = dot_sum(a2, s, n);
    lemma_to_torus_sub(b1 + b2, d1 + d2);
    lemma_to_torus_sub(b1 + b2, dot_sum(vadd_spec(a1, a2), s, n));
    lemma_to_torus_sub(b1 as int, d1);
    lemma_to_torus_sub(b2 as int, d2);
    lemma_to_torus_add(b1 - d1, b2 - d2);
    lemma_to_torus_sub(to_torus(b1 + b2) as int, dot_sum(vadd_spec(a1, a2), s, n));
    lemma_to_torus_add(b1 as int, b2 as int);
}

/// The phase of a difference is the difference of the phases.
pub proof fn lemma_phase_sub(s: Seq<Torus>, a1: Seq<Torus>, b1: Torus, a2: Seq<Torus>, b2: Torus)
    requires
        a1.len() == a2.len(),
        a1.len() <= s.len(),
    ensures
        tlwe_phase(s, vsub_spec(a1, a2), to_torus(b1 - b2)) == to_torus(
            tlwe_phase(s, a1, b1) - tlwe_phase(s, a2, b2),
        ),
{
    let n = a1.len() as int;
    lemma_dot_sub(a1, a2, s, n);
    let d1 = dot_sum(a1, s, n);
    let d2 = dot_sum(a2, s, n);
    lemma_to_torus_sub(b1 - b2, d1 - d2);
    lemma_to_torus_sub(b1 - b2, dot_sum(vsub_spec(a1, a2), s, n));
    lemma_to_torus_sub(b1 as int, d1);
    lemma_to_torus_sub(b2 as int, d2);
    lemma_to_torus_sub(b1 - d1, b2 - d2);
    lemma_to_torus_sub(to_torus(b1 - b2) as int, dot_sum(vsub_spec(a1, a2), s, n));
    lemma_to_torus_sub(b1 as int, b2 as int);
}

/// Decryption of a bit: a phase `+-1/8 + e` decodes to the bit when `|e| < 1/8`.
pub proof fn lemma_decode_encode(b: bool, e: Torus)
    requires
        small(e, 0x2000_0000),
    ensures
        decode_bit(to_torus(encode_bit(b) + e)) == b,
{
}

/// TLWE round trip: decrypting the encryption `(a, <a, s> + m(b) + e)` of a
/// bit `b` gives `b` back whenever the noise `e` is below `1/8` in absolute
/// value, for every key `s` and every mask `a`.
pub proof fn tlwe_round_trip(s: Seq<Torus>, a: Seq<Torus>, b: bool, e: Torus)
    requires
        a.len() == s.len(),
        small(e, 0x2000_0000),
    ensures
        decode_bit(tlwe_phase(s, a, to_torus(dot_spec(a, s) + encode_bit(b) + e))) == b,
{
    lemma_phase_of_encryption(s, a, encode_bit(b), e);
    lemma_decode_encode(b, e);
}

/// The phase of `(a, <a, s> + m + e)` is `m + e`.
pub proof fn lemma_phase_of_encryption(s: Seq<Torus>, a: Seq<Torus>, m: Torus, e: Torus)
    ensures
        tlwe_phase(s, a, to_torus(dot_spec(a, s) + m + e)) == to_torus(m + e),
{
    let d = dot_spec(a, s) as int;
    lemma_to_torus_sub(d + m + e, d);
    assert(d + m + e - d == m + e);
}

/// Encryption under the level-0 key.
#[derive(Clone, Debug)]
pub struct TLWE {
    s: Vec<Torus>,
}

impl TLWE {
    /// The level-0 key.
    pub closed spec fn secret(&self) -> Seq<Torus> {
        self.s@
    }

    pub closed spec fn wf(&self) -> bool {
        self.s@.len() == N_LV0 && is_binary(self.s@)
    }

    pub fn new(sk: &SecretKey) -> (r: Self)
        requires
            sk.wf(),
        ensures
            r.wf(),
            r.secret() == sk.lv0@,
    {
        TLWE { s: copy_ring(&sk.lv0) }
    }

    /// `(a, <a, s> + torus + e)` for a fresh uniform mask `a`; `e` is the noise.
    pub fn encrypt_torus(&self, torus: Torus, e: Torus) -> (r: CipherTLWELv0)
        requires
            self.wf(),
        ensures
            r.wf(),
            r.1 == to_torus(dot_spec(r.0@, self.secret()) + torus + e),
            tlwe_phase(self.secret(), r.0@, r.1) == to_torus(torus + e),
    {
        let a = ndim_torus_uniform(N_LV0);
        let d = dot(&a, &self.s);
        let b = d.wrapping_add(torus).wrapping_add(e);
        proof {
            lemma_to_torus_add(d + torus, e as int);
            lemma_phase_of_encryption(self.s@, a@, torus, e);
        }
        CipherTLWELv0(a, b)
    }

    /// Encrypts a bit as `+-1/8` with noise `e`.
    pub fn encrypt(&self, msg: bool, e: Torus) -> (r: CipherTLWELv0)
        requires
            self.wf(),
        ensures
            r.wf(),
            r.1 == to_torus(dot_spec(r.0@, self.secret()) + encode_bit(msg) + e),
            tlwe_phase(self.secret(), r.0@, r.1) == to_torus(encode_bit(msg) + e),
    {
        let m = bool_to_torus(msg);
        self.encrypt_torus(m, e)
    }

    /// The phase `b - <a, s>`.
    pub fn decrypt_torus(&self, c: &CipherTLWELv0) -> (r: Torus)
        requires
            self.wf(),
            c.wf(),
        ensures
            r == tlwe_phase(self.secret(), c.0@, c.1),
    {
        let d = dot(&c.0, &self.s);
        proof {
            lemma_to_torus_sub(c.1 as int, d as int);
        }
        c.1.wrapping_sub(d)
    }

    /// True when the phase is below `2^31`.
    pub fn decrypt(&self, c: &CipherTLWELv0) -> (r: bool)
        requires
            self.wf(),
            c.wf(),
        ensures
            r == decode_bit(tlwe_phase(self.secret(), c.0@, c.1)),
    {
        let m = self.decrypt_torus(c);
        m < 0x8000_0000
    }
}

/// Encryption under the level-1 key, read as a plain vector.
#[derive(Clone, Debug)]
pub struct TLWELv1 {
    s: Vec<Torus>,
}

impl TLWELv1 {
    /// The level-1 key.
    pub closed spec fn secret(&self) -> Seq<Torus> {
        self.s@
    }

    pub closed spec fn wf(&self) -> bool {
        self.s@.len() == N_LV1 && is_binary(self.s@)
    }

    pub fn new(sk: &SecretKey) -> (r: Self)
        requires
            sk.wf(),
        ensures
            r.wf(),
            r.secret() == sk.lv1@,
    {
        TLWELv1 { s: copy_ring(&sk.lv1) }
    }

    /// `(a, <a, s> + torus + e)` for a fresh uniform mask `a`; `e` is the noise.
    pub fn encrypt_torus(&self, torus: Torus, e: Torus) -> (r: CipherTLWELv1)
        requires
            self.wf(),
        ensures
            r.wf(),
            r.1 == to_torus(dot_spec(r.0@, self.secret()) + torus + e),
            tlwe_phase(self.secret(), r.0@, r.1) == to_torus(torus + e),
    {
        let a = ndim_torus_uniform(N_LV1);
        let d = dot(&a, &self.s);
        let b = d.wrapping_add(torus).wrapping_add(e);
        proof {
            lemma_to_torus_add(d + torus, e as int);
            lemma_phase_of_encryption(self.s@, a@, torus, e);
        }
        CipherTLWELv1(a, b)
    }

    /// Encrypts a bit as `+-1/8` with noise `e`.
    pub fn encrypt(&self, msg: bool, e: Torus) -> (r: CipherTLWELv1)
        requires
            self.wf(),
        ensures
            r.wf(),
            r.1 == to_torus(dot_spec(r.0@, self.secret()) + encode_bit(msg) + e),
            tlwe_phase(self.secret(), r.0@, r.1) == to_torus(encode_bit(msg) + e),
    {
        let m = bool_to_torus(msg);
        self.encrypt_torus(m, e)
    }

    /// The phase `b - <a, s>`.
    pub fn decrypt_torus(&self, c: &CipherTLWELv1) -> (r: Torus)
        requires
            self.wf(),
            c.wf(),
        ensures
            r == tlwe_phase(self.secret(), c.0@, c.1),
    {
        let d = dot(&c.0, &self.s);
        proof {
            lemma_to_torus_sub(c.1 as int, d as int);
        }
        c.1.wrapping_sub(d)
    }

    /// True when the phase is below `2^31`.
    pub fn decrypt(&self, c: &CipherTLWELv1) -> (r: bool)
        requires
            self.wf(),
            c.wf(),
        ensures
            r == decode_bit(tlwe_phase(self.secret(), c.0@, c.1)),
    {
        let m = self.decrypt_torus(c);
        m < 0x8000_0000
    }
}

/// The phase of `clearly_true - (c_x + c_y)`: `1/8 - (m(x) + e_x) - (m(y) + e_y)`.
pub open spec fn nand_phase(x: bool, y: bool, ex: Torus, ey: Torus) -> Torus {
    to_torus(encode_bit(true) - (encode_bit(x) + ex) - (encode_bit(y) + ey))
}

/// Evaluates NAND on two fresh level-0 encryptions without bootstrapping:
/// draws a key, encrypts `x` and `y` with noises `ex` and `ey`, and decrypts
/// `clearly_true - (c_x + c_y)`. The answer is `!(x && y)` whenever the two
/// noises stay below `1/16`.
pub fn tlwe_nand(x: bool, y: bool, ex: Torus, ey: Torus) -> (r: bool)
    ensures
        r == decode_bit(nand_phase(x, y, ex, ey)),
        small(ex, 0x1000_0000) && small(ey, 0x1000_0000) ==> r == !(x && y),
{
    let sk = SecretKey::new();
    let tlwe = TLWE::new(&sk);
    let c0 = CipherTLWELv0::clearly_true();
    let c1 = tlwe.encrypt(x, ex);
    let c2 = tlwe.encrypt(y, ey);
    let sum = c1.add(&c2);
    let c = c0.sub(&sum);
    proof {
        lemma_nand_phase(tlwe.secret(), c0.0@, c0.1, c1.0@, c1.1, c2.0@, c2.1, x, y, ex, ey);
        if small(ex, 0x1000_0000) && small(ey, 0x1000_0000) {
            lemma_nand_truth(x, y, ex, ey);
        }
    }
    tlwe.decrypt(&c)
}

proof fn lemma_nand_arith(t: int, px: int, py: int)
    ensures
        to_torus(t - to_torus(to_torus(px) + to_torus(py))) == to_torus(t - px - py),
{
    lemma_to_torus_add(px, py);
    lemma_to_torus_sub(t, px + py);
    assert(t - (px + py) == t - px - py);
}

proof fn lemma_nand_phase(
    s: Seq<Torus>,
    a0: Seq<Torus>,
    b0: Torus,
    a1: Seq<Torus>,
    b1: Torus,
    a2: Seq<Torus>,
    b2: Torus,
    x: bool,
    y: bool,
    ex: Torus,
    ey: Torus,
)
    requires
        a0.len() == a1.len(),
        a1.len() == a2.len(),
        a1.len() == s.len(),
        a0 == zero_ring(a0.len()),
        b0 == encode_bit(true),
        tlwe_phase(s, a1, b1) == to_torus(encode_bit(x) + ex),
        tlwe_phase(s, a2, b2) == to_torus(encode_bit(y) + ey),
    ensures
        tlwe_phase(s, vsub_spec(a0, vadd_spec(a1, a2)), to_torus(b0 - to_torus(b1 + b2)))
            == nand_phase(x, y, ex, ey),
{
    lemma_phase_add(s, a1, b1, a2, b2);
    lemma_phase_sub(s, a0, b0, vadd_spec(a1, a2), to_torus(b1 + b2));
    lemma_zero_phase(s, a0, b0);
    lemma_nand_arith(encode_bit(true) as int, encode_bit(x) + ex, encode_bit(y) + ey);
}

proof fn lemma_nand_truth(x: bool, y: bool, ex: Torus, ey: Torus)
    requires
        small(ex, 0x1000_0000),
        small(ey, 0x1000_0000),
    ensures
        decode_bit(nand_phase(x, y, ex, ey)) == !(x && y),
{
}

/// A ciphertext with a zero mask has its `b` as phase.
pub proof fn lemma_zero_phase(s: Seq<Torus>, a: Seq<Torus>, b: Torus)
    requires
        a == zero_ring(a.len()),
    ensures
        tlwe_phase(s, a, b) == b,
{
    lemma_zero_dot(s, a, a.len() as int);
}

proof fn lemma_zero_dot(s: Seq<Torus>, a: Seq<Torus>, k: int)
    requires
        a == zero_ring(a.len()),
        0 <= k <= a.len(),
    ensures
        dot_sum(a, s, k) == 0,
    decreases k,
{
    if k > 0 {
        lemma_zero_dot(s, a, k - 1);
        assert(a[k - 1] == 0);
        assert(a[k - 1] * s[k - 1] == 0);
    }
}

} // verus!
