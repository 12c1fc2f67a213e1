use vstd::prelude::*;
use vstd::arithmetic::div_mod::lemma_mod_breakdown;
use crate::key::{SecretKey, is_binary};
use crate::ops::{vsub_spec, zero_ring, dot_sum};
use crate::params::{N_LV0, N_LV1, T, K, BASEBIT};
use crate::tlwe::{
    CipherTLWELv0, CipherTLWELv1, TLWE, tlwe_phase, small, lemma_phase_sub, lemma_zero_phase,
};
use crate::util::{
    Torus, to_torus, encode_bit, decode_bit, lemma_to_torus_add, lemma_to_torus_sub, lemma_to_torus_mul,
};

verus! {

/// Position of the entry `(i, j, k)` in the key-switching key.
pub open spec fn ks_index(i: int, j: int, k: int) -> int {
    i + j * N_LV1 + (k - 1) * N_LV1 * T
}

/// `2^(32 - (j + 1) * basebit)`, for `j` in `[0, t)`.
pub open spec fn ks_weight(j: int) -> int {
    if j == 0 {
        0x4000_0000
    } else if j == 1 {
        0x1000_0000
    } else if j == 2 {
        0x0400_0000
    } else if j == 3 {
        0x0100_0000
    } else if j == 4 {
        0x0040_0000
    } else if j == 5 {
        0x0010_0000
    } else if j == 6 {
        0x0004_0000
    } else {
        0x0001_0000
    }
}

/// `2^(32 - (j + 1) * basebit)` as a word.
fn ks_weight_exec(j: usize) -> (w: u32)
    requires
        j < T,
    ensures
        w == ks_weight(j as int),
{
    let shift: u32 = 32 - (j as u32 + 1) * BASEBIT;
    proof {
        assert(1u32 << 30u32 == 0x4000_0000) by (bit_vector);
        assert(1u32 << 28u32 == 0x1000_0000) by (bit_vector);
        assert(1u32 << 26u32 == 0x0400_0000) by (bit_vector);
        assert(1u32 << 24u32 == 0x0100_0000) by (bit_vector);
        assert(1u32 << 22u32 == 0x0040_0000) by (bit_vector);
        assert(1u32 << 20u32 == 0x0010_0000) by (bit_vector);
        assert(1u32 << 18u32 == 0x0004_0000) by (bit_vector);
        assert(1u32 << 16u32 == 0x0001_0000) by (bit_vector);
    }
    1u32 << shift
}

/// `x >> (32 - (j + 1) * basebit)`.
fn ks_shift(x: u32, j: usize) -> (r: u32)
    requires
        j < T,
    ensures
        r as int == x as int / ks_weight(j as int),
{
    let shift: u32 = 32 - (j as u32 + 1) * BASEBIT;
    proof {
        assert(x >> 30u32 == x / 0x4000_0000) by (bit_vector);
        assert(x >> 28u32 == x / 0x1000_0000) by (bit_vector);
        assert(x >> 26u32 == x / 0x0400_0000) by (bit_vector);
        assert(x >> 24u32 == x / 0x0100_0000) by (bit_vector);
        assert(x >> 22u32 == x / 0x0040_0000) by (bit_vector);
        assert(x >> 20u32 == x / 0x0010_0000) by (bit_vector);
        assert(x >> 18u32 == x / 0x0004_0000) by (bit_vector);
        assert(x >> 16u32 == x / 0x0001_0000) by (bit_vector);
    }
    x >> shift
}

/// The torus word that entry `(i, j, k)` encrypts for the key bit `si = s1[i]`:
/// `k * si * 2^(32 - (j + 1) * basebit) - 2^31`.
pub open spec fn ks_message(k: int, j: int, si: Torus) -> Torus {
    to_torus(k * si * ks_weight(j) - 0x8000_0000)
}

/// Digit `j` (from the top) in base `K` of `ai + 2^(31 - t * basebit)`.
pub open spec fn ks_digit(ai: Torus, j: int) -> int {
    (to_torus(ai + 0x8000) as int / ks_weight(j)) % 4
}

/// The accumulator of key switching after the first `m` pairs `(i, j)`, in
/// the order `i` major, `j` minor: it starts as `(0, b)` and subtracts the
/// entry `(i, j, k)` for each non-zero digit `k`.
pub open spec fn ks_acc(
    ksk: Seq<(Seq<Torus>, Torus)>,
    a: Seq<Torus>,
    b: Torus,
    m: int,
) -> (Seq<Torus>, Torus)
    decreases m,
{
    if m <= 0 {
        (zero_ring(N_LV0 as nat), b)
    } else {
        let prev = ks_acc(ksk, a, b, m - 1);
        let i = (m - 1) / (T as int);
        let j = (m - 1) % (T as int);
        let k = ks_digit(a[i], j);
        if k != 0 {
            let e = ksk[ks_index(i, j, k)];
            (vsub_spec(prev.0, e.0), to_torus(prev.1 - e.1))
        } else {
            prev
        }
    }
}

/// The key-switching key: entry `(i, j, k)` is a level-0 encryption of
/// `ks_message(k, j, s1[i])`.
#[derive(Clone, Debug)]
pub struct KeySwitchingKey(pub Vec<CipherTLWELv0>);

/// The entries of a key-switching key as pairs `(a, b)`.
pub open spec fn ksk_view(ksk: &KeySwitchingKey) -> Seq<(Seq<Torus>, Torus)> {
    ksk.0@.map_values(|c: CipherTLWELv0| (c.0@, c.1))
}

impl KeySwitchingKey {
    /// `(K - 1) * t * N` level-0 ciphertexts.
    pub open spec fn wf(&self) -> bool {
        &&& self.0@.len() == (K - 1) * T * N_LV1
        &&& forall|x: int| 0 <= x < self.0@.len() ==> (#[trigger] self.0@[x]).wf()
    }

    /// Builds the key from `sk`: entry `(i, j, k)` encrypts
    /// `ks_message(k, j, s1[i])` under `s0` with noise `noise[ks_index(i, j, k)]`.
    pub fn new(sk: &SecretKey, noise: &Vec<Torus>) -> (r: Self)
        requires
            sk.wf(),
            noise.len() == (K - 1) * T * N_LV1,
        ensures
            r.wf(),
            forall|i: int, j: int, k: int|
                0 <= i < N_LV1 && 0 <= j < T && 1 <= k < K ==> tlwe_phase(
                    sk.lv0@,
                    #[trigger] r.0@[ks_index(i, j, k)].0@,
                    r.0@[ks_index(i, j, k)].1,
                ) == to_torus(ks_message(k, j, sk.lv1@[i]) + noise@[ks_index(i, j, k)]),
    {
        let s = &sk.lv1;
        let tlwe = TLWE::new(sk);
        let mut v: Vec<CipherTLWELv0> = Vec::with_capacity((K - 1) * T * N_LV1);
        let mut k: usize = 1;
        while k < K
            invariant
                sk.wf(),
                s == &sk.lv1,
                tlwe.wf(),
                tlwe.secret() == sk.lv0@,
                noise.len() == (K - 1) * T * N_LV1,
                1 <= k <= K,
                v@.len() == (k - 1) * T * N_LV1,
                forall|x: int| 0 <= x < v@.len() ==> (#[trigger] v@[x]).wf(),
                forall|i: int, j: int, kk: int|
                    0 <= i < N_LV1 && 0 <= j < T && 1 <= kk < k ==> tlwe_phase(
                        sk.lv0@,
                        #[trigger] v@[ks_index(i, j, kk)].0@,
                        v@[ks_index(i, j, kk)].1,
                    ) == to_torus(ks_message(kk, j, sk.lv1@[i]) + noise@[ks_index(i, j, kk)]),
            decreases K - k,
        {
            let mut j: usize = 0;
            while j < T
                invariant
                    sk.wf(),
                    s == &sk.lv1,
                    tlwe.wf(),
                    tlwe.secret() == sk.lv0@,
                    noise.len() == (K - 1) * T * N_LV1,
                    1 <= k < K,
                    j <= T,
                    v@.len() == (k - 1) * T * N_LV1 + j * N_LV1,
                    forall|x: int| 0 <= x < v@.len() ==> (#[trigger] v@[x]).wf(),
                    forall|i: int, jj: int, kk: int|
                        0 <= i < N_LV1 && 0 <= jj < T && 1 <= kk <= k && ks_index(i, jj, kk)
                            < v@.len() ==> tlwe_phase(
                            sk.lv0@,
                            #[trigger] v@[ks_index(i, jj, kk)].0@,
                            v@[ks_index(i, jj, kk)].1,
                        ) == to_torus(ks_message(kk, jj, sk.lv1@[i]) + noise@[ks_index(i, jj, kk)]),
                decreases T - j,
            {
                let base: u32 = ks_weight_exec(j);
                let mut i: usize = 0;
                while i < N_LV1
                    invariant
                        sk.wf(),
                        s == &sk.lv1,
                        tlwe.wf(),
                        tlwe.secret() == sk.lv0@,
                        noise.len() == (K - 1) * T * N_LV1,
                        1 <= k < K,
                        j < T,
                        base == ks_weight(j as int),
                        i <= N_LV1,
                        v@.len() == (k - 1) * T * N_LV1 + j * N_LV1 + i,
                        forall|x: int| 0 <= x < v@.len() ==> (#[trigger] v@[x]).wf(),
                        forall|ii: int, jj: int, kk: int|
                            0 <= ii < N_LV1 && 0 <= jj < T && 1 <= kk <= k && ks_index(ii, jj, kk)
                                < v@.len() ==> tlwe_phase(
                                sk.lv0@,
                                #[trigger] v@[ks_index(ii, jj, kk)].0@,
                                v@[ks_index(ii, jj, kk)].1,
                            ) == to_torus(ks_message(kk, jj, sk.lv1@[ii]) + noise@[ks_index(ii, jj, kk)]),
                    decreases N_LV1 - i,
                {
                    let idx = i + j * N_LV1 + (k - 1) * N_LV1 * T;
                    let si = s[i];
                    assert(si <= 1);
                    assert(k * si <= 3) by (nonlinear_arith)
                        requires k < 4, si <= 1;
                    let ks: u32 = k as u32 * si;
                    let msg = ks.wrapping_mul(base).wrapping_sub(0x8000_0000);
                    proof {
                        lemma_to_torus_mul(k * sk.lv1@[i as int], base as int);
                        lemma_to_torus_sub(ks * base, 0x8000_0000);
                        assert(msg == ks_message(k as int, j as int, sk.lv1@[i as int]));
                    }
                    let c = tlwe.encrypt_torus(msg, noise[idx]);
                    v.push(c);
                    proof {
                        assert forall|ii: int, jj: int, kk: int|
                            0 <= ii < N_LV1 && 0 <= jj < T && 1 <= kk <= k && ks_index(ii, jj, kk)
                                < v@.len() implies tlwe_phase(
                                sk.lv0@,
                                #[trigger] v@[ks_index(ii, jj, kk)].0@,
                                v@[ks_index(ii, jj, kk)].1,
                            ) == to_torus(ks_message(kk, jj, sk.lv1@[ii]) + noise@[ks_index(ii, jj, kk)]) by {
                            if ks_index(ii, jj, kk) == idx {
                                assert(ii == i && jj == j && kk == k);
                            }
                        }
                    }
                    i += 1;
                }
                j += 1;
            }
            k += 1;
        }
        KeySwitchingKey(v)
    }

    /// Entry `(i, j, k)`.
    pub fn access(&self, i: usize, j: usize, k: usize) -> (r: &CipherTLWELv0)
        requires
            self.wf(),
            i < N_LV1,
            j < T,
            0 < k < K,
        ensures
            *r == self.0@[ks_index(i as int, j as int, k as int)],
    {
        &self.0[i + j * N_LV1 + (k - 1) * N_LV1 * T]
    }
}

/// Identity key switching: turns a level-1 ciphertext `(a, b)` into a
/// level-0 one, starting from `(0, b)` and subtracting, for each `i` and
/// each base-`K` digit `k` of `a[i] + 2^(31 - t * basebit)` at position `j`,
/// the entry `(i, j, k)` when `k != 0`.
pub fn identity_key_switching(c: &CipherTLWELv1, ksk: &KeySwitchingKey) -> (r: CipherTLWELv0)
    requires
        c.wf(),
        ksk.wf(),
    ensures
        r.wf(),
        (r.0@, r.1) == ks_acc(ksk_view(ksk), c.0@, c.1, (N_LV1 * T) as int),
{
    let a = &c.0;
    let b = c.1;
    let a0 = crate::ops::zeros(N_LV0);
    let mut c0 = CipherTLWELv0(a0, b);
    let offset: Torus = 1u32 << (31 - T as u32 * BASEBIT);
    proof {
        assert(1u32 << 15u32 == 0x8000) by (bit_vector);
    }
    let ghost kv = ksk_view(ksk);
    let mut i: usize = 0;
    while i < N_LV1
        invariant
            c.wf(),
            ksk.wf(),
            kv == ksk_view(ksk),
            a == &c.0,
            b == c.1,
            offset == 0x8000,
            i <= N_LV1,
            c0.wf(),
            (c0.0@, c0.1) == ks_acc(kv, c.0@, c.1, (i * T) as int),
        decreases N_LV1 - i,
    {
        let ai_ = a[i].wrapping_add(offset);
        let mut j: usize = 0;
        while j < T
            invariant
                c.wf(),
                ksk.wf(),
                kv == ksk_view(ksk),
                a == &c.0,
                i < N_LV1,
                ai_ == to_torus(a@[i as int] + 0x8000),
                j <= T,
                c0.wf(),
                (c0.0@, c0.1) == ks_acc(kv, c.0@, c.1, (i * T + j) as int),
            decreases T - j,
        {
            let k = ks_shift(ai_, j) as usize % K;
            proof {
                let m = (i * T + j) as int;
                assert((m + 1 - 1) / (T as int) == i);
                assert((m + 1 - 1) % (T as int) == j);
                assert(k == ks_digit(a@[i as int], j as int));
            }
            if k != 0 {
                let e = ksk.access(i, j, k);
                c0 = c0.sub(e);
            }
            j += 1;
        }
        i += 1;
    }
    c0
}

/// The sum, over the first `m` pairs `(i, j)` (`i` major), of the phases
/// under `s0` of the entries that key switching subtracts.
pub open spec fn ks_subtracted(
    s0: Seq<Torus>,
    ksk: Seq<(Seq<Torus>, Torus)>,
    a: Seq<Torus>,
    m: int,
) -> int
    decreases m,
{
    if m <= 0 {
        0
    } else {
        let i = (m - 1) / (T as int);
        let j = (m - 1) % (T as int);
        let k = ks_digit(a[i], j);
        let prev = ks_subtracted(s0, ksk, a, m - 1);
        if k != 0 {
            let e = ksk[ks_index(i, j, k)];
            prev + tlwe_phase(s0, e.0, e.1)
        } else {
            prev
        }
    }
}

/// Key switching subtracts from `b` exactly the phases of the key entries it
/// selects: the phase of the result under `s0` is `b` minus their sum, for
/// every key `s0` and every key-switching key of level-0 entries.
pub proof fn key_switching_phase(
    s0: Seq<Torus>,
    ksk: Seq<(Seq<Torus>, Torus)>,
    a: Seq<Torus>,
    b: Torus,
    m: int,
)
    requires
        s0.len() == N_LV0,
        ksk.len() == (K - 1) * T * N_LV1,
        forall|x: int| 0 <= x < ksk.len() ==> (#[trigger] ksk[x]).0.len() == N_LV0,
        a.len() == N_LV1,
        0 <= m <= N_LV1 * T,
    ensures
        ks_acc(ksk, a, b, m).0.len() == N_LV0,
        tlwe_phase(s0, ks_acc(ksk, a, b, m).0, ks_acc(ksk, a, b, m).1) == to_torus(
            b - ks_subtracted(s0, ksk, a, m),
        ),
    decreases m,
{
    if m <= 0 {
        lemma_zero_phase(s0, zero_ring(N_LV0 as nat), b);
        assert(to_torus(b - 0) == b);
    } else {
        key_switching_phase(s0, ksk, a, b, m - 1);
        let prev = ks_acc(ksk, a, b, m - 1);
        let i = (m - 1) / (T as int);
        let j = (m - 1) % (T as int);
        let k = ks_digit(a[i], j);
        let sub_prev = ks_subtracted(s0, ksk, a, m - 1);
        if k != 0 {
            assert(0 <= i < N_LV1 && 0 <= j < T && 1 <= k < K);
            let idx = ks_index(i, j, k);
            assert(0 <= idx < ksk.len()) by (nonlinear_arith)
                requires
                    idx == i + j * N_LV1 + (k - 1) * N_LV1 * T,
                    0 <= i < N_LV1,
                    0 <= j < T,
                    1 <= k < K,
                    ksk.len() == (K - 1) * T * N_LV1,
            ;
            let e = ksk[idx];
            let pe = tlwe_phase(s0, e.0, e.1);
            lemma_phase_sub(s0, prev.0, prev.1, e.0, e.1);
            lemma_to_torus_sub(to_torus(b - sub_prev) as int, pe as int);
            lemma_to_torus_sub(b - sub_prev, pe as int);
            assert(b - sub_prev - pe == b - (sub_prev + pe));
        }
    }
}

/// The signed reading of a torus word, in `[-2^31, 2^31)`.
pub open spec fn signed(u: Torus) -> int {
    if u < 0x8000_0000 {
        u as int
    } else {
        u - 0x1_0000_0000
    }
}

/// How many key entries key switching subtracts among the first `m` pairs.
pub open spec fn ks_fired(a: Seq<Torus>, m: int) -> int
    decreases m,
{
    if m <= 0 {
        0
    } else {
        let i = (m - 1) / (T as int);
        let j = (m - 1) % (T as int);
        ks_fired(a, m - 1) + if ks_digit(a[i], j) != 0 {
            1int
        } else {
            0int
        }
    }
}

/// `sum_{t < m} k_t * s1[i_t] * 2^(32 - (j_t + 1) * basebit)` over the pairs `t = (i_t, j_t)`.
pub open spec fn ks_key_sum(s1: Seq<Torus>, a: Seq<Torus>, m: int) -> int
    decreases m,
{
    if m <= 0 {
        0
    } else {
        let i = (m - 1) / (T as int);
        let j = (m - 1) % (T as int);
        ks_key_sum(s1, a, m - 1) + ks_digit(a[i], j) * s1[i] * ks_weight(j)
    }
}

/// The signed noises of the entries subtracted among the first `m` pairs, summed.
pub open spec fn ks_noise_sum(noise: Seq<Torus>, a: Seq<Torus>, m: int) -> int
    decreases m,
{
    if m <= 0 {
        0
    } else {
        let i = (m - 1) / (T as int);
        let j = (m - 1) % (T as int);
        let k = ks_digit(a[i], j);
        ks_noise_sum(noise, a, m - 1) + if k != 0 {
            signed(noise[ks_index(i, j, k)])
        } else {
            0
        }
    }
}

/// `sum_{j' < j} digit_j'(x) * 2^(32 - (j' + 1) * basebit)`.
pub open spec fn digit_prefix(x: int, j: int) -> int
    decreases j,
{
    if j <= 0 {
        0
    } else {
        digit_prefix(x, j - 1) + (x / ks_weight(j - 1)) % 4 * ks_weight(j - 1)
    }
}

/// `a[i] + 2^15` rounded down to a multiple of `2^16`, as a torus word read as an integer.
pub open spec fn ks_rounded(ai: Torus) -> int {
    let x = to_torus(ai + 0x8000) as int;
    x - x % 0x10000
}

/// `sum_{i' < i} s1[i'] * ks_rounded(a[i'])`.
pub open spec fn round_sum(s1: Seq<Torus>, a: Seq<Torus>, i: int) -> int
    decreases i,
{
    if i <= 0 {
        0
    } else {
        round_sum(s1, a, i - 1) + s1[i - 1] * ks_rounded(a[i - 1])
    }
}

/// `sum_{i' < i} s1[i'] * (ks_rounded(a[i']) - a[i'])`, with the difference taken in `(-2^15, 2^15]`.
pub open spec fn delta_sum(s1: Seq<Torus>, a: Seq<Torus>, i: int) -> int
    decreases i,
{
    if i <= 0 {
        0
    } else {
        let x = to_torus(a[i - 1] + 0x8000) as int;
        delta_sum(s1, a, i - 1) + s1[i - 1] * (0x8000 - x % 0x10000)
    }
}

proof fn lemma_digit_prefix(x: int, j: int)
    requires
        0 <= x < 0x1_0000_0000,
        1 <= j <= 8,
    ensures
        digit_prefix(x, j) == x - x % ks_weight(j - 1),
    decreases j,
{
    let w = ks_weight(j - 1);
    let d = (x / w) % 4;
    lemma_mod_breakdown(x, w, 4);
    assert(x % (w * 4) == w * d + x % w);
    assert(d * w == w * d) by (nonlinear_arith);
    assert(digit_prefix(x, j) == digit_prefix(x, j - 1) + d * w);
    if j == 1 {
        assert(w * 4 == 0x1_0000_0000);
        assert(x % 0x1_0000_0000 == x);
    } else {
        lemma_digit_prefix(x, j - 1);
        assert(ks_weight(j - 2) == w * 4);
    }
}

proof fn lemma_digit_prefix_full(x: int)
    requires
        0 <= x < 0x1_0000_0000,
    ensures
        digit_prefix(x, 8) == x - x % 0x10000,
{
    lemma_digit_prefix(x, 8);
}

proof fn lemma_key_block(s1: Seq<Torus>, a: Seq<Torus>, i: int, j: int)
    requires
        0 <= i < N_LV1,
        0 <= j <= T,
        a.len() == N_LV1,
    ensures
        ks_key_sum(s1, a, i * T + j) == ks_key_sum(s1, a, i * T) + s1[i] * digit_prefix(
            to_torus(a[i] + 0x8000) as int,
            j,
        ),
    decreases j,
{
    if j > 0 {
        lemma_key_block(s1, a, i, j - 1);
        let m = i * T + j;
        assert((m - 1) / (T as int) == i);
        assert((m - 1) % (T as int) == j - 1);
        let x = to_torus(a[i] + 0x8000) as int;
        let d = (x / ks_weight(j - 1)) % 4;
        let w = ks_weight(j - 1);
        let p = digit_prefix(x, j - 1);
        assert(d * s1[i] * w + s1[i] * p == s1[i] * (p + d * w)) by (nonlinear_arith);
    }
}

proof fn lemma_key_sum_rounds(s1: Seq<Torus>, a: Seq<Torus>, i: int)
    requires
        0 <= i <= N_LV1,
        a.len() == N_LV1,
    ensures
        ks_key_sum(s1, a, i * T) == round_sum(s1, a, i),
    decreases i,
{
    if i > 0 {
        lemma_key_sum_rounds(s1, a, i - 1);
        lemma_key_block(s1, a, i - 1, T as int);
        lemma_digit_prefix_full(to_torus(a[i - 1] + 0x8000) as int);
        assert((i - 1) * T + T == i * T);
    }
}

proof fn lemma_round_sum(s1: Seq<Torus>, a: Seq<Torus>, i: int)
    requires
        0 <= i <= N_LV1,
        a.len() == N_LV1,
        s1.len() == N_LV1,
        is_binary(s1),
    ensures
        to_torus(round_sum(s1, a, i)) == to_torus(dot_sum(a, s1, i) + delta_sum(s1, a, i)),
        -0x8000 * i <= delta_sum(s1, a, i) <= 0x8000 * i,
    decreases i,
{
    if i > 0 {
        lemma_round_sum(s1, a, i - 1);
        let x = to_torus(a[i - 1] + 0x8000) as int;
        let y = a[i - 1] + 0x8000;
        let s = s1[i - 1] as int;
        assert(s <= 1);
        let c = (y - x) / 0x1_0000_0000;
        assert(y - x == 0x1_0000_0000 * c) by {
            assert(x == y % 0x1_0000_0000);
        }
        let r = ks_rounded(a[i - 1]);
        assert(r == a[i - 1] + (0x8000 - x % 0x10000) - 0x1_0000_0000 * c);
        assert(s * r == s * a[i - 1] + s * (0x8000 - x % 0x10000) - 0x1_0000_0000 * (s * c)) by (nonlinear_arith)
            requires r == a[i - 1] + (0x8000 - x % 0x10000) - 0x1_0000_0000 * c;
        assert(a[i - 1] * s1[i - 1] == s * a[i - 1]) by (nonlinear_arith)
            requires s == s1[i - 1];
        let rs = round_sum(s1, a, i - 1);
        let ds = dot_sum(a, s1, i - 1);
        let dl = delta_sum(s1, a, i - 1);
        lemma_to_torus_add(rs, s * r);
        lemma_to_torus_add(ds + dl, s * r);
        vstd::arithmetic::div_mod::lemma_mod_multiples_vanish(
            -(s * c),
            ds + dl + s * a[i - 1] + s * (0x8000 - x % 0x10000),
            0x1_0000_0000,
        );
        let t = 0x8000 - x % 0x10000;
        assert(-0x8000 < t <= 0x8000);
        if s == 0 {
            assert(s * t == 0) by (nonlinear_arith)
                requires s == 0;
        } else {
            assert(s == 1);
            assert(s * t == t) by (nonlinear_arith)
                requires s == 1;
        }
    }
}

proof fn lemma_subtracted_messages(
    s0: Seq<Torus>,
    s1: Seq<Torus>,
    ksk: Seq<(Seq<Torus>, Torus)>,
    noise: Seq<Torus>,
    a: Seq<Torus>,
    m: int,
)
    requires
        0 <= m <= N_LV1 * T,
        a.len() == N_LV1,
        s1.len() == N_LV1,
        ksk.len() == (K - 1) * T * N_LV1,
        noise.len() == ksk.len(),
        forall|i: int, j: int, k: int|
            0 <= i < N_LV1 && 0 <= j < T && 1 <= k < K ==> tlwe_phase(
                s0,
                #[trigger] ksk[ks_index(i, j, k)].0,
                ksk[ks_index(i, j, k)].1,
            ) == to_torus(ks_message(k, j, s1[i]) + noise[ks_index(i, j, k)]),
    ensures
        to_torus(ks_subtracted(s0, ksk, a, m)) == to_torus(
            ks_key_sum(s1, a, m) - 0x8000_0000 * ks_fired(a, m) + ks_noise_sum(noise, a, m),
        ),
    decreases m,
{
    if m > 0 {
        lemma_subtracted_messages(s0, s1, ksk, noise, a, m - 1);
        let i = (m - 1) / (T as int);
        let j = (m - 1) % (T as int);
        let k = ks_digit(a[i], j);
        let sp = ks_subtracted(s0, ksk, a, m - 1);
        let q = ks_key_sum(s1, a, m - 1) - 0x8000_0000 * ks_fired(a, m - 1) + ks_noise_sum(noise, a, m - 1);
        if k != 0 {
            let idx = ks_index(i, j, k);
            let e = ksk[idx];
            let pe = tlwe_phase(s0, e.0, e.1);
            let ksw = k * s1[i] * ks_weight(j);
            let nz = noise[idx];
            assert(pe == to_torus(ks_message(k, j, s1[i]) + nz));
            lemma_to_torus_add(ksw - 0x8000_0000, nz as int);
            assert(to_torus(nz as int) == to_torus(signed(nz))) by {
                lemma_to_torus_add(0, nz as int);
                assert(signed(nz) == nz || signed(nz) == nz - 0x1_0000_0000);
                vstd::arithmetic::div_mod::lemma_mod_multiples_vanish(-1, nz as int, 0x1_0000_0000);
            }
            lemma_to_torus_add(ksw - 0x8000_0000, signed(nz));
            lemma_to_torus_add(sp, pe as int);
            lemma_to_torus_add(q, pe as int);
            lemma_to_torus_add(q, ksw - 0x8000_0000 + signed(nz));
            assert(q + (ksw - 0x8000_0000 + signed(nz)) == ks_key_sum(s1, a, m) - 0x8000_0000 * ks_fired(a, m)
                + ks_noise_sum(noise, a, m));
        } else {
            assert(k * s1[i] * ks_weight(j) == 0) by (nonlinear_arith)
                requires k == 0;
        }
    }
}

/// Key switching round trip, for the inputs on which the `-2^31` offset of
/// the key entries cancels: if `(a, b)` is a level-1 encryption of `bit` with
/// noise below `2^-5` in absolute value, every key entry `(i, j, k)` encrypts
/// `ks_message(k, j, s1[i])` with noise `noise[ks_index(i, j, k)]`, the noises
/// of the entries that key switching subtracts sum to less than `2^-6` in
/// absolute value, and it subtracts an even number of entries, then the
/// result decrypts under `s0` to `bit`.
pub proof fn key_switching_round_trip(
    s0: Seq<Torus>,
    s1: Seq<Torus>,
    ksk: Seq<(Seq<Torus>, Torus)>,
    noise: Seq<Torus>,
    a: Seq<Torus>,
    b: Torus,
    bit: bool,
    e1: Torus,
)
    requires
        s0.len() == N_LV0,
        s1.len() == N_LV1,
        is_binary(s1),
        a.len() == N_LV1,
        ksk.len() == (K - 1) * T * N_LV1,
        forall|x: int| 0 <= x < ksk.len() ==> (#[trigger] ksk[x]).0.len() == N_LV0,
        noise.len() == ksk.len(),
        forall|i: int, j: int, k: int|
            0 <= i < N_LV1 && 0 <= j < T && 1 <= k < K ==> tlwe_phase(
                s0,
                #[trigger] ksk[ks_index(i, j, k)].0,
                ksk[ks_index(i, j, k)].1,
            ) == to_torus(ks_message(k, j, s1[i]) + noise[ks_index(i, j, k)]),
        -0x0400_0000 < ks_noise_sum(noise, a, (N_LV1 * T) as int) < 0x0400_0000,
        tlwe_phase(s1, a, b) == to_torus(encode_bit(bit) + e1),
        small(e1, 0x0800_0000),
        ks_fired(a, (N_LV1 * T) as int) % 2 == 0,
    ensures
        decode_bit(
            tlwe_phase(s0, ks_acc(ksk, a, b, (N_LV1 * T) as int).0, ks_acc(ksk, a, b, (N_LV1 * T) as int).1),
        ) == bit,
{
    let m = (N_LV1 * T) as int;
    key_switching_phase(s0, ksk, a, b, m);
    lemma_subtracted_messages(s0, s1, ksk, noise, a, m);
    lemma_key_sum_rounds(s1, a, N_LV1 as int);
    lemma_round_sum(s1, a, N_LV1 as int);
    let sub = ks_subtracted(s0, ksk, a, m);
    let f = ks_fired(a, m);
    let ns = ks_noise_sum(noise, a, m);
    let ds = dot_sum(a, s1, N_LV1 as int);
    let dl = delta_sum(s1, a, N_LV1 as int);
    let rs = round_sum(s1, a, N_LV1 as int);
    let mu = encode_bit(bit) as int;
    // phase(c) = b - <a, s1> = mu + e1
    lemma_to_torus_sub(b as int, ds);
    // phase(result) = b - sub = b - (rs - 2^31 f + ns)
    lemma_to_torus_sub(b as int, sub);
    lemma_to_torus_sub(b as int, rs - 0x8000_0000 * f + ns);
    // rs = ds + dl (mod 2^32)
    lemma_to_torus_sub(b + 0x8000_0000 * f - ns, rs);
    lemma_to_torus_sub(b + 0x8000_0000 * f - ns, ds + dl);
    assert(b - (rs - 0x8000_0000 * f + ns) == (b + 0x8000_0000 * f - ns) - rs);
    // 2^31 f vanishes for even f
    let h = f / 2;
    assert(0x8000_0000 * f == 0x1_0000_0000 * h);
    vstd::arithmetic::div_mod::lemma_mod_multiples_vanish(h, b - ns - ds - dl, 0x1_0000_0000);
    assert((b + 0x8000_0000 * f - ns) - (ds + dl) == 0x1_0000_0000 * h + (b - ns - ds - dl));
    // b - ds = mu + e1 (mod 2^32)
    lemma_to_torus_add(b - ds, -ns - dl);
    lemma_to_torus_add(mu + e1, -ns - dl);
    assert(b - ns - ds - dl == (b - ds) + (-ns - dl));
    lemma_to_torus_sub(b as int, ds);
    assert(to_torus(b - ds) == to_torus(mu + e1));
    let se = signed(e1);
    lemma_to_torus_add(mu + se, -ns - dl);
    assert(to_torus(mu + e1) == to_torus(mu + se)) by {
        vstd::arithmetic::div_mod::lemma_mod_multiples_vanish(-1, mu + e1, 0x1_0000_0000);
    }
    lemma_to_torus_add(mu + e1, -ns - dl);
    lemma_to_torus_add(mu + se, -ns - dl);
    let total = mu + se - ns - dl;
    assert(-0x1000_0000 < se - ns - dl < 0x1000_0000);
    lemma_decode_shifted(bit, se - ns - dl);
}

proof fn lemma_decode_shifted(bit: bool, d: int)
    requires
        -0x1000_0000 < d < 0x1000_0000,
    ensures
        decode_bit(to_torus(encode_bit(bit) + d)) == bit,
{
}

} // verus!
