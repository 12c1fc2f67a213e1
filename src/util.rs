use vstd::prelude::*;
use vstd::arithmetic::div_mod::{
    lemma_add_mod_noop, lemma_sub_mod_noop, lemma_mul_mod_noop_left, lemma_fundamental_div_mod_converse,
};

verus! {

/// A torus element: the word `u` stands for `u / 2^32` in `[0, 1)`.
pub type Torus = u32;

/// The modulus `q = 2^32` of the discretised torus.
pub open spec fn modulus() -> int {
    0x1_0000_0000
}

/// The torus word of an integer, reduced modulo `2^32`.
pub open spec fn to_torus(x: int) -> Torus {
    (x % modulus()) as u32
}

/// Torus negation `u -> q - u (mod q)`.
pub open spec fn tneg(u: Torus) -> Torus {
    to_torus(-(u as int))
}

/// The torus word that encodes a plaintext bit: `+1/8` for true, `-1/8` for false.
pub open spec fn encode_bit(b: bool) -> Torus {
    if b {
        0x2000_0000
    } else {
        0xE000_0000
    }
}

/// A phase decodes to true when its signed reading is non-negative.
pub open spec fn decode_bit(m: Torus) -> bool {
    m < 0x8000_0000
}

/// Coefficient `i` of `p * X^k` in `Z[X]/(X^N + 1)`, with `N = p.len()`.
pub open spec fn rotate_at(p: Seq<Torus>, k: int, i: int) -> Torus {
    let n = p.len() as int;
    let m = 2 * n - k + i;
    if (m / n) % 2 == 0 {
        p[m % n]
    } else {
        tneg(p[m % n])
    }
}

/// `p * X^k` in `Z[X]/(X^N + 1)`.
pub open spec fn rotate_spec(p: Seq<Torus>, k: int) -> Seq<Torus> {
    Seq::new(p.len(), |i: int| rotate_at(p, k, i))
}

pub proof fn lemma_to_torus_add(x: int, y: int)
    ensures
        to_torus(to_torus(x) + to_torus(y)) == to_torus(x + y),
        to_torus(to_torus(x) + y) == to_torus(x + y),
        to_torus(x + to_torus(y)) == to_torus(x + y),
{
    lemma_add_mod_noop(x, y, modulus());
    lemma_add_mod_noop(x % modulus(), y, modulus());
    lemma_add_mod_noop(x, y % modulus(), modulus());
    lemma_add_mod_noop(x % modulus(), y % modulus(), modulus());
    vstd::arithmetic::div_mod::lemma_mod_twice(x, modulus());
    vstd::arithmetic::div_mod::lemma_mod_twice(y, modulus());
}

pub proof fn lemma_to_torus_sub(x: int, y: int)
    ensures
        to_torus(to_torus(x) - to_torus(y)) == to_torus(x - y),
        to_torus(to_torus(x) - y) == to_torus(x - y),
        to_torus(x - to_torus(y)) == to_torus(x - y),
{
    lemma_sub_mod_noop(x, y, modulus());
    lemma_sub_mod_noop(x % modulus(), y, modulus());
    lemma_sub_mod_noop(x, y % modulus(), modulus());
    lemma_sub_mod_noop(x % modulus(), y % modulus(), modulus());
    vstd::arithmetic::div_mod::lemma_mod_twice(x, modulus());
    vstd::arithmetic::div_mod::lemma_mod_twice(y, modulus());
}

pub proof fn lemma_to_torus_mul(x: int, y: int)
    ensures
        to_torus(to_torus(x) * y) == to_torus(x * y),
        to_torus(x * to_torus(y)) == to_torus(x * y),
{
    lemma_mul_mod_noop_left(x, y, modulus());
    lemma_mul_mod_noop_left(y, x, modulus());
    assert(x * y == y * x) by (nonlinear_arith);
    assert(x * (y % modulus()) == (y % modulus()) * x) by (nonlinear_arith);
}

/// Negating twice is the identity.
pub proof fn lemma_tneg_tneg(u: Torus)
    ensures
        tneg(tneg(u)) == u,
{
}

/// Coefficient `i` of `p * X^k` read off `x = i - k`: `p[x + 2N]` below `-N`,
/// `-p[x + N]` in `[-N, 0)`, `p[x]` from 0 on.
pub proof fn lemma_rotate_at_cases(p: Seq<Torus>, k: int, i: int)
    requires
        p.len() > 0,
        0 <= k <= 2 * p.len(),
        0 <= i < p.len(),
    ensures
        i - k < -(p.len() as int) ==> rotate_at(p, k, i) == p[i - k + 2 * p.len()],
        -(p.len() as int) <= i - k < 0 ==> rotate_at(p, k, i) == tneg(p[i - k + p.len()]),
        0 <= i - k ==> rotate_at(p, k, i) == p[i - k],
{
    let n = p.len() as int;
    let m = 2 * n - k + i;
    if i - k < -n {
        lemma_fundamental_div_mod_converse(m, n, 0, m);
    } else if i - k < 0 {
        lemma_fundamental_div_mod_converse(m, n, 1, m - n);
    } else {
        lemma_fundamental_div_mod_converse(m, n, 2, m - 2 * n);
    }
}

/// Rotation by 0 and by `2N` is the identity, and rotation by `N` is negation.
pub proof fn rotate_special_amounts(p: Seq<Torus>)
    requires
        p.len() > 0,
    ensures
        rotate_spec(p, 0) == p,
        rotate_spec(p, 2 * p.len() as int) == p,
        rotate_spec(p, p.len() as int) == p.map_values(|u: Torus| tneg(u)),
{
    let n = p.len() as int;
    assert forall|i: int| 0 <= i < n implies #[trigger] rotate_spec(p, 0)[i] == p[i] by {
        lemma_rotate_at_cases(p, 0, i);
    }
    assert forall|i: int| 0 <= i < n implies #[trigger] rotate_spec(p, 2 * n)[i] == p[i] by {
        lemma_rotate_at_cases(p, 2 * n, i);
    }
    assert forall|i: int| 0 <= i < n implies #[trigger] rotate_spec(p, n)[i] == tneg(p[i]) by {
        lemma_rotate_at_cases(p, n, i);
    }
    assert(rotate_spec(p, 0) =~= p);
    assert(rotate_spec(p, 2 * n) =~= p);
    assert(rotate_spec(p, n) =~= p.map_values(|u: Torus| tneg(u)));
}

/// Rotations compose: rotating by `k1` and then by `k2` is rotating by
/// `(k1 + k2) mod 2N`.
pub proof fn rotate_compose(p: Seq<Torus>, k1: int, k2: int)
    requires
        p.len() > 0,
        0 <= k1 <= 2 * p.len(),
        0 <= k2 <= 2 * p.len(),
    ensures
        rotate_spec(rotate_spec(p, k1), k2) == rotate_spec(p, (k1 + k2) % (2 * p.len() as int)),
{
    let n = p.len() as int;
    let r1 = rotate_spec(p, k1);
    let k3 = (k1 + k2) % (2 * n);
    if k1 + k2 < 2 * n {
        lemma_fundamental_div_mod_converse(k1 + k2, 2 * n, 0, k1 + k2);
    } else if k1 + k2 < 4 * n {
        lemma_fundamental_div_mod_converse(k1 + k2, 2 * n, 1, k1 + k2 - 2 * n);
    } else {
        lemma_fundamental_div_mod_converse(k1 + k2, 2 * n, 2, 0);
    }
    assert forall|i: int| 0 <= i < n implies #[trigger] rotate_spec(r1, k2)[i] == rotate_spec(
        p,
        k3,
    )[i] by {
        lemma_rotate_at_cases(r1, k2, i);
        lemma_rotate_at_cases(p, k3, i);
        let x2 = i - k2;
        let j = if x2 < -n {
            x2 + 2 * n
        } else if x2 < 0 {
            x2 + n
        } else {
            x2
        };
        lemma_rotate_at_cases(p, k1, j);
        lemma_tneg_tneg(p[j - k1 + n]);
        if 0 <= j - k1 + 2 * n < n {
            lemma_tneg_tneg(p[j - k1 + 2 * n]);
        }
        if 0 <= j - k1 < n {
            lemma_tneg_tneg(p[j - k1]);
        }
    }
    assert(rotate_spec(r1, k2) =~= rotate_spec(p, k3));
}

/// `q - t (mod q)`.
pub fn torus_negative(t: Torus) -> (r: Torus)
    ensures
        r == tneg(t),
{
    0u32.wrapping_sub(t)
}

/// Coefficient-wise torus negation.
pub fn ring_negative(ring: &Vec<Torus>) -> (r: Vec<Torus>)
    ensures
        r@ == ring@.map_values(|u: Torus| tneg(u)),
{
    let mut ret: Vec<Torus> = Vec::with_capacity(ring.len());
    let mut i: usize = 0;
    while i < ring.len()
        invariant
            i <= ring.len(),
            ret@ == ring@.subrange(0, i as int).map_values(|u: Torus| tneg(u)),
        decreases ring.len() - i,
    {
        ret.push(torus_negative(ring[i]));
        i += 1;
        assert(ret@ =~= ring@.subrange(0, i as int).map_values(|u: Torus| tneg(u)));
    }
    assert(ring@.subrange(0, i as int) =~= ring@);
    ret
}

/// A signed integer as a torus word: `z mod 2^32`.
pub fn int_to_torus(z: i8) -> (r: Torus)
    ensures
        r == to_torus(z as int),
{
    if z >= 0 {
        z as u32
    } else {
        let m: u32 = (0i32 - z as i32) as u32;
        0u32.wrapping_sub(m)
    }
}

/// Reads a signed integer polynomial as a torus polynomial.
pub fn zpoly_to_ring(zp: &Vec<i8>) -> (r: Vec<Torus>)
    ensures
        r@.len() == zp@.len(),
        forall|i: int| 0 <= i < zp@.len() ==> r@[i] == to_torus(zp@[i] as int),
{
    let mut ret: Vec<Torus> = Vec::with_capacity(zp.len());
    let mut i: usize = 0;
    while i < zp.len()
        invariant
            i <= zp.len(),
            ret@.len() == i,
            forall|j: int| 0 <= j < i ==> ret@[j] == to_torus(zp@[j] as int),
        decreases zp.len() - i,
    {
        ret.push(int_to_torus(zp[i]));
        i += 1;
    }
    ret
}

/// Multiplies a torus polynomial by `X^k` in `Z[X]/(X^N + 1)`, `N = ring.len()`:
/// position `i` of the result is position `r = (2N - k + i) mod N` of `ring`,
/// negated when `(2N - k + i) / N` is odd.
pub fn rotate_ring(ring: &Vec<Torus>, k: usize) -> (r: Vec<Torus>)
    requires
        ring.len() > 0,
        3 * ring.len() <= usize::MAX,
        k <= 2 * ring.len(),
    ensures
        r@ == rotate_spec(ring@, k as int),
{
    let n = ring.len();
    let mut ret: Vec<Torus> = Vec::with_capacity(n);
    let mut i: usize = 0;
    while i < n
        invariant
            n == ring.len(),
            n > 0,
            3 * n <= usize::MAX,
            k <= 2 * n,
            i <= n,
            ret@.len() == i,
            forall|j: int| 0 <= j < i ==> ret@[j] == rotate_at(ring@, k as int, j),
        decreases n - i,
    {
        let q = (2 * n - k + i) / n;
        let r = (2 * n - k + i) % n;
        let v = if q % 2 == 0 {
            ring[r]
        } else {
            0u32.wrapping_sub(ring[r])
        };
        ret.push(v);
        i += 1;
    }
    assert(ret@ =~= rotate_spec(ring@, k as int));
    ret
}

/// The torus word of a plaintext bit: `float_to_torus(+-1/8)`.
pub fn bool_to_torus(b: bool) -> (r: Torus)
    ensures
        r == encode_bit(b),
{
    if b {
        0x2000_0000
    } else {
        0xE000_0000
    }
}

/// Encodes each bit of a boolean polynomial as `+-1/8` on the torus.
pub fn boolpoly_to_torus_ring(bs: &Vec<bool>) -> (r: Vec<Torus>)
    ensures
        r@ == bs@.map_values(|b: bool| encode_bit(b)),
{
    let mut ret: Vec<Torus> = Vec::with_capacity(bs.len());
    let mut i: usize = 0;
    while i < bs.len()
        invariant
            i <= bs.len(),
            ret@ == bs@.subrange(0, i as int).map_values(|b: bool| encode_bit(b)),
        decreases bs.len() - i,
    {
        ret.push(bool_to_torus(bs[i]));
        i += 1;
        assert(ret@ =~= bs@.subrange(0, i as int).map_values(|b: bool| encode_bit(b)));
    }
    assert(bs@.subrange(0, i as int) =~= bs@);
    ret
}

} // verus!
