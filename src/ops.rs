use vstd::prelude::*;
use crate::util::{Torus, to_torus, lemma_to_torus_add, lemma_to_torus_sub, lemma_to_torus_mul};

verus! {

/// Coefficient-wise torus sum.
pub open spec fn vadd_spec(v: Seq<Torus>, w: Seq<Torus>) -> Seq<Torus> {
    Seq::new(v.len(), |i: int| to_torus(v[i] + w[i]))
}

/// Coefficient-wise torus difference.
pub open spec fn vsub_spec(v: Seq<Torus>, w: Seq<Torus>) -> Seq<Torus> {
    Seq::new(v.len(), |i: int| to_torus(v[i] - w[i]))
}

/// `sum_{i < k} v[i] * w[i]` over the integers.
pub open spec fn dot_sum(v: Seq<Torus>, w: Seq<Torus>, k: int) -> int
    decreases k,
{
    if k <= 0 {
        0
    } else {
        dot_sum(v, w, k - 1) + v[k - 1] * w[k - 1]
    }
}

/// The inner product of two torus vectors, reduced modulo `2^32`.
pub open spec fn dot_spec(v: Seq<Torus>, w: Seq<Torus>) -> Torus {
    to_torus(dot_sum(v, w, v.len() as int))
}

/// The contribution of `p[i]` to coefficient `k` of `p * q` in `Z[X]/(X^N + 1)`:
/// `p[i] * q[k - i]`, or `-p[i] * q[k - i + N]` when `X^N` wraps to `-1`.
pub open spec fn nega_term(p: Seq<Torus>, q: Seq<Torus>, k: int, i: int) -> int {
    if i <= k {
        p[i] * q[k - i]
    } else {
        -(p[i] * q[k - i + p.len()])
    }
}

/// `sum_{i < m} nega_term(p, q, k, i)`.
pub open spec fn nega_sum(p: Seq<Torus>, q: Seq<Torus>, k: int, m: int) -> int
    decreases m,
{
    if m <= 0 {
        0
    } else {
        nega_sum(p, q, k, m - 1) + nega_term(p, q, k, m - 1)
    }
}

/// Negacyclic product `p * q` in `T[X]/(X^N + 1)`, `N = p.len()`.
pub open spec fn pmul_spec(p: Seq<Torus>, q: Seq<Torus>) -> Seq<Torus> {
    Seq::new(p.len(), |k: int| to_torus(nega_sum(p, q, k, p.len() as int)))
}

/// `u * sc` on the torus, for a small signed integer `sc`.
pub open spec fn tscale_spec(u: Torus, sc: int) -> Torus {
    to_torus(u * sc)
}

/// The polynomial whose coefficient `i` is `t * zs[i]` on the torus.
pub open spec fn intpoly_spec(zs: Seq<i8>, t: Torus) -> Seq<Torus> {
    Seq::new(zs.len(), |i: int| tscale_spec(t, zs[i] as int))
}

/// The zero polynomial of length `n`.
pub open spec fn zero_ring(n: nat) -> Seq<Torus> {
    Seq::new(n, |i: int| 0u32)
}

/// `sum_{l < m} v[l] * w[l]` in `T[X]/(X^N + 1)`.
pub open spec fn rdot_spec(v: Seq<Seq<Torus>>, w: Seq<Seq<Torus>>, n: nat, m: int) -> Seq<Torus>
    decreases m,
{
    if m <= 0 {
        zero_ring(n)
    } else {
        vadd_spec(rdot_spec(v, w, n, m - 1), pmul_spec(v[m - 1], w[m - 1]))
    }
}

/// The inner product is additive in its first argument, modulo `2^32`.
pub proof fn lemma_dot_add(a1: Seq<Torus>, a2: Seq<Torus>, s: Seq<Torus>, k: int)
    requires
        a1.len() == a2.len(),
        0 <= k <= a1.len(),
        k <= s.len(),
    ensures
        to_torus(dot_sum(vadd_spec(a1, a2), s, k)) == to_torus(dot_sum(a1, s, k) + dot_sum(a2, s, k)),
    decreases k,
{
    if k > 0 {
        let u = vadd_spec(a1, a2);
        let i = k - 1;
        lemma_dot_add(a1, a2, s, i);
        let d1 = dot_sum(a1, s, i);
        let d2 = dot_sum(a2, s, i);
        let du = dot_sum(u, s, i);
        let x: int = a1[i] as int;
        let y: int = a2[i] as int;
        let z: int = s[i] as int;
        assert((x + y) * z == x * z + y * z) by (nonlinear_arith);
        lemma_to_torus_add(du, u[i] * z);
        lemma_to_torus_add(d1 + d2, u[i] * z);
        lemma_to_torus_mul(x + y, z);
        lemma_to_torus_add(d1 + d2, (x + y) * z);
        assert(to_torus(du + u[i] * z) == to_torus(to_torus(d1 + d2) + u[i] * z));
    }
}

/// The inner product is subtractive in its first argument, modulo `2^32`.
pub proof fn lemma_dot_sub(a1: Seq<Torus>, a2: Seq<Torus>, s: Seq<Torus>, k: int)
    requires
        a1.len() == a2.len(),
        0 <= k <= a1.len(),
        k <= s.len(),
    ensures
        to_torus(dot_sum(vsub_spec(a1, a2), s, k)) == to_torus(dot_sum(a1, s, k) - dot_sum(a2, s, k)),
    decreases k,
{
    if k > 0 {
        let u = vsub_spec(a1, a2);
        let i = k - 1;
        lemma_dot_sub(a1, a2, s, i);
        let d1 = dot_sum(a1, s, i);
        let d2 = dot_sum(a2, s, i);
        let du = dot_sum(u, s, i);
        let x: int = a1[i] as int;
        let y: int = a2[i] as int;
        let z: int = s[i] as int;
        assert((x - y) * z == x * z - y * z) by (nonlinear_arith);
        lemma_to_torus_add(du, u[i] * z);
        lemma_to_torus_add(d1 - d2, u[i] * z);
        lemma_to_torus_mul(x - y, z);
        lemma_to_torus_add(d1 - d2, (x - y) * z);
        assert(to_torus(du + u[i] * z) == to_torus(to_torus(d1 - d2) + u[i] * z));
    }
}

/// The negacyclic product is additive in its second argument, modulo `2^32`.
pub proof fn lemma_nega_add(s: Seq<Torus>, a1: Seq<Torus>, a2: Seq<Torus>, k: int, m: int)
    requires
        a1.len() == a2.len(),
        a1.len() == s.len(),
        0 <= k < a1.len(),
        0 <= m <= a1.len(),
    ensures
        to_torus(nega_sum(s, vadd_spec(a1, a2), k, m)) == to_torus(
            nega_sum(s, a1, k, m) + nega_sum(s, a2, k, m),
        ),
    decreases m,
{
    if m > 0 {
        let n = a1.len() as int;
        let u = vadd_spec(a1, a2);
        let i = m - 1;
        lemma_nega_add(s, a1, a2, k, i);
        let d1 = nega_sum(s, a1, k, i);
        let d2 = nega_sum(s, a2, k, i);
        let du = nega_sum(s, u, k, i);
        let idx = if i <= k { k - i } else { k - i + n };
        let x: int = a1[idx] as int;
        let y: int = a2[idx] as int;
        let w: int = u[idx] as int;
        let z: int = if i <= k { s[i] as int } else { -(s[i] as int) };
        assert(nega_term(s, u, k, i) == w * z) by (nonlinear_arith)
            requires
                i <= k ==> nega_term(s, u, k, i) == s[i] * w && z == s[i],
                i > k ==> nega_term(s, u, k, i) == -(s[i] * w) && z == -s[i],
        ;
        assert(nega_term(s, a1, k, i) == x * z) by (nonlinear_arith)
            requires
                i <= k ==> nega_term(s, a1, k, i) == s[i] * x && z == s[i],
                i > k ==> nega_term(s, a1, k, i) == -(s[i] * x) && z == -s[i],
        ;
        assert(nega_term(s, a2, k, i) == y * z) by (nonlinear_arith)
            requires
                i <= k ==> nega_term(s, a2, k, i) == s[i] * y && z == s[i],
                i > k ==> nega_term(s, a2, k, i) == -(s[i] * y) && z == -s[i],
        ;
        assert((x + y) * z == x * z + y * z) by (nonlinear_arith);
        assert(w == to_torus(x + y));
        lemma_to_torus_add(du, w * z);
        lemma_to_torus_add(d1 + d2, w * z);
        lemma_to_torus_mul(x + y, z);
        lemma_to_torus_add(d1 + d2, (x + y) * z);
        assert(to_torus(du + w * z) == to_torus(to_torus(d1 + d2) + w * z));
    }
}

/// The zero polynomial of length `n`.
pub fn zeros(n: usize) -> (r: Vec<Torus>)
    ensures
        r@ == zero_ring(n as nat),
{
    let mut r: Vec<Torus> = Vec::with_capacity(n);
    let mut i: usize = 0;
    while i < n
        invariant
            i <= n,
            r@.len() == i,
            forall|k: int| 0 <= k < i ==> r@[k] == 0,
        decreases n - i,
    {
        r.push(0);
        i += 1;
    }
    assert(r@ =~= zero_ring(n as nat));
    r
}

/// Adding the zero polynomial changes nothing.
pub proof fn lemma_vadd_zero(e: Seq<Torus>)
    ensures
        vadd_spec(zero_ring(e.len()), e) == e,
{
    assert(vadd_spec(zero_ring(e.len()), e) =~= e);
}

/// `(g + z) - g == z` coefficient-wise.
pub proof fn lemma_add_sub_cancel(g: Seq<Torus>, z: Seq<Torus>)
    requires
        g.len() == z.len(),
    ensures
        vsub_spec(vadd_spec(g, z), g) == z,
{
    assert forall|i: int| 0 <= i < g.len() implies #[trigger] vsub_spec(vadd_spec(g, z), g)[i]
        == z[i] by {
        lemma_to_torus_sub(g[i] + z[i], g[i] as int);
        assert(g[i] + z[i] - g[i] == z[i]);
    }
    assert(vsub_spec(vadd_spec(g, z), g) =~= z);
}

/// Coefficient-wise sum of two torus vectors.
pub fn vadd(v: &Vec<Torus>, w: &Vec<Torus>) -> (r: Vec<Torus>)
    requires
        v.len() == w.len(),
    ensures
        r@ == vadd_spec(v@, w@),
{
    let mut arr: Vec<Torus> = Vec::with_capacity(v.len());
    let mut i: usize = 0;
    while i < v.len()
        invariant
            v.len() == w.len(),
            i <= v.len(),
            arr@.len() == i,
            forall|j: int| 0 <= j < i ==> arr@[j] == to_torus(v@[j] + w@[j]),
        decreases v.len() - i,
    {
        arr.push(v[i].wrapping_add(w[i]));
        i += 1;
    }
    assert(arr@ =~= vadd_spec(v@, w@));
    arr
}

/// Coefficient-wise difference of two torus vectors.
pub fn vsub(v: &Vec<Torus>, w: &Vec<Torus>) -> (r: Vec<Torus>)
    requires
        v.len() == w.len(),
    ensures
        r@ == vsub_spec(v@, w@),
{
    let mut arr: Vec<Torus> = Vec::with_capacity(v.len());
    let mut i: usize = 0;
    while i < v.len()
        invariant
            v.len() == w.len(),
            i <= v.len(),
            arr@.len() == i,
            forall|j: int| 0 <= j < i ==> arr@[j] == to_torus(v@[j] - w@[j]),
        decreases v.len() - i,
    {
        arr.push(v[i].wrapping_sub(w[i]));
        i += 1;
    }
    assert(arr@ =~= vsub_spec(v@, w@));
    arr
}

/// Inner product of two torus vectors, with wrapping arithmetic.
pub fn dot(v: &Vec<Torus>, w: &Vec<Torus>) -> (r: Torus)
    requires
        v.len() == w.len(),
    ensures
        r == dot_spec(v@, w@),
{
    let mut s: Torus = 0;
    let mut i: usize = 0;
    while i < v.len()
        invariant
            v.len() == w.len(),
            i <= v.len(),
            s == to_torus(dot_sum(v@, w@, i as int)),
        decreases v.len() - i,
    {
        proof {
            lemma_to_torus_add(dot_sum(v@, w@, i as int), v@[i as int] * w@[i as int]);
        }
        s = s.wrapping_add(v[i].wrapping_mul(w[i]));
        i += 1;
    }
    s
}

/// Negacyclic polynomial product in `T[X]/(X^N + 1)`, `N = p.len()`: for each
/// pair `(i, j)` the product `p[i] * q[j]` goes to position `i + j`, or is
/// subtracted at position `i + j - N`.
pub fn pmul(p: &Vec<Torus>, q: &Vec<Torus>) -> (r: Vec<Torus>)
    requires
        p.len() == q.len(),
        2 * p.len() <= usize::MAX,
    ensures
        r@ == pmul_spec(p@, q@),
{
    let n = p.len();
    let mut mul: Vec<Torus> = Vec::with_capacity(n);
    let mut z: usize = 0;
    while z < n
        invariant
            z <= n,
            mul@.len() == z,
            forall|k: int| 0 <= k < z ==> mul@[k] == 0,
        decreases n - z,
    {
        mul.push(0);
        z += 1;
    }
    let mut i: usize = 0;
    while i < n
        invariant
            n == p.len(),
            n == q.len(),
            2 * n <= usize::MAX,
            i <= n,
            mul@.len() == n,
            forall|k: int| 0 <= k < n ==> mul@[k] == to_torus(#[trigger] nega_sum(p@, q@, k, i as int)),
        decreases n - i,
    {
        let pi = p[i];
        if pi != 0 {
            let mut j: usize = 0;
            while j < n - i
                invariant
                    n == p.len(),
                    n == q.len(),
                    2 * n <= usize::MAX,
                    i < n,
                    pi == p@[i as int],
                    j <= n - i,
                    mul@.len() == n,
                    forall|k: int|
                        i <= k < i + j ==> mul@[k] == to_torus(#[trigger] nega_sum(p@, q@, k, i + 1)),
                    forall|k: int|
                        0 <= k < n && !(i <= k < i + j) ==> mul@[k] == to_torus(
                            #[trigger] nega_sum(p@, q@, k, i as int),
                        ),
                decreases n - i - j,
            {
                let k = i + j;
                proof {
                    lemma_to_torus_add(nega_sum(p@, q@, k as int, i as int), pi * q@[j as int]);
                    assert(nega_sum(p@, q@, k as int, i + 1) == nega_sum(p@, q@, k as int, i as int)
                        + pi * q@[j as int]);
                }
                let v = mul[k].wrapping_add(pi.wrapping_mul(q[j]));
                mul.set(k, v);
                j += 1;
            }
            let mut j: usize = n - i;
            while j < n
                invariant
                    n == p.len(),
                    n == q.len(),
                    2 * n <= usize::MAX,
                    i < n,
                    pi == p@[i as int],
                    n - i <= j <= n,
                    mul@.len() == n,
                    forall|k: int|
                        (i <= k < n || 0 <= k < i + j - n) ==> mul@[k] == to_torus(
                            #[trigger] nega_sum(p@, q@, k, i + 1),
                        ),
                    forall|k: int|
                        i + j - n <= k < i ==> mul@[k] == to_torus(#[trigger] nega_sum(p@, q@, k, i as int)),
                decreases n - j,
            {
                let k = i + j - n;
                proof {
                    lemma_to_torus_sub(nega_sum(p@, q@, k as int, i as int), pi * q@[j as int]);
                    assert(nega_sum(p@, q@, k as int, i + 1) == nega_sum(p@, q@, k as int, i as int)
                        - pi * q@[j as int]);
                }
                let v = mul[k].wrapping_sub(pi.wrapping_mul(q[j]));
                mul.set(k, v);
                j += 1;
            }
            assert forall|k: int| 0 <= k < n implies mul@[k] == to_torus(
                nega_sum(p@, q@, k, i + 1),
            ) by {
                if i <= k {
                } else {
                    assert(0 <= k < i + j - n);
                }
            }
        } else {
            assert forall|k: int| 0 <= k < n implies mul@[k] == to_torus(
                nega_sum(p@, q@, k, i + 1),
            ) by {
                let x: int = p@[i as int] as int;
                let y: int = if i <= k { q@[k - i] as int } else { q@[k - i + n] as int };
                assert(x * y == 0) by (nonlinear_arith)
                    requires x == 0;
                assert(nega_term(p@, q@, k, i as int) == 0);
                assert(mul@[k] == to_torus(nega_sum(p@, q@, k, i as int)));
            }
        }
        i += 1;
    }
    assert(mul@ =~= pmul_spec(p@, q@));
    mul
}

/// `u * sc` on the torus: the product with `|sc|`, negated when `sc < 0`.
pub fn tscale(u: Torus, sc: i8) -> (r: Torus)
    ensures
        r == tscale_spec(u, sc as int),
{
    let v: u32 = if sc < 0 {
        (0i32 - sc as i32) as u32
    } else {
        sc as u32
    };
    let base = u.wrapping_mul(v);
    proof {
        lemma_to_torus_sub(0, u * v);
        assert(sc < 0 ==> u * sc == -(u * v)) by (nonlinear_arith)
            requires sc < 0 ==> v == -sc, sc >= 0 ==> v == sc;
        assert(sc >= 0 ==> u * sc == u * v) by (nonlinear_arith)
            requires sc < 0 ==> v == -sc, sc >= 0 ==> v == sc;
    }
    if sc < 0 {
        0u32.wrapping_sub(base)
    } else {
        base
    }
}

/// Scales the torus word `t` by each coefficient of the integer polynomial `zs`.
pub fn intpoly_mul_as_torus(zs: &Vec<i8>, t: Torus) -> (r: Vec<Torus>)
    ensures
        r@ == intpoly_spec(zs@, t),
{
    let mut ring: Vec<Torus> = Vec::with_capacity(zs.len());
    let mut i: usize = 0;
    while i < zs.len()
        invariant
            i <= zs.len(),
            ring@.len() == i,
            forall|j: int| 0 <= j < i ==> ring@[j] == tscale_spec(t, zs@[j] as int),
        decreases zs.len() - i,
    {
        ring.push(tscale(t, zs[i]));
        i += 1;
    }
    assert(ring@ =~= intpoly_spec(zs@, t));
    ring
}

/// Sum of two matrices of torus polynomials, entry by entry.
pub fn rmadd(a: &Vec<Vec<Vec<Torus>>>, b: &Vec<Vec<Vec<Torus>>>) -> (c: Vec<Vec<Vec<Torus>>>)
    requires
        a.len() == b.len(),
        forall|l: int| 0 <= l < a.len() ==> (#[trigger] a@[l]).len() == b@[l].len(),
        forall|l: int, m: int|
            0 <= l < a.len() && 0 <= m < a@[l].len() ==> (#[trigger] a@[l]@[m]).len()
                == b@[l]@[m].len(),
    ensures
        c.len() == a.len(),
        forall|l: int| 0 <= l < a.len() ==> (#[trigger] c@[l]).len() == a@[l].len(),
        forall|l: int, m: int|
            0 <= l < a.len() && 0 <= m < a@[l].len() ==> (#[trigger] c@[l]@[m])@ == vadd_spec(
                a@[l]@[m]@,
                b@[l]@[m]@,
            ),
{
    let mut c: Vec<Vec<Vec<Torus>>> = Vec::with_capacity(a.len());
    let mut l: usize = 0;
    while l < a.len()
        invariant
            a.len() == b.len(),
            forall|l: int| 0 <= l < a.len() ==> (#[trigger] a@[l]).len() == b@[l].len(),
            forall|l: int, m: int|
                0 <= l < a.len() && 0 <= m < a@[l].len() ==> (#[trigger] a@[l]@[m]).len()
                    == b@[l]@[m].len(),
            l <= a.len(),
            c.len() == l,
            forall|x: int| 0 <= x < l ==> (#[trigger] c@[x]).len() == a@[x].len(),
            forall|x: int, m: int|
                0 <= x < l && 0 <= m < a@[x].len() ==> (#[trigger] c@[x]@[m])@ == vadd_spec(
                    a@[x]@[m]@,
                    b@[x]@[m]@,
                ),
        decreases a.len() - l,
    {
        let mut row: Vec<Vec<Torus>> = Vec::with_capacity(a[l].len());
        let mut m: usize = 0;
        while m < a[l].len()
            invariant
                a.len() == b.len(),
                l < a.len(),
                a@[l as int].len() == b@[l as int].len(),
                forall|m: int|
                    0 <= m < a@[l as int].len() ==> (#[trigger] a@[l as int]@[m]).len()
                        == b@[l as int]@[m].len(),
                m <= a[l as int].len(),
                row.len() == m,
                forall|y: int|
                    0 <= y < m ==> (#[trigger] row@[y])@ == vadd_spec(
                        a@[l as int]@[y]@,
                        b@[l as int]@[y]@,
                    ),
            decreases a[l as int].len() - m,
        {
            row.push(vadd(&a[l][m], &b[l][m]));
            m += 1;
        }
        c.push(row);
        l += 1;
    }
    c
}

/// `sum_l v[l] * w[l]` in `T[X]/(X^N + 1)`.
pub fn rdot(v: &Vec<Vec<Torus>>, w: &Vec<Vec<Torus>>, n: usize) -> (s: Vec<Torus>)
    requires
        v.len() == w.len(),
        2 * n <= usize::MAX,
        forall|l: int| 0 <= l < v.len() ==> (#[trigger] v@[l]).len() == n && w@[l].len() == n,
    ensures
        s@ == rdot_spec(v@.map_values(|x: Vec<Torus>| x@), w@.map_values(|x: Vec<Torus>| x@), n as nat, v.len() as int),
{
    let ghost vs = v@.map_values(|x: Vec<Torus>| x@);
    let ghost ws = w@.map_values(|x: Vec<Torus>| x@);
    let mut s: Vec<Torus> = Vec::with_capacity(n);
    let mut z: usize = 0;
    while z < n
        invariant
            z <= n,
            s@.len() == z,
            forall|k: int| 0 <= k < z ==> s@[k] == 0,
        decreases n - z,
    {
        s.push(0);
        z += 1;
    }
    assert(s@ =~= zero_ring(n as nat));
    let mut l: usize = 0;
    while l < v.len()
        invariant
            v.len() == w.len(),
            2 * n <= usize::MAX,
            forall|l: int| 0 <= l < v.len() ==> (#[trigger] v@[l]).len() == n && w@[l].len() == n,
            vs == v@.map_values(|x: Vec<Torus>| x@),
            ws == w@.map_values(|x: Vec<Torus>| x@),
            l <= v.len(),
            s@.len() == n,
            s@ == rdot_spec(vs, ws, n as nat, l as int),
        decreases v.len() - l,
    {
        let prod = pmul(&v[l], &w[l]);
        s = vadd(&s, &prod);
        l += 1;
    }
    s
}

} // verus!
