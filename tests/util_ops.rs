use kfhe::ops::{dot, intpoly_mul_as_torus, pmul, rdot, rmadd, tscale, vadd, vsub};
use kfhe::util::{int_to_torus, ring_negative, rotate_ring, torus_negative, zpoly_to_ring, Torus};

#[test]
fn test_rotate_ring() {
    const N: usize = 1000;
    let mut arr: Vec<Torus> = vec![0; N];
    for i in 0..N {
        arr[i] = i as Torus;
    }

    for k in 0..N {
        let rot = rotate_ring(&arr, k);
        for i in 0..N {
            if i >= k {
                assert_eq!(rot[i], arr[i - k]);
            } else {
                let ans = torus_negative(arr[N - k + i]);
                assert_eq!(rot[i], ans);
            }
        }
    }
}

#[test]
fn rotate_by_n_negates_and_by_2n_is_identity() {
    let p: Vec<Torus> = vec![1, 2, 3, 0x8000_0000, 0, 7, 0xFFFF_FFFF, 9];
    let n = p.len();
    assert_eq!(rotate_ring(&p, 0), p);
    assert_eq!(rotate_ring(&p, n), ring_negative(&p));
    assert_eq!(rotate_ring(&p, 2 * n), p);
}

#[test]
fn rotate_composes_modulo_2n() {
    let p: Vec<Torus> = vec![11, 22, 33, 44, 55];
    let n = p.len();
    for k1 in 0..2 * n {
        for k2 in 0..2 * n {
            let twice = rotate_ring(&rotate_ring(&p, k1), k2);
            let once = rotate_ring(&p, (k1 + k2) % (2 * n));
            assert_eq!(twice, once);
        }
    }
}

#[test]
fn rotate_by_one_is_multiplication_by_x() {
    let p: Vec<Torus> = vec![1, 2, 3, 4];
    assert_eq!(rotate_ring(&p, 1), vec![0u32.wrapping_sub(4), 1, 2, 3]);
}

#[test]
fn negation_wraps() {
    assert_eq!(torus_negative(0), 0);
    assert_eq!(torus_negative(1), 0xFFFF_FFFF);
    assert_eq!(torus_negative(0x8000_0000), 0x8000_0000);
    assert_eq!(ring_negative(&vec![0, 5]), vec![0, 0xFFFF_FFFB]);
}

#[test]
fn vector_add_sub_dot_wrap() {
    let v: Vec<Torus> = vec![0xFFFF_FFFF, 1, 2];
    let w: Vec<Torus> = vec![2, 3, 0x8000_0000];
    assert_eq!(vadd(&v, &w), vec![1, 4, 0x8000_0002]);
    assert_eq!(vsub(&v, &w), vec![0xFFFF_FFFD, 0xFFFF_FFFE, 0x8000_0002]);
    // 0xFFFFFFFF * 2 + 1 * 3 + 2 * 2^31 = -2 + 3 + 0 (mod 2^32)
    assert_eq!(dot(&v, &w), 1);
}

#[test]
fn pmul_is_negacyclic() {
    // (1 + X)^2 = 1 + 2X + X^2 in Z[X]/(X^4 + 1)
    let p: Vec<Torus> = vec![1, 1, 0, 0];
    assert_eq!(pmul(&p, &p), vec![1, 2, 1, 0]);
    // X^3 * X = X^4 = -1
    let x3: Vec<Torus> = vec![0, 0, 0, 1];
    let x1: Vec<Torus> = vec![0, 1, 0, 0];
    assert_eq!(pmul(&x3, &x1), vec![0xFFFF_FFFF, 0, 0, 0]);
    // (2 + 3X^3) * (5X^2) = 10X^2 + 15X^5 = 10X^2 - 15X
    let a: Vec<Torus> = vec![2, 0, 0, 3];
    let b: Vec<Torus> = vec![0, 0, 5, 0];
    assert_eq!(pmul(&a, &b), vec![0, 0u32.wrapping_sub(15), 10, 0]);
}

#[test]
fn pmul_commutes_on_examples() {
    let a: Vec<Torus> = vec![7, 0xFFFF_FFF0, 3, 12345, 9, 1, 0, 42];
    let b: Vec<Torus> = vec![1, 0, 1, 1, 0, 1, 0, 1];
    assert_eq!(pmul(&a, &b), pmul(&b, &a));
}

#[test]
fn scaling_by_signed_integers() {
    assert_eq!(tscale(5, 3), 15);
    assert_eq!(tscale(5, -3), 0u32.wrapping_sub(15));
    assert_eq!(tscale(0x4000_0000, 4), 0);
    assert_eq!(tscale(7, -128), 0u32.wrapping_sub(7 * 128));
    assert_eq!(intpoly_mul_as_torus(&vec![1, -1, 0, 2], 0x0400_0000), vec![0x0400_0000, 0xFC00_0000, 0, 0x0800_0000]);
    assert_eq!(int_to_torus(-1), 0xFFFF_FFFF);
    assert_eq!(int_to_torus(31), 31);
    assert_eq!(zpoly_to_ring(&vec![-32, 31, 0]), vec![0xFFFF_FFE0, 31, 0]);
}

#[test]
fn matrix_add_and_ring_dot() {
    let a: Vec<Vec<Vec<Torus>>> = vec![vec![vec![1, 2], vec![3, 4]]];
    let b: Vec<Vec<Vec<Torus>>> = vec![vec![vec![0xFFFF_FFFF, 1], vec![1, 1]]];
    assert_eq!(rmadd(&a, &b), vec![vec![vec![0, 3], vec![4, 5]]]);
    // (1 + X)(1 + X) + (X)(X) = 1 + 2X + X^2 + X^2 = 1 + 2X + 2X^2 - in Z[X]/(X^3 + 1)
    let v: Vec<Vec<Torus>> = vec![vec![1, 1, 0], vec![0, 1, 0]];
    let w: Vec<Vec<Torus>> = vec![vec![1, 1, 0], vec![0, 1, 0]];
    assert_eq!(rdot(&v, &w, 3), vec![1, 2, 2]);
}
