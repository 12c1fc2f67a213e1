use kfhe::key::SecretKey;
use kfhe::ops::vsub;
use kfhe::params::{BGBIT, L, N_LV1};
use kfhe::sampling::random_bool_initialization;
use kfhe::trgsw::{cmux, decompose_poly, decomposition, external_product, uninitialized_trgsw_matrix, TRGSW};
use kfhe::trlwe::{CipherTRLWE, TRLWE};
use kfhe::util::Torus;
use rand_distr::{Distribution, Normal};

const ALPHA_LV0: f64 = 3.0517578125e-05;
const ALPHA_LV1: f64 = 2.98023223876953125e-08;

fn to_torus(x: f64) -> u32 {
    let y = x - (x + 0.5).floor();
    ((if y < 0. { y + 1. } else { y }) * 2f64.powi(32)) as u32
}

fn gaussian(alpha: f64) -> u32 {
    let normal = Normal::new(0., alpha).unwrap();
    to_torus(normal.sample(&mut rand::thread_rng()))
}

fn gaussian_ring(alpha: f64) -> Vec<u32> {
    let normal = Normal::new(0., alpha).unwrap();
    let mut rng = rand::thread_rng();
    (0..N_LV1).map(|_| to_torus(normal.sample(&mut rng))).collect()
}

fn matrix_noise() -> Vec<Vec<u32>> {
    (0..2 * L).map(|_| gaussian_ring(ALPHA_LV1)).collect()
}

#[allow(dead_code)]
fn unused_level0_noise() -> u32 {
    gaussian(ALPHA_LV0)
}

fn recompose(d: &Vec<Vec<i8>>, j: usize) -> Torus {
    let mut s: u32 = 0;
    for i in 0..L {
        let w = 2u32.pow(32 - (i as u32 + 1) * BGBIT);
        s = s.wrapping_add((d[i][j] as u32).wrapping_mul(w));
    }
    s
}

#[test]
fn test_decomposition() {
    // (1) random BRing, (2) encrypt by TRLWE
    let sk = SecretKey::new();
    let bs = random_bool_initialization(N_LV1);
    let trlwe = TRLWE::new(&sk);
    let (a, b) = trlwe.encrypt(&bs, &gaussian_ring(ALPHA_LV1)).describe();

    // (3) decomposition a and b
    let a_bar = decompose_poly(&a);
    let b_bar = decompose_poly(&b);

    // (4) reconstruct a and b from decomposition
    let mut a_: Vec<Torus> = vec![0; N_LV1];
    let mut b_: Vec<Torus> = vec![0; N_LV1];
    for j in 0..N_LV1 {
        a_[j] = recompose(&a_bar, j);
        b_[j] = recompose(&b_bar, j);
    }

    // (5) decrypt by TRLWE, and assertion!
    assert_eq!(bs, trlwe.decrypt(&CipherTRLWE(a_, b_)))
}

#[test]
fn decomposition_of_one_eighth_constant() {
    let p: Vec<Torus> = vec![1 << 28; N_LV1];
    let d = decompose_poly(&p);
    assert_eq!(d.len(), L);
    assert_eq!((p[0] >> (32 - 18)), 0x4000);
    for j in 0..N_LV1 {
        assert_eq!(d[0][j], 4);
        assert_eq!(d[1][j], 0);
        assert_eq!(d[2][j], 0);
        assert_eq!(recompose(&d, j), 1 << 28);
    }
    let q: Vec<Torus> = vec![1 << 29; 4];
    let dq = decompose_poly(&q);
    assert_eq!((dq[0][0], dq[1][0], dq[2][0]), (8, 0, 0));
}

#[test]
fn decomposition_digits_are_signed_and_reconstruct() {
    let words: Vec<Torus> = vec![0, 0xFFFF_FFFF, 0x8000_0000, 0x7FFF_FFFF, 0x1234_5678, 0x0000_3FFF, 0x0000_4000, 0xFFFF_C000, 0x7E00_0000];
    let d = decompose_poly(&words);
    for j in 0..words.len() {
        for i in 0..L {
            assert!(-32 <= d[i][j] && d[i][j] <= 31);
        }
        assert_eq!(recompose(&d, j), words[j] & !0x3FFF);
    }
    // 0xFFFFC000 is -2^14: the least significant digit is -1
    assert_eq!((d[0][7], d[1][7], d[2][7]), (0, 0, -1));
    // 0x7E000000: both upper digits wrap to -32, and the carry leaves the top
    assert_eq!((d[0][8], d[1][8], d[2][8]), (-32, -32, 0));
    let c = CipherTRLWE(words.clone(), words.clone());
    let (a_bar, b_bar) = decomposition(&c);
    assert_eq!(a_bar, d);
    assert_eq!(b_bar, d);
}

#[test]
fn test_zero_matrix_add() {
    let sk = SecretKey::new();
    let trlwe = TRLWE::new(&sk);
    let trgsw = TRGSW::new(&sk);

    let zm = trgsw.zero_matrix(&matrix_noise());

    for zv in zm {
        let bs = random_bool_initialization(N_LV1);
        let c = trlwe.encrypt(&bs, &gaussian_ring(ALPHA_LV1));
        let z = CipherTRLWE(zv[0].clone(), zv[1].clone());
        let dec_bs = trlwe.decrypt(&c.add(&z));
        assert_eq!(bs, dec_bs);
    }
}

#[test]
fn zero_matrix_rows_have_their_noise_as_phase() {
    let sk = SecretKey::new();
    let trlwe = TRLWE::new(&sk);
    let trgsw = TRGSW::new(&sk);
    let noise = matrix_noise();
    let zm = trgsw.zero_matrix(&noise);
    assert_eq!(zm.len(), 2 * L);
    for i in 0..2 * L {
        let z = CipherTRLWE(zm[i][0].clone(), zm[i][1].clone());
        assert_eq!(trlwe.decrypt_torus(&z), noise[i]);
    }
    assert_ne!(zm[0][0], zm[1][0]);
}

#[test]
fn test_zero_matrix_multiple() {
    let sk = SecretKey::new();

    let bs = random_bool_initialization(N_LV1);
    let offset = vec![2u32.pow(28); N_LV1];

    // Encrypt as TRLWE
    let trlwe = TRLWE::new(&sk);
    let c = trlwe.encrypt(&bs, &gaussian_ring(ALPHA_LV1));

    // Get matrix
    let trgsw = TRGSW::new(&sk);
    let matrix = trgsw.zero_matrix(&matrix_noise());

    // Calc external product
    let c_ = external_product(&matrix, &c);
    let ring = trlwe.decrypt_torus(&c_);

    let m = vsub(&ring, &offset);
    let mut counter = 0;
    for mi in m {
        counter += (mi <= 2u32.pow(31)) as usize;
    }
    assert!(counter == 0, "counter is {}", counter);
}

#[test]
fn test_external_product() {
    let sk = SecretKey::new();

    let bs = random_bool_initialization(N_LV1);

    let trlwe = TRLWE::new(&sk);
    let c = trlwe.encrypt(&bs, &gaussian_ring(ALPHA_LV1));

    let trgsw = TRGSW::new(&sk);
    let matrix = trgsw.coefficient(1, &matrix_noise());

    let c_ = external_product(&matrix, &c);
    let dec_bs = trlwe.decrypt(&c_);

    let mut counter = 0;
    for i in 0..N_LV1 {
        counter += (bs[i] != dec_bs[i]) as usize;
    }

    assert!(counter == 0, "counter is {}", counter);
}

#[test]
fn external_product_with_zero_gadget_and_no_noise_is_zero() {
    let m = uninitialized_trgsw_matrix();
    assert_eq!(m.len(), 2 * L);
    let c = CipherTRLWE(vec![0x1234_5678; N_LV1], vec![0x8765_4321; N_LV1]);
    let r = external_product(&m, &c);
    assert!(r.0.iter().all(|&x| x == 0));
    assert!(r.1.iter().all(|&x| x == 0));
}

#[test]
fn test_cmux() {
    let sk = SecretKey::new();
    let trlwe = TRLWE::new(&sk);

    let bs1 = random_bool_initialization(N_LV1);
    let bs0 = random_bool_initialization(N_LV1);
    let c0 = trlwe.encrypt(&bs0, &gaussian_ring(ALPHA_LV1));
    let c1 = trlwe.encrypt(&bs1, &gaussian_ring(ALPHA_LV1));

    let trgsw = TRGSW::new(&sk);

    let c = trgsw.cmux(true, &c0, &c1, &matrix_noise());
    let dec_bs = trlwe.decrypt(&c);
    let mut counter1 = 0;
    for i in 0..N_LV1 {
        counter1 += (bs0[i] != dec_bs[i]) as usize;
    }

    let c = trgsw.cmux(false, &c0, &c1, &matrix_noise());
    let dec_bs = trlwe.decrypt(&c);
    let mut counter2 = 0;
    for i in 0..N_LV1 {
        counter2 += (bs1[i] != dec_bs[i]) as usize;
    }
    assert!(
        (counter1 == 0) && (counter2 == 0),
        "counter is ... true: {}, false: {}",
        counter1,
        counter2
    );
}

#[test]
fn cmux_with_coefficient_bool_selects() {
    let sk = SecretKey::new();
    let trlwe = TRLWE::new(&sk);
    let trgsw = TRGSW::new(&sk);
    let bs0 = random_bool_initialization(N_LV1);
    let bs1 = random_bool_initialization(N_LV1);
    let c0 = trlwe.encrypt(&bs0, &gaussian_ring(ALPHA_LV1));
    let c1 = trlwe.encrypt(&bs1, &gaussian_ring(ALPHA_LV1));
    let m_true = trgsw.coefficient_bool(true, &matrix_noise());
    let m_false = trgsw.coefficient_bool(false, &matrix_noise());
    assert_eq!(trlwe.decrypt(&cmux(&m_true, &c0, &c1)), bs0);
    assert_eq!(trlwe.decrypt(&cmux(&m_false, &c0, &c1)), bs1);
}

#[test]
fn coefficient_matrix_of_two_doubles_the_plaintext() {
    let sk = SecretKey::new();
    let trlwe = TRLWE::new(&sk);
    let trgsw = TRGSW::new(&sk);
    let mut mu: Vec<i8> = vec![0; N_LV1];
    mu[0] = 2;
    let m = trgsw.coefficient_matrix(&mu, &matrix_noise());
    let msg: Vec<Torus> = vec![1 << 27; N_LV1];
    let c = trlwe.encrypt_torus(&msg, &gaussian_ring(ALPHA_LV1));
    let phase = trlwe.decrypt_torus(&external_product(&m, &c));
    for x in phase {
        let d = x.wrapping_sub(1 << 28) as i32;
        assert!(d.abs() < 1 << 24);
    }
}
