use kfhe::key::SecretKey;
use kfhe::ops::dot;
use kfhe::params::{L, N_LV0, N_LV1};
use kfhe::sampling::{ndim_bin_uniform, ndim_torus_uniform, random_bool_initialization};
use kfhe::tlwe::{tlwe_nand, CipherTLWELv0, TLWELv1, TLWE};
use kfhe::trlwe::{sample_extract_index, CipherTRLWE, TRLWE};
use kfhe::util::Torus;
use rand_distr::Uniform;
use rand_distr::{Distribution, Normal};

const ALPHA_LV0: f64 = 3.0517578125e-05;
const ALPHA_LV1: f64 = 2.98023223876953125e-08;

fn to_torus(x: f64) -> u32 {
    let y = x - (x + 0.5).floor();
    ((if y < 0. { y + 1. } else { y }) * 2f64.powi(32)) as u32
}

fn gaussian(alpha: f64) -> u32 {
    let normal = Normal::new(0., alpha).unwrap();
    to_torus(normal.sample(&mut rand::thread_rng()))
}

fn gaussian_ring(alpha: f64) -> Vec<u32> {
    let normal = Normal::new(0., alpha).unwrap();
    let mut rng = rand::thread_rng();
    (0..N_LV1).map(|_| to_torus(normal.sample(&mut rng))).collect()
}

#[allow(dead_code)]
fn matrix_noise() -> Vec<Vec<u32>> {
    (0..2 * L).map(|_| gaussian_ring(ALPHA_LV1)).collect()
}

fn run_tlwe(sk: &SecretKey, msg: bool) -> bool {
    let tlwe = TLWE::new(sk);
    let c = tlwe.encrypt(msg, gaussian(ALPHA_LV0));
    let m = tlwe.decrypt_torus(&c);
    m.wrapping_sub(2u32.pow(28)) < 2u32.pow(31)
}

#[test]
fn test_tlwe_enc_and_dec() {
    const T: usize = 1000;
    let bs = random_bool_initialization(T);
    let sk = SecretKey::new();
    for b in bs {
        assert_eq!(b, run_tlwe(&sk, b));
    }
}

#[test]
fn tlwe_encrypt_true_and_false() {
    let sk = SecretKey::new();
    let tlwe = TLWE::new(&sk);
    let ct = tlwe.encrypt(true, gaussian(ALPHA_LV0));
    let cf = tlwe.encrypt(false, gaussian(ALPHA_LV0));
    assert_eq!(tlwe.decrypt(&ct), true);
    assert_eq!(tlwe.decrypt(&cf), false);
}

#[test]
fn tlwe_phase_is_message_plus_noise() {
    let sk = SecretKey::new();
    let tlwe = TLWE::new(&sk);
    let c = tlwe.encrypt_torus(12345, 7);
    assert_eq!(c.0.len(), N_LV0);
    assert_eq!(tlwe.decrypt_torus(&c), 12352);
    let c = tlwe.encrypt(false, 0);
    assert_eq!(tlwe.decrypt_torus(&c), 0xE000_0000);
}

#[test]
fn tlwe_lv1_round_trip() {
    let sk = SecretKey::new();
    let tlwe1 = TLWELv1::new(&sk);
    for b in [true, false, true, true, false] {
        let c = tlwe1.encrypt(b, gaussian(ALPHA_LV1));
        assert_eq!(c.0.len(), N_LV1);
        assert_eq!(tlwe1.decrypt(&c), b);
    }
    let c = tlwe1.encrypt_torus(99, 1);
    assert_eq!(tlwe1.decrypt_torus(&c), 100);
    assert_eq!(tlwe1.decrypt_torus(&c.neg()), 0u32.wrapping_sub(100));
}

#[test]
fn tlwe_ciphertext_arithmetic() {
    let sk = SecretKey::new();
    let tlwe = TLWE::new(&sk);
    let c1 = tlwe.encrypt_torus(10, 0);
    let c2 = tlwe.encrypt_torus(3, 0);
    assert_eq!(tlwe.decrypt_torus(&c1.add(&c2)), 13);
    assert_eq!(tlwe.decrypt_torus(&c1.sub(&c2)), 7);
    assert_eq!(tlwe.decrypt_torus(&c2.sub(&c1)), 0u32.wrapping_sub(7));
    assert_eq!(tlwe.decrypt_torus(&c1.neg()), 0u32.wrapping_sub(10));
}

#[test]
fn clearly_true_and_empty() {
    let sk = SecretKey::new();
    let tlwe = TLWE::new(&sk);
    let t = CipherTLWELv0::clearly_true();
    assert_eq!(t.1, 0x2000_0000);
    assert!(t.0.iter().all(|&x| x == 0));
    assert_eq!(tlwe.decrypt(&t), true);
    assert_eq!(tlwe.decrypt(&t.neg()), false);
    let e = CipherTLWELv0::empty();
    assert_eq!(e.1, 0);
    assert_eq!(e.0.len(), N_LV0);
    let (a, b) = t.describe();
    assert_eq!(a.len(), N_LV0);
    assert_eq!(b, 0x2000_0000);
}

#[test]
fn tlwe_nand_truth_table() {
    for (x, y) in [(true, true), (true, false), (false, true), (false, false)] {
        let r = tlwe_nand(x, y, gaussian(ALPHA_LV0), gaussian(ALPHA_LV0));
        assert_eq!(r, !(x && y));
    }
    assert_eq!(tlwe_nand(true, true, 0, 0), false);
    assert_eq!(tlwe_nand(false, false, 0, 0), true);
}

#[test]
fn secret_key_is_binary() {
    let sk = SecretKey::new();
    assert_eq!(sk.lv0.len(), N_LV0);
    assert_eq!(sk.lv1.len(), N_LV1);
    assert!(sk.lv0.iter().all(|&x| x <= 1));
    assert!(sk.lv1.iter().all(|&x| x <= 1));
    let bits = ndim_bin_uniform(64);
    assert!(bits.iter().all(|&x| x <= 1));
    assert_eq!(ndim_torus_uniform(17).len(), 17);
}

#[test]
fn test_trlwe_enc_and_dec() {
    let bs = random_bool_initialization(N_LV1);
    let sk = SecretKey::new();
    let trlwe = TRLWE::new(&sk);
    let c = trlwe.encrypt(&bs, &gaussian_ring(ALPHA_LV1));
    assert_eq!(bs, trlwe.decrypt(&c));
}

#[test]
fn trlwe_phase_is_message_plus_noise() {
    let sk = SecretKey::new();
    let trlwe = TRLWE::new(&sk);
    assert_eq!(trlwe.get_secret(), sk.lv1);
    let msg: Vec<Torus> = (0..N_LV1 as u32).collect();
    let e: Vec<Torus> = vec![1; N_LV1];
    let c = trlwe.encrypt_torus(&msg, &e);
    let m = trlwe.decrypt_torus(&c);
    for i in 0..N_LV1 {
        assert_eq!(m[i], i as u32 + 1);
    }
    let sum = c.add(&c);
    let m2 = trlwe.decrypt_torus(&sum);
    assert_eq!(m2[5], 12);
    let diff = sum.sub(&c);
    assert_eq!(trlwe.decrypt_torus(&diff), m);
    let (a, b) = c.describe();
    assert_eq!(a.len(), N_LV1);
    assert_eq!(b.len(), N_LV1);
}

#[test]
fn test_vector_decrypts_to_all_true() {
    let sk = SecretKey::new();
    let trlwe = TRLWE::new(&sk);
    let tv = trlwe.test_vector(&gaussian_ring(ALPHA_LV1));
    assert!(trlwe.decrypt(&tv).iter().all(|&b| b));
}

fn decrypt_as_tlwe_lv1(ext_a: &Vec<Torus>, ext_b: Torus, s: &Vec<Torus>) -> bool {
    let m = ext_b.wrapping_sub(dot(ext_a, s)).wrapping_sub(2u32.pow(28));
    m < 2u32.pow(31)
}

#[test]
fn test_sample_extract_index() {
    let sk = SecretKey::new();

    const LOOP: usize = 64;

    let uni = Uniform::new_inclusive(0, N_LV1 - 1);
    let mut rng = rand::thread_rng();
    let mut indecies = [0; LOOP];
    indecies[0] = 0;
    for i in 1..LOOP {
        indecies[i] = uni.sample(&mut rng);
    }

    let mut counter = 0;
    loop {
        if counter >= LOOP {
            break;
        }

        let index = indecies[counter];
        let bs = random_bool_initialization(N_LV1);

        // Encrypt as TRLWE
        let trlwe = TRLWE::new(&sk);
        let c = trlwe.encrypt(&bs, &gaussian_ring(ALPHA_LV1));

        // Sample Extract Index
        let (ext_a, ext_b) = sample_extract_index(&c, index).describe();

        let msg = decrypt_as_tlwe_lv1(&ext_a, ext_b, &trlwe.get_secret());
        assert_eq!(bs[index], msg);

        counter += 1;
    }
}

#[test]
fn sample_extraction_keeps_the_coefficient_exactly() {
    let sk = SecretKey::new();
    let trlwe = TRLWE::new(&sk);
    let tlwe1 = TLWELv1::new(&sk);
    let msg: Vec<Torus> = (0..N_LV1 as u32).map(|i| i.wrapping_mul(0x9E37_79B9)).collect();
    let e: Vec<Torus> = vec![0; N_LV1];
    let c: CipherTRLWE = trlwe.encrypt_torus(&msg, &e);
    for k in [0, 1, 2, 511, 1000, N_LV1 - 1] {
        let ext = sample_extract_index(&c, k);
        assert_eq!(tlwe1.decrypt_torus(&ext), msg[k]);
    }
}
