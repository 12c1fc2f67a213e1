use kfhe::bootstrapping::{blind_rotate, bootstrapping_key, gate_bootstrapping, rotate_trlwe_cipher, BootstrappingKey};
use kfhe::homnand::homnand;
use kfhe::key::SecretKey;
use kfhe::key_switching::{identity_key_switching, KeySwitchingKey};
use kfhe::params::{K, L, N_LV0, N_LV1, T};
use kfhe::sampling::random_bool_initialization;
use kfhe::tlwe::{CipherTLWELv0, TLWELv1, TLWE};
use kfhe::trgsw::uninitialized_trgsw_matrix;
use kfhe::trlwe::{sample_extract_index, TRLWE};
use kfhe::util::Torus;
use rand_distr::{Distribution, Normal};

const ALPHA_LV0: f64 = 3.0517578125e-05;
const ALPHA_LV1: f64 = 2.98023223876953125e-08;

fn to_torus(x: f64) -> u32 {
    let y = x - (x + 0.5).floor();
    ((if y < 0. { y + 1. } else { y }) * 2f64.powi(32)) as u32
}

fn gaussian(alpha: f64) -> u32 {
    let normal = Normal::new(0., alpha).unwrap();
    to_torus(normal.sample(&mut rand::thread_rng()))
}

fn gaussian_ring(alpha: f64) -> Vec<u32> {
    let normal = Normal::new(0., alpha).unwrap();
    let mut rng = rand::thread_rng();
    (0..N_LV1).map(|_| to_torus(normal.sample(&mut rng))).collect()
}

fn matrix_noise() -> Vec<Vec<u32>> {
    (0..2 * L).map(|_| gaussian_ring(ALPHA_LV1)).collect()
}

fn bk_noise() -> Vec<Vec<Vec<u32>>> {
    (0..N_LV0).map(|_| matrix_noise()).collect()
}

fn ksk_noise() -> Vec<u32> {
    (0..(K - 1) * T * N_LV1).map(|_| gaussian(ALPHA_LV0)).collect()
}

/// Whether an odd number of key-switching entries is subtracted for the
/// level-1 mask `a`: each such entry carries the `-1/2` offset of its message.
fn odd_number_of_ks_terms(a: &Vec<Torus>) -> bool {
    let mut fired = 0usize;
    for i in 0..N_LV1 {
        let ai = a[i].wrapping_add(1 << 15);
        for j in 0..T {
            let k = (ai >> (32 - 2 * (j + 1))) % 4;
            if k != 0 {
                fired += 1;
            }
        }
    }
    fired % 2 == 1
}

#[test]
fn test_trlwe_rotate() {
    let sk = SecretKey::new();
    let trlwe = TRLWE::new(&sk);
    let tlwe1 = TLWELv1::new(&sk);
    let tv = trlwe.test_vector(&gaussian_ring(ALPHA_LV1));

    // k is random in [0, 2*N)
    let uni = rand_distr::Uniform::new_inclusive(0, 2 * N_LV1 - 1);
    let mut rng = rand::thread_rng();
    let k = uni.sample(&mut rng);

    let rot = rotate_trlwe_cipher(&tv, k);
    for i in 0..N_LV1 {
        let q = (k + i) / N_LV1;
        let r = (k + i) % N_LV1;
        let mut rot_c = sample_extract_index(&rot, r);
        for _ in 0..q {
            rot_c = rot_c.neg();
        }
        let rot_b = tlwe1.decrypt(&rot_c);
        let c = sample_extract_index(&tv, i);
        let b = tlwe1.decrypt(&c);
        assert_eq!(b, rot_b);
    }
}

#[test]
fn test_blind_rotate() {
    let sk = SecretKey::new();
    let tlwe1 = TLWELv1::new(&sk);
    let c0 = CipherTLWELv0::clearly_true();
    let trlwe = TRLWE::new(&sk);
    let tv = trlwe.test_vector(&gaussian_ring(ALPHA_LV1));
    let bk = bootstrapping_key(&sk, &bk_noise());

    let rot_c = blind_rotate(&c0, &tv, &bk);
    let c1 = sample_extract_index(&rot_c, 0);
    let b1 = tlwe1.decrypt(&c1);

    assert_eq!(true, b1);
}

#[test]
fn test_blind_rotate_2() {
    let sk = SecretKey::new();
    let tlwe1 = TLWELv1::new(&sk);
    let c0 = CipherTLWELv0::clearly_true();
    let trlwe = TRLWE::new(&sk);
    let tv = trlwe.test_vector(&gaussian_ring(ALPHA_LV1));
    let bk = bootstrapping_key(&sk, &bk_noise());

    let rot_c = blind_rotate(&c0.neg(), &tv, &bk);
    let c1 = sample_extract_index(&rot_c, 0);
    let b1 = tlwe1.decrypt(&c1);

    assert_eq!(false, b1);
}

#[test]
fn test_identity_key_switching() {
    let bs = random_bool_initialization(16);
    let mut count = 0;

    let sk = SecretKey::new();
    let tlwe0 = TLWE::new(&sk);
    let tlwe1 = TLWELv1::new(&sk);
    let ksk = KeySwitchingKey::new(&sk, &ksk_noise());
    for b in bs {
        let c1 = tlwe1.encrypt(b, gaussian(ALPHA_LV1));
        let c0 = identity_key_switching(&c1, &ksk);
        let msg = tlwe0.decrypt(&c0);

        let expected = b ^ odd_number_of_ks_terms(&c1.0);
        count += (expected != msg) as usize;
    }

    assert!(count == 0, "count: {}", count);
}

#[test]
fn key_switching_key_layout() {
    let sk = SecretKey::new();
    let tlwe0 = TLWE::new(&sk);
    let noise = vec![0u32; (K - 1) * T * N_LV1];
    let ksk = KeySwitchingKey::new(&sk, &noise);
    assert_eq!(ksk.0.len(), (K - 1) * T * N_LV1);
    for (i, j, k) in [(0, 0, 1), (5, 3, 2), (N_LV1 - 1, T - 1, K - 1), (17, 0, 3)] {
        let c = ksk.access(i, j, k);
        let w = 1u32 << (32 - 2 * (j + 1));
        let expected = (k as u32 * sk.lv1[i]).wrapping_mul(w).wrapping_sub(0x8000_0000);
        assert_eq!(tlwe0.decrypt_torus(c), expected);
    }
}

#[test]
fn key_switching_of_a_noiseless_mask_free_ciphertext() {
    // with a = 0 every digit is that of the offset 2^15 alone: zero at every
    // position, so nothing is subtracted and the result is (0, b)
    let sk = SecretKey::new();
    let tlwe0 = TLWE::new(&sk);
    let ksk = KeySwitchingKey::new(&sk, &ksk_noise());
    let c1 = kfhe::tlwe::CipherTLWELv1(vec![0; N_LV1], 0x2000_0000);
    let c0 = identity_key_switching(&c1, &ksk);
    assert!(c0.0.iter().all(|&x| x == 0));
    assert_eq!(c0.1, 0x2000_0000);
    assert_eq!(tlwe0.decrypt(&c0), true);
}

#[test]
fn gate_bootstrapping_refreshes_a_bit() {
    let sk = SecretKey::new();
    let tlwe0 = TLWE::new(&sk);
    let tlwe1 = TLWELv1::new(&sk);
    let tv = TRLWE::new(&sk).test_vector(&gaussian_ring(ALPHA_LV1));
    let bk = bootstrapping_key(&sk, &bk_noise());
    let b = random_bool_initialization(1)[0];
    let c = tlwe0.encrypt(b, gaussian(ALPHA_LV0));
    let c1 = gate_bootstrapping(&c, &bk, &tv);
    assert_eq!(tlwe1.decrypt(&c1), b);
}

fn nand_case(x: bool, y: bool) {
    let sk = SecretKey::new();
    let tlwe0 = TLWE::new(&sk);
    let tlwe1 = TLWELv1::new(&sk);
    let tv = TRLWE::new(&sk).test_vector(&gaussian_ring(ALPHA_LV1));
    let bk = bootstrapping_key(&sk, &bk_noise());
    let ksk = KeySwitchingKey::new(&sk, &ksk_noise());
    let cx = tlwe0.encrypt(x, gaussian(ALPHA_LV0));
    let cy = tlwe0.encrypt(y, gaussian(ALPHA_LV0));

    // level 1, straight out of the bootstrapping
    let input = CipherTLWELv0::clearly_true().sub(&cx.add(&cy));
    let c1 = gate_bootstrapping(&input, &bk, &tv);
    assert_eq!(tlwe1.decrypt(&c1), !(x && y));

    // level 0, after key switching
    let c = identity_key_switching(&c1, &ksk);
    let expected = !(x && y) ^ odd_number_of_ks_terms(&c1.0);
    assert_eq!(tlwe0.decrypt(&c), expected);
}

#[test]
fn homnand_on_noiseless_inputs() {
    let sk = SecretKey::new();
    let tlwe0 = TLWE::new(&sk);
    let tv = TRLWE::new(&sk).test_vector(&gaussian_ring(ALPHA_LV1));
    let bk = bootstrapping_key(&sk, &bk_noise());
    let ksk = KeySwitchingKey::new(&sk, &ksk_noise());
    let t = CipherTLWELv0::clearly_true();
    let f = t.neg();
    for (cx, cy, x, y) in [(&t, &f, true, false), (&f, &t, false, true), (&t, &t, true, true), (&f, &f, false, false)] {
        let input = CipherTLWELv0::clearly_true().sub(&cx.add(cy));
        let c1 = gate_bootstrapping(&input, &bk, &tv);
        let c = homnand(cx, cy, &bk, &tv, &ksk);
        assert_eq!(c.0, identity_key_switching(&c1, &ksk).0);
        let expected = !(x && y) ^ odd_number_of_ks_terms(&c1.0);
        assert_eq!(tlwe0.decrypt(&c), expected);
    }
}

#[test]
fn nand_true_true() {
    nand_case(true, true);
}

#[test]
fn nand_true_false() {
    nand_case(true, false);
}

#[test]
fn nand_false_true() {
    nand_case(false, true);
}

#[test]
fn nand_false_false() {
    nand_case(false, false);
}

#[test]
fn bootstrapping_key_get_and_set() {
    let mut bk = BootstrappingKey(vec![uninitialized_trgsw_matrix(); 2]);
    let mut m = uninitialized_trgsw_matrix();
    m[0][0][0] = 7;
    bk.set(1, m.clone());
    assert_eq!(bk.get(1), &m);
    assert_eq!(bk.get(0)[0][0][0], 0);
    assert_eq!(bk.get(0).len(), 2 * L);
}

/// Bootstraps and key-switches two fresh random bits under one set of keys:
/// level 1 must give the bit back; level 0 gives it back, flipped when an odd
/// number of key-switching entries was subtracted.
fn bootstrap_and_key_switch_two_bits() {
    let sk = SecretKey::new();
    let tlwe0 = TLWE::new(&sk);
    let tlwe1 = TLWELv1::new(&sk);
    let tv = TRLWE::new(&sk).test_vector(&gaussian_ring(ALPHA_LV1));
    let bk = bootstrapping_key(&sk, &bk_noise());
    let ksk = KeySwitchingKey::new(&sk, &ksk_noise());
    let mut count = 0;
    for b in random_bool_initialization(2) {
        let c = tlwe0.encrypt(b, gaussian(ALPHA_LV0));
        let c1 = gate_bootstrapping(&c, &bk, &tv);
        count += (tlwe1.decrypt(&c1) != b) as usize;
        let c0 = identity_key_switching(&c1, &ksk);
        let expected = b ^ odd_number_of_ks_terms(&c1.0);
        count += (tlwe0.decrypt(&c0) != expected) as usize;
    }
    assert!(count == 0, "count: {}", count);
}

#[test]
fn bootstrap_batch_bits_1_2() {
    bootstrap_and_key_switch_two_bits();
}

#[test]
fn bootstrap_batch_bits_3_4() {
    bootstrap_and_key_switch_two_bits();
}

#[test]
fn bootstrap_batch_bits_5_6() {
    bootstrap_and_key_switch_two_bits();
}

#[test]
fn bootstrap_batch_bits_7_8() {
    bootstrap_and_key_switch_two_bits();
}

#[test]
fn bootstrap_batch_bits_9_10() {
    bootstrap_and_key_switch_two_bits();
}

#[test]
fn bootstrap_batch_bits_11_12() {
    bootstrap_and_key_switch_two_bits();
}

#[test]
fn bootstrap_batch_bits_13_14() {
    bootstrap_and_key_switch_two_bits();
}

#[test]
fn bootstrap_batch_bits_15_16() {
    bootstrap_and_key_switch_two_bits();
}
