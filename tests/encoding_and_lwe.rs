use decryption_proof::encoding::{closest_representable, decode, encode, DELTA, MESSAGE_MODULUS};
use decryption_proof::host::{check_equivalence, cleartext_multiplication_result, decrypt_and_decode};
use decryption_proof::lwe::{
    decrypt_lwe_ciphertext, encrypt_lwe_ciphertext_with, lwe_ciphertext_cleartext_mul, LweCiphertext,
    LweSecretKey,
};

fn key(bits: &[u64]) -> LweSecretKey {
    LweSecretKey { data: bits.to_vec() }
}

#[test]
fn delta_leaves_one_padding_bit() {
    assert_eq!(DELTA, (1u64 << 63) / MESSAGE_MODULUS);
    assert_eq!(encode(3), 3 << 59);
    assert_eq!(encode(31), 31 << 59);
}

#[test]
fn closest_representable_rounds_to_five_bits() {
    assert_eq!(closest_representable(0), 0);
    assert_eq!(closest_representable((1 << 58) - 1), 0);
    assert_eq!(closest_representable(1 << 58), 1 << 59);
    assert_eq!(closest_representable((6 << 59) + 12345), 6 << 59);
    assert_eq!(closest_representable((6 << 59) - 12345), 6 << 59);
    assert_eq!(closest_representable(u64::MAX), 0);
}

#[test]
fn decode_recovers_noisy_messages() {
    assert_eq!(decode(encode(6)), 6);
    assert_eq!(decode(encode(6) + (1 << 57)), 6);
    assert_eq!(decode(encode(6) - (1 << 57)), 6);
    assert_eq!(decode(encode(0).wrapping_sub(1000)), 0);
    assert_eq!(decode(encode(31) + (1 << 58)), 0);
}

#[test]
fn decrypt_subtracts_mask_product_from_body() {
    let sk = key(&[1, 0, 1]);
    let ct = LweCiphertext { data: vec![10, 20, 30, 100] };
    assert_eq!(decrypt_lwe_ciphertext(&sk, &ct), 60);
    let wrapped = LweCiphertext { data: vec![5, 0, 0, 1] };
    assert_eq!(decrypt_lwe_ciphertext(&key(&[1, 1, 1]), &wrapped), 1u64.wrapping_sub(5));
}

#[test]
fn encryption_with_given_randomness_decrypts_to_plaintext_plus_noise() {
    let sk = key(&[1, 0, 1, 1]);
    let mask = vec![u64::MAX, 7, 1 << 63, 12345];
    let ct = encrypt_lwe_ciphertext_with(&sk, mask.clone(), 99, encode(3));
    assert_eq!(&ct.data[..4], &mask[..]);
    assert_eq!(ct.data.len(), 5);
    assert_eq!(decrypt_lwe_ciphertext(&sk, &ct), encode(3) + 99);
    assert_eq!(decrypt_and_decode(&sk, &ct), 3);
}

#[test]
fn cleartext_multiplication_scales_every_coefficient() {
    let input = LweCiphertext { data: vec![1, u64::MAX, 3 << 62] };
    let mut output = LweCiphertext::new(0, 3);
    lwe_ciphertext_cleartext_mul(&mut output, &input, 2);
    assert_eq!(output.data, vec![2, u64::MAX - 1, 1 << 63]);
}

#[test]
fn cleartext_path_doubles_three_to_six() {
    let sk = key(&[1, 1, 0, 1, 0, 1]);
    let mask = vec![0x1234_5678_9abc_def0, 42, u64::MAX - 3, 1 << 40, 77, 5];
    let noise = 0u64.wrapping_sub(1 << 50);
    let ct = encrypt_lwe_ciphertext_with(&sk, mask, noise, encode(3));
    assert_eq!(cleartext_multiplication_result(&sk, &ct, 2), 6);
}

#[test]
fn equivalence_check_compares_both_paths() {
    let small = key(&[1, 0, 1]);
    let large = key(&[0, 1, 1, 1, 0]);
    let source = encrypt_lwe_ciphertext_with(&small, vec![9, 8, 7], 1 << 45, encode(3));
    let pbs_six = encrypt_lwe_ciphertext_with(&large, vec![1, 2, 3, 4, 5], 1 << 44, encode(6));
    assert_eq!(check_equivalence(&small, &source, &large, &pbs_six), Ok(6));
    let pbs_seven = encrypt_lwe_ciphertext_with(&large, vec![1, 2, 3, 4, 5], 0, encode(7));
    let err = check_equivalence(&small, &source, &large, &pbs_seven).unwrap_err();
    assert_eq!((err.cleartext, err.bootstrapped), (6, 7));
}
