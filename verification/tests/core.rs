//! Verifiable delay function, big-integer, mixing and erasure-coding tests.

use nyx::bignum::{big_add, big_eq, big_from_u64, big_mul};
use nyx::fec::{encode_parity, recover_cell, xor_bytes};
use nyx::mix::{node_weight, select_path, unwrap_layer, wrap_layers, MixNode, HOP_HEADER_LEN};
use nyx::vdf::{ell_big, eval, prove, prove_mont, verify};

#[test]
fn vdf_round_trip() {
    let p = big_from_u64(1009);
    let q = big_from_u64(1013);
    let n = big_mul(&p, &q);
    let x = big_from_u64(5);
    let t = 100;
    let (y, pi) = prove(&x, &n, t);
    assert!(verify(&x, &y, &pi, &n, t));
}

#[test]
fn mont_round_trip() {
    let p = big_from_u64(101);
    let q = big_from_u64(113);
    let n = big_mul(&p, &q);
    let x = big_from_u64(7);
    let t = 128u64;
    let (y, pi) = prove_mont(&x, &n, t);
    assert!(verify(&x, &y, &pi, &n, t));
}

#[test]
fn vdf_prove_variants_agree() {
    let n = big_mul(&big_from_u64(1009), &big_from_u64(1013));
    let x = big_from_u64(9);
    let (y1, pi1) = prove(&x, &n, 64);
    let (y2, pi2) = prove_mont(&x, &n, 64);
    assert!(big_eq(&y1, &y2));
    assert!(big_eq(&pi1, &pi2));
}

#[test]
fn vdf_rejects_wrong_output() {
    let n = big_mul(&big_from_u64(1009), &big_from_u64(1013));
    let x = big_from_u64(5);
    let (y, pi) = prove(&x, &n, 50);
    let bad_y = big_add(&y, &big_from_u64(1));
    assert!(!verify(&x, &bad_y, &pi, &n, 50));
}

#[test]
fn eval_small_chain() {
    // 2^(2^3) mod 1000003 = 256
    let x = big_from_u64(2);
    let n = big_from_u64(1000003);
    let y = eval(&x, &n, 3);
    assert!(big_eq(&y, &big_from_u64(256)));
}

#[test]
fn ell_is_2_pow_128_plus_51() {
    // l = 2^128 + 51: check via (l - 51) == 2^127 * 2
    let l = ell_big();
    let mut two_pow = big_from_u64(1);
    for _ in 0..128 {
        two_pow = big_mul(&two_pow, &big_from_u64(2));
    }
    assert!(big_eq(&l, &big_add(&two_pow, &big_from_u64(51))));
}

#[test]
fn fec_recovers_missing_cell() {
    let cells = vec![vec![1u8, 2, 3], vec![4u8, 5, 6], vec![7u8, 8, 9]];
    let parity = encode_parity(&cells, 3);
    let survivors = vec![vec![1u8, 2, 3], vec![7u8, 8, 9]];
    let recovered = recover_cell(&survivors, &parity, 3);
    assert_eq!(recovered, vec![4u8, 5, 6]);
}

#[test]
fn fec_xor_is_involutive() {
    let a = vec![0xAAu8, 0x55, 0xFF, 0x00];
    let b = vec![0x0Fu8, 0xF0, 0x12, 0x34];
    let x = xor_bytes(&a, &b);
    assert_eq!(xor_bytes(&x, &b), a);
}

#[test]
fn path_selection_is_valid() {
    let mut directory = Vec::new();
    for i in 0..5u64 {
        directory.push(MixNode {
            node_id: i,
            pubkey: vec![0u8; 32],
            load: i,
            reputation: 100 + i,
        });
    }
    let path = select_path(&directory, 3);
    assert_eq!(path.len(), 3);
    for &i in &path {
        assert!(i < directory.len());
    }
    for a in 0..path.len() {
        for b in (a + 1)..path.len() {
            assert_ne!(path[a], path[b]);
        }
    }
}

#[test]
fn node_weight_favours_low_load() {
    assert!(node_weight(0, 100) > node_weight(9, 100));
    assert_eq!(node_weight(0, 100), 100_000);
    assert_eq!(node_weight(9, 100), 10_000);
}

#[test]
fn layered_wrap_grows_by_tag_per_layer() {
    let keys = vec![vec![1u8; 32], vec![2u8; 32]];
    let headers = vec![vec![9u8; 48], vec![8u8; 48]];
    let payload = vec![5u8; 100];
    let onion = wrap_layers(&keys, &headers, &payload);
    // each layer adds its header and a 16-byte tag
    assert_eq!(onion.len(), 100 + 48 + 16 + 48 + 16);
}

#[test]
fn onion_wraps_and_unwraps_per_hop() {
    let keys = vec![vec![1u8; 32], vec![2u8; 32]];
    let headers = vec![vec![9u8; HOP_HEADER_LEN], vec![8u8; HOP_HEADER_LEN]];
    let payload = vec![5u8; 64];
    let onion = wrap_layers(&keys, &headers, &payload);
    let (h1, inner) = unwrap_layer(&keys[0], &onion).expect("outer layer");
    assert_eq!(h1, headers[0]);
    let (h2, plain) = unwrap_layer(&keys[1], &inner).expect("inner layer");
    assert_eq!(h2, headers[1]);
    assert_eq!(plain, payload);
    // the wrong key cannot strip a layer
    assert!(unwrap_layer(&vec![3u8; 32], &onion).is_err());
}

#[test]
fn vdf_zero_difficulty_round_trip() {
    // at zero difficulty the result is the reduced input, so even an
    // unreduced x verifies
    let n = big_from_u64(5);
    let x = big_from_u64(7);
    let (y, pi) = prove(&x, &n, 0);
    assert!(big_eq(&y, &big_from_u64(2)));
    assert!(verify(&x, &y, &pi, &n, 0));
}
