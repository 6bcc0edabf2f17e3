//! Authenticated encryption with the session nonce discipline.
//!
//! The cipher is ChaCha20-Poly1305 with a 96-bit nonce composed of a
//! direction bit, a 63-bit message counter and a 32-bit epoch. Encryption
//! under a counter that would wrap is refused; the session must rekey
//! first.

use vstd::prelude::*;
use chacha20poly1305::aead::{Aead, KeyInit, Payload};
use crate::frame::be64_bytes;
use crate::cell::be32_bytes;

verus! {

/// Largest allowed message counter: the counter field is 63 bits wide.
pub const NONCE_COUNTER_LIMIT: u64 = 0x7fffffffffffffff;

/// What ChaCha20-Poly1305 sealing returns: ciphertext plus tag, a function
/// of key, nonce, associated data and plaintext alone.
pub uninterp spec fn aead_seal_of(key: Seq<u8>, nonce: Seq<u8>, aad: Seq<u8>, pt: Seq<u8>) -> Seq<
    u8,
>;

/// What ChaCha20-Poly1305 opening returns: the plaintext when key, nonce,
/// associated data and ciphertext agree, nothing otherwise.
pub uninterp spec fn aead_open_of(key: Seq<u8>, nonce: Seq<u8>, aad: Seq<u8>, ct: Seq<u8>) -> Option<
    Seq<u8>,
>;

/// Relies on `chacha20poly1305::ChaCha20Poly1305::encrypt`: deterministic in
/// key, nonce, associated data and plaintext; appends a 16-byte tag; its
/// own `decrypt` inverts it. Plaintexts beyond the cipher's size bound are
/// excluded because `encrypt` refuses them.
#[verifier::external_body]
pub fn aead_seal(key: &Vec<u8>, nonce: &Vec<u8>, aad: &Vec<u8>, pt: &Vec<u8>) -> (r: Vec<u8>)
    requires
        key@.len() == 32,
        nonce@.len() == 12,
        pt@.len() < 0x3fffffff00,
    ensures
        r@ == aead_seal_of(key@, nonce@, aad@, pt@),
        r@.len() == pt@.len() + 16,
        aead_open_of(key@, nonce@, aad@, r@) == Some(pt@),
{
    let cipher = chacha20poly1305::ChaCha20Poly1305::new(
        chacha20poly1305::Key::from_slice(key),
    );
    cipher.encrypt(
        chacha20poly1305::Nonce::from_slice(nonce),
        Payload { msg: pt, aad },
    ).expect("plaintext within cipher bounds")
}

/// Relies on `chacha20poly1305::ChaCha20Poly1305::decrypt`: deterministic in
/// key, nonce, associated data and ciphertext; succeeds exactly when the
/// tag verifies.
#[verifier::external_body]
pub fn aead_open(key: &Vec<u8>, nonce: &Vec<u8>, aad: &Vec<u8>, ct: &Vec<u8>) -> (r: Option<
    Vec<u8>,
>)
    requires
        key@.len() == 32,
        nonce@.len() == 12,
    ensures
        r is Some <==> aead_open_of(key@, nonce@, aad@, ct@) is Some,
        r matches Some(p) ==> aead_open_of(key@, nonce@, aad@, ct@) == Some(p@),
{
    let cipher = chacha20poly1305::ChaCha20Poly1305::new(
        chacha20poly1305::Key::from_slice(key),
    );
    match cipher.decrypt(
        chacha20poly1305::Nonce::from_slice(nonce),
        Payload { msg: ct, aad },
    ) {
        Ok(p) => Some(p),
        Err(_) => None,
    }
}

/// The 12 nonce bytes meant by a direction, counter and epoch: the top bit
/// of the first eight (big-endian) bytes is the direction, the rest the
/// counter, followed by the epoch.
pub open spec fn spec_nonce_bytes(direction: bool, counter: u64, epoch: u32) -> Seq<u8>
    recommends
        counter <= NONCE_COUNTER_LIMIT,
{
    be64_bytes(if direction {
        (counter + 0x8000000000000000u64) as u64
    } else {
        counter
    }) + be32_bytes(epoch)
}

/// Equal nonces under the counter discipline come from the same direction
/// and the same counter: within one epoch and key, a fresh counter always
/// gives a fresh nonce, so a strictly monotonic counter never reuses one.
pub proof fn lemma_nonce_injective(d1: bool, c1: u64, d2: bool, c2: u64, epoch: u32)
    requires
        c1 <= NONCE_COUNTER_LIMIT,
        c2 <= NONCE_COUNTER_LIMIT,
        spec_nonce_bytes(d1, c1, epoch) == spec_nonce_bytes(d2, c2, epoch),
    ensures
        d1 == d2,
        c1 == c2,
{
    let w1: u64 = if d1 {
        (c1 + 0x8000000000000000u64) as u64
    } else {
        c1
    };
    let w2: u64 = if d2 {
        (c2 + 0x8000000000000000u64) as u64
    } else {
        c2
    };
    assert(be64_bytes(w1) =~= spec_nonce_bytes(d1, c1, epoch).take(8));
    assert(be64_bytes(w2) =~= spec_nonce_bytes(d2, c2, epoch).take(8));
    crate::frame::lemma_be64_round(w1);
    crate::frame::lemma_be64_round(w2);
}

/// Compose the 96-bit nonce from direction bit, counter and epoch.
pub fn nonce_bytes(direction: bool, counter: u64, epoch: u32) -> (r: Vec<u8>)
    requires
        counter <= NONCE_COUNTER_LIMIT,
    ensures
        r@ == spec_nonce_bytes(direction, counter, epoch),
        r@.len() == 12,
{
    let word: u64 = if direction {
        counter + 0x8000000000000000
    } else {
        counter
    };
    let mut out: Vec<u8> = Vec::new();
    out.push((word / 0x100000000000000) as u8);
    out.push(((word / 0x1000000000000) % 256) as u8);
    out.push(((word / 0x10000000000) % 256) as u8);
    out.push(((word / 0x100000000) % 256) as u8);
    out.push(((word / 0x1000000) % 256) as u8);
    out.push(((word / 0x10000) % 256) as u8);
    out.push(((word / 0x100) % 256) as u8);
    out.push((word % 256) as u8);
    out.push((epoch / 0x1000000) as u8);
    out.push(((epoch / 0x10000) % 256) as u8);
    out.push(((epoch / 0x100) % 256) as u8);
    out.push((epoch % 256) as u8);
    proof {
        assert(out@ =~= spec_nonce_bytes(direction, counter, epoch));
    }
    out
}

} // verus!
