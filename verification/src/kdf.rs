//! Key derivation with a closed set of labels.
//!
//! Every derivation names one [`KdfLabel`]; raw string labels are not part
//! of the API, so two subsystems can never collide on ad-hoc label text.
//! Derivation is one HKDF-expand step over HMAC-SHA-256.

use vstd::prelude::*;
use hmac::Mac;

verus! {

/// What HMAC-SHA-256 returns: a function of key and message alone.
pub uninterp spec fn hmac_sha256_of(key: Seq<u8>, msg: Seq<u8>) -> Seq<u8>;

/// Relies on `hmac::Hmac<sha2::Sha256>`: the tag is 32 bytes and depends on
/// the key and the message alone; HMAC accepts keys of any length.
#[verifier::external_body]
pub fn hmac_sha256(key: &Vec<u8>, msg: &Vec<u8>) -> (r: Vec<u8>)
    ensures
        r@ == hmac_sha256_of(key@, msg@),
        r@.len() == 32,
{
    let mut mac = hmac::Hmac::<sha2::Sha256>::new_from_slice(key).expect(
        "HMAC accepts any key length",
    );
    mac.update(msg);
    mac.finalize().into_bytes().to_vec()
}

/// The closed set of derivation labels; every HKDF call names one.
#[derive(Clone, Copy, PartialEq, Eq, Structural, Debug)]
pub enum KdfLabel {
    Handshake,
    TxInit,
    TxResp,
    RxInit,
    RxResp,
    Rekey,
    CoverTraffic,
    MixHop,
}

impl KdfLabel {
    /// Domain-separation byte of the label.
    pub open spec fn spec_byte(self) -> u8 {
        match self {
            KdfLabel::Handshake => 1,
            KdfLabel::TxInit => 2,
            KdfLabel::TxResp => 3,
            KdfLabel::RxInit => 4,
            KdfLabel::RxResp => 5,
            KdfLabel::Rekey => 6,
            KdfLabel::CoverTraffic => 7,
            KdfLabel::MixHop => 8,
        }
    }

    pub fn byte(&self) -> (r: u8)
        ensures
            r == self.spec_byte(),
    {
        match self {
            KdfLabel::Handshake => 1,
            KdfLabel::TxInit => 2,
            KdfLabel::TxResp => 3,
            KdfLabel::RxInit => 4,
            KdfLabel::RxResp => 5,
            KdfLabel::Rekey => 6,
            KdfLabel::CoverTraffic => 7,
            KdfLabel::MixHop => 8,
        }
    }
}

/// One labelled derivation step: HMAC of the label byte and the block
/// counter `1`, keyed by the input key material.
pub open spec fn spec_hkdf_label(key: Seq<u8>, label: KdfLabel) -> Seq<u8> {
    hmac_sha256_of(key, seq![label.spec_byte(), 1u8])
}

/// Derive 32 bytes from `key` under `label`.
pub fn hkdf_expand_label(key: &Vec<u8>, label: KdfLabel) -> (r: Vec<u8>)
    ensures
        r@ == spec_hkdf_label(key@, label),
        r@.len() == 32,
{
    let mut info: Vec<u8> = Vec::new();
    info.push(label.byte());
    info.push(1);
    proof {
        assert(info@ =~= seq![label.spec_byte(), 1u8]);
    }
    hmac_sha256(key, &info)
}

} // verus!
