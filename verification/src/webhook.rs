//! Decisions of the webhook alert route: scheme acceptance, request
//! signing and retry backoff. The socket work itself stays outside; this
//! module fixes exactly what is sent and when a retry happens.

use vstd::prelude::*;
use vstd::string::StringExecFns;
use vstd::arithmetic::power2::{pow2, lemma2_to64};
use base64::Engine;
use crate::kdf::{hmac_sha256, hmac_sha256_of};

verus! {

/// What base64 standard encoding returns for a byte string.
pub uninterp spec fn b64_of(bytes: Seq<u8>) -> Seq<char>;

/// Relies on `base64::engine::general_purpose::STANDARD`: the encoding is
/// a function of the bytes alone.
#[verifier::external_body]
pub fn base64_encode(bytes: &Vec<u8>) -> (r: String)
    ensures
        r@ == b64_of(bytes@),
{
    base64::engine::general_purpose::STANDARD.encode(bytes)
}

/// The signature header value for a webhook body under a shared secret:
/// `sha256=` followed by the base64 HMAC tag.
pub fn webhook_signature(secret: &Vec<u8>, body: &Vec<u8>) -> (r: String)
    ensures
        r@ == "sha256="@ + b64_of(hmac_sha256_of(secret@, body@)),
{
    let tag = hmac_sha256(secret, body);
    let encoded = base64_encode(&tag);
    let mut out = String::from_str("sha256=");
    out.append(encoded.as_str());
    out
}

/// What to do with a webhook URL of a given scheme.
#[derive(Clone, Copy, PartialEq, Eq, Structural, Debug)]
pub enum SchemeDecision {
    /// Plain HTTP: send the request.
    SendHttp,
    /// HTTPS is refused on purpose: terminate TLS in a local proxy.
    RejectHttps,
    /// Anything else is not a webhook endpoint.
    RejectUnsupported,
}

/// Classify a URL scheme: only plain `http` is sent, `https` is refused on
/// purpose, anything else is unsupported.
pub fn classify_scheme(scheme: &String) -> (r: SchemeDecision)
    ensures
        r == SchemeDecision::SendHttp <==> scheme@ == "http"@,
        r == SchemeDecision::RejectHttps <==> scheme@ == "https"@,
{
    let http = String::from_str("http");
    let https = String::from_str("https");
    proof {
        reveal_strlit("http");
        reveal_strlit("https");
        assert("http"@.len() == 4);
        assert("https"@.len() == 5);
        assert("http"@ != "https"@);
    }
    if scheme.eq(&http) {
        SchemeDecision::SendHttp
    } else if scheme.eq(&https) {
        SchemeDecision::RejectHttps
    } else {
        SchemeDecision::RejectUnsupported
    }
}

/// The backoff factor before retry `attempt`: doubling, capped at eight
/// times the base delay.
pub open spec fn spec_backoff_factor(attempt: nat) -> nat {
    if attempt >= 3 {
        8
    } else {
        pow2(attempt)
    }
}

/// Milliseconds to wait before retry `attempt`, at a 200 ms base.
pub fn backoff_delay_ms(attempt: u32) -> (r: u64)
    ensures
        r == 200 * spec_backoff_factor(attempt as nat),
{
    proof {
        lemma2_to64();
    }
    if attempt == 0 {
        200
    } else if attempt == 1 {
        400
    } else if attempt == 2 {
        800
    } else {
        1600
    }
}

/// Whether a failed attempt gets another try: `retries` extra attempts
/// follow the first one.
pub fn should_retry(attempt: u32, retries: u32) -> (r: bool)
    ensures
        r == (attempt < retries),
{
    attempt < retries
}

} // verus!
