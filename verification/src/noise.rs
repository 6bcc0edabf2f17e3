//! Mutually authenticating three-message handshake deriving directional
//! session keys.
//!
//! The pattern follows the XX shape: the first message carries the
//! initiator's ephemeral key and a cleartext payload; the second the
//! responder's ephemeral key and, encrypted under the ephemeral agreement,
//! its static key and payload; the third, encrypted under the agreement
//! mixed with the responder's static key, the initiator's static key and
//! payload. A MAC failure, a short message or a message in the wrong state
//! moves the machine to `Failed` and zeroizes all intermediate secrets.

use vstd::prelude::*;
use crate::NyxError;
use crate::kdf::{KdfLabel, spec_hkdf_label, hkdf_expand_label, hmac_sha256, hmac_sha256_of};
use crate::aead::{aead_seal, aead_open, aead_seal_of, aead_open_of, nonce_bytes,
    spec_nonce_bytes};
use crate::session::SessionKey;
use crate::cell::copy_range;

verus! {

/// What `x25519` key generation publishes for a secret key.
pub uninterp spec fn x25519_pub_of(secret: Seq<u8>) -> Seq<u8>;

/// What an `x25519` Diffie-Hellman agreement returns: a function of the
/// two keys alone.
pub uninterp spec fn x25519_dh_of(secret: Seq<u8>, their_public: Seq<u8>) -> Seq<u8>;

/// Relies on `x25519_dalek::StaticSecret::random_from_rng` and
/// `PublicKey::From<&StaticSecret>`: a fresh random 32-byte secret whose
/// public key is a function of it. Nothing is promised of the secret's
/// value.
#[verifier::external_body]
fn x25519_keypair() -> (r: (Vec<u8>, Vec<u8>))
    ensures
        r.0@.len() == 32,
        r.1@.len() == 32,
        r.1@ == x25519_pub_of(r.0@),
{
    let secret = x25519_dalek::StaticSecret::random_from_rng(rand::rngs::OsRng);
    let public = x25519_dalek::PublicKey::from(&secret);
    (secret.to_bytes().to_vec(), public.to_bytes().to_vec())
}

/// Relies on `x25519_dalek::StaticSecret::diffie_hellman`: the shared
/// secret is 32 bytes and a function of the two keys alone.
#[verifier::external_body]
fn x25519_dh(secret: &Vec<u8>, their_public: &Vec<u8>) -> (r: Vec<u8>)
    requires
        secret@.len() == 32,
        their_public@.len() == 32,
    ensures
        r@.len() == 32,
        r@ == x25519_dh_of(secret@, their_public@),
{
    let mut s = [0u8; 32];
    s.copy_from_slice(secret);
    let mut p = [0u8; 32];
    p.copy_from_slice(their_public);
    let sk = x25519_dalek::StaticSecret::from(s);
    let pk = x25519_dalek::PublicKey::from(p);
    sk.diffie_hellman(&pk).as_bytes().to_vec()
}

/// Progress of one handshake endpoint.
#[derive(Clone, Copy, PartialEq, Eq, Structural, Debug)]
pub enum HandshakeState {
    Start,
    AwaitMsg1,
    AwaitMsg2,
    AwaitMsg3,
    Established,
    Failed,
}

/// One endpoint of the handshake.
pub struct NoiseHandshake {
    is_initiator: bool,
    state: HandshakeState,
    e_priv: Vec<u8>,
    e_pub: Vec<u8>,
    s_priv: Vec<u8>,
    s_pub: Vec<u8>,
    re_pub: Vec<u8>,
    rs_pub: Vec<u8>,
    ck: Vec<u8>,
    tx_key: Vec<u8>,
    rx_key: Vec<u8>,
}

/// The key protecting the second message: the ephemeral agreement under
/// the handshake label.
pub open spec fn spec_msg2_key(e_secret: Seq<u8>, their_e_pub: Seq<u8>) -> Seq<u8> {
    spec_hkdf_label(x25519_dh_of(e_secret, their_e_pub), KdfLabel::Handshake)
}

/// The key protecting the third message: the second-message key mixed with
/// the ephemeral-static agreement.
pub open spec fn spec_msg3_key(msg2_key: Seq<u8>, es_dh: Seq<u8>) -> Seq<u8> {
    hmac_sha256_of(msg2_key, es_dh)
}

impl NoiseHandshake {
    pub closed spec fn spec_state(self) -> HandshakeState {
        self.state
    }

    pub closed spec fn spec_is_initiator(self) -> bool {
        self.is_initiator
    }

    pub closed spec fn spec_e_priv(self) -> Seq<u8> {
        self.e_priv@
    }

    pub closed spec fn spec_e_pub(self) -> Seq<u8> {
        self.e_pub@
    }

    pub closed spec fn spec_s_priv(self) -> Seq<u8> {
        self.s_priv@
    }

    pub closed spec fn spec_s_pub(self) -> Seq<u8> {
        self.s_pub@
    }

    pub closed spec fn spec_re_pub(self) -> Seq<u8> {
        self.re_pub@
    }

    pub closed spec fn spec_rs_pub(self) -> Seq<u8> {
        self.rs_pub@
    }

    pub closed spec fn spec_ck(self) -> Seq<u8> {
        self.ck@
    }

    pub closed spec fn spec_tx_key(self) -> Seq<u8> {
        self.tx_key@
    }

    pub closed spec fn spec_rx_key(self) -> Seq<u8> {
        self.rx_key@
    }

    /// Every key slot holds exactly 32 bytes.
    pub closed spec fn wf(self) -> bool {
        self.e_priv@.len() == 32 && self.e_pub@.len() == 32 && self.s_priv@.len() == 32
            && self.s_pub@.len() == 32 && self.re_pub@.len() == 32 && self.rs_pub@.len() == 32
            && self.ck@.len() == 32 && self.tx_key@.len() == 32 && self.rx_key@.len() == 32
    }

    fn new_endpoint(is_initiator: bool) -> (r: NoiseHandshake)
        ensures
            r.wf(),
            r.spec_is_initiator() == is_initiator,
            r.spec_state() == if is_initiator {
                HandshakeState::Start
            } else {
                HandshakeState::AwaitMsg1
            },
            r.spec_e_pub() == x25519_pub_of(r.spec_e_priv()),
            r.spec_s_pub() == x25519_pub_of(r.spec_s_priv()),
    {
        let (e_priv, e_pub) = x25519_keypair();
        let (s_priv, s_pub) = x25519_keypair();
        let mut zero32: Vec<u8> = Vec::new();
        let mut i: usize = 0;
        while i < 32
            invariant
                i <= 32,
                zero32@.len() == i,
            decreases 32 - i,
        {
            zero32.push(0);
            i = i + 1;
        }
        let re_pub = dup_bytes(&zero32);
        let rs_pub = dup_bytes(&zero32);
        let ck = dup_bytes(&zero32);
        let tx_key = dup_bytes(&zero32);
        let rx_key = dup_bytes(&zero32);
        NoiseHandshake {
            is_initiator,
            state: if is_initiator {
                HandshakeState::Start
            } else {
                HandshakeState::AwaitMsg1
            },
            e_priv,
            e_pub,
            s_priv,
            s_pub,
            re_pub,
            rs_pub,
            ck,
            tx_key,
            rx_key,
        }
    }

    /// A fresh initiator, ready to write the first message.
    pub fn new_initiator() -> (r: Result<NoiseHandshake, NyxError>)
        ensures
            r is Ok,
            r matches Ok(h) ==> h.wf() && h.spec_is_initiator() && h.spec_state()
                == HandshakeState::Start && h.spec_e_pub() == x25519_pub_of(h.spec_e_priv())
                && h.spec_s_pub() == x25519_pub_of(h.spec_s_priv()) && h.spec_e_pub().len() == 32
                && h.spec_s_pub().len() == 32 && h.spec_e_priv().len() == 32
                && h.spec_s_priv().len() == 32 && h.spec_ck().len() == 32,
    {
        Ok(Self::new_endpoint(true))
    }

    /// A fresh responder, awaiting the first message.
    pub fn new_responder() -> (r: Result<NoiseHandshake, NyxError>)
        ensures
            r is Ok,
            r matches Ok(h) ==> h.wf() && !h.spec_is_initiator() && h.spec_state()
                == HandshakeState::AwaitMsg1 && h.spec_e_pub() == x25519_pub_of(h.spec_e_priv())
                && h.spec_s_pub() == x25519_pub_of(h.spec_s_priv()) && h.spec_e_pub().len() == 32
                && h.spec_s_pub().len() == 32 && h.spec_e_priv().len() == 32
                && h.spec_s_priv().len() == 32 && h.spec_ck().len() == 32,
    {
        Ok(Self::new_endpoint(false))
    }

    /// Abandon the handshake: zeroize every intermediate secret and stay
    /// failed.
    fn fail(&mut self)
        requires
            old(self).wf(),
        ensures
            final(self).wf(),
            final(self).spec_state() == HandshakeState::Failed,
            final(self).spec_e_priv() == Seq::<u8>::new(32, |i: int| 0u8),
            final(self).spec_s_priv() == Seq::<u8>::new(32, |i: int| 0u8),
            final(self).spec_ck() == Seq::<u8>::new(32, |i: int| 0u8),
            final(self).spec_is_initiator() == old(self).spec_is_initiator(),
            final(self).spec_e_pub() == old(self).spec_e_pub(),
            final(self).spec_s_pub() == old(self).spec_s_pub(),
    {
        self.state = HandshakeState::Failed;
        crate::session::zeroize_key_bytes(&mut self.e_priv);
        crate::session::zeroize_key_bytes(&mut self.s_priv);
        crate::session::zeroize_key_bytes(&mut self.ck);
    }

    /// Write the next handshake message carrying `payload`.
    ///
    /// The first message is the initiator's ephemeral key and the payload
    /// in clear; the second is the responder's ephemeral key and the
    /// sealed `static key ++ payload`; the third is the sealed
    /// `static key ++ payload` under the mixed key. Writing out of turn
    /// fails the handshake.
    pub fn write_message(&mut self, payload: &Vec<u8>) -> (r: Result<Vec<u8>, NyxError>)
        requires
            old(self).wf(),
            payload@.len() < 100000,
        ensures
            final(self).wf(),
            final(self).spec_is_initiator() == old(self).spec_is_initiator(),
            final(self).spec_e_pub() == old(self).spec_e_pub() && final(self).spec_e_pub().len()
                == old(self).spec_e_pub().len(),
            old(self).spec_is_initiator() && old(self).spec_state() == HandshakeState::Start ==> (
            final(self).spec_state() == HandshakeState::AwaitMsg2 && (r matches Ok(m) && m@ == old(self).spec_e_pub() + payload@ && old(self).spec_e_pub().len() == 32 && m@.len() == 32
                + payload@.len())),
            !old(self).spec_is_initiator() && old(self).spec_state() == HandshakeState::AwaitMsg2
                ==> (final(self).spec_state() == HandshakeState::AwaitMsg3 && final(self).spec_ck()
                == spec_msg2_key(old(self).spec_e_priv(), old(self).spec_re_pub()) && (r matches Ok(
                m,
            ) && m@ == old(self).spec_e_pub() + aead_seal_of(
                spec_msg2_key(old(self).spec_e_priv(), old(self).spec_re_pub()),
                spec_nonce_bytes(false, 0, 0),
                Seq::<u8>::empty(),
                old(self).spec_s_pub() + payload@,
            ))),
            old(self).spec_is_initiator() && old(self).spec_state() == HandshakeState::AwaitMsg3
                ==> (final(self).spec_state() == HandshakeState::Established && (r matches Ok(m)
                && m@ == aead_seal_of(
                spec_msg3_key(
                    old(self).spec_ck(),
                    x25519_dh_of(old(self).spec_e_priv(), old(self).spec_rs_pub()),
                ),
                spec_nonce_bytes(true, 0, 0),
                Seq::<u8>::empty(),
                old(self).spec_s_pub() + payload@,
            ))),
            !(old(self).spec_is_initiator() && old(self).spec_state() == HandshakeState::Start)
                && !(!old(self).spec_is_initiator() && old(self).spec_state()
                == HandshakeState::AwaitMsg2) && !(old(self).spec_is_initiator() && old(self).spec_state() == HandshakeState::AwaitMsg3) ==> (r == Result::<Vec<u8>, NyxError>::Err(
                NyxError::HandshakeFailed,
            ) && final(self).spec_state() == HandshakeState::Failed),
    {
        if self.is_initiator && matches!(self.state, HandshakeState::Start) {
            let mut msg = dup_bytes(&self.e_pub);
            append_bytes(&mut msg, payload);
            self.state = HandshakeState::AwaitMsg2;
            Ok(msg)
        } else if !self.is_initiator && matches!(self.state, HandshakeState::AwaitMsg2) {
            let shared = x25519_dh(&self.e_priv, &self.re_pub);
            let key = hkdf_expand_label(&shared, KdfLabel::Handshake);
            let nonce = nonce_bytes(false, 0, 0);
            let empty_aad: Vec<u8> = Vec::new();
            let mut inner = dup_bytes(&self.s_pub);
            append_bytes(&mut inner, payload);
            let sealed = aead_seal(&key, &nonce, &empty_aad, &inner);
            let mut msg = dup_bytes(&self.e_pub);
            append_bytes(&mut msg, &sealed);
            proof {
                assert(empty_aad@ =~= Seq::<u8>::empty());
            }
            self.ck = key;
            self.state = HandshakeState::AwaitMsg3;
            Ok(msg)
        } else if self.is_initiator && matches!(self.state, HandshakeState::AwaitMsg3) {
            let es = x25519_dh(&self.e_priv, &self.rs_pub);
            let key = hmac_sha256(&self.ck, &es);
            let nonce = nonce_bytes(true, 0, 0);
            let empty_aad: Vec<u8> = Vec::new();
            let mut inner = dup_bytes(&self.s_pub);
            append_bytes(&mut inner, payload);
            let sealed = aead_seal(&key, &nonce, &empty_aad, &inner);
            proof {
                assert(empty_aad@ =~= Seq::<u8>::empty());
            }
            self.ck = key;
            self.state = HandshakeState::Established;
            Ok(sealed)
        } else {
            self.fail();
            Err(NyxError::HandshakeFailed)
        }
    }

    /// Read the next handshake message, returning its payload.
    ///
    /// A short message, a message out of turn or a failed tag moves the
    /// machine to `Failed` and zeroizes the intermediate secrets.
    pub fn read_message(&mut self, message: &Vec<u8>) -> (r: Result<Vec<u8>, NyxError>)
        requires
            old(self).wf(),
        ensures
            final(self).wf(),
            final(self).spec_is_initiator() == old(self).spec_is_initiator(),
            r is Err ==> r == Result::<Vec<u8>, NyxError>::Err(NyxError::HandshakeFailed) && final(self).spec_state() == HandshakeState::Failed && final(self).spec_e_priv() == Seq::<
                u8,
            >::new(32, |i: int| 0u8) && final(self).spec_s_priv() == Seq::<u8>::new(
                32,
                |i: int| 0u8,
            ),
            !old(self).spec_is_initiator() && old(self).spec_state() == HandshakeState::AwaitMsg1
                ==> (if message@.len() >= 32 {
                r matches Ok(p) && p@ == message@.skip(32) && final(self).spec_state()
                    == HandshakeState::AwaitMsg2 && final(self).spec_re_pub() == message@.take(32)
            } else {
                r is Err
            }),
            old(self).spec_is_initiator() && old(self).spec_state() == HandshakeState::AwaitMsg2
                ==> (if message@.len() < 32 {
                r is Err
            } else {
                match aead_open_of(
                    spec_msg2_key(old(self).spec_e_priv(), message@.take(32)),
                    spec_nonce_bytes(false, 0, 0),
                    Seq::<u8>::empty(),
                    message@.skip(32),
                ) {
                    Option::Some(inner) => if inner.len() >= 32 {
                        r matches Ok(p) && p@ == inner.skip(32) && final(self).spec_state()
                            == HandshakeState::AwaitMsg3 && final(self).spec_rs_pub()
                            == inner.take(32) && final(self).spec_ck() == spec_msg2_key(
                            old(self).spec_e_priv(),
                            message@.take(32),
                        ) && final(self).spec_re_pub() == message@.take(32)
                    } else {
                        r is Err
                    },
                    Option::None => r is Err,
                }
            }),
            !old(self).spec_is_initiator() && old(self).spec_state() == HandshakeState::AwaitMsg3
                ==> (match aead_open_of(
                spec_msg3_key(
                    old(self).spec_ck(),
                    x25519_dh_of(old(self).spec_s_priv(), old(self).spec_re_pub()),
                ),
                spec_nonce_bytes(true, 0, 0),
                Seq::<u8>::empty(),
                message@,
            ) {
                Option::Some(inner) => if inner.len() >= 32 {
                    r matches Ok(p) && p@ == inner.skip(32) && final(self).spec_state()
                        == HandshakeState::Established && final(self).spec_rs_pub() == inner.take(
                        32,
                    ) && final(self).spec_ck() == spec_msg3_key(
                        old(self).spec_ck(),
                        x25519_dh_of(old(self).spec_s_priv(), old(self).spec_re_pub()),
                    )
                } else {
                    r is Err
                },
                Option::None => r is Err,
            }),
            !(!old(self).spec_is_initiator() && old(self).spec_state() == HandshakeState::AwaitMsg1)
                && !(old(self).spec_is_initiator() && old(self).spec_state()
                == HandshakeState::AwaitMsg2) && !(!old(self).spec_is_initiator() && old(self).spec_state() == HandshakeState::AwaitMsg3) ==> r is Err,
    {
        if !self.is_initiator && matches!(self.state, HandshakeState::AwaitMsg1) {
            if message.len() < 32 {
                self.fail();
                return Err(NyxError::HandshakeFailed);
            }
            let mut re: Vec<u8> = Vec::new();
            copy_range(message, 0, 32, &mut re);
            let mut payload: Vec<u8> = Vec::new();
            copy_range(message, 32, message.len() - 32, &mut payload);
            proof {
                assert(re@ =~= message@.take(32));
                assert(payload@ =~= message@.skip(32));
            }
            self.re_pub = re;
            self.state = HandshakeState::AwaitMsg2;
            Ok(payload)
        } else if self.is_initiator && matches!(self.state, HandshakeState::AwaitMsg2) {
            if message.len() < 32 {
                self.fail();
                return Err(NyxError::HandshakeFailed);
            }
            let mut re: Vec<u8> = Vec::new();
            copy_range(message, 0, 32, &mut re);
            let mut sealed: Vec<u8> = Vec::new();
            copy_range(message, 32, message.len() - 32, &mut sealed);
            proof {
                assert(re@ =~= message@.take(32));
                assert(sealed@ =~= message@.skip(32));
            }
            let shared = x25519_dh(&self.e_priv, &re);
            let key = hkdf_expand_label(&shared, KdfLabel::Handshake);
            let nonce = nonce_bytes(false, 0, 0);
            let empty_aad: Vec<u8> = Vec::new();
            proof {
                assert(empty_aad@ =~= Seq::<u8>::empty());
            }
            let inner = match aead_open(&key, &nonce, &empty_aad, &sealed) {
                Some(p) => p,
                None => {
                    self.fail();
                    return Err(NyxError::HandshakeFailed);
                },
            };
            if inner.len() < 32 {
                self.fail();
                return Err(NyxError::HandshakeFailed);
            }
            let mut rs: Vec<u8> = Vec::new();
            copy_range(&inner, 0, 32, &mut rs);
            let mut payload: Vec<u8> = Vec::new();
            copy_range(&inner, 32, inner.len() - 32, &mut payload);
            proof {
                assert(rs@ =~= inner@.take(32));
                assert(payload@ =~= inner@.skip(32));
            }
            self.re_pub = re;
            self.rs_pub = rs;
            self.ck = key;
            self.state = HandshakeState::AwaitMsg3;
            Ok(payload)
        } else if !self.is_initiator && matches!(self.state, HandshakeState::AwaitMsg3) {
            let es = x25519_dh(&self.s_priv, &self.re_pub);
            let key = hmac_sha256(&self.ck, &es);
            let nonce = nonce_bytes(true, 0, 0);
            let empty_aad: Vec<u8> = Vec::new();
            proof {
                assert(empty_aad@ =~= Seq::<u8>::empty());
            }
            let inner = match aead_open(&key, &nonce, &empty_aad, message) {
                Some(p) => p,
                None => {
                    self.fail();
                    return Err(NyxError::HandshakeFailed);
                },
            };
            if inner.len() < 32 {
                self.fail();
                return Err(NyxError::HandshakeFailed);
            }
            let mut rs: Vec<u8> = Vec::new();
            copy_range(&inner, 0, 32, &mut rs);
            let mut payload: Vec<u8> = Vec::new();
            copy_range(&inner, 32, inner.len() - 32, &mut payload);
            proof {
                assert(rs@ =~= inner@.take(32));
                assert(payload@ =~= inner@.skip(32));
            }
            self.rs_pub = rs;
            self.ck = key;
            self.state = HandshakeState::Established;
            Ok(payload)
        } else {
            self.fail();
            Err(NyxError::HandshakeFailed)
        }
    }

    /// The directional traffic keys of an established handshake: the
    /// initiator sends under the `TxInit` derivation and receives under
    /// `TxResp`; the responder mirrors them.
    pub fn session_keys(&self) -> (r: Result<(SessionKey, SessionKey), NyxError>)
        requires
            self.wf(),
        ensures
            r is Ok <==> self.spec_state() == HandshakeState::Established,
            r matches Ok(p) ==> p.0.wf() && p.1.wf() && p.0@ == spec_hkdf_label(
                self.spec_ck(),
                if self.spec_is_initiator() {
                    KdfLabel::TxInit
                } else {
                    KdfLabel::TxResp
                },
            ) && p.1@ == spec_hkdf_label(
                self.spec_ck(),
                if self.spec_is_initiator() {
                    KdfLabel::TxResp
                } else {
                    KdfLabel::TxInit
                },
            ),
            r is Err ==> r == Result::<(SessionKey, SessionKey), NyxError>::Err(
                NyxError::HandshakeFailed,
            ),
    {
        if matches!(self.state, HandshakeState::Established) {
            let tx_label = if self.is_initiator {
                KdfLabel::TxInit
            } else {
                KdfLabel::TxResp
            };
            let rx_label = if self.is_initiator {
                KdfLabel::TxResp
            } else {
                KdfLabel::TxInit
            };
            let tx = hkdf_expand_label(&self.ck, tx_label);
            let rx = hkdf_expand_label(&self.ck, rx_label);
            Ok((SessionKey(tx), SessionKey(rx)))
        } else {
            Err(NyxError::HandshakeFailed)
        }
    }
}

/// A copy of a byte vector.
fn dup_bytes(v: &Vec<u8>) -> (r: Vec<u8>)
    ensures
        r@ == v@,
{
    let mut out: Vec<u8> = Vec::new();
    copy_range(v, 0, v.len(), &mut out);
    proof {
        assert(v@.subrange(0, v@.len() as int) =~= v@);
    }
    out
}

/// Append all of `src` to `dst`.
fn append_bytes(dst: &mut Vec<u8>, src: &Vec<u8>)
    ensures
        final(dst)@ == old(dst)@ + src@,
{
    copy_range(src, 0, src.len(), dst);
    proof {
        assert(src@.subrange(0, src@.len() as int) =~= src@);
    }
}

} // verus!
