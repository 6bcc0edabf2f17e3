//! Session state: directional keys, the strictly monotonic transmit nonce
//! counter, the receive replay window and forward-secure rekeying.

use vstd::prelude::*;
use zeroize::Zeroize;
use crate::NyxError;
use crate::kdf::{KdfLabel, spec_hkdf_label, hkdf_expand_label};
use crate::aead::{NONCE_COUNTER_LIMIT, aead_seal, aead_open, aead_seal_of, aead_open_of,
    nonce_bytes, spec_nonce_bytes};

verus! {

/// One directional session key.
pub struct SessionKey(pub Vec<u8>);

impl View for SessionKey {
    type V = Seq<u8>;

    open spec fn view(&self) -> Seq<u8> {
        self.0@
    }
}

impl SessionKey {
    pub open spec fn wf(self) -> bool {
        self@.len() == 32
    }
}

/// Relies on `zeroize::Zeroize` for byte slices: every element is
/// overwritten with zero and the length is kept.
#[verifier::external_body]
pub(crate) fn zeroize_key_bytes(b: &mut Vec<u8>)
    ensures
        final(b)@ == Seq::<u8>::new(old(b)@.len(), |i: int| 0u8),
{
    b.as_mut_slice().zeroize();
}

/// Derive a forward-secure successor of `old_key` under the dedicated
/// rekey label, overwriting the prior key bytes with zeroes before the new
/// key is returned.
pub fn pcr_rekey(old_key: &mut SessionKey) -> (r: SessionKey)
    ensures
        r@ == spec_hkdf_label(old(old_key)@, KdfLabel::Rekey),
        r.wf(),
        final(old_key)@ == Seq::<u8>::new(old(old_key)@.len(), |i: int| 0u8),
{
    let next = hkdf_expand_label(&old_key.0, KdfLabel::Rekey);
    zeroize_key_bytes(&mut old_key.0);
    SessionKey(next)
}

/// Sliding window over the 64 most recent receive nonces: the highest
/// nonce seen and one bit for each of the 63 before it.
pub struct ReplayWindow {
    highest: u64,
    mask: u64,
}

impl ReplayWindow {
    /// Whether `n` has been accepted and is still inside the window.
    pub closed spec fn spec_contains(self, n: u64) -> bool {
        &&& n <= self.highest
        &&& self.highest - n < 64
        &&& (self.mask >> ((self.highest - n) as u64)) & 1u64 == 1u64
    }

    /// The highest nonce accepted so far.
    pub closed spec fn spec_highest(self) -> u64 {
        self.highest
    }

    /// Whether `n` has fallen out of the window; such nonces are rejected
    /// as replays because nothing can tell them apart any more.
    pub closed spec fn spec_too_old(self, n: u64) -> bool {
        n + 64 <= self.highest
    }

    /// An empty window: nothing was seen and nothing is too old.
    pub fn new() -> (r: ReplayWindow)
        ensures
            forall|n: u64| !r.spec_contains(n),
            forall|n: u64| !r.spec_too_old(n),
    {
        let r = ReplayWindow { highest: 0, mask: 0 };
        proof {
            assert(forall|k: u64| k < 64 ==> (0u64 >> k) & 1u64 == 0u64) by (bit_vector);
        }
        r
    }

    /// Whether `n` would be rejected as a replay: it was accepted before or
    /// fell out of the window.
    pub fn is_replay(&self, n: u64) -> (r: bool)
        ensures
            r == (self.spec_contains(n) || self.spec_too_old(n)),
    {
        if n > self.highest {
            false
        } else {
            let offset = self.highest - n;
            offset >= 64 || (self.mask >> offset) & 1 == 1
        }
    }

    /// Accept `n` exactly when it was never seen and is still inside the
    /// window; a rejected nonce changes nothing. After acceptance `n` is
    /// recorded, everything recorded and still within 64 of the new highest
    /// nonce stays recorded, and nothing else is.
    pub fn check_and_update(&mut self, n: u64) -> (r: Result<(), NyxError>)
        ensures
            r is Ok <==> !old(self).spec_contains(n) && !old(self).spec_too_old(n),
            r is Err ==> *final(self) == *old(self) && r == Result::<(), NyxError>::Err(
                NyxError::ReplayDetected,
            ),
            r is Ok ==> forall|m: u64|
                final(self).spec_contains(m) <==> (m == n || (old(self).spec_contains(m) && m + 64
                    > if n > old(self).spec_highest() {
                    n
                } else {
                    old(self).spec_highest()
                })),
            r is Ok ==> final(self).spec_highest() == if n > old(self).spec_highest() {
                n
            } else {
                old(self).spec_highest()
            },
    {
        if n > self.highest {
            let shift = n - self.highest;
            if shift >= 64 {
                self.mask = 1;
            } else {
                self.mask = (self.mask << shift) | 1;
            }
            self.highest = n;
            proof {
                assert(forall|k: u64| 0 < k < 64 ==> (1u64 >> k) & 1u64 == 0u64) by (bit_vector);
                assert((1u64 >> 0u64) & 1u64 == 1u64) by (bit_vector);
                assert(forall|mk: u64, sh: u64, k: u64|
                    0 < sh < 64 && k < 64 ==> ((((mk << sh) | 1u64) >> k) & 1u64 == 1u64 <==> (k
                        == 0 || (k >= sh && (mk >> ((k - sh) as u64)) & 1u64 == 1u64)))) by (bit_vector);
            }
            Ok(())
        } else {
            let offset = self.highest - n;
            if offset >= 64 {
                return Err(NyxError::ReplayDetected);
            }
            if (self.mask >> offset) & 1 == 1 {
                return Err(NyxError::ReplayDetected);
            }
            self.mask = self.mask | (1u64 << offset);
            proof {
                assert(forall|mk: u64, off: u64, k: u64|
                    off < 64 && k < 64 ==> (((mk | (1u64 << off)) >> k) & 1u64 == 1u64 <==> ((mk
                        >> k) & 1u64 == 1u64 || k == off))) by (bit_vector);
            }
            Ok(())
        }
    }
}

/// One end-to-end session: its keys, transmit nonce counter and receive
/// replay window.
pub struct Session {
    pub session_id: u64,
    tx_key: SessionKey,
    rx_key: SessionKey,
    tx_nonce_counter: u64,
    rx_replay: ReplayWindow,
    epoch: u32,
    is_initiator: bool,
}

impl Session {
    pub closed spec fn wf(self) -> bool {
        self.tx_key.wf() && self.rx_key.wf()
    }

    pub closed spec fn spec_session_id(self) -> u64 {
        self.session_id
    }

    pub closed spec fn spec_tx_nonce_counter(self) -> u64 {
        self.tx_nonce_counter
    }

    pub closed spec fn spec_tx_key(self) -> Seq<u8> {
        self.tx_key@
    }

    pub closed spec fn spec_rx_key(self) -> Seq<u8> {
        self.rx_key@
    }

    pub closed spec fn spec_epoch(self) -> u32 {
        self.epoch
    }

    pub closed spec fn spec_is_initiator(self) -> bool {
        self.is_initiator
    }

    pub closed spec fn spec_rx_seen(self, n: u64) -> bool {
        self.rx_replay.spec_contains(n)
    }

    pub closed spec fn spec_rx_too_old(self, n: u64) -> bool {
        self.rx_replay.spec_too_old(n)
    }

    /// A fresh session around a pair of directional keys.
    pub fn new(session_id: u64, tx_key: SessionKey, rx_key: SessionKey, epoch: u32,
        is_initiator: bool) -> (r: Session)
        requires
            tx_key.wf(),
            rx_key.wf(),
        ensures
            r.wf(),
            r.spec_session_id() == session_id,
            r.spec_tx_nonce_counter() == 0,
            r.spec_tx_key() == tx_key@,
            r.spec_rx_key() == rx_key@,
            r.spec_epoch() == epoch,
            r.spec_is_initiator() == is_initiator,
            forall|n: u64| !r.spec_rx_seen(n),
    {
        Session {
            session_id,
            tx_key,
            rx_key,
            tx_nonce_counter: 0,
            rx_replay: ReplayWindow::new(),
            epoch,
            is_initiator,
        }
    }

    /// Rotate both directional keys through the forward-secure ratchet:
    /// the prior key bytes are zeroized, the nonce counter restarts, the
    /// epoch advances and the replay window is cleared. Fails only when
    /// the epoch space is spent.
    pub fn rekey(&mut self) -> (r: Result<(), NyxError>)
        requires
            old(self).wf(),
        ensures
            final(self).wf(),
            r is Ok <==> old(self).spec_epoch() < u32::MAX,
            r is Err ==> *final(self) == *old(self) && r == Result::<(), NyxError>::Err(
                NyxError::NonceExhausted,
            ),
            r is Ok ==> {
                &&& final(self).spec_tx_key() == spec_hkdf_label(
                    old(self).spec_tx_key(),
                    KdfLabel::Rekey,
                )
                &&& final(self).spec_rx_key() == spec_hkdf_label(
                    old(self).spec_rx_key(),
                    KdfLabel::Rekey,
                )
                &&& final(self).spec_tx_nonce_counter() == 0
                &&& final(self).spec_epoch() == old(self).spec_epoch() + 1
                &&& forall|n: u64| !final(self).spec_rx_seen(n)
                &&& final(self).spec_is_initiator() == old(self).spec_is_initiator()
                &&& final(self).spec_session_id() == old(self).spec_session_id()
            },
    {
        if self.epoch >= u32::MAX {
            return Err(NyxError::NonceExhausted);
        }
        self.tx_key = pcr_rekey(&mut self.tx_key);
        self.rx_key = pcr_rekey(&mut self.rx_key);
        self.tx_nonce_counter = 0;
        self.rx_replay = ReplayWindow::new();
        self.epoch = self.epoch + 1;
        Ok(())
    }

    /// Encrypt one message. The nonce counter moves strictly forward on
    /// every success and is never reused; once it would leave the 63-bit
    /// space the session refuses to encrypt until it is rekeyed.
    pub fn seal(&mut self, aad: &Vec<u8>, plaintext: &Vec<u8>) -> (r: Result<
        (u64, Vec<u8>),
        NyxError,
    >)
        requires
            old(self).wf(),
            plaintext@.len() < 0x3fffffff00,
        ensures
            final(self).wf(),
            r is Ok <==> old(self).spec_tx_nonce_counter() < NONCE_COUNTER_LIMIT,
            r is Err ==> *final(self) == *old(self) && r == Result::<(u64, Vec<u8>), NyxError>::Err(
                NyxError::NonceExhausted,
            ),
            r matches Ok(p) ==> {
                &&& p.0 == old(self).spec_tx_nonce_counter()
                &&& final(self).spec_tx_nonce_counter() == p.0 + 1
                &&& final(self).spec_tx_nonce_counter() > old(self).spec_tx_nonce_counter()
                &&& p.1@ == aead_seal_of(
                    old(self).spec_tx_key(),
                    spec_nonce_bytes(old(self).spec_is_initiator(), p.0, old(self).spec_epoch()),
                    aad@,
                    plaintext@,
                )
            },
            final(self).spec_tx_key() == old(self).spec_tx_key(),
            final(self).spec_rx_key() == old(self).spec_rx_key(),
            final(self).spec_epoch() == old(self).spec_epoch(),
            final(self).spec_is_initiator() == old(self).spec_is_initiator(),
    {
        if self.tx_nonce_counter >= NONCE_COUNTER_LIMIT {
            return Err(NyxError::NonceExhausted);
        }
        let counter = self.tx_nonce_counter;
        let nonce = nonce_bytes(self.is_initiator, counter, self.epoch);
        let ct = aead_seal(&self.tx_key.0, &nonce, aad, plaintext);
        self.tx_nonce_counter = counter + 1;
        Ok((counter, ct))
    }

    /// Decrypt one received message. A nonce that was already accepted, or
    /// that fell out of the replay window, is rejected as a replay before
    /// any decryption; a bad tag is rejected without recording the nonce.
    pub fn open(&mut self, counter: u64, aad: &Vec<u8>, ciphertext: &Vec<u8>) -> (r: Result<
        Vec<u8>,
        NyxError,
    >)
        requires
            old(self).wf(),
            counter <= NONCE_COUNTER_LIMIT,
        ensures
            final(self).wf(),
            r == Result::<Vec<u8>, NyxError>::Err(NyxError::ReplayDetected) <==> (old(
                self,
            ).spec_rx_seen(counter) || old(self).spec_rx_too_old(counter)),
            r == Result::<Vec<u8>, NyxError>::Err(NyxError::HandshakeFailed) <==> (!old(
                self,
            ).spec_rx_seen(counter) && !old(self).spec_rx_too_old(counter) && aead_open_of(
                old(self).spec_rx_key(),
                spec_nonce_bytes(!old(self).spec_is_initiator(), counter, old(self).spec_epoch()),
                aad@,
                ciphertext@,
            ) is None),
            r matches Ok(p) ==> aead_open_of(
                old(self).spec_rx_key(),
                spec_nonce_bytes(!old(self).spec_is_initiator(), counter, old(self).spec_epoch()),
                aad@,
                ciphertext@,
            ) == Some(p@) && final(self).spec_rx_seen(counter),
            r is Err ==> *final(self) == *old(self),
            r is Ok ==> !old(self).spec_rx_seen(counter),
            final(self).spec_tx_nonce_counter() == old(self).spec_tx_nonce_counter(),
            final(self).spec_tx_key() == old(self).spec_tx_key(),
            final(self).spec_rx_key() == old(self).spec_rx_key(),
    {
        if self.rx_replay.is_replay(counter) {
            return Err(NyxError::ReplayDetected);
        }
        let nonce = nonce_bytes(!self.is_initiator, counter, self.epoch);
        let pt = match aead_open(&self.rx_key.0, &nonce, aad, ciphertext) {
            Some(p) => p,
            None => {
                return Err(NyxError::HandshakeFailed);
            },
        };
        match self.rx_replay.check_and_update(counter) {
            Ok(()) => Ok(pt),
            Err(e) => Err(e),
        }
    }
}

} // verus!
