//! Mix path selection and layered cell encapsulation.
//!
//! A path is a sequence of two to seven distinct directory nodes, drawn
//! with probability proportional to reputation over load; which nodes come
//! out depends on the random draws, but every returned path is the right
//! length, in range and free of repeats. A cell for the path is wrapped
//! once per hop, innermost hop last, each layer sealed under that hop's
//! key.

use vstd::prelude::*;
use crate::NyxError;
use crate::aead::{aead_seal, aead_seal_of, aead_open_of, nonce_bytes, spec_nonce_bytes};
use crate::kdf::{KdfLabel, spec_hkdf_label, hkdf_expand_label};

verus! {

/// The byte strings a vector of byte vectors holds.
pub open spec fn byte_views(s: Seq<Vec<u8>>) -> Seq<Seq<u8>> {
    Seq::new(s.len(), |i: int| s[i]@)
}

/// One directory entry: a relay's identity, key and standing.
pub struct MixNode {
    pub node_id: u64,
    pub pubkey: Vec<u8>,
    pub load: u64,
    pub reputation: u64,
}

/// Selection weight of a node: reputation scaled up, divided by load plus
/// one, saturated.
pub open spec fn spec_node_weight(load: u64, reputation: u64) -> u64 {
    if reputation * 1000 / (load + 1) > u64::MAX {
        u64::MAX
    } else {
        (reputation * 1000 / (load + 1)) as u64
    }
}

/// Compute a node's selection weight.
pub fn node_weight(load: u64, reputation: u64) -> (r: u64)
    ensures
        r == spec_node_weight(load, reputation),
{
    let wide: u128 = (reputation as u128) * 1000 / ((load as u128) + 1);
    if wide > u64::MAX as u128 {
        u64::MAX
    } else {
        wide as u64
    }
}

/// Relies on `rand::Rng::gen_range`: a draw below the bound. Nothing is
/// promised about which value comes out.
#[verifier::external_body]
fn rand_below(n: u64) -> (r: u64)
    requires
        n > 0,
    ensures
        r < n,
{
    rand::Rng::gen_range(&mut rand::thread_rng(), 0..n)
}

/// Draw an index with probability proportional to its weight; with no
/// weight anywhere, uniformly.
fn pick_weighted(weights: &Vec<u64>) -> (r: usize)
    requires
        weights@.len() > 0,
    ensures
        r < weights@.len(),
{
    let n = weights.len();
    let mut total: u64 = 0;
    let mut i: usize = 0;
    while i < n
        invariant
            n == weights@.len(),
            i <= n,
        decreases n - i,
    {
        let w = weights[i];
        if w > u64::MAX - total {
            total = u64::MAX;
        } else {
            total = total + w;
        }
        i = i + 1;
    }
    if total == 0 {
        return (rand_below(n as u64)) as usize;
    }
    let draw = rand_below(total);
    let mut acc: u64 = 0;
    let mut i: usize = 0;
    while i < n
        invariant
            n == weights@.len(),
            i <= n,
        decreases n - i,
    {
        let w = weights[i];
        let next = if w > u64::MAX - acc {
            u64::MAX
        } else {
            acc + w
        };
        if draw < next {
            return i;
        }
        acc = next;
        i = i + 1;
    }
    n - 1
}

/// Select a path of `hops` distinct nodes from the directory, weighted by
/// reputation over load. The returned indices are always in range,
/// pairwise distinct and exactly `hops` many.
pub fn select_path(directory: &Vec<MixNode>, hops: usize) -> (r: Vec<usize>)
    requires
        2 <= hops <= 7,
        hops <= directory@.len(),
    ensures
        r@.len() == hops,
        forall|x: int| 0 <= x < r@.len() ==> (#[trigger] r@[x]) < directory@.len(),
        forall|x: int, y: int| 0 <= x < y < r@.len() ==> r@[x] != r@[y],
{
    let n = directory.len();
    let mut remaining: Vec<usize> = Vec::new();
    let mut i: usize = 0;
    while i < n
        invariant
            n == directory@.len(),
            i <= n,
            remaining@.len() == i,
            forall|x: int| 0 <= x < i ==> (#[trigger] remaining@[x]) == x,
        decreases n - i,
    {
        remaining.push(i);
        i = i + 1;
    }
    let mut path: Vec<usize> = Vec::new();
    let mut step: usize = 0;
    while step < hops
        invariant
            n == directory@.len(),
            hops <= n,
            step <= hops,
            path@.len() == step,
            remaining@.len() == n - step,
            forall|x: int| 0 <= x < path@.len() ==> (#[trigger] path@[x]) < n,
            forall|x: int| 0 <= x < remaining@.len() ==> (#[trigger] remaining@[x]) < n,
            forall|x: int, y: int| 0 <= x < y < path@.len() ==> path@[x] != path@[y],
            forall|x: int, y: int|
                0 <= x < y < remaining@.len() ==> remaining@[x] != remaining@[y],
            forall|x: int, y: int|
                0 <= x < path@.len() && 0 <= y < remaining@.len() ==> path@[x] != remaining@[y],
        decreases hops - step,
    {
        let m = remaining.len();
        let mut weights: Vec<u64> = Vec::new();
        let mut j: usize = 0;
        while j < m
            invariant
                m == remaining@.len(),
                n == directory@.len(),
                forall|x: int| 0 <= x < remaining@.len() ==> (#[trigger] remaining@[x]) < n,
                j <= m,
                weights@.len() == j,
            decreases m - j,
        {
            let idx = remaining[j];
            weights.push(node_weight(directory[idx].load, directory[idx].reputation));
            j = j + 1;
        }
        let pick = pick_weighted(&weights);
        let chosen = remaining.remove(pick);
        path.push(chosen);
        step = step + 1;
    }
    path
}

/// The onion for a sequence of hop keys and headers around a payload:
/// each layer seals its header and everything inside it.
pub open spec fn spec_onion(keys: Seq<Seq<u8>>, headers: Seq<Seq<u8>>, payload: Seq<u8>) -> Seq<u8>
    decreases keys.len(),
{
    if keys.len() == 0 {
        payload
    } else {
        aead_seal_of(
            keys[0],
            spec_nonce_bytes(false, 0, 0),
            Seq::<u8>::empty(),
            headers[0] + spec_onion(keys.drop_first(), headers.drop_first(), payload),
        )
    }
}

/// Fixed size of one hop header: next-hop address (8 bytes), expected VDF
/// difficulty (8 bytes) and proof commitment (32 bytes).
pub const HOP_HEADER_LEN: usize = 48;

/// Strip one onion layer with this hop's key: the hop header and the inner
/// onion. A cell whose tag does not verify under the key, or whose
/// plaintext is too short for a header, cannot be forwarded — the caller
/// drops it silently and counts the error.
pub fn unwrap_layer(key: &Vec<u8>, ct: &Vec<u8>) -> (r: Result<(Vec<u8>, Vec<u8>), NyxError>)
    requires
        key@.len() == 32,
    ensures
        match aead_open_of(key@, spec_nonce_bytes(false, 0, 0), Seq::<u8>::empty(), ct@) {
            Option::Some(inner) => if inner.len() >= HOP_HEADER_LEN {
                r matches Ok(p) && p.0@ == inner.take(HOP_HEADER_LEN as int) && p.1@ == inner.skip(
                    HOP_HEADER_LEN as int,
                )
            } else {
                r is Err
            },
            Option::None => r is Err,
        },
        r is Err ==> r == Result::<(Vec<u8>, Vec<u8>), NyxError>::Err(NyxError::FrameMalformed),
{
    let nonce = nonce_bytes(false, 0, 0);
    let empty_aad: Vec<u8> = Vec::new();
    proof {
        assert(empty_aad@ =~= Seq::<u8>::empty());
    }
    let inner = match crate::aead::aead_open(key, &nonce, &empty_aad, ct) {
        Some(p) => p,
        None => {
            return Err(NyxError::FrameMalformed);
        },
    };
    if inner.len() < HOP_HEADER_LEN {
        return Err(NyxError::FrameMalformed);
    }
    let mut header: Vec<u8> = Vec::new();
    crate::cell::copy_range(&inner, 0, HOP_HEADER_LEN, &mut header);
    let mut rest: Vec<u8> = Vec::new();
    crate::cell::copy_range(&inner, HOP_HEADER_LEN, inner.len() - HOP_HEADER_LEN, &mut rest);
    proof {
        assert(header@ =~= inner@.take(HOP_HEADER_LEN as int));
        assert(rest@ =~= inner@.skip(HOP_HEADER_LEN as int));
    }
    Ok((header, rest))
}

/// Derive one hop's symmetric key from the Diffie-Hellman agreement with
/// that hop, under the mix-hop label.
pub fn derive_hop_key(shared_secret: &Vec<u8>) -> (r: Vec<u8>)
    ensures
        r@ == spec_hkdf_label(shared_secret@, KdfLabel::MixHop),
        r@.len() == 32,
{
    hkdf_expand_label(shared_secret, KdfLabel::MixHop)
}

/// Wrap a payload for the path: the last hop's layer is applied first, so
/// the first key seals the outermost layer. The outermost layer opens
/// under the first key back to its header and the inner onion.
pub fn wrap_layers(keys: &Vec<Vec<u8>>, headers: &Vec<Vec<u8>>, payload: &Vec<u8>) -> (r: Vec<u8>)
    requires
        keys@.len() == headers@.len(),
        keys@.len() <= 7,
        forall|x: int| 0 <= x < keys@.len() ==> (#[trigger] keys@[x])@.len() == 32,
        forall|x: int| 0 <= x < headers@.len() ==> (#[trigger] headers@[x])@.len() <= 1000,
        payload@.len() <= 100000,
    ensures
        r@ == spec_onion(byte_views(keys@), byte_views(headers@), payload@),
        keys@.len() > 0 ==> aead_open_of(
            byte_views(keys@)[0],
            spec_nonce_bytes(false, 0, 0),
            Seq::<u8>::empty(),
            r@,
        ) == Some(
            byte_views(headers@)[0] + spec_onion(
                byte_views(keys@).drop_first(),
                byte_views(headers@).drop_first(),
                payload@,
            ),
        ),
{
    let n = keys.len();
    let mut inner: Vec<u8> = Vec::new();
    crate::cell::copy_range(payload, 0, payload.len(), &mut inner);
    proof {
        assert(payload@.subrange(0, payload@.len() as int) =~= payload@);
        assert(byte_views(keys@).skip(n as int) =~= Seq::<Seq<u8>>::empty());
    }
    let mut i: usize = n;
    while i > 0
        invariant
            n == keys@.len(),
            n == headers@.len(),
            n <= 7,
            i <= n,
            forall|x: int| 0 <= x < keys@.len() ==> (#[trigger] keys@[x])@.len() == 32,
            forall|x: int| 0 <= x < headers@.len() ==> (#[trigger] headers@[x])@.len() <= 1000,
            payload@.len() <= 100000,
            inner@ == spec_onion(
                byte_views(keys@).skip(i as int),
                byte_views(headers@).skip(i as int),
                payload@,
            ),
            inner@.len() <= payload@.len() + (n - i) * 1048,
            i < n ==> aead_open_of(
                byte_views(keys@)[i as int],
                spec_nonce_bytes(false, 0, 0),
                Seq::<u8>::empty(),
                inner@,
            ) == Some(
                byte_views(headers@)[i as int] + spec_onion(
                    byte_views(keys@).skip(i as int + 1),
                    byte_views(headers@).skip(i as int + 1),
                    payload@,
                ),
            ),
        decreases i,
    {
        i = i - 1;
        let nonce = nonce_bytes(false, 0, 0);
        let empty_aad: Vec<u8> = Vec::new();
        let mut plain: Vec<u8> = Vec::new();
        crate::cell::copy_range(&headers[i], 0, headers[i].len(), &mut plain);
        crate::cell::copy_range(&inner, 0, inner.len(), &mut plain);
        proof {
            assert(headers@[i as int]@.subrange(0, headers@[i as int]@.len() as int)
                =~= headers@[i as int]@);
            assert(inner@.subrange(0, inner@.len() as int) =~= inner@);
            assert(plain@ =~= byte_views(headers@)[i as int] + inner@);
            assert(empty_aad@ =~= Seq::<u8>::empty());
            assert(byte_views(keys@).skip(i as int).drop_first() =~= byte_views(keys@).skip(
                i as int + 1,
            ));
            assert(byte_views(headers@).skip(i as int).drop_first() =~= byte_views(headers@).skip(
                i as int + 1,
            ));
            assert(byte_views(keys@).skip(i as int)[0] == byte_views(keys@)[i as int]);
            assert(byte_views(headers@).skip(i as int)[0] == byte_views(headers@)[i as int]);
        }
        let sealed = aead_seal(&keys[i], &nonce, &empty_aad, &plain);
        inner = sealed;
    }
    proof {
        assert(byte_views(keys@).skip(0) =~= byte_views(keys@));
        assert(byte_views(headers@).skip(0) =~= byte_views(headers@));
        if n > 0 {
            assert(byte_views(keys@).drop_first() =~= byte_views(keys@).skip(1));
            assert(byte_views(headers@).drop_first() =~= byte_views(headers@).skip(1));
        }
    }
    inner
}

} // verus!
