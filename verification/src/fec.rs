//! Forward error correction over fixed-size cells.
//!
//! This is the single-parity instance of the erasure scheme: a group of
//! `k` equal-size data cells (any `k`) gets one parity cell, the byte-wise
//! XOR of the group, so any one missing cell of a group is recovered
//! exactly as the XOR of the parity with the cells that survived. The
//! recovery law is proved, not assumed. Codes with more than one parity
//! cell per group, recovering several losses, are deliberately out of this
//! module's scope.

use vstd::prelude::*;
use crate::mix::byte_views;

verus! {

/// Byte-wise XOR of two equal-length byte strings.
pub open spec fn spec_xor(a: Seq<u8>, b: Seq<u8>) -> Seq<u8>
    recommends
        a.len() == b.len(),
{
    Seq::new(a.len(), |i: int| a[i] ^ b[i])
}

/// The all-zero byte string of length `n`.
pub open spec fn spec_zeros(n: nat) -> Seq<u8> {
    Seq::new(n, |i: int| 0u8)
}

/// The parity of a group: XOR of all its cells, zero for an empty group.
pub open spec fn spec_parity(cells: Seq<Seq<u8>>, size: nat) -> Seq<u8>
    decreases cells.len(),
{
    if cells.len() == 0 {
        spec_zeros(size)
    } else {
        spec_xor(spec_parity(cells.drop_last(), size), cells.last())
    }
}

/// All cells of the group have the group's cell size.
pub open spec fn spec_same_size(cells: Seq<Seq<u8>>, size: nat) -> bool {
    forall|i: int| 0 <= i < cells.len() ==> (#[trigger] cells[i]).len() == size
}

proof fn lemma_xor_comm(a: Seq<u8>, b: Seq<u8>)
    requires
        a.len() == b.len(),
    ensures
        spec_xor(a, b) == spec_xor(b, a),
{
    assert(forall|x: u8, y: u8| #[trigger] (x ^ y) == y ^ x) by (bit_vector);
    assert(spec_xor(a, b) =~= spec_xor(b, a));
}

proof fn lemma_xor_assoc(a: Seq<u8>, b: Seq<u8>, c: Seq<u8>)
    requires
        a.len() == b.len(),
        b.len() == c.len(),
    ensures
        spec_xor(spec_xor(a, b), c) == spec_xor(a, spec_xor(b, c)),
{
    assert(forall|x: u8, y: u8, z: u8| #[trigger] ((x ^ y) ^ z) == x ^ (y ^ z)) by (bit_vector);
    assert(spec_xor(spec_xor(a, b), c) =~= spec_xor(a, spec_xor(b, c)));
}

proof fn lemma_xor_self(a: Seq<u8>)
    ensures
        spec_xor(a, a) == spec_zeros(a.len()),
{
    assert(forall|x: u8| #[trigger] (x ^ x) == 0u8) by (bit_vector);
    assert(spec_xor(a, a) =~= spec_zeros(a.len()));
}

proof fn lemma_xor_zero(a: Seq<u8>)
    ensures
        spec_xor(a, spec_zeros(a.len())) == a,
        spec_xor(spec_zeros(a.len()), a) == a,
{
    assert(forall|x: u8| #[trigger] (x ^ 0u8) == x) by (bit_vector);
    assert(forall|x: u8| #[trigger] (0u8 ^ x) == x) by (bit_vector);
    assert(spec_xor(a, spec_zeros(a.len())) =~= a);
    assert(spec_xor(spec_zeros(a.len()), a) =~= a);
}

proof fn lemma_parity_len(cells: Seq<Seq<u8>>, size: nat)
    requires
        spec_same_size(cells, size),
    ensures
        spec_parity(cells, size).len() == size,
    decreases cells.len(),
{
    if cells.len() > 0 {
        assert(forall|i: int|
            0 <= i < cells.drop_last().len() ==> cells.drop_last()[i] == cells[i]);
        lemma_parity_len(cells.drop_last(), size);
    }
}

/// The recovery law: for a group of equal-size cells, the XOR of the
/// group's parity with the parity of the group minus one cell is exactly
/// that cell — so one lost cell of a group is always recoverable from the
/// rest and the parity.
pub proof fn lemma_fec_recovers(cells: Seq<Seq<u8>>, m: int, size: nat)
    requires
        spec_same_size(cells, size),
        0 <= m < cells.len(),
    ensures
        spec_xor(spec_parity(cells, size), spec_parity(cells.remove(m), size)) == cells[m],
    decreases cells.len(),
{
    let rest = cells.remove(m);
    assert(forall|i: int|
        0 <= i < cells.drop_last().len() ==> cells.drop_last()[i] == cells[i]);
    assert(spec_same_size(cells.drop_last(), size));
    lemma_parity_len(cells, size);
    lemma_parity_len(cells.drop_last(), size);
    if m == cells.len() - 1 {
        assert(rest =~= cells.drop_last());
        let p = spec_parity(cells.drop_last(), size);
        let c = cells.last();
        // xor(xor(p, c), p) == c
        lemma_xor_comm(spec_xor(p, c), p);
        lemma_xor_assoc(p, p, c);
        lemma_xor_self(p);
        lemma_xor_zero(c);
        assert(spec_xor(p, spec_xor(p, c)) == c);
    } else {
        let inner = cells.drop_last();
        assert(spec_same_size(rest, size)) by {
            assert(forall|i: int|
                0 <= i < rest.len() ==> rest[i] == if i < m {
                    cells[i]
                } else {
                    cells[i + 1]
                });
        }
        assert(rest.drop_last() =~= inner.remove(m));
        assert(rest.last() == cells.last());
        lemma_fec_recovers(inner, m, size);
        let a = spec_parity(inner, size);
        let b = spec_parity(inner.remove(m), size);
        let l = cells.last();
        assert(spec_same_size(inner.remove(m), size)) by {
            assert(forall|i: int|
                0 <= i < inner.remove(m).len() ==> inner.remove(m)[i] == if i < m {
                    inner[i]
                } else {
                    inner[i + 1]
                });
        }
        lemma_parity_len(inner.remove(m), size);
        // xor(xor(a, l), xor(b, l)) == xor(a, b)
        lemma_xor_comm(a, l);
        lemma_xor_assoc(l, a, spec_xor(b, l));
        lemma_xor_comm(b, l);
        lemma_xor_assoc(a, l, spec_xor(l, b));
        lemma_xor_assoc(l, l, b);
        lemma_xor_self(l);
        lemma_xor_zero(b);
        assert(spec_xor(spec_xor(a, l), spec_xor(b, l)) == spec_xor(a, b));
    }
}

/// Byte-wise XOR of two equal-length cells.
pub fn xor_bytes(a: &Vec<u8>, b: &Vec<u8>) -> (r: Vec<u8>)
    requires
        a@.len() == b@.len(),
    ensures
        r@ == spec_xor(a@, b@),
{
    let n = a.len();
    let mut out: Vec<u8> = Vec::new();
    let mut i: usize = 0;
    while i < n
        invariant
            n == a@.len(),
            n == b@.len(),
            i <= n,
            out@.len() == i,
            forall|j: int| 0 <= j < i ==> out@[j] == (a@[j] ^ b@[j]),
        decreases n - i,
    {
        out.push(a[i] ^ b[i]);
        i = i + 1;
    }
    proof {
        assert(out@ =~= spec_xor(a@, b@));
    }
    out
}

/// The parity cell of a group of equal-size data cells.
pub fn encode_parity(cells: &Vec<Vec<u8>>, size: usize) -> (r: Vec<u8>)
    requires
        spec_same_size(byte_views(cells@), size as nat),
    ensures
        r@ == spec_parity(byte_views(cells@), size as nat),
{
    let mut out: Vec<u8> = Vec::new();
    let mut i: usize = 0;
    while i < size
        invariant
            i <= size,
            out@.len() == i,
            forall|j: int| 0 <= j < i ==> out@[j] == 0u8,
        decreases size - i,
    {
        out.push(0);
        i = i + 1;
    }
    proof {
        assert(out@ =~= spec_zeros(size as nat));
        assert(byte_views(cells@).take(0) =~= Seq::<Seq<u8>>::empty());
    }
    let n = cells.len();
    let mut k: usize = 0;
    while k < n
        invariant
            n == cells@.len(),
            spec_same_size(byte_views(cells@), size as nat),
            k <= n,
            out@ == spec_parity(byte_views(cells@).take(k as int), size as nat),
            out@.len() == size,
        decreases n - k,
    {
        proof {
            assert(byte_views(cells@).take(k as int + 1).drop_last() =~= byte_views(
                cells@,
            ).take(k as int));
            assert(byte_views(cells@).take(k as int + 1).last() == byte_views(cells@)[k as int]);
            assert(byte_views(cells@)[k as int].len() == size as nat);
        }
        out = xor_bytes(&out, &cells[k]);
        k = k + 1;
    }
    proof {
        assert(byte_views(cells@).take(n as int) =~= byte_views(cells@));
    }
    out
}

/// Recover one missing cell of a group from the surviving cells (in their
/// original order, with the missing one left out) and the group parity.
/// By [`lemma_fec_recovers`] the result is the missing cell whenever
/// `parity` is the parity of the full group.
pub fn recover_cell(survivors: &Vec<Vec<u8>>, parity: &Vec<u8>, size: usize) -> (r: Vec<u8>)
    requires
        spec_same_size(byte_views(survivors@), size as nat),
        parity@.len() == size,
    ensures
        r@ == spec_xor(parity@, spec_parity(byte_views(survivors@), size as nat)),
{
    let rest = encode_parity(survivors, size);
    proof {
        lemma_parity_len(byte_views(survivors@), size as nat);
    }
    xor_bytes(parity, &rest)
}

} // verus!
