//! The fixed-size wire cell.
//!
//! Every unit on the wire is exactly [`CELL_SIZE`] bytes: short payloads are
//! padded and long payloads fragmented before they get here, so an observer
//! never sees any other size.

use vstd::prelude::*;
use crate::NyxError;
use crate::frame::be_val;

verus! {

/// The only size ever transmitted on the wire.
pub const CELL_SIZE: usize = 1280;

/// Bytes of ciphertext carried by one cell.
pub const CELL_CIPHERTEXT_LEN: usize = 1246;

/// Bytes of AEAD nonce carried by one cell.
pub const CELL_NONCE_LEN: usize = 12;

/// Bytes of AEAD tag carried by one cell.
pub const CELL_TAG_LEN: usize = 16;

/// One wire cell: version, flags, epoch, nonce, ciphertext and tag.
pub struct Cell {
    pub version: u8,
    pub flags: u8,
    pub epoch: u32,
    pub nonce: Vec<u8>,
    pub ciphertext: Vec<u8>,
    pub tag: Vec<u8>,
}

/// Big-endian bytes of the epoch.
pub open spec fn be32_bytes(e: u32) -> Seq<u8> {
    seq![
        (e / 0x1000000) as u8,
        ((e / 0x10000) % 256) as u8,
        ((e / 0x100) % 256) as u8,
        (e % 256) as u8,
    ]
}

/// The wire form of a cell.
pub open spec fn cell_bytes(c: Cell) -> Seq<u8> {
    seq![c.version, c.flags] + be32_bytes(c.epoch) + c.nonce@ + c.ciphertext@ + c.tag@
}

impl Cell {
    /// The variable-length parts have exactly their wire sizes.
    pub open spec fn wf(self) -> bool {
        self.nonce@.len() == CELL_NONCE_LEN && self.ciphertext@.len() == CELL_CIPHERTEXT_LEN
            && self.tag@.len() == CELL_TAG_LEN
    }

    /// A well-formed cell always encodes to exactly [`CELL_SIZE`] bytes.
    pub proof fn lemma_cell_size(self)
        requires
            self.wf(),
        ensures
            cell_bytes(self).len() == CELL_SIZE,
    {
    }
}

/// Append `buf[start..start+len]` to `out`.
pub(crate) fn copy_range(buf: &Vec<u8>, start: usize, len: usize, out: &mut Vec<u8>)
    requires
        start + len <= buf@.len(),
    ensures
        final(out)@ == old(out)@ + buf@.subrange(start as int, start as int + len as int),
{
    let total: usize = buf.len();
    let mut i: usize = 0;
    while i < len
        invariant
            i <= len,
            start + len <= buf@.len(),
            buf@.len() == total,
            out@ == old(out)@ + buf@.subrange(start as int, start as int + i as int),
        decreases len - i,
    {
        out.push(buf[start + i]);
        proof {
            assert(old(out)@ + buf@.subrange(start as int, start as int + i as int + 1) =~= (old(
                out,
            )@ + buf@.subrange(start as int, start as int + i as int)).push(
                buf@[start as int + i as int],
            ));
        }
        i = i + 1;
    }
    proof {
        assert(out@ =~= old(out)@ + buf@.subrange(start as int, start as int + len as int));
    }
}

/// Encode a cell; the result is always exactly [`CELL_SIZE`] bytes.
pub fn encode_cell(c: &Cell) -> (r: Vec<u8>)
    requires
        c.wf(),
    ensures
        r@ == cell_bytes(*c),
        r@.len() == CELL_SIZE,
{
    let mut out: Vec<u8> = Vec::new();
    out.push(c.version);
    out.push(c.flags);
    out.push((c.epoch / 0x1000000) as u8);
    out.push(((c.epoch / 0x10000) % 256) as u8);
    out.push(((c.epoch / 0x100) % 256) as u8);
    out.push((c.epoch % 256) as u8);
    copy_range(&c.nonce, 0, c.nonce.len(), &mut out);
    copy_range(&c.ciphertext, 0, c.ciphertext.len(), &mut out);
    copy_range(&c.tag, 0, c.tag.len(), &mut out);
    proof {
        assert(c.nonce@.subrange(0, c.nonce@.len() as int) =~= c.nonce@);
        assert(c.ciphertext@.subrange(0, c.ciphertext@.len() as int) =~= c.ciphertext@);
        assert(c.tag@.subrange(0, c.tag@.len() as int) =~= c.tag@);
        assert(out@ =~= cell_bytes(*c));
    }
    out
}

/// Decode a cell. Fails exactly when the input is not [`CELL_SIZE`] bytes;
/// on success the returned cell is well formed and encodes back to the
/// input.
pub fn decode_cell(buf: &Vec<u8>) -> (r: Result<Cell, NyxError>)
    ensures
        r is Ok <==> buf@.len() == CELL_SIZE,
        r matches Ok(c) ==> c.wf() && cell_bytes(c) == buf@,
        r is Err ==> r == Result::<Cell, NyxError>::Err(NyxError::FrameMalformed),
{
    if buf.len() != CELL_SIZE {
        return Err(NyxError::FrameMalformed);
    }
    let version = buf[0];
    let flags = buf[1];
    let epoch_raw = crate::frame::read_be(buf, 2, 4);
    proof {
        crate::frame::lemma_be_val_bound(buf@.subrange(2, 6));
        vstd::arithmetic::power2::lemma2_to64();
    }
    let epoch = epoch_raw as u32;
    let mut nonce: Vec<u8> = Vec::new();
    copy_range(buf, 6, CELL_NONCE_LEN, &mut nonce);
    let mut ciphertext: Vec<u8> = Vec::new();
    copy_range(buf, 6 + CELL_NONCE_LEN, CELL_CIPHERTEXT_LEN, &mut ciphertext);
    let mut tag: Vec<u8> = Vec::new();
    copy_range(buf, 6 + CELL_NONCE_LEN + CELL_CIPHERTEXT_LEN, CELL_TAG_LEN, &mut tag);
    let c = Cell { version, flags, epoch, nonce, ciphertext, tag };
    proof {
        lemma_be32_round_val(buf@.subrange(2, 6));
        assert(be32_bytes(c.epoch) =~= buf@.subrange(2, 6));
        assert(cell_bytes(c) =~= buf@);
    }
    Ok(c)
}

/// Four big-endian bytes decode to the value whose big-endian bytes they
/// are.
proof fn lemma_be32_round_val(s: Seq<u8>)
    requires
        s.len() == 4,
    ensures
        be32_bytes(be_val(s) as u32) =~= s,
{
    reveal_with_fuel(be_val, 6);
    crate::frame::lemma_be_val_bound(s);
    vstd::arithmetic::power2::lemma2_to64();
    let v = be_val(s);
    let b0 = s[0] as nat;
    let b1 = s[1] as nat;
    let b2 = s[2] as nat;
    let b3 = s[3] as nat;
    assert(s.take(1).drop_last() =~= Seq::<u8>::empty());
    assert(s.take(2).drop_last() =~= s.take(1));
    assert(s.take(3).drop_last() =~= s.take(2));
    assert(s.take(4) =~= s);
    assert(s.drop_last() =~= s.take(3));
    assert(v == 256 * (256 * (256 * b0 + b1) + b2) + b3);
    assert(v / 0x1000000 == b0) by (nonlinear_arith)
        requires
            v == 256 * (256 * (256 * b0 + b1) + b2) + b3,
            b1 < 256,
            b2 < 256,
            b3 < 256,
    ;
    assert((v / 0x10000) % 256 == b1) by (nonlinear_arith)
        requires
            v == 256 * (256 * (256 * b0 + b1) + b2) + b3,
            b1 < 256,
            b2 < 256,
            b3 < 256,
    ;
    assert((v / 0x100) % 256 == b2) by (nonlinear_arith)
        requires
            v == 256 * (256 * (256 * b0 + b1) + b2) + b3,
            b2 < 256,
            b3 < 256,
    ;
    assert(v % 256 == b3) by (nonlinear_arith)
        requires
            v == 256 * (256 * (256 * b0 + b1) + b2) + b3,
            b3 < 256,
    ;
    assert(be32_bytes(v as u32)[0] == s[0]);
    assert(be32_bytes(v as u32)[1] == s[1]);
    assert(be32_bytes(v as u32)[2] == s[2]);
    assert(be32_bytes(v as u32)[3] == s[3]);
}

} // verus!
