//! Wire framing inside the decrypted cell stream.
//!
//! A frame is `{ type: u8, stream_id: varint, length: varint, payload }`.
//! Varints are base-128, least significant group first, with the high bit of
//! a byte marking continuation. A SETTINGS payload is a sequence of
//! `{ id: u16, value: u64 }` entries, both big-endian.

use vstd::prelude::*;
use crate::NyxError;

verus! {

/// The varint encoding of `v`.
pub open spec fn varint_bytes(v: nat) -> Seq<u8>
    decreases v,
{
    if v < 128 {
        seq![v as u8]
    } else {
        seq![(128 + (v % 128)) as u8] + varint_bytes(v / 128)
    }
}

/// Value and length of the varint at the front of `s`, if any.
pub open spec fn spec_parse_varint(s: Seq<u8>) -> Option<(nat, nat)>
    decreases s.len(),
{
    if s.len() == 0 {
        None
    } else if s[0] < 128 {
        Some((s[0] as nat, 1))
    } else {
        match spec_parse_varint(s.drop_first()) {
            None => None,
            Some((v, n)) => Some(((s[0] - 128) as nat + 128 * v, n + 1)),
        }
    }
}

/// Append the varint encoding of `v`.
pub fn encode_varint(v: u64, out: &mut Vec<u8>)
    ensures
        final(out)@ == old(out)@ + varint_bytes(v as nat),
    decreases v,
{
    if v < 128 {
        out.push(v as u8);
        proof {
            assert(out@ =~= old(out)@ + varint_bytes(v as nat));
        }
    } else {
        let b: u8 = 128 + (v % 128) as u8;
        out.push(b);
        encode_varint(v / 128, out);
        proof {
            assert(out@ =~= old(out)@ + varint_bytes(v as nat));
        }
    }
}

/// Read the varint starting at `pos`. Fails exactly when no complete varint
/// starts there or its value does not fit a `u64`.
pub fn decode_varint(buf: &Vec<u8>, pos: usize) -> (r: Result<(u64, usize), NyxError>)
    requires
        pos <= buf@.len(),
    ensures
        match r {
            Ok(p) => spec_parse_varint(buf@.skip(pos as int)) == Some((p.0 as nat, p.1 as nat))
                && pos + p.1 <= buf@.len() && p.1 >= 1,
            Err(e) => e == NyxError::FrameMalformed && match spec_parse_varint(
                buf@.skip(pos as int),
            ) {
                None => true,
                Some(p) => p.0 > u64::MAX,
            },
        },
    decreases buf@.len() - pos,
{
    if pos == buf.len() {
        return Err(NyxError::FrameMalformed);
    }
    let b = buf[pos];
    if b < 128 {
        Ok((b as u64, 1))
    } else {
        proof {
            assert(buf@.skip(pos as int).drop_first() =~= buf@.skip(pos as int + 1));
        }
        match decode_varint(buf, pos + 1) {
            Err(e) => Err(e),
            Ok((v, n)) => {
                let low: u64 = (b - 128) as u64;
                if v <= (u64::MAX - low) / 128 {
                    Ok((low + 128 * v, n + 1))
                } else {
                    Err(NyxError::FrameMalformed)
                }
            },
        }
    }
}

/// A varint followed by anything parses back to its value.
pub proof fn lemma_varint_round_trip(v: nat, rest: Seq<u8>)
    ensures
        spec_parse_varint(varint_bytes(v) + rest) == Some((v, varint_bytes(v).len())),
    decreases v,
{
    let s = varint_bytes(v) + rest;
    if v < 128 {
        assert(s[0] == v as u8);
    } else {
        lemma_varint_round_trip(v / 128, rest);
        assert(s.drop_first() =~= varint_bytes(v / 128) + rest);
        assert(s[0] == (128 + (v % 128)) as u8);
    }
}

/// Frame kinds carried on a stream.
#[derive(Clone, Copy, PartialEq, Eq, Structural, Debug)]
pub enum FrameType {
    Data,
    Settings,
    WindowUpdate,
    Close,
    Ping,
}

impl FrameType {
    /// Wire code of the frame kind.
    pub open spec fn spec_code(self) -> u8 {
        match self {
            FrameType::Data => 1,
            FrameType::Settings => 2,
            FrameType::WindowUpdate => 3,
            FrameType::Close => 4,
            FrameType::Ping => 5,
        }
    }

    pub fn code(&self) -> (r: u8)
        ensures
            r == self.spec_code(),
    {
        match self {
            FrameType::Data => 1,
            FrameType::Settings => 2,
            FrameType::WindowUpdate => 3,
            FrameType::Close => 4,
            FrameType::Ping => 5,
        }
    }

    /// The frame kind a wire code means, if any.
    pub fn from_code(c: u8) -> (r: Option<FrameType>)
        ensures
            r is Some <==> 1 <= c <= 5,
            r is Some ==> r.unwrap().spec_code() == c,
    {
        if c == 1 {
            Some(FrameType::Data)
        } else if c == 2 {
            Some(FrameType::Settings)
        } else if c == 3 {
            Some(FrameType::WindowUpdate)
        } else if c == 4 {
            Some(FrameType::Close)
        } else if c == 5 {
            Some(FrameType::Ping)
        } else {
            None
        }
    }
}

/// One frame of the stream layer.
pub struct Frame {
    pub frame_type: FrameType,
    pub stream_id: u64,
    pub payload: Vec<u8>,
}

/// The encoding of a frame: type code, stream id, payload length, payload.
pub open spec fn frame_bytes(t: FrameType, stream_id: nat, payload: Seq<u8>) -> Seq<u8> {
    seq![t.spec_code()] + varint_bytes(stream_id) + varint_bytes(payload.len() as nat) + payload
}

/// Append the encoding of `f`.
pub fn encode_frame(f: &Frame, out: &mut Vec<u8>)
    ensures
        final(out)@ == old(out)@ + frame_bytes(f.frame_type, f.stream_id as nat, f.payload@),
{
    out.push(f.frame_type.code());
    encode_varint(f.stream_id, out);
    encode_varint(f.payload.len() as u64, out);
    let ghost mid = out@;
    let mut i: usize = 0;
    while i < f.payload.len()
        invariant
            i <= f.payload@.len(),
            out@ == mid + f.payload@.take(i as int),
        decreases f.payload@.len() - i,
    {
        out.push(f.payload[i]);
        proof {
            assert(mid + f.payload@.take(i as int + 1) =~= (mid + f.payload@.take(i as int)).push(
                f.payload@[i as int],
            ));
        }
        i = i + 1;
    }
    proof {
        assert(f.payload@.take(f.payload@.len() as int) =~= f.payload@);
        assert(out@ =~= old(out)@ + frame_bytes(f.frame_type, f.stream_id as nat, f.payload@));
    }
}

/// Frame type, stream id, payload and total length of the frame at the
/// front of `s`, if a complete one is there.
pub open spec fn spec_parse_frame(s: Seq<u8>) -> Option<(FrameType, nat, Seq<u8>, nat)> {
    if s.len() == 0 {
        None
    } else {
        spec_parse_frame_typed(s)
    }
}

/// The frame kind a wire code means, if any.

pub open spec fn spec_frame_type_of(c: u8) -> Option<FrameType> {
    if c == 1 {
        Some(FrameType::Data)
    } else if c == 2 {
        Some(FrameType::Settings)
    } else if c == 3 {
        Some(FrameType::WindowUpdate)
    } else if c == 4 {
        Some(FrameType::Close)
    } else if c == 5 {
        Some(FrameType::Ping)
    } else {
        None
    }
}

pub open spec fn spec_parse_frame_typed(s: Seq<u8>) -> Option<(FrameType, nat, Seq<u8>, nat)> {
    match spec_frame_type_of(s[0]) {
        None => None,
        Some(t) => match spec_parse_varint(s.skip(1)) {
            None => None,
            Some((sid, n1)) => match spec_parse_varint(s.skip(1 + n1 as int)) {
                None => None,
                Some((len, n2)) => if s.len() >= 1 + n1 + n2 + len {
                    Some(
                        (
                            t,
                            sid,
                            s.subrange(
                                1 + n1 as int + n2 as int,
                                1 + n1 as int + n2 as int + len as int,
                            ),
                            1 + n1 + n2 + len,
                        ),
                    )
                } else {
                    None
                },
            },
        },
    }
}

/// Read the frame starting at `pos`. Fails exactly when no complete frame
/// with a known type code starts there or its stream id overflows a `u64`.
pub fn decode_frame(buf: &Vec<u8>, pos: usize) -> (r: Result<(Frame, usize), NyxError>)
    requires
        pos <= buf@.len(),
    ensures
        match r {
            Ok(p) => spec_parse_frame(buf@.skip(pos as int)) == Some(
                (p.0.frame_type, p.0.stream_id as nat, p.0.payload@, p.1 as nat),
            ) && pos + p.1 <= buf@.len(),
            Err(e) => e == NyxError::FrameMalformed && match spec_parse_frame(
                buf@.skip(pos as int),
            ) {
                None => true,
                Some(p) => p.1 > u64::MAX,
            },
        },
{
    let ghost s = buf@.skip(pos as int);
    if pos == buf.len() {
        return Err(NyxError::FrameMalformed);
    }
    let t = match FrameType::from_code(buf[pos]) {
        None => {
            return Err(NyxError::FrameMalformed);
        },
        Some(t) => t,
    };
    proof {
        assert(buf@.skip(pos as int + 1) =~= s.skip(1));
    }
    let (sid, n1) = match decode_varint(buf, pos + 1) {
        Err(e) => {
            return Err(e);
        },
        Ok(p) => p,
    };
    proof {
        assert(buf@.skip(pos as int + 1 + n1 as int) =~= s.skip(1 + n1 as int));
    }
    let (len, n2) = match decode_varint(buf, pos + 1 + n1) {
        Err(e) => {
            return Err(e);
        },
        Ok(p) => p,
    };
    let header: usize = 1 + n1 + n2;
    let rest: usize = buf.len() - pos - header;
    if len > rest as u64 {
        return Err(NyxError::FrameMalformed);
    }
    let plen: usize = len as usize;
    let start: usize = pos + header;
    let mut payload: Vec<u8> = Vec::new();
    let mut i: usize = 0;
    while i < plen
        invariant
            i <= plen,
            start + plen <= buf@.len(),
            buf@.len() <= usize::MAX,
            payload@ == buf@.subrange(start as int, start as int + i as int),
        decreases plen - i,
    {
        payload.push(buf[start + i]);
        proof {
            assert(buf@.subrange(start as int, start as int + i as int + 1) =~= buf@.subrange(
                start as int,
                start as int + i as int,
            ).push(buf@[start as int + i as int]));
        }
        i = i + 1;
    }
    proof {
        assert(payload@ =~= s.subrange(
            1 + n1 as int + n2 as int,
            1 + n1 as int + n2 as int + len as int,
        ));
    }
    Ok((Frame { frame_type: t, stream_id: sid, payload }, header + plen))
}

/// Big-endian value of a byte string.
pub open spec fn be_val(s: Seq<u8>) -> nat
    decreases s.len(),
{
    if s.len() == 0 {
        0
    } else {
        256 * be_val(s.drop_last()) + s.last() as nat
    }
}

/// A big-endian value is bounded by the size of its byte string.
pub proof fn lemma_be_val_bound(s: Seq<u8>)
    ensures
        be_val(s) < vstd::arithmetic::power2::pow2(8 * s.len()),
    decreases s.len(),
{
    vstd::arithmetic::power2::lemma_pow2_pos(8 * s.len());
    if s.len() > 0 {
        lemma_be_val_bound(s.drop_last());
        vstd::arithmetic::power2::lemma_pow2_adds(8 * (s.len() - 1) as nat, 8);
        assert(vstd::arithmetic::power2::pow2(8) == 256) by {
            vstd::arithmetic::power2::lemma2_to64();
        }
    }
}

/// Big-endian bytes of a setting identifier.
pub open spec fn be16_bytes(id: u16) -> Seq<u8> {
    seq![(id / 256) as u8, (id % 256) as u8]
}

/// Big-endian bytes of a setting value.
pub open spec fn be64_bytes(v: u64) -> Seq<u8> {
    seq![
        (v / 0x100000000000000) as u8,
        ((v / 0x1000000000000) % 256) as u8,
        ((v / 0x10000000000) % 256) as u8,
        ((v / 0x100000000) % 256) as u8,
        ((v / 0x1000000) % 256) as u8,
        ((v / 0x10000) % 256) as u8,
        ((v / 0x100) % 256) as u8,
        (v % 256) as u8,
    ]
}

/// The wire form of a SETTINGS payload: ten bytes per entry.
pub open spec fn settings_bytes(entries: Seq<(u16, u64)>) -> Seq<u8>
    decreases entries.len(),
{
    if entries.len() == 0 {
        Seq::empty()
    } else {
        settings_bytes(entries.drop_last()) + be16_bytes(entries.last().0) + be64_bytes(
            entries.last().1,
        )
    }
}

/// Encode a SETTINGS payload.
pub fn build_settings_frame(entries: &Vec<(u16, u64)>) -> (r: Vec<u8>)
    ensures
        r@ == settings_bytes(entries@),
{
    let mut out: Vec<u8> = Vec::new();
    let mut i: usize = 0;
    while i < entries.len()
        invariant
            i <= entries@.len(),
            out@ == settings_bytes(entries@.take(i as int)),
        decreases entries@.len() - i,
    {
        let (id, v) = entries[i];
        out.push((id / 256) as u8);
        out.push((id % 256) as u8);
        out.push((v / 0x100000000000000) as u8);
        out.push(((v / 0x1000000000000) % 256) as u8);
        out.push(((v / 0x10000000000) % 256) as u8);
        out.push(((v / 0x100000000) % 256) as u8);
        out.push(((v / 0x1000000) % 256) as u8);
        out.push(((v / 0x10000) % 256) as u8);
        out.push(((v / 0x100) % 256) as u8);
        out.push((v % 256) as u8);
        proof {
            assert(entries@.take(i as int + 1).drop_last() =~= entries@.take(i as int));
            assert(out@ =~= settings_bytes(entries@.take(i as int + 1)));
        }
        i = i + 1;
    }
    proof {
        assert(entries@.take(entries@.len() as int) =~= entries@);
    }
    out
}

/// The entries a well-formed SETTINGS payload carries.
pub open spec fn settings_entries_of(s: Seq<u8>) -> Seq<(u16, u64)> {
    Seq::new(
        s.len() / 10,
        |j: int|
            (
                be_val(s.subrange(10 * j, 10 * j + 2)) as u16,
                be_val(s.subrange(10 * j + 2, 10 * j + 10)) as u64,
            ),
    )
}

/// Read the big-endian value of `buf[start..start+len]`; at most 8 bytes, so
/// it fits a `u64`.
pub fn read_be(buf: &Vec<u8>, start: usize, len: usize) -> (r: u64)
    requires
        start + len <= buf@.len(),
        len <= 8,
    ensures
        r == be_val(buf@.subrange(start as int, start as int + len as int)),
{
    let ghost chunk = buf@.subrange(start as int, start as int + len as int);
    let total: usize = buf.len();
    let mut v: u64 = 0;
    let mut m: usize = 0;
    while m < len
        invariant
            m <= len,
            len <= 8,
            start + len <= buf@.len(),
            buf@.len() == total,
            chunk == buf@.subrange(start as int, start as int + len as int),
            v == be_val(chunk.take(m as int)),
        decreases len - m,
    {
        proof {
            lemma_be_val_bound(chunk.take(m as int));
            vstd::arithmetic::power2::lemma2_to64();
            vstd::arithmetic::power2::lemma2_to64_rest();
            if 8 * (m as nat) < 56 {
                vstd::arithmetic::power2::lemma_pow2_strictly_increases(8 * (m as nat), 56);
            }
            assert(chunk.take(m as int + 1).drop_last() =~= chunk.take(m as int));
            assert(chunk.take(m as int + 1).last() == buf@[start as int + m as int]);
        }
        v = v * 256 + buf[start + m] as u64;
        m = m + 1;
    }
    proof {
        assert(chunk.take(len as int) =~= chunk);
    }
    v
}

/// Decode a SETTINGS payload. Fails exactly when the length is not a whole
/// number of ten-byte entries.
pub fn parse_settings_frame(buf: &Vec<u8>) -> (r: Result<Vec<(u16, u64)>, NyxError>)
    ensures
        r is Ok <==> buf@.len() % 10 == 0,
        r matches Ok(v) ==> v@ == settings_entries_of(buf@),
        r is Err ==> r == Result::<Vec<(u16, u64)>, NyxError>::Err(NyxError::FrameMalformed),
{
    if buf.len() % 10 != 0 {
        return Err(NyxError::FrameMalformed);
    }
    let count: usize = buf.len() / 10;
    let total: usize = buf.len();
    proof {
        vstd::arithmetic::div_mod::lemma_fundamental_div_mod(total as int, 10);
    }
    let ghost target = settings_entries_of(buf@);
    let mut out: Vec<(u16, u64)> = Vec::new();
    let mut i: usize = 0;
    while i < count
        invariant
            i <= count,
            buf@.len() == total,
            count == buf@.len() / 10,
            10 * count == buf@.len(),
            target == settings_entries_of(buf@),
            out@.len() == i,
            forall|j: int| 0 <= j < i ==> out@[j] == target[j],
        decreases count - i,
    {
        let base: usize = 10 * i;
        let id_raw = read_be(buf, base, 2);
        let v = read_be(buf, base + 2, 8);
        proof {
            lemma_be_val_bound(buf@.subrange(base as int, base as int + 2));
            vstd::arithmetic::power2::lemma2_to64();
            assert(buf@.subrange(base as int + 2, base as int + 2 + 8) =~= buf@.subrange(
                10 * i as int + 2,
                10 * i as int + 10,
            ));
        }
        let id = id_raw as u16;
        out.push((id, v));
        i = i + 1;
    }
    proof {
        assert(out@ =~= target);
    }
    Ok(out)
}

/// Two-byte and eight-byte big-endian values decode back to themselves.
proof fn lemma_be16_round(id: u16)
    ensures
        be_val(be16_bytes(id)) == id,
{
    let s = be16_bytes(id);
    reveal_with_fuel(be_val, 4);
    assert(s[0] == (id / 256) as u8);
    assert(s[1] == (id % 256) as u8);
    assert(s.take(1).drop_last() =~= Seq::<u8>::empty());
    assert(s.take(2) =~= s);
    assert(s.drop_last() =~= s.take(1));
    assert(be_val(s) == 256 * (id / 256) + id % 256);
    vstd::arithmetic::div_mod::lemma_fundamental_div_mod(id as int, 256);
}

pub proof fn lemma_be64_round(v: u64)
    ensures
        be_val(be64_bytes(v)) == v,
{
    let s = be64_bytes(v);
    let vi = v as int;
    reveal_with_fuel(be_val, 10);
    vstd::arithmetic::div_mod::lemma_div_is_ordered(vi, u64::MAX as int, 0x100000000000000);
    assert(s[0] == (v / 0x100000000000000) as u8);
    assert(s[1] == ((v / 0x1000000000000) % 256) as u8);
    assert(s[2] == ((v / 0x10000000000) % 256) as u8);
    assert(s[3] == ((v / 0x100000000) % 256) as u8);
    assert(s[4] == ((v / 0x1000000) % 256) as u8);
    assert(s[5] == ((v / 0x10000) % 256) as u8);
    assert(s[6] == ((v / 0x100) % 256) as u8);
    assert(s[7] == (v % 256) as u8);
    assert(s.take(1).drop_last() =~= Seq::<u8>::empty());
    assert(be_val(s.take(1)) == vi / 0x100000000000000);
    assert(s.take(2).drop_last() =~= s.take(1));
    assert(be_val(s.take(2)) == vi / 0x1000000000000) by {
        vstd::arithmetic::div_mod::lemma_div_denominator(vi, 0x1000000000000, 256);
        vstd::arithmetic::div_mod::lemma_fundamental_div_mod(vi / 0x1000000000000, 256);
    }
    assert(s.take(3).drop_last() =~= s.take(2));
    assert(be_val(s.take(3)) == vi / 0x10000000000) by {
        vstd::arithmetic::div_mod::lemma_div_denominator(vi, 0x10000000000, 256);
        vstd::arithmetic::div_mod::lemma_fundamental_div_mod(vi / 0x10000000000, 256);
    }
    assert(s.take(4).drop_last() =~= s.take(3));
    assert(be_val(s.take(4)) == vi / 0x100000000) by {
        vstd::arithmetic::div_mod::lemma_div_denominator(vi, 0x100000000, 256);
        vstd::arithmetic::div_mod::lemma_fundamental_div_mod(vi / 0x100000000, 256);
    }
    assert(s.take(5).drop_last() =~= s.take(4));
    assert(be_val(s.take(5)) == vi / 0x1000000) by {
        vstd::arithmetic::div_mod::lemma_div_denominator(vi, 0x1000000, 256);
        vstd::arithmetic::div_mod::lemma_fundamental_div_mod(vi / 0x1000000, 256);
    }
    assert(s.take(6).drop_last() =~= s.take(5));
    assert(be_val(s.take(6)) == vi / 0x10000) by {
        vstd::arithmetic::div_mod::lemma_div_denominator(vi, 0x10000, 256);
        vstd::arithmetic::div_mod::lemma_fundamental_div_mod(vi / 0x10000, 256);
    }
    assert(s.take(7).drop_last() =~= s.take(6));
    assert(be_val(s.take(7)) == vi / 0x100) by {
        vstd::arithmetic::div_mod::lemma_div_denominator(vi, 0x100, 256);
        vstd::arithmetic::div_mod::lemma_fundamental_div_mod(vi / 0x100, 256);
    }
    assert(s.take(8) =~= s);
    assert(s.drop_last() =~= s.take(7));
    assert(be_val(s) == vi) by {
        vstd::arithmetic::div_mod::lemma_fundamental_div_mod(vi, 256);
    }
}

/// An encoded SETTINGS payload decodes back to the same entries.
pub proof fn lemma_settings_round_trip(entries: Seq<(u16, u64)>)
    ensures
        settings_bytes(entries).len() == 10 * entries.len(),
        settings_entries_of(settings_bytes(entries)) == entries,
    decreases entries.len(),
{
    let s = settings_bytes(entries);
    if entries.len() == 0 {
        assert(settings_entries_of(s) =~= entries);
    } else {
        let prefix = entries.drop_last();
        lemma_settings_round_trip(prefix);
        let sp = settings_bytes(prefix);
        let n = prefix.len() as int;
        assert forall|j: int| 0 <= j < entries.len() implies settings_entries_of(s)[j]
            == entries[j] by {
            if j < n {
                assert(s.subrange(10 * j, 10 * j + 2) =~= sp.subrange(10 * j, 10 * j + 2));
                assert(s.subrange(10 * j + 2, 10 * j + 10) =~= sp.subrange(
                    10 * j + 2,
                    10 * j + 10,
                ));
                assert(settings_entries_of(sp)[j] == prefix[j]);
            } else {
                assert(s.subrange(10 * j, 10 * j + 2) =~= be16_bytes(entries.last().0));
                assert(s.subrange(10 * j + 2, 10 * j + 10) =~= be64_bytes(entries.last().1));
                lemma_be16_round(entries.last().0);
                lemma_be64_round(entries.last().1);
            }
        }
        assert(settings_entries_of(s) =~= entries);
    }
}

/// An encoded frame followed by anything parses back to the same frame.
pub proof fn lemma_frame_round_trip(t: FrameType, stream_id: nat, payload: Seq<u8>, rest: Seq<u8>)
    requires
        stream_id <= u64::MAX,
    ensures
        spec_parse_frame(frame_bytes(t, stream_id, payload) + rest) == Some(
            (
                t,
                stream_id,
                payload,
                frame_bytes(t, stream_id, payload).len() as nat,
            ),
        ),
{
    let fb = frame_bytes(t, stream_id, payload);
    let s = fb + rest;
    let v1 = varint_bytes(stream_id);
    let v2 = varint_bytes(payload.len() as nat);
    assert(s[0] == t.spec_code());
    assert(spec_frame_type_of(t.spec_code()) == Some(t));
    assert(s.skip(1) =~= v1 + (v2 + (payload + rest)));
    lemma_varint_round_trip(stream_id, v2 + (payload + rest));
    let n1 = v1.len();
    assert(s.skip(1 + n1 as int) =~= v2 + (payload + rest));
    lemma_varint_round_trip(payload.len() as nat, payload + rest);
    let n2 = v2.len();
    assert(s.len() >= 1 + n1 + n2 + payload.len());
    assert(s.subrange(
        1 + n1 as int + n2 as int,
        1 + n1 as int + n2 as int + payload.len() as int,
    ) =~= payload);
}

} // verus!
