//! Big-endian integer codecs and the length-prefixed frame formats used by
//! the redo log on disk and by the wire protocol.
//!
//! A redo-log frame is `[len32_be | header_len32_be | header | payload]`
//! where `len32 = header_len + payload_len`. Wire frames are a bare payload
//! behind an 8-, 16- or 32-bit big-endian length prefix.
use vstd::prelude::*;

verus! {

pub open spec fn spec_u16_to_be(x: u16) -> Seq<u8> {
    seq![((x >> 8u16) & 0xffu16) as u8, (x & 0xffu16) as u8]
}

pub open spec fn spec_u16_from_be(s: Seq<u8>) -> u16
    recommends
        s.len() == 2,
{
    (((s[0] as u16) << 8u16) | (s[1] as u16)) as u16
}

pub proof fn lemma_u16_be_round_trip(x: u16)
    ensures
        spec_u16_to_be(x).len() == 2,
        spec_u16_from_be(spec_u16_to_be(x)) == x,
{
    assert((((((x >> 8u16) & 0xffu16) as u8) as u16) << 8u16) | (((x & 0xffu16) as u8) as u16)
        == x) by (bit_vector);
}

pub fn u16_to_be(x: u16) -> (r: Vec<u8>)
    ensures
        r@ == spec_u16_to_be(x),
{
    let mut r: Vec<u8> = Vec::new();
    r.push(((x >> 8u16) & 0xffu16) as u8);
    r.push((x & 0xffu16) as u8);
    proof {
        assert(r@ =~= spec_u16_to_be(x));
    }
    r
}

pub fn u16_from_be(b0: u8, b1: u8) -> (r: u16)
    ensures
        r == spec_u16_from_be(seq![b0, b1]),
{
    ((b0 as u16) << 8u16) | (b1 as u16)
}

pub open spec fn spec_u32_to_be(x: u32) -> Seq<u8> {
    seq![
        ((x >> 24u32) & 0xffu32) as u8,
        ((x >> 16u32) & 0xffu32) as u8,
        ((x >> 8u32) & 0xffu32) as u8,
        (x & 0xffu32) as u8,
    ]
}

pub open spec fn spec_u32_from_be(s: Seq<u8>) -> u32
    recommends
        s.len() == 4,
{
    (((s[0] as u32) << 24u32) | ((s[1] as u32) << 16u32) | ((s[2] as u32) << 8u32) | (
    s[3] as u32)) as u32
}

pub proof fn lemma_u32_be_round_trip(x: u32)
    ensures
        spec_u32_to_be(x).len() == 4,
        spec_u32_from_be(spec_u32_to_be(x)) == x,
{
    assert(((((((x >> 24u32) & 0xffu32) as u8) as u32) << 24u32) | (((((x >> 16u32)
        & 0xffu32) as u8) as u32) << 16u32) | (((((x >> 8u32) & 0xffu32) as u8) as u32)
        << 8u32) | (((x & 0xffu32) as u8) as u32)) == x) by (bit_vector);
}

pub fn u32_to_be(x: u32) -> (r: Vec<u8>)
    ensures
        r@ == spec_u32_to_be(x),
{
    let mut r: Vec<u8> = Vec::new();
    r.push(((x >> 24u32) & 0xffu32) as u8);
    r.push(((x >> 16u32) & 0xffu32) as u8);
    r.push(((x >> 8u32) & 0xffu32) as u8);
    r.push((x & 0xffu32) as u8);
    proof {
        assert(r@ =~= spec_u32_to_be(x));
    }
    r
}

pub fn u32_from_be(b0: u8, b1: u8, b2: u8, b3: u8) -> (r: u32)
    ensures
        r == spec_u32_from_be(seq![b0, b1, b2, b3]),
{
    ((b0 as u32) << 24u32) | ((b1 as u32) << 16u32) | ((b2 as u32) << 8u32) | (b3 as u32)
}

pub open spec fn spec_u64_to_be(x: u64) -> Seq<u8> {
    seq![
        ((x >> 56u64) & 0xffu64) as u8,
        ((x >> 48u64) & 0xffu64) as u8,
        ((x >> 40u64) & 0xffu64) as u8,
        ((x >> 32u64) & 0xffu64) as u8,
        ((x >> 24u64) & 0xffu64) as u8,
        ((x >> 16u64) & 0xffu64) as u8,
        ((x >> 8u64) & 0xffu64) as u8,
        (x & 0xffu64) as u8,
    ]
}

pub open spec fn spec_u64_from_be(s: Seq<u8>) -> u64
    recommends
        s.len() == 8,
{
    (((s[0] as u64) << 56u64) | ((s[1] as u64) << 48u64) | ((s[2] as u64) << 40u64) | ((
    s[3] as u64) << 32u64) | ((s[4] as u64) << 24u64) | ((s[5] as u64) << 16u64) | ((
    s[6] as u64) << 8u64) | (s[7] as u64)) as u64
}

pub proof fn lemma_u64_be_round_trip(x: u64)
    ensures
        spec_u64_to_be(x).len() == 8,
        spec_u64_from_be(spec_u64_to_be(x)) == x,
{
    assert(((((((x >> 56u64) & 0xffu64) as u8) as u64) << 56u64) | (((((x >> 48u64)
        & 0xffu64) as u8) as u64) << 48u64) | (((((x >> 40u64) & 0xffu64) as u8) as u64)
        << 40u64) | (((((x >> 32u64) & 0xffu64) as u8) as u64) << 32u64) | (((((x
        >> 24u64) & 0xffu64) as u8) as u64) << 24u64) | (((((x >> 16u64) & 0xffu64) as u8) as u64)
        << 16u64) | (((((x >> 8u64) & 0xffu64) as u8) as u64) << 8u64) | (((x
        & 0xffu64) as u8) as u64)) == x) by (bit_vector);
}

pub fn u64_to_be(x: u64) -> (r: Vec<u8>)
    ensures
        r@ == spec_u64_to_be(x),
{
    let mut r: Vec<u8> = Vec::new();
    r.push(((x >> 56u64) & 0xffu64) as u8);
    r.push(((x >> 48u64) & 0xffu64) as u8);
    r.push(((x >> 40u64) & 0xffu64) as u8);
    r.push(((x >> 32u64) & 0xffu64) as u8);
    r.push(((x >> 24u64) & 0xffu64) as u8);
    r.push(((x >> 16u64) & 0xffu64) as u8);
    r.push(((x >> 8u64) & 0xffu64) as u8);
    r.push((x & 0xffu64) as u8);
    proof {
        assert(r@ =~= spec_u64_to_be(x));
    }
    r
}

pub fn u64_from_be(b: &Vec<u8>) -> (r: u64)
    requires
        b@.len() == 8,
    ensures
        r == spec_u64_from_be(b@),
{
    ((b[0] as u64) << 56u64) | ((b[1] as u64) << 48u64) | ((b[2] as u64) << 40u64) | ((
    b[3] as u64) << 32u64) | ((b[4] as u64) << 24u64) | ((b[5] as u64) << 16u64) | ((
    b[6] as u64) << 8u64) | (b[7] as u64)
}

/// The byte image of one redo-log frame holding the given header and payload.
pub open spec fn spec_frame(header: Seq<u8>, payload: Seq<u8>) -> Seq<u8> {
    spec_u32_to_be((header.len() + payload.len()) as u32) + spec_u32_to_be(
        header.len() as u32,
    ) + header + payload
}

/// Encodes one redo-log frame: total length, header length, header bytes,
/// payload bytes.
pub fn encode_frame(header: &Vec<u8>, payload: &Vec<u8>) -> (r: Vec<u8>)
    requires
        header@.len() + payload@.len() <= u32::MAX,
    ensures
        r@ == spec_frame(header@, payload@),
{
    let total: u32 = (header.len() as u32) + (payload.len() as u32);
    let mut r: Vec<u8> = u32_to_be(total);
    let hl = u32_to_be(header.len() as u32);
    let mut i: usize = 0;
    while i < hl.len()
        invariant
            i <= hl@.len(),
            hl@.len() == 4,
            r@ == spec_u32_to_be((header@.len() + payload@.len()) as u32) + hl@.subrange(
                0,
                i as int,
            ),
        decreases hl@.len() - i,
    {
        let b = hl[i];
        r.push(b);
        i = i + 1;
        proof {
            assert(hl@.subrange(0, i as int) =~= hl@.subrange(0, i - 1) + seq![hl@[i - 1]]);
        }
    }
    proof {
        assert(hl@.subrange(0, 4) =~= hl@);
    }
    let mut j: usize = 0;
    while j < header.len()
        invariant
            j <= header@.len(),
            r@ == spec_u32_to_be((header@.len() + payload@.len()) as u32) + spec_u32_to_be(
                header@.len() as u32,
            ) + header@.subrange(0, j as int),
        decreases header@.len() - j,
    {
        let b = header[j];
        r.push(b);
        j = j + 1;
        proof {
            assert(header@.subrange(0, j as int) =~= header@.subrange(0, j - 1) + seq![
                header@[j - 1],
            ]);
        }
    }
    proof {
        assert(header@.subrange(0, header@.len() as int) =~= header@);
    }
    let mut k: usize = 0;
    while k < payload.len()
        invariant
            k <= payload@.len(),
            r@ == spec_u32_to_be((header@.len() + payload@.len()) as u32) + spec_u32_to_be(
                header@.len() as u32,
            ) + header@ + payload@.subrange(0, k as int),
        decreases payload@.len() - k,
    {
        let b = payload[k];
        r.push(b);
        k = k + 1;
        proof {
            assert(payload@.subrange(0, k as int) =~= payload@.subrange(0, k - 1) + seq![
                payload@[k - 1],
            ]);
        }
    }
    proof {
        assert(payload@.subrange(0, payload@.len() as int) =~= payload@);
        assert(r@ =~= spec_frame(header@, payload@));
    }
    r
}

/// Decodes the frame that starts at `pos` in `buf`; returns the header
/// bytes, the payload bytes, and the position just past the frame.
pub fn decode_frame(buf: &Vec<u8>, pos: usize) -> (r: Option<(Vec<u8>, Vec<u8>, usize)>)
    ensures
        r matches Some((header, payload, next)) ==> {
            &&& pos + 8 + header@.len() + payload@.len() == next <= buf@.len()
            &&& buf@.subrange(pos as int, next as int) == spec_frame(header@, payload@)
        },
{
    if buf.len() < 8 || pos > buf.len() - 8 {
        return None;
    }
    let total = u32_from_be(buf[pos], buf[pos + 1], buf[pos + 2], buf[pos + 3]);
    let hlen = u32_from_be(buf[pos + 4], buf[pos + 5], buf[pos + 6], buf[pos + 7]);
    if hlen > total {
        return None;
    }
    let total_us = total as usize;
    if total_us > buf.len() - 8 || pos > buf.len() - 8 - total_us {
        return None;
    }
    let plen: usize = total_us - (hlen as usize);
    let mut header: Vec<u8> = Vec::new();
    let mut i: usize = 0;
    while i < hlen as usize
        invariant
            i <= hlen as usize,
            pos + 8 + total as usize <= buf@.len(),
            buf@.len() <= usize::MAX,
            hlen <= total,
            header@ == buf@.subrange(pos + 8, pos + 8 + i as int),
        decreases hlen as usize - i,
    {
        header.push(buf[pos + 8 + i]);
        i = i + 1;
        proof {
            assert(buf@.subrange(pos + 8, pos + 8 + i as int) =~= buf@.subrange(
                pos + 8,
                pos + 8 + i - 1,
            ) + seq![buf@[pos + 8 + i - 1]]);
        }
    }
    let mut payload: Vec<u8> = Vec::new();
    let mut j: usize = 0;
    let pbase: usize = pos + 8 + hlen as usize;
    while j < plen
        invariant
            j <= plen,
            pbase == pos + 8 + hlen as usize,
            plen == total as usize - hlen as usize,
            hlen <= total,
            pos + 8 + total as usize <= buf@.len(),
            buf@.len() <= usize::MAX,
            payload@ == buf@.subrange(pbase as int, pbase + j as int),
        decreases plen - j,
    {
        payload.push(buf[pbase + j]);
        j = j + 1;
        proof {
            assert(buf@.subrange(pbase as int, pbase + j as int) =~= buf@.subrange(
                pbase as int,
                pbase + j - 1,
            ) + seq![buf@[pbase + j - 1]]);
        }
    }
    let next: usize = pos + 8 + total_us;
    proof {
        let fr = spec_frame(header@, payload@);
        lemma_u32_be_round_trip(total);
        lemma_u32_be_round_trip(hlen);
        let sub = buf@.subrange(pos as int, next as int);
        assert(header@.len() == hlen as int);
        assert(payload@.len() == plen as int);
        assert(spec_u32_from_be(seq![buf@[pos as int], buf@[pos + 1], buf@[pos + 2], buf@[pos + 3]])
            == total);
        assert(spec_u32_from_be(seq![buf@[pos + 4], buf@[pos + 5], buf@[pos + 6], buf@[pos + 7]])
            == hlen);
        assert(seq![buf@[pos as int], buf@[pos + 1], buf@[pos + 2], buf@[pos + 3]] =~= sub.subrange(
            0,
            4,
        ));
        assert(seq![buf@[pos + 4], buf@[pos + 5], buf@[pos + 6], buf@[pos + 7]] =~= sub.subrange(
            4,
            8,
        ));
        lemma_u32_be_unique(total, sub.subrange(0, 4));
        lemma_u32_be_unique(hlen, sub.subrange(4, 8));
        assert(sub =~= fr);
    }
    Some((header, payload, next))
}

/// A 4-byte sequence whose big-endian value is `x` is the big-endian image
/// of `x`.
pub proof fn lemma_u32_be_unique(x: u32, s: Seq<u8>)
    requires
        s.len() == 4,
        spec_u32_from_be(s) == x,
    ensures
        s == spec_u32_to_be(x),
{
    let b0 = s[0];
    let b1 = s[1];
    let b2 = s[2];
    let b3 = s[3];
    let y = spec_u32_from_be(s);
    assert(((((b0 as u32) << 24u32) | ((b1 as u32) << 16u32) | ((b2 as u32) << 8u32) | (
    b3 as u32)) >> 24u32) & 0xffu32 == b0 as u32) by (bit_vector);
    assert(((((b0 as u32) << 24u32) | ((b1 as u32) << 16u32) | ((b2 as u32) << 8u32) | (
    b3 as u32)) >> 16u32) & 0xffu32 == b1 as u32) by (bit_vector);
    assert(((((b0 as u32) << 24u32) | ((b1 as u32) << 16u32) | ((b2 as u32) << 8u32) | (
    b3 as u32)) >> 8u32) & 0xffu32 == b2 as u32) by (bit_vector);
    assert((((b0 as u32) << 24u32) | ((b1 as u32) << 16u32) | ((b2 as u32) << 8u32) | (
    b3 as u32)) & 0xffu32 == b3 as u32) by (bit_vector);
    assert(s =~= spec_u32_to_be(x));
}

} // verus!
