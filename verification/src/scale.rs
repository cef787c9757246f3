//! Byte-level primitives of the wire format shared with the provider:
//! little-endian fixed-width integers and the compact length prefix.
//!
//! Every primitive comes in four parts: a spec encoding (`le16`, ...), a
//! spec decoder (`sd_u16`, ...) that consumes a prefix of a byte sequence,
//! an executable encoder that appends to a buffer, and an executable
//! decoder on slices. Round-trip lemmas tie each decoder to its encoder.

use vstd::prelude::*;
use vstd::slice::{slice_index_get, slice_subrange, slice_to_vec};

verus! {

// ---------------------------------------------------------------------------
// Spec encodings
// ---------------------------------------------------------------------------

/// Two little-endian bytes of a 16-bit value.
pub open spec fn le16(v: u16) -> Seq<u8> {
    seq![(v % 0x100) as u8, ((v / 0x100) % 0x100) as u8]
}

/// Four little-endian bytes of a 32-bit value.
pub open spec fn le32(v: u32) -> Seq<u8> {
    seq![
        (v % 0x100) as u8,
        ((v / 0x100) % 0x100) as u8,
        ((v / 0x10000) % 0x100) as u8,
        ((v / 0x1000000) % 0x100) as u8,
    ]
}

/// Sixteen little-endian bytes of a 128-bit value.
pub open spec fn le128(v: u128) -> Seq<u8> {
    seq![
        (v % 0x100) as u8,
        ((v / 0x100) % 0x100) as u8,
        ((v / 0x10000) % 0x100) as u8,
        ((v / 0x1000000) % 0x100) as u8,
        ((v / 0x100000000) % 0x100) as u8,
        ((v / 0x10000000000) % 0x100) as u8,
        ((v / 0x1000000000000) % 0x100) as u8,
        ((v / 0x100000000000000) % 0x100) as u8,
        ((v / 0x10000000000000000) % 0x100) as u8,
        ((v / 0x1000000000000000000) % 0x100) as u8,
        ((v / 0x100000000000000000000) % 0x100) as u8,
        ((v / 0x10000000000000000000000) % 0x100) as u8,
        ((v / 0x1000000000000000000000000) % 0x100) as u8,
        ((v / 0x100000000000000000000000000) % 0x100) as u8,
        ((v / 0x10000000000000000000000000000) % 0x100) as u8,
        ((v / 0x1000000000000000000000000000000) % 0x100) as u8,
    ]
}

/// The value read back from two little-endian bytes.
pub open spec fn u16_of_le(b: Seq<u8>) -> u16
    recommends
        b.len() >= 2,
{
    (b[0] as u16 + b[1] as u16 * 0x100) as u16
}

/// The value read back from four little-endian bytes.
pub open spec fn u32_of_le(b: Seq<u8>) -> u32
    recommends
        b.len() >= 4,
{
    (b[0] as u32 + b[1] as u32 * 0x100 + b[2] as u32 * 0x10000 + b[3] as u32 * 0x1000000) as u32
}

/// The value read back from sixteen little-endian bytes.
pub open spec fn u128_of_le(b: Seq<u8>) -> u128
    recommends
        b.len() >= 16,
{
    (b[0] as u128 + b[1] as u128 * 0x100 + b[2] as u128 * 0x10000 + b[3] as u128 * 0x1000000
        + b[4] as u128 * 0x100000000 + b[5] as u128 * 0x10000000000 + b[6] as u128
        * 0x1000000000000 + b[7] as u128 * 0x100000000000000 + b[8] as u128 * 0x10000000000000000
        + b[9] as u128 * 0x1000000000000000000 + b[10] as u128 * 0x100000000000000000000 + b[11]
        as u128 * 0x10000000000000000000000 + b[12] as u128 * 0x1000000000000000000000000 + b[13]
        as u128 * 0x100000000000000000000000000 + b[14] as u128 * 0x10000000000000000000000000000
        + b[15] as u128 * 0x1000000000000000000000000000000) as u128
}

/// The compact length prefix of the wire format: two low mode bits select
/// one, two, four or five bytes, the remaining bits carry the value.
pub open spec fn spec_compact_u32(n: u32) -> Seq<u8> {
    if n < 64 {
        seq![(n * 4) as u8]
    } else if n < 16384 {
        le16((n * 4 + 1) as u16)
    } else if n < 0x40000000 {
        le32((n * 4 + 2) as u32)
    } else {
        seq![3u8] + le32(n)
    }
}

// ---------------------------------------------------------------------------
// Spec decoders: each consumes a prefix and returns the value and the rest.
// ---------------------------------------------------------------------------

pub open spec fn sd_u8(b: Seq<u8>) -> Option<(u8, Seq<u8>)> {
    if b.len() >= 1 {
        Some((b[0], b.skip(1)))
    } else {
        None
    }
}

pub open spec fn sd_u16(b: Seq<u8>) -> Option<(u16, Seq<u8>)> {
    if b.len() >= 2 {
        Some((u16_of_le(b.take(2)), b.skip(2)))
    } else {
        None
    }
}

pub open spec fn sd_u32(b: Seq<u8>) -> Option<(u32, Seq<u8>)> {
    if b.len() >= 4 {
        Some((u32_of_le(b.take(4)), b.skip(4)))
    } else {
        None
    }
}

pub open spec fn sd_u128(b: Seq<u8>) -> Option<(u128, Seq<u8>)> {
    if b.len() >= 16 {
        Some((u128_of_le(b.take(16)), b.skip(16)))
    } else {
        None
    }
}

pub open spec fn sd_bytes32(b: Seq<u8>) -> Option<(Seq<u8>, Seq<u8>)> {
    if b.len() >= 32 {
        Some((b.take(32), b.skip(32)))
    } else {
        None
    }
}

pub open spec fn sd_compact_u32(b: Seq<u8>) -> Option<(u32, Seq<u8>)> {
    if b.len() < 1 {
        None
    } else {
        let b0 = b[0];
        if b0 % 4 == 0 {
            Some(((b0 / 4) as u32, b.skip(1)))
        } else if b0 % 4 == 1 {
            if b.len() >= 2 {
                Some(((u16_of_le(b.take(2)) / 4) as u32, b.skip(2)))
            } else {
                None
            }
        } else if b0 % 4 == 2 {
            if b.len() >= 4 {
                Some(((u32_of_le(b.take(4)) / 4) as u32, b.skip(4)))
            } else {
                None
            }
        } else {
            if b0 == 3 && b.len() >= 5 {
                Some((u32_of_le(b.subrange(1, 5)), b.skip(5)))
            } else {
                None
            }
        }
    }
}

// ---------------------------------------------------------------------------
// Sequence helpers
// ---------------------------------------------------------------------------

pub proof fn lemma_concat_parts(a: Seq<u8>, b: Seq<u8>)
    ensures
        (a + b).skip(a.len() as int) == b,
        (a + b).take(a.len() as int) == a,
        (a + b).len() == a.len() + b.len(),
{
    assert((a + b).skip(a.len() as int) =~= b);
    assert((a + b).take(a.len() as int) =~= a);
}

pub proof fn lemma_concat_assoc(a: Seq<u8>, b: Seq<u8>, c: Seq<u8>)
    ensures
        (a + b) + c == a + (b + c),
{
    assert((a + b) + c =~= a + (b + c));
}

// ---------------------------------------------------------------------------
// Round-trip lemmas: decoding an encoding yields the value and the rest.
// ---------------------------------------------------------------------------

pub proof fn lemma_sd_u8(x: u8, rest: Seq<u8>)
    ensures
        sd_u8(seq![x] + rest) == Some((x, rest)),
{
    lemma_concat_parts(seq![x], rest);
}

pub proof fn lemma_le16_value(v: u16)
    ensures
        le16(v).len() == 2,
        u16_of_le(le16(v)) == v,
{
    assert((((v % 0x100) as u8) as u16 + ((((v / 0x100) % 0x100) as u8) as u16) * 0x100) as u16
        == v) by (bit_vector);
}

pub proof fn lemma_sd_u16(v: u16, rest: Seq<u8>)
    ensures
        sd_u16(le16(v) + rest) == Some((v, rest)),
{
    lemma_concat_parts(le16(v), rest);
    lemma_le16_value(v);
}

pub proof fn lemma_le32_value(v: u32)
    ensures
        le32(v).len() == 4,
        u32_of_le(le32(v)) == v,
{
    assert((((v % 0x100) as u8) as u32 + ((((v / 0x100) % 0x100) as u8) as u32) * 0x100 + ((((v
        / 0x10000) % 0x100) as u8) as u32) * 0x10000 + ((((v / 0x1000000) % 0x100) as u8) as u32)
        * 0x1000000) as u32 == v) by (bit_vector);
}

pub proof fn lemma_sd_u32(v: u32, rest: Seq<u8>)
    ensures
        sd_u32(le32(v) + rest) == Some((v, rest)),
{
    lemma_concat_parts(le32(v), rest);
    lemma_le32_value(v);
}

pub proof fn lemma_le128_value(v: u128)
    ensures
        le128(v).len() == 16,
        u128_of_le(le128(v)) == v,
{
    assert((((v % 0x100) as u8) as u128 + ((((v / 0x100) % 0x100) as u8) as u128) * 0x100 + ((((v
        / 0x10000) % 0x100) as u8) as u128) * 0x10000 + ((((v / 0x1000000) % 0x100) as u8) as u128)
        * 0x1000000 + ((((v / 0x100000000) % 0x100) as u8) as u128) * 0x100000000 + ((((v
        / 0x10000000000) % 0x100) as u8) as u128) * 0x10000000000 + ((((v / 0x1000000000000)
        % 0x100) as u8) as u128) * 0x1000000000000 + ((((v / 0x100000000000000) % 0x100) as u8)
        as u128) * 0x100000000000000 + ((((v / 0x10000000000000000) % 0x100) as u8) as u128)
        * 0x10000000000000000 + ((((v / 0x1000000000000000000) % 0x100) as u8) as u128)
        * 0x1000000000000000000 + ((((v / 0x100000000000000000000) % 0x100) as u8) as u128)
        * 0x100000000000000000000 + ((((v / 0x10000000000000000000000) % 0x100) as u8) as u128)
        * 0x10000000000000000000000 + ((((v / 0x1000000000000000000000000) % 0x100) as u8) as u128)
        * 0x1000000000000000000000000 + ((((v / 0x100000000000000000000000000) % 0x100) as u8)
        as u128) * 0x100000000000000000000000000 + ((((v / 0x10000000000000000000000000000)
        % 0x100) as u8) as u128) * 0x10000000000000000000000000000 + ((((v
        / 0x1000000000000000000000000000000) % 0x100) as u8) as u128)
        * 0x1000000000000000000000000000000) as u128 == v) by (bit_vector);
}

pub proof fn lemma_sd_u128(v: u128, rest: Seq<u8>)
    ensures
        sd_u128(le128(v) + rest) == Some((v, rest)),
{
    lemma_concat_parts(le128(v), rest);
    lemma_le128_value(v);
}

pub proof fn lemma_sd_bytes32(s: Seq<u8>, rest: Seq<u8>)
    requires
        s.len() == 32,
    ensures
        sd_bytes32(s + rest) == Some((s, rest)),
{
    lemma_concat_parts(s, rest);
}

pub proof fn lemma_sd_compact_u32(n: u32, rest: Seq<u8>)
    ensures
        sd_compact_u32(spec_compact_u32(n) + rest) == Some((n, rest)),
{
    if n < 64 {
        let b0 = (n * 4) as u8;
        lemma_concat_parts(seq![b0], rest);
        assert(b0 % 4 == 0 && (b0 / 4) as u32 == n) by (bit_vector)
            requires
                n < 64 && b0 == (n * 4) as u8,
        ;
    } else if n < 16384 {
        let v = (n * 4 + 1) as u16;
        lemma_concat_parts(le16(v), rest);
        lemma_le16_value(v);
        let b = le16(v) + rest;
        assert(b[0] == (v % 0x100) as u8);
        assert(((v % 0x100) as u8) % 4 == 1 && (v / 4) as u32 == n) by (bit_vector)
            requires
                64 <= n < 16384 && v == (n * 4 + 1) as u16,
        ;
        assert(b.take(2) == le16(v));
    } else if n < 0x40000000 {
        let v = (n * 4 + 2) as u32;
        lemma_concat_parts(le32(v), rest);
        lemma_le32_value(v);
        let b = le32(v) + rest;
        assert(b[0] == (v % 0x100) as u8);
        assert(((v % 0x100) as u8) % 4 == 2 && (v / 4) as u32 == n) by (bit_vector)
            requires
                16384 <= n < 0x40000000 && v == (n * 4 + 2) as u32,
        ;
        assert(b.take(4) == le32(v));
    } else {
        let enc = seq![3u8] + le32(n);
        lemma_concat_parts(enc, rest);
        lemma_le32_value(n);
        let b = enc + rest;
        assert(b[0] == 3u8);
        assert(3u8 % 4 == 3) by (bit_vector);
        assert(b.subrange(1, 5) =~= le32(n));
        assert(b.skip(5) =~= rest);
    }
}

// ---------------------------------------------------------------------------
// Executable encoders: append the encoding of one value to a buffer.
// ---------------------------------------------------------------------------

pub fn enc_u16(out: &mut Vec<u8>, v: u16)
    ensures
        final(out)@ == old(out)@ + le16(v),
{
    out.push((v % 0x100) as u8);
    out.push(((v / 0x100) % 0x100) as u8);
    assert(out@ =~= old(out)@ + le16(v));
}

pub fn enc_u32(out: &mut Vec<u8>, v: u32)
    ensures
        final(out)@ == old(out)@ + le32(v),
{
    out.push((v % 0x100) as u8);
    out.push(((v / 0x100) % 0x100) as u8);
    out.push(((v / 0x10000) % 0x100) as u8);
    out.push(((v / 0x1000000) % 0x100) as u8);
    assert(out@ =~= old(out)@ + le32(v));
}

pub fn enc_u128(out: &mut Vec<u8>, v: u128)
    ensures
        final(out)@ == old(out)@ + le128(v),
{
    out.push((v % 0x100) as u8);
    out.push(((v / 0x100) % 0x100) as u8);
    out.push(((v / 0x10000) % 0x100) as u8);
    out.push(((v / 0x1000000) % 0x100) as u8);
    out.push(((v / 0x100000000) % 0x100) as u8);
    out.push(((v / 0x10000000000) % 0x100) as u8);
    out.push(((v / 0x1000000000000) % 0x100) as u8);
    out.push(((v / 0x100000000000000) % 0x100) as u8);
    out.push(((v / 0x10000000000000000) % 0x100) as u8);
    out.push(((v / 0x1000000000000000000) % 0x100) as u8);
    out.push(((v / 0x100000000000000000000) % 0x100) as u8);
    out.push(((v / 0x10000000000000000000000) % 0x100) as u8);
    out.push(((v / 0x1000000000000000000000000) % 0x100) as u8);
    out.push(((v / 0x100000000000000000000000000) % 0x100) as u8);
    out.push(((v / 0x10000000000000000000000000000) % 0x100) as u8);
    out.push(((v / 0x1000000000000000000000000000000) % 0x100) as u8);
    assert(out@ =~= old(out)@ + le128(v));
}

pub fn enc_compact_u32(out: &mut Vec<u8>, n: u32)
    ensures
        final(out)@ == old(out)@ + spec_compact_u32(n),
{
    if n < 64 {
        out.push((n * 4) as u8);
        assert(out@ =~= old(out)@ + spec_compact_u32(n));
    } else if n < 16384 {
        enc_u16(out, (n as u16) * 4 + 1);
        assert((n as u16) * 4 + 1 == (n * 4 + 1) as u16) by (bit_vector)
            requires
                64 <= n < 16384,
        ;
    } else if n < 0x40000000 {
        enc_u32(out, n * 4 + 2);
        assert(n * 4 + 2 == (n * 4 + 2) as u32) by (bit_vector)
            requires
                16384 <= n < 0x40000000,
        ;
    } else {
        out.push(3u8);
        let ghost mid = out@;
        enc_u32(out, n);
        assert(mid =~= old(out)@ + seq![3u8]);
        proof {
            lemma_concat_assoc(old(out)@, seq![3u8], le32(n));
        }
    }
}

/// Append every byte of `src` to `out`.
pub fn enc_bytes(out: &mut Vec<u8>, src: &Vec<u8>)
    ensures
        final(out)@ == old(out)@ + src@,
{
    let mut i: usize = 0;
    while i < src.len()
        invariant
            i <= src@.len(),
            out@ == old(out)@ + src@.take(i as int),
        decreases src@.len() - i,
    {
        out.push(src[i]);
        assert(out@ =~= old(out)@ + src@.take(i as int + 1));
        i = i + 1;
    }
    assert(src@.take(src@.len() as int) =~= src@);
}

// ---------------------------------------------------------------------------
// Executable decoders on slices, each matching its spec decoder exactly.
// ---------------------------------------------------------------------------

pub fn d_u8(b: &[u8]) -> (r: Option<(u8, &[u8])>)
    ensures
        match r {
            Some((x, rest)) => sd_u8(b@) == Some((x, rest@)),
            None => sd_u8(b@) is None,
        },
{
    if b.len() >= 1 {
        let x = *slice_index_get(b, 0);
        let rest = slice_subrange(b, 1, b.len());
        Some((x, rest))
    } else {
        None
    }
}

pub fn d_u16(b: &[u8]) -> (r: Option<(u16, &[u8])>)
    ensures
        match r {
            Some((v, rest)) => sd_u16(b@) == Some((v, rest@)),
            None => sd_u16(b@) is None,
        },
{
    if b.len() >= 2 {
        let x0 = *slice_index_get(b, 0);
        let x1 = *slice_index_get(b, 1);
        let v: u16 = x0 as u16 + x1 as u16 * 0x100;
        let rest = slice_subrange(b, 2, b.len());
        assert(b@.take(2)[0] == b@[0] && b@.take(2)[1] == b@[1]);
        Some((v, rest))
    } else {
        None
    }
}

pub fn d_u32(b: &[u8]) -> (r: Option<(u32, &[u8])>)
    ensures
        match r {
            Some((v, rest)) => sd_u32(b@) == Some((v, rest@)),
            None => sd_u32(b@) is None,
        },
{
    if b.len() >= 4 {
        let x0 = *slice_index_get(b, 0);
        let x1 = *slice_index_get(b, 1);
        let x2 = *slice_index_get(b, 2);
        let x3 = *slice_index_get(b, 3);
        let v: u32 = x0 as u32 + x1 as u32 * 0x100 + x2 as u32 * 0x10000 + x3 as u32 * 0x1000000;
        let rest = slice_subrange(b, 4, b.len());
        assert(forall|i: int| 0 <= i < 4 ==> b@.take(4)[i] == b@[i]);
        Some((v, rest))
    } else {
        None
    }
}

pub fn d_u128(b: &[u8]) -> (r: Option<(u128, &[u8])>)
    ensures
        match r {
            Some((v, rest)) => sd_u128(b@) == Some((v, rest@)),
            None => sd_u128(b@) is None,
        },
{
    if b.len() >= 16 {
        let x0 = *slice_index_get(b, 0);
        let x1 = *slice_index_get(b, 1);
        let x2 = *slice_index_get(b, 2);
        let x3 = *slice_index_get(b, 3);
        let x4 = *slice_index_get(b, 4);
        let x5 = *slice_index_get(b, 5);
        let x6 = *slice_index_get(b, 6);
        let x7 = *slice_index_get(b, 7);
        let x8 = *slice_index_get(b, 8);
        let x9 = *slice_index_get(b, 9);
        let x10 = *slice_index_get(b, 10);
        let x11 = *slice_index_get(b, 11);
        let x12 = *slice_index_get(b, 12);
        let x13 = *slice_index_get(b, 13);
        let x14 = *slice_index_get(b, 14);
        let x15 = *slice_index_get(b, 15);
        let v: u128 = x0 as u128 + x1 as u128 * 0x100 + x2 as u128 * 0x10000 + x3 as u128 * 0x1000000 + x4
            as u128 * 0x100000000 + x5 as u128 * 0x10000000000 + x6 as u128 * 0x1000000000000 + x7
            as u128 * 0x100000000000000 + x8 as u128 * 0x10000000000000000 + x9 as u128
            * 0x1000000000000000000 + x10 as u128 * 0x100000000000000000000 + x11 as u128
            * 0x10000000000000000000000 + x12 as u128 * 0x1000000000000000000000000 + x13 as u128
            * 0x100000000000000000000000000 + x14 as u128 * 0x10000000000000000000000000000 + x15
            as u128 * 0x1000000000000000000000000000000;
        let rest = slice_subrange(b, 16, b.len());
        assert(forall|i: int| 0 <= i < 16 ==> b@.take(16)[i] == b@[i]);
        Some((v, rest))
    } else {
        None
    }
}

pub fn d_bytes32(b: &[u8]) -> (r: Option<(Vec<u8>, &[u8])>)
    ensures
        match r {
            Some((s, rest)) => sd_bytes32(b@) == Some((s@, rest@)),
            None => sd_bytes32(b@) is None,
        },
{
    if b.len() >= 32 {
        let s = slice_to_vec(slice_subrange(b, 0, 32));
        let rest = slice_subrange(b, 32, b.len());
        assert(b@.subrange(0, 32) =~= b@.take(32));
        Some((s, rest))
    } else {
        None
    }
}

pub fn d_compact_u32(b: &[u8]) -> (r: Option<(u32, &[u8])>)
    ensures
        match r {
            Some((n, rest)) => sd_compact_u32(b@) == Some((n, rest@)),
            None => sd_compact_u32(b@) is None,
        },
{
    if b.len() < 1 {
        return None;
    }
    let b0 = *slice_index_get(b, 0);
    if b0 % 4 == 0 {
        let rest = slice_subrange(b, 1, b.len());
        Some(((b0 / 4) as u32, rest))
    } else if b0 % 4 == 1 {
        match d_u16(b) {
            Some((v, rest)) => Some(((v / 4) as u32, rest)),
            None => None,
        }
    } else if b0 % 4 == 2 {
        match d_u32(b) {
            Some((v, rest)) => Some((v / 4, rest)),
            None => None,
        }
    } else {
        if b0 == 3 && b.len() >= 5 {
            let x0 = *slice_index_get(b, 1);
            let x1 = *slice_index_get(b, 2);
            let x2 = *slice_index_get(b, 3);
            let x3 = *slice_index_get(b, 4);
            let v: u32 = x0 as u32 + x1 as u32 * 0x100 + x2 as u32 * 0x10000 + x3 as u32
                * 0x1000000;
            let rest = slice_subrange(b, 5, b.len());
            assert(forall|i: int| 0 <= i < 4 ==> b@.subrange(1, 5)[i] == b@[i + 1]);
            Some((v, rest))
        } else {
            None
        }
    }
}

} // verus!
