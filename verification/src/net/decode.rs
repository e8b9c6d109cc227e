//! Cursor primitives shared by every header model: fixed-width big-endian
//! scalars, fixed-width byte runs, and their mirror images for encoding.
//!
//! A decode primitive takes the buffer and a cursor position and returns the
//! decoded value together with the position just past it, or
//! `DecodeError::Truncated` exactly when the buffer ends before the value
//! does.  An encode primitive appends the wire bytes of a value to a growing
//! buffer.  The struct definitions built on these primitives are the wire
//! format: ordering is significant and matches declaration order.
use vstd::prelude::*;

use crate::errors::DecodeError;

verus! {

/// The big-endian 16-bit word stored at byte offset `i`.
pub open spec fn be16(b: Seq<u8>, i: int) -> u16
    recommends
        0 <= i,
        i + 2 <= b.len(),
{
    (b[i] * 256 + b[i + 1]) as u16
}

/// The big-endian 32-bit word stored at byte offset `i`.
pub open spec fn be32(b: Seq<u8>, i: int) -> u32
    recommends
        0 <= i,
        i + 4 <= b.len(),
{
    (b[i] * 0x1000000 + b[i + 1] * 0x10000 + b[i + 2] * 0x100 + b[i + 3]) as u32
}

/// The two wire bytes of a 16-bit value, most significant first.
pub open spec fn be16_bytes(v: u16) -> Seq<u8> {
    seq![(v / 256) as u8, (v % 256) as u8]
}

/// The four wire bytes of a 32-bit value, most significant first.
pub open spec fn be32_bytes(v: u32) -> Seq<u8> {
    seq![
        (v / 0x1000000) as u8,
        ((v / 0x10000) % 256) as u8,
        ((v / 0x100) % 256) as u8,
        (v % 256) as u8,
    ]
}

/// Read one byte, advancing the cursor by 1.
pub fn take_u8(buf: &[u8], pos: usize) -> (r: Result<(u8, usize), DecodeError>)
    requires
        pos <= buf@.len(),
    ensures
        match r {
            Ok((v, end)) => {
                &&& pos + 1 <= buf@.len()
                &&& v == buf@[pos as int]
                &&& end == pos + 1
            },
            Err(e) => e == DecodeError::Truncated && buf@.len() < pos + 1,
        },
{
    if buf.len() - pos >= 1 {
        Ok((buf[pos], pos + 1))
    } else {
        Err(DecodeError::Truncated)
    }
}

/// Read a big-endian 16-bit scalar, advancing the cursor by 2.
pub fn take_u16(buf: &[u8], pos: usize) -> (r: Result<(u16, usize), DecodeError>)
    requires
        pos <= buf@.len(),
    ensures
        match r {
            Ok((v, end)) => {
                &&& pos + 2 <= buf@.len()
                &&& v == be16(buf@, pos as int)
                &&& end == pos + 2
            },
            Err(e) => e == DecodeError::Truncated && buf@.len() < pos + 2,
        },
{
    if buf.len() - pos >= 2 {
        let v: u16 = (buf[pos] as u16) * 256 + (buf[pos + 1] as u16);
        Ok((v, pos + 2))
    } else {
        Err(DecodeError::Truncated)
    }
}

/// Read a big-endian 32-bit scalar, advancing the cursor by 4.
pub fn take_u32(buf: &[u8], pos: usize) -> (r: Result<(u32, usize), DecodeError>)
    requires
        pos <= buf@.len(),
    ensures
        match r {
            Ok((v, end)) => {
                &&& pos + 4 <= buf@.len()
                &&& v == be32(buf@, pos as int)
                &&& end == pos + 4
            },
            Err(e) => e == DecodeError::Truncated && buf@.len() < pos + 4,
        },
{
    if buf.len() - pos >= 4 {
        let v: u32 = (buf[pos] as u32) * 0x1000000 + (buf[pos + 1] as u32) * 0x10000 + (buf[pos
            + 2] as u32) * 0x100 + (buf[pos + 3] as u32);
        Ok((v, pos + 4))
    } else {
        Err(DecodeError::Truncated)
    }
}

/// Read `n` raw bytes (a MAC or IPv4 address, an options run, a payload),
/// advancing the cursor by `n`.
pub fn take_bytes(buf: &[u8], pos: usize, n: usize) -> (r: Result<(Vec<u8>, usize), DecodeError>)
    requires
        pos <= buf@.len(),
    ensures
        match r {
            Ok((v, end)) => {
                &&& pos + n <= buf@.len()
                &&& v@ == buf@.subrange(pos as int, pos + n)
                &&& end == pos + n
            },
            Err(e) => e == DecodeError::Truncated && buf@.len() < pos + n,
        },
{
    if buf.len() - pos >= n {
        let end = pos + n;
        let mut v: Vec<u8> = Vec::new();
        let mut j: usize = pos;
        while j < end
            invariant
                pos <= j <= end,
                end == pos + n <= buf@.len(),
                v@ =~= buf@.subrange(pos as int, j as int),
            decreases end - j,
        {
            v.push(buf[j]);
            j = j + 1;
            proof {
                assert(v@ =~= buf@.subrange(pos as int, j as int));
            }
        }
        Ok((v, end))
    } else {
        Err(DecodeError::Truncated)
    }
}

/// Append one byte.
pub fn put_u8(out: &mut Vec<u8>, v: u8)
    ensures
        final(out)@ == old(out)@.push(v),
{
    out.push(v);
}

/// Append a 16-bit scalar, most significant byte first.
pub fn put_u16(out: &mut Vec<u8>, v: u16)
    ensures
        final(out)@ == old(out)@ + be16_bytes(v),
{
    out.push((v / 256) as u8);
    out.push((v % 256) as u8);
    proof {
        assert(final(out)@ =~= old(out)@ + be16_bytes(v));
    }
}

/// Append a 32-bit scalar, most significant byte first.
pub fn put_u32(out: &mut Vec<u8>, v: u32)
    ensures
        final(out)@ == old(out)@ + be32_bytes(v),
{
    out.push((v / 0x1000000) as u8);
    out.push(((v / 0x10000) % 256) as u8);
    out.push(((v / 0x100) % 256) as u8);
    out.push((v % 256) as u8);
    proof {
        assert(final(out)@ =~= old(out)@ + be32_bytes(v));
    }
}

/// Append raw bytes verbatim.
pub fn put_bytes(out: &mut Vec<u8>, v: &[u8])
    ensures
        final(out)@ == old(out)@ + v@,
{
    let mut i: usize = 0;
    while i < v.len()
        invariant
            i <= v@.len(),
            out@ =~= old(out)@ + v@.subrange(0, i as int),
        decreases v@.len() - i,
    {
        out.push(v[i]);
        i = i + 1;
        proof {
            assert(out@ =~= old(out)@ + v@.subrange(0, i as int));
        }
    }
    proof {
        assert(v@.subrange(0, v@.len() as int) =~= v@);
    }
}

} // verus!
