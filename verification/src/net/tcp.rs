//! TCP header: 20 fixed bytes, the header-length nibble and the flags
//! sharing the 16-bit word at offset 12, then an options run whose length
//! derives from that nibble.
use vstd::prelude::*;

use crate::errors::DecodeError;
use crate::net::decode::{
    be16, be16_bytes, be32, be32_bytes, put_bytes, put_u16, put_u32, take_bytes, take_u16, take_u32,
};

verus! {

/// TCP header.  `header_length` stores the semantic byte count: the top
/// nibble of the word at offset 12 scaled by 4; `flags` is the bottom 12
/// bits of the same word.
#[derive(Debug, PartialEq, Eq)]
pub struct TcpHeader {
    pub sport: u16,
    pub dport: u16,
    pub seq: u32,
    pub ack: u32,
    pub header_length: u16,
    pub flags: u16,
    pub window: u16,
    pub checksum: u16,
    pub urgent_pointer: u16,
    pub options: Vec<u8>,
}

/// Semantic header length in bytes stored at `pos`: the top nibble of the
/// word at offset 12 scaled by 4.
pub open spec fn tcp_hl(b: Seq<u8>, pos: int) -> int {
    (be16(b, pos + 12) >> 12) * 4
}

/// The buffer holds a full TCP header at `pos`.
pub open spec fn tcp_ok(b: Seq<u8>, pos: int) -> bool {
    &&& pos + 20 <= b.len()
    &&& tcp_hl(b, pos) >= 20
    &&& pos + tcp_hl(b, pos) <= b.len()
}

/// The buffer ends before the fixed part or before the implied options run.
pub open spec fn tcp_truncated(b: Seq<u8>, pos: int) -> bool {
    ||| b.len() < pos + 20
    ||| (tcp_hl(b, pos) >= 20 && b.len() < pos + tcp_hl(b, pos))
}

/// The header-length nibble implies fewer bytes than the fixed part itself.
pub open spec fn tcp_malformed(b: Seq<u8>, pos: int) -> bool {
    b.len() >= pos + 20 && tcp_hl(b, pos) < 20
}

/// `h` is exactly the TCP header stored at `pos`.
pub open spec fn tcp_matches(h: TcpHeader, b: Seq<u8>, pos: int) -> bool {
    &&& h.sport == be16(b, pos)
    &&& h.dport == be16(b, pos + 2)
    &&& h.seq == be32(b, pos + 4)
    &&& h.ack == be32(b, pos + 8)
    &&& h.header_length == tcp_hl(b, pos)
    &&& h.flags == be16(b, pos + 12) & 0x0fff
    &&& h.window == be16(b, pos + 14)
    &&& h.checksum == be16(b, pos + 16)
    &&& h.urgent_pointer == be16(b, pos + 18)
    &&& h.options@ == b.subrange(pos + 20, pos + tcp_hl(b, pos))
}

impl TcpHeader {
    /// Field ranges implied by the wire format, including the
    /// options-length invariant `header_length - 20 == options.len()` with
    /// `header_length >= 20`.
    pub open spec fn wf(&self) -> bool {
        &&& 20 <= self.header_length <= 60
        &&& self.header_length % 4 == 0
        &&& self.flags < 0x1000
        &&& self.options@.len() == self.header_length - 20
    }

    /// The `header_length` wire bytes of the header.
    pub open spec fn spec_encode(&self) -> Seq<u8> {
        be16_bytes(self.sport) + be16_bytes(self.dport) + be32_bytes(self.seq) + be32_bytes(
            self.ack,
        ) + be16_bytes((self.header_length / 4) << 12 | self.flags) + be16_bytes(self.window)
            + be16_bytes(self.checksum) + be16_bytes(self.urgent_pointer) + self.options@
    }

    /// Decode the header at `pos`, advancing the cursor by the semantic
    /// header length.  Errors exactly as the IPv4 decoder: `Truncated` for a
    /// short buffer, `MalformedLength` for a nibble below the fixed part.
    pub fn decode(buf: &[u8], pos: usize) -> (r: Result<(Self, usize), DecodeError>)
        requires
            pos <= buf@.len(),
        ensures
            match r {
                Ok((h, end)) => {
                    &&& tcp_ok(buf@, pos as int)
                    &&& tcp_matches(h, buf@, pos as int)
                    &&& h.wf()
                    &&& end == pos + tcp_hl(buf@, pos as int)
                },
                Err(e) => {
                    &&& (e == DecodeError::Truncated <==> tcp_truncated(buf@, pos as int))
                    &&& (e == DecodeError::MalformedLength <==> tcp_malformed(buf@, pos as int))
                },
            },
    {
        if buf.len() - pos < 20 {
            return Err(DecodeError::Truncated);
        }
        let (sport, p) = take_u16(buf, pos)?;
        let (dport, p) = take_u16(buf, p)?;
        let (seq, p) = take_u32(buf, p)?;
        let (ack, p) = take_u32(buf, p)?;
        let (word12, p) = take_u16(buf, p)?;
        proof {
            assert(word12 >> 12 < 16) by (bit_vector);
            assert(word12 & 0x0fff < 0x1000) by (bit_vector);
        }
        let header_length: u16 = (word12 >> 12) * 4;
        let flags = word12 & 0x0fff;
        if header_length < 20 {
            return Err(DecodeError::MalformedLength);
        }
        if buf.len() - pos < header_length as usize {
            return Err(DecodeError::Truncated);
        }
        let (window, p) = take_u16(buf, p)?;
        let (checksum, p) = take_u16(buf, p)?;
        let (urgent_pointer, p) = take_u16(buf, p)?;
        let (options, p) = take_bytes(buf, p, header_length as usize - 20)?;
        Ok(
            (
                Self {
                    sport,
                    dport,
                    seq,
                    ack,
                    header_length,
                    flags,
                    window,
                    checksum,
                    urgent_pointer,
                    options,
                },
                p,
            ),
        )
    }

    /// Append the wire bytes of the header: the shared word is OR-combined
    /// from the scaled-down length nibble and the flags and appended once.
    pub fn encode(&self, out: &mut Vec<u8>)
        requires
            self.wf(),
        ensures
            final(out)@ == old(out)@ + self.spec_encode(),
    {
        put_u16(out, self.sport);
        put_u16(out, self.dport);
        put_u32(out, self.seq);
        put_u32(out, self.ack);
        put_u16(out, (self.header_length / 4) << 12 | self.flags);
        put_u16(out, self.window);
        put_u16(out, self.checksum);
        put_u16(out, self.urgent_pointer);
        put_bytes(out, self.options.as_slice());
        proof {
            assert(out@ =~= old(out)@ + self.spec_encode());
        }
    }
}

/// Round trip of the TCP layout: wherever the encoded bytes of a
/// well-formed header sit in a buffer, decoding there gives the header back.
pub proof fn lemma_tcp_encode_matches(h: TcpHeader, b: Seq<u8>, pos: int)
    requires
        h.wf(),
        0 <= pos,
        pos + h.header_length <= b.len(),
        b.subrange(pos, pos + h.header_length) == h.spec_encode(),
    ensures
        tcp_ok(b, pos),
        tcp_matches(h, b, pos),
        tcp_hl(b, pos) == h.header_length,
{
    let enc = h.spec_encode();
    let hl = h.header_length as int;
    assert(enc.len() == hl);
    assert forall|k: int| 0 <= k < hl implies b[pos + k] == enc[k] by {
        assert(b.subrange(pos, pos + hl)[k] == b[pos + k]);
    }

    assert(enc[0] == (h.sport / 256) as u8 && enc[1] == (h.sport % 256) as u8);
    vstd::arithmetic::div_mod::lemma_fundamental_div_mod(h.sport as int, 256);
    assert(enc[2] == (h.dport / 256) as u8 && enc[3] == (h.dport % 256) as u8);
    vstd::arithmetic::div_mod::lemma_fundamental_div_mod(h.dport as int, 256);

    // The two 32-bit scalars read back from their four wire bytes.
    let sq = h.seq;
    assert(enc[4] == (sq / 0x1000000) as u8 && enc[5] == ((sq / 0x10000) % 256) as u8 && enc[6]
        == ((sq / 0x100) % 256) as u8 && enc[7] == (sq % 256) as u8);
    assert(be32(b, pos + 4) == sq) by {
        lemma_u32_from_be_bytes(sq);
    }
    let ak = h.ack;
    assert(enc[8] == (ak / 0x1000000) as u8 && enc[9] == ((ak / 0x10000) % 256) as u8 && enc[10]
        == ((ak / 0x100) % 256) as u8 && enc[11] == (ak % 256) as u8);
    assert(be32(b, pos + 8) == ak) by {
        lemma_u32_from_be_bytes(ak);
    }

    // The shared data-offset / flags word: the two masked views read back.
    let hlen = h.header_length;
    let fl = h.flags;
    let w12 = (hlen / 4) << 12 | fl;
    assert(enc[12] == (w12 / 256) as u8 && enc[13] == (w12 % 256) as u8);
    vstd::arithmetic::div_mod::lemma_fundamental_div_mod(w12 as int, 256);
    assert(be16(b, pos + 12) == w12);
    assert((w12 >> 12) * 4 == hlen && (w12 & 0x0fff) == fl) by (bit_vector)
        requires
            20 <= hlen <= 60,
            hlen % 4 == 0,
            fl < 0x1000,
            w12 == (hlen / 4) << 12 | fl,
    ;

    assert(enc[14] == (h.window / 256) as u8 && enc[15] == (h.window % 256) as u8);
    vstd::arithmetic::div_mod::lemma_fundamental_div_mod(h.window as int, 256);
    assert(enc[16] == (h.checksum / 256) as u8 && enc[17] == (h.checksum % 256) as u8);
    vstd::arithmetic::div_mod::lemma_fundamental_div_mod(h.checksum as int, 256);
    assert(enc[18] == (h.urgent_pointer / 256) as u8 && enc[19] == (h.urgent_pointer % 256) as u8);
    vstd::arithmetic::div_mod::lemma_fundamental_div_mod(h.urgent_pointer as int, 256);

    assert(enc.subrange(20, hl) =~= h.options@);
    assert(b.subrange(pos + 20, pos + hl) =~= enc.subrange(20, hl));
}

/// A 32-bit scalar is recovered from its four big-endian bytes.
proof fn lemma_u32_from_be_bytes(v: u32)
    ensures
        ((v / 0x1000000) as u8) * 0x1000000 + (((v / 0x10000) % 256) as u8) * 0x10000 + (((v
            / 0x100) % 256) as u8) * 0x100 + ((v % 256) as u8) == v,
{
    vstd::arithmetic::div_mod::lemma_fundamental_div_mod(v as int, 0x100);
    vstd::arithmetic::div_mod::lemma_fundamental_div_mod(v as int / 0x100, 0x100);
    vstd::arithmetic::div_mod::lemma_fundamental_div_mod(v as int / 0x10000, 0x100);
    assert(v as int / 0x100 / 0x100 == v as int / 0x10000) by {
        vstd::arithmetic::div_mod::lemma_div_denominator(v as int, 0x100, 0x100);
    }
    assert(v as int / 0x10000 / 0x100 == v as int / 0x1000000) by {
        vstd::arithmetic::div_mod::lemma_div_denominator(v as int, 0x10000, 0x100);
    }
}

} // verus!
