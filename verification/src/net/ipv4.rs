//! IPv4 header: 20 fixed bytes carrying bit-packed sibling fields, followed
//! by an options run whose length derives from the header-length nibble.
use vstd::prelude::*;

use crate::errors::DecodeError;
use crate::net::decode::{
    be16, be16_bytes, put_bytes, put_u16, put_u8, take_bytes, take_u16, take_u8,
};

verus! {

/// IPv4 header.  `version` and `header_length` share byte 0 ("one word read,
/// two masked views"); `flags` and `fragment_offset` share the 16-bit word at
/// offset 6.  `header_length` stores the semantic byte count: the raw nibble
/// scaled by 4.
#[derive(Debug, PartialEq, Eq)]
pub struct Ipv4Header {
    pub version: u8,
    pub header_length: u8,
    pub tos: u8,
    pub total_length: u16,
    pub identification: u16,
    pub flags: u16,
    pub fragment_offset: u16,
    pub ttl: u8,
    pub protocol: u8,
    pub checksum: u16,
    pub src: Vec<u8>,
    pub dst: Vec<u8>,
    pub options: Vec<u8>,
}

/// Semantic header length in bytes stored at `pos`: the low nibble of byte 0
/// scaled by 4.
pub open spec fn ipv4_hl(b: Seq<u8>, pos: int) -> int {
    (b[pos] & 0x0f) * 4
}

/// The buffer holds a full IPv4 header at `pos`: the fixed part, a nibble
/// implying at least the fixed part, and the options run it implies.
pub open spec fn ipv4_ok(b: Seq<u8>, pos: int) -> bool {
    &&& pos + 20 <= b.len()
    &&& ipv4_hl(b, pos) >= 20
    &&& pos + ipv4_hl(b, pos) <= b.len()
}

/// The buffer ends before the fixed part or before the implied options run.
pub open spec fn ipv4_truncated(b: Seq<u8>, pos: int) -> bool {
    ||| b.len() < pos + 20
    ||| (ipv4_hl(b, pos) >= 20 && b.len() < pos + ipv4_hl(b, pos))
}

/// The header-length nibble implies fewer bytes than the fixed part itself.
pub open spec fn ipv4_malformed(b: Seq<u8>, pos: int) -> bool {
    b.len() >= pos + 20 && ipv4_hl(b, pos) < 20
}

/// `h` is exactly the IPv4 header stored at `pos`.
pub open spec fn ipv4_matches(h: Ipv4Header, b: Seq<u8>, pos: int) -> bool {
    &&& h.version == b[pos] >> 4
    &&& h.header_length == ipv4_hl(b, pos)
    &&& h.tos == b[pos + 1]
    &&& h.total_length == be16(b, pos + 2)
    &&& h.identification == be16(b, pos + 4)
    &&& h.flags == be16(b, pos + 6) >> 13
    &&& h.fragment_offset == be16(b, pos + 6) & 0x1fff
    &&& h.ttl == b[pos + 8]
    &&& h.protocol == b[pos + 9]
    &&& h.checksum == be16(b, pos + 10)
    &&& h.src@ == b.subrange(pos + 12, pos + 16)
    &&& h.dst@ == b.subrange(pos + 16, pos + 20)
    &&& h.options@ == b.subrange(pos + 20, pos + ipv4_hl(b, pos))
}

impl Ipv4Header {
    /// Field ranges implied by the wire format, including the
    /// options-length invariant `header_length - 20 == options.len()` with
    /// `header_length >= 20`.
    pub open spec fn wf(&self) -> bool {
        &&& self.version < 16
        &&& 20 <= self.header_length <= 60
        &&& self.header_length % 4 == 0
        &&& self.flags < 8
        &&& self.fragment_offset < 0x2000
        &&& self.src@.len() == 4
        &&& self.dst@.len() == 4
        &&& self.options@.len() == self.header_length - 20
    }

    /// The `header_length` wire bytes of the header.
    pub open spec fn spec_encode(&self) -> Seq<u8> {
        seq![(self.version << 4 | self.header_length / 4) as u8, self.tos] + be16_bytes(
            self.total_length,
        ) + be16_bytes(self.identification) + be16_bytes(self.flags << 13 | self.fragment_offset)
            + seq![self.ttl, self.protocol] + be16_bytes(self.checksum) + self.src@ + self.dst@
            + self.options@
    }

    /// Decode the header at `pos`, advancing the cursor by the semantic
    /// header length.  An options run longer than the remaining buffer is a
    /// `Truncated` failure, never a silent empty-slice substitution; a
    /// nibble below the fixed part is `MalformedLength`.
    pub fn decode(buf: &[u8], pos: usize) -> (r: Result<(Self, usize), DecodeError>)
        requires
            pos <= buf@.len(),
        ensures
            match r {
                Ok((h, end)) => {
                    &&& ipv4_ok(buf@, pos as int)
                    &&& ipv4_matches(h, buf@, pos as int)
                    &&& h.wf()
                    &&& end == pos + ipv4_hl(buf@, pos as int)
                },
                Err(e) => {
                    &&& (e == DecodeError::Truncated <==> ipv4_truncated(buf@, pos as int))
                    &&& (e == DecodeError::MalformedLength <==> ipv4_malformed(buf@, pos as int))
                },
            },
    {
        if buf.len() - pos < 20 {
            return Err(DecodeError::Truncated);
        }
        let b0 = buf[pos];
        let version = b0 >> 4;
        proof {
            assert(b0 & 0x0f <= 0x0f) by (bit_vector);
            assert(b0 >> 4 < 16) by (bit_vector);
        }
        let header_length: u8 = (b0 & 0x0f) * 4;
        if header_length < 20 {
            return Err(DecodeError::MalformedLength);
        }
        if buf.len() - pos < header_length as usize {
            return Err(DecodeError::Truncated);
        }
        let (tos, p) = take_u8(buf, pos + 1)?;
        let (total_length, p) = take_u16(buf, p)?;
        let (identification, p) = take_u16(buf, p)?;
        let (word6, p) = take_u16(buf, p)?;
        let flags = word6 >> 13;
        let fragment_offset = word6 & 0x1fff;
        proof {
            assert(word6 >> 13 < 8) by (bit_vector);
            assert(word6 & 0x1fff < 0x2000) by (bit_vector);
        }
        let (ttl, p) = take_u8(buf, p)?;
        let (protocol, p) = take_u8(buf, p)?;
        let (checksum, p) = take_u16(buf, p)?;
        let (src, p) = take_bytes(buf, p, 4)?;
        let (dst, p) = take_bytes(buf, p, 4)?;
        let (options, p) = take_bytes(buf, p, header_length as usize - 20)?;
        Ok(
            (
                Self {
                    version,
                    header_length,
                    tos,
                    total_length,
                    identification,
                    flags,
                    fragment_offset,
                    ttl,
                    protocol,
                    checksum,
                    src,
                    dst,
                    options,
                },
                p,
            ),
        )
    }

    /// Append the wire bytes of the header: the shared words are OR-combined
    /// from their sibling sub-fields and appended once, scalars big-endian,
    /// addresses and options verbatim.
    pub fn encode(&self, out: &mut Vec<u8>)
        requires
            self.wf(),
        ensures
            final(out)@ == old(out)@ + self.spec_encode(),
    {
        put_u8(out, self.version << 4 | self.header_length / 4);
        put_u8(out, self.tos);
        put_u16(out, self.total_length);
        put_u16(out, self.identification);
        put_u16(out, self.flags << 13 | self.fragment_offset);
        put_u8(out, self.ttl);
        put_u8(out, self.protocol);
        put_u16(out, self.checksum);
        put_bytes(out, self.src.as_slice());
        put_bytes(out, self.dst.as_slice());
        put_bytes(out, self.options.as_slice());
        proof {
            assert(out@ =~= old(out)@ + self.spec_encode());
        }
    }
}

/// Round trip of the IPv4 layout: wherever the encoded bytes of a
/// well-formed header sit in a buffer, decoding there gives the header back.
pub proof fn lemma_ipv4_encode_matches(h: Ipv4Header, b: Seq<u8>, pos: int)
    requires
        h.wf(),
        0 <= pos,
        pos + h.header_length <= b.len(),
        b.subrange(pos, pos + h.header_length) == h.spec_encode(),
    ensures
        ipv4_ok(b, pos),
        ipv4_matches(h, b, pos),
        ipv4_hl(b, pos) == h.header_length,
{
    let enc = h.spec_encode();
    let hl = h.header_length as int;
    assert(enc.len() == hl);
    assert forall|k: int| 0 <= k < hl implies b[pos + k] == enc[k] by {
        assert(b.subrange(pos, pos + hl)[k] == b[pos + k]);
    }

    // Byte 0: the two masked views of the shared byte read back.
    let ver = h.version;
    let hlen = h.header_length;
    let b0 = (ver << 4 | hlen / 4) as u8;
    assert(enc[0] == b0);
    assert(b0 >> 4 == ver && (b0 & 0x0f) == hlen / 4) by (bit_vector)
        requires
            ver < 16,
            hlen <= 60,
            b0 == (ver << 4 | hlen / 4) as u8,
    ;
    assert((h.header_length / 4) * 4 == h.header_length) by {
        vstd::arithmetic::div_mod::lemma_fundamental_div_mod(h.header_length as int, 4);
    }

    assert(enc[1] == h.tos);

    // Each 16-bit scalar reads back from its two wire bytes.
    assert(enc[2] == (h.total_length / 256) as u8 && enc[3] == (h.total_length % 256) as u8);
    vstd::arithmetic::div_mod::lemma_fundamental_div_mod(h.total_length as int, 256);
    assert(enc[4] == (h.identification / 256) as u8 && enc[5] == (h.identification % 256) as u8);
    vstd::arithmetic::div_mod::lemma_fundamental_div_mod(h.identification as int, 256);

    // The shared flags / fragment-offset word.
    let fl = h.flags;
    let fo = h.fragment_offset;
    let w6 = fl << 13 | fo;
    assert(enc[6] == (w6 / 256) as u8 && enc[7] == (w6 % 256) as u8);
    vstd::arithmetic::div_mod::lemma_fundamental_div_mod(w6 as int, 256);
    assert(be16(b, pos + 6) == w6);
    assert(w6 >> 13 == fl && (w6 & 0x1fff) == fo) by (bit_vector)
        requires
            fl < 8,
            fo < 0x2000,
            w6 == fl << 13 | fo,
    ;

    assert(enc[8] == h.ttl && enc[9] == h.protocol);
    assert(enc[10] == (h.checksum / 256) as u8 && enc[11] == (h.checksum % 256) as u8);
    vstd::arithmetic::div_mod::lemma_fundamental_div_mod(h.checksum as int, 256);

    // The byte runs sit at their declared offsets.
    assert(enc.subrange(12, 16) =~= h.src@);
    assert(enc.subrange(16, 20) =~= h.dst@);
    assert(enc.subrange(20, hl) =~= h.options@);
    assert(b.subrange(pos + 12, pos + 16) =~= enc.subrange(12, 16));
    assert(b.subrange(pos + 16, pos + 20) =~= enc.subrange(16, 20));
    assert(b.subrange(pos + 20, pos + hl) =~= enc.subrange(20, hl));
}

} // verus!
