//! UDP header: a fixed 8-byte layout with no variable part.
use vstd::prelude::*;

use crate::errors::DecodeError;
use crate::net::decode::{be16, be16_bytes, put_u16, take_u16};

verus! {

/// UDP header.
#[derive(Debug, PartialEq, Eq)]
pub struct UdpHeader {
    pub sport: u16,
    pub dport: u16,
    pub length: u16,
    pub checksum: u16,
}

/// The buffer holds a full UDP header at `pos`.
pub open spec fn udp_ok(b: Seq<u8>, pos: int) -> bool {
    pos + 8 <= b.len()
}

/// `h` is exactly the UDP header stored at `pos`.
pub open spec fn udp_matches(h: UdpHeader, b: Seq<u8>, pos: int) -> bool {
    &&& h.sport == be16(b, pos)
    &&& h.dport == be16(b, pos + 2)
    &&& h.length == be16(b, pos + 4)
    &&& h.checksum == be16(b, pos + 6)
}

impl UdpHeader {
    /// The 8 wire bytes of the header.
    pub open spec fn spec_encode(&self) -> Seq<u8> {
        be16_bytes(self.sport) + be16_bytes(self.dport) + be16_bytes(self.length) + be16_bytes(
            self.checksum,
        )
    }

    /// Decode the header at `pos`, advancing the cursor by 8.
    pub fn decode(buf: &[u8], pos: usize) -> (r: Result<(Self, usize), DecodeError>)
        requires
            pos <= buf@.len(),
        ensures
            match r {
                Ok((h, end)) => {
                    &&& udp_ok(buf@, pos as int)
                    &&& udp_matches(h, buf@, pos as int)
                    &&& end == pos + 8
                },
                Err(e) => e == DecodeError::Truncated && !udp_ok(buf@, pos as int),
            },
    {
        let (sport, p) = take_u16(buf, pos)?;
        let (dport, p) = take_u16(buf, p)?;
        let (length, p) = take_u16(buf, p)?;
        let (checksum, p) = take_u16(buf, p)?;
        Ok((Self { sport, dport, length, checksum }, p))
    }

    /// Append the 8 wire bytes of the header, each scalar big-endian.
    pub fn encode(&self, out: &mut Vec<u8>)
        ensures
            final(out)@ == old(out)@ + self.spec_encode(),
    {
        put_u16(out, self.sport);
        put_u16(out, self.dport);
        put_u16(out, self.length);
        put_u16(out, self.checksum);
        proof {
            assert(out@ =~= old(out)@ + self.spec_encode());
        }
    }
}


/// Round trip of the UDP layout: wherever the encoded bytes of a header sit
/// in a buffer, decoding there gives the header back.
pub proof fn lemma_udp_encode_matches(h: UdpHeader, b: Seq<u8>, pos: int)
    requires
        0 <= pos,
        pos + 8 <= b.len(),
        b.subrange(pos, pos + 8) == h.spec_encode(),
    ensures
        udp_ok(b, pos),
        udp_matches(h, b, pos),
{
    let enc = h.spec_encode();
    assert(enc.len() == 8);
    assert forall|k: int| 0 <= k < 8 implies b[pos + k] == enc[k] by {
        assert(b.subrange(pos, pos + 8)[k] == b[pos + k]);
    }
    assert(enc[0] == (h.sport / 256) as u8 && enc[1] == (h.sport % 256) as u8);
    assert(enc[2] == (h.dport / 256) as u8 && enc[3] == (h.dport % 256) as u8);
    assert(enc[4] == (h.length / 256) as u8 && enc[5] == (h.length % 256) as u8);
    assert(enc[6] == (h.checksum / 256) as u8 && enc[7] == (h.checksum % 256) as u8);
    vstd::arithmetic::div_mod::lemma_fundamental_div_mod(h.sport as int, 256);
    vstd::arithmetic::div_mod::lemma_fundamental_div_mod(h.dport as int, 256);
    vstd::arithmetic::div_mod::lemma_fundamental_div_mod(h.length as int, 256);
    vstd::arithmetic::div_mod::lemma_fundamental_div_mod(h.checksum as int, 256);
}

} // verus!
