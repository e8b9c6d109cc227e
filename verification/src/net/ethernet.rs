//! Ethernet header: a fixed 14-byte layout with no variable part.
use vstd::prelude::*;

use crate::errors::DecodeError;
use crate::net::decode::{be16, be16_bytes, put_bytes, put_u16, take_bytes, take_u16};

verus! {

/// Ethernet header: source MAC, destination MAC, ethertype.
#[derive(Debug, PartialEq, Eq)]
pub struct EthernetHeader {
    pub smac: Vec<u8>,
    pub dmac: Vec<u8>,
    pub ethertype: u16,
}

/// The buffer holds a full Ethernet header at `pos`.
pub open spec fn ethernet_ok(b: Seq<u8>, pos: int) -> bool {
    pos + 14 <= b.len()
}

/// `h` is exactly the Ethernet header stored at `pos`.
pub open spec fn ethernet_matches(h: EthernetHeader, b: Seq<u8>, pos: int) -> bool {
    &&& h.smac@ == b.subrange(pos, pos + 6)
    &&& h.dmac@ == b.subrange(pos + 6, pos + 12)
    &&& h.ethertype == be16(b, pos + 12)
}

impl EthernetHeader {
    /// Field widths are fixed: both addresses are six bytes.
    pub open spec fn wf(&self) -> bool {
        &&& self.smac@.len() == 6
        &&& self.dmac@.len() == 6
    }

    /// The 14 wire bytes of the header.
    pub open spec fn spec_encode(&self) -> Seq<u8> {
        self.smac@ + self.dmac@ + be16_bytes(self.ethertype)
    }

    /// Decode the header at `pos`, advancing the cursor by 14.
    pub fn decode(buf: &[u8], pos: usize) -> (r: Result<(Self, usize), DecodeError>)
        requires
            pos <= buf@.len(),
        ensures
            match r {
                Ok((h, end)) => {
                    &&& ethernet_ok(buf@, pos as int)
                    &&& ethernet_matches(h, buf@, pos as int)
                    &&& h.wf()
                    &&& end == pos + 14
                },
                Err(e) => e == DecodeError::Truncated && !ethernet_ok(buf@, pos as int),
            },
    {
        let (smac, pos) = take_bytes(buf, pos, 6)?;
        let (dmac, pos) = take_bytes(buf, pos, 6)?;
        let (ethertype, pos) = take_u16(buf, pos)?;
        Ok((Self { smac, dmac, ethertype }, pos))
    }

    /// Append the wire bytes of the header: addresses verbatim, ethertype
    /// big-endian.
    pub fn encode(&self, out: &mut Vec<u8>)
        requires
            self.wf(),
        ensures
            final(out)@ == old(out)@ + self.spec_encode(),
    {
        put_bytes(out, self.smac.as_slice());
        put_bytes(out, self.dmac.as_slice());
        put_u16(out, self.ethertype);
        proof {
            assert(final(out)@ =~= old(out)@ + self.spec_encode());
        }
    }
}

/// Round trip of the Ethernet layout: wherever the encoded bytes of a
/// well-formed header sit in a buffer, decoding there gives the header back.
pub proof fn lemma_ethernet_encode_matches(h: EthernetHeader, b: Seq<u8>, pos: int)
    requires
        h.wf(),
        0 <= pos,
        pos + 14 <= b.len(),
        b.subrange(pos, pos + 14) == h.spec_encode(),
    ensures
        ethernet_ok(b, pos),
        ethernet_matches(h, b, pos),
{
    let enc = h.spec_encode();
    assert(enc.len() == 14);
    assert forall|k: int| 0 <= k < 14 implies b[pos + k] == enc[k] by {
        assert(b.subrange(pos, pos + 14)[k] == b[pos + k]);
    }
    assert(enc.subrange(0, 6) =~= h.smac@);
    assert(enc.subrange(6, 12) =~= h.dmac@);
    assert(b.subrange(pos, pos + 6) =~= enc.subrange(0, 6));
    assert(b.subrange(pos + 6, pos + 12) =~= enc.subrange(6, 12));
    assert(enc[12] == (h.ethertype / 256) as u8);
    assert(enc[13] == (h.ethertype % 256) as u8);
    vstd::arithmetic::div_mod::lemma_fundamental_div_mod(h.ethertype as int, 256);
}

} // verus!
