//! Network header models: the decode engine, the four fixed-format headers,
//! the layer-3 / layer-4 tagged dispatch, the composite frame views, and the
//! Internet checksum engine.
use vstd::prelude::*;

pub mod checksum;
pub mod decode;
pub mod ethernet;
pub mod ipv4;
pub mod patch;
pub mod tcp;
pub mod udp;

pub use checksum::CheckSum;
pub use ethernet::EthernetHeader;
pub use ipv4::Ipv4Header;
pub use tcp::TcpHeader;
pub use udp::UdpHeader;

use crate::errors::DecodeError;
use crate::net::checksum::{checksum_ready, checksum_spec, verify_spec};
use crate::net::decode::{be16, take_bytes};
use crate::net::ethernet::{ethernet_matches, ethernet_ok, lemma_ethernet_encode_matches};
use crate::net::ipv4::{
    ipv4_hl, ipv4_malformed, ipv4_matches, ipv4_ok, ipv4_truncated, lemma_ipv4_encode_matches,
};
use crate::net::tcp::{
    lemma_tcp_encode_matches, tcp_hl, tcp_malformed, tcp_matches, tcp_ok, tcp_truncated,
};
use crate::net::udp::{lemma_udp_encode_matches, udp_matches, udp_ok};

verus! {

/// The layer-3 payload of an Ethernet frame, keyed by the ethertype.
/// `Unknown` is a first-class terminal marker: it consumes no bytes, so an
/// unrecognized ethertype never fails the overall decode.
#[derive(Debug, PartialEq, Eq)]
pub enum Layer3 {
    Ipv4(Ipv4Header),
    Unknown,
}

/// The layer-4 payload of an IPv4 packet, keyed by the protocol number.
/// `Unknown` consumes no bytes.
#[derive(Debug, PartialEq, Eq)]
pub enum Layer4 {
    Tcp(TcpHeader),
    Udp(UdpHeader),
    Unknown,
}

/// Cursor position after the layer-3 header that `ethertype` selects at
/// `pos`: an unmatched tag consumes nothing.
pub open spec fn layer3_end(b: Seq<u8>, pos: int, ethertype: u16) -> int {
    if ethertype == 0x0800 {
        pos + ipv4_hl(b, pos)
    } else {
        pos
    }
}

/// The variant that `ethertype` selects decodes at `pos`.
pub open spec fn layer3_ok(b: Seq<u8>, pos: int, ethertype: u16) -> bool {
    ethertype == 0x0800 ==> ipv4_ok(b, pos)
}

/// `l` is exactly the layer-3 value that `ethertype` selects at `pos`.
pub open spec fn layer3_matches(l: Layer3, b: Seq<u8>, pos: int, ethertype: u16) -> bool {
    match l {
        Layer3::Ipv4(h) => ethertype == 0x0800 && ipv4_matches(h, b, pos) && h.wf(),
        Layer3::Unknown => ethertype != 0x0800,
    }
}

/// Cursor position after the layer-4 header that `protocol` selects at
/// `pos`: an unmatched tag consumes nothing.
pub open spec fn layer4_end(b: Seq<u8>, pos: int, protocol: u8) -> int {
    if protocol == 6 {
        pos + tcp_hl(b, pos)
    } else if protocol == 17 {
        pos + 8
    } else {
        pos
    }
}

/// The variant that `protocol` selects decodes at `pos`.
pub open spec fn layer4_ok(b: Seq<u8>, pos: int, protocol: u8) -> bool {
    &&& protocol == 6 ==> tcp_ok(b, pos)
    &&& protocol == 17 ==> udp_ok(b, pos)
}

/// `l` is exactly the layer-4 value that `protocol` selects at `pos`.
pub open spec fn layer4_matches(l: Layer4, b: Seq<u8>, pos: int, protocol: u8) -> bool {
    match l {
        Layer4::Tcp(h) => protocol == 6 && tcp_matches(h, b, pos) && h.wf(),
        Layer4::Udp(h) => protocol == 17 && udp_matches(h, b, pos),
        Layer4::Unknown => protocol != 6 && protocol != 17,
    }
}

impl Layer3 {
    /// Dispatch on the owning Ethernet header's ethertype: `0x0800` decodes
    /// an IPv4 header, anything else is `Unknown` and consumes no further
    /// bytes.
    pub fn decode(ethertype: u16, buf: &[u8], pos: usize) -> (r: Result<
        (Self, usize),
        DecodeError,
    >)
        requires
            pos <= buf@.len(),
        ensures
            match r {
                Ok((l, end)) => {
                    &&& layer3_ok(buf@, pos as int, ethertype)
                    &&& layer3_matches(l, buf@, pos as int, ethertype)
                    &&& end == layer3_end(buf@, pos as int, ethertype)
                },
                Err(e) => {
                    &&& ethertype == 0x0800
                    &&& (e == DecodeError::Truncated <==> ipv4_truncated(buf@, pos as int))
                    &&& (e == DecodeError::MalformedLength <==> ipv4_malformed(buf@, pos as int))
                },
            },
    {
        if ethertype == 0x0800 {
            let (h, end) = Ipv4Header::decode(buf, pos)?;
            Ok((Layer3::Ipv4(h), end))
        } else {
            Ok((Layer3::Unknown, pos))
        }
    }

    /// The protocol number of an IPv4 payload.
    pub fn get_protocol(&self) -> (r: Option<u8>)
        ensures
            r == (match self {
                Layer3::Ipv4(h) => Some(h.protocol),
                Layer3::Unknown => None::<u8>,
            }),
    {
        match self {
            Self::Ipv4(v) => Some(v.protocol),
            _ => None,
        }
    }

    /// The source address octets of an IPv4 payload.
    pub fn get_src_vec(&self) -> (r: Option<Vec<u8>>)
        ensures
            match r {
                Some(v) => self matches Layer3::Ipv4(h) && v@ == h.src@,
                None => self is Unknown,
            },
    {
        match self {
            Self::Ipv4(v) => Some(vstd::slice::slice_to_vec(v.src.as_slice())),
            _ => None,
        }
    }

    /// The destination address octets of an IPv4 payload.
    pub fn get_dst_vec(&self) -> (r: Option<Vec<u8>>)
        ensures
            match r {
                Some(v) => self matches Layer3::Ipv4(h) && v@ == h.dst@,
                None => self is Unknown,
            },
    {
        match self {
            Self::Ipv4(v) => Some(vstd::slice::slice_to_vec(v.dst.as_slice())),
            _ => None,
        }
    }

    /// The headers carry the ranges the wire format implies.
    pub open spec fn wf(&self) -> bool {
        match self {
            Layer3::Ipv4(h) => h.wf(),
            Layer3::Unknown => true,
        }
    }

    /// The wire bytes of the selected variant: `Unknown` stands for no bytes
    /// at all.
    pub open spec fn spec_encode(&self) -> Seq<u8> {
        match self {
            Layer3::Ipv4(h) => h.spec_encode(),
            Layer3::Unknown => Seq::empty(),
        }
    }

    /// Append the wire bytes of the selected variant.
    pub fn encode(&self, out: &mut Vec<u8>)
        requires
            self.wf(),
        ensures
            final(out)@ == old(out)@ + self.spec_encode(),
    {
        match self {
            Self::Ipv4(h) => h.encode(out),
            Self::Unknown => {
                proof {
                    assert(out@ =~= old(out)@ + Seq::<u8>::empty());
                }
            },
        }
    }
}

impl Layer4 {
    /// The headers carry the ranges the wire format implies.
    pub open spec fn wf(&self) -> bool {
        match self {
            Layer4::Tcp(h) => h.wf(),
            Layer4::Udp(_) => true,
            Layer4::Unknown => true,
        }
    }

    /// The wire bytes of the selected variant: `Unknown` stands for no bytes
    /// at all.
    pub open spec fn spec_encode(&self) -> Seq<u8> {
        match self {
            Layer4::Tcp(h) => h.spec_encode(),
            Layer4::Udp(h) => h.spec_encode(),
            Layer4::Unknown => Seq::empty(),
        }
    }

    /// Append the wire bytes of the selected variant.
    pub fn encode(&self, out: &mut Vec<u8>)
        requires
            self.wf(),
        ensures
            final(out)@ == old(out)@ + self.spec_encode(),
    {
        match self {
            Self::Tcp(h) => h.encode(out),
            Self::Udp(h) => h.encode(out),
            Self::Unknown => {
                proof {
                    assert(out@ =~= old(out)@ + Seq::<u8>::empty());
                }
            },
        }
    }

    /// Dispatch on the owning layer 3's protocol number: `6` decodes a TCP
    /// header, `17` a UDP header, anything else is `Unknown` and consumes no
    /// further bytes.
    pub fn decode(protocol: u8, buf: &[u8], pos: usize) -> (r: Result<(Self, usize), DecodeError>)
        requires
            pos <= buf@.len(),
        ensures
            match r {
                Ok((l, end)) => {
                    &&& layer4_ok(buf@, pos as int, protocol)
                    &&& layer4_matches(l, buf@, pos as int, protocol)
                    &&& end == layer4_end(buf@, pos as int, protocol)
                },
                Err(e) => {
                    &&& (protocol == 6 || protocol == 17)
                    &&& (e == DecodeError::Truncated <==> (protocol == 6 && tcp_truncated(
                        buf@,
                        pos as int,
                    )) || (protocol == 17 && !udp_ok(buf@, pos as int)))
                    &&& (e == DecodeError::MalformedLength <==> protocol == 6 && tcp_malformed(
                        buf@,
                        pos as int,
                    ))
                },
            },
    {
        if protocol == 6 {
            let (h, end) = TcpHeader::decode(buf, pos)?;
            Ok((Layer4::Tcp(h), end))
        } else if protocol == 17 {
            let (h, end) = UdpHeader::decode(buf, pos)?;
            Ok((Layer4::Udp(h), end))
        } else {
            Ok((Layer4::Unknown, pos))
        }
    }

    /// The source port of a TCP or UDP payload.
    pub fn get_sport(&self) -> (r: Option<u16>)
        ensures
            r == (match self {
                Layer4::Tcp(h) => Some(h.sport),
                Layer4::Udp(h) => Some(h.sport),
                Layer4::Unknown => None::<u16>,
            }),
    {
        match self {
            Self::Tcp(v) => Some(v.sport),
            Self::Udp(v) => Some(v.sport),
            _ => None,
        }
    }

    /// The destination port of a TCP or UDP payload.
    pub fn get_dport(&self) -> (r: Option<u16>)
        ensures
            r == (match self {
                Layer4::Tcp(h) => Some(h.dport),
                Layer4::Udp(h) => Some(h.dport),
                Layer4::Unknown => None::<u16>,
            }),
    {
        match self {
            Self::Tcp(v) => Some(v.dport),
            Self::Udp(v) => Some(v.dport),
            _ => None,
        }
    }

    /// The flag bits of a TCP payload.
    pub fn get_tcp_flags(&self) -> (r: Option<u16>)
        ensures
            r == (match self {
                Layer4::Tcp(h) => Some(h.flags),
                Layer4::Udp(h) => None::<u16>,
                Layer4::Unknown => None::<u16>,
            }),
    {
        match self {
            Self::Tcp(v) => Some(v.flags),
            _ => None,
        }
    }
}

/// A checksum-oriented frame view: Ethernet header, layer 3, and the entire
/// remaining transport segment (header and payload undivided), for callers
/// that need the raw transport bytes rather than a parsed layer 4.
#[derive(Debug, PartialEq, Eq)]
pub struct ChecksumLayer {
    pub layer12: EthernetHeader,
    pub layer3: Layer3,
    pub remain: Vec<u8>,
}

/// The buffer decodes as a `ChecksumLayer`.
pub open spec fn checksum_layer_ok(b: Seq<u8>) -> bool {
    &&& ethernet_ok(b, 0)
    &&& layer3_ok(b, 14, be16(b, 12))
}

/// `l` is exactly the `ChecksumLayer` view of `b`.
pub open spec fn checksum_layer_matches(l: ChecksumLayer, b: Seq<u8>) -> bool {
    &&& ethernet_matches(l.layer12, b, 0)
    &&& l.layer12.wf()
    &&& layer3_matches(l.layer3, b, 14, be16(b, 12))
    &&& l.remain@ == b.subrange(layer3_end(b, 14, be16(b, 12)), b.len() as int)
}

impl ChecksumLayer {
    /// The headers carry the address and length ranges the wire format
    /// implies.
    pub open spec fn wf(&self) -> bool {
        &&& self.layer12.wf()
        &&& (match self.layer3 {
            Layer3::Ipv4(h) => h.wf(),
            Layer3::Unknown => true,
        })
    }

    /// The checksum engine applies: layer 3 is IPv4, its protocol is TCP or
    /// UDP, and the remaining segment holds its checksum field and fits the
    /// pseudo-header's 16-bit length word.
    pub open spec fn checksum_applicable(&self) -> bool {
        match self.layer3 {
            Layer3::Ipv4(h) => checksum_ready(h.protocol, self.remain@),
            Layer3::Unknown => false,
        }
    }

    /// The checksum of the remaining segment under the IPv4 pseudo-header.
    pub open spec fn spec_checksum(&self) -> int
        recommends
            self.checksum_applicable(),
    {
        match self.layer3 {
            Layer3::Ipv4(h) => checksum_spec(h.src@, h.dst@, h.protocol, self.remain@),
            Layer3::Unknown => 0,
        }
    }

    /// The remaining segment verifies under the IPv4 pseudo-header.
    pub open spec fn spec_verify(&self) -> bool
        recommends
            self.checksum_applicable(),
    {
        match self.layer3 {
            Layer3::Ipv4(h) => verify_spec(h.src@, h.dst@, h.protocol, self.remain@),
            Layer3::Unknown => false,
        }
    }

    /// The full wire bytes of the view: Ethernet header, layer-3 header,
    /// remaining segment verbatim.
    pub open spec fn spec_encode(&self) -> Seq<u8> {
        self.layer12.spec_encode() + self.layer3.spec_encode() + self.remain@
    }

    /// Encode the view into a fresh byte buffer, the mirror image of
    /// decoding.
    pub fn encode(&self) -> (r: Vec<u8>)
        requires
            self.wf(),
        ensures
            r@ == self.spec_encode(),
    {
        let mut out: Vec<u8> = Vec::new();
        self.layer12.encode(&mut out);
        self.layer3.encode(&mut out);
        crate::net::decode::put_bytes(&mut out, self.remain.as_slice());
        proof {
            assert(out@ =~= self.spec_encode());
        }
        out
    }

    /// Decode the frame: Ethernet header, layer 3 tagged by the just-decoded
    /// ethertype, then all remaining bytes undivided.
    pub fn decode(buf: &[u8]) -> (r: Result<Self, DecodeError>)
        ensures
            match r {
                Ok(l) => {
                    &&& checksum_layer_ok(buf@)
                    &&& checksum_layer_matches(l, buf@)
                    &&& l.wf()
                },
                Err(e) => {
                    &&& (e == DecodeError::Truncated <==> !ethernet_ok(buf@, 0) || (be16(buf@, 12)
                        == 0x0800 && ipv4_truncated(buf@, 14)))
                    &&& (e == DecodeError::MalformedLength <==> ethernet_ok(buf@, 0) && be16(
                        buf@,
                        12,
                    ) == 0x0800 && ipv4_malformed(buf@, 14))
                },
            },
    {
        let (layer12, p) = EthernetHeader::decode(buf, 0)?;
        let (layer3, p) = Layer3::decode(layer12.ethertype, buf, p)?;
        let (remain, _) = take_bytes(buf, p, buf.len() - p)?;
        Ok(Self { layer12, layer3, remain })
    }

    /// Compute the transport checksum of `remain` if the engine applies:
    /// layer 3 must be IPv4 carrying TCP or UDP, anything else is "not
    /// applicable".
    pub fn checksum(&self) -> (r: Option<u16>)
        requires
            self.wf(),
        ensures
            match r {
                Some(c) => self.checksum_applicable() && c == self.spec_checksum(),
                None => !self.checksum_applicable(),
            },
    {
        match &self.layer3 {
            Layer3::Ipv4(h) => {
                if h.protocol == 6 || h.protocol == 17 {
                    let off: usize = if h.protocol == 6 {
                        16
                    } else {
                        6
                    };
                    if self.remain.len() >= off + 2 && self.remain.len() <= 0xffff {
                        let cs = CheckSum::new_tcp_or_udp(
                            h.src.as_slice(),
                            h.dst.as_slice(),
                            h.protocol,
                            self.remain.as_slice(),
                        );
                        Some(cs.checksum())
                    } else {
                        None
                    }
                } else {
                    None
                }
            },
            Layer3::Unknown => None,
        }
    }

    /// Verify the transport checksum of `remain`: true only if the engine
    /// applies and the complement of the fold over the whole segment is
    /// zero.
    pub fn verify(&self) -> (r: bool)
        requires
            self.wf(),
        ensures
            r == (self.checksum_applicable() && self.spec_verify()),
    {
        match &self.layer3 {
            Layer3::Ipv4(h) => {
                if h.protocol == 6 || h.protocol == 17 {
                    let off: usize = if h.protocol == 6 {
                        16
                    } else {
                        6
                    };
                    if self.remain.len() >= off + 2 && self.remain.len() <= 0xffff {
                        let cs = CheckSum::new_tcp_or_udp(
                            h.src.as_slice(),
                            h.dst.as_slice(),
                            h.protocol,
                            self.remain.as_slice(),
                        );
                        cs.verify()
                    } else {
                        false
                    }
                } else {
                    false
                }
            },
            Layer3::Unknown => false,
        }
    }
}

/// The protocol tag handed to the layer-4 dispatch: the IPv4 protocol
/// number, or zero when layer 3 is unknown, which resolves layer 4 to
/// `Unknown`.
pub open spec fn frame_protocol(b: Seq<u8>) -> u8 {
    if be16(b, 12) == 0x0800 {
        b[23]
    } else {
        0
    }
}

/// A fully decoded frame: Ethernet header, layer 3, layer 4, and whatever
/// bytes the three header layers did not consume.
#[derive(Debug, PartialEq, Eq)]
pub struct Layer {
    pub layer12: EthernetHeader,
    pub layer3: Layer3,
    pub layer4: Layer4,
    pub remain: Vec<u8>,
}

/// The buffer decodes as a full `Layer`.
pub open spec fn layer_ok(b: Seq<u8>) -> bool {
    &&& ethernet_ok(b, 0)
    &&& layer3_ok(b, 14, be16(b, 12))
    &&& layer4_ok(b, layer3_end(b, 14, be16(b, 12)), frame_protocol(b))
}

/// Some header layer ends past the end of the buffer.
pub open spec fn layer_truncated(b: Seq<u8>) -> bool {
    ||| !ethernet_ok(b, 0)
    ||| (be16(b, 12) == 0x0800 && ipv4_truncated(b, 14))
    ||| (checksum_layer_ok(b) && frame_protocol(b) == 6 && tcp_truncated(
        b,
        layer3_end(b, 14, be16(b, 12)),
    ))
    ||| (checksum_layer_ok(b) && frame_protocol(b) == 17 && !udp_ok(
        b,
        layer3_end(b, 14, be16(b, 12)),
    ))
}

/// Some header-length nibble implies fewer bytes than its fixed part.
pub open spec fn layer_malformed(b: Seq<u8>) -> bool {
    ||| (ethernet_ok(b, 0) && be16(b, 12) == 0x0800 && ipv4_malformed(b, 14))
    ||| (checksum_layer_ok(b) && frame_protocol(b) == 6 && tcp_malformed(
        b,
        layer3_end(b, 14, be16(b, 12)),
    ))
}

/// `l` is exactly the decoded view of `b`.
pub open spec fn layer_matches(l: Layer, b: Seq<u8>) -> bool {
    let l3end = layer3_end(b, 14, be16(b, 12));
    &&& ethernet_matches(l.layer12, b, 0)
    &&& l.layer12.wf()
    &&& layer3_matches(l.layer3, b, 14, be16(b, 12))
    &&& layer4_matches(l.layer4, b, l3end, frame_protocol(b))
    &&& l.remain@ == b.subrange(layer4_end(b, l3end, frame_protocol(b)), b.len() as int)
}

impl Layer {
    /// The headers carry the ranges the wire format implies.
    pub open spec fn wf(&self) -> bool {
        &&& self.layer12.wf()
        &&& self.layer3.wf()
        &&& self.layer4.wf()
    }

    /// The full wire bytes of the frame: Ethernet header, layer-3 header,
    /// layer-4 header, payload verbatim.
    pub open spec fn spec_encode(&self) -> Seq<u8> {
        self.layer12.spec_encode() + self.layer3.spec_encode() + self.layer4.spec_encode()
            + self.remain@
    }

    /// Encode the frame into a fresh byte buffer, the mirror image of
    /// decoding.
    pub fn encode(&self) -> (r: Vec<u8>)
        requires
            self.wf(),
        ensures
            r@ == self.spec_encode(),
    {
        let mut out: Vec<u8> = Vec::new();
        self.layer12.encode(&mut out);
        self.layer3.encode(&mut out);
        self.layer4.encode(&mut out);
        crate::net::decode::put_bytes(&mut out, self.remain.as_slice());
        proof {
            assert(out@ =~= self.spec_encode());
        }
        out
    }

    /// Decode the frame: Ethernet header, layer 3 tagged by the just-decoded
    /// ethertype, layer 4 tagged by the just-decoded layer-3 protocol (an
    /// unknown layer 3 hands layer 4 a zero tag), then all remaining bytes
    /// as the payload.
    pub fn decode(buf: &[u8]) -> (r: Result<Self, DecodeError>)
        ensures
            match r {
                Ok(l) => {
                    &&& layer_ok(buf@)
                    &&& layer_matches(l, buf@)
                },
                Err(e) => {
                    &&& (e == DecodeError::Truncated <==> layer_truncated(buf@))
                    &&& (e == DecodeError::MalformedLength <==> layer_malformed(buf@))
                },
            },
    {
        let (layer12, p) = EthernetHeader::decode(buf, 0)?;
        let (layer3, p) = Layer3::decode(layer12.ethertype, buf, p)?;
        let protocol = match &layer3 {
            Layer3::Ipv4(h) => h.protocol,
            Layer3::Unknown => 0,
        };
        let (layer4, p) = Layer4::decode(protocol, buf, p)?;
        let (remain, _) = take_bytes(buf, p, buf.len() - p)?;
        Ok(Self { layer12, layer3, layer4, remain })
    }
}

/// The dispatch tags of a `ChecksumLayer` agree with the stored variant: the
/// ethertype selects exactly the layer 3 that is there.
pub open spec fn checksum_layer_coherent(l: ChecksumLayer) -> bool {
    (l.layer12.ethertype == 0x0800) <==> (l.layer3 is Ipv4)
}

/// Round trip of the checksum-oriented frame view: decoding the encoded
/// bytes of a well-formed, tag-coherent view pins down exactly the headers
/// and segment of that view.
pub proof fn lemma_checksum_layer_roundtrip(l: ChecksumLayer)
    requires
        l.wf(),
        checksum_layer_coherent(l),
    ensures
        checksum_layer_ok(l.spec_encode()),
        checksum_layer_matches(l, l.spec_encode()),
{
    let b = l.spec_encode();
    let ethenc = l.layer12.spec_encode();
    assert(ethenc.len() == 14);
    assert(b.subrange(0, 14) =~= ethenc);
    lemma_ethernet_encode_matches(l.layer12, b, 0);
    match l.layer3 {
        Layer3::Ipv4(h) => {
            assert(h.spec_encode().len() == h.header_length);
            assert(b.subrange(14, 14 + h.header_length) =~= h.spec_encode());
            lemma_ipv4_encode_matches(h, b, 14);
            assert(b.subrange(14 + h.header_length as int, b.len() as int) =~= l.remain@);
        },
        Layer3::Unknown => {
            assert(b.subrange(14, b.len() as int) =~= l.remain@);
        },
    }
}

/// The dispatch tags of a `Layer` agree with the stored variants: the
/// ethertype selects exactly the layer 3 that is there, and its protocol
/// number exactly the layer 4.
pub open spec fn layer_coherent(l: Layer) -> bool {
    &&& ((l.layer12.ethertype == 0x0800) <==> (l.layer3 is Ipv4))
    &&& (match l.layer3 {
        Layer3::Ipv4(h) => {
            &&& ((h.protocol == 6) <==> (l.layer4 is Tcp))
            &&& ((h.protocol == 17) <==> (l.layer4 is Udp))
        },
        Layer3::Unknown => l.layer4 is Unknown,
    })
}

/// Round trip of the full frame view: decoding the encoded bytes of a
/// well-formed, tag-coherent view pins down exactly the headers and payload
/// of that view.
pub proof fn lemma_layer_roundtrip(l: Layer)
    requires
        l.wf(),
        layer_coherent(l),
    ensures
        layer_ok(l.spec_encode()),
        layer_matches(l, l.spec_encode()),
{
    let b = l.spec_encode();
    let ethenc = l.layer12.spec_encode();
    assert(ethenc.len() == 14);
    assert(b.subrange(0, 14) =~= ethenc);
    lemma_ethernet_encode_matches(l.layer12, b, 0);
    match l.layer3 {
        Layer3::Ipv4(h) => {
            assert(h.spec_encode().len() == h.header_length);
            assert(b.subrange(14, 14 + h.header_length) =~= h.spec_encode());
            lemma_ipv4_encode_matches(h, b, 14);
            let l3end = 14 + h.header_length as int;
            assert(frame_protocol(b) == h.protocol);
            match l.layer4 {
                Layer4::Tcp(t) => {
                    assert(t.spec_encode().len() == t.header_length);
                    assert(b.subrange(l3end, l3end + t.header_length) =~= t.spec_encode());
                    lemma_tcp_encode_matches(t, b, l3end);
                    assert(b.subrange(l3end + t.header_length as int, b.len() as int)
                        =~= l.remain@);
                },
                Layer4::Udp(u) => {
                    assert(u.spec_encode().len() == 8);
                    assert(b.subrange(l3end, l3end + 8) =~= u.spec_encode());
                    lemma_udp_encode_matches(u, b, l3end);
                    assert(b.subrange(l3end + 8, b.len() as int) =~= l.remain@);
                },
                Layer4::Unknown => {
                    assert(b.subrange(l3end, b.len() as int) =~= l.remain@);
                },
            }
        },
        Layer3::Unknown => {
            assert(b.subrange(14, b.len() as int) =~= l.remain@);
        },
    }
}

} // verus!
