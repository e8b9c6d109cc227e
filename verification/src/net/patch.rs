//! The checksum / length patch workflow: decode a hex payload as a
//! checksum-oriented frame, overwrite the transport checksum field with the
//! computed checksum, and optionally overwrite the IPv4 total-length field.
//! The byte offset of the checksum field is computed from the decoded
//! header, so frames with IPv4 options are patched at the right place.
use vstd::prelude::*;
use vstd::string::StringSliceAdditionalSpecFns;

use crate::net::checksum::{checksum_field_offset, checksum_ready, checksum_spec, verify_spec};
use crate::net::decode::be16;
use crate::net::ethernet::ethernet_ok;
use crate::net::ipv4::{ipv4_hl, ipv4_ok};
use crate::net::{checksum_layer_ok, frame_protocol, layer3_end, ChecksumLayer, Layer3};

verus! {

/// ASCII code of a hexadecimal digit.
pub open spec fn is_hex_digit(c: u8) -> bool {
    ||| 0x30 <= c <= 0x39  // '0' ..= '9'
    ||| 0x41 <= c <= 0x46  // 'A' ..= 'F'
    ||| 0x61 <= c <= 0x66  // 'a' ..= 'f'
}

/// Value of a hexadecimal digit.
pub open spec fn hex_digit_val(c: u8) -> int
    recommends
        is_hex_digit(c),
{
    if 0x30 <= c <= 0x39 {
        c - 0x30
    } else if 0x41 <= c <= 0x46 {
        c - 0x41 + 10
    } else {
        c - 0x61 + 10
    }
}

/// The byte string spells a byte run in hex: even length, hex digits only.
pub open spec fn valid_hex(s: Seq<u8>) -> bool {
    &&& s.len() % 2 == 0
    &&& forall|i: int| 0 <= i < s.len() ==> is_hex_digit(#[trigger] s[i])
}

/// The byte run spelled by a hex string, two digits per byte, high digit
/// first.
pub open spec fn hex_bytes(s: Seq<u8>) -> Seq<u8>
    decreases s.len(),
{
    if s.len() < 2 {
        Seq::empty()
    } else {
        seq![(hex_digit_val(s[0]) * 16 + hex_digit_val(s[1])) as u8] + hex_bytes(s.skip(2))
    }
}

/// Relies on hex::decode: an even-length string of hex digits decodes to the
/// byte each digit pair spells (upper and lower case both accepted); any
/// other string is refused with an error.
#[verifier::external_body]
fn hex_decode(s: &str) -> (r: Option<Vec<u8>>)
    ensures
        r is Some <==> valid_hex(s.spec_bytes()),
        match r {
            Some(v) => v@ == hex_bytes(s.spec_bytes()),
            None => !valid_hex(s.spec_bytes()),
        },
{
    match hex::decode(s) {
        Ok(v) => Some(v),
        Err(_) => None,
    }
}

/// The frame carries an IPv4 header after its Ethernet header.
pub open spec fn ipv4_present(b: Seq<u8>) -> bool {
    &&& ethernet_ok(b, 0)
    &&& be16(b, 12) == 0x0800
    &&& ipv4_ok(b, 14)
}

/// First byte of the transport segment: just past the IPv4 header.
pub open spec fn frame_seg_start(b: Seq<u8>) -> int {
    layer3_end(b, 14, be16(b, 12))
}

/// The transport segment: everything past the IPv4 header, header and
/// payload undivided.
pub open spec fn frame_seg(b: Seq<u8>) -> Seq<u8> {
    b.subrange(frame_seg_start(b), b.len() as int)
}

/// The IPv4 source address of the frame.
pub open spec fn frame_src(b: Seq<u8>) -> Seq<u8> {
    b.subrange(26, 30)
}

/// The IPv4 destination address of the frame.
pub open spec fn frame_dst(b: Seq<u8>) -> Seq<u8> {
    b.subrange(30, 34)
}

/// The frame supports checksum patching: it decodes as an IPv4 frame whose
/// protocol is TCP or UDP and whose transport segment supports the checksum
/// engine.
pub open spec fn patchable(b: Seq<u8>) -> bool {
    &&& checksum_layer_ok(b)
    &&& be16(b, 12) == 0x0800
    &&& checksum_ready(frame_protocol(b), frame_seg(b))
}

/// The frame with the computed transport checksum written big-endian into
/// the checksum field, at the offset the decoded header implies.
pub open spec fn with_checksum_patched(b: Seq<u8>) -> Seq<u8>
    recommends
        patchable(b),
{
    let off = frame_seg_start(b) + checksum_field_offset(frame_protocol(b));
    let c = checksum_spec(frame_src(b), frame_dst(b), frame_protocol(b), frame_seg(b));
    b.update(off, (c / 256) as u8).update(off + 1, (c % 256) as u8)
}

/// The frame with the IPv4 total-length field rewritten to cover the IPv4
/// header and everything after it: the frame length minus the 14 Ethernet
/// bytes.
pub open spec fn with_total_length_patched(b: Seq<u8>) -> Seq<u8>
    recommends
        ipv4_present(b),
        b.len() - 14 <= 0xffff,
{
    let tl = b.len() - 14;
    b.update(16, (tl / 256) as u8).update(17, (tl % 256) as u8)
}

/// The patched frame: the checksum patch where the frame supports it, then
/// the total-length patch where the frame is IPv4 and the new length fits
/// its 16-bit field; a frame that supports neither is returned unchanged.
pub open spec fn spec_prepared(b: Seq<u8>, set_checksum: bool, set_total_length: bool) -> Seq<u8> {
    if !set_checksum {
        b
    } else {
        let b1 = if patchable(b) {
            with_checksum_patched(b)
        } else {
            b
        };
        if set_total_length && ipv4_present(b) && b.len() - 14 <= 0xffff {
            with_total_length_patched(b1)
        } else {
            b1
        }
    }
}

/// Patch the frame in place: the transport checksum field where the frame
/// supports it, then the IPv4 total-length field if requested, both at
/// offsets computed from the decoded header.
pub fn patch_frame(frame: &mut Vec<u8>, set_checksum: bool, set_total_length: bool)
    ensures
        final(frame)@ == spec_prepared(old(frame)@, set_checksum, set_total_length),
{
    let ghost b = old(frame)@;
    if !set_checksum {
        return ;
    }
    let layer = match ChecksumLayer::decode(frame.as_slice()) {
        Ok(layer) => layer,
        Err(_) => {
            proof {
                assert(!patchable(b));
                assert(!ipv4_present(b));
            }
            return ;
        },
    };
    match layer.checksum() {
        Some(c) => {
            let (hl, field_off) = match &layer.layer3 {
                Layer3::Ipv4(h) => (
                    h.header_length,
                    if h.protocol == 6 {
                        16usize
                    } else {
                        6usize
                    },
                ),
                Layer3::Unknown => vstd::pervasive::unreached(),
            };
            let off = 14 + hl as usize + field_off;
            proof {
                assert(layer.remain@.len() == b.len() - frame_seg_start(b));
            }
            frame.set(off, (c / 256) as u8);
            frame.set(off + 1, (c % 256) as u8);
            proof {
                assert(frame@ == with_checksum_patched(b));
            }
        },
        None => {
            proof {
                assert(!patchable(b));
            }
        },
    }
    if set_total_length {
        match &layer.layer3 {
            Layer3::Ipv4(_) => {
                if frame.len() - 14 <= 0xffff {
                    let tl: u16 = (frame.len() - 14) as u16;
                    frame.set(16, (tl / 256) as u8);
                    frame.set(17, (tl % 256) as u8);
                }
            },
            Layer3::Unknown => {
                proof {
                    assert(!ipv4_present(b));
                }
            },
        }
    }
}

/// Decode a hex payload and patch it: the compute core of the pcap-writing
/// workflow.  Returns the patched frame bytes, or nothing when the payload
/// is not well-formed hex.
pub fn prepare_payload(payload: &str, set_checksum: bool, set_total_length: bool) -> (r: Option<
    Vec<u8>,
>)
    ensures
        r is Some <==> valid_hex(payload.spec_bytes()),
        match r {
            Some(v) => v@ == spec_prepared(
                hex_bytes(payload.spec_bytes()),
                set_checksum,
                set_total_length,
            ),
            None => !valid_hex(payload.spec_bytes()),
        },
{
    match hex_decode(payload) {
        Some(mut frame) => {
            patch_frame(&mut frame, set_checksum, set_total_length);
            Some(frame)
        },
        None => None,
    }
}

/// The patch workflow round trip: writing the computed checksum into a
/// patchable frame yields a frame that is still patchable and whose
/// transport segment verifies under its pseudo-header.
pub proof fn lemma_patched_frame_verifies(b: Seq<u8>)
    requires
        patchable(b),
    ensures
        patchable(with_checksum_patched(b)),
        ({
            let p = with_checksum_patched(b);
            verify_spec(frame_src(p), frame_dst(p), frame_protocol(p), frame_seg(p))
        }),
{
    let p = with_checksum_patched(b);
    let start = frame_seg_start(b);
    let seg = frame_seg(b);
    let protocol = frame_protocol(b);
    let field_off = checksum_field_offset(protocol);
    let c = checksum_spec(frame_src(b), frame_dst(b), protocol, seg);

    // The patch touches only the two checksum bytes inside the transport
    // segment: every header byte, and with it every dispatch tag and
    // address, stays as it was.
    assert(start >= 34);
    assert(p.len() == b.len());
    assert(forall|i: int| 0 <= i < start ==> p[i] == b[i]);
    assert(p.subrange(0, 34) =~= b.subrange(0, 34));
    assert(be16(p, 12) == be16(b, 12));
    assert(ipv4_hl(p, 14) == ipv4_hl(b, 14));
    assert(frame_protocol(p) == protocol);
    assert(frame_src(p) =~= frame_src(b));
    assert(frame_dst(p) =~= frame_dst(b));
    assert(frame_seg_start(p) == start);

    // The patched segment is the old segment with the checksum written into
    // its field.
    assert(frame_seg(p) =~= seg.update(field_off, (c / 256) as u8).update(
        field_off + 1,
        (c % 256) as u8,
    ));

    crate::net::checksum::lemma_checksum_roundtrip(frame_src(b), frame_dst(b), protocol, seg);
}

} // verus!
