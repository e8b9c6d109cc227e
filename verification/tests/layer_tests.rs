use libpcap_rs::{ChecksumLayer, DecodeError, Layer, Layer3, Layer4};

// 14-byte Ethernet + 20-byte IPv4 + 8-byte UDP DNS query frame with a
// deliberately wrong transport checksum.
fn dns_frame() -> Vec<u8> {
    b"\x00\xc0\x9f\x32\x41\x8c\x00\xe0\x18\xb1\x0c\xad\x08\x00\x45\x00\
    \x00\x38\x00\x00\x40\x00\x40\x11\x65\x47\xc0\xa8\xaa\x08\xc0\xa8\
    \xaa\x14\x80\x1b\x00\x35\x00\x24\x85\xef\x10\x32\x01\x00\x00\x01\
    \x00\x00\x00\x00\x00\x00\x06\x67\x6f\x6f\x67\x6c\x65\x03\x63\x6f\
    \x6d\x00\x00\x10\x00\x01"
        .to_vec()
}

#[test]
fn test_layer_encode_and_decode() {
    let mut input = dns_frame();

    let value = ChecksumLayer::decode(&input).unwrap();
    assert_eq!(value.verify(), false);

    if let Some(protocol) = value.layer3.get_protocol() {
        if let Some(checksum) = value.checksum() {
            let checksum_array = checksum.to_be_bytes();

            if protocol == 17 {
                input[14 + 20 + 6] = checksum_array[0];
                input[14 + 20 + 7] = checksum_array[1];
            } else if protocol == 6 {
                input[14 + 20 + 16] = checksum_array[0];
                input[14 + 20 + 17] = checksum_array[1];
            }
        }
    }

    let value = ChecksumLayer::decode(&input).unwrap();
    assert_eq!(value.verify(), true);
}

// End-to-end scenario on the DNS query frame: header fields decode to their
// literal values, verification fails on the wrong stored checksum and
// succeeds after patching via the computed one.
#[test]
fn end_to_end_dns_frame() {
    let mut input = dns_frame();
    let layer = Layer::decode(&input).unwrap();

    assert_eq!(layer.layer12.smac, vec![0x00, 0xc0, 0x9f, 0x32, 0x41, 0x8c]);
    assert_eq!(layer.layer12.dmac, vec![0x00, 0xe0, 0x18, 0xb1, 0x0c, 0xad]);
    assert_eq!(layer.layer12.ethertype, 0x0800);

    match &layer.layer3 {
        Layer3::Ipv4(h) => {
            assert_eq!(h.version, 4);
            assert_eq!(h.header_length, 20);
            assert_eq!(h.total_length, 0x38);
            assert_eq!(h.protocol, 17);
            assert_eq!(h.src, vec![0xc0, 0xa8, 0xaa, 0x08]);
            assert_eq!(h.dst, vec![0xc0, 0xa8, 0xaa, 0x14]);
            assert_eq!(h.options.len(), 0);
        },
        Layer3::Unknown => panic!("expected IPv4"),
    }

    assert_eq!(layer.layer4.get_sport(), Some(0x801b));
    assert_eq!(layer.layer4.get_dport(), Some(0x0035));
    assert_eq!(layer.layer4.get_tcp_flags(), None);

    let cs_layer = ChecksumLayer::decode(&input).unwrap();
    assert_eq!(cs_layer.verify(), false);
    let c = cs_layer.checksum().unwrap();
    let bytes = c.to_be_bytes();
    input[40] = bytes[0];
    input[41] = bytes[1];
    assert_eq!(ChecksumLayer::decode(&input).unwrap().verify(), true);
}

// Layer-3 dispatch: ethertype 0x0800 decodes IPv4; any other ethertype is
// Unknown and consumes no further bytes.
#[test]
fn layer3_dispatch() {
    let mut frame = dns_frame();
    let layer = Layer::decode(&frame).unwrap();
    assert!(matches!(layer.layer3, Layer3::Ipv4(_)));

    // Flip the ethertype to ARP: everything past the Ethernet header stays
    // in the payload slice.
    frame[12] = 0x08;
    frame[13] = 0x06;
    let layer = Layer::decode(&frame).unwrap();
    assert!(matches!(layer.layer3, Layer3::Unknown));
    assert!(matches!(layer.layer4, Layer4::Unknown));
    assert_eq!(layer.remain, frame[14..].to_vec());
}

// Layer-4 dispatch: protocol 6 is TCP, 17 is UDP, anything else Unknown.
#[test]
fn layer4_dispatch() {
    let frame = dns_frame();
    let layer = Layer::decode(&frame).unwrap();
    assert!(matches!(layer.layer4, Layer4::Udp(_)));

    // Protocol 6 with a 20-byte TCP header in place of the UDP part.
    let mut tcp_frame = frame[..34].to_vec();
    tcp_frame[23] = 6;
    let tcp_header = [
        0x80u8, 0x1b, 0x00, 0x35, 0, 0, 0, 1, 0, 0, 0, 2, 0x50, 0x18, 0xfa, 0xf0, 0, 0, 0, 0,
    ];
    tcp_frame.extend_from_slice(&tcp_header);
    let layer = Layer::decode(&tcp_frame).unwrap();
    match &layer.layer4 {
        Layer4::Tcp(h) => {
            assert_eq!(h.sport, 0x801b);
            assert_eq!(h.dport, 0x0035);
            assert_eq!(h.header_length, 20);
            assert_eq!(h.flags, 0x018);
            assert_eq!(h.window, 0xfaf0);
            assert_eq!(h.options.len(), 0);
        },
        _ => panic!("expected TCP"),
    }
    assert_eq!(layer.remain.len(), 0);

    // An unhandled protocol number leaves layer 4 Unknown and the transport
    // bytes in the payload.
    let mut other = dns_frame();
    other[23] = 50;
    let layer = Layer::decode(&other).unwrap();
    assert!(matches!(layer.layer4, Layer4::Unknown));
    assert_eq!(layer.remain, other[34..].to_vec());
}

// Options length: a header-length nibble of 5 (20 bytes) gives an empty
// options slice; 6 (24 bytes) consumes exactly 4 trailing option bytes.
#[test]
fn options_length_from_nibble() {
    let frame = dns_frame();
    let layer = Layer::decode(&frame).unwrap();
    match &layer.layer3 {
        Layer3::Ipv4(h) => assert_eq!(h.options.len(), 0),
        _ => panic!("expected IPv4"),
    }

    // Rewrite the IPv4 nibble to 6 and splice in 4 option bytes.
    let mut with_options = frame[..34].to_vec();
    with_options[14] = 0x46;
    with_options.extend_from_slice(&[0xde, 0xad, 0xbe, 0xef]);
    with_options.extend_from_slice(&frame[34..]);
    let layer = Layer::decode(&with_options).unwrap();
    match &layer.layer3 {
        Layer3::Ipv4(h) => {
            assert_eq!(h.header_length, 24);
            assert_eq!(h.options, vec![0xde, 0xad, 0xbe, 0xef]);
        },
        _ => panic!("expected IPv4"),
    }
    // Layer 4 starts after the options.
    assert_eq!(layer.layer4.get_sport(), Some(0x801b));

    // TCP data offset 6 consumes 4 option bytes the same way.
    let mut tcp_frame = frame[..34].to_vec();
    tcp_frame[23] = 6;
    let tcp_header = [
        0x80u8, 0x1b, 0x00, 0x35, 0, 0, 0, 1, 0, 0, 0, 2, 0x60, 0x18, 0xfa, 0xf0, 0, 0, 0, 0, 1,
        2, 3, 4, 9, 9,
    ];
    tcp_frame.extend_from_slice(&tcp_header);
    let layer = Layer::decode(&tcp_frame).unwrap();
    match &layer.layer4 {
        Layer4::Tcp(h) => {
            assert_eq!(h.header_length, 24);
            assert_eq!(h.options, vec![1, 2, 3, 4]);
        },
        _ => panic!("expected TCP"),
    }
    assert_eq!(layer.remain, vec![9, 9]);
}

// A buffer shorter than a fixed header yields Truncated, never a panic.
#[test]
fn truncated_buffers() {
    // Shorter than the Ethernet header.
    assert_eq!(Layer::decode(&[0u8; 10]), Err(DecodeError::Truncated));
    assert_eq!(ChecksumLayer::decode(&[]), Err(DecodeError::Truncated));

    // Ethernet complete, IPv4 fixed part missing.
    let frame = dns_frame();
    assert_eq!(Layer::decode(&frame[..20]), Err(DecodeError::Truncated));

    // IPv4 options promised by the nibble but missing from the buffer.
    let mut short_options = frame[..34].to_vec();
    short_options[14] = 0x46;
    assert_eq!(Layer::decode(&short_options), Err(DecodeError::Truncated));

    // UDP header cut off.
    assert_eq!(Layer::decode(&frame[..38]), Err(DecodeError::Truncated));

    // A header-length nibble below the fixed part is malformed, not read
    // out of bounds.
    let mut malformed = frame.clone();
    malformed[14] = 0x44;
    assert_eq!(Layer::decode(&malformed), Err(DecodeError::MalformedLength));
}

// Encoding mirrors decoding: re-encoding a decoded frame reproduces the
// original bytes exactly, through both composite views.
#[test]
fn encode_mirrors_decode() {
    let frame = dns_frame();

    let layer = Layer::decode(&frame).unwrap();
    assert_eq!(layer.encode(), frame);

    let cs_layer = ChecksumLayer::decode(&frame).unwrap();
    assert_eq!(cs_layer.encode(), frame);

    // The same through a frame with IPv4 options and a TCP payload.
    let mut tcp_frame = frame[..34].to_vec();
    tcp_frame[14] = 0x46;
    tcp_frame[23] = 6;
    tcp_frame.extend_from_slice(&[7, 7, 7, 7]);
    tcp_frame.extend_from_slice(&[
        0x80, 0x1b, 0x00, 0x35, 0, 0, 0, 1, 0, 0, 0, 2, 0x60, 0x18, 0xfa, 0xf0, 0, 0, 0, 0, 1, 2,
        3, 4, 9, 9,
    ]);
    let layer = Layer::decode(&tcp_frame).unwrap();
    assert_eq!(layer.encode(), tcp_frame);

    // And through an unknown ethertype, where everything past the Ethernet
    // header is payload.
    let mut arp = frame.clone();
    arp[13] = 0x06;
    let layer = Layer::decode(&arp).unwrap();
    assert_eq!(layer.encode(), arp);
}
