use libpcap_rs::CheckSum;

#[test]
fn test_checksum_tcp() {
    // TCP even byte
    let input = b"\x0c\x0a\x01\xf6\x48\x3c\xbe\x86\x7a\x8a\xa5\x17\x50\x18\xfa\xf0\x62\x56\x00\x00\
                            \x00\x01\x00\x00\x00\x06\x0a\x01\x00\x00\x00\x01";

    let checksum = CheckSum::new_tcp_or_udp(
        &[0x0a, 0x00, 0x00, 0x09],
        &[0x0a, 0x00, 0x00, 0x03],
        0x06,
        input,
    );

    assert_eq!(checksum.verify(), true);
    assert_eq!(checksum.checksum(), 0x6256);
}

#[test]
fn test_checksum_udp() {
    // UDP even byte (UDP Header + UDP Data)
    let input = b"\x04\x43\xba\xe3\x00\x5c\x0a\xb1\
        \x00\xf8\x04\x83\x00\x00\x00\x00\x00\x00\x00\x54\x00\x00\x00\x00\
        \x00\x00\x00\x00\x00\x00\x00\x00\x04\x4c\x00\x29\x00\x00\x01\x02\
        \x03\x04\x05\x06\x07\x08\x01\x02\x03\x04\x00\x50\x60\x70\x80\x10\
        \x23\x04\x05\x06\x07\x00\x80\x01\x02\x03\x04\x05\x06\x07\x08\x01\
        \x01\x02\x03\x04\x05\x06\x07\x08\x01\x02\x03\x04\x05\x06\x07\x08\
        \x01\x02\x03\x04";

    let checksum = CheckSum::new_tcp_or_udp(
        &[0xda, 0x55, 0x70, 0x8a],
        &[0x01, 0x02, 0x03, 0x04],
        17,
        input,
    );

    assert_eq!(checksum.verify(), true);
    assert_eq!(checksum.checksum(), 0x0ab1);
}

#[test]
fn test_checksum_udp2() {
    // UDP odd byte (UDP Header + UDP Data)
    let input = b"\x48\x4b\x48\x4b\x00\x45\x5c\x93\
        \xfa\xce\x00\x2b\x00\x02\x17\x62\x00\x01\x8b\xd4\x54\x80\x01\x00\
        \x03\x01\x00\x00\x00\x00\x00\x53\x00\x00\x00\x00\x00\x00\x00\x00\
        \x00\x04\x00\x00\x00\x00\x00\x00\x89\x00\x80\x17\xe3\x00\x19\x00\
        \x21\x00\x00\x03\xe8\x00\x00\x00\x00\x00\x00\xc5\xf8";

    let checksum = CheckSum::new_tcp_or_udp(
        &[0x0a, 0x04, 0x00, 0x06],
        &[0x0a, 0x04, 0x00, 0x3e],
        17,
        input,
    );

    assert_eq!(checksum.verify(), true);
    assert_eq!(checksum.checksum(), 0x5c93);
}

// The checksum field offset is honored per protocol: under protocol 6 the
// bytes at offset 16..18 are excluded from the computation, under protocol
// 17 the bytes at offset 6..8 are, so the same raw bytes checksum
// differently.
#[test]
fn checksum_offset_honored_per_protocol() {
    let src = [10u8, 0, 0, 1];
    let dst = [10u8, 0, 0, 2];
    let base: Vec<u8> = (0u8..20u8).collect();

    // Protocol 6 ignores bytes 16..18: changing them leaves the value alone.
    let mut tcp_variant = base.clone();
    tcp_variant[16] = 0xaa;
    tcp_variant[17] = 0xbb;
    let c_tcp = CheckSum::new_tcp_or_udp(&src, &dst, 6, &base).checksum();
    let c_tcp2 = CheckSum::new_tcp_or_udp(&src, &dst, 6, &tcp_variant).checksum();
    assert_eq!(c_tcp, c_tcp2);

    // Protocol 17 ignores bytes 6..8 instead.
    let mut udp_variant = base.clone();
    udp_variant[6] = 0xaa;
    udp_variant[7] = 0xbb;
    let c_udp = CheckSum::new_tcp_or_udp(&src, &dst, 17, &base).checksum();
    let c_udp2 = CheckSum::new_tcp_or_udp(&src, &dst, 17, &udp_variant).checksum();
    assert_eq!(c_udp, c_udp2);

    // But protocol 17 does sum bytes 16..18, and protocol 6 does sum 6..8.
    let c_udp3 = CheckSum::new_tcp_or_udp(&src, &dst, 17, &tcp_variant).checksum();
    assert_ne!(c_udp, c_udp3);
    let c_tcp3 = CheckSum::new_tcp_or_udp(&src, &dst, 6, &udp_variant).checksum();
    assert_ne!(c_tcp, c_tcp3);

    // And the two protocols disagree on the same raw bytes.
    assert_ne!(c_tcp, c_udp);
}

// Round trip on a fresh segment: writing the computed checksum into the
// field at the protocol's offset makes verification succeed.
#[test]
fn checksum_roundtrip_concrete() {
    let src = [192u8, 168, 0, 1];
    let dst = [192u8, 168, 0, 99];

    // UDP, odd length: 8-byte header plus 5 payload bytes.
    let mut seg = vec![0x12u8, 0x34, 0x00, 0x35, 0x00, 0x0d, 0x00, 0x00, 1, 2, 3, 4, 5];
    let c = CheckSum::new_tcp_or_udp(&src, &dst, 17, &seg).checksum();
    assert!(!CheckSum::new_tcp_or_udp(&src, &dst, 17, &seg).verify());
    let bytes = c.to_be_bytes();
    seg[6] = bytes[0];
    seg[7] = bytes[1];
    assert!(CheckSum::new_tcp_or_udp(&src, &dst, 17, &seg).verify());

    // TCP, even length: bare 20-byte header.
    let mut seg2: Vec<u8> = (100u8..120u8).collect();
    seg2[16] = 0;
    seg2[17] = 0;
    let c2 = CheckSum::new_tcp_or_udp(&src, &dst, 6, &seg2).checksum();
    let bytes2 = c2.to_be_bytes();
    seg2[16] = bytes2[0];
    seg2[17] = bytes2[1];
    assert!(CheckSum::new_tcp_or_udp(&src, &dst, 6, &seg2).verify());
}

// A zero-length segment sums to the pseudo-header contribution only; an
// all-zero checksum field is acceptable input to verification.
#[test]
fn checksum_edge_cases() {
    let src = [1u8, 2, 3, 4];
    let dst = [5u8, 6, 7, 8];

    // Empty segment: pseudo-header only.  wordsum = 0x0102 + 0x0304 +
    // 0x0506 + 0x0708 + 17 + 0 = 0x1025; complement of the fold is not 0.
    let empty = CheckSum::new_tcp_or_udp(&src, &dst, 17, &[]);
    assert!(!empty.verify());

    // All-zero checksum field verifies only if the rest happens to fold.
    let seg = [0x00u8, 0x00, 0x00, 0x00, 0x00, 0x00, 0x00, 0x00];
    let zeroed = CheckSum::new_tcp_or_udp(&src, &dst, 17, &seg);
    assert!(!zeroed.verify());
}

// The plain constructor carries the bytes and an empty pseudo-header.
#[test]
fn checksum_new_fields() {
    let cs = CheckSum::new(&[1, 2, 3]);
    assert_eq!(cs.src_ip.len(), 0);
    assert_eq!(cs.dst_ip.len(), 0);
    assert_eq!(cs.protocol, 0);
    assert_eq!(cs.input, vec![1, 2, 3]);
}
