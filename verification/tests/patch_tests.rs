use libpcap_rs::net::patch::{patch_frame, prepare_payload};
use libpcap_rs::ChecksumLayer;

fn dns_frame() -> Vec<u8> {
    b"\x00\xc0\x9f\x32\x41\x8c\x00\xe0\x18\xb1\x0c\xad\x08\x00\x45\x00\
    \x00\x38\x00\x00\x40\x00\x40\x11\x65\x47\xc0\xa8\xaa\x08\xc0\xa8\
    \xaa\x14\x80\x1b\x00\x35\x00\x24\x85\xef\x10\x32\x01\x00\x00\x01\
    \x00\x00\x00\x00\x00\x00\x06\x67\x6f\x6f\x67\x6c\x65\x03\x63\x6f\
    \x6d\x00\x00\x10\x00\x01"
        .to_vec()
}

fn to_hex(bytes: &[u8]) -> String {
    let mut s = String::new();
    for b in bytes {
        s.push_str(&format!("{:02x}", b));
    }
    s
}

// Decoding a hex payload and patching the checksum produces a frame that
// verifies; the patch lands on the UDP checksum field.
#[test]
fn prepare_payload_patches_checksum() {
    let frame = dns_frame();
    let hex_payload = to_hex(&frame);

    let patched = prepare_payload(&hex_payload, true, false).unwrap();
    assert_eq!(patched.len(), frame.len());
    assert_eq!(&patched[..40], &frame[..40]);
    assert_eq!(&patched[42..], &frame[42..]);
    assert_ne!(&patched[40..42], &frame[40..42]);
    assert!(ChecksumLayer::decode(&patched).unwrap().verify());
}

// With no patching requested the hex payload comes back exactly as spelled:
// the decode is not the identity on the string, but it is on the bytes.
#[test]
fn prepare_payload_plain_decode() {
    let frame = dns_frame();
    let hex_payload = to_hex(&frame);
    let upper = hex_payload.to_uppercase();

    assert_eq!(prepare_payload(&hex_payload, false, false).unwrap(), frame);
    assert_eq!(prepare_payload(&upper, false, false).unwrap(), frame);
    assert_eq!(prepare_payload("0aFf", false, false).unwrap(), vec![0x0a, 0xff]);
    assert_eq!(prepare_payload("", false, false).unwrap(), Vec::<u8>::new());
}

// Ill-formed hex is refused: odd length, or a character that is no digit.
#[test]
fn prepare_payload_rejects_bad_hex() {
    assert_eq!(prepare_payload("abc", true, true), None);
    assert_eq!(prepare_payload("zz", true, true), None);
    assert_eq!(prepare_payload("0 1", false, false), None);
}

// The total-length patch rewrites bytes 16..18 with the frame length minus
// the Ethernet header, big-endian.
#[test]
fn patch_total_length() {
    let mut frame = dns_frame();
    // Append 4 payload bytes the stored total_length does not cover.
    frame.extend_from_slice(&[1, 2, 3, 4]);
    let expected_tl = (frame.len() - 14) as u16;

    let mut patched = frame.clone();
    patch_frame(&mut patched, true, true);
    assert_eq!(&patched[16..18], &expected_tl.to_be_bytes());
    assert!(ChecksumLayer::decode(&patched).unwrap().verify());

    // Without the length flag the field keeps its stored value.
    let mut cs_only = frame.clone();
    patch_frame(&mut cs_only, true, false);
    assert_eq!(&cs_only[16..18], &frame[16..18]);
}

// A frame that supports no patch comes back unchanged: a non-IPv4
// ethertype, and an IPv4 protocol outside TCP/UDP.
#[test]
fn patch_frame_not_applicable() {
    let mut arp = dns_frame();
    arp[12] = 0x08;
    arp[13] = 0x06;
    let mut patched = arp.clone();
    patch_frame(&mut patched, true, true);
    assert_eq!(patched, arp);

    let mut other = dns_frame();
    other[23] = 50;
    let mut patched = other.clone();
    patch_frame(&mut patched, true, true);
    // No checksum patch, but the length patch still applies to IPv4.
    assert_eq!(&patched[..16], &other[..16]);
    assert_eq!(&patched[16..18], &((other.len() - 14) as u16).to_be_bytes());
    assert_eq!(&patched[18..], &other[18..]);

    // Too short for any header at all.
    let mut tiny = vec![1u8, 2, 3];
    patch_frame(&mut tiny, true, true);
    assert_eq!(tiny, vec![1, 2, 3]);
}

// The checksum field offset is computed from the decoded header: a frame
// with 4 bytes of IPv4 options is patched 4 bytes further in.
#[test]
fn patch_offset_follows_options() {
    let frame = dns_frame();
    let mut with_options = frame[..34].to_vec();
    with_options[14] = 0x46;
    with_options.extend_from_slice(&[0, 0, 0, 0]);
    with_options.extend_from_slice(&frame[34..]);

    let mut patched = with_options.clone();
    patch_frame(&mut patched, true, false);
    // Bytes 14+24+6 .. 14+24+8 hold the new checksum.
    assert_eq!(&patched[..44], &with_options[..44]);
    assert_ne!(&patched[44..46], &with_options[44..46]);
    assert_eq!(&patched[46..], &with_options[46..]);
    assert!(ChecksumLayer::decode(&patched).unwrap().verify());
}
