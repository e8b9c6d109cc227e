use libpcap_rs::wrapper::choose_output_mode;
use libpcap_rs::{LibPcapMode, Sniff, SniffIterator};

#[test]
fn test_get_first_iface() {
}

// The one-letter mode strings parse to their modes; anything else is
// refused and the default stands in.
#[test]
fn mode_parsing() {
    assert_eq!(LibPcapMode::from_mode_str("r"), Some(LibPcapMode::Read));
    assert_eq!(LibPcapMode::from_mode_str("w"), Some(LibPcapMode::Write));
    assert_eq!(LibPcapMode::from_mode_str("a"), Some(LibPcapMode::Append));
    assert_eq!(LibPcapMode::from_mode_str("x"), None);
    assert_eq!(LibPcapMode::from_mode_str(""), None);
    assert_eq!(LibPcapMode::from_mode_str("rw"), None);
    assert_eq!(LibPcapMode::default(), LibPcapMode::Read);
}

// An output file is opened in the requested mode; with none requested, an
// existing file is appended to and a missing one written fresh.
#[test]
fn output_mode_choice() {
    assert_eq!(choose_output_mode(Some(LibPcapMode::Write), true), LibPcapMode::Write);
    assert_eq!(choose_output_mode(Some(LibPcapMode::Read), false), LibPcapMode::Read);
    assert_eq!(choose_output_mode(None, true), LibPcapMode::Append);
    assert_eq!(choose_output_mode(None, false), LibPcapMode::Write);
}

// A bounded capture polls until its count is reached; empty polls yield a
// placeholder record and count for nothing.
#[test]
fn capture_counting() {
    let sniff = Sniff { iface: String::from("lo") };
    let mut iter = sniff.capture(2);
    assert!(iter.wants_next());

    let info = iter.on_packet(vec![1, 2, 3], 111, 3, 999);
    assert_eq!(info.timestamp, 111);
    assert_eq!(info.caplen, 3);
    assert_eq!(info.buf, vec![1, 2, 3]);
    assert!(iter.wants_next());

    // An empty poll: placeholder with the fallback timestamp, no progress.
    let info = iter.on_packet(Vec::new(), 222, 7, 999);
    assert_eq!(info.timestamp, 999);
    assert_eq!(info.caplen, 0);
    assert_eq!(info.buf.len(), 0);
    assert!(iter.wants_next());

    let info = iter.on_packet(vec![4], 333, 1, 999);
    assert_eq!(info.timestamp, 333);
    assert!(!iter.wants_next());
}

// An unbounded capture never stops on its own.
#[test]
fn capture_unbounded() {
    let mut iter = SniffIterator::new(-1);
    for i in 0..100 {
        assert!(iter.wants_next());
        iter.on_packet(vec![0], i, 1, 0);
    }
    assert!(iter.wants_next());
}

// The clock reads as seconds since the epoch: a modern machine is past
// 2001-09-09 (a billion seconds).
#[test]
fn timestamp_runs() {
    assert!(libpcap_rs::time::now_timestamp() > 1_000_000_000);
}
