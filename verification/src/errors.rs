//! Error types: pcap-level failures and frame-decoding failures.
use vstd::prelude::*;

verus! {

/// libpcap error enum
#[derive(Debug)]
pub enum LibPcapError {
    InvalidFile { path: String },
    InvalidDir { path: String },
    FileNotExtists { path: String },
    OpenModeError,
    InvalidInterface { iface: String, msg: String },
    InvalidBpfFilter,
    LookUpDevError { msg: String },
    FindAllDevsError { msg: String },
    SendRawPacketError,
}

/// A failure while decoding a frame from raw bytes.
///
/// `Truncated`: the buffer holds fewer bytes than a field or slice requires.
/// `MalformedLength`: a length-deriving field (a header-length nibble) implies
/// a slice length below the fixed part of its header.
#[derive(Debug, Clone, Copy, PartialEq, Eq, Structural)]
pub enum DecodeError {
    Truncated,
    MalformedLength,
}

} // verus!
