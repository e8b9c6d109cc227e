//! Decoding of link-layer frames (Ethernet, IPv4, TCP, UDP) into structured
//! header views, and computation and verification of the Internet transport
//! checksum over those views.  The capture device, the file container and
//! the command-line surfaces around this core are outside collaborators:
//! they hand the core a byte buffer and take back a decoded frame or a
//! patched buffer.
use vstd::prelude::*;

pub mod errors;
pub mod net;
pub mod sniff;
pub mod time;
pub mod wrapper;

pub use errors::DecodeError;
pub use errors::LibPcapError;
pub use net::checksum::CheckSum;
pub use net::ethernet::EthernetHeader;
pub use net::ipv4::Ipv4Header;
pub use net::tcp::TcpHeader;
pub use net::udp::UdpHeader;
pub use net::{ChecksumLayer, Layer, Layer3, Layer4};
pub use sniff::{Sniff, SniffIterator};
pub use wrapper::{LibPcapMode, LibPcapPacketInfo};

verus! {

/// Result alias used throughout the crate for pcap-level operations.
pub type PResult<I> = Result<I, errors::LibPcapError>;

} // verus!
