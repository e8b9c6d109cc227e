//! Plain models of the pcap file wrapper's data: the open mode with its
//! one-letter spelling, the per-record packet info, and the mode-selection
//! rule used when a command opens an output file.
use vstd::prelude::*;
use vstd::string::StringSliceAdditionalSpecFns;

verus! {

/// How a pcap file is opened.
#[derive(Debug, Clone, Copy, PartialEq, Eq, Structural)]
pub enum LibPcapMode {
    Read,
    Write,
    Append,
}

/// One captured record: the bytes of one link-layer frame plus its capture
/// timestamp (seconds since epoch) and captured length.
#[derive(Debug, PartialEq, Eq)]
pub struct LibPcapPacketInfo {
    pub timestamp: i64,
    pub caplen: u32,
    pub buf: Vec<u8>,
}

/// The mode a one-letter string spells: `r`, `w` or `a`.
pub open spec fn mode_of_str(s: Seq<u8>) -> Option<LibPcapMode> {
    if s.len() == 1 && s[0] == 114 {  // "r"
        Some(LibPcapMode::Read)
    } else if s.len() == 1 && s[0] == 119 {  // "w"
        Some(LibPcapMode::Write)
    } else if s.len() == 1 && s[0] == 97 {  // "a"
        Some(LibPcapMode::Append)
    } else {
        None
    }
}

impl LibPcapMode {
    /// Parse the one-letter mode string: `r` reads, `w` writes, `a` appends;
    /// anything else is refused.
    pub fn from_mode_str(s: &str) -> (r: Option<LibPcapMode>)
        ensures
            r == mode_of_str(s.spec_bytes()),
    {
        let b = s.as_bytes();
        if b.len() != 1 {
            None
        } else if b[0] == 114 {
            Some(LibPcapMode::Read)
        } else if b[0] == 119 {
            Some(LibPcapMode::Write)
        } else if b[0] == 97 {
            Some(LibPcapMode::Append)
        } else {
            None
        }
    }
}

impl Default for LibPcapMode {
    /// The mode assumed when none parses.
    fn default() -> (r: Self)
        ensures
            r == LibPcapMode::Read,
    {
        LibPcapMode::Read
    }
}

/// The mode an output-opening command uses: the explicit request if one was
/// given, else append to an existing file and write a fresh one.
pub fn choose_output_mode(requested: Option<LibPcapMode>, output_exists: bool) -> (r: LibPcapMode)
    ensures
        r == (match requested {
            Some(m) => m,
            None => if output_exists {
                LibPcapMode::Append
            } else {
                LibPcapMode::Write
            },
        }),
{
    match requested {
        Some(m) => m,
        None => if output_exists {
            LibPcapMode::Append
        } else {
            LibPcapMode::Write
        },
    }
}

} // verus!
