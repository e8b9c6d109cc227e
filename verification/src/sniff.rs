//! The capture session's decision state.  Opening the device, applying a
//! filter and pulling packets are native-library work that stays outside the
//! library; the rules of the capture loop — how many packets to take, what a
//! record looks like, what an empty poll yields — live here, so the loop
//! around the native calls only performs what these methods decide.
use vstd::prelude::*;

use crate::wrapper::LibPcapPacketInfo;

verus! {

/// A capture session: the network port it listens on.
#[derive(Debug, PartialEq, Eq)]
pub struct Sniff {
    pub iface: String,
}

/// The capture loop's counters: how many packets were asked for (`-1` for
/// unbounded) and how many were taken so far.
#[derive(Debug, PartialEq, Eq, Structural)]
pub struct SniffIterator {
    pub count: isize,
    pub index: isize,
}

impl Sniff {
    /// Start a capture of `count` packets (`-1` for unbounded).
    pub fn capture(&self, count: isize) -> (r: SniffIterator)
        ensures
            r.count == count,
            r.index == 0,
    {
        SniffIterator::new(count)
    }
}

impl SniffIterator {
    /// A fresh capture counter.
    pub fn new(count: isize) -> (r: Self)
        ensures
            r.count == count,
            r.index == 0,
    {
        Self { count, index: 0 }
    }

    /// Whether the loop should poll for another packet: an unbounded capture
    /// always does, a bounded one until its count is reached.
    pub fn wants_next(&self) -> (r: bool)
        ensures
            r == (self.count == -1 || self.index < self.count),
    {
        self.count == -1 || self.index < self.count
    }

    /// Record the outcome of one poll.  An empty poll yields a placeholder
    /// record carrying the fallback timestamp and counts for nothing; a
    /// non-empty poll yields the record as given and advances the counter.
    pub fn on_packet(&mut self, buf: Vec<u8>, timestamp: i64, caplen: u32, fallback_timestamp: i64)
        -> (r: LibPcapPacketInfo)
        requires
            old(self).index < isize::MAX,
        ensures
            final(self).count == old(self).count,
            buf@.len() == 0 ==> {
                &&& final(self).index == old(self).index
                &&& r.timestamp == fallback_timestamp
                &&& r.caplen == 0
                &&& r.buf@.len() == 0
            },
            buf@.len() > 0 ==> {
                &&& final(self).index == old(self).index + 1
                &&& r.timestamp == timestamp
                &&& r.caplen == caplen
                &&& r.buf@ == buf@
            },
    {
        if buf.len() == 0 {
            LibPcapPacketInfo { timestamp: fallback_timestamp, caplen: 0, buf: Vec::new() }
        } else {
            self.index = self.index + 1;
            LibPcapPacketInfo { timestamp, caplen, buf }
        }
    }
}

} // verus!
