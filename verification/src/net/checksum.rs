//! Internet checksum engine (RFC 1071): ones'-complement sum of 16-bit words
//! over a pseudo-header and a transport segment, with end-around carry
//! folding and a final complement.
use vstd::prelude::*;

use vstd::arithmetic::div_mod::{
    lemma_add_mod_noop, lemma_fundamental_div_mod, lemma_mod_multiples_vanish, lemma_mod_self_0,
    lemma_small_mod,
};

verus! {

/// Sum of the big-endian 16-bit words of `b`; an odd trailing byte is folded
/// in as its value shifted into the high half, as if padded with a zero low
/// byte.
pub open spec fn wordsum(b: Seq<u8>) -> int
    decreases b.len(),
{
    if b.len() >= 2 {
        b[0] * 256 + b[1] + wordsum(b.skip(2))
    } else if b.len() == 1 {
        b[0] * 256
    } else {
        0
    }
}

/// End-around carry fold: add the high 16 bits into the low 16 bits until no
/// carry remains.  The result of a non-negative argument lies in
/// `0 ..= 0xffff`.
pub open spec fn fold16(v: int) -> int
    recommends
        v >= 0,
    decreases v,
{
    if v < 0x10000 {
        v
    } else {
        fold16(v / 0x10000 + v % 0x10000)
    }
}

/// Byte offset of the 16-bit checksum field within a transport segment:
/// byte 16 of the TCP header, byte 6 of the UDP header.
pub open spec fn checksum_field_offset(protocol: u8) -> int {
    if protocol == 6 {
        16
    } else {
        6
    }
}

/// Contribution of the pseudo-header: source address words, destination
/// address words, the protocol number, and the segment's byte length folded
/// in as a 16-bit value.
pub open spec fn pseudo_header_sum(src: Seq<u8>, dst: Seq<u8>, protocol: u8, seg_len: int) -> int {
    wordsum(src) + wordsum(dst) + protocol + seg_len
}

/// The segment supports checksum computation: a supported transport protocol
/// whose checksum field lies within the segment, and a byte length that fits
/// the pseudo-header's 16-bit length word.
pub open spec fn checksum_ready(protocol: u8, seg: Seq<u8>) -> bool {
    &&& (protocol == 6 || protocol == 17)
    &&& checksum_field_offset(protocol) + 2 <= seg.len() <= 0xffff
}

/// Unfolded sum for computation: pseudo-header plus every word of the
/// segment except the two bytes of the checksum field itself.
pub open spec fn checksum_total(src: Seq<u8>, dst: Seq<u8>, protocol: u8, seg: Seq<u8>) -> int {
    let off = checksum_field_offset(protocol);
    pseudo_header_sum(src, dst, protocol, seg.len() as int) + wordsum(seg.subrange(0, off))
        + wordsum(seg.subrange(off + 2, seg.len() as int))
}

/// The checksum value: complement of the folded sum with the checksum field
/// excluded.  Writing this value into the field makes `verify_spec` hold.
pub open spec fn checksum_spec(src: Seq<u8>, dst: Seq<u8>, protocol: u8, seg: Seq<u8>) -> int {
    0xffff - fold16(checksum_total(src, dst, protocol, seg))
}

/// Unfolded sum for verification: pseudo-header plus every word of the
/// segment, checksum field included as-is.
pub open spec fn verify_total(src: Seq<u8>, dst: Seq<u8>, protocol: u8, seg: Seq<u8>) -> int {
    pseudo_header_sum(src, dst, protocol, seg.len() as int) + wordsum(seg)
}

/// The segment verifies: the complement of the folded sum over the whole
/// segment is zero.
pub open spec fn verify_spec(src: Seq<u8>, dst: Seq<u8>, protocol: u8, seg: Seq<u8>) -> bool {
    fold16(verify_total(src, dst, protocol, seg)) == 0xffff
}

/// The word sum is non-negative and at most `0xffff` per byte of input.
pub proof fn lemma_wordsum_bounds(b: Seq<u8>)
    ensures
        0 <= wordsum(b) <= 0xffff * b.len(),
    decreases b.len(),
{
    if b.len() >= 2 {
        lemma_wordsum_bounds(b.skip(2));
    }
}

/// Summing two byte runs separately equals summing their concatenation,
/// provided the first run ends on a 16-bit word boundary.
pub proof fn lemma_wordsum_concat(a: Seq<u8>, b: Seq<u8>)
    requires
        a.len() % 2 == 0,
    ensures
        wordsum(a + b) == wordsum(a) + wordsum(b),
    decreases a.len(),
{
    if a.len() == 0 {
        assert(a + b =~= b);
    } else {
        assert((a + b).skip(2) =~= a.skip(2) + b);
        lemma_wordsum_concat(a.skip(2), b);
    }
}

/// The checksum sum is invariant to the contiguous split point used
/// internally: splitting the segment at any 16-bit word boundary and summing
/// the two parts separately gives the sum of the whole.
pub proof fn lemma_split_invariant(seg: Seq<u8>, k: int)
    requires
        0 <= k <= seg.len(),
        k % 2 == 0,
    ensures
        wordsum(seg.subrange(0, k)) + wordsum(seg.subrange(k, seg.len() as int)) == wordsum(seg),
{
    assert(seg.subrange(0, k) + seg.subrange(k, seg.len() as int) =~= seg);
    lemma_wordsum_concat(seg.subrange(0, k), seg.subrange(k, seg.len() as int));
}

/// Folding keeps a non-negative value within `0 ..= 0xffff` and never maps a
/// positive value to zero.
pub proof fn lemma_fold16_bounds(v: int)
    requires
        v >= 0,
    ensures
        0 <= fold16(v) <= 0xffff,
        v >= 1 ==> fold16(v) >= 1,
    decreases v,
{
    if v < 0x10000 {
    } else {
        lemma_fundamental_div_mod(v, 0x10000);
        let next = v / 0x10000 + v % 0x10000;
        assert(1 <= next < v);
        lemma_fold16_bounds(next);
    }
}

/// Folding preserves the value modulo `0xffff`.
pub proof fn lemma_fold16_mod(v: int)
    requires
        v >= 0,
    ensures
        fold16(v) % 0xffff == v % 0xffff,
    decreases v,
{
    if v < 0x10000 {
    } else {
        lemma_fundamental_div_mod(v, 0x10000);
        let q = v / 0x10000;
        let r = v % 0x10000;
        assert(1 <= q + r < v);
        assert(v == 0xffff * q + (q + r));
        lemma_mod_multiples_vanish(q, q + r, 0xffff);
        lemma_fold16_mod(q + r);
    }
}

/// A checksum computation: the pseudo-header inputs (source address,
/// destination address, protocol) together with the transport segment the
/// sum ranges over.
#[derive(Debug)]
pub struct CheckSum {
    pub src_ip: Vec<u8>,
    pub dst_ip: Vec<u8>,
    pub protocol: u8,
    pub input: Vec<u8>,
}

/// Sum of the 16-bit words of `b[i .. j]`, odd tail folded high, as a `u64`.
fn sum_range(b: &[u8], i: usize, j: usize) -> (r: u64)
    requires
        i <= j <= b@.len(),
        j - i <= 0x10000,
    ensures
        r == wordsum(b@.subrange(i as int, j as int)),
{
    let mut acc: u64 = 0;
    let mut k: usize = i;
    while j - k >= 2
        invariant
            i <= k <= j <= b@.len(),
            j - i <= 0x10000,
            (k - i) % 2 == 0,
            acc == wordsum(b@.subrange(i as int, k as int)),
            acc <= 0xffff * (k - i),
        decreases j - k,
    {
        proof {
            lemma_wordsum_concat(b@.subrange(i as int, k as int), b@.subrange(k as int, k + 2));
            assert(b@.subrange(i as int, k as int) + b@.subrange(k as int, k + 2) =~= b@.subrange(
                i as int,
                k + 2,
            ));
            assert(wordsum(b@.subrange(k as int, k + 2).skip(2)) == 0) by {
                assert(b@.subrange(k as int, k + 2).skip(2) =~= Seq::<u8>::empty());
            }
            assert(wordsum(b@.subrange(k as int, k + 2)) == b@[k as int] * 256 + b@[k + 1]);
        }
        acc = acc + (b[k] as u64) * 256 + (b[k + 1] as u64);
        k = k + 2;
    }
    if k < j {
        proof {
            lemma_wordsum_concat(b@.subrange(i as int, k as int), b@.subrange(k as int, j as int));
            assert(b@.subrange(i as int, k as int) + b@.subrange(k as int, j as int)
                =~= b@.subrange(i as int, j as int));
            assert(wordsum(b@.subrange(k as int, j as int)) == b@[k as int] * 256);
        }
        acc = acc + (b[k] as u64) * 256;
    } else {
        proof {
            assert(b@.subrange(i as int, k as int) =~= b@.subrange(i as int, j as int));
        }
    }
    acc
}

/// Fold the high 16 bits of the accumulator into the low 16 bits until no
/// carry remains.
fn fold_carry(value: u64) -> (r: u64)
    ensures
        r == fold16(value as int),
        r <= 0xffff,
{
    let mut v: u64 = value;
    while v >= 0x10000
        invariant
            fold16(v as int) == fold16(value as int),
        decreases v,
    {
        proof {
            lemma_fundamental_div_mod(v as int, 0x10000);
        }
        v = v / 0x10000 + v % 0x10000;
    }
    v
}

impl CheckSum {
    /// A checksum view with an empty pseudo-header over the given bytes.
    pub fn new(input: &[u8]) -> (r: Self)
        ensures
            r.src_ip@.len() == 0,
            r.dst_ip@.len() == 0,
            r.protocol == 0,
            r.input@ == input@,
    {
        Self {
            src_ip: Vec::new(),
            dst_ip: Vec::new(),
            protocol: 0,
            input: vstd::slice::slice_to_vec(input),
        }
    }

    /// A checksum view over a transport segment with its pseudo-header.
    pub fn new_tcp_or_udp(src_ip: &[u8], dst_ip: &[u8], protocol: u8, header_and_data: &[u8]) -> (r:
        Self)
        ensures
            r.src_ip@ == src_ip@,
            r.dst_ip@ == dst_ip@,
            r.protocol == protocol,
            r.input@ == header_and_data@,
    {
        Self {
            src_ip: vstd::slice::slice_to_vec(src_ip),
            dst_ip: vstd::slice::slice_to_vec(dst_ip),
            protocol,
            input: vstd::slice::slice_to_vec(header_and_data),
        }
    }

    /// Compute the checksum of the segment, excluding the bytes of the
    /// protocol-dependent checksum field from the running sum.
    pub fn checksum(&self) -> (r: u16)
        requires
            self.src_ip@.len() == 4,
            self.dst_ip@.len() == 4,
            checksum_ready(self.protocol, self.input@),
        ensures
            r == checksum_spec(self.src_ip@, self.dst_ip@, self.protocol, self.input@),
    {
        let off: usize = if self.protocol == 6 {
            16
        } else {
            6
        };
        proof {
            assert(self.src_ip@.subrange(0, 4) =~= self.src_ip@);
            assert(self.dst_ip@.subrange(0, 4) =~= self.dst_ip@);
            lemma_wordsum_bounds(self.src_ip@);
            lemma_wordsum_bounds(self.dst_ip@);
            lemma_wordsum_bounds(self.input@.subrange(0, off as int));
            lemma_wordsum_bounds(self.input@.subrange(off + 2, self.input@.len() as int));
        }
        let mut value: u64 = sum_range(self.src_ip.as_slice(), 0, self.src_ip.len());
        value = value + sum_range(self.dst_ip.as_slice(), 0, self.dst_ip.len());
        value = value + self.protocol as u64;
        value = value + self.input.len() as u64;
        value = value + sum_range(self.input.as_slice(), 0, off);
        value = value + sum_range(self.input.as_slice(), off + 2, self.input.len());
        let folded = fold_carry(value);
        0xffff - (folded as u16)
    }

    /// Verify the segment: sum pseudo-header and the entire segment,
    /// checksum field included as-is, and test that the complement of the
    /// fold is zero.
    pub fn verify(&self) -> (r: bool)
        requires
            self.src_ip@.len() == 4,
            self.dst_ip@.len() == 4,
            self.input@.len() <= 0xffff,
        ensures
            r == verify_spec(self.src_ip@, self.dst_ip@, self.protocol, self.input@),
    {
        proof {
            assert(self.src_ip@.subrange(0, 4) =~= self.src_ip@);
            assert(self.dst_ip@.subrange(0, 4) =~= self.dst_ip@);
            assert(self.input@.subrange(0, self.input@.len() as int) =~= self.input@);
            lemma_wordsum_bounds(self.src_ip@);
            lemma_wordsum_bounds(self.dst_ip@);
            lemma_wordsum_bounds(self.input@);
        }
        let mut value: u64 = sum_range(self.src_ip.as_slice(), 0, self.src_ip.len());
        value = value + sum_range(self.dst_ip.as_slice(), 0, self.dst_ip.len());
        value = value + self.protocol as u64;
        value = value + self.input.len() as u64;
        value = value + sum_range(self.input.as_slice(), 0, self.input.len());
        let folded = fold_carry(value);
        folded == 0xffff
    }
}

/// A segment whose checksum field already holds the computed checksum
/// verifies: for every valid segment with a correctly computed checksum,
/// verification succeeds.
pub proof fn lemma_valid_checksum_verifies(src: Seq<u8>, dst: Seq<u8>, protocol: u8, seg: Seq<u8>)
    requires
        src.len() == 4,
        dst.len() == 4,
        checksum_ready(protocol, seg),
        seg[checksum_field_offset(protocol)] == (checksum_spec(src, dst, protocol, seg)
            / 256) as u8,
        seg[checksum_field_offset(protocol) + 1] == (checksum_spec(src, dst, protocol, seg)
            % 256) as u8,
    ensures
        verify_spec(src, dst, protocol, seg),
{
    let off = checksum_field_offset(protocol);
    let c = checksum_spec(src, dst, protocol, seg);
    lemma_checksum_roundtrip(src, dst, protocol, seg);
    assert(seg.update(off, (c / 256) as u8).update(off + 1, (c % 256) as u8) =~= seg);
}

/// Round trip: computing the checksum and overwriting the segment's checksum
/// field with the result makes verification succeed.
pub proof fn lemma_checksum_roundtrip(src: Seq<u8>, dst: Seq<u8>, protocol: u8, seg: Seq<u8>)
    requires
        src.len() == 4,
        dst.len() == 4,
        checksum_ready(protocol, seg),
    ensures
        ({
            let c = checksum_spec(src, dst, protocol, seg);
            let off = checksum_field_offset(protocol);
            verify_spec(
                src,
                dst,
                protocol,
                seg.update(off, (c / 256) as u8).update(off + 1, (c % 256) as u8),
            )
        }),
{
    let off = checksum_field_offset(protocol);
    let len = seg.len() as int;
    let first = seg.subrange(0, off);
    let last = seg.subrange(off + 2, len);
    let x = checksum_total(src, dst, protocol, seg);
    lemma_wordsum_bounds(src);
    lemma_wordsum_bounds(dst);
    lemma_wordsum_bounds(first);
    lemma_wordsum_bounds(last);
    lemma_fold16_bounds(x);
    let f = fold16(x);
    let c = 0xffff - f;
    let hi = (c / 256) as u8;
    let lo = (c % 256) as u8;
    let patched = seg.update(off, hi).update(off + 1, lo);

    // The patch touches only the two checksum bytes.
    assert(patched.subrange(0, off) =~= first);
    assert(patched.subrange(off + 2, len) =~= last);
    assert(patched.subrange(off, off + 2) =~= seq![hi, lo]);

    // The two patched bytes read back as the checksum value.
    lemma_fundamental_div_mod(c, 256);
    assert(wordsum(seq![hi, lo]) == hi * 256 + lo) by {
        assert(wordsum(seq![hi, lo].skip(2)) == 0) by {
            assert(seq![hi, lo].skip(2) =~= Seq::<u8>::empty());
        }
    }
    assert(hi * 256 + lo == c);

    // Split the patched segment at the two word boundaries around the field.
    lemma_split_invariant(patched, off);
    assert(patched.subrange(off, len) =~= seq![hi, lo] + last);
    lemma_wordsum_concat(seq![hi, lo], last);
    assert(wordsum(patched) == wordsum(first) + c + wordsum(last));

    // The verification sum is the computation sum plus the stored checksum.
    let y = verify_total(src, dst, protocol, patched);
    assert(y == x + c);

    // y is congruent to 0 modulo 0xffff and positive, so it folds to 0xffff.
    lemma_fold16_mod(x);
    lemma_add_mod_noop(x, c, 0xffff);
    if f == 0xffff {
        lemma_mod_self_0(0xffff);
        assert(c == 0);
        assert(y % 0xffff == 0);
    } else {
        lemma_small_mod(f as nat, 0xffff);
        lemma_small_mod(c as nat, 0xffff);
        lemma_mod_self_0(0xffff);
        assert((f + c) % 0xffff == 0);
        assert(y % 0xffff == 0);
    }
    assert(y >= 1);
    lemma_fold16_bounds(y);
    lemma_fold16_mod(y);
    let g = fold16(y);
    assert(g % 0xffff == 0);
    if g < 0xffff {
        lemma_small_mod(g as nat, 0xffff);
        assert(g == 0);
        assert(false);
    }
    assert(g == 0xffff);
}

} // verus!
