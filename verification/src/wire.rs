//! Integers in network byte order (most significant byte first).

use vstd::prelude::*;

verus! {

/// The 16-bit number that the two bytes of `s` from `at` on write.
pub open spec fn be_u16(s: Seq<u8>, at: int) -> u16 {
    (s[at] as int * 256 + s[at + 1] as int) as u16
}

/// The 32-bit number that the four bytes of `s` from `at` on write.
pub open spec fn be_u32(s: Seq<u8>, at: int) -> u32 {
    (be_u16(s, at) as int * 65536 + be_u16(s, at + 2) as int) as u32
}

/// The 48-bit number that the six bytes of `s` from `at` on write.
pub open spec fn be_u48(s: Seq<u8>, at: int) -> u64 {
    (be_u16(s, at) as int * 4294967296 + be_u32(s, at + 2) as int) as u64
}

/// The 64-bit number that the eight bytes of `s` from `at` on write.
pub open spec fn be_u64(s: Seq<u8>, at: int) -> u64 {
    (be_u32(s, at) as int * 4294967296 + be_u32(s, at + 4) as int) as u64
}

/// The 128-bit number that the sixteen bytes of `s` from `at` on write.
pub open spec fn be_u128(s: Seq<u8>, at: int) -> u128 {
    (be_u64(s, at) as int * 18446744073709551616 + be_u64(s, at + 8) as int) as u128
}

/// The two bytes that write `v`.
pub open spec fn u16_bytes(v: u16) -> Seq<u8> {
    seq![(v / 256) as u8, (v % 256) as u8]
}

/// The four bytes that write `v`.
pub open spec fn u32_bytes(v: u32) -> Seq<u8> {
    u16_bytes((v / 65536) as u16) + u16_bytes((v % 65536) as u16)
}

/// The six bytes that write the low 48 bits of `v`.
pub open spec fn u48_bytes(v: u64) -> Seq<u8> {
    u16_bytes((v / 4294967296 % 65536) as u16) + u32_bytes((v % 4294967296) as u32)
}

/// The eight bytes that write `v`.
pub open spec fn u64_bytes(v: u64) -> Seq<u8> {
    u32_bytes((v / 4294967296) as u32) + u32_bytes((v % 4294967296) as u32)
}

/// The sixteen bytes that write `v`.
pub open spec fn u128_bytes(v: u128) -> Seq<u8> {
    u64_bytes((v / 18446744073709551616) as u64) + u64_bytes((v % 18446744073709551616) as u64)
}

/// Reads a 16-bit number at `at`.
pub fn read_u16(b: &[u8], at: usize) -> (r: u16)
    requires
        at + 2 <= b.len(),
    ensures
        r == be_u16(b@, at as int),
{
    (b[at] as u16) * 256 + (b[at + 1] as u16)
}

/// Reads a 32-bit number at `at`.
pub fn read_u32(b: &[u8], at: usize) -> (r: u32)
    requires
        at + 4 <= b.len(),
    ensures
        r == be_u32(b@, at as int),
{
    (read_u16(b, at) as u32) * 65536 + (read_u16(b, at + 2) as u32)
}

/// Reads a 48-bit number at `at`; the result is below 2^48.
pub fn read_u48(b: &[u8], at: usize) -> (r: u64)
    requires
        at + 6 <= b.len(),
    ensures
        r == be_u48(b@, at as int),
        r < 0x1_0000_0000_0000,
{
    (read_u16(b, at) as u64) * 4294967296 + (read_u32(b, at + 2) as u64)
}

/// Reads a 64-bit number at `at`.
pub fn read_u64(b: &[u8], at: usize) -> (r: u64)
    requires
        at + 8 <= b.len(),
    ensures
        r == be_u64(b@, at as int),
{
    (read_u32(b, at) as u64) * 4294967296 + (read_u32(b, at + 4) as u64)
}

/// Reads a 128-bit number at `at`.
pub fn read_u128(b: &[u8], at: usize) -> (r: u128)
    requires
        at + 16 <= b.len(),
    ensures
        r == be_u128(b@, at as int),
{
    (read_u64(b, at) as u128) * 18446744073709551616 + (read_u64(b, at + 8) as u128)
}

/// Appends the two bytes of `v`.
pub fn push_u16(out: &mut Vec<u8>, v: u16)
    ensures
        final(out)@ == old(out)@ + u16_bytes(v),
{
    out.push((v / 256) as u8);
    out.push((v % 256) as u8);
    assert(out@ =~= old(out)@ + u16_bytes(v));
}

/// Appends the four bytes of `v`.
pub fn push_u32(out: &mut Vec<u8>, v: u32)
    ensures
        final(out)@ == old(out)@ + u32_bytes(v),
{
    push_u16(out, (v / 65536) as u16);
    push_u16(out, (v % 65536) as u16);
    assert(out@ =~= old(out)@ + u32_bytes(v));
}

/// Appends the six bytes of the low 48 bits of `v`.
pub fn push_u48(out: &mut Vec<u8>, v: u64)
    ensures
        final(out)@ == old(out)@ + u48_bytes(v),
{
    push_u16(out, (v / 4294967296 % 65536) as u16);
    push_u32(out, (v % 4294967296) as u32);
    assert(out@ =~= old(out)@ + u48_bytes(v));
}

/// Appends the eight bytes of `v`.
pub fn push_u64(out: &mut Vec<u8>, v: u64)
    ensures
        final(out)@ == old(out)@ + u64_bytes(v),
{
    push_u32(out, (v / 4294967296) as u32);
    push_u32(out, (v % 4294967296) as u32);
    assert(out@ =~= old(out)@ + u64_bytes(v));
}

/// Appends the sixteen bytes of `v`.
pub fn push_u128(out: &mut Vec<u8>, v: u128)
    ensures
        final(out)@ == old(out)@ + u128_bytes(v),
{
    push_u64(out, (v / 18446744073709551616) as u64);
    push_u64(out, (v % 18446744073709551616) as u64);
    assert(out@ =~= old(out)@ + u128_bytes(v));
}

/// Writing a number and reading it back gives the number.
pub proof fn lemma_u16_round_trip(v: u16)
    ensures
        u16_bytes(v).len() == 2,
        be_u16(u16_bytes(v), 0) == v,
{
}

/// Writing a number and reading it back gives the number.
pub proof fn lemma_u32_round_trip(v: u32)
    ensures
        u32_bytes(v).len() == 4,
        be_u32(u32_bytes(v), 0) == v,
{
    lemma_u16_round_trip((v / 65536) as u16);
    lemma_u16_round_trip((v % 65536) as u16);
}

/// Writing a 48-bit number and reading it back gives the number.
pub proof fn lemma_u48_round_trip(v: u64)
    requires
        v < 0x1_0000_0000_0000,
    ensures
        u48_bytes(v).len() == 6,
        be_u48(u48_bytes(v), 0) == v,
{
    lemma_u16_round_trip((v / 4294967296 % 65536) as u16);
    lemma_u32_round_trip((v % 4294967296) as u32);
    let s = u48_bytes(v);
    let lo = u32_bytes((v % 4294967296) as u32);
    assert(s[2] == lo[0] && s[3] == lo[1] && s[4] == lo[2] && s[5] == lo[3]);
}

} // verus!
