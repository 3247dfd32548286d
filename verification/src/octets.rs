//! Big-endian octet fields and byte-vector building blocks shared by the frame codecs.

use vstd::prelude::*;

verus! {

/// The 16-bit big-endian field at `at` in `s`.
pub open spec fn be16(s: Seq<u8>, at: int) -> u16 {
    (s[at] as int * 256 + s[at + 1] as int) as u16
}

/// The two big-endian octets of `value`.
pub open spec fn u16_octets(value: u16) -> Seq<u8> {
    seq![(value / 256) as u8, (value % 256) as u8]
}

/// The 32-bit big-endian field at `at` in `s`.
pub open spec fn be32(s: Seq<u8>, at: int) -> u32 {
    (s[at] as int * 0x100_0000 + s[at + 1] as int * 0x1_0000 + s[at + 2] as int * 0x100
        + s[at + 3] as int) as u32
}

/// The four big-endian octets of `value` (what `u32::to_be_bytes` and `Ipv4Addr::octets` give).
pub open spec fn u32_octets(value: u32) -> Seq<u8> {
    seq![
        (value / 0x100_0000) as u8,
        ((value / 0x1_0000) % 0x100) as u8,
        ((value / 0x100) % 0x100) as u8,
        (value % 0x100) as u8,
    ]
}

/// Reads the big-endian 16-bit field at `at`.
pub fn read_be16(s: &[u8], at: usize) -> (value: u16)
    requires
        at + 2 <= s@.len(),
    ensures
        value == be16(s@, at as int),
{
    (s[at] as u16) * 256 + (s[at + 1] as u16)
}

/// Reads the big-endian 32-bit field at `at`.
pub fn read_be32(s: &[u8], at: usize) -> (value: u32)
    requires
        at + 4 <= s@.len(),
    ensures
        value == be32(s@, at as int),
{
    (s[at] as u32) * 0x100_0000 + (s[at + 1] as u32) * 0x1_0000 + (s[at + 2] as u32) * 0x100 + (
    s[at + 3] as u32)
}

/// Appends the two big-endian octets of `value`.
pub fn push_u16_octets(buffer: &mut Vec<u8>, value: u16)
    ensures
        final(buffer)@ == old(buffer)@ + u16_octets(value),
{
    buffer.push((value / 256) as u8);
    buffer.push((value % 256) as u8);
    assert(final(buffer)@ =~= old(buffer)@ + u16_octets(value));
}

/// Appends the four big-endian octets of `value`.
pub fn push_u32_octets(buffer: &mut Vec<u8>, value: u32)
    ensures
        final(buffer)@ == old(buffer)@ + u32_octets(value),
{
    buffer.push((value / 0x100_0000) as u8);
    buffer.push(((value / 0x1_0000) % 0x100) as u8);
    buffer.push(((value / 0x100) % 0x100) as u8);
    buffer.push((value % 0x100) as u8);
    assert(final(buffer)@ =~= old(buffer)@ + u32_octets(value));
}

/// Appends every octet of `octets`.
pub fn push_octets(buffer: &mut Vec<u8>, octets: &[u8])
    ensures
        final(buffer)@ == old(buffer)@ + octets@,
{
    let ghost start = buffer@;
    let mut index: usize = 0;
    while index < octets.len()
        invariant
            index <= octets@.len(),
            buffer@ == start + octets@.subrange(0, index as int),
        decreases octets@.len() - index,
    {
        buffer.push(octets[index]);
        index = index + 1;
        assert(buffer@ =~= start + octets@.subrange(0, index as int));
    }
    assert(octets@.subrange(0, octets@.len() as int) =~= octets@);
}

/// Two big-endian octets read back give the value they encode.
pub proof fn lemma_be16_of_u16_octets(prefix: Seq<u8>, value: u16, suffix: Seq<u8>)
    ensures
        be16(prefix + u16_octets(value) + suffix, prefix.len() as int) == value,
{
    let s = prefix + u16_octets(value) + suffix;
    assert(s[prefix.len() as int] == (value / 256) as u8);
    assert(s[prefix.len() as int + 1] == (value % 256) as u8);
}

/// Four big-endian octets read back give the value they encode.
pub proof fn lemma_be32_of_u32_octets(prefix: Seq<u8>, value: u32, suffix: Seq<u8>)
    ensures
        be32(prefix + u32_octets(value) + suffix, prefix.len() as int) == value,
{
    let s = prefix + u32_octets(value) + suffix;
    assert(s[prefix.len() as int] == (value / 0x100_0000) as u8);
    assert(s[prefix.len() as int + 1] == ((value / 0x1_0000) % 0x100) as u8);
    assert(s[prefix.len() as int + 2] == ((value / 0x100) % 0x100) as u8);
    assert(s[prefix.len() as int + 3] == (value % 0x100) as u8);
}


/// The 16-bit little-endian field at `at` in `s`.
pub open spec fn le16(s: Seq<u8>, at: int) -> u16 {
    (s[at + 1] as int * 256 + s[at] as int) as u16
}

/// The 32-bit little-endian field at `at` in `s`.
pub open spec fn le32(s: Seq<u8>, at: int) -> u32 {
    (s[at + 3] as int * 0x100_0000 + s[at + 2] as int * 0x1_0000 + s[at + 1] as int * 0x100
        + s[at] as int) as u32
}

/// The 16-bit field at `at` in `s`, read in the byte order of the machine
/// ([`vstd::endian::endianness`]).
pub open spec fn native16(s: Seq<u8>, at: int) -> u16 {
    match vstd::endian::endianness() {
        vstd::endian::Endian::Little => le16(s, at),
        vstd::endian::Endian::Big => be16(s, at),
    }
}

/// The 32-bit field at `at` in `s`, read in the byte order of the machine
/// ([`vstd::endian::endianness`]).
pub open spec fn native32(s: Seq<u8>, at: int) -> u32 {
    match vstd::endian::endianness() {
        vstd::endian::Endian::Little => le32(s, at),
        vstd::endian::Endian::Big => be32(s, at),
    }
}

/// `u16::from_ne_bytes`: the value of two octets in the byte order of the machine.
///
/// States that the value is the octets read in the machine's byte order, little-endian or
/// big-endian as [`vstd::endian::endianness`] names it; which of the two that is, is not stated.
#[verifier::external_body]
pub(crate) fn native_endian_u16(octets: [u8; 2]) -> (value: u16)
    ensures
        value == native16(octets@, 0),
{
    u16::from_ne_bytes(octets)
}

/// `u32::from_ne_bytes`: the value of four octets in the byte order of the machine.
///
/// States that the value is the octets read in the machine's byte order, little-endian or
/// big-endian as [`vstd::endian::endianness`] names it; which of the two that is, is not stated.
#[verifier::external_body]
pub(crate) fn native_endian_u32(octets: [u8; 4]) -> (value: u32)
    ensures
        value == native32(octets@, 0),
{
    u32::from_ne_bytes(octets)
}

} // verus!
