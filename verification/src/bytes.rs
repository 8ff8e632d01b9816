//! Fixed-width integers as bytes, and the hash that names transports and sockets.

use vstd::prelude::*;

verus! {

/// The four bytes of a number, most significant first.
pub open spec fn be32(value: u32) -> Seq<u8> {
    seq![
        (value / 0x100_0000) as u8,
        (value / 0x1_0000 % 0x100) as u8,
        (value / 0x100 % 0x100) as u8,
        (value % 0x100) as u8,
    ]
}

/// The number that four bytes hold, most significant first.
pub open spec fn be32_value(bytes: Seq<u8>) -> int {
    bytes[0] * 0x100_0000 + bytes[1] * 0x1_0000 + bytes[2] * 0x100 + bytes[3]
}

/// The four bytes of a number, least significant first.
pub open spec fn le32(value: u32) -> Seq<u8> {
    seq![
        (value % 0x100) as u8,
        (value / 0x100 % 0x100) as u8,
        (value / 0x1_0000 % 0x100) as u8,
        (value / 0x100_0000) as u8,
    ]
}

/// The number that four bytes hold, least significant first.
pub open spec fn le32_value(bytes: Seq<u8>) -> int {
    bytes[0] + bytes[1] * 0x100 + bytes[2] * 0x1_0000 + bytes[3] * 0x100_0000
}

/// The eight bytes of a number, least significant first.
pub open spec fn le64(value: u64) -> Seq<u8> {
    le32((value % 0x1_0000_0000) as u32) + le32((value / 0x1_0000_0000) as u32)
}

/// The number that eight bytes hold, least significant first.
pub open spec fn le64_value(bytes: Seq<u8>) -> int {
    le32_value(bytes.take(4)) + le32_value(bytes.skip(4)) * 0x1_0000_0000
}

/// Writing a number most significant byte first and reading it back gives the number.
pub proof fn lemma_be32(value: u32)
    ensures
        be32(value).len() == 4,
        be32_value(be32(value)) == value,
{
}

/// Writing a number least significant byte first and reading it back gives the number.
pub proof fn lemma_le32(value: u32)
    ensures
        le32(value).len() == 4,
        le32_value(le32(value)) == value,
{
}

/// Writing eight bytes least significant first and reading them back gives the number.
pub proof fn lemma_le64(value: u64)
    ensures
        le64(value).len() == 8,
        le64_value(le64(value)) == value,
{
    let low = (value % 0x1_0000_0000) as u32;
    let high = (value / 0x1_0000_0000) as u32;
    lemma_le32(low);
    lemma_le32(high);
    assert(le64(value).take(4) =~= le32(low));
    assert(le64(value).skip(4) =~= le32(high));
}

/// Appends a number, most significant byte first.
pub fn push_be32(bytes: &mut Vec<u8>, value: u32)
    ensures
        final(bytes)@ == old(bytes)@ + be32(value),
{
    let ghost before = bytes@;
    bytes.push((value / 0x100_0000) as u8);
    bytes.push((value / 0x1_0000 % 0x100) as u8);
    bytes.push((value / 0x100 % 0x100) as u8);
    bytes.push((value % 0x100) as u8);
    assert(bytes@ =~= before + be32(value));
}

/// Appends a number, least significant byte first.
pub fn push_le32(bytes: &mut Vec<u8>, value: u32)
    ensures
        final(bytes)@ == old(bytes)@ + le32(value),
{
    let ghost before = bytes@;
    bytes.push((value % 0x100) as u8);
    bytes.push((value / 0x100 % 0x100) as u8);
    bytes.push((value / 0x1_0000 % 0x100) as u8);
    bytes.push((value / 0x100_0000) as u8);
    assert(bytes@ =~= before + le32(value));
}

/// Appends a number of eight bytes, least significant byte first.
pub fn push_le64(bytes: &mut Vec<u8>, value: u64)
    ensures
        final(bytes)@ == old(bytes)@ + le64(value),
{
    let ghost before = bytes@;
    push_le32(bytes, (value % 0x1_0000_0000) as u32);
    push_le32(bytes, (value / 0x1_0000_0000) as u32);
    assert(bytes@ =~= before + le64(value));
}

/// Reads four bytes, most significant first.
pub fn read_be32(bytes: &[u8], at: usize) -> (value: u32)
    requires
        at + 4 <= bytes@.len(),
    ensures
        value == be32_value(bytes@.skip(at as int)),
{
    bytes[at] as u32 * 0x100_0000 + bytes[at + 1] as u32 * 0x1_0000 + bytes[at + 2] as u32 * 0x100
        + bytes[at + 3] as u32
}

/// Reads four bytes, least significant first.
pub fn read_le32(bytes: &[u8], at: usize) -> (value: u32)
    requires
        at + 4 <= bytes@.len(),
    ensures
        value == le32_value(bytes@.skip(at as int)),
{
    bytes[at] as u32 + bytes[at + 1] as u32 * 0x100 + bytes[at + 2] as u32 * 0x1_0000 + bytes[at
        + 3] as u32 * 0x100_0000
}

/// Appends bytes.
pub fn push_bytes(bytes: &mut Vec<u8>, more: &[u8])
    ensures
        final(bytes)@ == old(bytes)@ + more@,
{
    let ghost before = bytes@;
    let mut i: usize = 0;
    assert(before + more@.take(0) =~= before);
    while i < more.len()
        invariant
            i <= more@.len(),
            bytes@ == before + more@.take(i as int),
        decreases more@.len() - i,
    {
        assert(before + more@.take(i + 1) =~= (before + more@.take(i as int)).push(
            more@[i as int],
        ));
        bytes.push(more[i]);
        i = i + 1;
    }
    assert(more@.take(i as int) =~= more@);
}

/// Copies a range of bytes.
pub fn copy_bytes(bytes: &[u8], from: usize, to: usize) -> (copy: Vec<u8>)
    requires
        from <= to <= bytes@.len(),
    ensures
        copy@ == bytes@.subrange(from as int, to as int),
{
    let mut copy: Vec<u8> = Vec::new();
    let mut i: usize = from;
    while i < to
        invariant
            from <= i <= to <= bytes@.len(),
            copy@ == bytes@.subrange(from as int, i as int),
        decreases to - i,
    {
        assert(bytes@.subrange(from as int, i + 1) =~= bytes@.subrange(from as int, i as int).push(
            bytes@[i as int],
        ));
        copy.push(bytes[i]);
        i = i + 1;
    }
    copy
}

/// The initial value of the hash.
pub const HASH_BASIS: u64 = 0xcbf2_9ce4_8422_2325;

/// The multiplier of the hash.
pub const HASH_PRIME: u64 = 0x0000_0100_0000_01b3;

/// The 64-bit FNV-1a hash of a byte string.
pub open spec fn fnv1a(bytes: Seq<u8>) -> u64
    decreases bytes.len(),
{
    if bytes.len() == 0 {
        HASH_BASIS
    } else {
        ((fnv1a(bytes.drop_last()) ^ (bytes.last() as u64)) * HASH_PRIME
            % 0x1_0000_0000_0000_0000) as u64
    }
}

/// Hashes a byte string.
pub fn hash_bytes(bytes: &[u8]) -> (hash: u64)
    ensures
        hash == fnv1a(bytes@),
{
    let mut hash: u64 = HASH_BASIS;
    let mut i: usize = 0;
    assert(bytes@.take(0) =~= seq![]);
    while i < bytes.len()
        invariant
            i <= bytes@.len(),
            hash == fnv1a(bytes@.take(i as int)),
        decreases bytes@.len() - i,
    {
        assert(bytes@.take(i + 1).drop_last() =~= bytes@.take(i as int));
        hash = (hash ^ bytes[i] as u64).wrapping_mul(HASH_PRIME);
        i = i + 1;
    }
    assert(bytes@.take(i as int) =~= bytes@);
    hash
}

/// A number is laid out as its digits to the base of 256: the least significant one
/// first, or, in the other order, last.
pub proof fn digits_to_the_base_of_256(value: u32)
    ensures
        ({
            let little = le32(value);
            let big = be32(value);
            &&& little.len() == 4
            &&& big.len() == 4
            &&& value == little[0] + 256 * little[1] + 65536 * little[2] + 16777216 * little[3]
            &&& forall|i: int| 0 <= i < 4 ==> #[trigger] big[i] == little[3 - i]
        }),
{
    lemma_le32(value);
    lemma_be32(value);
}

/// A number of eight bytes is two of four: what it leaves when divided by the 32nd
/// power of two comes first.
pub proof fn long_numbers_come_in_two_halves(value: u64)
    ensures
        ({
            let bytes = le64(value);
            let low = bytes[0] + 256 * bytes[1] + 65536 * bytes[2] + 16777216 * bytes[3];
            let high = bytes[4] + 256 * bytes[5] + 65536 * bytes[6] + 16777216 * bytes[7];
            &&& bytes.len() == 8
            &&& value == low + 4294967296 * high
            &&& le64_value(bytes) == value
        }),
{
    lemma_le64(value);
    let bytes = le64(value);
    lemma_le32((value % 0x1_0000_0000) as u32);
    lemma_le32((value / 0x1_0000_0000) as u32);
    assert(bytes.take(4) =~= le32((value % 0x1_0000_0000) as u32));
    assert(bytes.skip(4) =~= le32((value / 0x1_0000_0000) as u32));
}

/// Reading looks at the first four bytes alone, and weighs each by its place.
pub proof fn bytes_are_weighed_by_their_place(a: u8, b: u8, c: u8, d: u8, rest: Seq<u8>)
    ensures
        le32_value(seq![a, b, c, d] + rest) == a + 256 * b + 65536 * c + 16777216 * d,
        be32_value(seq![d, c, b, a] + rest) == a + 256 * b + 65536 * c + 16777216 * d,
{
}

/// The hash starts at its basis, and each byte is mixed in and then multiplied by its
/// prime, to 64 bits: it is the hash FNV-1a.
pub proof fn each_byte_is_mixed_in(bytes: Seq<u8>, byte: u8)
    ensures
        fnv1a(seq![]) == 0xcbf2_9ce4_8422_2325,
        fnv1a(bytes.push(byte)) as int == ((fnv1a(bytes) ^ (byte as u64)) * 0x100_0000_01b3)
            % 0x1_0000_0000_0000_0000,
{
    assert(bytes.push(byte).drop_last() =~= bytes);
}

} // verus!
