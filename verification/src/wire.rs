//! Big-endian numbers in packets.
use vstd::prelude::*;

verus! {

/// The two bytes of a number, the high one first.
pub open spec fn be16(v: u16) -> Seq<u8> {
    seq![(v / 256) as u8, (v % 256) as u8]
}

/// The four bytes of a number, the highest one first.
pub open spec fn be32(v: u32) -> Seq<u8> {
    seq![
        (v / 0x100_0000) as u8,
        (v / 0x1_0000 % 256) as u8,
        (v / 256 % 256) as u8,
        (v % 256) as u8,
    ]
}

/// The number whose two bytes stand at `at`, the high one first.
pub open spec fn be16_at(s: Seq<u8>, at: int) -> u16 {
    (s[at] * 256 + s[at + 1]) as u16
}

/// The number whose four bytes stand at `at`, the highest one first.
pub open spec fn be32_at(s: Seq<u8>, at: int) -> u32 {
    (s[at] * 0x100_0000 + s[at + 1] * 0x1_0000 + s[at + 2] * 256 + s[at + 3]) as u32
}

/// Writes a 16-bit number.
pub fn be16_bytes(v: u16) -> (r: [u8; 2])
    ensures
        r@ == be16(v),
{
    [(v / 256) as u8, (v % 256) as u8]
}

/// Writes a 32-bit number.
pub fn be32_bytes(v: u32) -> (r: [u8; 4])
    ensures
        r@ == be32(v),
{
    [(v / 0x100_0000) as u8, (v / 0x1_0000 % 256) as u8, (v / 256 % 256) as u8, (v % 256) as u8]
}

/// Reads the 16-bit number at `at`.
pub fn read_be16(s: &[u8], at: usize) -> (r: u16)
    requires
        at + 2 <= s@.len(),
    ensures
        r == be16_at(s@, at as int),
{
    s[at] as u16 * 256 + s[at + 1] as u16
}

/// Reads the 32-bit number at `at`.
pub fn read_be32(s: &[u8], at: usize) -> (r: u32)
    requires
        at + 4 <= s@.len(),
    ensures
        r == be32_at(s@, at as int),
{
    s[at] as u32 * 0x100_0000 + s[at + 1] as u32 * 0x1_0000 + s[at + 2] as u32 * 256 + s[at
        + 3] as u32
}

/// Reading a 16-bit number gives back what was written.
pub proof fn be16_round_trip(v: u16, s: Seq<u8>, at: int)
    requires
        0 <= at,
        at + 2 <= s.len(),
        s.subrange(at, at + 2) == be16(v),
    ensures
        be16_at(s, at) == v,
{
    let part = s.subrange(at, at + 2);
    assert(s[at] == part[0] && s[at + 1] == part[1]);
}

/// Reading a 32-bit number gives back what was written.
pub proof fn be32_round_trip(v: u32, s: Seq<u8>, at: int)
    requires
        0 <= at,
        at + 4 <= s.len(),
        s.subrange(at, at + 4) == be32(v),
    ensures
        be32_at(s, at) == v,
{
    let part = s.subrange(at, at + 4);
    assert(s[at] == part[0] && s[at + 1] == part[1] && s[at + 2] == part[2] && s[at + 3]
        == part[3]);
}

/// Writing a 16-bit number gives back the bytes that it was read from.
pub proof fn be16_writes_back(s: Seq<u8>, at: int)
    requires
        0 <= at,
        at + 2 <= s.len(),
    ensures
        be16(be16_at(s, at)) == s.subrange(at, at + 2),
{
    let part = s.subrange(at, at + 2);
    let v = be16_at(s, at);
    assert(v == s[at] * 256 + s[at + 1]);
    assert(be16(v) =~= part);
}

proof fn lemma_digits(a: int, b: int, c: int, d: int)
    requires
        0 <= a < 256,
        0 <= b < 256,
        0 <= c < 256,
        0 <= d < 256,
    ensures
        ({
            let v = a * 0x100_0000 + b * 0x1_0000 + c * 256 + d;
            &&& v / 0x100_0000 == a
            &&& v / 0x1_0000 % 256 == b
            &&& v / 256 % 256 == c
            &&& v % 256 == d
        }),
{
    let v = a * 0x100_0000 + b * 0x1_0000 + c * 256 + d;
    assert(v / 0x100_0000 == a);
    assert(v / 0x1_0000 == a * 256 + b);
    assert(v / 256 == (a * 256 + b) * 256 + c);
}

/// Writing a 32-bit number gives back the bytes that it was read from.
pub proof fn be32_writes_back(s: Seq<u8>, at: int)
    requires
        0 <= at,
        at + 4 <= s.len(),
    ensures
        be32(be32_at(s, at)) == s.subrange(at, at + 4),
{
    lemma_digits(s[at] as int, s[at + 1] as int, s[at + 2] as int, s[at + 3] as int);
    assert(be32(be32_at(s, at)) =~= s.subrange(at, at + 4));
}

/// A 16-bit number is two bytes, and the first counts 256 times.
pub proof fn be16_weighs_its_bytes(v: u16)
    ensures
        be16(v).len() == 2,
        be16(v)[0] * 256 + be16(v)[1] == v,
{
}

/// A 32-bit number is four bytes, each counting 256 times the next.
pub proof fn be32_weighs_its_bytes(v: u32)
    ensures
        be32(v).len() == 4,
        ((be32(v)[0] * 256 + be32(v)[1]) * 256 + be32(v)[2]) * 256 + be32(v)[3] == v,
{
}

} // verus!
