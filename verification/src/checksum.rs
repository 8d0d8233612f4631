//! The checksum that closes every radio packet: CRC-8/LTE.
use vstd::prelude::*;

verus! {

/// One step of the division by the generator `x^8 + x^7 + x^4 + x^3 + x + 1`: the
/// register moves up by one bit, and the generator is taken off where a one falls out.
pub open spec fn crc8_shift(c: u8) -> u8 {
    if c & 0x80 == 0x80 {
        (c << 1) ^ 0x9b
    } else {
        c << 1
    }
}

/// The register after the eight bits of one byte.
pub open spec fn crc8_byte(c: u8) -> u8 {
    crc8_shift(
        crc8_shift(
            crc8_shift(crc8_shift(crc8_shift(crc8_shift(crc8_shift(crc8_shift(c))))))),
    )
}

/// CRC-8/LTE of a block: the register starts at zero and takes the bytes in order,
/// each with its highest bit first.
pub open spec fn crc8_lte(block: Seq<u8>) -> u8
    decreases block.len(),
{
    if block.len() == 0 {
        0
    } else {
        crc8_byte(crc8_lte(block.drop_last()) ^ block.last())
    }
}

/// The digest of `block` under `crc::CRC_8_LTE`, made with `crc::Crc::<u8>::new`, its
/// `digest`, and the digest's `update` and `finalize`.
///
/// That algorithm has width 8, polynomial `0x9b`, a zero start, no reflection and no
/// final mask, so the digest is the plain remainder that `crc8_lte` describes.
#[verifier::external_body]
pub(crate) fn crc8_digest(block: &[u8]) -> (r: u8)
    ensures
        r == crc8_lte(block@),
{
    let crc_provider = crc::Crc::<u8>::new(&crc::CRC_8_LTE);
    let mut digest = crc_provider.digest();
    digest.update(block);
    digest.finalize()
}

proof fn lemma_shift_injective(a: u8, b: u8)
    requires
        crc8_shift(a) == crc8_shift(b),
    ensures
        a == b,
{
    assert((if a & 0x80u8 == 0x80u8 {
        (a << 1u8) ^ 0x9bu8
    } else {
        a << 1u8
    }) == (if b & 0x80u8 == 0x80u8 {
        (b << 1u8) ^ 0x9bu8
    } else {
        b << 1u8
    }) ==> a == b) by (bit_vector);
}

proof fn lemma_byte_injective(a: u8, b: u8)
    requires
        crc8_byte(a) == crc8_byte(b),
    ensures
        a == b,
{
    let a1 = crc8_shift(a);
    let a2 = crc8_shift(a1);
    let a3 = crc8_shift(a2);
    let a4 = crc8_shift(a3);
    let a5 = crc8_shift(a4);
    let a6 = crc8_shift(a5);
    let a7 = crc8_shift(a6);
    let b1 = crc8_shift(b);
    let b2 = crc8_shift(b1);
    let b3 = crc8_shift(b2);
    let b4 = crc8_shift(b3);
    let b5 = crc8_shift(b4);
    let b6 = crc8_shift(b5);
    let b7 = crc8_shift(b6);
    lemma_shift_injective(a7, b7);
    lemma_shift_injective(a6, b6);
    lemma_shift_injective(a5, b5);
    lemma_shift_injective(a4, b4);
    lemma_shift_injective(a3, b3);
    lemma_shift_injective(a2, b2);
    lemma_shift_injective(a1, b1);
    lemma_shift_injective(a, b);
}

/// A block followed by its own checksum has checksum zero.
pub proof fn crc_residue_is_zero(block: Seq<u8>)
    ensures
        crc8_lte(block.push(crc8_lte(block))) == 0,
{
    let c = crc8_lte(block);
    let whole = block.push(c);
    assert(whole.drop_last() == block);
    assert(c ^ c == 0u8) by (bit_vector);
    assert(crc8_shift(0u8) == 0u8) by {
        assert((0u8 << 1u8) == 0u8 && 0u8 & 0x80u8 != 0x80u8) by (bit_vector);
    }
}

/// Changing one byte of a block always changes its checksum.
pub proof fn crc_detects_one_changed_byte(block: Seq<u8>, i: int, b: u8)
    requires
        0 <= i < block.len(),
        b != block[i],
    ensures
        crc8_lte(block.update(i, b)) != crc8_lte(block),
    decreases block.len(),
{
    let changed = block.update(i, b);
    let last = block.len() - 1;
    let head = crc8_lte(block.drop_last());
    let changed_head = crc8_lte(changed.drop_last());
    if i == last {
        assert(changed.drop_last() == block.drop_last());
        let x = block.last();
        assert(head ^ x == head ^ b ==> x == b) by (bit_vector);
        if crc8_lte(changed) == crc8_lte(block) {
            lemma_byte_injective(head ^ x, head ^ b);
        }
    } else {
        assert(changed.drop_last() == block.drop_last().update(i, b));
        crc_detects_one_changed_byte(block.drop_last(), i, b);
        let x = block.last();
        assert(changed.last() == x);
        assert(head ^ x == changed_head ^ x ==> head == changed_head) by (bit_vector);
        if crc8_lte(changed) == crc8_lte(block) {
            lemma_byte_injective(head ^ x, changed_head ^ x);
        }
    }
}

proof fn lemma_shift_linear(a: u8, b: u8)
    ensures
        crc8_shift(a ^ b) == crc8_shift(a) ^ crc8_shift(b),
{
    assert((if (a ^ b) & 0x80u8 == 0x80u8 {
        ((a ^ b) << 1u8) ^ 0x9bu8
    } else {
        (a ^ b) << 1u8
    }) == (if a & 0x80u8 == 0x80u8 {
        (a << 1u8) ^ 0x9bu8
    } else {
        a << 1u8
    }) ^ (if b & 0x80u8 == 0x80u8 {
        (b << 1u8) ^ 0x9bu8
    } else {
        b << 1u8
    })) by (bit_vector);
}

proof fn lemma_byte_linear(a: u8, b: u8)
    ensures
        crc8_byte(a ^ b) == crc8_byte(a) ^ crc8_byte(b),
{
    let a1 = crc8_shift(a);
    let a2 = crc8_shift(a1);
    let a3 = crc8_shift(a2);
    let a4 = crc8_shift(a3);
    let a5 = crc8_shift(a4);
    let a6 = crc8_shift(a5);
    let a7 = crc8_shift(a6);
    let b1 = crc8_shift(b);
    let b2 = crc8_shift(b1);
    let b3 = crc8_shift(b2);
    let b4 = crc8_shift(b3);
    let b5 = crc8_shift(b4);
    let b6 = crc8_shift(b5);
    let b7 = crc8_shift(b6);
    lemma_shift_linear(a, b);
    lemma_shift_linear(a1, b1);
    lemma_shift_linear(a2, b2);
    lemma_shift_linear(a3, b3);
    lemma_shift_linear(a4, b4);
    lemma_shift_linear(a5, b5);
    lemma_shift_linear(a6, b6);
    lemma_shift_linear(a7, b7);
}

/// The checksum is linear: blocks of one length that are added without carry have
/// checksums that add without carry.
pub proof fn crc_is_linear(a: Seq<u8>, b: Seq<u8>, sum: Seq<u8>)
    requires
        a.len() == b.len(),
        a.len() == sum.len(),
        forall|i: int| 0 <= i < a.len() ==> #[trigger] sum[i] == a[i] ^ b[i],
    ensures
        crc8_lte(sum) == crc8_lte(a) ^ crc8_lte(b),
    decreases a.len(),
{
    if a.len() == 0 {
        assert(0u8 ^ 0u8 == 0u8) by (bit_vector);
    } else {
        let (a1, b1, s1) = (a.drop_last(), b.drop_last(), sum.drop_last());
        assert forall|i: int| 0 <= i < a1.len() implies #[trigger] s1[i] == a1[i] ^ b1[i] by {
            assert(s1[i] == sum[i]);
        }
        crc_is_linear(a1, b1, s1);
        let (x, y) = (crc8_lte(a1), crc8_lte(b1));
        let (p, q) = (a.last(), b.last());
        assert(sum.last() == p ^ q);
        assert((x ^ y) ^ (p ^ q) == (x ^ p) ^ (y ^ q)) by (bit_vector);
        lemma_byte_linear(x ^ p, y ^ q);
    }
}

/// The generator `x^8 + x^7 + x^4 + x^3 + x + 1` has checksum zero wherever it stands in a
/// block of zeros: behind `before` zero bytes and in front of `after` more.
pub proof fn generator_has_no_remainder(before: nat, after: nat)
    ensures
        crc8_lte(
            Seq::new(before, |i: int| 0u8) + seq![0x01u8, 0x9bu8] + Seq::new(after, |i: int| 0u8),
        ) == 0,
    decreases before + after,
{
    let lead = Seq::new(before, |i: int| 0u8);
    let tail = Seq::new(after, |i: int| 0u8);
    let whole = lead + seq![0x01u8, 0x9bu8] + tail;
    lemma_zeros_have_no_remainder(before);
    assert(0u8 ^ 0u8 == 0u8) by (bit_vector);
    lemma_zero_byte();
    if after > 0 {
        generator_has_no_remainder(before, (after - 1) as nat);
        assert(whole.drop_last() =~= lead + seq![0x01u8, 0x9bu8] + Seq::new(
            (after - 1) as nat,
            |i: int| 0u8,
        ));
    } else {
        let one = lead.push(0x01u8);
        assert(whole.drop_last() =~= one);
        assert(one.drop_last() =~= lead);
        assert(0u8 ^ 0x01u8 == 0x01u8 && 0x9bu8 ^ 0x9bu8 == 0u8) by (bit_vector);
        lemma_one_byte();
        assert(crc8_lte(one) == 0x9b);
    }
}

proof fn lemma_zero_byte()
    ensures
        crc8_byte(0) == 0,
{
    assert((0u8 << 1u8) == 0u8 && 0u8 & 0x80u8 != 0x80u8) by (bit_vector);
}

proof fn lemma_one_byte()
    ensures
        crc8_byte(1) == 0x9b,
{
    assert(1u8 << 1u8 == 2u8 && 2u8 << 1u8 == 4u8 && 4u8 << 1u8 == 8u8 && 8u8 << 1u8 == 16u8
        && 16u8 << 1u8 == 32u8 && 32u8 << 1u8 == 64u8 && 64u8 << 1u8 == 128u8 && (128u8 << 1u8)
        ^ 0x9bu8 == 0x9bu8) by (bit_vector);
    assert(1u8 & 0x80u8 == 0 && 2u8 & 0x80u8 == 0 && 4u8 & 0x80u8 == 0 && 8u8 & 0x80u8 == 0 && 16u8
        & 0x80u8 == 0 && 32u8 & 0x80u8 == 0 && 64u8 & 0x80u8 == 0 && 128u8 & 0x80u8 == 0x80u8)
        by (bit_vector);
}

proof fn lemma_zeros_have_no_remainder(n: nat)
    ensures
        crc8_lte(Seq::new(n, |i: int| 0u8)) == 0,
    decreases n,
{
    let zeros = Seq::new(n, |i: int| 0u8);
    if n > 0 {
        lemma_zeros_have_no_remainder((n - 1) as nat);
        assert(zeros.drop_last() =~= Seq::new((n - 1) as nat, |i: int| 0u8));
        assert(0u8 ^ 0u8 == 0u8) by (bit_vector);
        lemma_zero_byte();
    }
}

} // verus!
