//! The Internet checksum: the ones-complement of the ones-complement sum
//! of a byte sequence read as big-endian 16-bit words.

use vstd::prelude::*;

verus! {

/// Weight of the byte at offset `i` inside its big-endian word:
/// even offsets hold the high byte, odd offsets the low byte.
pub open spec fn byte_weight(i: int) -> nat {
    if i % 2 == 0 {
        256
    } else {
        1
    }
}

/// Sum of the 16-bit big-endian words of `bytes`, as an unbounded number.
/// A trailing odd byte counts as the high byte of a word padded with zero.
pub open spec fn word_sum(bytes: Seq<u8>) -> nat
    decreases bytes.len(),
{
    if bytes.len() == 0 {
        0
    } else {
        word_sum(bytes.drop_last()) + bytes.last() as nat * byte_weight(bytes.len() - 1)
    }
}

/// Folds an unbounded sum into 16 bits with end-around carry.
/// Zero stays zero; every other sum lands in `1..=65535`.
pub open spec fn fold16(sum: nat) -> nat {
    if sum == 0 {
        0
    } else {
        ((sum - 1) % 65535 + 1) as nat
    }
}

/// The Internet checksum of `bytes`.
pub open spec fn internet_checksum(bytes: Seq<u8>) -> u16 {
    (65535 - fold16(word_sum(bytes))) as u16
}

/// A byte sequence that carries its own checksum is intact when the
/// checksum computed over all of it, checksum field included, is zero.
pub open spec fn checksum_validates(bytes: Seq<u8>) -> bool {
    internet_checksum(bytes) == 0
}

/// One step of ones-complement addition on a folded accumulator.
pub open spec fn fold_add(acc: nat, v: nat) -> nat {
    if acc + v > 65535 {
        (acc + v - 65535) as nat
    } else {
        acc + v
    }
}

/// Folding commutes with adding a 16-bit quantity.
pub proof fn lemma_fold16_add(sum: nat, v: nat)
    requires
        v <= 65535,
    ensures
        fold16(sum + v) == fold_add(fold16(sum), v),
        fold16(sum) <= 65535,
{
}

/// The word sum of a prefix extended by one byte.
pub proof fn lemma_word_sum_push(bytes: Seq<u8>, b: u8)
    ensures
        word_sum(bytes.push(b)) == word_sum(bytes) + b as nat * byte_weight(bytes.len() as int),
{
    assert(bytes.push(b).drop_last() == bytes);
}

/// Computes the Internet checksum of `data`.
pub fn checksum(data: &[u8]) -> (sum: u16)
    ensures
        sum == internet_checksum(data@),
{
    let mut acc: u32 = 0;
    let mut i: usize = 0;
    while i < data.len()
        invariant
            i <= data.len(),
            acc <= 65535,
            acc == fold16(word_sum(data@.take(i as int))),
        decreases data.len() - i,
    {
        let b: u32 = data[i] as u32;
        let v: u32 = if i % 2 == 0 {
            b * 256
        } else {
            b
        };
        proof {
            let prefix = data@.take(i as int);
            assert(data@.take(i + 1) == prefix.push(data@[i as int]));
            lemma_word_sum_push(prefix, data@[i as int]);
            lemma_fold16_add(word_sum(prefix), v as nat);
        }
        acc = acc + v;
        if acc > 65535 {
            acc = acc - 65535;
        }
        i = i + 1;
    }
    proof {
        assert(data@.take(i as int) == data@);
    }
    (65535 - acc) as u16
}

/// Tells whether `data`, checksum field included, sums to a valid packet.
pub fn verify_checksum(data: &[u8]) -> (ok: bool)
    ensures
        ok == checksum_validates(data@),
{
    checksum(data) == 0
}

/// The value of `b` with bit number `bit` inverted.
pub open spec fn flip_bit(b: u8, bit: u8) -> u8 {
    b ^ (1u8 << bit)
}

/// Replacing one byte moves the word sum by the weighted difference.
pub proof fn lemma_word_sum_update(bytes: Seq<u8>, i: int, v: u8)
    requires
        0 <= i < bytes.len(),
    ensures
        word_sum(bytes.update(i, v)) + bytes[i] as nat * byte_weight(i) == word_sum(bytes)
            + v as nat * byte_weight(i),
    decreases bytes.len(),
{
    let updated = bytes.update(i, v);
    if i == bytes.len() - 1 {
        assert(updated.drop_last() == bytes.drop_last());
    } else {
        assert(updated.drop_last() == bytes.drop_last().update(i, v));
        lemma_word_sum_update(bytes.drop_last(), i, v);
    }
}

/// Two sums that differ by less than a full cycle fold differently.
pub proof fn lemma_fold16_distinct(sum: nat, d: nat)
    requires
        0 < d < 65535,
    ensures
        fold16(sum + d) != fold16(sum),
{
}

/// Inverting one bit moves a byte by a power of two, up or down.
pub proof fn lemma_flip_bit_delta(b: u8, bit: u8)
    requires
        bit < 8,
    ensures
        flip_bit(b, bit) != b,
        flip_bit(b, bit) > b ==> 0 < flip_bit(b, bit) - b <= 128,
        flip_bit(b, bit) < b ==> 0 < b - flip_bit(b, bit) <= 128,
{
    let f = flip_bit(b, bit);
    assert(f != b && f <= b + 128 && b <= f + 128) by (bit_vector)
        requires
            bit < 8,
            f == b ^ (1u8 << bit),
    ;
}

/// Corruption of a single bit is always detected: inverting any one bit of
/// any byte sequence changes its Internet checksum.
pub proof fn lemma_single_bit_flip_changes_checksum(bytes: Seq<u8>, i: int, bit: u8)
    requires
        0 <= i < bytes.len(),
        bit < 8,
    ensures
        internet_checksum(bytes.update(i, flip_bit(bytes[i], bit))) != internet_checksum(bytes),
{
    let before = bytes[i];
    let after = flip_bit(before, bit);
    lemma_flip_bit_delta(before, bit);
    lemma_word_sum_update(bytes, i, after);
    let w = byte_weight(i);
    let s0 = word_sum(bytes);
    let s1 = word_sum(bytes.update(i, after));
    if after > before {
        let d = ((after - before) * w) as nat;
        assert(0 < d < 65535) by (nonlinear_arith)
            requires
                0 < after - before <= 128,
                w == 256 || w == 1,
                d == (after - before) * w,
        ;
        assert(s1 == s0 + d) by (nonlinear_arith)
            requires
                s1 + before as nat * w == s0 + after as nat * w,
                d == (after - before) * w,
        ;
        lemma_fold16_distinct(s0, d);
    } else {
        let d = ((before - after) * w) as nat;
        assert(0 < d < 65535) by (nonlinear_arith)
            requires
                0 < before - after <= 128,
                w == 256 || w == 1,
                d == (before - after) * w,
        ;
        assert(s0 == s1 + d) by (nonlinear_arith)
            requires
                s1 + before as nat * w == s0 + after as nat * w,
                d == (before - after) * w,
        ;
        lemma_fold16_distinct(s1, d);
    }
}

/// Storing the checksum of a sequence next to it makes the whole validate:
/// where `rest` sums to `s` and `c` is the complement of its fold, a total of
/// `s + c` folds to all ones.
pub proof fn lemma_complement_completes(s: nat)
    ensures
        fold16(s + (65535 - fold16(s)) as nat) == 65535,
{
}

} // verus!
