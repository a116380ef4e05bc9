//! The Internet checksum: the one's-complement sum of 16-bit words.

use vstd::prelude::*;

verus! {

/// The `k`-th 16-bit word of `bytes`, most significant byte first; a
/// missing last byte counts as zero.
pub open spec fn word_at(bytes: Seq<u8>, k: int) -> int {
    if 2 * k + 1 < bytes.len() {
        bytes[2 * k] * 256 + bytes[2 * k + 1]
    } else {
        bytes[2 * k] * 256
    }
}

/// The sum of the first `n` words of `bytes`.
pub open spec fn word_sum_upto(bytes: Seq<u8>, n: nat) -> int
    decreases n,
{
    if n == 0 {
        0
    } else {
        word_sum_upto(bytes, (n - 1) as nat) + word_at(bytes, n - 1)
    }
}

/// The number of words that `len` bytes make up.
pub open spec fn word_count(len: nat) -> nat {
    (len + 1) / 2
}

/// The sum of all words of `bytes`.
pub open spec fn word_sum(bytes: Seq<u8>) -> int {
    word_sum_upto(bytes, word_count(bytes.len()))
}

/// A sum folded into 16 bits with end-around carry: zero stays zero, and
/// any other sum becomes the number from 1 to `0xFFFF` that differs from
/// it by a multiple of `0xFFFF`.
pub open spec fn fold16(sum: int) -> int {
    if sum <= 0 {
        0
    } else {
        (sum - 1) % 0xFFFF + 1
    }
}

/// The checksum that belongs into data whose words, with the checksum
/// field at zero, add up to `sum`: the complement of the folded sum.
pub open spec fn checksum_of(sum: int) -> u16 {
    (0xFFFF - fold16(sum)) as u16
}

/// Whether data whose words, checksum included, add up to `sum` passes
/// the check: the folded sum is all ones.
pub open spec fn sum_is_valid(sum: int) -> bool {
    fold16(sum) == 0xFFFF
}

/// `bytes` with the two bytes at `i` replaced by `v`, most significant
/// byte first.
pub open spec fn with_be16(bytes: Seq<u8>, i: int, v: u16) -> Seq<u8> {
    bytes.update(i, (v / 256) as u8).update(i + 1, (v % 256) as u8)
}

/// The number that the two bytes at `i` spell, most significant first.
pub open spec fn be16(bytes: Seq<u8>, i: int) -> u16 {
    (bytes[i] * 256 + bytes[i + 1]) as u16
}

/// Data that carries the checksum computed for it passes the check.
pub proof fn lemma_checksum_validates(sum: int)
    requires
        0 <= sum,
    ensures
        sum_is_valid(sum + checksum_of(sum)),
        0 <= fold16(sum) <= 0xFFFF,
{
}

/// Replacing an aligned word changes the sum of the first `n` words by
/// the difference of the two words if the word is among them, and not at
/// all otherwise.
proof fn lemma_word_sum_upto_update(bytes: Seq<u8>, i: int, v: u16, n: nat)
    requires
        0 <= i,
        i % 2 == 0,
        i + 1 < bytes.len(),
        2 * n <= bytes.len() + 1,
    ensures
        word_sum_upto(with_be16(bytes, i, v), n) == if 2 * n <= i {
            word_sum_upto(bytes, n)
        } else {
            word_sum_upto(bytes, n) - be16(bytes, i) + v
        },
    decreases n,
{
    let changed = with_be16(bytes, i, v);
    if n > 0 {
        lemma_word_sum_upto_update(bytes, i, v, (n - 1) as nat);
        let k = n - 1;
        if 2 * k == i {
            assert(word_at(changed, k) == v);
            assert(word_at(bytes, k) == be16(bytes, i));
        } else {
            assert(changed[2 * k] == bytes[2 * k]);
            if 2 * k + 1 < bytes.len() {
                assert(changed[2 * k + 1] == bytes[2 * k + 1]);
            }
            assert(word_at(changed, k) == word_at(bytes, k));
        }
    }
}

/// Replacing an aligned word changes the sum of all words by the
/// difference of the two words.
pub proof fn lemma_word_sum_update(bytes: Seq<u8>, i: int, v: u16)
    requires
        0 <= i,
        i % 2 == 0,
        i + 1 < bytes.len(),
    ensures
        word_sum(with_be16(bytes, i, v)) == word_sum(bytes) - be16(bytes, i) + v,
        with_be16(bytes, i, v).len() == bytes.len(),
        be16(with_be16(bytes, i, v), i) == v,
{
    lemma_word_sum_upto_update(bytes, i, v, word_count(bytes.len()));
}

/// The sum of `n` words is at most `n` times the largest word.
pub proof fn lemma_word_sum_upto_bound(bytes: Seq<u8>, n: nat)
    requires
        2 * n <= bytes.len() + 1,
    ensures
        0 <= word_sum_upto(bytes, n) <= n * 0xFFFF,
    decreases n,
{
    if n > 0 {
        lemma_word_sum_upto_bound(bytes, (n - 1) as nat);
    }
}

/// The words of the bytes of `data` from `start` up to `end`, added to
/// `init`.
pub fn add_words(data: &Vec<u8>, start: usize, end: usize, init: u64) -> (sum: u64)
    requires
        start <= end <= data.len(),
        end - start <= 0xFFFF,
        init <= 0xFFFF_FFFF,
    ensures
        sum == init + word_sum(data@.subrange(start as int, end as int)),
{
    let ghost seg = data@.subrange(start as int, end as int);
    let len: usize = end - start;
    let mut acc: u64 = init;
    let mut j: usize = 0;
    let mut k: usize = 0;
    while j < len
        invariant
            start + len == end,
            end <= data.len(),
            len <= 0xFFFF,
            j <= len + 1,
            j == 2 * k,
            seg == data@.subrange(start as int, end as int),
            acc == init + word_sum_upto(seg, k as nat),
            acc <= init + k * 0xFFFF,
            init <= 0xFFFF_FFFF,
        decreases len + 1 - j,
    {
        let hi: u64 = data[start + j] as u64;
        let lo: u64 = if j + 1 < len {
            data[start + j + 1] as u64
        } else {
            0
        };
        proof {
            assert(seg[2 * k] == data@[start + j]);
            if j + 1 < len {
                assert(seg[2 * k + 1] == data@[start + j + 1]);
            }
            assert(word_at(seg, k as int) == hi * 256 + lo);
        }
        acc = acc + (hi * 256 + lo);
        j = j + 2;
        k = k + 1;
    }
    assert(k == word_count(seg.len()));
    acc
}

/// Folds a sum into 16 bits.
pub fn fold(sum: u64) -> (r: u16)
    ensures
        r == fold16(sum as int),
{
    if sum == 0 {
        0
    } else {
        ((sum - 1) % 0xFFFF + 1) as u16
    }
}

/// The checksum for data whose words, with the checksum field at zero,
/// add up to `sum`.
pub fn checksum(sum: u64) -> (r: u16)
    ensures
        r == checksum_of(sum as int),
{
    0xFFFF - fold(sum)
}

} // verus!
