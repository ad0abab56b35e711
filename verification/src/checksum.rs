//! The Internet checksum: a one's-complement sum over 16-bit big-endian
//! words, with the carry out of the top bit brought back in at the bottom.

use vstd::prelude::*;

verus! {

/// The value a 16-bit one's-complement accumulator holds once words that add
/// up to `n` have gone into it, starting from zero.
///
/// The accumulator is zero only while nothing but zeros went in; after that
/// it runs through `1..=0xffff`, congruent to `n` modulo `0xffff`.
pub open spec fn fold16(n: int) -> int
    recommends
        n >= 0,
{
    if n <= 0 {
        0
    } else {
        (n - 1) % 65535 + 1
    }
}

/// One step of the accumulator: the 16-bit sum, plus one if it overflowed.
pub open spec fn carry_add(acc: u16, v: u16) -> u16 {
    if acc + v > 0xffff {
        (acc + v - 0xffff) as u16
    } else {
        (acc + v) as u16
    }
}

/// The big-endian word made of two bytes.
pub open spec fn word(msb: u8, lsb: u8) -> u16 {
    (msb * 256 + lsb) as u16
}

/// The sum of the first `n` words of `bytes`.
pub open spec fn words_upto(bytes: Seq<u8>, n: nat) -> nat
    decreases n,
{
    if n == 0 {
        0
    } else {
        words_upto(bytes, (n - 1) as nat) + word(bytes[2 * n - 2], bytes[2 * n - 1]) as nat
    }
}

/// The sum of all the words of `bytes`, as a natural number.
pub open spec fn word_sum(bytes: Seq<u8>) -> nat {
    words_upto(bytes, bytes.len() / 2)
}

/// The one's-complement sum of the words of `bytes`.
pub open spec fn ones_sum(bytes: Seq<u8>) -> u16 {
    fold16(word_sum(bytes) as int) as u16
}

/// The checksum of `bytes`: the complement of their one's-complement sum.
pub open spec fn checksum_of(bytes: Seq<u8>) -> u16 {
    (0xffff - fold16(word_sum(bytes) as int)) as u16
}

/// The accumulator never leaves sixteen bits.
pub proof fn lemma_fold16_bound(n: int)
    requires
        n >= 0,
    ensures
        0 <= fold16(n) <= 0xffff,
        n <= 0xffff ==> fold16(n) == n,
        (fold16(n) == 0) == (n == 0),
        (fold16(n) == 0xffff) == (n > 0 && n % 65535 == 0),
{
    if n > 0 {
        let q = (n - 1) / 65535;
        let r = (n - 1) % 65535;
        assert(n - 1 == 65535 * q + r) by {
            vstd::arithmetic::div_mod::lemma_fundamental_div_mod(n - 1, 65535);
        }
        if r == 65534 {
            assert(n == 65535 * (q + 1));
            assert(n % 65535 == 0) by {
                vstd::arithmetic::div_mod::lemma_mod_multiples_basic(q + 1, 65535);
            }
        } else {
            assert(n == 65535 * q + (r + 1));
            assert(n % 65535 == r + 1) by {
                vstd::arithmetic::div_mod::lemma_fundamental_div_mod_converse(
                    n,
                    65535,
                    q,
                    r + 1,
                );
            }
        }
    }
}

/// One step of the accumulator gives the fold of the plain sum.
pub proof fn lemma_carry_add(acc: u16, v: u16)
    ensures
        carry_add(acc, v) == fold16(acc + v),
{
    let n = acc + v;
    lemma_fold16_bound(n);
    if n > 0xffff {
        assert(n - 1 == 65535 * 1 + (n - 65536));
        assert((n - 1) % 65535 == n - 65536) by {
            vstd::arithmetic::div_mod::lemma_fundamental_div_mod_converse(
                n - 1,
                65535,
                1,
                n - 65536,
            );
        }
    }
}

/// Folding a sum that already holds a folded part gives the fold of the
/// whole sum: the accumulator may be carried from one run to the next.
pub proof fn lemma_fold16_absorb(n: int, m: int)
    requires
        n >= 0,
        m >= 0,
    ensures
        fold16(fold16(n) + m) == fold16(n + m),
{
    if n > 0 {
        let q = (n - 1) / 65535;
        let r = (n - 1) % 65535;
        assert(n - 1 == 65535 * q + r) by {
            vstd::arithmetic::div_mod::lemma_fundamental_div_mod(n - 1, 65535);
        }
        assert(fold16(n) + m - 1 == r + m);
        assert(n + m - 1 == 65535 * q + (r + m));
        assert((65535 * q + (r + m)) % 65535 == (r + m) % 65535) by {
            vstd::arithmetic::div_mod::lemma_mod_multiples_vanish(q, r + m, 65535);
        }
    }
}

/// The sum of the first `n` words reads only the first `2 * n` bytes.
pub proof fn lemma_words_upto_prefix(a: Seq<u8>, b: Seq<u8>, n: nat)
    requires
        2 * n <= a.len(),
        2 * n <= b.len(),
        forall|i: int| 0 <= i < 2 * n ==> a[i] == b[i],
    ensures
        words_upto(a, n) == words_upto(b, n),
    decreases n,
{
    if n > 0 {
        lemma_words_upto_prefix(a, b, (n - 1) as nat);
    }
}

/// The words of two byte strings laid end to end add up to the two sums,
/// where the first string holds whole words.
pub proof fn lemma_word_sum_concat(a: Seq<u8>, b: Seq<u8>)
    requires
        a.len() % 2 == 0,
    ensures
        word_sum(a + b) == word_sum(a) + word_sum(b),
{
    lemma_words_upto_concat(a, b, b.len() / 2);
    assert((a + b).len() / 2 == a.len() / 2 + b.len() / 2);
}

/// The first words of two byte strings laid end to end: all of the first
/// string, which holds whole words, and `m` of the second.
proof fn lemma_words_upto_concat(a: Seq<u8>, b: Seq<u8>, m: nat)
    requires
        a.len() % 2 == 0,
        2 * m <= b.len(),
    ensures
        words_upto(a + b, a.len() / 2 + m) == words_upto(a, a.len() / 2) + words_upto(b, m),
    decreases m,
{
    let k = a.len() / 2;
    if m == 0 {
        lemma_words_upto_prefix(a + b, a, k);
    } else {
        lemma_words_upto_concat(a, b, (m - 1) as nat);
        assert((a + b)[2 * (k + m) - 2] == b[2 * m - 2]);
        assert((a + b)[2 * (k + m) - 1] == b[2 * m - 1]);
    }
}

/// Replacing one byte moves the sum of the words by the difference, at the
/// weight of the byte's place in its word.
pub proof fn lemma_words_upto_update(bytes: Seq<u8>, i: int, b: u8, n: nat)
    requires
        0 <= i < 2 * n <= bytes.len(),
    ensures
        words_upto(bytes.update(i, b), n) == words_upto(bytes, n) + (b - bytes[i]) * (if i % 2
            == 0 {
            256int
        } else {
            1int
        }),
    decreases n,
{
    let after = bytes.update(i, b);
    if i < 2 * n - 2 {
        lemma_words_upto_update(bytes, i, b, (n - 1) as nat);
        assert(after[2 * n - 2] == bytes[2 * n - 2]);
        assert(after[2 * n - 1] == bytes[2 * n - 1]);
    } else {
        lemma_words_upto_prefix(after, bytes, (n - 1) as nat);
    }
}

/// A change to any one byte of a byte string whose one's-complement sum has
/// every bit set leaves a string whose sum has not: the checksum catches it.
pub proof fn lemma_byte_change_detected(bytes: Seq<u8>, i: int, b: u8)
    requires
        bytes.len() % 2 == 0,
        0 <= i < bytes.len(),
        b != bytes[i],
        ones_sum(bytes) == 0xffff,
    ensures
        ones_sum(bytes.update(i, b)) != 0xffff,
{
    let n = bytes.len() / 2;
    let before = word_sum(bytes) as int;
    let after = word_sum(bytes.update(i, b)) as int;
    let weight = if i % 2 == 0 {
        256int
    } else {
        1int
    };
    lemma_words_upto_update(bytes, i, b, n);
    let delta = (b - bytes[i]) * weight;
    assert(after == before + delta);
    assert(delta != 0 && -65535 < delta < 65535) by (nonlinear_arith)
        requires
            delta == (b - bytes[i]) * weight,
            weight == 256 || weight == 1,
            b != bytes[i],
            -256 < b - bytes[i] < 256,
    ;
    lemma_fold16_bound(before);
    lemma_fold16_bound(after);
    if fold16(after) == 0xffff {
        vstd::arithmetic::div_mod::lemma_fundamental_div_mod(before, 65535);
        vstd::arithmetic::div_mod::lemma_fundamental_div_mod(after, 65535);
        let qa = after / 65535;
        let qb = before / 65535;
        assert(delta == 65535 * qa - 65535 * qb);
        assert(qa == qb);
    }
}

/// Adds one word to a one's-complement accumulator.
pub fn add_word(acc: u16, v: u16) -> (total: u16)
    ensures
        total == carry_add(acc, v),
        total == fold16(acc + v),
{
    proof {
        lemma_carry_add(acc, v);
    }
    let wide: u32 = acc as u32 + v as u32;
    if wide > 0xffff {
        (wide - 0xffff) as u16
    } else {
        wide as u16
    }
}

/// Adds the big-endian word `msb lsb` to a one's-complement accumulator.
pub fn add_bytes(acc: u16, msb: u8, lsb: u8) -> (total: u16)
    ensures
        total == carry_add(acc, word(msb, lsb)),
        total == fold16(acc + word(msb, lsb)),
{
    add_word(acc, msb as u16 * 256 + lsb as u16)
}

/// Adds the two words of a 32-bit value, the high one first, to a
/// one's-complement accumulator.
pub fn add_u32(acc: u16, v: u32) -> (total: u16)
    ensures
        total == carry_add(carry_add(acc, (v / 65536) as u16), (v % 65536) as u16),
        total == fold16(acc + v / 65536 + v % 65536),
{
    proof {
        lemma_fold16_absorb(acc + v / 65536, (v % 65536) as int);
    }
    let high = add_word(acc, (v / 65536) as u16);
    add_word(high, (v % 65536) as u16)
}

/// Adds every word of `bytes`, which hold whole words, to a one's-complement
/// accumulator.
pub fn add_slice(acc: u16, bytes: &[u8]) -> (total: u16)
    requires
        bytes@.len() % 2 == 0,
    ensures
        total == fold16(acc + word_sum(bytes@)),
{
    let mut total = acc;
    let mut i: usize = 0;
    proof {
        lemma_fold16_bound(acc as int);
    }
    while i < bytes.len()
        invariant
            i <= bytes@.len(),
            i % 2 == 0,
            bytes@.len() % 2 == 0,
            total == fold16(acc + words_upto(bytes@, (i / 2) as nat)),
        decreases bytes@.len() - i,
    {
        proof {
            lemma_fold16_absorb(
                acc + words_upto(bytes@, (i / 2) as nat),
                word(bytes@[i as int], bytes@[i + 1]) as int,
            );
            assert(((i + 2) / 2) as nat == (i / 2) as nat + 1);
        }
        total = add_bytes(total, bytes[i], bytes[i + 1]);
        i += 2;
    }
    total
}

/// The Internet checksum of `bytes`, which hold whole 16-bit words.
pub fn checksum(bytes: &[u8]) -> (sum: u16)
    requires
        bytes@.len() % 2 == 0,
    ensures
        sum == checksum_of(bytes@),
{
    let total = add_slice(0, bytes);
    proof {
        lemma_fold16_bound(word_sum(bytes@) as int);
        lemma_not_u16(total);
    }
    !total
}

/// The bitwise complement of a 16-bit value is what it lacks to `0xffff`.
pub proof fn lemma_not_u16(v: u16)
    ensures
        !v == 0xffff - v,
{
    assert(!v == 0xffff - v) by (bit_vector);
}

} // verus!
