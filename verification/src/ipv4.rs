//! The IPv4 header: its fields, its bytes on the wire and its checksum.

use crate::checksum::{
    add_bytes, add_slice, add_u32, add_word, checksum_of, fold16, lemma_fold16_absorb,
    lemma_fold16_bound, lemma_not_u16, lemma_word_sum_concat, ones_sum, word_sum, words_upto,
};
use vstd::arithmetic::power2::{lemma2_to64, pow2};
use vstd::prelude::*;
use vstd::slice::{slice_subrange, slice_to_vec};

verus! {

/// The weight of a flag in its byte: `weight` where the flag is set, else 0.
pub open spec fn flag(set: bool, weight: int) -> int {
    if set {
        weight
    } else {
        0
    }
}

/// The new value of a flag that a setter may leave alone.
pub open spec fn chosen(given: Option<bool>, current: bool) -> bool {
    match given {
        Some(v) => v,
        None => current,
    }
}

/// The bit `n` as a number where `e` holds, else 0.
pub fn bool_to_bit(n: u8, e: bool) -> (bit: u8)
    requires
        n < 8,
    ensures
        bit == flag(e, pow2(n as nat) as int),
{
    proof {
        lemma2_to64();
        assert(n < 8 ==> (1u8 << n) == if n == 0 {
            1u8
        } else if n == 1 {
            2u8
        } else if n == 2 {
            4u8
        } else if n == 3 {
            8u8
        } else if n == 4 {
            16u8
        } else if n == 5 {
            32u8
        } else if n == 6 {
            64u8
        } else {
            128u8
        }) by (bit_vector);
    }
    if e {
        1u8 << n
    } else {
        0
    }
}

/// The fields of an IPv4 header, as plain values.
pub struct Ipv4Fields {
    pub version: u8,
    pub ihl: u8,
    pub precedence: u8,
    pub delay: bool,
    pub throughput: bool,
    pub reliability: bool,
    pub reserved_0: u8,
    pub total_length: u16,
    pub identification: u16,
    pub reserved_1: bool,
    pub dont_fragment: bool,
    pub more_fragments: bool,
    pub fragment_offset: u16,
    pub ttl: u8,
    pub proto: u8,
    pub checksum: u16,
    pub source_addr: u32,
    pub dest_addr: u32,
    pub options: Seq<u8>,
}

impl Ipv4Fields {
    /// Every field fits its bits, and the options fill the header up to the
    /// length that `ihl` gives in 32-bit words.
    pub open spec fn valid(self) -> bool {
        &&& self.version < 16
        &&& 5 <= self.ihl < 16
        &&& self.precedence < 8
        &&& self.reserved_0 < 4
        &&& self.fragment_offset < 8192
        &&& self.options.len() == 4 * self.ihl - 20
    }

    /// Byte 0: the version above the header length.
    pub open spec fn first_byte(self) -> u8 {
        (self.version * 16 + self.ihl) as u8
    }

    /// Byte 1: precedence, the three service flags and two reserved bits.
    pub open spec fn service_byte(self) -> u8 {
        (self.precedence * 32 + flag(self.delay, 16) + flag(self.throughput, 8) + flag(
            self.reliability,
            4,
        ) + self.reserved_0) as u8
    }

    /// Byte 6: the three fragment flags above the high bits of the offset.
    pub open spec fn flags_byte(self) -> u8 {
        (flag(self.reserved_1, 128) + flag(self.dont_fragment, 64) + flag(self.more_fragments, 32)
            + self.fragment_offset / 256) as u8
    }

    /// The twenty bytes that every header has.
    pub open spec fn fixed(self) -> Seq<u8> {
        seq![
            self.first_byte(),
            self.service_byte(),
            (self.total_length / 256) as u8,
            (self.total_length % 256) as u8,
            (self.identification / 256) as u8,
            (self.identification % 256) as u8,
            self.flags_byte(),
            (self.fragment_offset % 256) as u8,
            self.ttl,
            self.proto,
            (self.checksum / 256) as u8,
            (self.checksum % 256) as u8,
            (self.source_addr / 0x100_0000) as u8,
            (self.source_addr / 0x1_0000 % 256) as u8,
            (self.source_addr / 0x100 % 256) as u8,
            (self.source_addr % 256) as u8,
            (self.dest_addr / 0x100_0000) as u8,
            (self.dest_addr / 0x1_0000 % 256) as u8,
            (self.dest_addr / 0x100 % 256) as u8,
            (self.dest_addr % 256) as u8,
        ]
    }

    /// The header on the wire: the fixed part, then the options.
    pub open spec fn bytes(self) -> Seq<u8> {
        self.fixed() + self.options
    }

    /// The same header with another checksum.
    pub open spec fn with_checksum(self, checksum: u16) -> Ipv4Fields {
        Ipv4Fields { checksum, ..self }
    }

    /// The checksum that the other fields call for: the complement of the
    /// one's-complement sum of the header's words, the checksum taken as 0.
    pub open spec fn expected_checksum(self) -> u16 {
        checksum_of(self.with_checksum(0).bytes())
    }

    /// The same header with the checksum that its other fields call for.
    pub open spec fn sealed(self) -> Ipv4Fields {
        self.with_checksum(self.expected_checksum())
    }

    /// The one's-complement sum of all the header's words, the checksum
    /// among them, has every bit set.
    pub open spec fn checksum_ok(self) -> bool {
        ones_sum(self.bytes()) == 0xffff
    }

    /// Whether a buffer holds a header at its front: it takes twenty bytes,
    /// a header length of five words or more, and as many bytes as the
    /// header length says.
    pub open spec fn holds_header(buf: Seq<u8>) -> bool {
        buf.len() >= 20 && buf[0] % 16 >= 5 && buf.len() >= 4 * (buf[0] % 16)
    }

    /// The fields that the front of a buffer gives, read bit by bit.
    pub open spec fn read(buf: Seq<u8>) -> Ipv4Fields {
        Ipv4Fields {
            version: buf[0] / 16,
            ihl: buf[0] % 16,
            precedence: buf[1] / 32,
            delay: buf[1] / 16 % 2 == 1,
            throughput: buf[1] / 8 % 2 == 1,
            reliability: buf[1] / 4 % 2 == 1,
            reserved_0: buf[1] % 4,
            total_length: (buf[2] * 256 + buf[3]) as u16,
            identification: (buf[4] * 256 + buf[5]) as u16,
            reserved_1: buf[6] / 128 == 1,
            dont_fragment: buf[6] / 64 % 2 == 1,
            more_fragments: buf[6] / 32 % 2 == 1,
            fragment_offset: (buf[6] % 32 * 256 + buf[7]) as u16,
            ttl: buf[8],
            proto: buf[9],
            checksum: (buf[10] * 256 + buf[11]) as u16,
            source_addr: (buf[12] * 0x100_0000 + buf[13] * 0x1_0000 + buf[14] * 0x100
                + buf[15]) as u32,
            dest_addr: (buf[16] * 0x100_0000 + buf[17] * 0x1_0000 + buf[18] * 0x100
                + buf[19]) as u32,
            options: buf.subrange(20, 4 * (buf[0] % 16)),
        }
    }

    /// The header that a buffer holds at its front, if it holds one.
    pub open spec fn parse(buf: Seq<u8>) -> Option<Ipv4Fields> {
        if Self::holds_header(buf) {
            Some(Self::read(buf))
        } else {
            None
        }
    }

    /// The sum of the header's words, field by field.
    pub open spec fn word_total(self) -> int {
        self.first_byte() * 256 + self.service_byte() + self.total_length + self.identification
            + self.flags_byte() * 256 + self.fragment_offset % 256 + self.ttl * 256 + self.proto
            + self.checksum + self.source_addr / 0x1_0000 + self.source_addr % 0x1_0000
            + self.dest_addr / 0x1_0000 + self.dest_addr % 0x1_0000 + word_sum(self.options)
    }
}

/// A 16-bit number is its high byte times 256 plus its low byte.
pub proof fn lemma_u16_split(v: u16)
    ensures
        v / 256 < 256,
        v / 256 * 256 + v % 256 == v,
{
}

/// Two bytes are the high and the low byte of the number they make.
pub proof fn lemma_u16_join(msb: u8, lsb: u8)
    ensures
        msb * 256 + lsb < 0x1_0000,
        (msb * 256 + lsb) / 256 == msb,
        (msb * 256 + lsb) % 256 == lsb,
{
}

/// A 32-bit number is made of its four bytes, and of its two words.
pub proof fn lemma_u32_split(v: u32)
    ensures
        v / 0x100_0000 < 256,
        v / 0x1_0000 < 0x1_0000,
        v / 0x100_0000 * 256 + v / 0x1_0000 % 256 == v / 0x1_0000,
        v / 0x100 % 256 * 256 + v % 256 == v % 0x1_0000,
        v / 0x1_0000 * 0x1_0000 + v % 0x1_0000 == v,
{
}

/// Four bytes are the bytes of the number they make.
pub proof fn lemma_u32_join(a: u8, b: u8, c: u8, d: u8)
    ensures
        a * 0x100_0000 + b * 0x1_0000 + c * 0x100 + d < 0x1_0000_0000,
        (a * 0x100_0000 + b * 0x1_0000 + c * 0x100 + d) / 0x100_0000 == a,
        (a * 0x100_0000 + b * 0x1_0000 + c * 0x100 + d) / 0x1_0000 % 256 == b,
        (a * 0x100_0000 + b * 0x1_0000 + c * 0x100 + d) / 0x100 % 256 == c,
        (a * 0x100_0000 + b * 0x1_0000 + c * 0x100 + d) % 256 == d,
{
}

/// The first ten words of a byte string, written out.
pub proof fn lemma_ten_words(s: Seq<u8>)
    requires
        s.len() >= 20,
    ensures
        words_upto(s, 10) == s[0] * 256 + s[1] + s[2] * 256 + s[3] + s[4] * 256 + s[5] + s[6] * 256
            + s[7] + s[8] * 256 + s[9] + s[10] * 256 + s[11] + s[12] * 256 + s[13] + s[14] * 256
            + s[15] + s[16] * 256 + s[17] + s[18] * 256 + s[19],
{
    reveal_with_fuel(words_upto, 11);
}

/// The first three bytes that pack several fields hold each of them in its
/// own bits.
#[verifier::rlimit(40)]
pub proof fn lemma_packed_bytes(f: Ipv4Fields)
    requires
        f.valid(),
    ensures
        f.first_byte() == f.version * 16 + f.ihl,
        f.first_byte() / 16 == f.version,
        f.first_byte() % 16 == f.ihl,
        f.service_byte() == f.precedence * 32 + flag(f.delay, 16) + flag(f.throughput, 8) + flag(
            f.reliability,
            4,
        ) + f.reserved_0,
        f.service_byte() / 32 == f.precedence,
        (f.service_byte() / 16 % 2 == 1) == f.delay,
        (f.service_byte() / 8 % 2 == 1) == f.throughput,
        (f.service_byte() / 4 % 2 == 1) == f.reliability,
        f.service_byte() % 4 == f.reserved_0,
        f.flags_byte() == flag(f.reserved_1, 128) + flag(f.dont_fragment, 64) + flag(
            f.more_fragments,
            32,
        ) + f.fragment_offset / 256,
        (f.flags_byte() / 128 == 1) == f.reserved_1,
        (f.flags_byte() / 64 % 2 == 1) == f.dont_fragment,
        (f.flags_byte() / 32 % 2 == 1) == f.more_fragments,
        f.flags_byte() % 32 == f.fragment_offset / 256,
{
}

/// The words of the fixed part of a header add up to the sum of its fields.
#[verifier::rlimit(40)]
proof fn lemma_fixed_total(f: Ipv4Fields)
    ensures
        f.fixed().len() == 20,
        words_upto(f.fixed(), 10) == f.word_total() - word_sum(f.options),
{
    let s = f.fixed();
    assert(s.len() == 20);
    assert(s[0] == f.first_byte() && s[1] == f.service_byte());
    assert(s[2] * 256 + s[3] == f.total_length) by {
        lemma_u16_split(f.total_length);
    }
    assert(s[4] * 256 + s[5] == f.identification) by {
        lemma_u16_split(f.identification);
    }
    assert(s[6] == f.flags_byte() && s[7] == f.fragment_offset % 256);
    assert(s[8] == f.ttl && s[9] == f.proto);
    assert(s[10] * 256 + s[11] == f.checksum) by {
        lemma_u16_split(f.checksum);
    }
    assert(s[12] * 256 + s[13] == f.source_addr / 0x1_0000 && s[14] * 256 + s[15]
        == f.source_addr % 0x1_0000) by {
        lemma_u32_split(f.source_addr);
    }
    assert(s[16] * 256 + s[17] == f.dest_addr / 0x1_0000 && s[18] * 256 + s[19] == f.dest_addr
        % 0x1_0000) by {
        lemma_u32_split(f.dest_addr);
    }
    lemma_ten_words(s);
}

/// The words of a header's bytes add up to the sum of its fields.
pub proof fn lemma_word_total(f: Ipv4Fields)
    requires
        f.valid(),
    ensures
        f.bytes().len() == 4 * f.ihl,
        word_sum(f.bytes()) == f.word_total(),
        f.word_total() == f.with_checksum(0).word_total() + f.checksum,
        f.with_checksum(0).word_total() > 0,
{
    lemma_fixed_total(f);
    lemma_word_sum_concat(f.fixed(), f.options);
    assert(word_sum(f.fixed()) == words_upto(f.fixed(), 10));
    assert(f.first_byte() >= 5);
}

/// A header with the checksum that its fields call for passes the check.
pub proof fn lemma_sealed_checksum_ok(f: Ipv4Fields)
    requires
        f.valid(),
    ensures
        f.sealed().valid(),
        f.sealed().sealed() == f.sealed(),
        f.sealed().checksum_ok(),
{
    let zero = f.with_checksum(0);
    let sum = zero.word_total();
    lemma_word_total(zero);
    lemma_word_total(f.sealed());
    lemma_fold16_bound(sum);
    assert(f.sealed().with_checksum(0) == zero);
    lemma_fold16_absorb(sum, f.sealed().checksum as int);
}

/// A header on the wire, with whatever follows it, is read back as it was.
#[verifier::rlimit(40)]
pub proof fn lemma_parse_bytes(f: Ipv4Fields, rest: Seq<u8>)
    requires
        f.valid(),
    ensures
        Ipv4Fields::parse(f.bytes() + rest) == Some(f),
{
    let buf = f.bytes() + rest;
    let s = f.fixed();
    assert(s.len() == 20);
    assert forall|i: int| 0 <= i < 20 implies buf[i] == s[i] by {}
    lemma_packed_bytes(f);
    lemma_u16_split(f.total_length);
    lemma_u16_split(f.identification);
    lemma_u16_split(f.fragment_offset);
    lemma_u16_split(f.checksum);
    lemma_u32_split(f.source_addr);
    lemma_u32_split(f.dest_addr);
    assert(buf[0] == f.first_byte());
    assert(buf[1] == f.service_byte());
    assert(buf[6] == f.flags_byte());
    assert(buf[2] * 256 + buf[3] == f.total_length);
    assert(buf[4] * 256 + buf[5] == f.identification);
    assert(buf[6] % 32 * 256 + buf[7] == f.fragment_offset);
    assert(buf[8] == f.ttl && buf[9] == f.proto);
    assert(buf[10] * 256 + buf[11] == f.checksum);
    assert(buf[12] * 0x100_0000 + buf[13] * 0x1_0000 + buf[14] * 0x100 + buf[15]
        == f.source_addr);
    assert(buf[16] * 0x100_0000 + buf[17] * 0x1_0000 + buf[18] * 0x100 + buf[19] == f.dest_addr);
    assert(buf.subrange(20, 4 * f.ihl) =~= f.options);
    let got = Ipv4Fields::parse(buf)->0;
    assert(got.options == f.options);
    assert(got.version == f.version && got.ihl == f.ihl);
    assert(got.precedence == f.precedence && got.delay == f.delay);
    assert(got.throughput == f.throughput && got.reliability == f.reliability);
    assert(got.reserved_0 == f.reserved_0 && got.reserved_1 == f.reserved_1);
    assert(got.dont_fragment == f.dont_fragment && got.more_fragments == f.more_fragments);
}

/// What is read from a buffer is a valid header, and the bytes of that
/// header are the front of the buffer.
#[verifier::rlimit(40)]
pub proof fn lemma_bytes_parse(buf: Seq<u8>)
    requires
        Ipv4Fields::parse(buf) is Some,
    ensures
        Ipv4Fields::parse(buf)->0.valid(),
        Ipv4Fields::parse(buf)->0.bytes() == buf.take(4 * (buf[0] % 16)),
{
    let f = Ipv4Fields::parse(buf)->0;
    let s = f.fixed();
    assert(f.valid());
    lemma_packed_bytes(f);
    lemma_u16_join(buf[2], buf[3]);
    lemma_u16_join(buf[4], buf[5]);
    lemma_u16_join(buf[6] % 32, buf[7]);
    lemma_u16_join(buf[10], buf[11]);
    lemma_u32_join(buf[12], buf[13], buf[14], buf[15]);
    lemma_u32_join(buf[16], buf[17], buf[18], buf[19]);
    assert(s[0] == buf[0]);
    assert(s[1] == buf[1]);
    assert(s[2] == buf[2] && s[3] == buf[3]);
    assert(s[4] == buf[4] && s[5] == buf[5]);
    assert(s[6] == buf[6]);
    assert(s[7] == buf[7]);
    assert(s[8] == buf[8] && s[9] == buf[9]);
    assert(s[10] == buf[10] && s[11] == buf[11]);
    assert(s[12] == buf[12] && s[13] == buf[13] && s[14] == buf[14] && s[15] == buf[15]);
    assert(s[16] == buf[16] && s[17] == buf[17] && s[18] == buf[18] && s[19] == buf[19]);
    assert(s.len() == 20);
    assert(f.bytes() =~= buf.take(4 * (buf[0] % 16)));
}

/// The bytes `bytes` with one bit turned over: bit `n % 8` of byte `n / 8`,
/// bit 0 being the lowest of its byte.
pub open spec fn flip_bit(bytes: Seq<u8>, n: nat) -> Seq<u8> {
    bytes.update((n / 8) as int, bytes[(n / 8) as int] ^ (1u8 << (n % 8)))
}

/// A header that passes the check no longer does once any one byte of its
/// bytes on the wire has changed, as long as it is read with its old length:
/// a change to the header length that cuts the options short leaves another
/// header, whose words may well add up.
#[verifier::rlimit(40)]
pub proof fn lemma_changed_byte_fails_check(f: Ipv4Fields, i: int, b: u8)
    requires
        f.valid(),
        f.checksum_ok(),
        0 <= i < f.bytes().len(),
        b != f.bytes()[i],
    ensures
        match Ipv4Fields::parse(f.bytes().update(i, b)) {
            Some(g) => !g.checksum_ok() || g.ihl < f.ihl,
            None => true,
        },
        i > 0 ==> Ipv4Fields::parse(f.bytes().update(i, b)) is Some,
{
    let bytes = f.bytes();
    let changed = bytes.update(i, b);
    assert(bytes.len() == 4 * f.ihl && bytes[0] % 16 == f.ihl) by {
        lemma_word_total(f);
        lemma_packed_bytes(f);
        assert(f.fixed().len() == 20);
        assert(bytes[0] == f.fixed()[0]);
    }
    if i > 0 {
        assert(changed[0] == bytes[0]);
        assert(Ipv4Fields::holds_header(changed));
    }
    if Ipv4Fields::holds_header(changed) {
        let g = Ipv4Fields::read(changed);
        assert(g.ihl == changed[0] % 16);
        if g.ihl == f.ihl {
            assert(g.bytes() == changed) by {
                lemma_bytes_parse(changed);
                assert(changed.take(4 * g.ihl) =~= changed);
            }
            crate::checksum::lemma_byte_change_detected(bytes, i, b);
        }
    }
}

/// A header that passes the check no longer does once any one bit of its
/// bytes on the wire is turned over, as long as it is read with its old
/// length; no bit but the four of the header length can change that.
pub proof fn lemma_flipped_bit_fails_check(f: Ipv4Fields, n: nat)
    requires
        f.valid(),
        f.checksum_ok(),
        n < 8 * f.bytes().len(),
    ensures
        match Ipv4Fields::parse(flip_bit(f.bytes(), n)) {
            Some(g) => !g.checksum_ok() || g.ihl < f.ihl,
            None => true,
        },
        n >= 4 ==> Ipv4Fields::parse(flip_bit(f.bytes(), n)) is Some,
{
    let bytes = f.bytes();
    let i = (n / 8) as int;
    let k = (n % 8) as u8;
    let before = bytes[i];
    let after = before ^ (1u8 << k);
    assert(k < 8 ==> (before ^ (1u8 << k)) != before) by (bit_vector);
    assert(k < 8 && k >= 4 ==> (before ^ (1u8 << k)) % 16 == before % 16) by (bit_vector);
    assert(1u8 << k == 1u8 << (n % 8)) by {
        assert(k as nat == n % 8);
    }
    lemma_changed_byte_fails_check(f, i, after);
    if n >= 4 && i == 0 {
        assert(bytes.len() == 4 * f.ihl && bytes[0] % 16 == f.ihl) by {
            lemma_word_total(f);
            lemma_packed_bytes(f);
            assert(f.fixed().len() == 20);
            assert(bytes[0] == f.fixed()[0]);
        }
        assert(Ipv4Fields::holds_header(flip_bit(bytes, n)));
    }
}

/// An IPv4 header.
///
/// Whatever changes a field sets the checksum anew, so a header that came
/// from `default` and the setters always passes `validate_checksum`. One
/// read from a buffer holds the checksum that the buffer held.
#[derive(Debug)]
pub struct Ipv4Header {
    version: u8,
    ihl: u8,
    precedence: u8,
    delay: bool,
    throughput: bool,
    reliability: bool,
    reserved_0: u8,
    total_length: u16,
    identification: u16,
    reserved_1: bool,
    dont_fragment: bool,
    more_fragments: bool,
    fragment_offset: u16,
    ttl: u8,
    proto: u8,
    checksum: u16,
    source_addr: u32,
    dest_addr: u32,
    options: Vec<u8>,
}

impl View for Ipv4Header {
    type V = Ipv4Fields;

    closed spec fn view(&self) -> Ipv4Fields {
        Ipv4Fields {
            version: self.version,
            ihl: self.ihl,
            precedence: self.precedence,
            delay: self.delay,
            throughput: self.throughput,
            reliability: self.reliability,
            reserved_0: self.reserved_0,
            total_length: self.total_length,
            identification: self.identification,
            reserved_1: self.reserved_1,
            dont_fragment: self.dont_fragment,
            more_fragments: self.more_fragments,
            fragment_offset: self.fragment_offset,
            ttl: self.ttl,
            proto: self.proto,
            checksum: self.checksum,
            source_addr: self.source_addr,
            dest_addr: self.dest_addr,
            options: self.options@,
        }
    }
}

impl Ipv4Header {
    /// Every header that there is has valid fields.
    #[verifier::type_invariant]
    spec fn fields_fit(&self) -> bool {
        self@.valid()
    }

    /// A header with the given fields, where they are valid together.
    pub fn from_fields(
        version: u8,
        ihl: u8,
        precedence: u8,
        delay: bool,
        throughput: bool,
        reliability: bool,
        reserved_0: u8,
        total_length: u16,
        identification: u16,
        reserved_1: bool,
        dont_fragment: bool,
        more_fragments: bool,
        fragment_offset: u16,
        ttl: u8,
        proto: u8,
        checksum: u16,
        source_addr: u32,
        dest_addr: u32,
        options: Vec<u8>,
    ) -> (r: Option<Ipv4Header>)
        ensures
            match r {
                Some(h) => h@ == (Ipv4Fields {
                    version,
                    ihl,
                    precedence,
                    delay,
                    throughput,
                    reliability,
                    reserved_0,
                    total_length,
                    identification,
                    reserved_1,
                    dont_fragment,
                    more_fragments,
                    fragment_offset,
                    ttl,
                    proto,
                    checksum,
                    source_addr,
                    dest_addr,
                    options: options@,
                }) && h@.valid(),
                None => !(Ipv4Fields {
                    version,
                    ihl,
                    precedence,
                    delay,
                    throughput,
                    reliability,
                    reserved_0,
                    total_length,
                    identification,
                    reserved_1,
                    dont_fragment,
                    more_fragments,
                    fragment_offset,
                    ttl,
                    proto,
                    checksum,
                    source_addr,
                    dest_addr,
                    options: options@,
                }).valid(),
            },
    {
        if version >= 16 || ihl < 5 || ihl >= 16 || precedence >= 8 || reserved_0 >= 4
            || fragment_offset >= 8192 || options.len() != 4 * (ihl as usize) - 20 {
            None
        } else {
            Some(
                Ipv4Header {
                    version,
                    ihl,
                    precedence,
                    delay,
                    throughput,
                    reliability,
                    reserved_0,
                    total_length,
                    identification,
                    reserved_1,
                    dont_fragment,
                    more_fragments,
                    fragment_offset,
                    ttl,
                    proto,
                    checksum,
                    source_addr,
                    dest_addr,
                    options,
                },
            )
        }
    }

    /// Byte 0 on the wire: the version above the header length.
    fn first_byte(&self) -> (b: u8)
        ensures
            b == self@.first_byte(),
            self@.valid(),
    {
        proof {
            use_type_invariant(self);
        }
        let version = self.version;
        assert(version < 16 ==> (version << 4) == version * 16) by (bit_vector);
        (version << 4) + self.ihl
    }

    /// Byte 1 on the wire: the type of service.
    fn service_byte(&self) -> (b: u8)
        ensures
            b == self@.service_byte(),
    {
        proof {
            use_type_invariant(self);
            lemma2_to64();
        }
        let precedence = self.precedence;
        assert(precedence < 8 ==> (precedence << 5) == precedence * 32) by (bit_vector);
        (precedence << 5) + bool_to_bit(4, self.delay) + bool_to_bit(3, self.throughput)
            + bool_to_bit(2, self.reliability) + self.reserved_0
    }

    /// Byte 6 on the wire: the flags above the high bits of the offset.
    fn flags_byte(&self) -> (b: u8)
        ensures
            b == self@.flags_byte(),
    {
        proof {
            use_type_invariant(self);
            lemma2_to64();
        }
        let high = (self.fragment_offset / 256) as u8;
        assert(high < 32 ==> high & 0b0001_1111 == high) by (bit_vector);
        bool_to_bit(7, self.reserved_1) + bool_to_bit(6, self.dont_fragment) + bool_to_bit(
            5,
            self.more_fragments,
        ) + (high & 0b0001_1111)
    }

    /// The one's-complement sum of the header's words, the checksum taken
    /// as zero.
    fn checksum_self(&self) -> (total: u16)
        ensures
            total == fold16(self@.with_checksum(0).word_total()),
            self@.valid(),
    {
        proof {
            use_type_invariant(self);
        }
        let ghost zero = self@.with_checksum(0);
        let mut total: u16 = 0;
        total = add_bytes(total, self.first_byte(), self.service_byte());
        let ghost s1 = zero.first_byte() * 256 + zero.service_byte();
        assert(total == fold16(s1));
        total = add_word(total, self.total_length);
        let ghost s2 = s1 + self.total_length;
        proof {
            lemma_fold16_absorb(s1, self.total_length as int);
        }
        total = add_word(total, self.identification);
        let ghost s3 = s2 + self.identification;
        proof {
            lemma_fold16_absorb(s2, self.identification as int);
        }
        total = add_bytes(total, self.flags_byte(), (self.fragment_offset % 256) as u8);
        let ghost s4 = s3 + zero.flags_byte() * 256 + self.fragment_offset % 256;
        proof {
            lemma_fold16_absorb(s3, zero.flags_byte() * 256 + self.fragment_offset % 256);
        }
        total = add_bytes(total, self.ttl, self.proto);
        let ghost s5 = s4 + self.ttl * 256 + self.proto;
        proof {
            lemma_fold16_absorb(s4, self.ttl * 256 + self.proto);
        }
        total = add_u32(total, self.source_addr);
        let ghost s6 = s5 + self.source_addr / 0x1_0000 + self.source_addr % 0x1_0000;
        proof {
            lemma_fold16_absorb(
                s5,
                (self.source_addr / 0x1_0000 + self.source_addr % 0x1_0000) as int,
            );
        }
        total = add_u32(total, self.dest_addr);
        let ghost s7 = s6 + self.dest_addr / 0x1_0000 + self.dest_addr % 0x1_0000;
        proof {
            lemma_fold16_absorb(
                s6,
                (self.dest_addr / 0x1_0000 + self.dest_addr % 0x1_0000) as int,
            );
        }
        assert(total == fold16(s7));
        total = add_slice(total, self.options.as_slice());
        proof {
            lemma_fold16_absorb(s7, word_sum(self.options@) as int);
        }
        total
    }

    /// The IP version, four bits.
    pub fn version(&self) -> (r: u8)
        ensures
            r == self@.version,
    {
        self.version
    }

    /// The header length in 32-bit words, four bits.
    pub fn ihl(&self) -> (r: u8)
        ensures
            r == self@.ihl,
    {
        self.ihl
    }

    /// The precedence, three bits.
    pub fn precedence(&self) -> (r: u8)
        ensures
            r == self@.precedence,
    {
        self.precedence
    }

    /// Sets the precedence, which is at most 7, and the checksum.
    pub fn set_precedence(&mut self, precedence: u8)
        requires
            precedence <= 7,
        ensures
            final(self)@ == (Ipv4Fields { precedence, ..old(self)@ }).sealed(),
            final(self)@.checksum_ok(),
    {
        proof {
            use_type_invariant(&*self);
        }
        self.precedence = precedence;
        self.generate_checksum();
    }

    /// The service flags: low delay, high throughput, high reliability.
    pub fn dtr(&self) -> (r: (bool, bool, bool))
        ensures
            r == (self@.delay, self@.throughput, self@.reliability),
    {
        (self.delay, self.throughput, self.reliability)
    }

    /// Sets those of the service flags that are given, and the checksum.
    pub fn set_dtr(
        &mut self,
        delay: Option<bool>,
        throughput: Option<bool>,
        reliability: Option<bool>,
    )
        ensures
            final(self)@ == (Ipv4Fields {
                delay: chosen(delay, old(self)@.delay),
                throughput: chosen(throughput, old(self)@.throughput),
                reliability: chosen(reliability, old(self)@.reliability),
                ..old(self)@
            }).sealed(),
            final(self)@.checksum_ok(),
    {
        proof {
            use_type_invariant(&*self);
        }
        if let Some(v) = delay {
            self.delay = v;
        }
        if let Some(v) = throughput {
            self.throughput = v;
        }
        if let Some(v) = reliability {
            self.reliability = v;
        }
        self.generate_checksum();
    }

    /// The length of the whole datagram in bytes.
    pub fn total_length(&self) -> (r: u16)
        ensures
            r == self@.total_length,
    {
        self.total_length
    }

    /// The identification of the datagram.
    pub fn identification(&self) -> (r: u16)
        ensures
            r == self@.identification,
    {
        self.identification
    }

    /// Sets the identification, and the checksum.
    pub fn set_identification(&mut self, identification: u16)
        ensures
            final(self)@ == (Ipv4Fields { identification, ..old(self)@ }).sealed(),
            final(self)@.checksum_ok(),
    {
        proof {
            use_type_invariant(&*self);
        }
        self.identification = identification;
        self.generate_checksum();
    }

    /// The fragment flags: don't fragment, more fragments.
    pub fn flags(&self) -> (r: (bool, bool))
        ensures
            r == (self@.dont_fragment, self@.more_fragments),
    {
        (self.dont_fragment, self.more_fragments)
    }

    /// Sets those of the fragment flags that are given, and the checksum.
    pub fn set_flags(&mut self, dont_fragment: Option<bool>, more_fragments: Option<bool>)
        ensures
            final(self)@ == (Ipv4Fields {
                dont_fragment: chosen(dont_fragment, old(self)@.dont_fragment),
                more_fragments: chosen(more_fragments, old(self)@.more_fragments),
                ..old(self)@
            }).sealed(),
            final(self)@.checksum_ok(),
    {
        proof {
            use_type_invariant(&*self);
        }
        if let Some(v) = dont_fragment {
            self.dont_fragment = v;
        }
        if let Some(v) = more_fragments {
            self.more_fragments = v;
        }
        self.generate_checksum();
    }

    /// The fragment offset, thirteen bits.
    pub fn fragment_offset(&self) -> (r: u16)
        ensures
            r == self@.fragment_offset,
    {
        self.fragment_offset
    }

    /// Sets the fragment offset, which is at most 8191, and the checksum.
    pub fn set_fragment_offset(&mut self, fragment_offset: u16)
        requires
            fragment_offset <= 8191,
        ensures
            final(self)@ == (Ipv4Fields { fragment_offset, ..old(self)@ }).sealed(),
            final(self)@.checksum_ok(),
    {
        proof {
            use_type_invariant(&*self);
        }
        self.fragment_offset = fragment_offset;
        self.generate_checksum();
    }

    /// The time to live.
    pub fn ttl(&self) -> (r: u8)
        ensures
            r == self@.ttl,
    {
        self.ttl
    }

    /// Sets the time to live, and the checksum.
    pub fn set_ttl(&mut self, ttl: u8)
        ensures
            final(self)@ == (Ipv4Fields { ttl, ..old(self)@ }).sealed(),
            final(self)@.checksum_ok(),
    {
        proof {
            use_type_invariant(&*self);
        }
        self.ttl = ttl;
        self.generate_checksum();
    }

    /// The code of the protocol that the datagram carries.
    pub fn proto(&self) -> (r: u8)
        ensures
            r == self@.proto,
    {
        self.proto
    }

    /// Sets the protocol code, and the checksum.
    pub fn set_proto(&mut self, proto: u8)
        ensures
            final(self)@ == (Ipv4Fields { proto, ..old(self)@ }).sealed(),
            final(self)@.checksum_ok(),
    {
        proof {
            use_type_invariant(&*self);
        }
        self.proto = proto;
        self.generate_checksum();
    }

    /// The source address, as a big-endian number.
    pub fn source_addr(&self) -> (r: u32)
        ensures
            r == self@.source_addr,
    {
        self.source_addr
    }

    /// The destination address, as a big-endian number.
    pub fn dest_addr(&self) -> (r: u32)
        ensures
            r == self@.dest_addr,
    {
        self.dest_addr
    }

    /// Sets the destination address, and the checksum.
    pub fn set_dest_addr(&mut self, addr: u32)
        ensures
            final(self)@ == (Ipv4Fields { dest_addr: addr, ..old(self)@ }).sealed(),
            final(self)@.checksum_ok(),
    {
        proof {
            use_type_invariant(&*self);
        }
        self.dest_addr = addr;
        self.generate_checksum();
    }

    /// The checksum that the header holds.
    pub fn checksum(&self) -> (r: u16)
        ensures
            r == self@.checksum,
    {
        self.checksum
    }

    /// Sets the checksum to what the other fields call for.
    pub fn generate_checksum(&mut self)
        ensures
            final(self)@ == old(self)@.sealed(),
            final(self)@.checksum_ok(),
    {
        proof {
            use_type_invariant(&*self);
        }
        let total = self.checksum_self();
        proof {
            let zero = self@.with_checksum(0);
            lemma_word_total(zero);
            lemma_not_u16(total);
            lemma_fold16_bound(zero.word_total());
            lemma_sealed_checksum_ok(self@);
        }
        self.checksum = !total;
    }

    /// Whether the header holds the checksum that its words call for.
    pub fn validate_checksum(&self) -> (ok: bool)
        ensures
            ok == self@.checksum_ok(),
            self@.valid(),
    {
        let calculated = add_word(self.checksum_self(), self.checksum);
        proof {
            let zero = self@.with_checksum(0);
            lemma_word_total(self@);
            lemma_fold16_absorb(zero.word_total(), self.checksum as int);
            lemma_not_u16(calculated);
        }
        !calculated == 0
    }

    /// The length of the header on the wire, in bytes.
    pub fn get_byte_len(&self) -> (n: usize)
        ensures
            n == 4 * self@.ihl,
            n == self@.bytes().len(),
            self@.valid(),
    {
        proof {
            use_type_invariant(self);
            lemma_word_total(self@);
        }
        4 * self.ihl as usize
    }

    /// Writes the header to the front of `value`, leaves the rest of `value`
    /// as it was, and returns the number of bytes written.
    pub fn write_slice(&self, value: &mut [u8]) -> (n: usize)
        requires
            old(value)@.len() >= 4 * self@.ihl,
        ensures
            n == self@.bytes().len(),
            final(value)@ == self@.bytes() + old(value)@.skip(n as int),
    {
        proof {
            use_type_invariant(self);
        }
        value[0] = self.first_byte();
        value[1] = self.service_byte();

        value[2] = (self.total_length / 256) as u8;
        value[3] = (self.total_length % 256) as u8;

        value[4] = (self.identification / 256) as u8;
        value[5] = (self.identification % 256) as u8;

        value[6] = self.flags_byte();
        value[7] = (self.fragment_offset % 256) as u8;
        value[8] = self.ttl;
        value[9] = self.proto;

        value[10] = (self.checksum / 256) as u8;
        value[11] = (self.checksum % 256) as u8;

        value[12] = (self.source_addr / 0x100_0000) as u8;
        value[13] = (self.source_addr / 0x1_0000 % 256) as u8;
        value[14] = (self.source_addr / 0x100 % 256) as u8;
        value[15] = (self.source_addr % 256) as u8;

        value[16] = (self.dest_addr / 0x100_0000) as u8;
        value[17] = (self.dest_addr / 0x1_0000 % 256) as u8;
        value[18] = (self.dest_addr / 0x100 % 256) as u8;
        value[19] = (self.dest_addr % 256) as u8;

        let mut i: usize = 0;
        while i < self.options.len()
            invariant
                i <= self.options@.len(),
                self.options@.len() == 4 * self@.ihl - 20,
                value@.len() == old(value)@.len(),
                value@.len() >= 4 * self@.ihl,
                forall|j: int| 0 <= j < 20 ==> value@[j] == self@.fixed()[j],
                forall|j: int| 0 <= j < i ==> value@[20 + j] == self.options@[j],
                forall|j: int| 20 + i <= j < value@.len() ==> value@[j] == old(value)@[j],
            decreases self.options@.len() - i,
        {
            value[20 + i] = self.options[i];
            i += 1;
        }
        proof {
            assert(value@ =~= self@.bytes() + old(value)@.skip(4 * self@.ihl));
        }
        self.get_byte_len()
    }

    /// Reads a header from the front of `value`, if it holds one.
    pub fn from_slice(value: &[u8]) -> (r: Option<Ipv4Header>)
        ensures
            match r {
                Some(h) => Ipv4Fields::parse(value@) == Some(h@) && h@.valid(),
                None => Ipv4Fields::parse(value@) is None,
            },
    {
        if value.len() < 20 {
            return None;
        }
        let b0 = value[0];
        let b1 = value[1];
        let b6 = value[6];
        let ihl = b0 & 0x0f;
        proof {
            assert(b0 & 0x0f == b0 % 16) by (bit_vector);
            assert((b0 & 0xf0) >> 4 == b0 / 16) by (bit_vector);
            assert((b1 & 0b1110_0000) >> 5 == b1 / 32) by (bit_vector);
            assert(((b1 & 0b0001_0000) > 0) == (b1 / 16 % 2 == 1)) by (bit_vector);
            assert(((b1 & 0b0000_1000) > 0) == (b1 / 8 % 2 == 1)) by (bit_vector);
            assert(((b1 & 0b0000_0100) > 0) == (b1 / 4 % 2 == 1)) by (bit_vector);
            assert(b1 & 0b0000_0011 == b1 % 4) by (bit_vector);
            assert(((b6 & 0b1000_0000) > 0) == (b6 / 128 == 1)) by (bit_vector);
            assert(((b6 & 0b0100_0000) > 0) == (b6 / 64 % 2 == 1)) by (bit_vector);
            assert(((b6 & 0b0010_0000) > 0) == (b6 / 32 % 2 == 1)) by (bit_vector);
            assert(b6 & 0b0001_1111 == b6 % 32) by (bit_vector);
        }
        if ihl < 5 {
            return None;
        }
        let num_bytes = 4 * ihl as usize;
        if value.len() < num_bytes {
            return None;
        }
        let options = slice_to_vec(slice_subrange(value, 20, num_bytes));
        let header = Ipv4Header {
            version: (b0 & 0xf0) >> 4,
            ihl,
            precedence: (b1 & 0b1110_0000) >> 5,
            delay: (b1 & 0b0001_0000) > 0,
            throughput: (b1 & 0b0000_1000) > 0,
            reliability: (b1 & 0b0000_0100) > 0,
            reserved_0: b1 & 0b0000_0011,
            total_length: value[2] as u16 * 256 + value[3] as u16,
            identification: value[4] as u16 * 256 + value[5] as u16,
            reserved_1: (b6 & 0b1000_0000) > 0,
            dont_fragment: (b6 & 0b0100_0000) > 0,
            more_fragments: (b6 & 0b0010_0000) > 0,
            fragment_offset: (b6 & 0b0001_1111) as u16 * 256 + value[7] as u16,
            ttl: value[8],
            proto: value[9],
            checksum: value[10] as u16 * 256 + value[11] as u16,
            source_addr: value[12] as u32 * 0x100_0000 + value[13] as u32 * 0x1_0000
                + value[14] as u32 * 0x100 + value[15] as u32,
            dest_addr: value[16] as u32 * 0x100_0000 + value[17] as u32 * 0x1_0000
                + value[18] as u32 * 0x100 + value[19] as u32,
            options,
        };
        Some(header)
    }
}

/// The fields of the header that `default` gives, but for the checksum:
/// version 4, five words, twenty bytes in all, 64 hops to live, TCP.
pub open spec fn default_fields() -> Ipv4Fields {
    Ipv4Fields {
        version: 4,
        ihl: 5,
        precedence: 0,
        delay: false,
        throughput: false,
        reliability: false,
        reserved_0: 0,
        total_length: 20,
        identification: 0,
        reserved_1: false,
        dont_fragment: false,
        more_fragments: false,
        fragment_offset: 0,
        ttl: 64,
        proto: 6,
        checksum: 0,
        source_addr: 0,
        dest_addr: 0,
        options: Seq::empty(),
    }
}

impl Default for Ipv4Header {
    fn default() -> (hdr: Ipv4Header)
        ensures
            hdr@ == default_fields().sealed(),
            hdr@.checksum_ok(),
    {
        let mut hdr = Ipv4Header {
            version: 4,
            ihl: 5,
            precedence: 0,
            delay: false,
            throughput: false,
            reliability: false,
            reserved_0: 0,
            total_length: 20,
            identification: 0,
            reserved_1: false,
            dont_fragment: false,
            more_fragments: false,
            fragment_offset: 0,
            ttl: 64,
            proto: 6,
            checksum: 0,
            source_addr: 0,
            dest_addr: 0,
            options: Vec::new(),
        };
        hdr.generate_checksum();
        hdr
    }
}

} // verus!
