//! The serialisation contract that every wire entity meets, and its
//! instances for the unsigned integers and for raw bytes.

use super::endian::{
    be_bytes, be_value, lemma_be_bytes_len, lemma_be_bytes_of_value, lemma_be_round_trip,
    lemma_be_value_bound, lemma_radix_values, radix, read_be, write_be,
};
use super::text::{append_decimal, decimal};
use vstd::prelude::*;

verus! {

/// What a `DeserialiseError` says, with its texts as sequences of
/// characters.
pub enum Fault {
    /// Malformed content, with a fixed message.
    Static(Seq<char>),
    /// Malformed content, with a message made for the occasion.
    Heap(Seq<char>),
    /// The buffer is too short: the entity that was being read, the number
    /// of bytes it needs and the number of bytes there were.
    BufferTooSmall(Seq<char>, nat, nat),
}

/// Why a buffer could not be decoded.
#[derive(Debug)]
pub enum DeserialiseError {
    /// Malformed content, with a fixed message.
    Static(&'static str),
    /// Malformed content, with a message made for the occasion.
    Heap(String),
    /// The buffer is too short: the entity that was being read, the number
    /// of bytes it needs and the number of bytes there were.
    BufferTooSmall(&'static str, usize, usize),
}

impl View for DeserialiseError {
    type V = Fault;

    open spec fn view(&self) -> Fault {
        match self {
            DeserialiseError::Static(s) => Fault::Static(s@),
            DeserialiseError::Heap(s) => Fault::Heap(s@),
            DeserialiseError::BufferTooSmall(entity, required, actual) => Fault::BufferTooSmall(
                entity@,
                *required as nat,
                *actual as nat,
            ),
        }
    }
}

impl Fault {
    /// The text of a fault.
    pub open spec fn text(self) -> Seq<char> {
        match self {
            Fault::Static(message) => "failed to deserialise: "@ + message + "."@,
            Fault::Heap(message) => "failed to deserialise: "@ + message + "."@,
            Fault::BufferTooSmall(entity, required, actual) => "failed to deserialise: "@ + entity
                + ": buffer too small (expected "@ + decimal(required as int) + ", actual "@
                + decimal(actual as int) + ")."@,
        }
    }
}

impl DeserialiseError {
    /// The error as text.
    pub fn to_string(&self) -> (s: String)
        ensures
            s@ == self@.text(),
    {
        let mut s = String::from_str("failed to deserialise: ");
        match self {
            DeserialiseError::Static(message) => {
                s.append(message);
                s.append(".");
            },
            DeserialiseError::Heap(message) => {
                s.append(message.as_str());
                s.append(".");
            },
            DeserialiseError::BufferTooSmall(entity, required, actual) => {
                s.append(entity);
                s.append(": buffer too small (expected ");
                append_decimal(&mut s, *required as u128);
                s.append(", actual ");
                append_decimal(&mut s, *actual as u128);
                s.append(").");
            },
        }
        s
    }
}

impl From<&'static str> for DeserialiseError {
    fn from(value: &'static str) -> (e: DeserialiseError) {
        DeserialiseError::Static(value)
    }
}

impl vstd::std_specs::convert::FromSpecImpl<&'static str> for DeserialiseError {
    open spec fn obeys_from_spec() -> bool {
        true
    }

    open spec fn from_spec(value: &'static str) -> DeserialiseError {
        DeserialiseError::Static(value)
    }
}

impl From<String> for DeserialiseError {
    fn from(value: String) -> (e: DeserialiseError) {
        DeserialiseError::Heap(value)
    }
}

impl vstd::std_specs::convert::FromSpecImpl<String> for DeserialiseError {
    open spec fn obeys_from_spec() -> bool {
        true
    }

    open spec fn from_spec(value: String) -> DeserialiseError {
        DeserialiseError::Heap(value)
    }
}

/// A wire entity: a value that knows its length in bytes, writes itself into
/// a buffer and is read back from one.
///
/// `encoding` and `decoding` say, over the views of the values, what the
/// three methods do. A type of this library gives both by functions of its
/// own, `wire` and `decode`, and the specification of an entity that is
/// made of others is written over those: a specification function that
/// named `encoding` or `decoding` of a given type would tie all that the
/// type implements into one knot for the verifier.
pub trait Serialise: View + Sized {
    /// The bytes that stand for a value on the wire.
    spec fn encoding(v: Self::V) -> Seq<u8>;

    /// The value that a buffer holds at its front, or what is wrong with
    /// the buffer.
    spec fn decoding(buf: Seq<u8>) -> Result<Self::V, Fault>;

    /// The exact number of bytes that `serialise` writes.
    fn byte_length(&self) -> (n: usize)
        ensures
            n == Self::encoding(self@).len(),
    ;

    /// Writes the value to the front of `buf`, leaves the rest of `buf` as
    /// it was, and returns the number of bytes written.
    fn serialise(&self, buf: &mut [u8]) -> (n: usize)
        requires
            old(buf)@.len() >= Self::encoding(self@).len(),
        ensures
            n == Self::encoding(self@).len(),
            final(buf)@ == Self::encoding(self@) + old(buf)@.skip(n as int),
    ;

    /// Reads a value from the front of `buf`, without reading past its end.
    fn deserialise(buf: &[u8]) -> (r: Result<Self, DeserialiseError>)
        ensures
            match r {
                Ok(v) => Self::decoding(buf@) == Ok::<Self::V, Fault>(v@),
                Err(e) => Self::decoding(buf@) == Err::<Self::V, Fault>(e@),
            },
    ;
}

/// Writes `field` into `buf` from `index` on and returns the index that
/// follows it, so that fields can be written one after another.
pub fn serialise_field<T: Serialise>(field: &T, index: usize, buf: &mut [u8]) -> (next: usize)
    requires
        index + T::encoding(field@).len() <= old(buf)@.len(),
    ensures
        next == index + T::encoding(field@).len(),
        final(buf)@ == old(buf)@.take(index as int) + T::encoding(field@) + old(buf)@.skip(
            next as int,
        ),
{
    let capacity = buf.len();
    let (head, tail) = buf.split_at_mut(index);
    let ghost tail_before = tail@;
    let n = field.serialise(tail);
    proof {
        assert(tail_before.skip(n as int) =~= old(buf)@.skip(index + n));
        assert(head@ =~= old(buf)@.take(index as int));
        assert(head@ + (T::encoding(field@) + tail_before.skip(n as int)) =~= old(buf)@.take(
            index as int,
        ) + T::encoding(field@) + old(buf)@.skip(index + n));
    }
    assert(index + n <= capacity);
    index + n
}

/// What is left of a buffer from `at` on: nothing, where the buffer ends
/// before.
pub open spec fn tail(buf: Seq<u8>, at: int) -> Seq<u8> {
    if 0 <= at <= buf.len() {
        buf.skip(at)
    } else {
        Seq::empty()
    }
}

/// What is left of `buf` from `at` on: nothing, where `buf` ends before.
pub fn tail_of(buf: &[u8], at: usize) -> (rest: &[u8])
    ensures
        rest@ == tail(buf@, at as int),
{
    let len = buf.len();
    if at <= len {
        vstd::slice::slice_subrange(buf, at, len)
    } else {
        vstd::slice::slice_subrange(buf, len, len)
    }
}

/// What a buffer gives where `width` bytes of a big-endian number are
/// wanted: the number, or the fault of a short buffer.
pub open spec fn decode_uint(entity: Seq<char>, width: nat, buf: Seq<u8>) -> Result<nat, Fault> {
    if buf.len() < width {
        Err(Fault::BufferTooSmall(entity, width, buf.len()))
    } else {
        Ok(be_value(buf.take(width as int)))
    }
}

/// What a buffer gives where an 8-bit number is wanted.
pub open spec fn decode_u8(buf: Seq<u8>) -> Result<u8, Fault> {
    match decode_uint("u8"@, 1, buf) {
        Ok(v) => Ok(v as u8),
        Err(e) => Err(e),
    }
}

/// What a buffer gives where a 16-bit number is wanted.
pub open spec fn decode_u16(buf: Seq<u8>) -> Result<u16, Fault> {
    match decode_uint("u16"@, 2, buf) {
        Ok(v) => Ok(v as u16),
        Err(e) => Err(e),
    }
}

/// What a buffer gives where a 32-bit number is wanted.
pub open spec fn decode_u32(buf: Seq<u8>) -> Result<u32, Fault> {
    match decode_uint("u32"@, 4, buf) {
        Ok(v) => Ok(v as u32),
        Err(e) => Err(e),
    }
}

/// What a buffer gives where a 64-bit number is wanted.
pub open spec fn decode_u64(buf: Seq<u8>) -> Result<u64, Fault> {
    match decode_uint("u64"@, 8, buf) {
        Ok(v) => Ok(v as u64),
        Err(e) => Err(e),
    }
}

/// What a buffer gives where a 128-bit number is wanted.
pub open spec fn decode_u128(buf: Seq<u8>) -> Result<u128, Fault> {
    match decode_uint("u128"@, 16, buf) {
        Ok(v) => Ok(v as u128),
        Err(e) => Err(e),
    }
}

impl Serialise for u8 {
    open spec fn encoding(v: u8) -> Seq<u8> {
        be_bytes(v as nat, 1)
    }

    open spec fn decoding(buf: Seq<u8>) -> Result<u8, Fault> {
        decode_u8(buf)
    }

    fn byte_length(&self) -> (n: usize)
        ensures
            n == 1,
    {
        proof {
            lemma_be_bytes_len(*self as nat, 1);
        }
        1
    }

    fn serialise(&self, buf: &mut [u8]) -> (n: usize)
        ensures
            n == 1,
    {
        proof {
            lemma_be_bytes_len(*self as nat, 1);
        }
        write_be(buf, *self as u128, 1);
        1
    }

    fn deserialise(buf: &[u8]) -> (r: Result<u8, DeserialiseError>) {
        if buf.len() < 1 {
            Err(DeserialiseError::BufferTooSmall("u8", 1, buf.len()))
        } else {
            proof {
                lemma_be_value_bound(buf@.take(1));
                lemma_radix_values();
            }
            Ok(read_be(buf, 1) as u8)
        }
    }
}

impl Serialise for u16 {
    open spec fn encoding(v: u16) -> Seq<u8> {
        be_bytes(v as nat, 2)
    }

    open spec fn decoding(buf: Seq<u8>) -> Result<u16, Fault> {
        decode_u16(buf)
    }

    fn byte_length(&self) -> (n: usize)
        ensures
            n == 2,
    {
        proof {
            lemma_be_bytes_len(*self as nat, 2);
        }
        2
    }

    fn serialise(&self, buf: &mut [u8]) -> (n: usize)
        ensures
            n == 2,
    {
        proof {
            lemma_be_bytes_len(*self as nat, 2);
        }
        write_be(buf, *self as u128, 2);
        2
    }

    fn deserialise(buf: &[u8]) -> (r: Result<u16, DeserialiseError>) {
        if buf.len() < 2 {
            Err(DeserialiseError::BufferTooSmall("u16", 2, buf.len()))
        } else {
            proof {
                lemma_be_value_bound(buf@.take(2));
                lemma_radix_values();
            }
            Ok(read_be(buf, 2) as u16)
        }
    }
}

impl Serialise for u32 {
    open spec fn encoding(v: u32) -> Seq<u8> {
        be_bytes(v as nat, 4)
    }

    open spec fn decoding(buf: Seq<u8>) -> Result<u32, Fault> {
        decode_u32(buf)
    }

    fn byte_length(&self) -> (n: usize)
        ensures
            n == 4,
    {
        proof {
            lemma_be_bytes_len(*self as nat, 4);
        }
        4
    }

    fn serialise(&self, buf: &mut [u8]) -> (n: usize)
        ensures
            n == 4,
    {
        proof {
            lemma_be_bytes_len(*self as nat, 4);
        }
        write_be(buf, *self as u128, 4);
        4
    }

    fn deserialise(buf: &[u8]) -> (r: Result<u32, DeserialiseError>) {
        if buf.len() < 4 {
            Err(DeserialiseError::BufferTooSmall("u32", 4, buf.len()))
        } else {
            proof {
                lemma_be_value_bound(buf@.take(4));
                lemma_radix_values();
            }
            Ok(read_be(buf, 4) as u32)
        }
    }
}

impl Serialise for u64 {
    open spec fn encoding(v: u64) -> Seq<u8> {
        be_bytes(v as nat, 8)
    }

    open spec fn decoding(buf: Seq<u8>) -> Result<u64, Fault> {
        decode_u64(buf)
    }

    fn byte_length(&self) -> (n: usize)
        ensures
            n == 8,
    {
        proof {
            lemma_be_bytes_len(*self as nat, 8);
        }
        8
    }

    fn serialise(&self, buf: &mut [u8]) -> (n: usize)
        ensures
            n == 8,
    {
        proof {
            lemma_be_bytes_len(*self as nat, 8);
        }
        write_be(buf, *self as u128, 8);
        8
    }

    fn deserialise(buf: &[u8]) -> (r: Result<u64, DeserialiseError>) {
        if buf.len() < 8 {
            Err(DeserialiseError::BufferTooSmall("u64", 8, buf.len()))
        } else {
            proof {
                lemma_be_value_bound(buf@.take(8));
                lemma_radix_values();
            }
            Ok(read_be(buf, 8) as u64)
        }
    }
}

impl Serialise for u128 {
    open spec fn encoding(v: u128) -> Seq<u8> {
        be_bytes(v as nat, 16)
    }

    open spec fn decoding(buf: Seq<u8>) -> Result<u128, Fault> {
        decode_u128(buf)
    }

    fn byte_length(&self) -> (n: usize)
        ensures
            n == 16,
    {
        proof {
            lemma_be_bytes_len(*self as nat, 16);
        }
        16
    }

    fn serialise(&self, buf: &mut [u8]) -> (n: usize)
        ensures
            n == 16,
    {
        proof {
            lemma_be_bytes_len(*self as nat, 16);
        }
        write_be(buf, *self, 16);
        16
    }

    fn deserialise(buf: &[u8]) -> (r: Result<u128, DeserialiseError>) {
        if buf.len() < 16 {
            Err(DeserialiseError::BufferTooSmall("u128", 16, buf.len()))
        } else {
            Ok(read_be(buf, 16))
        }
    }
}

/// Copies `bytes` to the front of `buf`.
pub fn copy_bytes(bytes: &[u8], buf: &mut [u8]) -> (n: usize)
    requires
        bytes@.len() <= old(buf)@.len(),
    ensures
        n == bytes@.len(),
        final(buf)@ == bytes@ + old(buf)@.skip(n as int),
{
    let len = bytes.len();
    let mut i: usize = 0;
    while i < len
        invariant
            i <= len == bytes@.len() <= buf@.len(),
            buf@.len() == old(buf)@.len(),
            forall|j: int| 0 <= j < i ==> buf@[j] == bytes@[j],
            forall|j: int| i <= j < buf@.len() ==> buf@[j] == old(buf)@[j],
        decreases len - i,
    {
        buf[i] = bytes[i];
        i += 1;
    }
    assert(buf@ =~= bytes@ + old(buf)@.skip(len as int));
    len
}

/// The message of the fault that reading raw bytes gives: they have no
/// length of their own, so the entity that holds them has to cut them out.
pub open spec fn raw_bytes_fault() -> Fault {
    Fault::Static("raw bytes carry no length of their own"@)
}

impl<'a> Serialise for &'a [u8] {
    open spec fn encoding(v: Seq<u8>) -> Seq<u8> {
        v
    }

    open spec fn decoding(buf: Seq<u8>) -> Result<Seq<u8>, Fault> {
        Err(raw_bytes_fault())
    }

    fn byte_length(&self) -> (n: usize) {
        self.len()
    }

    fn serialise(&self, buf: &mut [u8]) -> (n: usize) {
        copy_bytes(self, buf)
    }

    fn deserialise(buf: &[u8]) -> (r: Result<&'a [u8], DeserialiseError>) {
        Err(DeserialiseError::Static("raw bytes carry no length of their own"))
    }
}

impl Serialise for Vec<u8> {
    open spec fn encoding(v: Seq<u8>) -> Seq<u8> {
        v
    }

    open spec fn decoding(buf: Seq<u8>) -> Result<Seq<u8>, Fault> {
        Err(raw_bytes_fault())
    }

    fn byte_length(&self) -> (n: usize) {
        self.len()
    }

    fn serialise(&self, buf: &mut [u8]) -> (n: usize) {
        copy_bytes(self.as_slice(), buf)
    }

    fn deserialise(buf: &[u8]) -> (r: Result<Vec<u8>, DeserialiseError>) {
        Err(DeserialiseError::Static("raw bytes carry no length of their own"))
    }
}

/// A number written at `width` bytes and read back, whatever follows it in
/// the buffer, is the number.
pub proof fn lemma_uint_round_trip(entity: Seq<char>, v: nat, width: nat, rest: Seq<u8>)
    requires
        v < radix(width),
    ensures
        be_bytes(v, width).len() == width,
        decode_uint(entity, width, be_bytes(v, width) + rest) == Ok::<nat, Fault>(v),
{
    lemma_be_bytes_len(v, width);
    lemma_be_round_trip(v, width);
    assert((be_bytes(v, width) + rest).take(width as int) =~= be_bytes(v, width));
}

/// What is read as a number of `width` bytes is below `radix(width)`, and
/// its bytes are the front of the buffer.
pub proof fn lemma_uint_decoded(entity: Seq<char>, width: nat, buf: Seq<u8>)
    requires
        decode_uint(entity, width, buf) is Ok,
    ensures
        decode_uint(entity, width, buf)->Ok_0 < radix(width),
        be_bytes(decode_uint(entity, width, buf)->Ok_0, width) == buf.take(width as int),
{
    lemma_be_value_bound(buf.take(width as int));
    lemma_be_bytes_of_value(buf.take(width as int));
}

/// A `u8` that is serialised and deserialised, whatever follows it in the
/// buffer, is as it was.
pub proof fn lemma_u8_round_trip(v: u8, rest: Seq<u8>)
    ensures
        u8::encoding(v).len() == 1,
        u8::decoding(u8::encoding(v) + rest) == Ok::<u8, Fault>(v),
{
    lemma_radix_values();
    lemma_uint_round_trip("u8"@, v as nat, 1, rest);
}

/// A `u16` that is serialised and deserialised, whatever follows it in the
/// buffer, is as it was.
pub proof fn lemma_u16_round_trip(v: u16, rest: Seq<u8>)
    ensures
        u16::encoding(v).len() == 2,
        u16::decoding(u16::encoding(v) + rest) == Ok::<u16, Fault>(v),
{
    lemma_radix_values();
    lemma_uint_round_trip("u16"@, v as nat, 2, rest);
}

/// A `u32` that is serialised and deserialised, whatever follows it in the
/// buffer, is as it was.
pub proof fn lemma_u32_round_trip(v: u32, rest: Seq<u8>)
    ensures
        u32::encoding(v).len() == 4,
        u32::decoding(u32::encoding(v) + rest) == Ok::<u32, Fault>(v),
{
    lemma_radix_values();
    lemma_uint_round_trip("u32"@, v as nat, 4, rest);
}

/// A `u64` that is serialised and deserialised, whatever follows it in the
/// buffer, is as it was.
pub proof fn lemma_u64_round_trip(v: u64, rest: Seq<u8>)
    ensures
        u64::encoding(v).len() == 8,
        u64::decoding(u64::encoding(v) + rest) == Ok::<u64, Fault>(v),
{
    lemma_radix_values();
    lemma_uint_round_trip("u64"@, v as nat, 8, rest);
}

/// A `u128` that is serialised and deserialised, whatever follows it in the
/// buffer, is as it was.
pub proof fn lemma_u128_round_trip(v: u128, rest: Seq<u8>)
    ensures
        u128::encoding(v).len() == 16,
        u128::decoding(u128::encoding(v) + rest) == Ok::<u128, Fault>(v),
{
    lemma_radix_values();
    lemma_uint_round_trip("u128"@, v as nat, 16, rest);
}

} // verus!
