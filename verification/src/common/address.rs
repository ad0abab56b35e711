//! Addresses of a fixed width.

use super::serialise::Serialise;
use vstd::prelude::*;

verus! {

/// An address: a byte string of a length that its type fixes, which goes
/// onto the wire as it stands.
pub trait Address: Serialise {
    /// The number of bytes of every address of this type.
    const BYTE_LENGTH: usize;

    /// The bytes of the address.
    fn bytes(&self) -> (b: &[u8])
        ensures
            b@ == Self::encoding(self@),
            b@.len() == Self::BYTE_LENGTH,
    ;
}

/// What a buffer gives where an address of `width` bytes is wanted: its
/// first `width` bytes, or the fault of a short buffer.
pub open spec fn decode_address(entity: Seq<char>, width: nat, buf: Seq<u8>) -> Result<
    Seq<u8>,
    super::serialise::Fault,
> {
    if buf.len() < width {
        Err(super::serialise::Fault::BufferTooSmall(entity, width, buf.len()))
    } else {
        Ok(buf.take(width as int))
    }
}

} // verus!
