//! A layer: a wire entity that carries another as its payload.

use super::serialise::Serialise;
use vstd::prelude::*;

verus! {

/// A wire entity that carries the bytes of another as its payload.
pub trait Layer: Serialise {
    /// Whether the entity can take `payload`: with it, its length on the
    /// wire is still a number that the machine can hold.
    spec fn takes(v: Self::V, payload: Seq<u8>) -> bool;

    /// The entity with `payload` in place of its payload.
    spec fn with_payload(v: Self::V, payload: Seq<u8>) -> Self::V;

    /// Puts the bytes of `data` in place of the payload.
    fn wrap<S: Serialise>(&mut self, data: &S)
        requires
            Self::takes(old(self)@, S::encoding(data@)),
        ensures
            final(self)@ == Self::with_payload(old(self)@, S::encoding(data@)),
    ;
}

} // verus!
