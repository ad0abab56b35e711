//! Protocol data units: what a service reads, logs and unwraps.

use super::serialise::Serialise;
use super::text::{append_decimal, decimal};
use vstd::prelude::*;
use vstd::slice::slice_to_vec;

verus! {

/// A protocol data unit: the decoded form of one packet at one layer.
pub trait Pdu: Serialise {
    /// The line that records `action` taken on a unit: the action, a
    /// space, and the unit as text.
    spec fn log_line(v: Self::V, action: Seq<char>) -> Seq<char>;

    /// The line to record for `action` taken on this unit.
    fn log(&self, action: &str) -> (line: String)
        ensures
            line@ == Self::log_line(self@, action@),
    ;
}

/// A unit that carries the bytes of the next layer up.
pub trait Wrapper: View {
    /// The bytes that a unit carries.
    spec fn payload(v: Self::V) -> Seq<u8>;

    /// The bytes that this unit carries.
    fn unwrap_data(&self) -> (bytes: Vec<u8>)
        ensures
            bytes@ == Self::payload(self@),
    ;
}

/// The text that stands for raw bytes in a log: how many there are.
pub open spec fn raw_text(bytes: Seq<u8>) -> Seq<char> {
    decimal(bytes.len() as int) + " bytes"@
}

impl Pdu for Vec<u8> {
    open spec fn log_line(v: Seq<u8>, action: Seq<char>) -> Seq<char> {
        action + " "@ + raw_text(v)
    }

    fn log(&self, action: &str) -> (line: String) {
        let mut line = String::from_str(action);
        line.append(" ");
        append_decimal(&mut line, self.len() as u128);
        line.append(" bytes");
        line
    }
}

impl Wrapper for Vec<u8> {
    open spec fn payload(v: Seq<u8>) -> Seq<u8> {
        v
    }

    fn unwrap_data(&self) -> (bytes: Vec<u8>) {
        slice_to_vec(self.as_slice())
    }
}

} // verus!
