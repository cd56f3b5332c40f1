//! The text of the error that a bitmap gives for an index outside its capacity.
use crate::digits::{decimal_string, decimal_text};
use vstd::prelude::*;
use vstd::string::StringExecFns;

verus! {

/// How the message for a failed read begins.
pub open spec fn get_prefix() -> Seq<char> {
    "Tried to get bit that's out of range of the bitmap (range: "@
}

/// How the message for a failed write begins.
pub open spec fn set_prefix() -> Seq<char> {
    "Tried to set bit that's out of range of the bitmap (range: "@
}

/// The message for an access at `index` to a bitmap of `range` bits: the prefix, the
/// range, the index, and a closing bracket.
pub open spec fn out_of_range_text(prefix: Seq<char>, range: usize, index: usize) -> Seq<char> {
    prefix + decimal_text(range as nat) + ", index: "@ + decimal_text(index as nat) + ")"@
}

/// Builds the message for an access at `index` to a bitmap of `range` bits.
pub fn out_of_range_message(prefix: &str, range: usize, index: usize) -> (message: String)
    ensures
        message@ == out_of_range_text(prefix@, range, index),
{
    let mut message = String::from_str(prefix);
    message.append(decimal_string(range as u128).as_str());
    message.append(", index: ");
    message.append(decimal_string(index as u128).as_str());
    message.append(")");
    message
}

/// The error of a read at `index` from a bitmap of `range` bits.
pub fn get_out_of_range(range: usize, index: usize) -> (message: String)
    ensures
        message@ == out_of_range_text(get_prefix(), range, index),
{
    out_of_range_message(
        "Tried to get bit that's out of range of the bitmap (range: ",
        range,
        index,
    )
}

/// The error of a write at `index` to a bitmap of `range` bits.
pub fn set_out_of_range(range: usize, index: usize) -> (message: String)
    ensures
        message@ == out_of_range_text(set_prefix(), range, index),
{
    out_of_range_message(
        "Tried to set bit that's out of range of the bitmap (range: ",
        range,
        index,
    )
}

} // verus!
