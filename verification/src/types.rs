//! The context in which a call of the trace was made.

use crate::amount::{value_of, Amount};
use crate::decimal::read_i32;
use crate::text::{from_chars, optional_chars};
use crate::trace::context_of;
use vstd::prelude::*;

verus! {

/// What the cheat codes before a call set, and what is sent with the call.
#[derive(Debug)]
pub struct CheatsData {
    pub block_to_roll: i32,
    pub timestamp_to_warp_to: i32,
    pub caller_to_prank: String,
    pub value: Amount,
}

/// The context of a call, as plain values.
pub struct CheatsDataView {
    pub block_to_roll: int,
    pub timestamp_to_warp_to: int,
    pub caller_to_prank: Seq<char>,
    pub value: nat,
}

impl View for CheatsData {
    type V = CheatsDataView;

    open spec fn view(&self) -> CheatsDataView {
        CheatsDataView {
            block_to_roll: self.block_to_roll as int,
            timestamp_to_warp_to: self.timestamp_to_warp_to as int,
            caller_to_prank: self.caller_to_prank@,
            value: self.value@,
        }
    }
}


/// The view of an optional context.
pub open spec fn optional_context(context: Option<CheatsData>) -> Option<CheatsDataView> {
    match context {
        Some(c) => Some(c@),
        None => None,
    }
}

impl CheatsData {
    /// Makes the context of a call from the texts found under `block`, `time`
    /// and `sender` and from the amount read under `value`. All four must be
    /// there, and block and time must each write an `i32`.
    pub fn from_fields(
        block: Option<Vec<char>>,
        time: Option<Vec<char>>,
        sender: Option<Vec<char>>,
        value: Option<Amount>,
    ) -> (r: Option<CheatsData>)
        ensures
            optional_context(r) == context_of(
                optional_chars(block),
                optional_chars(time),
                optional_chars(sender),
                value_of(value),
            ),
    {
        match (block, time, sender, value) {
            (Some(block), Some(time), Some(sender), Some(value)) => {
                match (read_i32(&block), read_i32(&time)) {
                    (Some(block_to_roll), Some(timestamp_to_warp_to)) => Some(
                        CheatsData {
                            block_to_roll,
                            timestamp_to_warp_to,
                            caller_to_prank: from_chars(&sender),
                            value,
                        },
                    ),
                    _ => None,
                }
            },
            _ => None,
        }
    }
}

} // verus!
