//! A load-generation engine: a chunk planner that parcels a byte budget into
//! block sizes, payload serializers, a pre-built block cache, and the state
//! machine of a rate-governed TCP emission loop.

pub mod block;
pub mod cli;
pub mod generator;
pub mod payload;

use vstd::prelude::*;

verus! {

/// Count of newline bytes in a byte sequence.
pub open spec fn count_newlines(s: Seq<u8>) -> nat
    decreases s.len(),
{
    if s.len() == 0 {
        0
    } else {
        count_newlines(s.drop_last()) + (if s.last() == 10u8 { 1nat } else { 0nat })
    }
}

} // verus!
