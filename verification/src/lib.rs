//! Verified core of a Gowin toolchain automation server: a bounded-output
//! process execution result model, heuristics that recover programming-cable
//! names from free-form toolchain output, and the retry protocols that drive
//! cable enumeration and device programming.

use vstd::prelude::*;

pub mod heuristics;
pub mod process;
pub mod program;
pub mod resolve;

verus! {

/// Byte ceiling on each captured output stream (10 MiB).
pub const MAX_OUTPUT_BYTES: usize = 10485760;

/// Truncates captured stream data to the output ceiling: the result is the
/// longest prefix of the input that fits under `MAX_OUTPUT_BYTES`.
pub fn cap_output(mut data: Vec<u8>) -> (r: Vec<u8>)
    ensures
        r@ == data@.take(if data@.len() <= MAX_OUTPUT_BYTES as int {
            data@.len() as int
        } else {
            MAX_OUTPUT_BYTES as int
        }),
{
    if data.len() > MAX_OUTPUT_BYTES {
        data.truncate(MAX_OUTPUT_BYTES);
    }
    proof {
        assert(data@ == data@.take(data@.len() as int));
    }
    data
}

} // verus!
