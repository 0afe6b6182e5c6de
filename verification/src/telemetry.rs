//! A memory-usage sample and its wire encoding, verified down to the
//! characters: what the profiling loop sends over its socket once a
//! second. Reading the process and shipping the text stay with the
//! caller.

use vstd::prelude::*;
use vstd::string::StringExecFns;

use crate::textfmt::{dec_digits, format_u64};

verus! {

/// One sample of a process's memory use at a point in time.
pub struct MemDataPoint {
    pub timestamp: u64,
    pub memory_kb: u64,
}

/// The exact JSON text for a sample: both fields as bare decimal numbers.
pub open spec fn mem_data_point_json(timestamp: u64, memory_kb: u64) -> Seq<char> {
    "{\"timestamp\":"@ + dec_digits(timestamp as int) + ",\"memory_kb\":"@ + dec_digits(
        memory_kb as int,
    ) + "}"@
}

impl MemDataPoint {
    /// Encodes the sample as its JSON text.
    pub fn to_json(&self) -> (r: String)
        ensures
            r@ == mem_data_point_json(self.timestamp, self.memory_kb),
    {
        let mut s = String::from_str("{\"timestamp\":");
        let t = format_u64(self.timestamp);
        s.append(t.as_str());
        s.append(",\"memory_kb\":");
        let m = format_u64(self.memory_kb);
        s.append(m.as_str());
        s.append("}");
        s
    }
}

} // verus!
