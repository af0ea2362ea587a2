//! What the profiler passes around: samples, and the report made of them.

use crate::text::{decimal_text, hex_text, push_decimal, push_hex};
use vstd::prelude::*;

verus! {

/// A single sample of the measured event.
#[derive(Debug, Clone, Copy)]
pub struct Sample {
    /// Accumulated counter value at the time of the sample.
    pub value: u64,
    /// Process the sample was taken from.
    pub pid: i32,
    /// Milliseconds since the session started.
    pub timestamp: u64,
    /// Program counter of the process when sampled; 0 when the probe failed.
    pub instruction_pointer: u64,
}

/// The number `n` in decimal, with `-` before a negative one.
pub open spec fn signed_text(n: int) -> Seq<char> {
    if n < 0 {
        "-"@ + decimal_text((-n) as nat)
    } else {
        decimal_text(n as nat)
    }
}

/// A sample as a line of text:
/// `Sample { ts: <timestamp>, pid: <pid>, val: <value>, ip: 0x<hex> }`.
pub open spec fn sample_text(sample: Sample) -> Seq<char> {
    "Sample { ts: "@ + decimal_text(sample.timestamp as nat) + ", pid: "@ + signed_text(
        sample.pid as int,
    ) + ", val: "@ + decimal_text(sample.value as nat) + ", ip: 0x"@ + hex_text(
        sample.instruction_pointer as nat,
    ) + " }"@
}

impl Sample {
    /// The sample as a line of text.
    pub fn describe(&self) -> (text: String)
        ensures
            text@ == sample_text(*self),
    {
        let mut text = String::from_str("Sample { ts: ");
        push_decimal(&mut text, self.timestamp);
        text.append(", pid: ");
        if self.pid < 0 {
            text.append("-");
            push_decimal(&mut text, (-(self.pid as i64)) as u64);
        } else {
            push_decimal(&mut text, self.pid as u64);
        }
        text.append(", val: ");
        push_decimal(&mut text, self.value);
        text.append(", ip: 0x");
        push_hex(&mut text, self.instruction_pointer);
        text.append(" }");
        assert(text@ =~= sample_text(*self));
        text
    }
}

/// A share of a whole, kept exact: `part` out of `whole`, which is
/// `part / whole × 100` percent.
#[derive(Debug, Clone, Copy)]
pub struct Percentage {
    pub part: usize,
    pub whole: usize,
}

/// How often one function was sampled.
#[derive(Debug, Clone)]
pub struct FunctionStats {
    /// The function, or the name that stands for an unresolved address.
    pub name: String,
    /// Number of samples that fell into it.
    pub count: usize,
    /// Its share of all samples.
    pub percentage: Percentage,
}

/// Where the samples of a session fell.
#[derive(Debug)]
pub struct Report {
    /// Number of samples.
    pub total_samples: usize,
    /// One entry per function, those sampled most often first.
    pub stats: Vec<FunctionStats>,
    /// The names under which samples were counted.
    pub folded_stacks: Vec<String>,
}

} // verus!
