//! What is left of a canceled query is taken off its connection and thrown away.

use vstd::prelude::*;

verus! {

/// How many results are reported one by one.
pub const REPORTED_RESULTS: u32 = 3;

/// After this many results there is no end in sight.
pub const RESULTS_LIMIT: u32 = 1000;

/// Is the query to be canceled, and what is left of it thrown away? Not without a connection to the server, and not while its
/// rows are being read.
pub fn rust_step_conn_cancel_and_drain(has_conn: bool, connected: bool, streaming: bool) -> (r: bool)
    ensures
        r == (has_conn && connected && !streaming),
{
    has_conn && connected && !streaming
}

/// The results that were thrown away so far.
pub struct Drain {
    pub count: u32,
}

/// What is to be done with a result, besides throwing it away.
#[derive(PartialEq, Eq, Structural, Clone, Copy, Debug)]
pub struct DrainStep {
    /// Report the result.
    pub report: bool,
    /// Give up.
    pub stop: bool,
}

impl Drain {
    /// Nothing was thrown away yet.
    pub fn new() -> (r: Self)
        ensures
            r.count == 0,
    {
        Drain { count: 0 }
    }

    /// Takes one more result. The first three are reported, and after a thousand no more are taken:
    /// whoever stops when told to takes a thousand and one at most.
    pub fn take(&mut self) -> (r: DrainStep)
        requires
            old(self).count <= RESULTS_LIMIT,
        ensures
            final(self).count == old(self).count + 1,
            r.report == (final(self).count <= REPORTED_RESULTS),
            r.stop == (final(self).count > RESULTS_LIMIT),
            final(self).count <= RESULTS_LIMIT + 1,
    {
        self.count = self.count + 1;
        DrainStep { report: self.count <= REPORTED_RESULTS, stop: self.count > RESULTS_LIMIT }
    }

    /// How many results were thrown away, where that is reported: where not each of them was.
    pub fn total(&self) -> (r: Option<u32>)
        ensures
            r == (if self.count > REPORTED_RESULTS {
                Some(self.count)
            } else {
                None
            }),
    {
        if self.count > REPORTED_RESULTS {
            Some(self.count)
        } else {
            None
        }
    }
}

} // verus!
