//! Trying again after the link to the server broke.

use vstd::prelude::*;

verus! {

/// Failure.
pub const SQLITE_ERROR: i32 = 1;

/// What a thread keeps between two tries: how often it has tried again, and whether the link to the
/// server was what failed.
#[derive(Clone, Copy, Debug, PartialEq, Eq, Structural)]
pub struct RetryState {
    pub retry_count: usize,
    pub conn_error: bool,
}

/// Is there to be another try, and how many milliseconds are to pass before it?
pub open spec fn another_try(s: RetryState, rc: i32, delays: Seq<i32>) -> Option<nat> {
    if rc == SQLITE_ERROR && s.retry_count < delays.len() && s.conn_error {
        let d = delays[s.retry_count as int];
        Some(
            if d < 0 {
                0
            } else {
                d as nat
            },
        )
    } else {
        None
    }
}

/// What the thread keeps after the decision.
pub open spec fn decided(s: RetryState, rc: i32, delays: Seq<i32>) -> RetryState {
    if another_try(s, rc, delays) is Some {
        RetryState { retry_count: (s.retry_count + 1) as usize, conn_error: false }
    } else {
        RetryState { retry_count: 0, ..s }
    }
}

impl RetryState {
    /// No try was made.
    pub fn new() -> (r: Self)
        ensures
            r == (RetryState { retry_count: 0, conn_error: false }),
    {
        RetryState { retry_count: 0, conn_error: false }
    }

    /// Decides after a try that ended with `rc`: only where the link failed, and while the list of
    /// waits lasts, there is another one, after the wait in milliseconds that is returned. Otherwise
    /// counting starts anew.
    pub fn decide(&mut self, rc: i32, delays: &Vec<i32>) -> (r: Option<u32>)
        ensures
            *final(self) == decided(*old(self), rc, delays@),
            match another_try(*old(self), rc, delays@) {
                Some(ms) => r == Some(ms as u32) && r->0 == ms,
                None => r is None,
            },
    {
        if rc == SQLITE_ERROR && self.retry_count < delays.len() && self.conn_error {
            let delay: i32 = delays[self.retry_count];
            self.conn_error = false;
            self.retry_count = self.retry_count + 1;
            Some(
                if delay < 0 {
                    0
                } else {
                    delay as u32
                },
            )
        } else {
            self.retry_count = 0;
            None
        }
    }
}

/// What the thread keeps once a try has failed because the link did.
pub open spec fn link_failed(s: RetryState) -> RetryState {
    RetryState { conn_error: true, ..s }
}

/// What the thread keeps after so many tries in a row that failed because the link did, each with
/// its decision.
pub open spec fn after_failures(s: RetryState, m: nat, delays: Seq<i32>) -> RetryState
    decreases m,
{
    if m == 0 {
        s
    } else {
        decided(
            link_failed(after_failures(s, (m - 1) as nat, delays)),
            SQLITE_ERROR,
            delays,
        )
    }
}

/// Tries that fail because the link does, one after the other, are followed by the waits of the
/// list in their order, and after the last wait by no other try; then counting starts anew.
pub proof fn law_waits_in_order(s: RetryState, m: nat, delays: Seq<i32>)
    requires
        s.retry_count == 0,
        m <= delays.len() <= usize::MAX,
    ensures
        after_failures(s, m, delays).retry_count == m,
        another_try(link_failed(after_failures(s, m, delays)), SQLITE_ERROR, delays) == if m
            < delays.len() {
            Some(
                if delays[m as int] < 0 {
                    0nat
                } else {
                    delays[m as int] as nat
                },
            )
        } else {
            None
        },
        m == delays.len() ==> after_failures(s, m + 1, delays).retry_count == 0,
    decreases m,
{
    if m > 0 {
        law_waits_in_order(s, (m - 1) as nat, delays);
    }
}

/// A try that did not fail because of the link is followed by no other, and counting starts anew.
pub proof fn law_only_the_link_is_retried(s: RetryState, rc: i32, delays: Seq<i32>)
    requires
        rc != SQLITE_ERROR || !s.conn_error,
    ensures
        another_try(s, rc, delays) is None,
        decided(s, rc, delays) == (RetryState { retry_count: 0, ..s }),
{
}

} // verus!
