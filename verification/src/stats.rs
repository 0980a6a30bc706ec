//! The counters of the server, and the report made of them.
use vstd::prelude::*;
use vstd::string::StringExecFns;
use crate::text::{decimal, push_decimal};

verus! {

/// The counters: how many requests were answered, and how many
/// microseconds that took in all. Both count modulo 2^64.
pub struct Stats {
    total_requests: u64,
    total_request_time: u64,
}

/// The sum of two counts, modulo 2^64.
pub open spec fn wrapped_sum(a: u64, b: u64) -> u64 {
    if a + b > u64::MAX {
        (a + b - 0x1_0000_0000_0000_0000) as u64
    } else {
        (a + b) as u64
    }
}

/// The mean time of a request, rounded down: the total time divided by the
/// number of requests, or by one where there were none.
pub open spec fn average(total_requests: u64, total_request_time: u64) -> nat {
    if total_requests > 0 {
        total_request_time as nat / total_requests as nat
    } else {
        total_request_time as nat
    }
}

/// The report, one line of text.
pub open spec fn report(total_requests: u64, total_request_time: u64) -> Seq<char> {
    "total_requests: "@ + decimal(total_requests as nat) + ", total_request_time: "@ + decimal(
        total_request_time as nat,
    ) + " \u{3bc}s, avg_request_time: "@ + decimal(average(total_requests, total_request_time))
        + " \u{3bc}s"@
}

impl Stats {
    /// The number of requests answered.
    pub closed spec fn total_requests(&self) -> u64 {
        self.total_requests
    }

    /// The time that the requests took in all, in microseconds.
    pub closed spec fn total_request_time(&self) -> u64 {
        self.total_request_time
    }

    /// Makes counters that stand at zero.
    pub fn new() -> (stats: Stats)
        ensures
            stats.total_requests() == 0,
            stats.total_request_time() == 0,
    {
        Stats { total_requests: 0, total_request_time: 0 }
    }

    /// Counts one request.
    pub fn incr_total_requests(&mut self)
        ensures
            final(self).total_requests() == wrapped_sum(old(self).total_requests(), 1),
            final(self).total_request_time() == old(self).total_request_time(),
    {
        self.total_requests = self.total_requests.wrapping_add(1);
    }

    /// Adds the time that a request took, in microseconds.
    pub fn add_request_time(&mut self, micros: usize)
        ensures
            final(self).total_request_time() == wrapped_sum(
                old(self).total_request_time(),
                micros as u64,
            ),
            final(self).total_requests() == old(self).total_requests(),
    {
        self.total_request_time = self.total_request_time.wrapping_add(micros as u64);
    }

    /// Makes the report of the counters.
    pub fn get_stats(&self) -> (s: String)
        ensures
            s@ == report(self.total_requests(), self.total_request_time()),
    {
        let avg_request_time = if self.total_requests > 0 {
            self.total_request_time / self.total_requests
        } else {
            self.total_request_time
        };
        let mut s = String::from_str("total_requests: ");
        push_decimal(&mut s, self.total_requests);
        s.append(", total_request_time: ");
        push_decimal(&mut s, self.total_request_time);
        s.append(" \u{3bc}s, avg_request_time: ");
        push_decimal(&mut s, avg_request_time);
        s.append(" \u{3bc}s");
        s
    }
}

impl Default for Stats {
    fn default() -> (stats: Stats)
        ensures
            stats.total_requests() == 0,
            stats.total_request_time() == 0,
    {
        Stats::new()
    }
}

/// The count of requests does not go down, and each request counts once,
/// short of 2^64 requests.
pub proof fn lemma_count_grows(before: u64)
    requires
        before < u64::MAX,
    ensures
        wrapped_sum(before, 1) == before + 1,
        wrapped_sum(before, 1) > before,
{
}

} // verus!
