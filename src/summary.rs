//! The statistics derived once a run is over: median latency and throughput.
use vstd::prelude::*;
use vstd::relations::{sorted_by, total_ordering};
use vstd::seq_lib::lemma_sorted_unique;
use vstd::slice::slice_to_vec;

use crate::dsl::{DslConfig, HttpMethod};
use crate::metrics::{Metrics, StatusClass};

verus! {

/// The ascending order on latencies.
pub open spec fn leq() -> spec_fn(u64, u64) -> bool {
    |a: u64, b: u64| a <= b
}

/// The latencies of `s`, sorted ascending.
pub open spec fn ascending(s: Seq<u64>) -> Seq<u64> {
    s.sort_by(leq())
}

/// Twice the median of `s`: the sum of the two central latencies for an even
/// count, twice the central one for an odd count, and zero for no latency.
pub open spec fn twice_median(s: Seq<u64>) -> int {
    let t = ascending(s);
    let n = t.len() as int;
    if n == 0 {
        0
    } else if n % 2 == 0 {
        t[n / 2 - 1] + t[n / 2]
    } else {
        2 * t[n / 2]
    }
}

/// A median latency in milliseconds: `millis`, plus half a millisecond where
/// `half` is set (the mean of two central latencies of odd sum).
#[derive(Debug, Clone, Copy, PartialEq, Eq, Structural)]
pub struct Median {
    pub millis: u64,
    pub half: bool,
}

impl Median {
    /// Twice the median, in milliseconds.
    pub open spec fn twice(&self) -> int {
        2 * self.millis + if self.half {
            1int
        } else {
            0int
        }
    }
}

/// Requests per second as a quotient and remainder: the rate is
/// `whole + remainder / seconds` for the seconds it was taken over.
#[derive(Debug, Clone, Copy, PartialEq, Eq, Structural)]
pub struct Rate {
    pub whole: u64,
    pub remainder: u64,
}

/// The final statistics of a run, with what was run.
pub struct Summary {
    pub target_url: String,
    pub http_method: HttpMethod,
    pub duration_secs: u64,
    pub concurrency: u64,
    pub timestamp: String,
    pub total_requests: u64,
    pub successful_requests: u64,
    pub failed_requests: u64,
    pub fastest_response: Option<u64>,
    pub slowest_response: Option<u64>,
    pub median_response_time: Median,
    pub throughput: Rate,
    pub status_counts: Vec<(StatusClass, u64)>,
}

proof fn lemma_leq_total()
    ensures
        total_ordering(leq()),
{
}

/// The median does not depend on the order of the latencies.
pub proof fn lemma_median_ignores_order(s: Seq<u64>, t: Seq<u64>)
    requires
        s.to_multiset() == t.to_multiset(),
    ensures
        twice_median(s) == twice_median(t),
{
    lemma_leq_total();
    s.lemma_sort_by_ensures(leq());
    t.lemma_sort_by_ensures(leq());
    lemma_sorted_unique(ascending(s), ascending(t), leq());
}

/// Relies on `slice::sort_unstable`: it sorts ascending and keeps the elements.
#[verifier::external_body]
fn sort_ascending(v: &mut Vec<u64>)
    ensures
        final(v)@.to_multiset() == old(v)@.to_multiset(),
        sorted_by(final(v)@, leq()),
{
    v.sort_unstable();
}

/// The median of the latencies in `data`, whatever their order.
pub fn calculate_median(data: &[u64]) -> (r: Median)
    ensures
        r.twice() == twice_median(data@),
{
    let mut sorted = slice_to_vec(data);
    sort_ascending(&mut sorted);
    proof {
        lemma_leq_total();
        data@.lemma_sort_by_ensures(leq());
        lemma_sorted_unique(sorted@, ascending(data@), leq());
    }
    let len = sorted.len();
    if len == 0 {
        return Median { millis: 0, half: false };
    }
    if len % 2 == 0 {
        let a = sorted[len / 2 - 1];
        let b = sorted[len / 2];
        let odd = a % 2 + b % 2;
        Median { millis: a / 2 + b / 2 + odd / 2, half: odd == 1 }
    } else {
        Median { millis: sorted[len / 2], half: false }
    }
}

/// Requests per second of `total` requests over `secs` seconds.
pub fn throughput(total: u64, secs: u64) -> (r: Rate)
    requires
        secs > 0,
    ensures
        r.whole * secs + r.remainder == total,
        r.remainder < secs,
{
    let r = Rate { whole: total / secs, remainder: total % secs };
    proof {
        vstd::arithmetic::div_mod::lemma_fundamental_div_mod(total as int, secs as int);
        assert(r.whole * secs == secs * r.whole) by (nonlinear_arith);
    }
    r
}

impl Metrics {
    /// Freezes the statistics of a finished run into its summary, with the
    /// median latency and the throughput over the run's duration.
    pub fn finalize(self, config: &DslConfig, timestamp: String) -> (r: Summary)
        requires
            self.wf(),
            config.duration > 0,
        ensures
            r.target_url@ == config.target@,
            r.http_method == config.method,
            r.duration_secs == config.duration,
            r.concurrency == config.concurrency,
            r.timestamp@ == timestamp@,
            r.total_requests == self.total_requests,
            r.successful_requests == self.successful_requests,
            r.failed_requests == self.failed_requests,
            r.fastest_response == self.fastest_response,
            r.slowest_response == self.slowest_response,
            r.median_response_time.twice() == twice_median(self.samples@),
            r.throughput.whole * config.duration + r.throughput.remainder == self.total_requests,
            r.throughput.remainder < config.duration,
            r.status_counts@ == self.status_counts@,
            self.history@.len() == 0 ==> r.median_response_time == (Median {
                millis: 0,
                half: false,
            }) && r.throughput == (Rate { whole: 0, remainder: 0 }),
    {
        let median = calculate_median(self.samples.as_slice());
        let rate = throughput(self.total_requests, config.duration);
        proof {
            if self.history@.len() == 0 {
                assert(self.samples@.len() == 0);
                assert(ascending(self.samples@).len() == 0) by {
                    self.samples@.lemma_sort_by_ensures(leq());
                    self.samples@.to_multiset_ensures();
                    ascending(self.samples@).to_multiset_ensures();
                }
                if rate.whole > 0 {
                    assert(rate.whole * config.duration >= config.duration) by (nonlinear_arith)
                        requires
                            rate.whole > 0,
                            config.duration > 0,
                    ;
                }
            }
        }
        Summary {
            target_url: config.target.clone(),
            http_method: config.method,
            duration_secs: config.duration,
            concurrency: config.concurrency,
            timestamp,
            total_requests: self.total_requests,
            successful_requests: self.successful_requests,
            failed_requests: self.failed_requests,
            fastest_response: self.fastest_response,
            slowest_response: self.slowest_response,
            median_response_time: median,
            throughput: rate,
            status_counts: self.status_counts,
        }
    }
}

} // verus!
