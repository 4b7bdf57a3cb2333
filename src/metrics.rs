//! The shared running statistics of a run, updated once per completed request.
use vstd::prelude::*;
use vstd::string::StringExecFns;

verus! {

/// How one request attempt ended: an HTTP status, or a failure of the transport.
#[derive(Debug, Clone, Copy, PartialEq, Eq, Structural)]
pub enum StatusClass {
    Code(u16),
    TransportError,
}

/// One completed request attempt: its status and its latency in milliseconds.
#[derive(Debug, Clone, Copy, PartialEq, Eq, Structural)]
pub struct Outcome {
    pub status: StatusClass,
    pub elapsed_ms: u64,
}

/// The character of a decimal digit.
pub open spec fn digit_char(d: int) -> char {
    if d == 0 {
        '0'
    } else if d == 1 {
        '1'
    } else if d == 2 {
        '2'
    } else if d == 3 {
        '3'
    } else if d == 4 {
        '4'
    } else if d == 5 {
        '5'
    } else if d == 6 {
        '6'
    } else if d == 7 {
        '7'
    } else if d == 8 {
        '8'
    } else {
        '9'
    }
}

/// The decimal digits of `n`, most significant first, without leading zeros.
pub open spec fn decimal(n: nat) -> Seq<char>
    decreases n,
{
    if n < 10 {
        seq![digit_char(n as int)]
    } else {
        decimal(n / 10).push(digit_char((n % 10) as int))
    }
}

/// The label under which the status table reports a status: the code in
/// decimal, or `REQUEST_ERROR` for a transport failure.
pub open spec fn status_label(k: StatusClass) -> Seq<char> {
    match k {
        StatusClass::Code(c) => decimal(c as nat),
        StatusClass::TransportError => "REQUEST_ERROR"@,
    }
}

fn digit_text(d: u16) -> (r: &'static str)
    requires
        d < 10,
    ensures
        r@ == seq![digit_char(d as int)],
{
    if d == 0 {
        proof { reveal_strlit("0"); }
        "0"
    } else if d == 1 {
        proof { reveal_strlit("1"); }
        "1"
    } else if d == 2 {
        proof { reveal_strlit("2"); }
        "2"
    } else if d == 3 {
        proof { reveal_strlit("3"); }
        "3"
    } else if d == 4 {
        proof { reveal_strlit("4"); }
        "4"
    } else if d == 5 {
        proof { reveal_strlit("5"); }
        "5"
    } else if d == 6 {
        proof { reveal_strlit("6"); }
        "6"
    } else if d == 7 {
        proof { reveal_strlit("7"); }
        "7"
    } else if d == 8 {
        proof { reveal_strlit("8"); }
        "8"
    } else {
        proof { reveal_strlit("9"); }
        "9"
    }
}

/// The decimal text of `n`.
pub fn decimal_text(n: u16) -> (r: String)
    ensures
        r@ == decimal(n as nat),
    decreases n,
{
    if n < 10 {
        String::from_str(digit_text(n))
    } else {
        let mut s = decimal_text(n / 10);
        s.append(digit_text(n % 10));
        s
    }
}

impl StatusClass {
    /// The label of this status in a report.
    pub fn label(&self) -> (r: String)
        ensures
            r@ == status_label(*self),
    {
        match self {
            StatusClass::Code(c) => decimal_text(*c),
            StatusClass::TransportError => String::from_str("REQUEST_ERROR"),
        }
    }
}

/// The sum of `g` over the outcomes of `h`.
pub open spec fn sum_by(h: Seq<Outcome>, g: spec_fn(Outcome) -> int) -> int
    decreases h.len(),
{
    if h.len() == 0 {
        0
    } else {
        sum_by(h.drop_last(), g) + g(h.last())
    }
}

/// How many outcomes of `h` have the status `k`.
pub open spec fn count_where(h: Seq<Outcome>, k: StatusClass) -> int {
    sum_by(h, |o: Outcome| if o.status == k { 1int } else { 0int })
}

/// How many outcomes of `h` got an HTTP status back.
pub open spec fn successes(h: Seq<Outcome>) -> int {
    sum_by(h, |o: Outcome| if o.status is Code { 1int } else { 0int })
}

/// How many outcomes of `h` failed at the transport.
pub open spec fn failures(h: Seq<Outcome>) -> int {
    count_where(h, StatusClass::TransportError)
}

/// The sum of the latencies of `h`.
pub open spec fn latency_sum(h: Seq<Outcome>) -> int {
    sum_by(h, |o: Outcome| o.elapsed_ms as int)
}

/// The latencies of `h`, in the order they were recorded.
pub open spec fn latencies(h: Seq<Outcome>) -> Seq<u64> {
    h.map_values(|o: Outcome| o.elapsed_ms)
}

/// `x` is the least latency of `h`.
pub open spec fn is_fastest(x: u64, h: Seq<Outcome>) -> bool {
    &&& exists|i: int| 0 <= i < h.len() && #[trigger] h[i].elapsed_ms == x
    &&& forall|i: int| 0 <= i < h.len() ==> x <= #[trigger] h[i].elapsed_ms
}

/// `x` is the greatest latency of `h`.
pub open spec fn is_slowest(x: u64, h: Seq<Outcome>) -> bool {
    &&& exists|i: int| 0 <= i < h.len() && #[trigger] h[i].elapsed_ms == x
    &&& forall|i: int| 0 <= i < h.len() ==> #[trigger] h[i].elapsed_ms <= x
}

/// The count that a status table holds for `k`, zero where `k` has no entry.
pub open spec fn entry_count(v: Seq<(StatusClass, u64)>, k: StatusClass) -> int
    decreases v.len(),
{
    if v.len() == 0 {
        0
    } else if v.last().0 == k {
        v.last().1 as int
    } else {
        entry_count(v.drop_last(), k)
    }
}

/// No status has two entries in the table.
pub open spec fn keys_distinct(v: Seq<(StatusClass, u64)>) -> bool {
    forall|i: int, j: int| 0 <= i < j < v.len() ==> #[trigger] v[i].0 != #[trigger] v[j].0
}

proof fn lemma_sum_by_push(h: Seq<Outcome>, o: Outcome)
    ensures
        forall|g: spec_fn(Outcome) -> int| #[trigger] sum_by(h.push(o), g) == sum_by(h, g) + g(o),
{
    assert(h.push(o).drop_last() =~= h);
}

proof fn lemma_tallies(h: Seq<Outcome>)
    ensures
        successes(h) + failures(h) == h.len(),
        forall|k: StatusClass| 0 <= #[trigger] count_where(h, k) <= h.len(),
        latency_sum(h) >= 0,
    decreases h.len(),
{
    if h.len() > 0 {
        lemma_tallies(h.drop_last());
        assert forall|k: StatusClass| 0 <= #[trigger] count_where(h, k) <= h.len() by {
            assert(count_where(h.drop_last(), k) <= h.len() - 1);
        }
    }
}

proof fn lemma_entry_set(v: Seq<(StatusClass, u64)>, i: int, c: u64)
    requires
        keys_distinct(v),
        0 <= i < v.len(),
    ensures
        entry_count(v, v[i].0) == v[i].1,
        forall|k: StatusClass| #[trigger]
            entry_count(v.update(i, (v[i].0, c)), k) == if k == v[i].0 {
                c as int
            } else {
                entry_count(v, k)
            },
    decreases v.len(),
{
    let w = v.update(i, (v[i].0, c));
    if i == v.len() - 1 {
        assert(w.drop_last() =~= v.drop_last());
    } else {
        assert(w.drop_last() =~= v.drop_last().update(i, (v[i].0, c)));
        lemma_entry_set(v.drop_last(), i, c);
        assert(v.last().0 != v[i].0);
        assert forall|k: StatusClass| #[trigger]
            entry_count(w, k) == if k == v[i].0 {
                c as int
            } else {
                entry_count(v, k)
            } by {
            assert(entry_count(w.drop_last(), k) == entry_count(
                v.drop_last().update(i, (v[i].0, c)),
                k,
            ));
        }
    }
}

proof fn lemma_entry_absent(v: Seq<(StatusClass, u64)>, k: StatusClass)
    requires
        forall|j: int| 0 <= j < v.len() ==> #[trigger] v[j].0 != k,
    ensures
        entry_count(v, k) == 0,
    decreases v.len(),
{
    if v.len() > 0 {
        lemma_entry_absent(v.drop_last(), k);
    }
}

proof fn lemma_entry_push(v: Seq<(StatusClass, u64)>, k: StatusClass, c: u64)
    ensures
        forall|k2: StatusClass| #[trigger]
            entry_count(v.push((k, c)), k2) == if k2 == k {
                c as int
            } else {
                entry_count(v, k2)
            },
{
    assert(v.push((k, c)).drop_last() =~= v);
}

/// The index of the entry for `k` in a status table, if it has one.
fn find_status(v: &Vec<(StatusClass, u64)>, k: StatusClass) -> (r: Option<usize>)
    ensures
        r matches Some(i) ==> i < v@.len() && v@[i as int].0 == k,
        r is None ==> forall|j: int| 0 <= j < v@.len() ==> #[trigger] v@[j].0 != k,
{
    let mut i: usize = 0;
    while i < v.len()
        invariant
            i <= v@.len(),
            forall|j: int| 0 <= j < i ==> #[trigger] v@[j].0 != k,
        decreases v@.len() - i,
    {
        if v[i].0 == k {
            return Some(i);
        }
        i = i + 1;
    }
    None
}

proof fn lemma_sum_by_remove(t: Seq<Outcome>, i: int, g: spec_fn(Outcome) -> int)
    requires
        0 <= i < t.len(),
    ensures
        sum_by(t, g) == sum_by(t.remove(i), g) + g(t[i]),
    decreases t.len(),
{
    if i == t.len() - 1 {
        assert(t.remove(i) =~= t.drop_last());
    } else {
        assert(t.remove(i).drop_last() =~= t.drop_last().remove(i));
        assert(t.remove(i).last() == t.last());
        lemma_sum_by_remove(t.drop_last(), i, g);
    }
}

proof fn lemma_sum_by_permutation(s: Seq<Outcome>, t: Seq<Outcome>, g: spec_fn(Outcome) -> int)
    requires
        s.to_multiset() == t.to_multiset(),
    ensures
        sum_by(s, g) == sum_by(t, g),
    decreases s.len(),
{
    broadcast use vstd::seq_lib::group_to_multiset_ensures;

    if s.len() == 0 {
        s.to_multiset_ensures();
        t.to_multiset_ensures();
        assert(t.len() == 0);
    } else {
        let x = s.last();
        assert(s.to_multiset().count(x) > 0) by {
            assert(s.contains(x)) by {
                assert(s[s.len() - 1] == x);
            }
        }
        assert(t.contains(x));
        let i = choose|i: int| 0 <= i < t.len() && t[i] == x;
        assert(s.remove(s.len() - 1) =~= s.drop_last());
        assert(s.drop_last().to_multiset() =~= t.remove(i).to_multiset());
        lemma_sum_by_permutation(s.drop_last(), t.remove(i), g);
        lemma_sum_by_remove(t, i, g);
    }
}

proof fn lemma_same_extremes(a: Seq<Outcome>, b: Seq<Outcome>, fa: u64, fb: u64, sa: u64, sb: u64)
    requires
        a.to_multiset() == b.to_multiset(),
        is_fastest(fa, a),
        is_fastest(fb, b),
        is_slowest(sa, a),
        is_slowest(sb, b),
    ensures
        fa == fb,
        sa == sb,
{
    broadcast use vstd::seq_lib::group_to_multiset_ensures;

    let ia = choose|i: int| 0 <= i < a.len() && #[trigger] a[i].elapsed_ms == fa;
    let ib = choose|i: int| 0 <= i < b.len() && #[trigger] b[i].elapsed_ms == fb;
    assert(a.contains(a[ia]));
    assert(b.contains(b[ib]));
    assert(a.to_multiset().count(a[ia]) > 0);
    assert(b.to_multiset().count(b[ib]) > 0);
    assert(b.contains(a[ia]));
    assert(a.contains(b[ib]));
    let ja = choose|j: int| 0 <= j < b.len() && b[j] == a[ia];
    let jb = choose|j: int| 0 <= j < a.len() && a[j] == b[ib];
    assert(fb <= b[ja].elapsed_ms);
    assert(fa <= a[jb].elapsed_ms);
    let ka = choose|i: int| 0 <= i < a.len() && #[trigger] a[i].elapsed_ms == sa;
    let kb = choose|i: int| 0 <= i < b.len() && #[trigger] b[i].elapsed_ms == sb;
    assert(a.contains(a[ka]));
    assert(b.contains(b[kb]));
    assert(a.to_multiset().count(a[ka]) > 0);
    assert(b.to_multiset().count(b[kb]) > 0);
    assert(b.contains(a[ka]));
    assert(a.contains(b[kb]));
    let la = choose|j: int| 0 <= j < b.len() && b[j] == a[ka];
    let lb = choose|j: int| 0 <= j < a.len() && a[j] == b[kb];
    assert(b[la].elapsed_ms <= sb);
    assert(a[lb].elapsed_ms <= sa);
}

/// Recording is exact whatever the interleaving: after any sequence of
/// outcomes, the request count is the number of outcomes, successes and
/// failures add up to it, the total duration is the sum of the latencies, and
/// the fastest and slowest responses are their minimum and maximum.
pub proof fn lemma_statistics_are_exact(m: &Metrics)
    requires
        m.wf(),
    ensures
        m.total_requests == m.history@.len(),
        m.successful_requests + m.failed_requests == m.total_requests,
        m.total_duration == latency_sum(m.history@),
        m.samples@ == latencies(m.history@),
        m.history@.len() > 0 ==> is_fastest(m.fastest_response->0, m.history@)
            && is_slowest(m.slowest_response->0, m.history@),
{
    lemma_tallies(m.history@);
}

/// The order in which concurrent workers record their outcomes does not
/// matter: two statistics built from the same outcomes, in any two orders,
/// agree on every count, on the total duration, on the fastest and slowest
/// response, and on the count of every status.
pub proof fn lemma_recording_order_is_irrelevant(a: &Metrics, b: &Metrics)
    requires
        a.wf(),
        b.wf(),
        a.history@.to_multiset() == b.history@.to_multiset(),
    ensures
        a.total_requests == b.total_requests,
        a.successful_requests == b.successful_requests,
        a.failed_requests == b.failed_requests,
        a.total_duration == b.total_duration,
        a.fastest_response == b.fastest_response,
        a.slowest_response == b.slowest_response,
        forall|k: StatusClass| #[trigger]
            entry_count(a.status_counts@, k) == entry_count(b.status_counts@, k),
{
    broadcast use vstd::seq_lib::group_to_multiset_ensures;

    let ha = a.history@;
    let hb = b.history@;
    assert(ha.len() == hb.len()) by {
        assert(ha.to_multiset().len() == hb.to_multiset().len());
    }
    lemma_sum_by_permutation(ha, hb, |o: Outcome| if o.status is Code { 1int } else { 0int });
    lemma_sum_by_permutation(ha, hb, |o: Outcome| o.elapsed_ms as int);
    assert forall|k: StatusClass| #[trigger] count_where(ha, k) == count_where(hb, k) by {
        lemma_sum_by_permutation(ha, hb, |o: Outcome| if o.status == k { 1int } else { 0int });
    }
    assert(failures(ha) == failures(hb));
    if ha.len() > 0 {
        lemma_same_extremes(
            ha,
            hb,
            a.fastest_response->0,
            b.fastest_response->0,
            a.slowest_response->0,
            b.slowest_response->0,
        );
    }
}

proof fn lemma_absent_status(h: Seq<Outcome>, k: StatusClass)
    requires
        forall|i: int| 0 <= i < h.len() ==> #[trigger] h[i].status != k,
    ensures
        count_where(h, k) == 0,
    decreases h.len(),
{
    if h.len() > 0 {
        lemma_absent_status(h.drop_last(), k);
    }
}

/// A run in which every attempt failed at the transport counts no success,
/// counts every request as failed, and holds no status in its table but the
/// transport failure.
pub proof fn lemma_failed_run(m: &Metrics)
    requires
        m.wf(),
        forall|i: int|
            0 <= i < m.history@.len() ==> #[trigger] m.history@[i].status
                == StatusClass::TransportError,
    ensures
        m.successful_requests == 0,
        m.failed_requests == m.total_requests,
        forall|i: int|
            0 <= i < m.status_counts@.len() ==> #[trigger] m.status_counts@[i].0
                == StatusClass::TransportError,
{
    let h = m.history@;
    lemma_tallies(h);
    lemma_absent_status(h, StatusClass::Code(0));
    assert(successes(h) == 0) by {
        lemma_no_success(h);
    }
    assert forall|i: int| 0 <= i < m.status_counts@.len() implies #[trigger] m.status_counts@[i].0
        == StatusClass::TransportError by {
        let k = m.status_counts@[i].0;
        lemma_entry_set(m.status_counts@, i, 0);
        if k != StatusClass::TransportError {
            lemma_absent_status(h, k);
        }
    }
}

proof fn lemma_no_success(h: Seq<Outcome>)
    requires
        forall|i: int| 0 <= i < h.len() ==> #[trigger] h[i].status == StatusClass::TransportError,
    ensures
        successes(h) == 0,
    decreases h.len(),
{
    if h.len() > 0 {
        lemma_no_success(h.drop_last());
    }
}

/// The running statistics of a run.
///
/// `history` holds every outcome recorded so far; the other fields are what
/// `wf` says they are of it.
pub struct Metrics {
    pub total_requests: u64,
    pub successful_requests: u64,
    pub failed_requests: u64,
    /// The least latency so far; none before the first outcome.
    pub fastest_response: Option<u64>,
    /// The greatest latency so far; none before the first outcome.
    pub slowest_response: Option<u64>,
    pub total_duration: u64,
    /// One entry per status seen, made on its first occurrence.
    pub status_counts: Vec<(StatusClass, u64)>,
    /// Every latency, in the order recorded.
    pub samples: Vec<u64>,
    pub history: Ghost<Seq<Outcome>>,
}

impl Metrics {
    /// The counters, extremes, latency samples and status table are exactly
    /// what the recorded outcomes make them; the table has one positive entry
    /// per status seen.
    pub open spec fn wf(&self) -> bool {
        let h = self.history@;
        &&& self.samples@ == latencies(h)
        &&& self.total_requests == h.len()
        &&& self.successful_requests == successes(h)
        &&& self.failed_requests == failures(h)
        &&& self.total_duration == latency_sum(h)
        &&& (h.len() == 0 ==> self.fastest_response is None && self.slowest_response is None)
        &&& (h.len() > 0 ==> {
            &&& self.fastest_response matches Some(f) && is_fastest(f, h)
            &&& self.slowest_response matches Some(s) && is_slowest(s, h)
        })
        &&& keys_distinct(self.status_counts@)
        &&& forall|k: StatusClass| #[trigger]
            entry_count(self.status_counts@, k) == count_where(h, k)
        &&& forall|i: int|
            0 <= i < self.status_counts@.len() ==> #[trigger] self.status_counts@[i].1 > 0
    }

    /// Statistics of a run in which nothing was recorded yet.
    pub fn new() -> (r: Metrics)
        ensures
            r.wf(),
            r.history@ == Seq::<Outcome>::empty(),
    {
        let r = Metrics {
            total_requests: 0,
            successful_requests: 0,
            failed_requests: 0,
            fastest_response: None,
            slowest_response: None,
            total_duration: 0,
            status_counts: Vec::new(),
            samples: Vec::new(),
            history: Ghost(Seq::empty()),
        };
        proof {
            assert(r.samples@ =~= latencies(r.history@));
        }
        r
    }

    /// Whether one more outcome fits the counters.
    pub fn can_record(&self, outcome: &Outcome) -> (r: bool)
        ensures
            r == (self.total_requests < u64::MAX && self.total_duration + outcome.elapsed_ms
                <= u64::MAX),
    {
        self.total_requests < u64::MAX && self.total_duration <= u64::MAX - outcome.elapsed_ms
    }

    /// Adds one outcome to the statistics, as a single update of every field.
    pub fn record(&mut self, outcome: Outcome)
        requires
            old(self).wf(),
            old(self).total_requests < u64::MAX,
            old(self).total_duration + outcome.elapsed_ms <= u64::MAX,
        ensures
            final(self).wf(),
            final(self).history@ == old(self).history@.push(outcome),
            final(self).total_requests == old(self).total_requests + 1,
            final(self).successful_requests == old(self).successful_requests + if outcome.status is Code {
                1int
            } else {
                0int
            },
            final(self).failed_requests == old(self).failed_requests + if outcome.status
                is TransportError {
                1int
            } else {
                0int
            },
            final(self).total_duration == old(self).total_duration + outcome.elapsed_ms,
            final(self).samples@ == old(self).samples@.push(outcome.elapsed_ms),
            final(self).fastest_response == Some(
                match old(self).fastest_response {
                    Some(f) => if f <= outcome.elapsed_ms {
                        f
                    } else {
                        outcome.elapsed_ms
                    },
                    None => outcome.elapsed_ms,
                },
            ),
            final(self).slowest_response == Some(
                match old(self).slowest_response {
                    Some(w) => if w >= outcome.elapsed_ms {
                        w
                    } else {
                        outcome.elapsed_ms
                    },
                    None => outcome.elapsed_ms,
                },
            ),
            forall|k: StatusClass| #[trigger]
                entry_count(final(self).status_counts@, k) == entry_count(
                    old(self).status_counts@,
                    k,
                ) + if k == outcome.status {
                    1int
                } else {
                    0int
                },
    {
        let ghost h = self.history@;
        let ghost h2 = h.push(outcome);
        proof {
            lemma_tallies(h);
            lemma_sum_by_push(h, outcome);
            assert(count_where(h2, outcome.status) == count_where(h, outcome.status) + 1);
            assert(successes(h2) == successes(h) + if outcome.status is Code { 1int } else { 0int });
            assert(latency_sum(h2) == latency_sum(h) + outcome.elapsed_ms);
            assert forall|k: StatusClass| #[trigger] count_where(h2, k) == count_where(h, k) + if k == outcome.status { 1int } else { 0int } by {
                assert(sum_by(h2, |o: Outcome| if o.status == k { 1int } else { 0int })
                    == sum_by(h, |o: Outcome| if o.status == k { 1int } else { 0int })
                    + (if outcome.status == k { 1int } else { 0int }));
            }
        }
        let e = outcome.elapsed_ms;
        self.total_requests = self.total_requests + 1;
        match outcome.status {
            StatusClass::Code(_) => {
                self.successful_requests = self.successful_requests + 1;
            },
            StatusClass::TransportError => {
                self.failed_requests = self.failed_requests + 1;
            },
        }
        self.total_duration = self.total_duration + e;
        self.samples.push(e);
        self.fastest_response = match self.fastest_response {
            Some(f) => if f <= e { Some(f) } else { Some(e) },
            None => Some(e),
        };
        self.slowest_response = match self.slowest_response {
            Some(s) => if s >= e { Some(s) } else { Some(e) },
            None => Some(e),
        };
        match find_status(&self.status_counts, outcome.status) {
            Some(i) => {
                let c = self.status_counts[i].1;
                proof {
                    lemma_entry_set(self.status_counts@, i as int, (c + 1) as u64);
                }
                self.status_counts.set(i, (outcome.status, c + 1));
            },
            None => {
                proof {
                    lemma_entry_absent(self.status_counts@, outcome.status);
                    lemma_entry_push(self.status_counts@, outcome.status, 1);
                }
                self.status_counts.push((outcome.status, 1));
            },
        }
        self.history = Ghost(h2);
        proof {
            assert(self.samples@ =~= latencies(h2));
            assert(h2[h.len() as int] == outcome);
            if h.len() > 0 {
                let fi = choose|i: int| 0 <= i < h.len() && #[trigger] h[i].elapsed_ms == old(self).fastest_response->0;
                let si = choose|i: int| 0 <= i < h.len() && #[trigger] h[i].elapsed_ms == old(self).slowest_response->0;
                assert(h2[fi] == h[fi]);
                assert(h2[si] == h[si]);
            }
            assert(is_fastest(self.fastest_response->0, h2));
            assert(is_slowest(self.slowest_response->0, h2));
        }
    }
}

} // verus!
