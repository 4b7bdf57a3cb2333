use loadstrike::dsl::{DslConfig, HttpMethod};
use loadstrike::metrics::{decimal_text, Metrics, Outcome, StatusClass};
use loadstrike::summary::{calculate_median, throughput, Median, Rate};
use loadstrike::worker::outcome_of;

fn config(duration: u64) -> DslConfig {
    DslConfig {
        name: "stats".to_string(),
        target: "http://h/".to_string(),
        method: HttpMethod::GET,
        concurrency: 2,
        duration,
        auth: None,
        body: None,
        query_params: None,
    }
}

fn ok(code: u16, ms: u64) -> Outcome {
    Outcome { status: StatusClass::Code(code), elapsed_ms: ms }
}

fn failed(ms: u64) -> Outcome {
    Outcome { status: StatusClass::TransportError, elapsed_ms: ms }
}

fn recorded(outcomes: &[Outcome]) -> Metrics {
    let mut m = Metrics::new();
    for o in outcomes {
        assert!(m.can_record(o));
        m.record(*o);
    }
    m
}

fn count_of(m: &Metrics, k: StatusClass) -> u64 {
    m.status_counts.iter().filter(|e| e.0 == k).map(|e| e.1).sum()
}

#[test]
fn median_of_odd_count() {
    assert_eq!(calculate_median(&[10, 20, 30]), Median { millis: 20, half: false });
}

#[test]
fn median_of_even_count() {
    assert_eq!(calculate_median(&[10, 20, 30, 40]), Median { millis: 25, half: false });
    assert_eq!(calculate_median(&[10, 15]), Median { millis: 12, half: true });
}

#[test]
fn median_ignores_input_order() {
    assert_eq!(calculate_median(&[30, 10, 20]), Median { millis: 20, half: false });
    assert_eq!(calculate_median(&[40, 10, 30, 20]), Median { millis: 25, half: false });
    assert_eq!(calculate_median(&[7, 3, 3, 9, 1]), calculate_median(&[1, 3, 9, 3, 7]));
}

#[test]
fn median_of_nothing_is_zero() {
    assert_eq!(calculate_median(&[]), Median { millis: 0, half: false });
}

#[test]
fn median_of_largest_values_does_not_overflow() {
    assert_eq!(
        calculate_median(&[u64::MAX, u64::MAX - 2]),
        Median { millis: u64::MAX - 1, half: false }
    );
    assert_eq!(
        calculate_median(&[u64::MAX, u64::MAX - 1]),
        Median { millis: u64::MAX - 1, half: true }
    );
}

#[test]
fn throughput_is_quotient_and_remainder() {
    assert_eq!(throughput(10, 4), Rate { whole: 2, remainder: 2 });
    assert_eq!(throughput(0, 5), Rate { whole: 0, remainder: 0 });
    assert_eq!(throughput(9, 3), Rate { whole: 3, remainder: 0 });
}

#[test]
fn record_totals_are_exact() {
    let m = recorded(&[ok(200, 12), failed(40), ok(404, 7), ok(200, 30), failed(5)]);
    assert_eq!(m.total_requests, 5);
    assert_eq!(m.successful_requests, 3);
    assert_eq!(m.failed_requests, 2);
    assert_eq!(m.successful_requests + m.failed_requests, m.total_requests);
    assert_eq!(m.fastest_response, Some(5));
    assert_eq!(m.slowest_response, Some(40));
    assert_eq!(m.total_duration, 94);
    assert_eq!(m.samples, vec![12, 40, 7, 30, 5]);
    assert_eq!(count_of(&m, StatusClass::Code(200)), 2);
    assert_eq!(count_of(&m, StatusClass::Code(404)), 1);
    assert_eq!(count_of(&m, StatusClass::TransportError), 2);
    assert_eq!(m.status_counts.len(), 3);
}

#[test]
fn record_order_does_not_change_statistics() {
    let a = recorded(&[ok(200, 12), failed(40), ok(500, 7)]);
    let b = recorded(&[ok(500, 7), ok(200, 12), failed(40)]);
    assert_eq!(a.total_requests, b.total_requests);
    assert_eq!(a.successful_requests, b.successful_requests);
    assert_eq!(a.failed_requests, b.failed_requests);
    assert_eq!(a.total_duration, b.total_duration);
    assert_eq!(a.fastest_response, b.fastest_response);
    assert_eq!(a.slowest_response, b.slowest_response);
    for k in [StatusClass::Code(200), StatusClass::Code(500), StatusClass::TransportError] {
        assert_eq!(count_of(&a, k), count_of(&b, k));
    }
}

#[test]
fn interleaved_records_under_a_lock_lose_nothing() {
    let shared = std::sync::Arc::new(std::sync::Mutex::new(Metrics::new()));
    let workers: Vec<_> = (0..4u64).map(|_| std::sync::Arc::clone(&shared)).collect();
    for i in 0..250u64 {
        for (t, w) in workers.iter().enumerate() {
            let t = t as u64;
            let o = if i % 5 == 0 { failed(t + i) } else { ok(200, t + i) };
            let mut m = w.lock().unwrap();
            m.record(o);
        }
    }
    let m = shared.lock().unwrap();
    assert_eq!(m.total_requests, 1000);
    assert_eq!(m.failed_requests, 200);
    assert_eq!(m.successful_requests, 800);
    assert_eq!(m.fastest_response, Some(0));
    assert_eq!(m.slowest_response, Some(252));
    let expected: u64 = (0..4u64).map(|t| (0..250u64).map(|i| t + i).sum::<u64>()).sum();
    assert_eq!(m.total_duration, expected);
    assert_eq!(m.samples.len(), 1000);
}

#[test]
fn failed_run_counts_only_failures() {
    let m = recorded(&[outcome_of(None, 3), outcome_of(None, 9)]);
    assert!(m.total_requests >= 1);
    assert_eq!(m.successful_requests, 0);
    assert_eq!(m.failed_requests, m.total_requests);
    assert_eq!(m.status_counts, vec![(StatusClass::TransportError, 2)]);
}

#[test]
fn finalize_empty_run() {
    let s = Metrics::new().finalize(&config(5), "2024/01/02 03:04:05".to_string());
    assert_eq!(s.median_response_time, Median { millis: 0, half: false });
    assert_eq!(s.throughput, Rate { whole: 0, remainder: 0 });
    assert_eq!(s.total_requests, 0);
    assert_eq!(s.fastest_response, None);
    assert_eq!(s.slowest_response, None);
    assert!(s.status_counts.is_empty());
}

#[test]
fn finalize_summarizes_run() {
    let m = recorded(&[ok(200, 40), ok(201, 10), failed(30), ok(200, 20)]);
    let s = m.finalize(&config(3), "now".to_string());
    assert_eq!(s.target_url, "http://h/");
    assert_eq!(s.http_method, HttpMethod::GET);
    assert_eq!(s.duration_secs, 3);
    assert_eq!(s.concurrency, 2);
    assert_eq!(s.timestamp, "now");
    assert_eq!(s.total_requests, 4);
    assert_eq!(s.successful_requests, 3);
    assert_eq!(s.failed_requests, 1);
    assert_eq!(s.fastest_response, Some(10));
    assert_eq!(s.slowest_response, Some(40));
    assert_eq!(s.median_response_time, Median { millis: 25, half: false });
    assert_eq!(s.throughput, Rate { whole: 1, remainder: 1 });
    assert_eq!(s.status_counts.len(), 3);
}

#[test]
fn status_labels() {
    assert_eq!(StatusClass::Code(200).label(), "200");
    assert_eq!(StatusClass::Code(0).label(), "0");
    assert_eq!(StatusClass::Code(65535).label(), "65535");
    assert_eq!(StatusClass::TransportError.label(), "REQUEST_ERROR");
    assert_eq!(decimal_text(1009), "1009");
}
