use loadgen::endpoint::{resolve_endpoint, EndpointError};
use loadgen::stats::{Report, RequestOutcome};

#[test]
fn success_updates_counts() {
    let mut r = Report::new(4);
    r.record_success(12, 2048, 200, Some("nginx".to_string()));
    r.record_success(30, 10, 404, Some("apache".to_string()));
    assert_eq!(r.completed_requests, 2);
    assert_eq!(r.latencies, vec![12, 30]);
    assert_eq!(r.bytes_read, 2058);
    assert_eq!(r.non_2xx_responses, 1);
    assert_eq!(r.server_software, "nginx");
    assert_eq!(r.concurrency, 4);
}

#[test]
fn empty_server_header_does_not_win() {
    let mut r = Report::new(1);
    r.record_success(1, 0, 200, Some(String::new()));
    r.record_success(1, 0, 200, None);
    r.record_success(1, 0, 200, Some("caddy".to_string()));
    r.record_success(1, 0, 200, Some("other".to_string()));
    assert_eq!(r.server_software, "caddy");
}

#[test]
fn failures_and_timeouts() {
    let mut r = Report::new(1);
    r.record_failure(true);
    r.record_failure(false);
    assert_eq!(r.failed_requests, 2);
    assert_eq!(r.timeouts, 1);
    assert_eq!(r.completed_requests, 0);
    assert!(r.latencies.is_empty());
}

#[test]
fn record_dispatches_outcomes() {
    let mut r = Report::new(2);
    r.record(RequestOutcome::Success {
        status: 503,
        body_bytes: 5,
        server: None,
        latency_ms: 8,
    });
    r.record(RequestOutcome::Failure { timed_out: false });
    assert_eq!(r.completed_requests + r.failed_requests, 2);
    assert_eq!(r.latencies.len(), r.completed_requests);
    assert_eq!(r.non_2xx_responses, 1);
}

#[test]
fn all_requests_counted_after_normal_run() {
    let mut r = Report::new(3);
    for size in loadgen::engine::batch_sizes(10, 3) {
        for i in 0..size {
            if i % 2 == 0 {
                r.record_success(5, 1, 200, None);
            } else {
                r.record_failure(false);
            }
        }
    }
    assert_eq!(r.completed_requests + r.failed_requests, 10);
    assert_eq!(r.latencies.len(), r.completed_requests);
}

#[test]
fn bytes_saturate() {
    let mut r = Report::new(1);
    r.record_success(1, u64::MAX, 200, None);
    r.record_success(1, 10, 200, None);
    assert_eq!(r.bytes_read, u64::MAX);
}

#[test]
fn elapsed_never_goes_back() {
    let mut r = Report::new(1);
    r.update_elapsed(500);
    r.update_elapsed(300);
    assert_eq!(r.elapsed_us, 500);
    r.update_elapsed(900);
    assert_eq!(r.elapsed_us, 900);
}

#[test]
fn snapshot_is_consistent_copy() {
    let mut r = Report::new(2);
    r.record_success(3, 1, 200, Some("x".to_string()));
    r.record_failure(true);
    r.update_elapsed(77);
    let s = r.snapshot();
    assert_eq!(s.completed_requests, 1);
    assert_eq!(s.latencies, vec![3]);
    assert_eq!(s.latencies.len(), s.completed_requests);
    assert_eq!(s.failed_requests, 1);
    assert_eq!(s.timeouts, 1);
    assert_eq!(s.elapsed_us, 77);
    assert_eq!(s.server_software, "x");
}

#[test]
fn preflight_failure_counts_nothing() {
    assert_eq!(resolve_endpoint("not a url"), Err(EndpointError::InvalidUrl));
    let r = Report::default();
    assert_eq!(r.completed_requests, 0);
    assert_eq!(r.failed_requests, 0);
    assert_eq!(r.bytes_read, 0);
    assert_eq!(r.elapsed_us, 0);
    assert_eq!(r.port, 0);
    assert!(r.host.is_empty() && r.server_software.is_empty());
}

#[test]
fn endpoint_host_and_port() {
    assert_eq!(
        resolve_endpoint("http://example.com/x"),
        Ok(("example.com".to_string(), 80))
    );
    assert_eq!(
        resolve_endpoint("https://example.com"),
        Ok(("example.com".to_string(), 443))
    );
    assert_eq!(
        resolve_endpoint("http://localhost:8080/"),
        Ok(("localhost".to_string(), 8080))
    );
    assert_eq!(resolve_endpoint("mailto:a@b.c"), Err(EndpointError::NoHost));
    assert_eq!(
        resolve_endpoint("foo://host.example/"),
        Ok(("host.example".to_string(), 80))
    );
    assert_eq!(
        resolve_endpoint("https://example.com:8443"),
        Ok(("example.com".to_string(), 8443))
    );
}
