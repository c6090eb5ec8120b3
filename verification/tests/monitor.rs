use balancer::monitor::{
    assess_backend, assess_cycle, classify_metrics, connection_monitor_step, count_tcp,
    metrics_url, BackendReport, ConnectionReport, MetricsSample, PollOutcome, SocketKind,
    DEFAULT_CONNECTION_CEILING,
};

fn quiet_sample() -> MetricsSample {
    MetricsSample { cpu_centi: 1200, ram_centi: 3400, download_centi: 8000, upload_centi: 9000 }
}

#[test]
fn quiet_metrics_raise_no_alert() {
    let alerts = classify_metrics(&quiet_sample());
    assert!(!alerts.cpu_high && !alerts.ram_high && !alerts.download_low && !alerts.upload_low);
}

#[test]
fn thresholds_are_strict() {
    // 90.00 % is not above the limit; 90.01 % is
    let at_limit = MetricsSample {
        cpu_centi: 9000,
        ram_centi: 9000,
        download_centi: 5000,
        upload_centi: 5000,
    };
    let alerts = classify_metrics(&at_limit);
    assert!(!alerts.cpu_high && !alerts.ram_high && !alerts.download_low && !alerts.upload_low);

    let over = MetricsSample {
        cpu_centi: 9001,
        ram_centi: 9001,
        download_centi: 4999,
        upload_centi: 4999,
    };
    let alerts = classify_metrics(&over);
    assert!(alerts.cpu_high && alerts.ram_high && alerts.download_low && alerts.upload_low);
}

#[test]
fn transport_error_becomes_unreachable_report() {
    assert_eq!(assess_backend(&PollOutcome::TransportError), BackendReport::Unreachable);
}

#[test]
fn unparseable_payload_is_malformed_not_fatal() {
    let report = assess_backend(&PollOutcome::Answered { status: 200, metrics: None });
    assert_eq!(report, BackendReport::Malformed { status: 200 });
}

#[test]
fn answered_poll_notes_status_class_and_alerts() {
    let outcome = PollOutcome::Answered { status: 302, metrics: Some(quiet_sample()) };
    match assess_backend(&outcome) {
        BackendReport::Observed { status, redirected, server_error, alerts } => {
            assert_eq!(status, 302);
            assert!(redirected);
            assert!(!server_error);
            assert!(!alerts.cpu_high);
        }
        other => panic!("unexpected report {:?}", other),
    }
}

#[test]
fn transport_error_on_second_backend_still_polls_the_third() {
    let outcomes = vec![
        PollOutcome::Answered { status: 200, metrics: Some(quiet_sample()) },
        PollOutcome::TransportError,
        PollOutcome::Answered { status: 500, metrics: Some(quiet_sample()) },
    ];
    let reports = assess_cycle(&outcomes);
    assert_eq!(reports.len(), 3);
    assert_eq!(reports[1], BackendReport::Unreachable);
    match reports[2] {
        BackendReport::Observed { status, server_error, .. } => {
            assert_eq!(status, 500);
            assert!(server_error);
        }
        other => panic!("unexpected report {:?}", other),
    }
}

#[test]
fn tcp_sockets_are_counted_and_others_ignored() {
    let sockets = vec![SocketKind::Tcp, SocketKind::Udp, SocketKind::Tcp, SocketKind::Udp];
    assert_eq!(count_tcp(&sockets), 2);
    assert_eq!(count_tcp(&Vec::new()), 0);
}

#[test]
fn sampling_failure_is_reported_and_the_loop_goes_on() {
    let (report, go_on) = connection_monitor_step(None, DEFAULT_CONNECTION_CEILING);
    assert_eq!(report, ConnectionReport::QueryFailed);
    assert!(go_on);
}

#[test]
fn connection_count_above_the_ceiling_alerts() {
    let sockets = vec![SocketKind::Tcp; 101];
    let (report, go_on) = connection_monitor_step(Some(sockets), DEFAULT_CONNECTION_CEILING);
    assert_eq!(report, ConnectionReport::Counted { count: 101, alert: true });
    assert!(go_on);
}

#[test]
fn connection_count_at_the_ceiling_does_not_alert() {
    let sockets = vec![SocketKind::Tcp; 100];
    let (report, _) = connection_monitor_step(Some(sockets), DEFAULT_CONNECTION_CEILING);
    assert_eq!(report, ConnectionReport::Counted { count: 100, alert: false });
}

#[test]
fn metrics_url_targets_the_backend_metrics_endpoint() {
    assert_eq!(metrics_url("10.0.0.7"), "http://10.0.0.7:3000/metrics");
}
