use balancer::forward::{
    build_target_uri, is_redirection_status, is_server_error_status, is_success_status,
    relay_response, should_record_error, ForwardOutcome,
};

#[test]
fn success_response_is_relayed_unchanged() {
    let outcome = ForwardOutcome::Delivered { status: 200, body: Some("OK".to_string()) };
    let resp = relay_response(outcome).expect("delivered answers are relayed");
    assert_eq!(resp.status, 200);
    assert_eq!(resp.body, "OK");
}

#[test]
fn error_status_and_body_are_relayed_unchanged() {
    let outcome = ForwardOutcome::Delivered { status: 404, body: Some("missing".to_string()) };
    let resp = relay_response(outcome).unwrap();
    assert_eq!(resp.status, 404);
    assert_eq!(resp.body, "missing");
}

#[test]
fn unreachable_backend_yields_502() {
    assert_eq!(relay_response(ForwardOutcome::DispatchFailed).unwrap_err(), 502);
}

#[test]
fn buffering_failure_yields_400() {
    assert_eq!(relay_response(ForwardOutcome::BufferFailed).unwrap_err(), 400);
}

#[test]
fn unreadable_body_keeps_status_and_empties_body() {
    let outcome = ForwardOutcome::Delivered { status: 503, body: None };
    let resp = relay_response(outcome).unwrap();
    assert_eq!(resp.status, 503);
    assert_eq!(resp.body, "");
}

#[test]
fn target_uri_concatenates_backend_and_original_uri() {
    let uri = build_target_uri("http://10.0.0.2:3000", "/users/7?verbose=1");
    assert_eq!(uri, "http://10.0.0.2:3000/users/7?verbose=1");
}

#[test]
fn status_classes_have_exact_bounds() {
    assert!(!is_success_status(199));
    assert!(is_success_status(200));
    assert!(is_success_status(299));
    assert!(!is_success_status(300));
    assert!(is_redirection_status(300));
    assert!(is_redirection_status(399));
    assert!(!is_redirection_status(400));
    assert!(!is_server_error_status(499));
    assert!(is_server_error_status(500));
    assert!(is_server_error_status(599));
    assert!(!is_server_error_status(600));
}

#[test]
fn errors_are_recorded_exactly_for_non_success() {
    assert!(!should_record_error(200));
    assert!(!should_record_error(204));
    assert!(should_record_error(301));
    assert!(should_record_error(404));
    assert!(should_record_error(500));
}
