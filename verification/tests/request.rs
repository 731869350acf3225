use bytes::Bytes;
use futures::executor::block_on;
use reqwest::header::{HeaderMap, HeaderValue, ACCEPT_RANGES};
use reqwest_resume::download::RETRY_DELAY_SECS;
use reqwest_resume::failure::FailureKind;
use reqwest_resume::request::{after_failure, after_send, SendStep};

fn failure_from_building() -> reqwest::Error {
    reqwest::Client::new().get("not a url").build().unwrap_err()
}

fn failure_from_status(status: u16) -> reqwest::Error {
    let response = http::Response::builder().status(status).body("").unwrap();
    reqwest::Response::from(response).error_for_status().unwrap_err()
}

fn failure_from_transport() -> reqwest::Error {
    let broken: Vec<Result<Bytes, std::io::Error>> = vec![Err(std::io::Error::new(
        std::io::ErrorKind::ConnectionReset,
        "connection reset",
    ))];
    let body = reqwest::Body::wrap_stream(futures::stream::iter(broken));
    let response = reqwest::Response::from(http::Response::new(body));
    block_on(response.bytes()).unwrap_err()
}

fn headers_of_a_server(accept_ranges: Option<&'static str>) -> HeaderMap {
    let mut headers = HeaderMap::new();
    if let Some(value) = accept_ranges {
        headers.insert(ACCEPT_RANGES, HeaderValue::from_static(value));
    }
    headers
}

/// One attempt to reach a simulated server.
enum Attempt {
    Answer(HeaderMap),
    Failure(FailureKind),
}

/// Sends to a simulated server whose attempts go as scripted, and returns the
/// final step with the delays that were waited and the attempts that were made.
fn send_to(script: Vec<Attempt>) -> (SendStep, Vec<u64>, usize) {
    let mut waited = Vec::new();
    let mut made = 0;
    for attempt in script {
        made += 1;
        let step = match attempt {
            Attempt::Answer(headers) => after_send(Ok(&headers)),
            Attempt::Failure(kind) => after_failure(kind, failure_from_building()),
        };
        match step {
            SendStep::Retry { delay_secs } => waited.push(delay_secs),
            last => return (last, waited, made),
        }
    }
    panic!("the script ended while the request was still being retried");
}

#[test]
fn the_delay_is_one_second() {
    assert_eq!(RETRY_DELAY_SECS, 1);
}

#[test]
fn a_transport_failure_is_retried_after_the_delay() {
    match after_failure(FailureKind::Transport, failure_from_transport()) {
        SendStep::Retry { delay_secs } => assert_eq!(delay_secs, 1),
        other => panic!("expected a retry, got {:?}", other),
    }
}

#[test]
fn a_redirect_failure_is_final() {
    let err = failure_from_building();
    let text = err.to_string();
    match after_failure(FailureKind::Redirect, err) {
        SendStep::Fail(same) => assert_eq!(same.to_string(), text),
        other => panic!("expected a failure, got {:?}", other),
    }
}

#[test]
fn a_status_failure_is_final() {
    let err = failure_from_status(500);
    let text = err.to_string();
    match after_failure(FailureKind::Status, err) {
        SendStep::Fail(same) => {
            assert!(same.is_status());
            assert_eq!(same.to_string(), text);
        }
        other => panic!("expected a failure, got {:?}", other),
    }
}

#[test]
fn a_build_failure_is_final() {
    assert!(matches!(
        after_failure(FailureKind::Build, failure_from_building()),
        SendStep::Fail(_)
    ));
}

#[test]
fn send_fails_at_once_on_a_request_that_could_not_be_built() {
    match after_send(Err(failure_from_building())) {
        SendStep::Fail(err) => assert!(err.is_builder()),
        other => panic!("expected a failure, got {:?}", other),
    }
}

#[test]
fn send_fails_at_once_on_a_refused_status() {
    match after_send(Err(failure_from_status(404))) {
        SendStep::Fail(err) => {
            assert!(err.is_status());
            assert_eq!(err.status(), Some(reqwest::StatusCode::NOT_FOUND));
        }
        other => panic!("expected a failure, got {:?}", other),
    }
}

#[test]
fn send_retries_a_failure_of_the_transport() {
    match after_send(Err(failure_from_transport())) {
        SendStep::Retry { delay_secs } => assert_eq!(delay_secs, 1),
        other => panic!("expected a retry, got {:?}", other),
    }
}

#[test]
fn send_is_done_with_a_response_that_advertises_ranges() {
    match after_send(Ok(&headers_of_a_server(Some("bytes")))) {
        SendStep::Done(response) => {
            assert!(response.accept_byte_ranges());
            assert_eq!(response.position(), 0);
        }
        other => panic!("expected a response, got {:?}", other),
    }
}

#[test]
fn send_is_done_with_a_response_that_advertises_nothing() {
    match after_send(Ok(&headers_of_a_server(None))) {
        SendStep::Done(response) => {
            assert!(!response.accept_byte_ranges());
            assert_eq!(response.position(), 0);
        }
        other => panic!("expected a response, got {:?}", other),
    }
    match after_send(Ok(&headers_of_a_server(Some("none")))) {
        SendStep::Done(response) => assert!(!response.accept_byte_ranges()),
        other => panic!("expected a response, got {:?}", other),
    }
}

#[test]
fn two_transport_failures_then_success() {
    let (last, waited, made) = send_to(vec![
        Attempt::Failure(FailureKind::Transport),
        Attempt::Failure(FailureKind::Transport),
        Attempt::Answer(headers_of_a_server(Some("bytes"))),
    ]);
    assert_eq!(made, 3);
    assert_eq!(waited, vec![1, 1]);
    match last {
        SendStep::Done(response) => {
            assert!(response.accept_byte_ranges());
            assert_eq!(response.position(), 0);
        }
        other => panic!("expected a response, got {:?}", other),
    }
}

#[test]
fn many_transport_failures_then_success() {
    let mut script = Vec::new();
    for _ in 0..50 {
        script.push(Attempt::Failure(FailureKind::Transport));
    }
    script.push(Attempt::Answer(headers_of_a_server(None)));
    let (last, waited, made) = send_to(script);
    assert_eq!(made, 51);
    assert_eq!(waited, vec![1; 50]);
    assert!(matches!(last, SendStep::Done(_)));
}

#[test]
fn a_redirect_error_fails_without_a_retry() {
    let (last, waited, made) = send_to(vec![
        Attempt::Failure(FailureKind::Redirect),
        Attempt::Answer(headers_of_a_server(Some("bytes"))),
    ]);
    assert_eq!(made, 1);
    assert!(waited.is_empty());
    assert!(matches!(last, SendStep::Fail(_)));
}

#[test]
fn a_status_error_fails_without_a_retry() {
    let (last, waited, made) = send_to(vec![
        Attempt::Failure(FailureKind::Status),
        Attempt::Answer(headers_of_a_server(Some("bytes"))),
    ]);
    assert_eq!(made, 1);
    assert!(waited.is_empty());
    assert!(matches!(last, SendStep::Fail(_)));
}

#[test]
fn a_status_error_after_transport_failures_is_still_final() {
    let (last, waited, made) = send_to(vec![
        Attempt::Failure(FailureKind::Transport),
        Attempt::Failure(FailureKind::Status),
        Attempt::Answer(headers_of_a_server(Some("bytes"))),
    ]);
    assert_eq!(made, 2);
    assert_eq!(waited, vec![1]);
    assert!(matches!(last, SendStep::Fail(_)));
}
