use reqwest_resume::failure::FailureKind;
use reqwest_resume::request::{after_send, SendStep};
use std::time::Duration;
use tokio::net::TcpListener;

/// Asks a port on the loopback interface on which nothing listens. `None`
/// where no client can be set up on this machine.
fn ask_a_closed_port() -> Option<reqwest::Result<reqwest::Response>> {
    let runtime = tokio::runtime::Builder::new_current_thread().enable_all().build().ok()?;
    runtime.block_on(async {
        let listener = TcpListener::bind("127.0.0.1:0").await.ok()?;
        let port = listener.local_addr().ok()?.port();
        drop(listener);
        let client =
            reqwest::Client::builder().timeout(Duration::from_secs(5)).no_proxy().build().ok()?;
        Some(client.get(format!("http://127.0.0.1:{}/", port)).send().await)
    })
}

#[test]
fn a_failed_connection_of_the_client_is_retried() {
    let err = match ask_a_closed_port() {
        Some(Err(err)) if err.is_connect() => err,
        _ => return,
    };
    assert_eq!(FailureKind::of(&err), FailureKind::Transport);
    match after_send(Err(err)) {
        SendStep::Retry { delay_secs } => assert_eq!(delay_secs, 1),
        other => panic!("expected a retry, got {:?}", other),
    }
}
