use ilp_node::cli::get_config_help;
use ilp_node::settlement::{
    Client, DeliveryError, FailureKind, IoHandler, RetryPolicy, RETRY_DELAY_MS,
};

#[test]
fn timeouts_exhaust_after_budget() {
    let mut handler = IoHandler::new(3);
    for _ in 0..3 {
        assert_eq!(handler.handle(FailureKind::Timeout), RetryPolicy::WaitRetry(1000));
    }
    assert_eq!(
        handler.handle(FailureKind::Timeout),
        RetryPolicy::ForwardError(DeliveryError::Exhausted)
    );
    assert_eq!(handler.current_attempt, 4);
    assert_eq!(RETRY_DELAY_MS, 1000);
}

#[test]
fn server_error_is_permanent() {
    let mut handler = IoHandler::new(5);
    assert_eq!(
        handler.handle(FailureKind::ServerError),
        RetryPolicy::ForwardError(DeliveryError::Permanent)
    );
    assert_eq!(handler.current_attempt, 1);
}

#[test]
fn other_failures_repeat_at_once() {
    let mut handler = IoHandler::new(2);
    assert_eq!(handler.handle(FailureKind::Other), RetryPolicy::Repeat);
    assert_eq!(handler.handle(FailureKind::Other), RetryPolicy::Repeat);
    assert_eq!(
        handler.handle(FailureKind::Other),
        RetryPolicy::ForwardError(DeliveryError::Exhausted)
    );
}

#[test]
fn zero_budget_never_retries() {
    let mut handler = IoHandler::new(0);
    assert_eq!(
        handler.handle(FailureKind::ServerError),
        RetryPolicy::ForwardError(DeliveryError::Exhausted)
    );
    assert_eq!(handler.current_attempt, 1);
}

#[test]
fn spent_budget_still_counts_failures() {
    let mut handler = IoHandler { max_attempts: 3, current_attempt: 3 };
    assert_eq!(
        handler.handle(FailureKind::Other),
        RetryPolicy::ForwardError(DeliveryError::Exhausted)
    );
    assert_eq!(handler.current_attempt, 4);
}

#[test]
fn engine_request_targets_accounts_endpoint() {
    let client = Client::new(5000, 4);
    let request = client.create_engine_account("http://127.0.0.1:3000", "42").unwrap();
    assert_eq!(request.url, "http://127.0.0.1:3000/accounts");
    assert_eq!(request.body, "{\"id\":\"42\"}");
    assert_eq!(request.timeout_ms, 5000);
    assert_eq!(request.handler, IoHandler::new(4));
}

#[test]
fn engine_request_keeps_base_path() {
    let client = Client::new(1, 0);
    let request = client.create_engine_account("http://engine.example/settle", "alice").unwrap();
    assert_eq!(request.url, "http://engine.example/settle/accounts");
    assert_eq!(request.body, "{\"id\":\"alice\"}");
}

#[test]
fn engine_url_without_base_is_refused() {
    let client = Client::new(1, 0);
    assert!(client.create_engine_account("mailto:someone@example.com", "1").is_none());
    assert!(client.create_engine_account("not a url", "1").is_none());
}

#[test]
fn config_help_names_json() {
    assert_eq!(get_config_help(), "Name of config file (in a format of: JSON)");
}

#[test]
fn engine_request_escapes_id() {
    let client = Client::new(1, 0);
    let request = client.create_engine_account("http://127.0.0.1:3000", "a\"b").unwrap();
    assert_eq!(request.body, "{\"id\":\"a\\\"b\"}");
}
