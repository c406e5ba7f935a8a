use rustagent::api::{
    backoff_delay, classify_error, classify_lowercase_error, is_transient, ApiErrorCategory,
    AttemptOutcome, RetryAction, RetryState, MAX_ATTEMPTS,
};

#[test]
fn classifies_auth() {
    assert_eq!(
        classify_error("401 Unauthorized: invalid api key"),
        ApiErrorCategory::Authentication
    );
}

#[test]
fn classifies_rate_limit() {
    assert_eq!(
        classify_error("429 Too Many Requests"),
        ApiErrorCategory::RateLimit
    );
}

#[test]
fn classifies_network() {
    assert_eq!(
        classify_error("connection refused"),
        ApiErrorCategory::Network
    );
}

#[test]
fn classifies_timeout() {
    assert_eq!(
        classify_error("request timed out"),
        ApiErrorCategory::Timeout
    );
}

#[test]
fn classifies_unknown_as_other() {
    assert_eq!(classify_error("some weird error"), ApiErrorCategory::Other);
}

#[test]
fn classifies_model_errors() {
    assert_eq!(classify_error("502 Bad Gateway"), ApiErrorCategory::Model);
    assert_eq!(classify_error("Provider said no"), ApiErrorCategory::Model);
}

#[test]
fn classification_order_prefers_authentication() {
    // Mentions both an auth keyword and a network keyword: auth comes first.
    assert_eq!(
        classify_error("403 Forbidden over HTTP"),
        ApiErrorCategory::Authentication
    );
    // "HTTP" is a network keyword and is checked before timeouts.
    assert_eq!(classify_error("http deadline"), ApiErrorCategory::Network);
}

#[test]
fn classification_is_case_insensitive() {
    assert_eq!(classify_error("CONNECTION RESET"), ApiErrorCategory::Network);
    assert_eq!(classify_error("Quota exceeded"), ApiErrorCategory::RateLimit);
}

#[test]
fn classify_lowercase_error_takes_lowered_text() {
    assert_eq!(classify_lowercase_error("deadline exceeded"), ApiErrorCategory::Timeout);
    // Upper-case text is not lowered by this function.
    assert_eq!(classify_lowercase_error("DEADLINE"), ApiErrorCategory::Other);
}

#[test]
fn user_messages_are_category_specific() {
    assert!(ApiErrorCategory::Authentication.user_message().contains("ALBERT_API_KEY"));
    assert!(ApiErrorCategory::RateLimit.user_message().contains("rate-limiting"));
    assert!(ApiErrorCategory::Network.user_message().contains("network error"));
    assert_eq!(
        ApiErrorCategory::Timeout.user_message(),
        "The request to the Albert API timed out. Please try again."
    );
    assert!(ApiErrorCategory::Model.user_message().contains("rephrasing"));
    assert!(ApiErrorCategory::Other.user_message().contains("unexpected error"));
    assert_eq!(
        ApiErrorCategory::Authentication.user_message(),
        "Authentication failed. Please check your Albert API key \u{2014} it may be missing, invalid, or expired. Set the ALBERT_API_KEY environment variable or update your config file."
    );
}

#[test]
fn transient_categories() {
    assert!(is_transient(ApiErrorCategory::Network));
    assert!(is_transient(ApiErrorCategory::Timeout));
    assert!(is_transient(ApiErrorCategory::RateLimit));
    assert!(!is_transient(ApiErrorCategory::Authentication));
    assert!(!is_transient(ApiErrorCategory::Model));
    assert!(!is_transient(ApiErrorCategory::Other));
}

#[test]
fn backoff_doubles_and_is_capped() {
    assert_eq!(backoff_delay(0), 500);
    assert_eq!(backoff_delay(1), 1000);
    assert_eq!(backoff_delay(2), 2000);
    assert_eq!(backoff_delay(3), 4000);
    assert_eq!(backoff_delay(4), 4000);
    assert_eq!(backoff_delay(u32::MAX), 4000);
}

/// Drives the retry policy with the given outcomes and returns the final
/// action together with the number of attempts made and the delays waited.
fn drive(outcomes: Vec<AttemptOutcome>) -> (RetryAction, usize, Vec<u64>) {
    let mut state = RetryState::new();
    let mut attempts = 0;
    let mut delays = Vec::new();
    for outcome in outcomes {
        attempts += 1;
        match state.step(outcome) {
            RetryAction::Retry(ms) => delays.push(ms),
            done => return (done, attempts, delays),
        }
    }
    panic!("the policy never stopped");
}

#[test]
fn retry_policy_retries_transient_then_succeeds() {
    let (action, attempts, delays) = drive(vec![
        AttemptOutcome::Failure("connection reset".to_string()),
        AttemptOutcome::Failure("connection reset".to_string()),
        AttemptOutcome::Success("success".to_string()),
    ]);
    match action {
        RetryAction::Succeed(r) => assert_eq!(r, "success"),
        _ => panic!("expected success"),
    }
    assert_eq!(attempts, 3);
    assert_eq!(delays, vec![500, 1000]);
}

#[test]
fn retry_policy_does_not_retry_non_transient() {
    let (action, attempts, delays) = drive(vec![
        AttemptOutcome::Failure("401 Unauthorized".to_string()),
        AttemptOutcome::Success("never reached".to_string()),
    ]);
    match action {
        RetryAction::Fail(c, m) => {
            assert_eq!(c, ApiErrorCategory::Authentication);
            assert_eq!(m, ApiErrorCategory::Authentication.user_message());
        }
        _ => panic!("expected failure"),
    }
    assert_eq!(attempts, 1);
    assert!(delays.is_empty());
}

#[test]
fn retry_policy_gives_up_after_max_attempts_with_details() {
    let (action, attempts, _) = drive(vec![
        AttemptOutcome::Failure("connection refused".to_string()),
        AttemptOutcome::TimedOut,
        AttemptOutcome::Failure("429 Too Many Requests".to_string()),
        AttemptOutcome::Success("never reached".to_string()),
    ]);
    assert_eq!(attempts as u32, MAX_ATTEMPTS);
    match action {
        RetryAction::Fail(c, m) => {
            assert_eq!(c, ApiErrorCategory::RateLimit);
            assert_eq!(
                m,
                format!(
                    "{}\n\nDetails: 429 Too Many Requests",
                    ApiErrorCategory::RateLimit.user_message()
                )
            );
        }
        _ => panic!("expected failure"),
    }
}

#[test]
fn retry_policy_reports_timeouts() {
    let (action, attempts, delays) = drive(vec![
        AttemptOutcome::TimedOut,
        AttemptOutcome::TimedOut,
        AttemptOutcome::TimedOut,
    ]);
    assert_eq!(attempts, 3);
    assert_eq!(delays, vec![500, 1000]);
    match action {
        RetryAction::Fail(c, m) => {
            assert_eq!(c, ApiErrorCategory::Timeout);
            assert!(m.ends_with("\n\nDetails: request timed out"));
        }
        _ => panic!("expected failure"),
    }
}
