use general_etl::config::settings::{AuthConfig, AuthCredentials, AuthType, RetryConfig};
use general_etl::extractors::api_client::{
    header_value_is_valid, ApiClient, AttemptOutcome, AuthHeader, FetchStep, RetryState,
};
use general_etl::utils::error::EtlError;

fn credentials() -> AuthCredentials {
    AuthCredentials { username: None, password: None, token: None, api_key: None, header_name: None }
}

fn policy(max_attempts: u32, initial: u64, max: u64, permille: u64) -> RetryConfig {
    RetryConfig {
        max_attempts,
        initial_delay_ms: initial,
        max_delay_ms: max,
        backoff_multiplier_permille: permille,
    }
}

fn transient() -> AttemptOutcome {
    AttemptOutcome::TransportFailure { timeout: true, connect: false, message: "timed out".to_string() }
}

#[test]
fn client_allows_thirty_seconds() {
    assert_eq!(ApiClient::new().default_timeout_secs(), 30);
}

#[test]
fn basic_auth_needs_both_credentials() {
    let client = ApiClient::new();
    let mut c = credentials();
    c.username = Some("u".to_string());
    let error = client
        .apply_auth(AuthConfig { auth_type: AuthType::BasicAuth, credentials: c.clone() })
        .unwrap_err();
    assert_eq!(error.to_string(), "Authentication error: Basic auth requires username and password");
    c.password = Some("p".to_string());
    let header = client.apply_auth(AuthConfig { auth_type: AuthType::BasicAuth, credentials: c }).unwrap();
    assert_eq!(header, AuthHeader::Basic { username: "u".to_string(), password: "p".to_string() });
}

#[test]
fn bearer_auth_needs_a_token() {
    let client = ApiClient::new();
    let mut c = credentials();
    let error = client
        .apply_auth(AuthConfig { auth_type: AuthType::BearerToken, credentials: c.clone() })
        .unwrap_err();
    assert_eq!(error.to_string(), "Authentication error: Bearer auth requires token");
    c.token = Some("t".to_string());
    let header = client.apply_auth(AuthConfig { auth_type: AuthType::BearerToken, credentials: c }).unwrap();
    assert_eq!(header, AuthHeader::Bearer { token: "t".to_string() });
}

#[test]
fn api_key_auth_needs_key_and_header_name() {
    let client = ApiClient::new();
    let mut c = credentials();
    c.api_key = Some("k".to_string());
    let error = client
        .apply_auth(AuthConfig { auth_type: AuthType::ApiKey, credentials: c.clone() })
        .unwrap_err();
    assert_eq!(
        error.to_string(),
        "Authentication error: API key auth requires api_key and header_name"
    );
    c.header_name = Some("X-Api-Key".to_string());
    let header = client.apply_auth(AuthConfig { auth_type: AuthType::ApiKey, credentials: c.clone() }).unwrap();
    assert_eq!(header, AuthHeader::Header { name: "X-Api-Key".to_string(), value: "k".to_string() });
    c.header_name = Some("bad name".to_string());
    let error = client.apply_auth(AuthConfig { auth_type: AuthType::ApiKey, credentials: c }).unwrap_err();
    assert_eq!(error.to_string(), "Configuration error: Invalid header name 'bad name'");
}

#[test]
fn oauth2_fails_fast() {
    let client = ApiClient::new();
    let mut c = credentials();
    c.token = Some("t".to_string());
    let error = client.apply_auth(AuthConfig { auth_type: AuthType::OAuth2, credentials: c }).unwrap_err();
    assert_eq!(error.to_string(), "Configuration error: OAuth2 authentication not yet implemented");
}

#[test]
fn request_defaults_to_get_and_the_default_policy() {
    let client = ApiClient::new();
    let plan = client.prepare_request("http://x/y", None, None, None, None).unwrap();
    assert_eq!(plan.method, "GET");
    assert_eq!(plan.url, "http://x/y");
    assert!(plan.headers.is_empty());
    assert_eq!(plan.auth, None);
    assert_eq!(plan.timeout_secs, 30);
    assert_eq!(plan.retry, policy(3, 500, 60000, 1500));
}

#[test]
fn request_keeps_what_it_is_given() {
    let client = ApiClient::new();
    let headers = vec![("Accept".to_string(), "text/csv".to_string())];
    let mut c = credentials();
    c.token = Some("t".to_string());
    let plan = client
        .prepare_request(
            "http://x",
            Some("POST".to_string()),
            Some(headers.clone()),
            Some(AuthConfig { auth_type: AuthType::BearerToken, credentials: c }),
            Some(policy(5, 10, 100, 2000)),
        )
        .unwrap();
    assert_eq!(plan.method, "POST");
    assert_eq!(plan.headers, headers);
    assert_eq!(plan.auth, Some(AuthHeader::Bearer { token: "t".to_string() }));
    assert_eq!(plan.retry, policy(5, 10, 100, 2000));
}

#[test]
fn invalid_method_is_refused() {
    let client = ApiClient::new();
    let error = client.prepare_request("http://x", Some("GE T".to_string()), None, None, None).unwrap_err();
    assert_eq!(error.to_string(), "Configuration error: Invalid HTTP method: GE T");
    let error = client.prepare_request("http://x", Some(String::new()), None, None, None).unwrap_err();
    assert!(matches!(error, EtlError::ConfigError(_)));
}

#[test]
fn first_invalid_header_is_reported() {
    let client = ApiClient::new();
    let headers = vec![
        ("Accept".to_string(), "a".to_string()),
        ("X-Bad".to_string(), "line\nbreak".to_string()),
        ("bad name".to_string(), "v".to_string()),
    ];
    let error = client.prepare_request("http://x", None, Some(headers), None, None).unwrap_err();
    assert_eq!(error.to_string(), "Configuration error: Invalid header value for 'X-Bad'");
    let error = client.check_headers(&vec![("a b".to_string(), "v".to_string())]).unwrap_err();
    assert_eq!(error.to_string(), "Configuration error: Invalid header name 'a b'");
    assert!(client.check_headers(&Vec::new()).is_ok());
}

#[test]
fn method_is_checked_before_headers_and_auth() {
    let client = ApiClient::new();
    let headers = vec![("bad name".to_string(), "v".to_string())];
    let error = client
        .prepare_request(
            "http://x",
            Some("a b".to_string()),
            Some(headers),
            Some(AuthConfig { auth_type: AuthType::OAuth2, credentials: credentials() }),
            None,
        )
        .unwrap_err();
    assert_eq!(error.to_string(), "Configuration error: Invalid HTTP method: a b");
}

#[test]
fn transient_failures_are_retried_up_to_the_limit() {
    let (mut state, step) = RetryState::start(policy(4, 100, 1000, 2000));
    assert!(matches!(step, FetchStep::Send));
    assert_eq!(state.attempts_made(), 1);
    let mut delays = Vec::new();
    loop {
        let (next, step) = state.on_outcome(transient());
        state = next;
        match step {
            FetchStep::RetryAfter { delay_ms } => delays.push(delay_ms),
            FetchStep::Fail(EtlError::ApiError(m)) => {
                assert_eq!(m, "timed out");
                break;
            }
            other => panic!("unexpected step {:?}", other),
        }
    }
    assert_eq!(delays, vec![100, 200, 400]);
    assert_eq!(state.attempts_made(), 4);
}

#[test]
fn delays_never_shrink_and_are_capped() {
    let (mut state, _) = RetryState::start(policy(8, 300, 1000, 1500));
    let mut delays = Vec::new();
    loop {
        let (next, step) = state.on_outcome(AttemptOutcome::TransportFailure {
            timeout: false,
            connect: true,
            message: "refused".to_string(),
        });
        state = next;
        match step {
            FetchStep::RetryAfter { delay_ms } => delays.push(delay_ms),
            _ => break,
        }
    }
    assert_eq!(delays, vec![300, 450, 675, 1000, 1000, 1000, 1000]);
    assert!(delays.windows(2).all(|w| w[0] <= w[1]));
    assert_eq!(state.attempts_made(), 8);
}

#[test]
fn a_multiplier_below_one_does_not_shrink_the_delay() {
    let (state, _) = RetryState::start(policy(3, 100, 1000, 500));
    let (state, step) = state.on_outcome(transient());
    assert!(matches!(step, FetchStep::RetryAfter { delay_ms: 100 }));
    let (_, step) = state.on_outcome(transient());
    assert!(matches!(step, FetchStep::RetryAfter { delay_ms: 100 }));
}

#[test]
fn initial_delay_is_capped_at_the_longest_delay() {
    let (state, _) = RetryState::start(policy(3, 5000, 1000, 2000));
    let (_, step) = state.on_outcome(transient());
    assert!(matches!(step, FetchStep::RetryAfter { delay_ms: 1000 }));
}

#[test]
fn huge_delays_do_not_overflow() {
    let (state, _) = RetryState::start(policy(3, u64::MAX, u64::MAX, u64::MAX));
    let (state, step) = state.on_outcome(transient());
    assert!(matches!(step, FetchStep::RetryAfter { delay_ms: u64::MAX }));
    let (_, step) = state.on_outcome(transient());
    assert!(matches!(step, FetchStep::RetryAfter { delay_ms: u64::MAX }));
}

#[test]
fn no_attempt_is_made_where_none_is_allowed() {
    let (state, step) = RetryState::start(policy(0, 100, 1000, 2000));
    assert_eq!(state.attempts_made(), 0);
    match step {
        FetchStep::Fail(e) => assert_eq!(e.to_string(), "Request error: Retry policy allows no attempt"),
        other => panic!("unexpected step {:?}", other),
    }
}

#[test]
fn a_response_that_is_no_success_is_not_retried() {
    for status in [199u16, 300, 404, 500, 503] {
        let (state, _) = RetryState::start(policy(5, 100, 1000, 2000));
        let (state, step) = state.on_outcome(AttemptOutcome::Response { status });
        assert_eq!(state.attempts_made(), 1);
        match step {
            FetchStep::Fail(EtlError::HttpError(code, message)) => {
                assert_eq!(code, status);
                assert_eq!(message, format!("HTTP request failed: {}", status));
            }
            other => panic!("unexpected step {:?}", other),
        }
    }
}

#[test]
fn http_error_is_written_with_its_status() {
    let (state, _) = RetryState::start(policy(5, 100, 1000, 2000));
    let (_, step) = state.on_outcome(AttemptOutcome::Response { status: 404 });
    match step {
        FetchStep::Fail(e) => assert_eq!(e.to_string(), "HTTP error 404: HTTP request failed: 404"),
        other => panic!("unexpected step {:?}", other),
    }
}

#[test]
fn a_success_ends_the_request() {
    for status in [200u16, 204, 299] {
        let (state, _) = RetryState::start(policy(5, 100, 1000, 2000));
        let (state, step) = state.on_outcome(AttemptOutcome::Response { status });
        assert!(matches!(step, FetchStep::Succeed));
        assert_eq!(state.attempts_made(), 1);
    }
}

#[test]
fn a_success_after_a_retry() {
    let (state, _) = RetryState::start(policy(5, 100, 1000, 2000));
    let (state, step) = state.on_outcome(transient());
    assert!(matches!(step, FetchStep::RetryAfter { delay_ms: 100 }));
    let (state, step) = state.on_outcome(AttemptOutcome::Response { status: 200 });
    assert!(matches!(step, FetchStep::Succeed));
    assert_eq!(state.attempts_made(), 2);
}

#[test]
fn other_transport_failures_are_not_retried() {
    let (state, _) = RetryState::start(policy(5, 100, 1000, 2000));
    let (state, step) = state.on_outcome(AttemptOutcome::TransportFailure {
        timeout: false,
        connect: false,
        message: "bad body".to_string(),
    });
    assert_eq!(state.attempts_made(), 1);
    match step {
        FetchStep::Fail(e) => assert_eq!(e.to_string(), "API request failed: bad body"),
        other => panic!("unexpected step {:?}", other),
    }
}

#[test]
fn clone_failure_and_cancellation_end_the_request() {
    let (state, _) = RetryState::start(policy(5, 100, 1000, 2000));
    let (_, step) = state.on_outcome(AttemptOutcome::CloneFailed);
    match step {
        FetchStep::Fail(e) => assert_eq!(e.to_string(), "Request error: Failed to clone request"),
        other => panic!("unexpected step {:?}", other),
    }
    let (state, _) = RetryState::start(policy(5, 100, 1000, 2000));
    let (_, step) = state.on_outcome(AttemptOutcome::Cancelled);
    match step {
        FetchStep::Fail(e) => assert_eq!(e.to_string(), "Request error: Request cancelled"),
        other => panic!("unexpected step {:?}", other),
    }
}

#[test]
fn a_header_value_holds_tabs_and_bytes_from_the_space_on_but_delete() {
    assert!(header_value_is_valid(""));
    assert!(header_value_is_valid("application/json; charset=utf-8"));
    assert!(header_value_is_valid("a\tb"));
    assert!(header_value_is_valid("caf\u{e9} \u{4e16}"));
    assert!(!header_value_is_valid("a\nb"));
    assert!(!header_value_is_valid("a\rb"));
    assert!(!header_value_is_valid("\u{0}"));
    assert!(!header_value_is_valid("a\u{1f}"));
    assert!(!header_value_is_valid("x\u{7f}y"));
    for text in ["", "v", "a\tb", "caf\u{e9}", "a\nb", "\u{7f}", "\u{1b}[0m"] {
        assert_eq!(
            header_value_is_valid(text),
            reqwest::header::HeaderValue::from_str(text).is_ok()
        );
    }
}
