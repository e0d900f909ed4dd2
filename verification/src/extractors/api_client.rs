use crate::config::settings::{AuthConfig, AuthType, RetryConfig};
use crate::utils::error::{EtlError, Result};
use crate::utils::text::{decimal_digits, decimal_text, text_concat};
use vstd::prelude::*;
use vstd::string::StringExecFns;

verus! {

/// Whether `reqwest::Method::from_bytes` accepts a text as an HTTP method.
pub uninterp spec fn http_method_accepts(text: Seq<char>) -> bool;

/// Whether `reqwest::header::HeaderName::from_bytes` accepts a text as the
/// name of a header.
pub uninterp spec fn header_name_accepts(text: Seq<char>) -> bool;

/// Whether a byte can stand in the value of a header: a tab, or any byte
/// from 32 on but 127.
pub open spec fn is_value_byte(byte: u8) -> bool {
    byte == 9 || (byte >= 32 && byte != 127)
}

/// Whether a text can be the value of a header: every byte of its UTF-8
/// form can stand in one.
pub open spec fn header_value_accepts(text: Seq<char>) -> bool {
    forall|i: int|
        0 <= i < vstd::utf8::encode_utf8(text).len() ==> is_value_byte(
            #[trigger] vstd::utf8::encode_utf8(text)[i],
        )
}

/// Asks `reqwest::Method::from_bytes` whether a text is an HTTP method.
#[verifier::external_body]
fn method_is_valid(text: &str) -> (r: bool)
    ensures
        r == http_method_accepts(text@),
{
    reqwest::Method::from_bytes(text.as_bytes()).is_ok()
}

/// Asks `reqwest::header::HeaderName::from_bytes` whether a text can name a
/// header.
#[verifier::external_body]
fn header_name_is_valid(text: &str) -> (r: bool)
    ensures
        r == header_name_accepts(text@),
{
    reqwest::header::HeaderName::from_bytes(text.as_bytes()).is_ok()
}

/// Whether a text can be the value of a header. This is the test that
/// `reqwest::header::HeaderValue::from_str` makes of a text, byte by byte.
pub fn header_value_is_valid(text: &str) -> (r: bool)
    ensures
        r == header_value_accepts(text@),
{
    let bytes = text.as_bytes();
    let mut i: usize = 0;
    while i < bytes.len()
        invariant
            i <= bytes.len(),
            bytes@ == vstd::utf8::encode_utf8(text@),
            forall|k: int| 0 <= k < i ==> is_value_byte(#[trigger] bytes@[k]),
        decreases bytes.len() - i,
    {
        let byte: u8 = bytes[i];
        if !(byte == 9 || (byte >= 32 && byte != 127)) {
            assert(!is_value_byte(vstd::utf8::encode_utf8(text@)[i as int]));
            return false;
        }
        i += 1;
    }
    true
}

/// The credentials that a request carries, in the form in which they are
/// put on it.
#[derive(Debug, PartialEq, Eq)]
pub enum AuthHeader {
    /// A user name and a password for basic authentication.
    Basic { username: String, password: String },
    /// A bearer token.
    Bearer { token: String },
    /// A key sent in a header of its own.
    Header { name: String, value: String },
}

/// The mathematical value of an [`AuthHeader`].
pub enum AuthHeaderModel {
    Basic { username: Seq<char>, password: Seq<char> },
    Bearer { token: Seq<char> },
    Header { name: Seq<char>, value: Seq<char> },
}

impl View for AuthHeader {
    type V = AuthHeaderModel;

    open spec fn view(&self) -> AuthHeaderModel {
        match self {
            AuthHeader::Basic { username, password } => AuthHeaderModel::Basic {
                username: username@,
                password: password@,
            },
            AuthHeader::Bearer { token } => AuthHeaderModel::Bearer { token: token@ },
            AuthHeader::Header { name, value } => AuthHeaderModel::Header {
                name: name@,
                value: value@,
            },
        }
    }
}

/// Why a request cannot be prepared: the kind of the error and its message.
pub type PlanFailure = (crate::utils::error::ErrorKind, Seq<char>);

/// What applying an authentication scheme gives: the credentials to put on
/// the request, or why there are none.
pub open spec fn auth_outcome(auth: AuthConfig) -> core::result::Result<
    AuthHeaderModel,
    PlanFailure,
> {
    match auth.auth_type {
        AuthType::BasicAuth => match (auth.credentials.username, auth.credentials.password) {
            (Some(username), Some(password)) => Ok(
                AuthHeaderModel::Basic { username: username@, password: password@ },
            ),
            _ => Err(
                (crate::utils::error::ErrorKind::Auth, "Basic auth requires username and password"@),
            ),
        },
        AuthType::BearerToken => match auth.credentials.token {
            Some(token) => Ok(AuthHeaderModel::Bearer { token: token@ }),
            None => Err((crate::utils::error::ErrorKind::Auth, "Bearer auth requires token"@)),
        },
        AuthType::ApiKey => match (auth.credentials.api_key, auth.credentials.header_name) {
            (Some(api_key), Some(header_name)) => if !header_name_accepts(header_name@) {
                Err(
                    (
                        crate::utils::error::ErrorKind::Config,
                        "Invalid header name '"@ + header_name@ + "'"@,
                    ),
                )
            } else if !header_value_accepts(api_key@) {
                Err(
                    (
                        crate::utils::error::ErrorKind::Config,
                        "Invalid header value for '"@ + header_name@ + "'"@,
                    ),
                )
            } else {
                Ok(AuthHeaderModel::Header { name: header_name@, value: api_key@ })
            },
            _ => Err(
                (
                    crate::utils::error::ErrorKind::Auth,
                    "API key auth requires api_key and header_name"@,
                ),
            ),
        },
        AuthType::OAuth2 => Err(
            (
                crate::utils::error::ErrorKind::Config,
                "OAuth2 authentication not yet implemented"@,
            ),
        ),
    }
}

/// Whether an error is of the given kind and carries the given message.
pub open spec fn error_is(error: EtlError, failure: PlanFailure) -> bool {
    error.kind() == failure.0 && error.detail() == Some(failure.1)
}

/// What is wrong with a header, if anything: its name is checked first.
pub open spec fn header_failure(header: (String, String)) -> Option<PlanFailure> {
    if !header_name_accepts(header.0@) {
        Some((crate::utils::error::ErrorKind::Config, "Invalid header name '"@ + header.0@ + "'"@))
    } else if !header_value_accepts(header.1@) {
        Some(
            (
                crate::utils::error::ErrorKind::Config,
                "Invalid header value for '"@ + header.0@ + "'"@,
            ),
        )
    } else {
        None
    }
}

/// What is wrong with the first header that has something wrong, if any has.
pub open spec fn headers_failure(headers: Seq<(String, String)>) -> Option<PlanFailure>
    decreases headers.len(),
{
    if headers.len() == 0 {
        None
    } else {
        match headers_failure(headers.drop_last()) {
            Some(failure) => Some(failure),
            None => header_failure(headers.last()),
        }
    }
}

/// The text of a string that may be absent.
pub open spec fn option_text(text: Option<String>) -> Option<Seq<char>> {
    match text {
        Some(t) => Some(t@),
        None => None,
    }
}

/// What is wrong with a method, if anything.
pub open spec fn method_failure(method: Option<Seq<char>>) -> Option<PlanFailure> {
    match method {
        Some(m) => if http_method_accepts(m) {
            None
        } else {
            Some((crate::utils::error::ErrorKind::Config, "Invalid HTTP method: "@ + m))
        },
        None => None,
    }
}

/// The headers given, or none.
pub open spec fn headers_or_none(headers: Option<Vec<(String, String)>>) -> Seq<(String, String)> {
    match headers {
        Some(h) => h@,
        None => Seq::empty(),
    }
}

/// Why a request cannot be prepared, if it cannot: the method is checked
/// first, then the headers in their order, then the credentials.
pub open spec fn plan_failure(
    method: Option<Seq<char>>,
    headers: Option<Vec<(String, String)>>,
    auth: Option<AuthConfig>,
) -> Option<PlanFailure> {
    match method_failure(method) {
        Some(failure) => Some(failure),
        None => match headers_failure(headers_or_none(headers)) {
            Some(failure) => Some(failure),
            None => match auth {
                Some(a) => match auth_outcome(a) {
                    Err(failure) => Some(failure),
                    Ok(_) => None,
                },
                None => None,
            },
        },
    }
}

/// The names and values of a list of headers.
pub open spec fn header_texts(headers: Seq<(String, String)>) -> Seq<(Seq<char>, Seq<char>)> {
    headers.map_values(|h: (String, String)| (h.0@, h.1@))
}

/// The retry policy of a request that names none: three attempts, half a
/// second before the first retry, half as much again before each further
/// one, and never more than a minute.
pub open spec fn default_retry() -> RetryConfig {
    RetryConfig {
        max_attempts: 3,
        initial_delay_ms: 500,
        max_delay_ms: 60000,
        backoff_multiplier_permille: 1500,
    }
}

/// A request that passed every check, ready to be sent.
#[derive(Debug)]
pub struct RequestPlan {
    pub url: String,
    pub method: String,
    pub headers: Vec<(String, String)>,
    pub auth: Option<AuthHeader>,
    pub timeout_secs: u64,
    pub retry: RetryConfig,
}

/// Whether a request is the one that these arguments ask for: their
/// address, their method, and GET where they name none, their headers in
/// order, the credentials that their authentication scheme gives, their
/// retry policy, and the default where they name none, and the time that a
/// client allows for one request.
pub open spec fn plan_is(
    plan: RequestPlan,
    url: Seq<char>,
    method: Option<Seq<char>>,
    headers: Option<Vec<(String, String)>>,
    auth: Option<AuthConfig>,
    retry: Option<RetryConfig>,
    timeout_secs: u64,
) -> bool {
    &&& plan.url@ == url
    &&& plan.method@ == (match method {
        Some(m) => m,
        None => "GET"@,
    })
    &&& header_texts(plan.headers@) == header_texts(headers_or_none(headers))
    &&& match auth {
        Some(a) => plan.auth matches Some(h) && auth_outcome(a) == Ok::<
            AuthHeaderModel,
            PlanFailure,
        >(h@),
        None => plan.auth is None,
    }
    &&& plan.timeout_secs == timeout_secs
    &&& plan.retry == (match retry {
        Some(policy) => policy,
        None => default_retry(),
    })
}

/// How one attempt to send a request ended.
#[derive(Debug)]
pub enum AttemptOutcome {
    /// A response arrived, with this status code.
    Response { status: u16 },
    /// No response arrived: the transport failed, by a timeout, while
    /// connecting, or otherwise.
    TransportFailure { timeout: bool, connect: bool, message: String },
    /// The request could not be copied for sending.
    CloneFailed,
    /// The run was cancelled.
    Cancelled,
}

/// What to do next with a request.
#[derive(Debug)]
pub enum FetchStep {
    /// Send the request now.
    Send,
    /// Wait for so many milliseconds, then send the request again.
    RetryAfter { delay_ms: u64 },
    /// The response is the result.
    Succeed,
    /// Give up with this error.
    Fail(EtlError),
}

/// The multiplier of a policy in thousandths, and a thousand where the
/// policy names less: a delay never shrinks.
pub open spec fn growth(policy: RetryConfig) -> int {
    if policy.backoff_multiplier_permille < 1000 {
        1000
    } else {
        policy.backoff_multiplier_permille as int
    }
}

/// The delay that follows `delay`: the delay times the multiplier, capped
/// at the longest delay of the policy.
pub open spec fn next_delay(policy: RetryConfig, delay: int) -> int {
    let grown = delay * growth(policy) / 1000;
    if grown <= policy.max_delay_ms {
        grown
    } else {
        policy.max_delay_ms as int
    }
}

/// The delay before retry number `k`, counted from one: the initial delay,
/// capped, before the first, and the delay that follows the one before for
/// every further retry.
pub open spec fn retry_delay(policy: RetryConfig, k: nat) -> int
    decreases k,
{
    if k <= 1 {
        if policy.initial_delay_ms <= policy.max_delay_ms {
            policy.initial_delay_ms as int
        } else {
            policy.max_delay_ms as int
        }
    } else {
        next_delay(policy, retry_delay(policy, (k - 1) as nat))
    }
}

/// No delay of a policy is negative or longer than its longest delay, and
/// none is shorter than the one before.
pub proof fn law_retry_delays_bounded(policy: RetryConfig, k: nat)
    ensures
        0 <= retry_delay(policy, k) <= policy.max_delay_ms,
        retry_delay(policy, k) <= retry_delay(policy, k + 1),
    decreases k,
{
    if k > 1 {
        law_retry_delays_bounded(policy, (k - 1) as nat);
    }
    let d = retry_delay(policy, k);
    let prev = retry_delay(policy, (k - 1) as nat);
    let g = growth(policy);
    if k > 1 {
        assert(0 <= prev * g / 1000) by (nonlinear_arith)
            requires
                0 <= prev,
                1000 <= g,
        ;
    }
    assert(d <= d * g / 1000) by (nonlinear_arith)
        requires
            0 <= d,
            1000 <= g,
    ;
}

/// The delays of a policy never shrink from one retry to a later one.
pub proof fn law_retry_delays_never_shrink(policy: RetryConfig, i: nat, j: nat)
    requires
        i <= j,
    ensures
        retry_delay(policy, i) <= retry_delay(policy, j),
    decreases j - i,
{
    if i < j {
        law_retry_delays_bounded(policy, i);
        law_retry_delays_never_shrink(policy, i + 1, j);
    }
}

/// Where a request stands between attempts: its policy and the number of
/// attempts made so far.
#[derive(Debug)]
pub struct RetryState {
    policy: RetryConfig,
    attempts: u32,
    delay_ms: u64,
}

impl RetryState {
    #[verifier::type_invariant]
    spec fn consistent(self) -> bool {
        &&& self.attempts <= self.policy.max_attempts
        &&& self.attempts >= 1 || self.policy.max_attempts == 0
        &&& self.delay_ms == retry_delay(self.policy, self.attempts as nat)
    }

    /// The policy that the request is sent under.
    pub closed spec fn policy(self) -> RetryConfig {
        self.policy
    }

    /// The number of attempts made so far, the one under way included.
    pub closed spec fn attempts(self) -> nat {
        self.attempts as nat
    }

    /// The number of attempts made so far, the one under way included.
    pub fn attempts_made(&self) -> (n: u32)
        ensures
            n == self.attempts(),
            n <= self.policy().max_attempts,
    {
        proof {
            use_type_invariant(self);
        }
        self.attempts
    }
}

/// The step that follows an attempt, and the state after it.
///
/// Any response ends the request: a status from 200 to 299 succeeds, any
/// other fails with that status, and neither is followed by another attempt.
/// A failure of the transport by a timeout or while connecting is followed
/// by another attempt, after the delay of the policy, as long as the policy
/// allows one more; else, and for any other failure, the request fails.
pub open spec fn step_after(state: RetryState, outcome: AttemptOutcome, step: FetchStep) -> bool {
    match outcome {
        AttemptOutcome::Response { status } => if 200 <= status <= 299 {
            step is Succeed
        } else {
            step matches FetchStep::Fail(EtlError::HttpError(code, m)) && code == status && m@
                == "HTTP request failed: "@ + decimal_digits(status as nat)
        },
        AttemptOutcome::TransportFailure { timeout, connect, message } => if (timeout || connect)
            && state.attempts() < state.policy().max_attempts {
            step matches FetchStep::RetryAfter { delay_ms } && delay_ms == retry_delay(
                state.policy(),
                state.attempts(),
            )
        } else {
            step matches FetchStep::Fail(EtlError::ApiError(m)) && m@ == message@
        },
        AttemptOutcome::CloneFailed => step matches FetchStep::Fail(EtlError::RequestError(m))
            && m@ == "Failed to clone request"@,
        AttemptOutcome::Cancelled => step matches FetchStep::Fail(EtlError::RequestError(m)) && m@
            == "Request cancelled"@,
    }
}

impl RetryState {
    /// The state of a request before its first attempt, and the step to
    /// take: to send it, or to give up at once where the policy allows no
    /// attempt at all.
    pub fn start(policy: RetryConfig) -> (r: (RetryState, FetchStep))
        ensures
            r.0.policy() == policy,
            policy.max_attempts == 0 ==> r.0.attempts() == 0 && (r.1 matches FetchStep::Fail(
                EtlError::RequestError(m),
            ) && m@ == "Retry policy allows no attempt"@),
            policy.max_attempts > 0 ==> r.0.attempts() == 1 && r.1 is Send,
    {
        let first: u64 = if policy.initial_delay_ms <= policy.max_delay_ms {
            policy.initial_delay_ms
        } else {
            policy.max_delay_ms
        };
        if policy.max_attempts == 0 {
            (
                RetryState { policy, attempts: 0, delay_ms: first },
                FetchStep::Fail(
                    EtlError::RequestError(String::from_str("Retry policy allows no attempt")),
                ),
            )
        } else {
            (RetryState { policy, attempts: 1, delay_ms: first }, FetchStep::Send)
        }
    }

    /// Decides what follows an attempt. Only a retry counts as one attempt
    /// more.
    pub fn on_outcome(self, outcome: AttemptOutcome) -> (r: (RetryState, FetchStep))
        ensures
            step_after(self, outcome, r.1),
            r.0.policy() == self.policy(),
            r.0.attempts() == (if r.1 is RetryAfter {
                self.attempts() + 1
            } else {
                self.attempts()
            }),
            r.0.attempts() <= self.policy().max_attempts,
            r.1 matches FetchStep::RetryAfter { delay_ms } ==> delay_ms
                <= self.policy().max_delay_ms,
    {
        proof {
            use_type_invariant(&self);
            law_retry_delays_bounded(self.policy, self.attempts as nat);
        }
        match outcome {
            AttemptOutcome::Response { status } => {
                if 200 <= status && status <= 299 {
                    (self, FetchStep::Succeed)
                } else {
                    let message = text_concat(
                        "HTTP request failed: ",
                        decimal_text(status as u64).as_str(),
                    );
                    (self, FetchStep::Fail(EtlError::HttpError(status, message)))
                }
            },
            AttemptOutcome::TransportFailure { timeout, connect, message } => {
                if (timeout || connect) && self.attempts < self.policy.max_attempts {
                    let delay: u64 = self.delay_ms;
                    let factor: u64 = if self.policy.backoff_multiplier_permille < 1000 {
                        1000
                    } else {
                        self.policy.backoff_multiplier_permille
                    };
                    assert((delay as u128) * (factor as u128) <= 0xFFFF_FFFF_FFFF_FFFF
                        * 0xFFFF_FFFF_FFFF_FFFF) by (nonlinear_arith)
                        requires
                            delay <= 0xFFFF_FFFF_FFFF_FFFF,
                            factor <= 0xFFFF_FFFF_FFFF_FFFF,
                    ;
                    let grown: u128 = (delay as u128) * (factor as u128) / 1000;
                    let next: u64 = if grown <= self.policy.max_delay_ms as u128 {
                        grown as u64
                    } else {
                        self.policy.max_delay_ms
                    };
                    let state = RetryState {
                        policy: self.policy,
                        attempts: self.attempts + 1,
                        delay_ms: next,
                    };
                    (state, FetchStep::RetryAfter { delay_ms: delay })
                } else {
                    (self, FetchStep::Fail(EtlError::ApiError(message)))
                }
            },
            AttemptOutcome::CloneFailed => (
                self,
                FetchStep::Fail(EtlError::RequestError(String::from_str("Failed to clone request"))),
            ),
            AttemptOutcome::Cancelled => (
                self,
                FetchStep::Fail(EtlError::RequestError(String::from_str("Request cancelled"))),
            ),
        }
    }
}

/// The HTTP client's decisions: what a request must look like before it is
/// sent, and what follows each attempt to send it.
pub struct ApiClient {
    default_timeout_secs: u64,
}

impl ApiClient {
    /// The time allowed for one request, in seconds.
    pub closed spec fn timeout(&self) -> u64 {
        self.default_timeout_secs
    }

    /// A client that allows thirty seconds for a request.
    pub fn new() -> (r: Self)
        ensures
            r.timeout() == 30,
    {
        ApiClient { default_timeout_secs: 30 }
    }

    /// The time allowed for one request, in seconds.
    pub fn default_timeout_secs(&self) -> (r: u64)
        ensures
            r == self.timeout(),
    {
        self.default_timeout_secs
    }

    /// The credentials to put on a request under an authentication scheme.
    /// A scheme whose credentials are missing is refused, and so is OAuth2,
    /// which is not supported: no request goes out without the credentials
    /// that the configuration asks for.
    pub fn apply_auth(&self, auth_config: AuthConfig) -> (r: Result<AuthHeader>)
        ensures
            match auth_outcome(auth_config) {
                Ok(header) => r matches Ok(h) && h@ == header,
                Err(failure) => r matches Err(e) && error_is(e, failure),
            },
    {
        match auth_config.auth_type {
            AuthType::BasicAuth => {
                match (auth_config.credentials.username, auth_config.credentials.password) {
                    (Some(username), Some(password)) => Ok(
                        AuthHeader::Basic { username, password },
                    ),
                    _ => Err(
                        EtlError::AuthError(
                            String::from_str("Basic auth requires username and password"),
                        ),
                    ),
                }
            },
            AuthType::BearerToken => {
                match auth_config.credentials.token {
                    Some(token) => Ok(AuthHeader::Bearer { token }),
                    None => Err(
                        EtlError::AuthError(String::from_str("Bearer auth requires token")),
                    ),
                }
            },
            AuthType::ApiKey => {
                match (auth_config.credentials.api_key, auth_config.credentials.header_name) {
                    (Some(api_key), Some(header_name)) => {
                        if !header_name_is_valid(header_name.as_str()) {
                            let mut m = text_concat("Invalid header name '", header_name.as_str());
                            m.append("'");
                            Err(EtlError::ConfigError(m))
                        } else if !header_value_is_valid(api_key.as_str()) {
                            let mut m = text_concat(
                                "Invalid header value for '",
                                header_name.as_str(),
                            );
                            m.append("'");
                            Err(EtlError::ConfigError(m))
                        } else {
                            Ok(AuthHeader::Header { name: header_name, value: api_key })
                        }
                    },
                    _ => Err(
                        EtlError::AuthError(
                            String::from_str("API key auth requires api_key and header_name"),
                        ),
                    ),
                }
            },
            AuthType::OAuth2 => Err(
                EtlError::ConfigError(
                    String::from_str("OAuth2 authentication not yet implemented"),
                ),
            ),
        }
    }

    /// Checks a list of headers, in order, and reports the first that
    /// cannot be sent.
    pub fn check_headers(&self, headers: &Vec<(String, String)>) -> (r: Result<()>)
        ensures
            match headers_failure(headers@) {
                None => r is Ok,
                Some(failure) => r matches Err(e) && error_is(e, failure),
            },
    {
        let mut i: usize = 0;
        while i < headers.len()
            invariant
                i <= headers.len(),
                headers_failure(headers@.take(i as int)) is None,
            decreases headers.len() - i,
        {
            proof {
                assert(headers@.take(i + 1).drop_last() =~= headers@.take(i as int));
                assert(headers@.take(i + 1).last() == headers@[i as int]);
            }
            let name = headers[i].0.as_str();
            if !header_name_is_valid(name) {
                let mut m = text_concat("Invalid header name '", name);
                m.append("'");
                proof {
                    lemma_headers_failure_prefix(headers@, i + 1);
                }
                return Err(EtlError::ConfigError(m));
            }
            if !header_value_is_valid(headers[i].1.as_str()) {
                let mut m = text_concat("Invalid header value for '", name);
                m.append("'");
                proof {
                    lemma_headers_failure_prefix(headers@, i + 1);
                }
                return Err(EtlError::ConfigError(m));
            }
            i += 1;
        }
        assert(headers@.take(i as int) =~= headers@);
        Ok(())
    }

    /// Prepares a request: checks the method, which is GET where none is
    /// given, then the headers, then the credentials, and settles the retry
    /// policy. Nothing is sent.
    pub fn prepare_request(
        &self,
        url: &str,
        method: Option<String>,
        headers: Option<Vec<(String, String)>>,
        auth: Option<AuthConfig>,
        retry_config: Option<RetryConfig>,
    ) -> (r: Result<RequestPlan>)
        ensures
            match plan_failure(option_text(method), headers, auth) {
                Some(failure) => r matches Err(e) && error_is(e, failure),
                None => r matches Ok(plan) && plan_is(
                    plan,
                    url@,
                    option_text(method),
                    headers,
                    auth,
                    retry_config,
                    self.timeout(),
                ),
            },
    {
        let method: String = match method {
            Some(m) => {
                if !method_is_valid(m.as_str()) {
                    return Err(
                        EtlError::ConfigError(text_concat("Invalid HTTP method: ", m.as_str())),
                    );
                }
                m
            },
            None => String::from_str("GET"),
        };
        let headers: Vec<(String, String)> = match headers {
            Some(h) => {
                match self.check_headers(&h) {
                    Ok(()) => {},
                    Err(e) => {
                        return Err(e);
                    },
                }
                h
            },
            None => Vec::new(),
        };
        let auth: Option<AuthHeader> = match auth {
            Some(a) => {
                match self.apply_auth(a) {
                    Ok(h) => Some(h),
                    Err(e) => {
                        return Err(e);
                    },
                }
            },
            None => None,
        };
        let retry: RetryConfig = match retry_config {
            Some(policy) => policy,
            None => RetryConfig {
                max_attempts: 3,
                initial_delay_ms: 500,
                max_delay_ms: 60000,
                backoff_multiplier_permille: 1500,
            },
        };
        Ok(
            RequestPlan {
                url: String::from_str(url),
                method,
                headers,
                auth,
                timeout_secs: self.default_timeout_secs,
                retry,
            },
        )
    }
}

/// Where the headers up to some place have a failure, all the headers have
/// that failure.
pub proof fn lemma_headers_failure_prefix(headers: Seq<(String, String)>, upto: int)
    requires
        0 <= upto <= headers.len(),
        headers_failure(headers.take(upto)) is Some,
    ensures
        headers_failure(headers) == headers_failure(headers.take(upto)),
    decreases headers.len() - upto,
{
    if upto == headers.len() {
        assert(headers.take(upto) =~= headers);
    } else {
        assert(headers.take(upto + 1).drop_last() =~= headers.take(upto));
        lemma_headers_failure_prefix(headers, upto + 1);
    }
}

} // verus!
