//! API error handling: classification of raw error text, user-facing
//! messages, and the retry policy with exponential backoff.
//!
//! The retry loop itself awaits the network and sleeps, so it is driven by the
//! caller: `RetryState::step` takes the outcome of one attempt and says what
//! to do next.
use vstd::prelude::*;
use vstd::string::*;
use crate::text::{chars_of, has_substr, lowercase_chars, mentions_any_exec};

verus! {

/// The maximum number of attempts (including the initial one) for a request.
pub const MAX_ATTEMPTS: u32 = 3;

/// The base delay, in milliseconds, of the exponential backoff between retries.
pub const BASE_BACKOFF_MS: u64 = 500;

/// The maximum delay, in milliseconds, between retries.
pub const MAX_BACKOFF_MS: u64 = 4000;

/// The timeout, in seconds, of a single completion request.
pub const REQUEST_TIMEOUT_SECS: u64 = 60;

/// Categories of API failures, used to pick a user-facing message.
#[derive(Clone, Copy, Debug, PartialEq, Eq, Structural)]
pub enum ApiErrorCategory {
    /// The API key is missing or rejected (401/403).
    Authentication,
    /// The provider is rate-limiting us (429).
    RateLimit,
    /// A network/connection problem (DNS, refused, reset).
    Network,
    /// The request took too long.
    Timeout,
    /// The model/provider returned an error.
    Model,
    /// Anything else.
    Other,
}

/// The message shown to the user for each category.
pub open spec fn user_message_spec(c: ApiErrorCategory) -> Seq<char> {
    match c {
        ApiErrorCategory::Authentication => "Authentication failed. Please check your Albert API key \u{2014} it may be missing, invalid, or expired. Set the ALBERT_API_KEY environment variable or update your config file."@,
        ApiErrorCategory::RateLimit => "The Albert API is rate-limiting requests. Please wait a moment and try again."@,
        ApiErrorCategory::Network => "A network error occurred while contacting the Albert API. Please check your internet connection and try again."@,
        ApiErrorCategory::Timeout => "The request to the Albert API timed out. Please try again."@,
        ApiErrorCategory::Model => "The Albert model returned an error. Please try rephrasing your request."@,
        ApiErrorCategory::Other => "An unexpected error occurred while contacting the Albert API. Please try again."@,
    }
}

/// The category of a lower-case error text: the first group of keywords, in
/// this order, of which the text mentions one, and `Other` when it mentions
/// none.
pub open spec fn classify_spec(l: Seq<char>) -> ApiErrorCategory {
    if crate::text::mentions_any(
        l,
        seq![
            "401"@,
            "403"@,
            "unauthorized"@,
            "forbidden"@,
            "invalid api key"@,
            "authentication"@,
            "api key"@,
        ],
    ) {
        ApiErrorCategory::Authentication
    } else if crate::text::mentions_any(
        l,
        seq!["429"@, "rate limit"@, "too many requests"@, "quota"@],
    ) {
        ApiErrorCategory::RateLimit
    } else if crate::text::mentions_any(
        l,
        seq![
            "connection"@,
            "dns"@,
            "refused"@,
            "reset"@,
            "network"@,
            "unreachable"@,
            "tcp"@,
            "socket"@,
            "http"@,
        ],
    ) {
        ApiErrorCategory::Network
    } else if crate::text::mentions_any(
        l,
        seq!["timeout"@, "timed out"@, "deadline"@, "elapsed"@],
    ) {
        ApiErrorCategory::Timeout
    } else if crate::text::mentions_any(
        l,
        seq![
            "provider"@,
            "model"@,
            "responseerror"@,
            "bad request"@,
            "400"@,
            "500"@,
            "502"@,
            "503"@,
            "504"@,
        ],
    ) {
        ApiErrorCategory::Model
    } else {
        ApiErrorCategory::Other
    }
}

/// Whether failures of this category are worth retrying.
pub open spec fn is_transient_spec(c: ApiErrorCategory) -> bool {
    c == ApiErrorCategory::Network || c == ApiErrorCategory::Timeout || c
        == ApiErrorCategory::RateLimit
}

/// `2` to the power `e`.
pub open spec fn pow2(e: nat) -> nat
    decreases e,
{
    if e == 0 {
        1
    } else {
        2 * pow2((e - 1) as nat)
    }
}

proof fn lemma_pow2_small(k: nat)
    requires
        k <= 4,
    ensures
        pow2(k) <= 16,
        k <= 3 ==> pow2(k) <= 8,
{
    reveal_with_fuel(pow2, 5);
}

/// The backoff delay in milliseconds before retrying after attempt `attempt`
/// (0-based): `500 * 2^min(attempt, 4)`, capped at `4000`.
pub open spec fn backoff_ms_spec(attempt: nat) -> nat {
    let e: nat = if attempt < 4 {
        attempt
    } else {
        4
    };
    let d: nat = (BASE_BACKOFF_MS as nat) * pow2(e);
    if d < MAX_BACKOFF_MS {
        d
    } else {
        MAX_BACKOFF_MS as nat
    }
}

impl ApiErrorCategory {
    /// A human-friendly message for this category.
    pub fn user_message(&self) -> (res: &'static str)
        ensures
            res@ == user_message_spec(*self),
    {
        match self {
            ApiErrorCategory::Authentication => {
                "Authentication failed. Please check your Albert API key \u{2014} it may be \
                 missing, invalid, or expired. Set the ALBERT_API_KEY environment \
                 variable or update your config file."
            },
            ApiErrorCategory::RateLimit => {
                "The Albert API is rate-limiting requests. Please wait a moment and \
                 try again."
            },
            ApiErrorCategory::Network => {
                "A network error occurred while contacting the Albert API. Please \
                 check your internet connection and try again."
            },
            ApiErrorCategory::Timeout => {
                "The request to the Albert API timed out. Please try again."
            },
            ApiErrorCategory::Model => {
                "The Albert model returned an error. Please try rephrasing your \
                 request."
            },
            ApiErrorCategory::Other => {
                "An unexpected error occurred while contacting the Albert API. Please \
                 try again."
            },
        }
    }
}

fn classify_chars(l: &Vec<char>) -> (res: ApiErrorCategory)
    ensures
        res == classify_spec(l@),
{
    let auth: [&str; 7] = [
        "401",
        "403",
        "unauthorized",
        "forbidden",
        "invalid api key",
        "authentication",
        "api key",
    ];
    assert(auth@.map_values(|w: &str| w@) =~= seq![
        "401"@,
        "403"@,
        "unauthorized"@,
        "forbidden"@,
        "invalid api key"@,
        "authentication"@,
        "api key"@,
    ]);
    if mentions_any_exec(l, &auth) {
        return ApiErrorCategory::Authentication;
    }
    let rate: [&str; 4] = ["429", "rate limit", "too many requests", "quota"];
    assert(rate@.map_values(|w: &str| w@) =~= seq![
        "429"@,
        "rate limit"@,
        "too many requests"@,
        "quota"@,
    ]);
    if mentions_any_exec(l, &rate) {
        return ApiErrorCategory::RateLimit;
    }
    let net: [&str; 9] = [
        "connection",
        "dns",
        "refused",
        "reset",
        "network",
        "unreachable",
        "tcp",
        "socket",
        "http",
    ];
    assert(net@.map_values(|w: &str| w@) =~= seq![
        "connection"@,
        "dns"@,
        "refused"@,
        "reset"@,
        "network"@,
        "unreachable"@,
        "tcp"@,
        "socket"@,
        "http"@,
    ]);
    if mentions_any_exec(l, &net) {
        return ApiErrorCategory::Network;
    }
    let time: [&str; 4] = ["timeout", "timed out", "deadline", "elapsed"];
    assert(time@.map_values(|w: &str| w@) =~= seq![
        "timeout"@,
        "timed out"@,
        "deadline"@,
        "elapsed"@,
    ]);
    if mentions_any_exec(l, &time) {
        return ApiErrorCategory::Timeout;
    }
    let model: [&str; 9] = [
        "provider",
        "model",
        "responseerror",
        "bad request",
        "400",
        "500",
        "502",
        "503",
        "504",
    ];
    assert(model@.map_values(|w: &str| w@) =~= seq![
        "provider"@,
        "model"@,
        "responseerror"@,
        "bad request"@,
        "400"@,
        "500"@,
        "502"@,
        "503"@,
        "504"@,
    ]);
    if mentions_any_exec(l, &model) {
        return ApiErrorCategory::Model;
    }
    ApiErrorCategory::Other
}

/// The category of an error text that is already lower-case.
pub fn classify_lowercase_error(lower: &str) -> (res: ApiErrorCategory)
    ensures
        res == classify_spec(lower@),
{
    let l = chars_of(lower);
    classify_chars(&l)
}

/// Classifies a raw error text, case-insensitively, into a category.
pub fn classify_error(error: &str) -> (res: ApiErrorCategory)
    ensures
        res == classify_spec(crate::text::to_lower(error@)),
{
    let l = lowercase_chars(error);
    classify_chars(&l)
}

/// Whether an error of this category is transient and worth retrying.
pub fn is_transient(category: ApiErrorCategory) -> (res: bool)
    ensures
        res == is_transient_spec(category),
{
    match category {
        ApiErrorCategory::Network | ApiErrorCategory::Timeout | ApiErrorCategory::RateLimit => true,
        _ => false,
    }
}

/// The backoff delay, in milliseconds, before the retry that follows attempt
/// `attempt` (0-based).
pub fn backoff_delay(attempt: u32) -> (res: u64)
    ensures
        res == backoff_ms_spec(attempt as nat),
{
    let e: u32 = if attempt < 4 {
        attempt
    } else {
        4
    };
    let mut factor: u64 = 1;
    let mut k: u32 = 0;
    while k < e
        invariant
            k <= e <= 4,
            factor == pow2(k as nat),
        decreases e - k,
    {
        proof {
            lemma_pow2_small(k as nat);
        }
        factor = factor * 2;
        k = k + 1;
    }
    proof {
        lemma_pow2_small(k as nat);
    }
    let d = BASE_BACKOFF_MS * factor;
    if d < MAX_BACKOFF_MS {
        d
    } else {
        MAX_BACKOFF_MS
    }
}

// ---------------------------------------------------------------------------
// Retry policy
// ---------------------------------------------------------------------------

/// The outcome of one attempt at a request.
pub enum AttemptOutcome {
    /// The request succeeded with this response.
    Success(String),
    /// The request failed with this raw error text.
    Failure(String),
    /// The request did not complete within `REQUEST_TIMEOUT_SECS`.
    TimedOut,
}

/// What to do after an attempt.
pub enum RetryAction {
    /// Stop: the request succeeded with this response.
    Succeed(String),
    /// Stop: the request failed, with this category and user-facing message.
    Fail(ApiErrorCategory, String),
    /// Wait this many milliseconds, then make the next attempt.
    Retry(u64),
}

/// The state of a request that is being retried.
pub struct RetryState {
    /// The 0-based index of the attempt whose outcome comes next.
    pub attempt_index: u32,
    /// The category of the last failure.
    pub last_category: ApiErrorCategory,
    /// The raw text of the last failure.
    pub last_raw: String,
}

/// The model of an attempt's outcome.
pub enum OutcomeModel {
    Success(Seq<char>),
    Failure(Seq<char>),
    TimedOut,
}

/// The model of what to do after an attempt.
pub enum ActionModel {
    Succeed(Seq<char>),
    Fail(ApiErrorCategory, Seq<char>),
    Retry(nat),
}

/// The model of the retry state.
pub struct RetryModel {
    pub attempt_index: nat,
    pub last_category: ApiErrorCategory,
    pub last_raw: Seq<char>,
}

impl View for AttemptOutcome {
    type V = OutcomeModel;

    open spec fn view(&self) -> OutcomeModel {
        match self {
            AttemptOutcome::Success(r) => OutcomeModel::Success(r@),
            AttemptOutcome::Failure(r) => OutcomeModel::Failure(r@),
            AttemptOutcome::TimedOut => OutcomeModel::TimedOut,
        }
    }
}

impl View for RetryAction {
    type V = ActionModel;

    open spec fn view(&self) -> ActionModel {
        match self {
            RetryAction::Succeed(r) => ActionModel::Succeed(r@),
            RetryAction::Fail(c, m) => ActionModel::Fail(*c, m@),
            RetryAction::Retry(ms) => ActionModel::Retry(*ms as nat),
        }
    }
}

impl View for RetryState {
    type V = RetryModel;

    open spec fn view(&self) -> RetryModel {
        RetryModel {
            attempt_index: self.attempt_index as nat,
            last_category: self.last_category,
            last_raw: self.last_raw@,
        }
    }
}

/// The state before the first attempt.
pub open spec fn initial_retry_model() -> RetryModel {
    RetryModel { attempt_index: 0, last_category: ApiErrorCategory::Other, last_raw: Seq::empty() }
}

/// The message given up with: the category's message, followed by the raw
/// details when there are any.
pub open spec fn give_up_message(c: ApiErrorCategory, raw: Seq<char>) -> Seq<char> {
    if raw.len() == 0 {
        user_message_spec(c)
    } else {
        user_message_spec(c) + "\n\nDetails: "@ + raw
    }
}

/// After a transient failure (category `c`, raw text `raw`) of attempt `s`:
/// give up after the last attempt, otherwise wait and retry.
pub open spec fn after_transient(s: RetryModel, c: ApiErrorCategory, raw: Seq<char>) -> (
    RetryModel,
    ActionModel,
) {
    let s2 = RetryModel { attempt_index: s.attempt_index, last_category: c, last_raw: raw };
    if s.attempt_index + 1 >= MAX_ATTEMPTS {
        (s2, ActionModel::Fail(c, give_up_message(c, raw)))
    } else {
        (
            RetryModel { attempt_index: s.attempt_index + 1, ..s2 },
            ActionModel::Retry(backoff_ms_spec(s.attempt_index)),
        )
    }
}

/// One step of the retry policy: the state after attempt `s.attempt_index`
/// had outcome `o`, and what to do next.  A success is returned at once; a
/// non-transient failure is reported at once with its category's message; a
/// transient failure or a timeout is retried after the backoff delay until
/// `MAX_ATTEMPTS` attempts have been made.
pub open spec fn retry_step(s: RetryModel, o: OutcomeModel) -> (RetryModel, ActionModel) {
    match o {
        OutcomeModel::Success(r) => (s, ActionModel::Succeed(r)),
        OutcomeModel::Failure(raw) => {
            let c = classify_spec(crate::text::to_lower(raw));
            if !is_transient_spec(c) {
                (
                    RetryModel { last_category: c, last_raw: raw, ..s },
                    ActionModel::Fail(c, user_message_spec(c)),
                )
            } else {
                after_transient(s, c, raw)
            }
        },
        OutcomeModel::TimedOut => after_transient(
            s,
            ApiErrorCategory::Timeout,
            "request timed out"@,
        ),
    }
}

impl RetryState {
    /// The state is one of a request that has attempts left.
    pub open spec fn wf(&self) -> bool {
        self.attempt_index < MAX_ATTEMPTS
    }

    /// The state before the first attempt.
    pub fn new() -> (res: RetryState)
        ensures
            res@ == initial_retry_model(),
            res.wf(),
    {
        RetryState {
            attempt_index: 0,
            last_category: ApiErrorCategory::Other,
            last_raw: String::new(),
        }
    }

    fn after_transient_exec(&mut self, c: ApiErrorCategory, raw: String) -> (res: RetryAction)
        requires
            old(self).wf(),
        ensures
            (final(self)@, res@) == after_transient(old(self)@, c, raw@),
            res is Retry ==> final(self).wf(),
    {
        self.last_category = c;
        if self.attempt_index + 1 >= MAX_ATTEMPTS {
            let mut message = String::from_str(c.user_message());
            if !raw.as_str().is_empty() {
                message.append("\n\nDetails: ");
                message.append(raw.as_str());
            }
            self.last_raw = raw;
            RetryAction::Fail(c, message)
        } else {
            let delay = backoff_delay(self.attempt_index);
            self.last_raw = raw;
            self.attempt_index = self.attempt_index + 1;
            RetryAction::Retry(delay)
        }
    }

    /// Records the outcome of the current attempt and says what to do next.
    pub fn step(&mut self, outcome: AttemptOutcome) -> (res: RetryAction)
        requires
            old(self).wf(),
        ensures
            (final(self)@, res@) == retry_step(old(self)@, outcome@),
            res is Retry ==> final(self).wf(),
    {
        match outcome {
            AttemptOutcome::Success(r) => RetryAction::Succeed(r),
            AttemptOutcome::Failure(raw) => {
                let c = classify_error(raw.as_str());
                if !is_transient(c) {
                    self.last_category = c;
                    self.last_raw = raw;
                    RetryAction::Fail(c, String::from_str(c.user_message()))
                } else {
                    self.after_transient_exec(c, raw)
                }
            },
            AttemptOutcome::TimedOut => {
                let raw = String::from_str("request timed out");
                self.after_transient_exec(ApiErrorCategory::Timeout, raw)
            },
        }
    }
}

// ---------------------------------------------------------------------------
// Laws
// ---------------------------------------------------------------------------

/// Error classification ignores case: an ASCII error text and its upper-case
/// form are classified alike.
pub proof fn law_classify_ignores_ascii_case(m: Seq<char>)
    requires
        crate::text::is_ascii_seq(m),
    ensures
        classify_spec(crate::text::to_lower(m)) == classify_spec(
            crate::text::to_lower(crate::text::ascii_upper(m)),
        ),
{
    crate::text::lemma_to_lower_of_ascii_upper(m);
}

/// Classification tries the keyword groups of the lower-cased error text in
/// this order: authentication (`401`, `403`, `unauthorized`, `forbidden`,
/// `invalid api key`, `authentication`, `api key`), rate limit (`429`,
/// `rate limit`, `too many requests`, `quota`), network (`connection`, `dns`,
/// `refused`, `reset`, `network`, `unreachable`, `tcp`, `socket`, `http`),
/// timeout (`timeout`, `timed out`, `deadline`, `elapsed`) and model
/// (`provider`, `model`, `responseerror`, `bad request`, `400`, `500`, `502`,
/// `503`, `504`).  The first group of which the text holds a keyword gives the
/// category, and `Other` is the answer when it holds none; so, for instance,
/// a text mentioning "rate limit" and no authentication keyword is a rate
/// limit, and is retried.
pub proof fn law_classify_tries_groups_in_order(error: Seq<char>)
    ensures
        ({
            let l = crate::text::to_lower(error);
            let auth = has_substr(l, "401"@) || has_substr(l, "403"@) || has_substr(
                l,
                "unauthorized"@,
            ) || has_substr(l, "forbidden"@) || has_substr(l, "invalid api key"@) || has_substr(
                l,
                "authentication"@,
            ) || has_substr(l, "api key"@);
            let rate = has_substr(l, "429"@) || has_substr(l, "rate limit"@) || has_substr(
                l,
                "too many requests"@,
            ) || has_substr(l, "quota"@);
            let net = has_substr(l, "connection"@) || has_substr(l, "dns"@) || has_substr(
                l,
                "refused"@,
            ) || has_substr(l, "reset"@) || has_substr(l, "network"@) || has_substr(
                l,
                "unreachable"@,
            ) || has_substr(l, "tcp"@) || has_substr(l, "socket"@) || has_substr(l, "http"@);
            let time = has_substr(l, "timeout"@) || has_substr(l, "timed out"@) || has_substr(
                l,
                "deadline"@,
            ) || has_substr(l, "elapsed"@);
            let model = has_substr(l, "provider"@) || has_substr(l, "model"@) || has_substr(
                l,
                "responseerror"@,
            ) || has_substr(l, "bad request"@) || has_substr(l, "400"@) || has_substr(l, "500"@)
                || has_substr(l, "502"@) || has_substr(l, "503"@) || has_substr(l, "504"@);
            let r = classify_spec(l);
            &&& auth ==> r == ApiErrorCategory::Authentication
            &&& !auth && rate ==> r == ApiErrorCategory::RateLimit && is_transient_spec(r)
            &&& !auth && !rate && net ==> r == ApiErrorCategory::Network
            &&& !auth && !rate && !net && time ==> r == ApiErrorCategory::Timeout
            &&& !auth && !rate && !net && !time && model ==> r == ApiErrorCategory::Model
            &&& !auth && !rate && !net && !time && !model ==> r == ApiErrorCategory::Other
        }),
{
    broadcast use crate::text::lemma_mentions_any_push, crate::text::lemma_mentions_any_empty;

}

/// The backoff starts at the base delay, never decreases from one attempt to
/// a later one, and never exceeds the maximum delay.
pub proof fn law_backoff_grows_and_is_capped(a: nat, b: nat)
    requires
        a <= b,
    ensures
        backoff_ms_spec(0) == BASE_BACKOFF_MS,
        backoff_ms_spec(a) <= backoff_ms_spec(b),
        backoff_ms_spec(b) <= MAX_BACKOFF_MS,
{
    reveal_with_fuel(pow2, 5);
}

/// A successful attempt is returned at once, unchanged.
pub proof fn law_success_is_returned_at_once(s: RetryModel, response: Seq<char>)
    ensures
        retry_step(s, OutcomeModel::Success(response)).1 == ActionModel::Succeed(response),
{
}

/// A failure that is not transient is reported at once, with its category's
/// message, and never retried.
pub proof fn law_non_transient_failure_is_not_retried(s: RetryModel, raw: Seq<char>)
    requires
        !is_transient_spec(classify_spec(crate::text::to_lower(raw))),
    ensures
        ({
            let c = classify_spec(crate::text::to_lower(raw));
            retry_step(s, OutcomeModel::Failure(raw)).1 == ActionModel::Fail(c, user_message_spec(c))
        }),
{
}

/// The number of attempts a request makes when its attempts have the given
/// outcomes, from state `s` on: attempts go on while the policy says retry.
pub open spec fn attempts_made(s: RetryModel, outcomes: Seq<OutcomeModel>) -> nat
    decreases outcomes.len(),
{
    if outcomes.len() == 0 {
        0
    } else {
        let (s2, a) = retry_step(s, outcomes[0]);
        if a is Retry {
            1 + attempts_made(s2, outcomes.drop_first())
        } else {
            1
        }
    }
}

/// Whether the policy stops (succeeds or gives up) within the given outcomes.
pub open spec fn stops_within(s: RetryModel, outcomes: Seq<OutcomeModel>) -> bool
    decreases outcomes.len(),
{
    if outcomes.len() == 0 {
        false
    } else {
        let (s2, a) = retry_step(s, outcomes[0]);
        if a is Retry {
            stops_within(s2, outcomes.drop_first())
        } else {
            true
        }
    }
}

proof fn lemma_retry_advances(s: RetryModel, o: OutcomeModel)
    ensures
        retry_step(s, o).1 is Retry ==> retry_step(s, o).0.attempt_index == s.attempt_index + 1
            && s.attempt_index + 1 < MAX_ATTEMPTS,
{
}

proof fn lemma_attempts_bounded_from(s: RetryModel, outcomes: Seq<OutcomeModel>)
    requires
        s.attempt_index < MAX_ATTEMPTS,
    ensures
        attempts_made(s, outcomes) <= MAX_ATTEMPTS - s.attempt_index,
        outcomes.len() >= MAX_ATTEMPTS - s.attempt_index ==> stops_within(s, outcomes),
    decreases outcomes.len(),
{
    if outcomes.len() > 0 {
        let (s2, a) = retry_step(s, outcomes[0]);
        lemma_retry_advances(s, outcomes[0]);
        if a is Retry {
            lemma_attempts_bounded_from(s2, outcomes.drop_first());
        }
    }
}

/// A request is attempted at most `MAX_ATTEMPTS` times, whatever the
/// outcomes, and the policy has stopped once `MAX_ATTEMPTS` outcomes are in.
pub proof fn law_at_most_max_attempts(outcomes: Seq<OutcomeModel>)
    ensures
        attempts_made(initial_retry_model(), outcomes) <= MAX_ATTEMPTS,
        outcomes.len() >= MAX_ATTEMPTS ==> stops_within(initial_retry_model(), outcomes),
{
    lemma_attempts_bounded_from(initial_retry_model(), outcomes);
}

} // verus!
