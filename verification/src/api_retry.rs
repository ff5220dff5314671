//! Making calls of the model again that have failed.
use vstd::prelude::*;

use vstd::arithmetic::power2;

use crate::config::ApiRetryConfig;
use crate::errors;
use crate::errors::{LlmApiError, LlmErrorKind, LoomError};
use crate::text;
use crate::text::decimal_text;

verus! {

/// How long to wait before a call is made again, in milliseconds: as long as the service
/// says where it is too busy, else twice as long after each attempt, up to a limit.
pub open spec fn delay(error: LlmApiError, config: ApiRetryConfig, attempt: nat) -> int {
    match (error.kind, error.retry_after_secs) {
        (LlmErrorKind::RateLimit, Some(secs)) => secs * 1000,
        _ => backoff(config, attempt),
    }
}

/// The wait after so many attempts: twice as long after each, up to a limit.
pub open spec fn backoff(config: ApiRetryConfig, attempt: nat) -> int {
    let ms = config.base_delay_ms * power2::pow2(attempt);
    if ms <= config.max_delay_ms {
        ms
    } else {
        config.max_delay_ms as int
    }
}

/// A wait that has grown beyond a limit stays beyond it.
proof fn growth_goes_on(base: u64, limit: u64, i: nat, attempt: nat)
    requires
        i <= attempt,
        base * power2::pow2(i) > limit,
    ensures
        base * power2::pow2(attempt) > limit,
{
    let b = base as int;
    let p = power2::pow2(i) as int;
    let q = power2::pow2(attempt) as int;
    if i < attempt {
        power2::lemma_pow2_strictly_increases(i, attempt);
    }
    assert(b * p <= b * q) by (nonlinear_arith)
        requires
            0 <= b,
            p <= q,
    ;
}

/// The wait after so many attempts.
fn backoff_ms(config: &ApiRetryConfig, attempt: u32) -> (r: u64)
    ensures
        r == backoff(*config, attempt as nat),
{
    let base: u64 = config.base_delay_ms;
    let limit: u64 = config.max_delay_ms;
    proof {
        power2::lemma2_to64();
        assert(base * power2::pow2(0) == base);
    }
    if base > limit {
        proof {
            growth_goes_on(base, limit, 0, attempt as nat);
        }
        return limit;
    }
    let mut ms: u64 = base;
    let mut i: u32 = 0;
    while i < attempt
        invariant
            i <= attempt,
            base == config.base_delay_ms,
            limit == config.max_delay_ms,
            ms <= limit,
            ms == base * power2::pow2(i as nat),
        decreases attempt - i,
    {
        proof {
            power2::lemma_pow2_unfold((i + 1) as nat);
            let b = base as int;
            let p = power2::pow2(i as nat) as int;
            assert(b * (2 * p) == 2 * (b * p)) by (nonlinear_arith);
        }
        if ms > limit / 2 {
            proof {
                growth_goes_on(base, limit, (i + 1) as nat, attempt as nat);
            }
            return limit;
        }
        ms = ms * 2;
        i += 1;
    }
    ms
}

/// How long to wait before a call is made again, in milliseconds.
pub fn compute_delay(error: &LlmApiError, config: &ApiRetryConfig, attempt: u32) -> (r: u128)
    ensures
        r == delay(*error, *config, attempt as nat),
{
    if error.kind == LlmErrorKind::RateLimit {
        if let Some(secs) = error.retry_after_secs {
            return secs as u128 * 1000;
        }
    }
    backoff_ms(config, attempt) as u128
}

/// What follows a call of the model that has failed.
#[derive(Debug, PartialEq, Eq)]
pub enum RetryStep {
    /// The call is not made again.
    GiveUp(LoomError),
    /// The call is made again after so many milliseconds.
    Wait(u128),
}

/// What follows a call that has failed after so many attempts to make it again: it is
/// made again where the service may yet answer and the attempts are not used up.
pub open spec fn retries(error: LoomError, config: ApiRetryConfig, attempt: u32) -> bool {
    match error {
        LoomError::LlmApi(e) => attempt < config.max_retries && errors::is_retryable(e.kind),
        _ => false,
    }
}

/// What follows a call of the model that has failed; the first call is attempt zero.
pub fn after_failure(error: LoomError, config: &ApiRetryConfig, attempt: u32) -> (r: RetryStep)
    ensures
        match r {
            RetryStep::GiveUp(e) => !retries(error, *config, attempt) && e == error,
            RetryStep::Wait(ms) => retries(error, *config, attempt) && ms == delay(
                error->LlmApi_0,
                *config,
                attempt as nat,
            ),
        },
{
    let wait: Option<u128> = match &error {
        LoomError::LlmApi(e) => {
            if attempt >= config.max_retries || !e.kind.retryable() {
                None
            } else {
                Some(compute_delay(e, config, attempt))
            }
        },
        _ => None,
    };
    match wait {
        Some(ms) => RetryStep::Wait(ms),
        None => RetryStep::GiveUp(error),
    }
}

/// The error of a call that took longer than it may.
pub fn timeout_error(config: &ApiRetryConfig) -> (r: LoomError)
    ensures
        r matches LoomError::LlmApi(e) && e.kind == LlmErrorKind::Timeout && e.status_code is None
            && e.retry_after_secs is None && e.message@ == "LLM request timed out after "@
            + text::decimal(config.request_timeout_secs as nat) + "s"@,
{
    let mut message = String::from_str("LLM request timed out after ");
    message.append(decimal_text(config.request_timeout_secs).as_str());
    message.append("s");
    LoomError::LlmApi(
        LlmApiError {
            kind: LlmErrorKind::Timeout,
            status_code: None,
            message,
            retry_after_secs: None,
        },
    )
}

/// The conversation is too long for the model.
pub open spec fn is_overflow(error: LoomError) -> bool {
    error matches LoomError::LlmApi(e) && e.kind == LlmErrorKind::ContextOverflow
}

/// Whether the conversation is too long for the model, so that it is compressed and the
/// call made once more.
pub fn is_context_overflow(error: &LoomError) -> (r: bool)
    ensures
        r == is_overflow(*error),
{
    match error {
        LoomError::LlmApi(e) => e.kind == LlmErrorKind::ContextOverflow,
        _ => false,
    }
}

/// What follows a call of the model that has failed for good.
#[derive(Debug, PartialEq, Eq)]
pub enum RecoveryStep {
    /// The conversation is compressed, and the call is made once more.
    Compress,
    /// The failure stands.
    Fail(LoomError),
}

/// What follows a call of the model that has failed for good: a conversation that is too
/// long is compressed, but only once.
pub fn recover(error: LoomError, compressed: bool) -> (r: RecoveryStep)
    ensures
        r == if is_overflow(error) && !compressed {
            RecoveryStep::Compress
        } else {
            RecoveryStep::Fail(error)
        },
{
    if !compressed && is_context_overflow(&error) {
        RecoveryStep::Compress
    } else {
        RecoveryStep::Fail(error)
    }
}

/// A call is made again a bounded number of times.
pub proof fn attempts_are_bounded(error: LoomError, config: ApiRetryConfig, attempt: u32)
    requires
        attempt >= config.max_retries,
    ensures
        !retries(error, config, attempt),
{
}

/// The wait grows from attempt to attempt and never exceeds its limit.
pub proof fn waits_grow_up_to_the_limit(config: ApiRetryConfig, a: nat, b: nat)
    requires
        a <= b,
    ensures
        backoff(config, a) <= backoff(config, b) <= config.max_delay_ms,
{
    let base = config.base_delay_ms as int;
    let p = power2::pow2(a) as int;
    let q = power2::pow2(b) as int;
    if a < b {
        power2::lemma_pow2_strictly_increases(a, b);
    }
    assert(base * p <= base * q) by (nonlinear_arith)
        requires
            0 <= base,
            p <= q,
    ;
}

/// A conversation that is too long is never sent again as it is.
pub proof fn too_long_a_conversation_is_not_sent_again(
    error: LoomError,
    config: ApiRetryConfig,
    attempt: u32,
)
    requires
        is_overflow(error),
    ensures
        !retries(error, config, attempt),
{
}

/// While attempts are left, a call that has failed in passing is made again: where the
/// service is too busy, has failed itself, did not answer in time or could not be reached,
/// and where it is not known what went wrong.
pub proof fn a_passing_failure_is_followed_by_another_call(
    error: LlmApiError,
    config: ApiRetryConfig,
    attempt: u32,
)
    requires
        attempt < config.max_retries,
        error.kind == LlmErrorKind::RateLimit || error.kind == LlmErrorKind::ServerError
            || error.kind == LlmErrorKind::Timeout || error.kind == LlmErrorKind::Connection
            || error.kind == LlmErrorKind::Unknown,
    ensures
        retries(LoomError::LlmApi(error), config, attempt),
{
}

/// A failure that would come again is final: a call that is refused, whatever is left of
/// the attempts, is not made again, and neither is one that did not fail in the service.
pub proof fn a_lasting_failure_is_final(
    error: LoomError,
    config: ApiRetryConfig,
    attempt: u32,
)
    requires
        error matches LoomError::LlmApi(e) ==> e.kind == LlmErrorKind::ContextOverflow || e.kind
            == LlmErrorKind::Authentication || e.kind == LlmErrorKind::ContentPolicy || e.kind
            == LlmErrorKind::InvalidRequest,
    ensures
        !retries(error, config, attempt),
{
}

/// A service that says when it wants to be called again is called then, to the second;
/// without that the wait begins with the one that is set and doubles after each attempt,
/// up to the limit.
pub proof fn waits_are_as_asked_for(error: LlmApiError, config: ApiRetryConfig, attempt: nat)
    ensures
        error.kind == LlmErrorKind::RateLimit ==> (error.retry_after_secs matches Some(secs)
            ==> delay(error, config, attempt) == 1000 * secs),
        error.kind != LlmErrorKind::RateLimit || error.retry_after_secs is None ==> {
            let first = delay(error, config, 0);
            let now = delay(error, config, attempt);
            let next = delay(error, config, attempt + 1);
            &&& config.base_delay_ms <= config.max_delay_ms ==> first == config.base_delay_ms
            &&& config.base_delay_ms > config.max_delay_ms ==> first == config.max_delay_ms
            &&& 2 * now <= config.max_delay_ms ==> next == 2 * now
            &&& 2 * now > config.max_delay_ms ==> next == config.max_delay_ms
        },
{
    power2::lemma2_to64();
    power2::lemma_pow2_unfold(attempt + 1);
    let b = config.base_delay_ms as int;
    let p = power2::pow2(attempt) as int;
    assert(b * (2 * p) == 2 * (b * p)) by (nonlinear_arith);
    assert(b * 1 == b);
}

} // verus!
