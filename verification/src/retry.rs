//! How often a request is tried again.
use vstd::prelude::*;

use crate::error::{ErrorKind, Failure, FailureView};

verus! {

#[derive(Debug, Clone, Copy, PartialEq, Eq, Structural)]
pub struct RetryConfig {
    pub max_retries: u32,
}

/// Retries where nothing was configured.
pub const DEFAULT_RETRIES: u32 = 3;

/// Seconds to wait where the server asks for none in particular.
pub const DEFAULT_WAIT: u64 = 1;

impl RetryConfig {
    pub fn no_retry() -> (r: RetryConfig)
        ensures
            r.max_retries == 0,
    {
        RetryConfig { max_retries: 0 }
    }

    pub fn new(max_retries: u32) -> (r: RetryConfig)
        ensures
            r.max_retries == max_retries,
    {
        RetryConfig { max_retries }
    }

    /// The seconds to wait before a request that failed is sent again: only an error that may
    /// pass is retried, and only as often as configured.
    pub open spec fn wait(self, retries: u32, failure: FailureView) -> Option<u64> {
        match failure.cli_error() {
            Some(error) => if retries < self.max_retries && error.kind == ErrorKind::RateLimited {
                Some(
                    match error.retry_after {
                        Some(seconds) => seconds,
                        None => DEFAULT_WAIT,
                    },
                )
            } else {
                None
            },
            None => None,
        }
    }

    /// How long to wait before a request is sent again, given how often it was; nothing where it
    /// has failed for good.
    pub fn wait_before_retry(&self, retries: u32, failure: &Failure) -> (r: Option<u64>)
        ensures
            r == self.wait(retries, failure@),
    {
        match failure.cli_error() {
            Some(error) => if retries < self.max_retries && error.kind.is_retryable() {
                match error.retry_after {
                    Some(seconds) => Some(seconds),
                    None => Some(DEFAULT_WAIT),
                }
            } else {
                None
            },
            None => None,
        }
    }
}

impl Default for RetryConfig {
    fn default() -> (r: RetryConfig)
        ensures
            r.max_retries == DEFAULT_RETRIES,
    {
        RetryConfig { max_retries: DEFAULT_RETRIES }
    }
}

/// A request is sent again exactly where it was held back by a rate limit and has retries
/// left, after the seconds that the server asked for, or one where it asked for none.
pub proof fn only_rate_limits_are_retried(config: RetryConfig, retries: u32, failure: FailureView)
    ensures
        config.wait(retries, failure) is Some <==> retries < config.max_retries
            && failure.cli_error() is Some && failure.cli_error()->0.kind
            == ErrorKind::RateLimited,
        config.wait(retries, failure) matches Some(seconds) ==> (
        failure.cli_error()->0.retry_after == Some(seconds) || (
        failure.cli_error()->0.retry_after is None && seconds == 1)),
{
}


} // verus!
