//! The decisions of a page fetch: how long to wait before each attempt, and
//! what a response or a failed request leads to. The caller makes the
//! requests; these functions decide.

use vstd::prelude::*;
use crate::cf::{is_bypassed, is_cf_challenge, is_cf_challenge_spec};

verus! {

/// The wait before attempt `k` (from 0) of a fetch whose first retry waits
/// `delay_ms`: none before the first attempt, then a wait that doubles with
/// every retry (held at the `u64` limit).
pub open spec fn wait_before(delay_ms: u64, k: nat) -> u64
    decreases k,
{
    if k == 0 {
        0
    } else if k == 1 {
        delay_ms
    } else {
        let w = wait_before(delay_ms, (k - 1) as nat);
        if 2 * w > u64::MAX { u64::MAX } else { (2 * w) as u64 }
    }
}

/// The attempts of one fetch: at most `attempts` of them, with a doubling
/// wait between them.
pub struct RetrySchedule {
    attempts: u32,
    done: u32,
    delay_ms: u64,
    next_wait: u64,
}

/// The abstract schedule: (attempts allowed, attempts made, first retry wait).
pub type RetryView = (nat, nat, u64);

impl View for RetrySchedule {
    type V = RetryView;

    closed spec fn view(&self) -> RetryView {
        (self.attempts as nat, self.done as nat, self.delay_ms)
    }
}

impl RetrySchedule {
    /// The wait kept for the next retry is the one the schedule prescribes.
    #[verifier::type_invariant]
    spec fn well_formed(self) -> bool {
        &&& self.done <= self.attempts
        &&& self.done >= 1 ==> self.next_wait == wait_before(self.delay_ms, self.done as nat)
    }

    /// A schedule of `attempts` attempts whose first retry waits `delay_ms`.
    pub fn new(attempts: u32, delay_ms: u64) -> (res: Self)
        ensures
            res@ == (attempts as nat, 0nat, delay_ms),
    {
        RetrySchedule { attempts, done: 0, delay_ms, next_wait: delay_ms }
    }

    /// Starts the next attempt: the wait before it, or `None` once every
    /// attempt has been made.
    pub fn next_attempt(&mut self) -> (res: Option<u64>)
        ensures
            old(self)@.1 < old(self)@.0 ==> res == Some(wait_before(old(self)@.2, old(self)@.1))
                && final(self)@ == (old(self)@.0, old(self)@.1 + 1, old(self)@.2),
            old(self)@.1 >= old(self)@.0 ==> res is None && final(self)@ == old(self)@,
    {
        proof {
            use_type_invariant(&*self);
        }
        if self.done >= self.attempts {
            return None;
        }
        if self.done == 0 {
            *self = RetrySchedule { attempts: self.attempts, done: 1, delay_ms: self.delay_ms, next_wait: self.delay_ms };
            return Some(0);
        }
        let w = self.next_wait;
        let next = w.saturating_add(w);
        *self = RetrySchedule { attempts: self.attempts, done: self.done + 1, delay_ms: self.delay_ms, next_wait: next };
        Some(w)
    }

    /// The attempts made so far.
    pub fn attempts_made(&self) -> (res: u32)
        ensures
            res == self@.1,
    {
        self.done
    }
}

/// What a fetch does after a response.
#[derive(Debug, Clone, Copy, PartialEq, Eq, Structural)]
pub enum ResponseStep {
    /// The page is the one asked for: return it.
    Accept,
    /// Renew the Cloudflare cookie, then try again.
    RefreshAndRetry,
    /// Try again as it is.
    Retry,
}

/// A page fetch of the list and detail pages: a successful response with a
/// non-empty page that is not the challenge page is accepted; the challenge
/// page, or a failed status, renews the cookie; anything else is retried.
pub open spec fn page_response_spec(success: bool, text: Seq<char>) -> ResponseStep {
    if success && text.len() > 0 && !is_cf_challenge_spec(text) {
        ResponseStep::Accept
    } else if is_cf_challenge_spec(text) || !success {
        ResponseStep::RefreshAndRetry
    } else {
        ResponseStep::Retry
    }
}

/// What the fetch of a list or detail page does with a response of status
/// `success` and body `text` (see `page_response_spec`).
pub fn page_response_step(success: bool, text: &str) -> (res: ResponseStep)
    ensures
        res == page_response_spec(success, text@),
{
    if success && !text.is_empty() && is_bypassed(text) {
        ResponseStep::Accept
    } else if is_cf_challenge(text) || !success {
        ResponseStep::RefreshAndRetry
    } else {
        ResponseStep::Retry
    }
}

/// A request of a list or detail page that failed outright renews the
/// cookie after the first attempt only (attempts counted from 0).
pub fn page_error_refreshes(attempt: u32) -> (res: bool)
    ensures
        res == (attempt == 0),
{
    attempt == 0
}

/// A fetch of a book's pages: only a successful response is looked at; a
/// non-empty page that is not the challenge page is accepted, the challenge
/// page renews the cookie, anything else is retried.
pub open spec fn book_response_spec(success: bool, text: Seq<char>) -> ResponseStep {
    if !success {
        ResponseStep::Retry
    } else if text.len() > 0 && !is_cf_challenge_spec(text) {
        ResponseStep::Accept
    } else if is_cf_challenge_spec(text) {
        ResponseStep::RefreshAndRetry
    } else {
        ResponseStep::Retry
    }
}

/// What the fetch of one of a book's pages does with a response of status
/// `success` and body `text` (see `book_response_spec`).
pub fn book_response_step(success: bool, text: &str) -> (res: ResponseStep)
    ensures
        res == book_response_spec(success, text@),
{
    if !success {
        ResponseStep::Retry
    } else if !text.is_empty() && is_bypassed(text) {
        ResponseStep::Accept
    } else if is_cf_challenge(text) {
        ResponseStep::RefreshAndRetry
    } else {
        ResponseStep::Retry
    }
}

/// A form post is accepted on any successful status and retried otherwise.
pub fn post_response_step(success: bool) -> (res: ResponseStep)
    ensures
        res == (if success { ResponseStep::Accept } else { ResponseStep::Retry }),
{
    if success { ResponseStep::Accept } else { ResponseStep::Retry }
}

} // verus!
