//! Retries of model requests, and the framing of event streams.

use crate::openai::config::{RetryConfig, RetryConfigView};
use crate::runtime::error::{AgentError, AgentErrorView};
use crate::text::glue4;
use crate::time_span::TimeSpan;
use vstd::arithmetic::power2::{lemma_pow2_unfold, pow2};
use vstd::prelude::*;

verus! {

/// Whether a request that was answered with a status is worth another try.
pub open spec fn retryable_status(status: u16) -> bool {
    status == 408 || status == 425 || status == 429 || 500 <= status <= 599
}

/// Whether a request that was answered with a status is worth another try.
pub fn is_retryable_status(status: u16) -> (r: bool)
    ensures
        r == retryable_status(status),
{
    status == 408 || status == 425 || status == 429 || (500 <= status && status <= 599)
}

/// The wait before a retry: it doubles from one retry to the next, up to the longest wait.
pub open spec fn retry_delay(retry: RetryConfigView, retry_index: usize) -> nat {
    let doublings: nat = if retry_index < 31 {
        retry_index as nat
    } else {
        31
    };
    let delay = retry.initial_backoff * pow2(doublings);
    if delay <= retry.max_backoff {
        delay
    } else {
        retry.max_backoff
    }
}

/// The wait before the retry with the given number, the first being number zero.
pub fn delay_before_retry(retry: &RetryConfig, retry_index: usize) -> (r: TimeSpan)
    ensures
        r.deep_view() == retry_delay(retry.deep_view(), retry_index),
{
    let doublings: usize = if retry_index < 31 {
        retry_index
    } else {
        31
    };
    let mut multiplier: u32 = 1;
    let mut i: usize = 0;
    assert(pow2(0) == 1) by {
        vstd::arithmetic::power2::lemma2_to64();
    }
    assert(pow2(31) == 0x8000_0000) by {
        vstd::arithmetic::power2::lemma2_to64();
    }
    while i < doublings
        invariant
            i <= doublings <= 31,
            multiplier == pow2(i as nat),
            pow2(31) == 0x8000_0000,
        decreases doublings - i,
    {
        proof {
            lemma_pow2_unfold((i + 1) as nat);
            if i + 1 < 31 {
                vstd::arithmetic::power2::lemma_pow2_strictly_increases((i + 1) as nat, 31);
            }
        }
        multiplier = multiplier * 2;
        i = i + 1;
    }
    let delay = match retry.initial_backoff.checked_mul(multiplier) {
        Some(delay) => delay,
        None => retry.max_backoff,
    };
    delay.min(retry.max_backoff)
}

/// How a model server took a request.
pub enum TransportReply {
    /// With a status that means success.
    Accepted,
    /// With another status; `shown` is how it is written, and `body` what came with it.
    Refused { status: u16, shown: String, body: core::result::Result<String, String> },
    /// Not at all; `transient` when there was no connection or no answer in time.
    Failed { message: String, transient: bool },
}

/// What to do about it.
pub enum TransportDecision {
    /// Read the stream.
    Read,
    /// Wait, and send the request again.
    Retry { delay: TimeSpan },
    /// Give up.
    Fail { error: AgentError },
}

/// The error of a request that was refused.
pub open spec fn refusal(shown: Seq<char>, body: Seq<char>) -> AgentErrorView {
    AgentErrorView::Http("HTTP status "@ + shown + " for streamed model request: "@ + body)
}

/// Whether another try is left and worth it.
pub open spec fn tries_again(
    retry: RetryConfigView,
    retry_index: usize,
    reply: TransportReply,
) -> bool {
    retry_index != retry.max_retries && match reply {
        TransportReply::Accepted => false,
        TransportReply::Refused { status, shown, body } => body is Ok && retryable_status(status),
        TransportReply::Failed { message, transient } => transient,
    }
}

/// Decides what to do about a reply to the try with the given number.
pub fn decide_retry(retry: &RetryConfig, retry_index: usize, reply: TransportReply) -> (r:
    TransportDecision)
    ensures
        r is Read <==> reply is Accepted,
        r is Retry <==> tries_again(retry.deep_view(), retry_index, reply),
        r matches TransportDecision::Retry { delay } ==> delay.deep_view() == retry_delay(
            retry.deep_view(),
            retry_index,
        ),
        r matches TransportDecision::Fail { error } ==> match reply {
            TransportReply::Accepted => false,
            TransportReply::Refused { status, shown, body } => error.deep_view() == match body {
                Ok(body) => refusal(shown@, body@),
                Err(message) => AgentErrorView::Http(message@),
            },
            TransportReply::Failed { message, transient } => error.deep_view()
                == AgentErrorView::Http(message@),
        },
{
    match reply {
        TransportReply::Accepted => TransportDecision::Read,
        TransportReply::Refused { status, shown, body } => match body {
            Ok(body) => {
                if retry_index == retry.max_retries || !is_retryable_status(status) {
                    let message = glue4(
                        "HTTP status ",
                        shown.as_str(),
                        " for streamed model request: ",
                        body.as_str(),
                    );
                    TransportDecision::Fail { error: AgentError::Http(message) }
                } else {
                    TransportDecision::Retry { delay: delay_before_retry(retry, retry_index) }
                }
            },
            Err(message) => TransportDecision::Fail { error: AgentError::Http(message) },
        },
        TransportReply::Failed { message, transient } => {
            if retry_index == retry.max_retries || !transient {
                TransportDecision::Fail { error: AgentError::Http(message) }
            } else {
                TransportDecision::Retry { delay: delay_before_retry(retry, retry_index) }
            }
        },
    }
}

/// No wait is longer than the longest wait.
pub proof fn law_delay_is_bounded(retry: RetryConfigView, retry_index: usize)
    ensures
        retry_delay(retry, retry_index) <= retry.max_backoff,
{
}

/// A wait is never shorter than the one before it.
pub proof fn law_delay_never_shrinks(retry: RetryConfigView, a: usize, b: usize)
    requires
        a <= b,
    ensures
        retry_delay(retry, a) <= retry_delay(retry, b),
{
    let x: nat = if a < 31 {
        a as nat
    } else {
        31
    };
    let y: nat = if b < 31 {
        b as nat
    } else {
        31
    };
    if x < y {
        vstd::arithmetic::power2::lemma_pow2_strictly_increases(x, y);
    }
    vstd::arithmetic::mul::lemma_mul_inequality(
        pow2(x) as int,
        pow2(y) as int,
        retry.initial_backoff as int,
    );
    vstd::arithmetic::mul::lemma_mul_is_commutative(pow2(x) as int, retry.initial_backoff as int);
    vstd::arithmetic::mul::lemma_mul_is_commutative(pow2(y) as int, retry.initial_backoff as int);
}

/// The last try is never followed by another, whatever came back: a request is sent at most once
/// more than there are retries.
pub proof fn law_last_try_ends(retry: RetryConfigView, reply: TransportReply)
    ensures
        !tries_again(retry, retry.max_retries, reply),
{
}

/// The length of the frame end that stands at a position: two line feeds, or two carriage returns
/// with line feeds; zero when there is none.
pub open spec fn frame_end_at(buffer: Seq<u8>, i: int) -> int {
    if i + 2 <= buffer.len() && buffer[i] == 10 && buffer[i + 1] == 10 {
        2
    } else if i + 4 <= buffer.len() && buffer[i] == 13 && buffer[i + 1] == 10 && buffer[i + 2] == 13
        && buffer[i + 3] == 10 {
        4
    } else {
        0
    }
}

/// Finds the first end of a frame: where it stands and how long it is.
pub fn find_sse_frame_end(buffer: &[u8]) -> (r: Option<(usize, usize)>)
    ensures
        match r {
            Some((at, length)) => at < buffer@.len() && length > 0 && length == frame_end_at(
                buffer@,
                at as int,
            ) && forall|i: int| 0 <= i < at ==> #[trigger] frame_end_at(buffer@, i) == 0,
            None => forall|i: int| 0 <= i < buffer@.len() ==> #[trigger] frame_end_at(
                buffer@,
                i,
            ) == 0,
        },
{
    let n: usize = buffer.len();
    for i in 0..n
        invariant
            n == buffer@.len(),
            forall|j: int| 0 <= j < i ==> #[trigger] frame_end_at(buffer@, j) == 0,
    {
        if n - i >= 2 && buffer[i] == 10 && buffer[i + 1] == 10 {
            return Some((i, 2));
        }
        if n - i >= 4
            && buffer[i] == 13
            && buffer[i + 1] == 10
            && buffer[i + 2] == 13
            && buffer[i + 3]
            == 10 {
            return Some((i, 4));
        }
    }
    None
}

} // verus!
