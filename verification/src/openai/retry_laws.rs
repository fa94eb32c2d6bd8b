//! When a request is sent again, and how long that waits.

use crate::openai::config::RetryConfigView;
use crate::openai::transport::{
    frame_end_at, retry_delay, retryable_status, tries_again, TransportReply,
};
use vstd::arithmetic::power2::{lemma_pow2_unfold, pow2};
use vstd::prelude::*;

verus! {

/// The smaller of two waits.
pub open spec fn shorter(a: nat, b: nat) -> nat {
    if a < b {
        a
    } else {
        b
    }
}

/// The first wait is the initial one, each wait is twice the one before it until it does not grow
/// any more, and none is longer than the longest.
pub proof fn law_wait_doubles(retry: RetryConfigView, retry_index: usize)
    ensures
        retry_delay(retry, 0) == shorter(retry.initial_backoff, retry.max_backoff),
        retry_index < 31 ==> retry_delay(retry, (retry_index + 1) as usize) == shorter(
            2 * retry_delay(retry, retry_index),
            retry.max_backoff,
        ),
        31 <= retry_index ==> retry_delay(retry, retry_index) == retry_delay(retry, 31),
{
    vstd::arithmetic::power2::lemma2_to64();
    assert(retry.initial_backoff * 1 == retry.initial_backoff) by (nonlinear_arith);
    if retry_index < 31 {
        let n = retry_index as nat;
        lemma_pow2_unfold(n + 1);
        let a = retry.initial_backoff * pow2(n);
        let b = retry.initial_backoff * pow2(n + 1);
        assert(b == 2 * a) by (nonlinear_arith)
            requires
                pow2(n + 1) == 2 * pow2(n),
                a == retry.initial_backoff * pow2(n),
                b == retry.initial_backoff * pow2(n + 1),
        ;
    }
}

/// A status is worth another try where it is a failure of the server, or says that the request came
/// too late, too early or too often; what else was wrong with a request stays wrong.
pub proof fn law_only_passing_failures_are_retried(status: u16)
    ensures
        500 <= status < 600 ==> retryable_status(status),
        status < 400 || 600 <= status ==> !retryable_status(status),
        400 <= status < 500 ==> (retryable_status(status) <==> status == 408 || status == 425
            || status == 429),
{
}

/// A request is sent again where it was refused with a status that is worth it and a body that could
/// be read, or failed on its way, and there are tries left.
pub proof fn law_request_is_sent_again(
    retry: RetryConfigView,
    retry_index: usize,
    reply: TransportReply,
)
    ensures
        reply is Accepted ==> !tries_again(retry, retry_index, reply),
        retry_index == retry.max_retries ==> !tries_again(retry, retry_index, reply),
        retry_index != retry.max_retries && reply is Failed ==> tries_again(
            retry,
            retry_index,
            reply,
        ) == reply->Failed_transient,
        retry_index != retry.max_retries && reply is Refused ==> tries_again(
            retry,
            retry_index,
            reply,
        ) == (reply->Refused_body is Ok && (500 <= reply->Refused_status < 600
            || reply->Refused_status == 408 || reply->Refused_status == 425
            || reply->Refused_status == 429)),
{
}

/// A frame ends at a blank line: two line feeds, or two times a carriage return and a line feed.
pub proof fn law_frame_ends_at_a_blank_line(buffer: Seq<u8>, i: int)
    requires
        0 <= i < buffer.len(),
    ensures
        frame_end_at(buffer, i) == 2 <==> i + 2 <= buffer.len() && buffer.subrange(i, i + 2)
            =~= seq![10u8, 10u8],
        frame_end_at(buffer, i) == 4 <==> i + 4 <= buffer.len() && buffer.subrange(i, i + 4)
            =~= seq![13u8, 10u8, 13u8, 10u8],
        frame_end_at(buffer, i) == 0 || frame_end_at(buffer, i) == 2 || frame_end_at(buffer, i)
            == 4,
{
    if i + 2 <= buffer.len() {
        let part = buffer.subrange(i, i + 2);
        assert(part[0] == buffer[i] && part[1] == buffer[i + 1]);
        if part =~= seq![10u8, 10u8] {
            assert(part[0] == 10 && part[1] == 10);
        }
    }
    if i + 4 <= buffer.len() {
        let part = buffer.subrange(i, i + 4);
        assert(part[0] == buffer[i] && part[1] == buffer[i + 1] && part[2] == buffer[i + 2]
            && part[3] == buffer[i + 3]);
        if part =~= seq![13u8, 10u8, 13u8, 10u8] {
            assert(part[0] == 13 && part[1] == 10 && part[2] == 13 && part[3] == 10);
        }
    }
}

} // verus!
