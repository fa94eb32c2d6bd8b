//! What the text of an error tells.

use crate::runtime::error::{error_text, AgentErrorView};
use crate::text::decimal;
use vstd::prelude::*;

verus! {

/// A text holds another.
pub open spec fn mentions(text: Seq<char>, part: Seq<char>) -> bool {
    exists|i: int|
        0 <= i && i + part.len() <= text.len() && #[trigger] text.subrange(i, i + part.len())
            == part
}

/// What stands between two texts is in the whole.
pub proof fn lemma_mentions(front: Seq<char>, part: Seq<char>, back: Seq<char>)
    ensures
        mentions(front + part + back, part),
{
    let text = front + part + back;
    let i = front.len() as int;
    assert(text.subrange(i, i + part.len()) =~= part);
}

/// What a text ends with is in it.
pub proof fn lemma_ends(front: Seq<char>, part: Seq<char>)
    ensures
        mentions(front + part, part),
{
    let text = front + part;
    let i = front.len() as int;
    assert(text.subrange(i, i + part.len()) =~= part);
}

/// The text of an error holds all that the error tells: the ids and names in it, its message, and
/// its limits and revisions as decimal numbers.
pub proof fn law_text_holds_what_the_error_tells(error: AgentErrorView)
    ensures
        match error {
            AgentErrorView::SessionCoordinator(part) => mentions(error_text(error), part),
            AgentErrorView::TurnNotActive(part) => mentions(error_text(error), part),
            AgentErrorView::TurnAlreadyActive(part) => mentions(error_text(error), part),
            AgentErrorView::TurnNotFound(part) => mentions(error_text(error), part),
            AgentErrorView::ThreadNotFound(part) => mentions(error_text(error), part),
            AgentErrorView::SuspendedTurn { thread_id, suspension_id } => mentions(
                error_text(error),
                thread_id,
            ) && mentions(error_text(error), suspension_id),
            AgentErrorView::RevisionConflict { thread_id, expected, actual } => mentions(
                error_text(error),
                thread_id,
            ) && mentions(error_text(error), decimal(expected.value as nat)) && mentions(
                error_text(error),
                decimal(actual.value as nat),
            ),
            AgentErrorView::Function { name, message } => mentions(error_text(error), name)
                && mentions(error_text(error), message),
            AgentErrorView::FunctionNotFound(part) => mentions(error_text(error), part),
            AgentErrorView::FunctionTimeout { name, timeout_ms } => mentions(
                error_text(error),
                name,
            ) && mentions(error_text(error), decimal(timeout_ms as nat)),
            AgentErrorView::InvalidFunctionTimeout { name } => mentions(error_text(error), name),
            AgentErrorView::InvalidFunctionOutputLimit { name } => mentions(
                error_text(error),
                name,
            ),
            AgentErrorView::FunctionOutputTooLarge { name, max_bytes } => mentions(
                error_text(error),
                name,
            ) && mentions(error_text(error), decimal(max_bytes as nat)),
            AgentErrorView::InvalidFunctionArguments { name, message } => mentions(
                error_text(error),
                name,
            ) && mentions(error_text(error), message),
            AgentErrorView::MaxFunctionCalls(limit) => mentions(
                error_text(error),
                decimal(limit as nat),
            ),
            AgentErrorView::MaxIterations(limit) => mentions(
                error_text(error),
                decimal(limit as nat),
            ),
            AgentErrorView::Http(part) => mentions(error_text(error), part),
            AgentErrorView::Model(part) => mentions(error_text(error), part),
            AgentErrorView::Serialization(part) => mentions(error_text(error), part),
        },
{
    let text = error_text(error);
    match error {
        AgentErrorView::SessionCoordinator(part) => lemma_ends(
            "session coordinator failed: "@,
            part,
        ),
        AgentErrorView::TurnNotActive(part) => lemma_ends("turn not active: "@, part),
        AgentErrorView::TurnAlreadyActive(part) => lemma_ends("turn already active: "@, part),
        AgentErrorView::TurnNotFound(part) => lemma_ends("turn not found: "@, part),
        AgentErrorView::ThreadNotFound(part) => lemma_ends("thread not found: "@, part),
        AgentErrorView::SuspendedTurn { thread_id, suspension_id } => {
            let back = " waits on suspension "@ + suspension_id;
            lemma_mentions("thread "@, thread_id, back);
            assert("thread "@ + thread_id + back =~= text);
            lemma_ends("thread "@ + thread_id + " waits on suspension "@, suspension_id);
        },
        AgentErrorView::RevisionConflict { thread_id, expected, actual } => {
            let (e, a) = (decimal(expected.value as nat), decimal(actual.value as nat));
            let middle = " changed: expected revision "@;
            let tail = middle + e + ", found "@ + a;
            lemma_mentions("thread "@, thread_id, tail);
            assert("thread "@ + thread_id + tail =~= text);
            lemma_mentions("thread "@ + thread_id + middle, e, ", found "@ + a);
            assert("thread "@ + thread_id + middle + e + (", found "@ + a) =~= text);
            lemma_ends("thread "@ + thread_id + middle + e + ", found "@, a);
        },
        AgentErrorView::Function { name, message } => {
            lemma_mentions("function "@, name, " failed: "@ + message);
            assert("function "@ + name + (" failed: "@ + message) =~= text);
            lemma_ends("function "@ + name + " failed: "@, message);
        },
        AgentErrorView::FunctionNotFound(part) => lemma_ends("function not found: "@, part),
        AgentErrorView::FunctionTimeout { name, timeout_ms } => {
            let limit = decimal(timeout_ms as nat);
            let tail = " timed out after "@ + limit + " ms"@;
            lemma_mentions("function "@, name, tail);
            assert("function "@ + name + tail =~= text);
            lemma_mentions("function "@ + name + " timed out after "@, limit, " ms"@);
        },
        AgentErrorView::InvalidFunctionTimeout { name } => lemma_mentions(
            "function "@,
            name,
            " has an invalid time budget"@,
        ),
        AgentErrorView::InvalidFunctionOutputLimit { name } => lemma_mentions(
            "function "@,
            name,
            " has an invalid output limit"@,
        ),
        AgentErrorView::FunctionOutputTooLarge { name, max_bytes } => {
            let limit = decimal(max_bytes as nat);
            let tail = " exceeds "@ + limit + " bytes"@;
            lemma_mentions("output of function "@, name, tail);
            assert("output of function "@ + name + tail =~= text);
            lemma_mentions("output of function "@ + name + " exceeds "@, limit, " bytes"@);
        },
        AgentErrorView::InvalidFunctionArguments { name, message } => {
            lemma_mentions("invalid arguments for function "@, name, ": "@ + message);
            assert("invalid arguments for function "@ + name + (": "@ + message) =~= text);
            lemma_ends("invalid arguments for function "@ + name + ": "@, message);
        },
        AgentErrorView::MaxFunctionCalls(limit) => lemma_ends(
            "max function calls exceeded: "@,
            decimal(limit as nat),
        ),
        AgentErrorView::MaxIterations(limit) => lemma_ends(
            "max iterations exceeded: "@,
            decimal(limit as nat),
        ),
        AgentErrorView::Http(part) => lemma_ends("http request failed: "@, part),
        AgentErrorView::Model(part) => lemma_ends("model failed: "@, part),
        AgentErrorView::Serialization(part) => lemma_ends("serialization failed: "@, part),
    }
}

} // verus!
