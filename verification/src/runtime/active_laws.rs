//! Which turns are under way, and what is told of a hook that failed.

use crate::json::JsonView;
use crate::runtime::active_turns::{
    aborted_turn, hook_after, hook_failure_event, registered, released, ActiveTurnsView,
};
use crate::runtime::error::{error_text, AgentErrorView};
use crate::runtime::turn::{FunctionCallHookContextView, TurnStreamEventView};
use vstd::prelude::*;

verus! {

/// A turn begins where its thread has none, under a number that no other has next; every other thread
/// keeps its turn.
pub proof fn law_turn_begins_under_its_own_number(active: ActiveTurnsView, thread_id: Seq<char>)
    ensures
        ({
            let (after, result) = registered(active, thread_id);
            &&& after.next != active.next
            &&& active.turns.contains_key(thread_id) ==> after.turns == active.turns && result
                == Err::<u64, AgentErrorView>(AgentErrorView::TurnAlreadyActive(thread_id))
            &&& !active.turns.contains_key(thread_id) ==> after.turns == active.turns.insert(
                thread_id,
                active.next,
            ) && result == Ok::<u64, AgentErrorView>(active.next)
        }),
{
}

/// The end of a turn takes away that turn of its thread and nothing else, and one that is not under
/// way any more takes away nothing.
pub proof fn law_end_takes_away_its_turn(
    active: ActiveTurnsView,
    thread_id: Seq<char>,
    number: u64,
)
    ensures
        ({
            let after = released(active, thread_id, number);
            &&& after.next == active.next
            &&& if active.turns.contains_key(thread_id) && active.turns[thread_id] == number {
                after.turns == active.turns.remove(thread_id)
            } else {
                after.turns == active.turns
            }
        }),
{
}

/// An abort is for the turn that its thread has, and an error where it has none.
pub proof fn law_abort_is_for_the_running_turn(active: ActiveTurnsView, thread_id: Seq<char>)
    ensures
        aborted_turn(active, thread_id) is Ok <==> active.turns.contains_key(thread_id),
        aborted_turn(active, thread_id) matches Ok(number) ==> number == active.turns[thread_id],
        aborted_turn(active, thread_id) matches Err(error) ==> error
            == AgentErrorView::TurnNotActive(thread_id),
{
}

/// Hooks are told one after the other, until one fails or there are none left.
pub proof fn law_next_hook_follows(total: nat, entered: nat, passed: bool)
    ensures
        hook_after(total, entered, passed) is Some <==> passed && entered < total,
        hook_after(total, entered, passed) matches Some(next) ==> next == entered,
{
}

/// A hook that failed after a call is told with the call's id and name and the text of its error.
pub proof fn law_failed_hook_is_told(context: FunctionCallHookContextView, error: AgentErrorView)
    ensures
        hook_failure_event(context, error) matches TurnStreamEventView::Runtime(event) && {
            let json = event.metadata;
            &&& event.source == "function_call_hook"@
            &&& json is Object
            &&& json->Object_0.contains_key("call_id"@) && json->Object_0["call_id"@]
                == JsonView::Text(context.call_id)
            &&& json->Object_0.contains_key("name"@) && json->Object_0["name"@] == JsonView::Text(
                context.name,
            )
            &&& json->Object_0.contains_key("error"@) && json->Object_0["error"@]
                == JsonView::Text(error_text(error))
        },
{
    reveal_strlit("call_id");
    reveal_strlit("name");
    reveal_strlit("error");
    assert("call_id"@.len() == 7);
    assert("name"@.len() == 4);
    assert("error"@.len() == 5);
}

} // verus!
