//! Laws of functions, of resumed turns and of what a thread amounts to.

use crate::json::{Json, JsonView};
use crate::kernel::events::{
    appended, GoalStateView, SuspensionView, ThreadView, TurnItemKindView, TurnItemSource,
    TurnItemView, TurnStatus,
};
use crate::kernel::projection::{
    last_goal, last_suspension, pending_suspension, projected, PendingSuspensionView,
};
use crate::runtime::error::AgentErrorView;
use crate::runtime::functions::{
    goal_json, goal_of, json_size, output_settled, registry_descriptors, tool_call_settled,
    DiscardResolver, FunctionCallExecutionView, FunctionDescriptorView, FunctionExecution,
    FunctionLimits, FunctionOutputResolver, RegisteredFunctionView, SuspensionResolutionView,
};
use crate::runtime::resume::{
    after_resume_commit, after_resumed_call, begin_resume, resume_awaits_commit, ResumePhaseView,
    ResumeRunView, ResumeStepView,
};
use crate::runtime::turn_laws::{lemma_appended, only_grows, status_of};
use crate::runtime::turn_rules::{is_output_of, turn_items};
use crate::text_map::{ascending, lemma_finite_is_walked, sorted_keys};
use vstd::prelude::*;

verus! {

/// No output is handed on that is longer than its function may return, whatever the resolver does.
pub proof fn law_output_is_bounded<R: FunctionOutputResolver>(
    name: &str,
    output: Json,
    max_output_bytes: usize,
    resolver: &R,
    settled: JsonView,
)
    requires
        output_settled(
            name,
            output,
            max_output_bytes,
            resolver,
            Ok::<JsonView, AgentErrorView>(settled),
        ),
    ensures
        json_size(settled) <= max_output_bytes,
{
}

/// A call of a tool function hands on no output that is longer than the function may return.
pub proof fn law_call_output_is_bounded<R: FunctionOutputResolver>(
    name: &str,
    limits: FunctionLimits,
    returned: Option<crate::runtime::error::Result<FunctionExecution>>,
    resolver: &R,
    result: FunctionCallExecutionView,
)
    requires
        tool_call_settled(name, limits, returned, resolver, Ok(result)),
    ensures
        result matches FunctionCallExecutionView::Completed { output, effects: _ } ==> json_size(
            output,
        ) <= limits.max_output_bytes,
        result matches FunctionCallExecutionView::SuspendedAfterExecution {
            suspension: _,
            output,
            effects: _,
        } ==> json_size(output) <= limits.max_output_bytes,
{
}

/// Without a resolver of its own, a call whose output is too long fails for that reason.
pub proof fn law_long_output_is_discarded(
    name: &str,
    output: Json,
    max_output_bytes: usize,
    resolver: &DiscardResolver,
    result: core::result::Result<JsonView, AgentErrorView>,
)
    requires
        output_settled(name, output, max_output_bytes, resolver, result),
        json_size(output.deep_view()) > max_output_bytes,
    ensures
        result == Err::<JsonView, AgentErrorView>(
            AgentErrorView::FunctionOutputTooLarge { name: name@, max_bytes: max_output_bytes },
        ),
{
}

/// Every function is registered under its own name.
pub open spec fn well_named(functions: Map<Seq<char>, RegisteredFunctionView>) -> bool {
    forall|name: Seq<char>| #[trigger]
        functions.contains_key(name) ==> functions[name].descriptor.spec.name == name
}

/// Whatever is registered, every function stays registered under its own name.
pub proof fn law_functions_keep_their_names(
    functions: Map<Seq<char>, RegisteredFunctionView>,
    function: RegisteredFunctionView,
)
    requires
        well_named(functions),
    ensures
        well_named(functions.insert(function.descriptor.spec.name, function)),
{
}

/// The model is told the functions in ascending order of their names, each once and none left out.
pub proof fn law_functions_are_told_in_order(functions: Map<Seq<char>, RegisteredFunctionView>)
    requires
        functions.dom().finite(),
        well_named(functions),
    ensures
        ascending(
            registry_descriptors(functions).map_values(
                |descriptor: FunctionDescriptorView| descriptor.spec.name,
            ),
        ),
        forall|name: Seq<char>|
            functions.contains_key(name) ==> registry_descriptors(functions).contains(
                (#[trigger] functions[name]).descriptor,
            ),
{
    lemma_finite_is_walked(functions.dom());
    let keys = sorted_keys(functions.dom());
    let names = registry_descriptors(functions).map_values(
        |descriptor: FunctionDescriptorView| descriptor.spec.name,
    );
    assert forall|i: int| 0 <= i < keys.len() implies #[trigger] names[i] == keys[i] by {
        assert(keys.contains(keys[i]));
        assert(functions.contains_key(keys[i]));
    }
    assert(names =~= keys);
    assert forall|name: Seq<char>| functions.contains_key(name) implies registry_descriptors(
        functions,
    ).contains((#[trigger] functions[name]).descriptor) by {
        assert(keys.contains(name));
        let i = choose|i: int| 0 <= i < keys.len() && keys[i] == name;
        assert(registry_descriptors(functions)[i] == functions[name].descriptor);
    }
}

proof fn lemma_goal_keys()
    ensures
        "objective"@ != "status"@,
        "objective"@ != "notes"@,
        "status"@ != "notes"@,
        "active"@ != "complete"@,
        "active"@ != "blocked"@,
        "complete"@ != "blocked"@,
{
    reveal_strlit("objective");
    reveal_strlit("status");
    reveal_strlit("notes");
    reveal_strlit("active");
    reveal_strlit("complete");
    reveal_strlit("blocked");
    assert("objective"@.len() != "status"@.len());
    assert("objective"@.len() != "notes"@.len());
    assert("status"@.len() != "notes"@.len());
    assert("active"@.len() != "complete"@.len());
    assert("active"@.len() != "blocked"@.len());
    assert("complete"@.len() != "blocked"@.len());
}

/// A goal that is written down is read back as it was.
pub proof fn law_goal_is_read_back(goal: GoalStateView)
    ensures
        goal_of(goal_json(goal)) == Ok::<GoalStateView, Seq<char>>(goal),
{
    lemma_goal_keys();
}

proof fn lemma_last_turn(thread: ThreadView, items: Seq<TurnItemView>, status: Option<TurnStatus>)
    requires
        thread.turns.len() > 0,
        crate::kernel::events::turn_position(thread.turns, thread.turns.last().id)
            == thread.turns.len() - 1,
    ensures
        ({
            let after = appended(thread, thread.turns.last().id, items, status);
            &&& after is Some
            &&& after->Some_0.turns.len() == thread.turns.len()
            &&& after->Some_0.turns.drop_last() == thread.turns.drop_last()
            &&& after->Some_0.turns.last().id == thread.turns.last().id
            &&& after->Some_0.turns.last().items == thread.turns.last().items + items
            &&& after->Some_0.turns.last().status == match status {
                Some(status) => status,
                None => thread.turns.last().status,
            }
        }),
{
    let after = appended(thread, thread.turns.last().id, items, status)->Some_0;
    assert(after.turns.drop_last() =~= thread.turns.drop_last());
}

/// A goal that the last turn of a thread sets is the goal of the thread.
pub proof fn law_set_goal_is_the_goal(
    thread: ThreadView,
    source: TurnItemSource,
    previous: Option<GoalStateView>,
    current: GoalStateView,
    status: Option<TurnStatus>,
)
    requires
        thread.turns.len() > 0,
        crate::kernel::events::turn_position(thread.turns, thread.turns.last().id)
            == thread.turns.len() - 1,
    ensures
        ({
            let item = TurnItemView {
                source,
                kind: TurnItemKindView::GoalUpdated { previous, current },
            };
            let after = appended(thread, thread.turns.last().id, seq![item], status);
            after is Some && projected(after->Some_0).goal == Some(current)
        }),
{
    let item = TurnItemView { source, kind: TurnItemKindView::GoalUpdated { previous, current } };
    lemma_last_turn(thread, seq![item], status);
    let items = thread.turns.last().items + seq![item];
    assert(items.last() == item);
    assert(last_goal(items) == Some(current));
}

/// A suspension with which the last turn of a thread stops is what the thread waits on.
pub proof fn law_suspension_is_waited_on(
    thread: ThreadView,
    source: TurnItemSource,
    suspension: SuspensionView,
)
    requires
        thread.turns.len() > 0,
        crate::kernel::events::turn_position(thread.turns, thread.turns.last().id)
            == thread.turns.len() - 1,
    ensures
        ({
            let item = TurnItemView {
                source,
                kind: TurnItemKindView::SuspensionCreated { suspension },
            };
            let after = appended(
                thread,
                thread.turns.last().id,
                seq![item],
                Some(TurnStatus::Suspended),
            );
            after is Some && projected(after->Some_0).pending_suspension == Some(
                PendingSuspensionView { turn_id: thread.turns.last().id, suspension },
            )
        }),
{
    let item = TurnItemView { source, kind: TurnItemKindView::SuspensionCreated { suspension } };
    lemma_last_turn(thread, seq![item], Some(TurnStatus::Suspended));
    let items = thread.turns.last().items + seq![item];
    assert(items.last() == item);
    assert(last_suspension(items) == Some(suspension));
}

/// Only the suspension that a thread waits on can be resolved; every other is refused by its id.
pub proof fn law_only_the_pending_suspension_is_resolved(
    thread: ThreadView,
    suspension_id: Seq<char>,
    resolution: SuspensionResolutionView,
)
    requires
        !(pending_suspension(thread.turns) matches Some(pending) && pending.suspension.id
            == suspension_id),
    ensures
        begin_resume(thread, suspension_id, resolution) == Err::<ResumeStepView, AgentErrorView>(
            AgentErrorView::TurnNotFound(suspension_id),
        ),
{
}

/// A resolved suspension goes on in its own turn: the turn's records only grow, no turn is made,
/// and the turn runs again unless it still has to execute the approved call.
pub proof fn law_resolution_goes_on_in_its_turn(
    thread: ThreadView,
    suspension_id: Seq<char>,
    resolution: SuspensionResolutionView,
)
    requires
        begin_resume(thread, suspension_id, resolution) is Ok,
    ensures
        ({
            let run = begin_resume(thread, suspension_id, resolution)->Ok_0.run;
            &&& pending_suspension(thread.turns) is Some
            &&& run.turn_id == pending_suspension(thread.turns)->Some_0.turn_id
            &&& only_grows(thread, run.thread, run.turn_id)
            &&& turn_items(run.thread, run.turn_id).len()
                == turn_items(thread, run.turn_id).len() + 1
            &&& resolution is Approve ==> run.phase is Starting
            &&& !(resolution is Approve) ==> run.phase is Settling && status_of(
                run.thread,
                run.turn_id,
            ) == TurnStatus::Running
        }),
{
    let run = begin_resume(thread, suspension_id, resolution)->Ok_0.run;
    assert forall|items: Seq<TurnItemView>, status: Option<TurnStatus>|
        (#[trigger] appended(thread, run.turn_id, items, status)) is Some implies only_grows(
        thread,
        appended(thread, run.turn_id, items, status)->Some_0,
        run.turn_id,
    ) && turn_items(appended(
        thread,
        run.turn_id,
        items,
        status,
    )->Some_0, run.turn_id) == turn_items(
        thread,
        run.turn_id,
    ) + items && (status is Some ==> status_of(
        appended(thread, run.turn_id, items, status)->Some_0,
        run.turn_id,
    ) == status->Some_0) by {
        lemma_appended(thread, run.turn_id, items, status);
    }
}

/// An approved call is executed once: the commit of its start asks for it, and nothing that comes
/// after it does.
pub proof fn law_approved_call_is_executed_once(
    run: ResumeRunView,
    thread: ThreadView,
    execution: Option<core::result::Result<FunctionCallExecutionView, AgentErrorView>>,
)
    ensures
        resume_awaits_commit(run.phase) ==> {
            let step = after_resume_commit(run, thread);
            &&& step.command is CallFunction <==> run.phase is Starting
            &&& run.phase matches ResumePhaseView::Starting { call } ==> step.run.phase
                == (ResumePhaseView::Calling { call }) && step.command->CallFunction_call == call
            &&& !(run.phase is Starting) ==> step.run.phase is Done
        },
        run.phase matches ResumePhaseView::Calling { call } ==> {
            let result = after_resumed_call(run, call, execution);
            result is Ok ==> !(result->Ok_0.command is CallFunction) && !(
            result->Ok_0.run.phase is Starting)
        },
{
}

/// The result of an approved call is recorded in the turn, unless it suspends the turn again.
pub proof fn law_approved_call_is_answered(
    run: ResumeRunView,
    execution: Option<core::result::Result<FunctionCallExecutionView, AgentErrorView>>,
)
    requires
        run.phase is Calling,
        after_resumed_call(run, run.phase->Calling_call, execution) is Ok,
    ensures
        ({
            let call = run.phase->Calling_call;
            let step = after_resumed_call(run, call, execution)->Ok_0;
            let items = turn_items(step.run.thread, run.turn_id);
            if execution matches Some(Ok(ended)) && !(ended is Completed) {
                &&& step.run.thread == run.thread
                &&& step.command is Finish
            } else {
                &&& step.command is Commit
                &&& only_grows(run.thread, step.run.thread, run.turn_id)
                &&& items.len() > turn_items(run.thread, run.turn_id).len()
                &&& is_output_of(items.last(), call.call_id)
            }
        }),
{
    let call = run.phase->Calling_call;
    let step = after_resumed_call(run, call, execution)->Ok_0;
    assert forall|items: Seq<TurnItemView>, status: Option<TurnStatus>|
        (#[trigger] appended(run.thread, run.turn_id, items, status)) is Some implies only_grows(
        run.thread,
        appended(run.thread, run.turn_id, items, status)->Some_0,
        run.turn_id,
    ) && turn_items(appended(run.thread, run.turn_id, items, status)->Some_0, run.turn_id)
        == turn_items(run.thread, run.turn_id) + items by {
        lemma_appended(run.thread, run.turn_id, items, status);
    }
}

} // verus!
