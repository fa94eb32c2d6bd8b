//! What becomes of what a function returned.

use crate::json::{compact, JsonView};
use crate::json_laws::holds;
use crate::kernel::events::{GoalStateView, GoalStatus};
use crate::runtime::error::{AgentErrorView, Result};
use crate::runtime::functions::{
    command_call_settled, goal_of, limits_checked, resolution_settled, tool_call_settled,
    update_goal_descriptor, update_goal_parameters, FunctionCallExecutionView, FunctionExecution,
    FunctionLimits, FunctionLimitsView, FunctionOutputResolver, RuntimeCommandExecution,
};
use crate::text_map::sorted_keys;
use vstd::prelude::*;
use vstd::utf8::encode_utf8;

verus! {

/// An output is no longer than a function may return.
pub open spec fn fits(output: JsonView, max: usize) -> bool {
    encode_utf8(compact(output)).len() <= max
}

/// An output whose length in bytes can be counted.
pub open spec fn is_counted(output: JsonView) -> bool {
    encode_utf8(compact(output)).len() <= usize::MAX
}

/// What a tool function returned is handed on: an output that is short enough as it is, a suspension
/// as it is, and an error as it is. A tool function has no effects.
pub proof fn law_what_a_tool_returned_is_handed_on<R: FunctionOutputResolver>(
    name: &str,
    limits: FunctionLimits,
    returned: FunctionExecution,
    resolver: &R,
    result: core::result::Result<FunctionCallExecutionView, AgentErrorView>,
)
    requires
        tool_call_settled(name, limits, Some(Ok(returned)), resolver, result),
    ensures
        match returned {
            FunctionExecution::Completed { output } => is_counted(output.deep_view()) && fits(
                output.deep_view(),
                limits.max_output_bytes,
            ) ==> (result matches Ok(call) && call is Completed && call->Completed_output
                == output.deep_view() && call->Completed_effects.len() == 0),
            FunctionExecution::SuspendedAfterExecution { suspension, output } => is_counted(
                output.deep_view(),
            ) && fits(output.deep_view(), limits.max_output_bytes) ==> (result matches Ok(call)
                && call is SuspendedAfterExecution && call->SuspendedAfterExecution_output
                == output.deep_view() && call->SuspendedAfterExecution_suspension
                == suspension.deep_view() && call->SuspendedAfterExecution_effects.len() == 0),
            FunctionExecution::SuspendedBeforeExecution { suspension } => result matches Ok(call)
                && call is SuspendedBeforeExecution && call->SuspendedBeforeExecution_suspension
                == suspension.deep_view() && call->SuspendedBeforeExecution_effects.len() == 0,
        },
{
}

/// What a runtime command returned is handed on in the same way, with all its effects in their order.
pub proof fn law_what_a_command_returned_is_handed_on<R: FunctionOutputResolver>(
    name: &str,
    limits: FunctionLimits,
    returned: RuntimeCommandExecution,
    resolver: &R,
    result: core::result::Result<FunctionCallExecutionView, AgentErrorView>,
)
    requires
        command_call_settled(name, limits, Some(Ok(returned)), resolver, result),
    ensures
        match returned {
            RuntimeCommandExecution::Completed { output, effects } => is_counted(
                output.deep_view(),
            ) && fits(output.deep_view(), limits.max_output_bytes) ==> (result matches Ok(call)
                && call is Completed && call->Completed_output == output.deep_view()
                && call->Completed_effects == effects.deep_view()),
            RuntimeCommandExecution::SuspendedAfterExecution { suspension, output, effects } =>
                is_counted(output.deep_view()) && fits(output.deep_view(), limits.max_output_bytes)
                ==> (result matches Ok(call) && call is SuspendedAfterExecution
                && call->SuspendedAfterExecution_output == output.deep_view()
                && call->SuspendedAfterExecution_suspension == suspension.deep_view()
                && call->SuspendedAfterExecution_effects == effects.deep_view()),
            RuntimeCommandExecution::SuspendedBeforeExecution { suspension, effects } =>
                result matches Ok(call) && call is SuspendedBeforeExecution
                && call->SuspendedBeforeExecution_suspension == suspension.deep_view()
                && call->SuspendedBeforeExecution_effects == effects.deep_view(),
        },
{
}

/// A call whose time ran out is a timeout of that function, which tells the budget in whole
/// milliseconds.
pub proof fn law_timed_out_call_tells_its_budget<R: FunctionOutputResolver>(
    name: &str,
    limits: FunctionLimits,
    resolver: &R,
    tool: Option<Result<FunctionExecution>>,
    command: Option<Result<RuntimeCommandExecution>>,
    result: core::result::Result<FunctionCallExecutionView, AgentErrorView>,
)
    requires
        limits.deep_view().time_budget <= u128::MAX,
        tool_call_settled(name, limits, tool, resolver, result) || command_call_settled(
            name,
            limits,
            command,
            resolver,
            result,
        ),
        tool is None && command is None,
    ensures
        result matches Err(error) && error is FunctionTimeout && error->FunctionTimeout_name == name@
            && error->FunctionTimeout_timeout_ms * 1_000_000 <= limits.deep_view().time_budget
            < (error->FunctionTimeout_timeout_ms + 1) * 1_000_000,
{
    let budget = limits.deep_view().time_budget as int;
    vstd::arithmetic::div_mod::lemma_fundamental_div_mod(budget, 1_000_000);
    vstd::arithmetic::div_mod::lemma_div_is_ordered_by_denominator(budget, 1, 1_000_000);
}

/// An error that a function returned is the error of its call.
pub proof fn law_returned_error_is_passed_on<R: FunctionOutputResolver>(
    name: &str,
    limits: FunctionLimits,
    resolver: &R,
    tool: Result<FunctionExecution>,
    command: Result<RuntimeCommandExecution>,
    result: core::result::Result<FunctionCallExecutionView, AgentErrorView>,
)
    ensures
        tool is Err && tool_call_settled(name, limits, Some(tool), resolver, result) ==> result
            == Err::<FunctionCallExecutionView, AgentErrorView>(tool->Err_0.deep_view()),
        command is Err && command_call_settled(name, limits, Some(command), resolver, result)
            ==> result == Err::<FunctionCallExecutionView, AgentErrorView>(
            command->Err_0.deep_view(),
        ),
{
}

/// What was made of an output that is too long is taken as it is where it is short enough, and else
/// the output is too large for its function.
pub proof fn law_shortened_output_is_taken(
    name: Seq<char>,
    resolved: core::result::Result<JsonView, AgentErrorView>,
    max: usize,
)
    ensures
        resolved is Err ==> resolution_settled(name, resolved, max) == resolved,
        resolved matches Ok(output) ==> is_counted(output) ==> resolution_settled(
            name,
            resolved,
            max,
        ) == if fits(output, max) {
            resolved
        } else {
            Err::<JsonView, AgentErrorView>(
                AgentErrorView::FunctionOutputTooLarge { name, max_bytes: max },
            )
        },
{
}

/// A function can be called where it has some time and may return something; the time is looked at
/// first.
pub proof fn law_limits_leave_room(name: Seq<char>, limits: FunctionLimitsView)
    ensures
        limits_checked(name, limits) is Ok <==> limits.time_budget > 0 && limits.max_output_bytes
            > 0,
        limits_checked(name, limits) matches Err(error) ==> error == if limits.time_budget == 0 {
            AgentErrorView::InvalidFunctionTimeout { name }
        } else {
            AgentErrorView::InvalidFunctionOutputLimit { name }
        },
{
}

/// A status goes by its name.
pub open spec fn names_status(json: JsonView, status: GoalStatus) -> bool {
    let name = match status {
        GoalStatus::Active => "active"@,
        GoalStatus::Complete => "complete"@,
        GoalStatus::Blocked => "blocked"@,
    };
    ||| json == JsonView::Text(name)
    ||| json is Object && sorted_keys(json->Object_0.dom()) == seq![name]
        && json->Object_0[name] is Null
}

/// The goal that an object describes has the objective, the status and the notes of the object; the
/// notes can be left out or be null.
pub proof fn law_goal_is_what_the_arguments_say(args: JsonView, goal: GoalStateView)
    requires
        args is Object,
        goal_of(args) == Ok::<GoalStateView, Seq<char>>(goal),
    ensures
        holds(args, "objective"@, JsonView::Text(goal.objective)),
        args->Object_0.contains_key("status"@),
        names_status(args->Object_0["status"@], goal.status),
        match goal.notes {
            Some(notes) => holds(args, "notes"@, JsonView::Text(notes)),
            None => args->Object_0.contains_key("notes"@) ==> args->Object_0["notes"@] is Null,
        },
{
    let status = args->Object_0["status"@];
    if status is Object {
        let keys = sorted_keys(status->Object_0.dom());
        assert(keys =~= seq![keys[0]]);
    }
}

/// The goal that a list describes has its first item as the objective, its second as the status and
/// its third, which can be null, as the notes; there are no more and no fewer.
pub proof fn law_goal_is_what_the_list_says(items: Seq<JsonView>, goal: GoalStateView)
    requires
        goal_of(JsonView::Array(items)) == Ok::<GoalStateView, Seq<char>>(goal),
    ensures
        items.len() == 3,
        items[0] == JsonView::Text(goal.objective),
        names_status(items[1], goal.status),
        items[2] == match goal.notes {
            Some(notes) => JsonView::Text(notes),
            None => JsonView::Null,
        },
{
    let status = items[1];
    if status is Object {
        let keys = sorted_keys(status->Object_0.dom());
        assert(keys =~= seq![keys[0]]);
    }
}

/// The model is told of the members that are read, that the objective and the status must be there,
/// and of every status by its name.
pub proof fn law_schema_names_the_goal(args: JsonView)
    ensures
        ({
            let schema = update_goal_parameters();
            let properties = schema->Object_0["properties"@];
            &&& holds(
                schema,
                "required"@,
                JsonView::Array(seq![JsonView::Text("objective"@), JsonView::Text("status"@)]),
            )
            &&& schema->Object_0.contains_key("properties"@)
            &&& properties is Object
            &&& properties->Object_0.dom() == set!["objective"@, "status"@, "notes"@]
            &&& args is Object && goal_of(args) is Ok ==> args->Object_0.contains_key("objective"@)
                && args->Object_0.contains_key("status"@)
        }),
        update_goal_descriptor().spec.name == "update_goal"@,
        update_goal_descriptor().spec.parameters == update_goal_parameters(),
        update_goal_descriptor().limits.time_budget > 0,
        update_goal_descriptor().limits.max_output_bytes > 0,
{
    reveal_strlit("type");
    reveal_strlit("properties");
    reveal_strlit("required");
    reveal_strlit("additionalProperties");
    assert("type"@.len() == 4);
    assert("properties"@.len() == 10);
    assert("required"@.len() == 8);
    assert("additionalProperties"@.len() == 20);
    let properties = update_goal_parameters()->Object_0["properties"@];
    assert(properties->Object_0.dom() =~= set!["objective"@, "status"@, "notes"@]);
}

} // verus!
