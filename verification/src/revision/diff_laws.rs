//! What a comparison of two specifications tells.

use crate::json_laws::{equals, law_values_compare_by_what_they_hold};
use crate::revision::diff::{
    agent_diff, diff_outcome, leveled_component, leveled_interface, leveled_runtime, tool_changes, tool_names,
    ToolChangeView, ValueChangeView,
};
use crate::revision::identity_laws::{is_valid, law_only_valid_specifications_pass};
use crate::revision::spec::{
    AgentSpecView, ComponentRefView, ModelSpecView, RuntimePolicySpecView, ToolInterfaceSpecView,
    ToolSpecView,
};
use crate::text::text_less;
use crate::text_map::{ascending, lemma_finite_is_walked};
use vstd::prelude::*;

verus! {

/// Two components are the same.
pub open spec fn same_component(a: ComponentRefView, b: ComponentRefView) -> bool {
    a.fqn == b.fqn && equals(a.configuration, b.configuration)
}

/// Two models are the same.
pub open spec fn same_model(a: ModelSpecView, b: ModelSpecView) -> bool {
    a.fqn == b.fqn && equals(a.settings, b.settings)
}

/// Two interfaces of tools are the same.
pub open spec fn same_interface(a: ToolInterfaceSpecView, b: ToolInterfaceSpecView) -> bool {
    a.name == b.name && a.description == b.description && equals(a.parameters, b.parameters)
        && equals(a.output_schema, b.output_schema)
}

/// Two runtime policies are the same.
pub open spec fn same_runtime(a: RuntimePolicySpecView, b: RuntimePolicySpecView) -> bool {
    &&& same_component(a.context_builder, b.context_builder)
    &&& a.hooks.len() == b.hooks.len()
    &&& forall|i: int|
        0 <= i < a.hooks.len() ==> same_component(#[trigger] a.hooks[i], b.hooks[i])
    &&& a.turn_execution_limits == b.turn_execution_limits
}

/// A change tells what was before and what is after, where these are not the same.
pub open spec fn tells_change<T>(
    change: Option<ValueChangeView<T>>,
    before: T,
    after: T,
    same: bool,
) -> bool {
    if same {
        change is None
    } else {
        change == Some(ValueChangeView { before, after })
    }
}

/// The name of the tool that a change is of.
pub open spec fn changed_name(change: ToolChangeView) -> Seq<char> {
    match change {
        ToolChangeView::Added { name, tool } => name,
        ToolChangeView::Removed { name, tool } => name,
        ToolChangeView::Modified { name, diff } => name,
    }
}

/// A change of a tool tells what became of it.
pub open spec fn tells_tool(
    change: ToolChangeView,
    before: Map<Seq<char>, ToolSpecView>,
    after: Map<Seq<char>, ToolSpecView>,
) -> bool {
    match change {
        ToolChangeView::Added { name, tool } => !before.contains_key(name) && after.contains_key(
            name,
        ) && tool == after[name],
        ToolChangeView::Removed { name, tool } => before.contains_key(name) && !after.contains_key(
            name,
        ) && tool == before[name],
        ToolChangeView::Modified { name, diff } => {
            &&& before.contains_key(name)
            &&& after.contains_key(name)
            &&& tells_change(
                diff.interface,
                before[name].interface,
                after[name].interface,
                same_interface(before[name].interface, after[name].interface),
            )
            &&& tells_change(
                diff.configuration,
                before[name].configuration,
                after[name].configuration,
                equals(before[name].configuration, after[name].configuration),
            )
            &&& diff.interface is Some || diff.configuration is Some
        },
    }
}

/// The tool of a name is the same before and after.
pub open spec fn same_tool(
    before: Map<Seq<char>, ToolSpecView>,
    after: Map<Seq<char>, ToolSpecView>,
    name: Seq<char>,
) -> bool {
    if before.contains_key(name) && after.contains_key(name) {
        same_interface(before[name].interface, after[name].interface) && equals(
            before[name].configuration,
            after[name].configuration,
        )
    } else {
        !before.contains_key(name) && !after.contains_key(name)
    }
}

proof fn lemma_component(a: ComponentRefView, b: ComponentRefView)
    ensures
        leveled_component(a) == leveled_component(b) <==> same_component(a, b),
{
    law_values_compare_by_what_they_hold(a.configuration, b.configuration);
}

proof fn lemma_interface(a: ToolInterfaceSpecView, b: ToolInterfaceSpecView)
    ensures
        leveled_interface(a) == leveled_interface(b) <==> same_interface(a, b),
{
    law_values_compare_by_what_they_hold(a.parameters, b.parameters);
    law_values_compare_by_what_they_hold(a.output_schema, b.output_schema);
}

proof fn lemma_runtime(a: RuntimePolicySpecView, b: RuntimePolicySpecView)
    ensures
        leveled_runtime(a) == leveled_runtime(b) <==> same_runtime(a, b),
{
    lemma_component(a.context_builder, b.context_builder);
    let (x, y) = (leveled_runtime(a), leveled_runtime(b));
    assert forall|i: int| 0 <= i < a.hooks.len() && i < b.hooks.len() implies (same_component(
        #[trigger] a.hooks[i],
        b.hooks[i],
    ) <==> leveled_component(a.hooks[i]) == leveled_component(b.hooks[i])) by {
        lemma_component(a.hooks[i], b.hooks[i]);
    }
    if same_runtime(a, b) {
        assert(x.hooks =~= y.hooks) by {
            assert forall|i: int| 0 <= i < x.hooks.len() implies x.hooks[i] == y.hooks[i] by {
                assert(same_component(a.hooks[i], b.hooks[i]));
            }
        }
    }
    if x == y {
        assert(x.hooks.len() == a.hooks.len() && y.hooks.len() == b.hooks.len());
        assert forall|i: int| 0 <= i < a.hooks.len() implies same_component(
            #[trigger] a.hooks[i],
            b.hooks[i],
        ) by {
            assert(x.hooks[i] == leveled_component(a.hooks[i]));
            assert(y.hooks[i] == leveled_component(b.hooks[i]));
        }
    }
}

proof fn lemma_tool_changes(
    before: Map<Seq<char>, ToolSpecView>,
    after: Map<Seq<char>, ToolSpecView>,
    names: Seq<Seq<char>>,
)
    requires
        ascending(names),
    ensures
        ({
            let changes = tool_changes(before, after, names);
            &&& forall|i: int|
                0 <= i < changes.len() ==> tells_tool(#[trigger] changes[i], before, after)
                    && names.contains(changed_name(changes[i]))
            &&& forall|i: int, j: int|
                0 <= i < j < changes.len() ==> text_less(
                    changed_name(#[trigger] changes[i]),
                    changed_name(#[trigger] changes[j]),
                )
            &&& forall|k: int|
                0 <= k < names.len() && !same_tool(before, after, #[trigger] names[k])
                    ==> exists|i: int|
                    0 <= i < changes.len() && changed_name(#[trigger] changes[i]) == names[k]
        }),
    decreases names.len(),
{
    if names.len() > 0 {
        let init = names.drop_last();
        let name = names.last();
        let n = names.len() - 1;
        assert forall|i: int, j: int| 0 <= i < j < init.len() implies text_less(
            #[trigger] init[i],
            #[trigger] init[j],
        ) by {
            assert(text_less(names[i], names[j]));
        }
        lemma_tool_changes(before, after, init);
        let rest = tool_changes(before, after, init);
        let changes = tool_changes(before, after, names);
        if before.contains_key(name) && after.contains_key(name) {
            lemma_interface(before[name].interface, after[name].interface);
            law_values_compare_by_what_they_hold(
                before[name].configuration,
                after[name].configuration,
            );
        }
        assert forall|i: int| 0 <= i < rest.len() implies names.contains(
            changed_name(#[trigger] rest[i]),
        ) && text_less(changed_name(rest[i]), name) by {
            let k = choose|k: int| 0 <= k < init.len() && init[k] == changed_name(rest[i]);
            assert(names[k] == changed_name(rest[i]));
            assert(text_less(names[k], names[n]));
        }
        assert(names[n] == name);
        assert(names.contains(name));
        assert forall|k: int|
            0 <= k < names.len() && !same_tool(before, after, #[trigger] names[k]) implies exists|
            i: int,
        | 0 <= i < changes.len() && changed_name(#[trigger] changes[i]) == names[k] by {
            if k < n {
                assert(init[k] == names[k]);
                let i = choose|i: int|
                    0 <= i < rest.len() && changed_name(#[trigger] rest[i]) == init[k];
                assert(changes[i] == rest[i]);
            } else {
                assert(changed_name(changes[changes.len() - 1]) == name);
            }
        }
    }
}

/// A comparison tells of each part of a specification what it was and what it is, where it changed,
/// and nothing where it did not; the two zeros are one number. Of the tools it tells in the order of
/// their names which were added, removed or changed, and how.
pub proof fn law_diff_tells_every_change(before: AgentSpecView, after: AgentSpecView)
    requires
        before.tools.dom().finite(),
        after.tools.dom().finite(),
    ensures
        ({
            let diff = agent_diff(before, after);
            &&& tells_change(
                diff.agent_id,
                before.agent_id,
                after.agent_id,
                before.agent_id == after.agent_id,
            )
            &&& tells_change(
                diff.model,
                before.model,
                after.model,
                same_model(before.model, after.model),
            )
            &&& tells_change(
                diff.prompts,
                before.prompts,
                after.prompts,
                before.prompts == after.prompts,
            )
            &&& tells_change(
                diff.runtime,
                before.runtime,
                after.runtime,
                same_runtime(before.runtime, after.runtime),
            )
            &&& tells_change(diff.build, before.build, after.build, before.build == after.build)
            &&& forall|i: int|
                0 <= i < diff.tools.len() ==> tells_tool(
                    #[trigger] diff.tools[i],
                    before.tools,
                    after.tools,
                )
            &&& forall|i: int, j: int|
                0 <= i < j < diff.tools.len() ==> text_less(
                    changed_name(#[trigger] diff.tools[i]),
                    changed_name(#[trigger] diff.tools[j]),
                )
            &&& forall|name: Seq<char>|
                !#[trigger] same_tool(before.tools, after.tools, name) ==> exists|i: int|
                    0 <= i < diff.tools.len() && changed_name(#[trigger] diff.tools[i]) == name
        }),
{
    law_values_compare_by_what_they_hold(before.model.settings, after.model.settings);
    lemma_runtime(before.runtime, after.runtime);
    let all = before.tools.dom().union(after.tools.dom());
    lemma_finite_is_walked(all);
    let names = tool_names(before.tools, after.tools);
    lemma_tool_changes(before.tools, after.tools, names);
    let diff = agent_diff(before, after);
    assert forall|name: Seq<char>|
        !#[trigger] same_tool(before.tools, after.tools, name) implies exists|i: int|
        0 <= i < diff.tools.len() && changed_name(#[trigger] diff.tools[i]) == name by {
        assert(all.contains(name));
        assert(names.contains(name));
        let k = choose|k: int| 0 <= k < names.len() && names[k] == name;
        assert(!same_tool(before.tools, after.tools, names[k]));
        let i = choose|i: int|
            0 <= i < diff.tools.len() && changed_name(#[trigger] diff.tools[i]) == names[k];
        assert(changed_name(diff.tools[i]) == name);
    }
}

/// Two valid specifications are compared, and any other is refused for what is wrong with it, the
/// earlier one first.
pub proof fn law_valid_specifications_are_compared(before: AgentSpecView, after: AgentSpecView)
    requires
        before.tools.dom().finite(),
        after.tools.dom().finite(),
    ensures
        diff_outcome(before, after) is Ok <==> is_valid(before) && is_valid(after),
        diff_outcome(before, after) matches Ok(diff) ==> diff == agent_diff(before, after),
        diff_outcome(before, after) matches Err(error) ==> error is InvalidSpec,
{
    law_only_valid_specifications_pass(before);
    law_only_valid_specifications_pass(after);
}

} // verus!
