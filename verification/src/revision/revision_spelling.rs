//! The text of a revision spells its document.

use crate::codec::optional_text_text;
use crate::json::{compact, json_quoted, NumberView};
use crate::revision::revision::{AgentRevisionView, CommitMessageView, RevisionMetadataView};
use crate::revision::revision_codec::{
    agent_revision_json, agent_revision_text, commit_message_json, commit_message_text,
    parents_json, parents_text, revision_metadata_json, revision_metadata_text,
};
use crate::revision::spec::{
    AgentBuildRefView, AgentSpecView, ComponentRefView, ModelSpecView, PromptSpecView,
    RuntimePolicySpecView, ToolInterfaceSpecView, ToolSpecView, TurnExecutionLimitsSpec,
};
use crate::revision::spec_codec::{
    agent_build_ref_json, agent_build_ref_text, agent_spec_json, agent_spec_text,
    component_ref_json, component_ref_text, hooks_json, hooks_text, model_spec_json,
    model_spec_text, prompt_spec_json, prompt_spec_text, runtime_policy_spec_json,
    runtime_policy_spec_text, templates_fields, templates_json, templates_text,
    tool_interface_spec_json, tool_interface_spec_text, tool_spec_json, tool_spec_text,
    tools_fields, tools_json, tools_text, turn_execution_limits_spec_json,
    turn_execution_limits_spec_text,
};
use crate::spelling::{
    field_keys, in_order, is_plain, is_plain_json, lemma_each_field, lemma_each_item,
    lemma_in_order_is_compact, lemma_no_fields, lemma_one_more, lemma_plain_in_order, meant,
    meant_fields, meant_items, spelled, spelled_fields, spelled_items, Spelling,
};
use crate::text::decimal;
use crate::text_map::{lemma_finite_is_walked, sorted_keys};
use vstd::prelude::*;

verus! {

/// The spelling of a text that may be left out.
pub open spec fn optional_text_spelling(text: Option<Seq<char>>) -> Spelling {
    match text {
        Some(text) => Spelling::Text(text),
        None => Spelling::Null,
    }
}

/// The spelling of a component.
pub open spec fn component_ref_spelling(value: ComponentRefView) -> Spelling {
    Spelling::Object(
        seq![
            ("fqn"@, Spelling::Text(value.fqn)),
            ("configuration"@, in_order(value.configuration)),
        ],
    )
}

proof fn lemma_component_ref_is_spelled(value: ComponentRefView, depth: nat)
    requires
        is_plain_json(component_ref_json(value), depth),
    ensures
        spelled(component_ref_spelling(value)) == component_ref_text(value),
        meant(component_ref_spelling(value)) == component_ref_json(value),
        is_plain(component_ref_spelling(value), depth),
{
    reveal_strlit("fqn");
    reveal_strlit("configuration");
    assert("fqn"@.len() != "configuration"@.len());
    let inner = (depth - 1) as nat;
    let members = component_ref_json(value)->Object_0;
    assert(members.contains_key("configuration"@));
    assert(is_plain_json(members["configuration"@], inner));
    lemma_in_order_is_compact(value.configuration);
    lemma_plain_in_order(value.configuration, inner);
    lemma_no_fields(inner);
    let fields = Seq::<(Seq<char>, Spelling)>::empty();
    let next = Spelling::Text(value.fqn);
    lemma_one_more(fields, "fqn"@, next, inner);
    let fields = fields.push(("fqn"@, next));
    let next = in_order(value.configuration);
    lemma_one_more(fields, "configuration"@, next, inner);
    let fields = fields.push(("configuration"@, next));
    assert(component_ref_spelling(value)->Object_0 =~= fields);
    assert(spelled_fields(fields) =~= seq![
        ("fqn"@, json_quoted(value.fqn)),
        ("configuration"@, compact(value.configuration)),
    ]);
    assert(meant_fields(fields) =~= component_ref_json(value)->Object_0);
}

/// The spelling of a model.
pub open spec fn model_spec_spelling(value: ModelSpecView) -> Spelling {
    Spelling::Object(
        seq![
            ("fqn"@, Spelling::Text(value.fqn)),
            ("settings"@, in_order(value.settings)),
        ],
    )
}

proof fn lemma_model_spec_is_spelled(value: ModelSpecView, depth: nat)
    requires
        is_plain_json(model_spec_json(value), depth),
    ensures
        spelled(model_spec_spelling(value)) == model_spec_text(value),
        meant(model_spec_spelling(value)) == model_spec_json(value),
        is_plain(model_spec_spelling(value), depth),
{
    reveal_strlit("fqn");
    reveal_strlit("settings");
    assert("fqn"@.len() != "settings"@.len());
    let inner = (depth - 1) as nat;
    let members = model_spec_json(value)->Object_0;
    assert(members.contains_key("settings"@));
    assert(is_plain_json(members["settings"@], inner));
    lemma_in_order_is_compact(value.settings);
    lemma_plain_in_order(value.settings, inner);
    lemma_no_fields(inner);
    let fields = Seq::<(Seq<char>, Spelling)>::empty();
    let next = Spelling::Text(value.fqn);
    lemma_one_more(fields, "fqn"@, next, inner);
    let fields = fields.push(("fqn"@, next));
    let next = in_order(value.settings);
    lemma_one_more(fields, "settings"@, next, inner);
    let fields = fields.push(("settings"@, next));
    assert(model_spec_spelling(value)->Object_0 =~= fields);
    assert(spelled_fields(fields) =~= seq![
        ("fqn"@, json_quoted(value.fqn)),
        ("settings"@, compact(value.settings)),
    ]);
    assert(meant_fields(fields) =~= model_spec_json(value)->Object_0);
}

/// The spelling of the templates of a prompt.
pub open spec fn templates_spelling(values: Map<Seq<char>, Seq<char>>) -> Spelling {
    Spelling::Object(
        Seq::new(
            sorted_keys(values.dom()).len(),
            |i: int|
                (
                    sorted_keys(values.dom())[i],
                    Spelling::Text(values[sorted_keys(values.dom())[i]]),
                ),
        ),
    )
}

proof fn lemma_templates_is_spelled(values: Map<Seq<char>, Seq<char>>, depth: nat)
    requires
        is_plain_json(templates_json(values), depth),
    ensures
        spelled(templates_spelling(values)) == templates_text(values),
        meant(templates_spelling(values)) == templates_json(values),
        is_plain(templates_spelling(values), depth),
{
    let inner = (depth - 1) as nat;
    let members = templates_json(values)->Object_0;
    let fields = templates_spelling(values)->Object_0;
    let keys = sorted_keys(values.dom());
    assert(members.dom() =~= values.dom());
    lemma_finite_is_walked(values.dom());
    assert(field_keys(fields) =~= keys);
    assert forall|i: int| 0 <= i < fields.len() implies values.contains_key(keys[i]) && is_plain(
        (#[trigger] fields[i]).1,
        inner,
    ) && spelled(fields[i].1) == json_quoted(values[keys[i]]) && meant(fields[i].1) == members[keys[i]] by {
        assert(keys.contains(keys[i]));
        assert(members.contains_key(keys[i]));
        assert(is_plain_json(members[keys[i]], inner));
    }
    lemma_each_field(fields, inner);
    assert(spelled_fields(fields) =~= templates_fields(values));
    assert forall|key: Seq<char>| #[trigger] members.contains_key(key) implies meant_fields(
        fields,
    ).contains_key(key) && meant_fields(fields)[key] == members[key] by {
        let i = choose|i: int| 0 <= i < keys.len() && keys[i] == key;
        assert(keys.contains(key));
        assert(fields[i].0 == key);
    }
    assert(meant_fields(fields) =~= members);
}

/// The spelling of a prompt.
pub open spec fn prompt_spec_spelling(value: PromptSpecView) -> Spelling {
    Spelling::Object(
        seq![
            ("system"@, Spelling::Text(value.system)),
            ("templates"@, templates_spelling(value.templates)),
        ],
    )
}

proof fn lemma_prompt_spec_is_spelled(value: PromptSpecView, depth: nat)
    requires
        is_plain_json(prompt_spec_json(value), depth),
    ensures
        spelled(prompt_spec_spelling(value)) == prompt_spec_text(value),
        meant(prompt_spec_spelling(value)) == prompt_spec_json(value),
        is_plain(prompt_spec_spelling(value), depth),
{
    reveal_strlit("system");
    reveal_strlit("templates");
    assert("system"@.len() != "templates"@.len());
    let inner = (depth - 1) as nat;
    let members = prompt_spec_json(value)->Object_0;
    assert(members.contains_key("templates"@));
    assert(is_plain_json(members["templates"@], inner));
    lemma_templates_is_spelled(value.templates, inner);
    lemma_no_fields(inner);
    let fields = Seq::<(Seq<char>, Spelling)>::empty();
    let next = Spelling::Text(value.system);
    lemma_one_more(fields, "system"@, next, inner);
    let fields = fields.push(("system"@, next));
    let next = templates_spelling(value.templates);
    lemma_one_more(fields, "templates"@, next, inner);
    let fields = fields.push(("templates"@, next));
    assert(prompt_spec_spelling(value)->Object_0 =~= fields);
    assert(spelled_fields(fields) =~= seq![
        ("system"@, json_quoted(value.system)),
        ("templates"@, templates_text(value.templates)),
    ]);
    assert(meant_fields(fields) =~= prompt_spec_json(value)->Object_0);
}

/// The spelling of the interface of a tool.
pub open spec fn tool_interface_spec_spelling(value: ToolInterfaceSpecView) -> Spelling {
    Spelling::Object(
        seq![
            ("name"@, Spelling::Text(value.name)),
            ("description"@, Spelling::Text(value.description)),
            ("parameters"@, in_order(value.parameters)),
            ("output_schema"@, in_order(value.output_schema)),
        ],
    )
}

proof fn lemma_tool_interface_spec_is_spelled(value: ToolInterfaceSpecView, depth: nat)
    requires
        is_plain_json(tool_interface_spec_json(value), depth),
    ensures
        spelled(tool_interface_spec_spelling(value)) == tool_interface_spec_text(value),
        meant(tool_interface_spec_spelling(value)) == tool_interface_spec_json(value),
        is_plain(tool_interface_spec_spelling(value), depth),
{
    reveal_strlit("name");
    reveal_strlit("description");
    reveal_strlit("parameters");
    reveal_strlit("output_schema");
    assert("name"@.len() != "description"@.len());
    assert("name"@.len() != "parameters"@.len());
    assert("description"@.len() != "parameters"@.len());
    assert("name"@.len() != "output_schema"@.len());
    assert("description"@.len() != "output_schema"@.len());
    assert("parameters"@.len() != "output_schema"@.len());
    let inner = (depth - 1) as nat;
    let members = tool_interface_spec_json(value)->Object_0;
    assert(members.contains_key("parameters"@));
    assert(is_plain_json(members["parameters"@], inner));
    lemma_in_order_is_compact(value.parameters);
    lemma_plain_in_order(value.parameters, inner);
    assert(members.contains_key("output_schema"@));
    assert(is_plain_json(members["output_schema"@], inner));
    lemma_in_order_is_compact(value.output_schema);
    lemma_plain_in_order(value.output_schema, inner);
    lemma_no_fields(inner);
    let fields = Seq::<(Seq<char>, Spelling)>::empty();
    let next = Spelling::Text(value.name);
    lemma_one_more(fields, "name"@, next, inner);
    let fields = fields.push(("name"@, next));
    let next = Spelling::Text(value.description);
    lemma_one_more(fields, "description"@, next, inner);
    let fields = fields.push(("description"@, next));
    let next = in_order(value.parameters);
    lemma_one_more(fields, "parameters"@, next, inner);
    let fields = fields.push(("parameters"@, next));
    let next = in_order(value.output_schema);
    lemma_one_more(fields, "output_schema"@, next, inner);
    let fields = fields.push(("output_schema"@, next));
    assert(tool_interface_spec_spelling(value)->Object_0 =~= fields);
    assert(spelled_fields(fields) =~= seq![
        ("name"@, json_quoted(value.name)),
        ("description"@, json_quoted(value.description)),
        ("parameters"@, compact(value.parameters)),
        ("output_schema"@, compact(value.output_schema)),
    ]);
    assert(meant_fields(fields) =~= tool_interface_spec_json(value)->Object_0);
}

/// The spelling of a build.
pub open spec fn agent_build_ref_spelling(value: AgentBuildRefView) -> Spelling {
    Spelling::Object(
        seq![
            ("id"@, Spelling::Text(value.id)),
        ],
    )
}

proof fn lemma_agent_build_ref_is_spelled(value: AgentBuildRefView, depth: nat)
    requires
        is_plain_json(agent_build_ref_json(value), depth),
    ensures
        spelled(agent_build_ref_spelling(value)) == agent_build_ref_text(value),
        meant(agent_build_ref_spelling(value)) == agent_build_ref_json(value),
        is_plain(agent_build_ref_spelling(value), depth),
{
    let inner = (depth - 1) as nat;
    lemma_no_fields(inner);
    let fields = Seq::<(Seq<char>, Spelling)>::empty();
    let next = Spelling::Text(value.id);
    lemma_one_more(fields, "id"@, next, inner);
    let fields = fields.push(("id"@, next));
    assert(agent_build_ref_spelling(value)->Object_0 =~= fields);
    assert(spelled_fields(fields) =~= seq![
        ("id"@, json_quoted(value.id)),
    ]);
    assert(meant_fields(fields) =~= agent_build_ref_json(value)->Object_0);
}

/// The spelling of a tool.
pub open spec fn tool_spec_spelling(value: ToolSpecView) -> Spelling {
    Spelling::Object(
        seq![
            ("interface"@, tool_interface_spec_spelling(value.interface)),
            ("configuration"@, in_order(value.configuration)),
        ],
    )
}

proof fn lemma_tool_spec_is_spelled(value: ToolSpecView, depth: nat)
    requires
        is_plain_json(tool_spec_json(value), depth),
    ensures
        spelled(tool_spec_spelling(value)) == tool_spec_text(value),
        meant(tool_spec_spelling(value)) == tool_spec_json(value),
        is_plain(tool_spec_spelling(value), depth),
{
    reveal_strlit("interface");
    reveal_strlit("configuration");
    assert("interface"@.len() != "configuration"@.len());
    let inner = (depth - 1) as nat;
    let members = tool_spec_json(value)->Object_0;
    assert(members.contains_key("interface"@));
    assert(is_plain_json(members["interface"@], inner));
    lemma_tool_interface_spec_is_spelled(value.interface, inner);
    assert(members.contains_key("configuration"@));
    assert(is_plain_json(members["configuration"@], inner));
    lemma_in_order_is_compact(value.configuration);
    lemma_plain_in_order(value.configuration, inner);
    lemma_no_fields(inner);
    let fields = Seq::<(Seq<char>, Spelling)>::empty();
    let next = tool_interface_spec_spelling(value.interface);
    lemma_one_more(fields, "interface"@, next, inner);
    let fields = fields.push(("interface"@, next));
    let next = in_order(value.configuration);
    lemma_one_more(fields, "configuration"@, next, inner);
    let fields = fields.push(("configuration"@, next));
    assert(tool_spec_spelling(value)->Object_0 =~= fields);
    assert(spelled_fields(fields) =~= seq![
        ("interface"@, tool_interface_spec_text(value.interface)),
        ("configuration"@, compact(value.configuration)),
    ]);
    assert(meant_fields(fields) =~= tool_spec_json(value)->Object_0);
}

/// The spelling of the tools of an agent.
pub open spec fn tools_spelling(values: Map<Seq<char>, ToolSpecView>) -> Spelling {
    Spelling::Object(
        Seq::new(
            sorted_keys(values.dom()).len(),
            |i: int|
                (
                    sorted_keys(values.dom())[i],
                    tool_spec_spelling(values[sorted_keys(values.dom())[i]]),
                ),
        ),
    )
}

proof fn lemma_tools_is_spelled(values: Map<Seq<char>, ToolSpecView>, depth: nat)
    requires
        is_plain_json(tools_json(values), depth),
    ensures
        spelled(tools_spelling(values)) == tools_text(values),
        meant(tools_spelling(values)) == tools_json(values),
        is_plain(tools_spelling(values), depth),
{
    let inner = (depth - 1) as nat;
    let members = tools_json(values)->Object_0;
    let fields = tools_spelling(values)->Object_0;
    let keys = sorted_keys(values.dom());
    assert(members.dom() =~= values.dom());
    lemma_finite_is_walked(values.dom());
    assert(field_keys(fields) =~= keys);
    assert forall|i: int| 0 <= i < fields.len() implies values.contains_key(keys[i]) && is_plain(
        (#[trigger] fields[i]).1,
        inner,
    ) && spelled(fields[i].1) == tool_spec_text(values[keys[i]]) && meant(fields[i].1) == members[keys[i]] by {
        assert(keys.contains(keys[i]));
        assert(members.contains_key(keys[i]));
        assert(is_plain_json(members[keys[i]], inner));
        lemma_tool_spec_is_spelled(values[keys[i]], inner);
    }
    lemma_each_field(fields, inner);
    assert(spelled_fields(fields) =~= tools_fields(values));
    assert forall|key: Seq<char>| #[trigger] members.contains_key(key) implies meant_fields(
        fields,
    ).contains_key(key) && meant_fields(fields)[key] == members[key] by {
        let i = choose|i: int| 0 <= i < keys.len() && keys[i] == key;
        assert(keys.contains(key));
        assert(fields[i].0 == key);
    }
    assert(meant_fields(fields) =~= members);
}

/// The spelling of the limits of a turn.
pub open spec fn turn_execution_limits_spec_spelling(value: TurnExecutionLimitsSpec) -> Spelling {
    Spelling::Object(
        seq![
            ("max_model_iterations"@, Spelling::Number(NumberView::Unsigned(value.max_model_iterations as u64))),
            ("max_function_calls"@, Spelling::Number(NumberView::Unsigned(value.max_function_calls as u64))),
        ],
    )
}

proof fn lemma_turn_execution_limits_spec_is_spelled(value: TurnExecutionLimitsSpec, depth: nat)
    requires
        is_plain_json(turn_execution_limits_spec_json(value), depth),
    ensures
        spelled(turn_execution_limits_spec_spelling(value))
            == turn_execution_limits_spec_text(value),
        meant(turn_execution_limits_spec_spelling(value)) == turn_execution_limits_spec_json(value),
        is_plain(turn_execution_limits_spec_spelling(value), depth),
{
    reveal_strlit("max_model_iterations");
    reveal_strlit("max_function_calls");
    assert("max_model_iterations"@.len() != "max_function_calls"@.len());
    let inner = (depth - 1) as nat;
    lemma_no_fields(inner);
    let fields = Seq::<(Seq<char>, Spelling)>::empty();
    let next = Spelling::Number(NumberView::Unsigned(value.max_model_iterations as u64));
    lemma_one_more(fields, "max_model_iterations"@, next, inner);
    let fields = fields.push(("max_model_iterations"@, next));
    let next = Spelling::Number(NumberView::Unsigned(value.max_function_calls as u64));
    lemma_one_more(fields, "max_function_calls"@, next, inner);
    let fields = fields.push(("max_function_calls"@, next));
    assert(turn_execution_limits_spec_spelling(value)->Object_0 =~= fields);
    assert(spelled_fields(fields) =~= seq![
        ("max_model_iterations"@, decimal(value.max_model_iterations as nat)),
        ("max_function_calls"@, decimal(value.max_function_calls as nat)),
    ]);
    assert(meant_fields(fields) =~= turn_execution_limits_spec_json(value)->Object_0);
}

/// The spelling of the hooks of an agent.
pub open spec fn hooks_spelling(values: Seq<ComponentRefView>) -> Spelling {
    Spelling::Array(values.map_values(|value: ComponentRefView| component_ref_spelling(value)))
}

proof fn lemma_hooks_is_spelled(values: Seq<ComponentRefView>, depth: nat)
    requires
        is_plain_json(hooks_json(values), depth),
    ensures
        spelled(hooks_spelling(values)) == hooks_text(values),
        meant(hooks_spelling(values)) == hooks_json(values),
        is_plain(hooks_spelling(values), depth),
{
    let inner = (depth - 1) as nat;
    let members = hooks_json(values)->Array_0;
    let items = hooks_spelling(values)->Array_0;
    assert forall|i: int| 0 <= i < items.len() implies is_plain(#[trigger] items[i], inner)
        && spelled(items[i]) == component_ref_text(values[i]) && meant(items[i]) == members[i] by {
        assert(is_plain_json(members[i], inner));
        lemma_component_ref_is_spelled(values[i], inner);
    }
    lemma_each_item(items, inner);
    assert(spelled_items(items) =~= values.map_values(|value: ComponentRefView| component_ref_text(value)));
    assert(meant_items(items) =~= members);
}

/// The spelling of a runtime policy.
pub open spec fn runtime_policy_spec_spelling(value: RuntimePolicySpecView) -> Spelling {
    Spelling::Object(
        seq![
            ("context_builder"@, component_ref_spelling(value.context_builder)),
            ("hooks"@, hooks_spelling(value.hooks)),
            ("turn_execution_limits"@, turn_execution_limits_spec_spelling(value.turn_execution_limits)),
        ],
    )
}

proof fn lemma_runtime_policy_spec_is_spelled(value: RuntimePolicySpecView, depth: nat)
    requires
        is_plain_json(runtime_policy_spec_json(value), depth),
    ensures
        spelled(runtime_policy_spec_spelling(value)) == runtime_policy_spec_text(value),
        meant(runtime_policy_spec_spelling(value)) == runtime_policy_spec_json(value),
        is_plain(runtime_policy_spec_spelling(value), depth),
{
    reveal_strlit("context_builder");
    reveal_strlit("hooks");
    reveal_strlit("turn_execution_limits");
    assert("context_builder"@.len() != "hooks"@.len());
    assert("context_builder"@.len() != "turn_execution_limits"@.len());
    assert("hooks"@.len() != "turn_execution_limits"@.len());
    let inner = (depth - 1) as nat;
    let members = runtime_policy_spec_json(value)->Object_0;
    assert(members.contains_key("context_builder"@));
    assert(is_plain_json(members["context_builder"@], inner));
    lemma_component_ref_is_spelled(value.context_builder, inner);
    assert(members.contains_key("hooks"@));
    assert(is_plain_json(members["hooks"@], inner));
    lemma_hooks_is_spelled(value.hooks, inner);
    assert(members.contains_key("turn_execution_limits"@));
    assert(is_plain_json(members["turn_execution_limits"@], inner));
    lemma_turn_execution_limits_spec_is_spelled(value.turn_execution_limits, inner);
    lemma_no_fields(inner);
    let fields = Seq::<(Seq<char>, Spelling)>::empty();
    let next = component_ref_spelling(value.context_builder);
    lemma_one_more(fields, "context_builder"@, next, inner);
    let fields = fields.push(("context_builder"@, next));
    let next = hooks_spelling(value.hooks);
    lemma_one_more(fields, "hooks"@, next, inner);
    let fields = fields.push(("hooks"@, next));
    let next = turn_execution_limits_spec_spelling(value.turn_execution_limits);
    lemma_one_more(fields, "turn_execution_limits"@, next, inner);
    let fields = fields.push(("turn_execution_limits"@, next));
    assert(runtime_policy_spec_spelling(value)->Object_0 =~= fields);
    assert(spelled_fields(fields) =~= seq![
        ("context_builder"@, component_ref_text(value.context_builder)),
        ("hooks"@, hooks_text(value.hooks)),
        ("turn_execution_limits"@, turn_execution_limits_spec_text(value.turn_execution_limits)),
    ]);
    assert(meant_fields(fields) =~= runtime_policy_spec_json(value)->Object_0);
}

/// The spelling of a specification.
pub open spec fn agent_spec_spelling(value: AgentSpecView) -> Spelling {
    Spelling::Object(
        seq![
            ("agent_id"@, Spelling::Text(value.agent_id)),
            ("model"@, model_spec_spelling(value.model)),
            ("prompts"@, prompt_spec_spelling(value.prompts)),
            ("tools"@, tools_spelling(value.tools)),
            ("runtime"@, runtime_policy_spec_spelling(value.runtime)),
            ("build"@, agent_build_ref_spelling(value.build)),
        ],
    )
}

/// The text of a specification spells its document.
pub proof fn lemma_agent_spec_is_spelled(value: AgentSpecView, depth: nat)
    requires
        is_plain_json(agent_spec_json(value), depth),
    ensures
        spelled(agent_spec_spelling(value)) == agent_spec_text(value),
        meant(agent_spec_spelling(value)) == agent_spec_json(value),
        is_plain(agent_spec_spelling(value), depth),
{
    reveal_strlit("agent_id");
    reveal_strlit("model");
    reveal_strlit("prompts");
    reveal_strlit("tools");
    reveal_strlit("runtime");
    reveal_strlit("build");
    assert("agent_id"@.len() != "model"@.len());
    assert("agent_id"@.len() != "prompts"@.len());
    assert("model"@.len() != "prompts"@.len());
    assert("agent_id"@.len() != "tools"@.len());
    assert("model"@[0] != "tools"@[0]);
    assert("prompts"@.len() != "tools"@.len());
    assert("agent_id"@.len() != "runtime"@.len());
    assert("model"@.len() != "runtime"@.len());
    assert("prompts"@[0] != "runtime"@[0]);
    assert("tools"@.len() != "runtime"@.len());
    assert("agent_id"@.len() != "build"@.len());
    assert("model"@[0] != "build"@[0]);
    assert("prompts"@.len() != "build"@.len());
    assert("tools"@[0] != "build"@[0]);
    assert("runtime"@.len() != "build"@.len());
    let inner = (depth - 1) as nat;
    let members = agent_spec_json(value)->Object_0;
    assert(members.contains_key("model"@));
    assert(is_plain_json(members["model"@], inner));
    lemma_model_spec_is_spelled(value.model, inner);
    assert(members.contains_key("prompts"@));
    assert(is_plain_json(members["prompts"@], inner));
    lemma_prompt_spec_is_spelled(value.prompts, inner);
    assert(members.contains_key("tools"@));
    assert(is_plain_json(members["tools"@], inner));
    lemma_tools_is_spelled(value.tools, inner);
    assert(members.contains_key("runtime"@));
    assert(is_plain_json(members["runtime"@], inner));
    lemma_runtime_policy_spec_is_spelled(value.runtime, inner);
    assert(members.contains_key("build"@));
    assert(is_plain_json(members["build"@], inner));
    lemma_agent_build_ref_is_spelled(value.build, inner);
    lemma_no_fields(inner);
    let fields = Seq::<(Seq<char>, Spelling)>::empty();
    let next = Spelling::Text(value.agent_id);
    lemma_one_more(fields, "agent_id"@, next, inner);
    let fields = fields.push(("agent_id"@, next));
    let next = model_spec_spelling(value.model);
    lemma_one_more(fields, "model"@, next, inner);
    let fields = fields.push(("model"@, next));
    let next = prompt_spec_spelling(value.prompts);
    lemma_one_more(fields, "prompts"@, next, inner);
    let fields = fields.push(("prompts"@, next));
    let next = tools_spelling(value.tools);
    lemma_one_more(fields, "tools"@, next, inner);
    let fields = fields.push(("tools"@, next));
    let next = runtime_policy_spec_spelling(value.runtime);
    lemma_one_more(fields, "runtime"@, next, inner);
    let fields = fields.push(("runtime"@, next));
    let next = agent_build_ref_spelling(value.build);
    lemma_one_more(fields, "build"@, next, inner);
    let fields = fields.push(("build"@, next));
    assert(agent_spec_spelling(value)->Object_0 =~= fields);
    assert(spelled_fields(fields) =~= seq![
        ("agent_id"@, json_quoted(value.agent_id)),
        ("model"@, model_spec_text(value.model)),
        ("prompts"@, prompt_spec_text(value.prompts)),
        ("tools"@, tools_text(value.tools)),
        ("runtime"@, runtime_policy_spec_text(value.runtime)),
        ("build"@, agent_build_ref_text(value.build)),
    ]);
    assert(meant_fields(fields) =~= agent_spec_json(value)->Object_0);
}

/// The spelling of a message.
pub open spec fn commit_message_spelling(value: CommitMessageView) -> Spelling {
    Spelling::Object(
        seq![
            ("subject"@, Spelling::Text(value.subject)),
            ("body"@, optional_text_spelling(value.body)),
        ],
    )
}

/// The text of a message spells its document.
pub proof fn lemma_commit_message_is_spelled(value: CommitMessageView, depth: nat)
    requires
        is_plain_json(commit_message_json(value), depth),
    ensures
        spelled(commit_message_spelling(value)) == commit_message_text(value),
        meant(commit_message_spelling(value)) == commit_message_json(value),
        is_plain(commit_message_spelling(value), depth),
{
    reveal_strlit("subject");
    reveal_strlit("body");
    assert("subject"@.len() != "body"@.len());
    let inner = (depth - 1) as nat;
    lemma_no_fields(inner);
    let fields = Seq::<(Seq<char>, Spelling)>::empty();
    let next = Spelling::Text(value.subject);
    lemma_one_more(fields, "subject"@, next, inner);
    let fields = fields.push(("subject"@, next));
    let next = optional_text_spelling(value.body);
    lemma_one_more(fields, "body"@, next, inner);
    let fields = fields.push(("body"@, next));
    assert(commit_message_spelling(value)->Object_0 =~= fields);
    assert(spelled_fields(fields) =~= seq![
        ("subject"@, json_quoted(value.subject)),
        ("body"@, optional_text_text(value.body)),
    ]);
    assert(meant_fields(fields) =~= commit_message_json(value)->Object_0);
}

/// The spelling of the metadata of a revision.
pub open spec fn revision_metadata_spelling(value: RevisionMetadataView) -> Spelling {
    Spelling::Object(
        seq![
            ("author"@, optional_text_spelling(value.author)),
            ("created_at"@, optional_text_spelling(value.created_at)),
        ],
    )
}

/// The text of the metadata of a revision spells its document.
pub proof fn lemma_revision_metadata_is_spelled(value: RevisionMetadataView, depth: nat)
    requires
        is_plain_json(revision_metadata_json(value), depth),
    ensures
        spelled(revision_metadata_spelling(value)) == revision_metadata_text(value),
        meant(revision_metadata_spelling(value)) == revision_metadata_json(value),
        is_plain(revision_metadata_spelling(value), depth),
{
    reveal_strlit("author");
    reveal_strlit("created_at");
    assert("author"@.len() != "created_at"@.len());
    let inner = (depth - 1) as nat;
    lemma_no_fields(inner);
    let fields = Seq::<(Seq<char>, Spelling)>::empty();
    let next = optional_text_spelling(value.author);
    lemma_one_more(fields, "author"@, next, inner);
    let fields = fields.push(("author"@, next));
    let next = optional_text_spelling(value.created_at);
    lemma_one_more(fields, "created_at"@, next, inner);
    let fields = fields.push(("created_at"@, next));
    assert(revision_metadata_spelling(value)->Object_0 =~= fields);
    assert(spelled_fields(fields) =~= seq![
        ("author"@, optional_text_text(value.author)),
        ("created_at"@, optional_text_text(value.created_at)),
    ]);
    assert(meant_fields(fields) =~= revision_metadata_json(value)->Object_0);
}

/// The spelling of the parents of a revision.
pub open spec fn parents_spelling(values: Seq<Seq<char>>) -> Spelling {
    Spelling::Array(values.map_values(|value: Seq<char>| Spelling::Text(value)))
}

/// The text of the parents of a revision spells their document.
pub proof fn lemma_parents_is_spelled(values: Seq<Seq<char>>, depth: nat)
    requires
        is_plain_json(parents_json(values), depth),
    ensures
        spelled(parents_spelling(values)) == parents_text(values),
        meant(parents_spelling(values)) == parents_json(values),
        is_plain(parents_spelling(values), depth),
{
    let inner = (depth - 1) as nat;
    let members = parents_json(values)->Array_0;
    let items = parents_spelling(values)->Array_0;
    assert forall|i: int| 0 <= i < items.len() implies is_plain(#[trigger] items[i], inner)
        && spelled(items[i]) == json_quoted(values[i]) && meant(items[i]) == members[i] by {
        assert(is_plain_json(members[i], inner));
    }
    lemma_each_item(items, inner);
    assert(spelled_items(items) =~= values.map_values(|value: Seq<char>| json_quoted(value)));
    assert(meant_items(items) =~= members);
}

/// The spelling of a revision.
pub open spec fn agent_revision_spelling(value: AgentRevisionView) -> Spelling {
    Spelling::Object(
        seq![
            ("revision_id"@, Spelling::Text(value.revision_id)),
            ("agent_id"@, Spelling::Text(value.agent_id)),
            ("spec_digest"@, Spelling::Text(value.spec_digest)),
            ("spec"@, agent_spec_spelling(value.spec)),
            ("parents"@, parents_spelling(value.parents)),
            ("message"@, commit_message_spelling(value.message)),
            ("metadata"@, revision_metadata_spelling(value.metadata)),
        ],
    )
}

/// The text of a revision spells its document.
pub proof fn lemma_agent_revision_is_spelled(value: AgentRevisionView, depth: nat)
    requires
        is_plain_json(agent_revision_json(value), depth),
    ensures
        spelled(agent_revision_spelling(value)) == agent_revision_text(value),
        meant(agent_revision_spelling(value)) == agent_revision_json(value),
        is_plain(agent_revision_spelling(value), depth),
{
    reveal_strlit("revision_id");
    reveal_strlit("agent_id");
    reveal_strlit("spec_digest");
    reveal_strlit("spec");
    reveal_strlit("parents");
    reveal_strlit("message");
    reveal_strlit("metadata");
    assert("revision_id"@.len() != "agent_id"@.len());
    assert("revision_id"@[0] != "spec_digest"@[0]);
    assert("agent_id"@.len() != "spec_digest"@.len());
    assert("revision_id"@.len() != "spec"@.len());
    assert("agent_id"@.len() != "spec"@.len());
    assert("spec_digest"@.len() != "spec"@.len());
    assert("revision_id"@.len() != "parents"@.len());
    assert("agent_id"@.len() != "parents"@.len());
    assert("spec_digest"@.len() != "parents"@.len());
    assert("spec"@.len() != "parents"@.len());
    assert("revision_id"@.len() != "message"@.len());
    assert("agent_id"@.len() != "message"@.len());
    assert("spec_digest"@.len() != "message"@.len());
    assert("spec"@.len() != "message"@.len());
    assert("parents"@[0] != "message"@[0]);
    assert("revision_id"@.len() != "metadata"@.len());
    assert("agent_id"@[0] != "metadata"@[0]);
    assert("spec_digest"@.len() != "metadata"@.len());
    assert("spec"@.len() != "metadata"@.len());
    assert("parents"@.len() != "metadata"@.len());
    assert("message"@.len() != "metadata"@.len());
    let inner = (depth - 1) as nat;
    let members = agent_revision_json(value)->Object_0;
    assert(members.contains_key("spec"@));
    assert(is_plain_json(members["spec"@], inner));
    lemma_agent_spec_is_spelled(value.spec, inner);
    assert(members.contains_key("parents"@));
    assert(is_plain_json(members["parents"@], inner));
    lemma_parents_is_spelled(value.parents, inner);
    assert(members.contains_key("message"@));
    assert(is_plain_json(members["message"@], inner));
    lemma_commit_message_is_spelled(value.message, inner);
    assert(members.contains_key("metadata"@));
    assert(is_plain_json(members["metadata"@], inner));
    lemma_revision_metadata_is_spelled(value.metadata, inner);
    lemma_no_fields(inner);
    let fields = Seq::<(Seq<char>, Spelling)>::empty();
    let next = Spelling::Text(value.revision_id);
    lemma_one_more(fields, "revision_id"@, next, inner);
    let fields = fields.push(("revision_id"@, next));
    let next = Spelling::Text(value.agent_id);
    lemma_one_more(fields, "agent_id"@, next, inner);
    let fields = fields.push(("agent_id"@, next));
    let next = Spelling::Text(value.spec_digest);
    lemma_one_more(fields, "spec_digest"@, next, inner);
    let fields = fields.push(("spec_digest"@, next));
    let next = agent_spec_spelling(value.spec);
    lemma_one_more(fields, "spec"@, next, inner);
    let fields = fields.push(("spec"@, next));
    let next = parents_spelling(value.parents);
    lemma_one_more(fields, "parents"@, next, inner);
    let fields = fields.push(("parents"@, next));
    let next = commit_message_spelling(value.message);
    lemma_one_more(fields, "message"@, next, inner);
    let fields = fields.push(("message"@, next));
    let next = revision_metadata_spelling(value.metadata);
    lemma_one_more(fields, "metadata"@, next, inner);
    let fields = fields.push(("metadata"@, next));
    assert(agent_revision_spelling(value)->Object_0 =~= fields);
    assert(spelled_fields(fields) =~= seq![
        ("revision_id"@, json_quoted(value.revision_id)),
        ("agent_id"@, json_quoted(value.agent_id)),
        ("spec_digest"@, json_quoted(value.spec_digest)),
        ("spec"@, agent_spec_text(value.spec)),
        ("parents"@, parents_text(value.parents)),
        ("message"@, commit_message_text(value.message)),
        ("metadata"@, revision_metadata_text(value.metadata)),
    ]);
    assert(meant_fields(fields) =~= agent_revision_json(value)->Object_0);
}

} // verus!
