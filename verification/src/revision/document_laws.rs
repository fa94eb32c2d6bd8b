//! How the parts of a specification and of a revision are named in their documents.

use crate::json::{JsonView, NumberView};
use crate::json_laws::holds;
use crate::revision::revision::AgentRevisionView;
use crate::revision::revision_codec::agent_revision_json;
use crate::revision::spec::{
    AgentSpecView, ComponentRefView, RuntimePolicySpecView, ToolSpecView,
};
use crate::revision::spec_codec::{
    agent_spec_json, component_ref_json, runtime_policy_spec_json, tool_spec_json,
};
use vstd::prelude::*;

verus! {

/// The member of an object.
pub open spec fn part(json: JsonView, key: Seq<char>) -> JsonView {
    json->Object_0[key]
}

/// A text, or null where it is left out.
pub open spec fn text_or_null(text: Option<Seq<char>>) -> JsonView {
    match text {
        Some(text) => JsonView::Text(text),
        None => JsonView::Null,
    }
}

/// A component is written with its name and its configuration.
pub proof fn law_component_is_written_by_name(component: ComponentRefView)
    ensures
        holds(component_ref_json(component), "fqn"@, JsonView::Text(component.fqn)),
        holds(component_ref_json(component), "configuration"@, component.configuration),
{
    reveal_strlit("fqn");
    reveal_strlit("configuration");
    assert("fqn"@.len() != "configuration"@.len());
}

/// A tool is written with its interface and its configuration.
pub proof fn law_tool_is_written_by_name(tool: ToolSpecView)
    ensures
        ({
            let json = tool_spec_json(tool);
            let interface = part(json, "interface"@);
            &&& holds(json, "configuration"@, tool.configuration)
            &&& json->Object_0.contains_key("interface"@)
            &&& holds(interface, "name"@, JsonView::Text(tool.interface.name))
            &&& holds(interface, "description"@, JsonView::Text(tool.interface.description))
            &&& holds(interface, "parameters"@, tool.interface.parameters)
            &&& holds(interface, "output_schema"@, tool.interface.output_schema)
        }),
{
    reveal_strlit("interface");
    reveal_strlit("configuration");
    reveal_strlit("name");
    reveal_strlit("description");
    reveal_strlit("parameters");
    reveal_strlit("output_schema");
    assert("interface"@.len() == 9);
    assert("configuration"@.len() == 13);
    assert("name"@.len() == 4);
    assert("description"@.len() == 11);
    assert("parameters"@.len() == 10);
    assert("output_schema"@.len() == 13);
}

/// A runtime policy is written with its context builder, its hooks in their order and its limits.
pub proof fn law_policy_is_written_by_name(policy: RuntimePolicySpecView)
    ensures
        ({
            let json = runtime_policy_spec_json(policy);
            let limits = part(json, "turn_execution_limits"@);
            &&& holds(json, "context_builder"@, component_ref_json(policy.context_builder))
            &&& holds(
                json,
                "hooks"@,
                JsonView::Array(
                    Seq::new(policy.hooks.len(), |i: int| component_ref_json(policy.hooks[i])),
                ),
            )
            &&& json->Object_0.contains_key("turn_execution_limits"@)
            &&& holds(
                limits,
                "max_model_iterations"@,
                JsonView::Number(
                    NumberView::Unsigned(policy.turn_execution_limits.max_model_iterations as u64),
                ),
            )
            &&& holds(
                limits,
                "max_function_calls"@,
                JsonView::Number(
                    NumberView::Unsigned(policy.turn_execution_limits.max_function_calls as u64),
                ),
            )
        }),
{
    reveal_strlit("context_builder");
    reveal_strlit("hooks");
    reveal_strlit("turn_execution_limits");
    reveal_strlit("max_model_iterations");
    reveal_strlit("max_function_calls");
    assert("context_builder"@.len() == 15);
    assert("hooks"@.len() == 5);
    assert("turn_execution_limits"@.len() == 21);
    assert("max_model_iterations"@.len() == 20);
    assert("max_function_calls"@.len() == 18);
    assert(part(runtime_policy_spec_json(policy), "hooks"@)->Array_0 =~= Seq::new(
        policy.hooks.len(),
        |i: int| component_ref_json(policy.hooks[i]),
    ));
}

/// A specification is written with its agent, model, prompts, tools, runtime and build.
pub proof fn law_specification_is_written_by_name(spec: AgentSpecView)
    ensures
        ({
            let json = agent_spec_json(spec);
            &&& holds(json, "agent_id"@, JsonView::Text(spec.agent_id))
            &&& json->Object_0.contains_key("model"@)
            &&& holds(part(json, "model"@), "fqn"@, JsonView::Text(spec.model.fqn))
            &&& holds(part(json, "model"@), "settings"@, spec.model.settings)
            &&& json->Object_0.contains_key("prompts"@)
            &&& holds(part(json, "prompts"@), "system"@, JsonView::Text(spec.prompts.system))
            &&& holds(
                part(json, "prompts"@),
                "templates"@,
                JsonView::Object(
                    Map::new(
                        |name: Seq<char>| spec.prompts.templates.contains_key(name),
                        |name: Seq<char>| JsonView::Text(spec.prompts.templates[name]),
                    ),
                ),
            )
            &&& holds(
                json,
                "tools"@,
                JsonView::Object(
                    Map::new(
                        |name: Seq<char>| spec.tools.contains_key(name),
                        |name: Seq<char>| tool_spec_json(spec.tools[name]),
                    ),
                ),
            )
            &&& holds(json, "runtime"@, runtime_policy_spec_json(spec.runtime))
            &&& json->Object_0.contains_key("build"@)
            &&& holds(part(json, "build"@), "id"@, JsonView::Text(spec.build.id))
        }),
{
    crate::revision::merge_laws::lemma_spec_members(spec);
    let json = agent_spec_json(spec);
    reveal_strlit("fqn");
    reveal_strlit("settings");
    reveal_strlit("system");
    reveal_strlit("templates");
    assert("fqn"@.len() != "settings"@.len());
    assert("system"@.len() != "templates"@.len());
    assert(part(part(json, "prompts"@), "templates"@)->Object_0 =~= Map::new(
        |name: Seq<char>| spec.prompts.templates.contains_key(name),
        |name: Seq<char>| JsonView::Text(spec.prompts.templates[name]),
    ));
    assert(part(json, "tools"@)->Object_0 =~= Map::new(
        |name: Seq<char>| spec.tools.contains_key(name),
        |name: Seq<char>| tool_spec_json(spec.tools[name]),
    ));
}

/// A revision is written with its name, its agent, the digest of its specification, the specification
/// itself, its parents in their order, its message and its metadata.
pub proof fn law_revision_is_written_by_name(revision: AgentRevisionView)
    ensures
        ({
            let json = agent_revision_json(revision);
            &&& holds(json, "revision_id"@, JsonView::Text(revision.revision_id))
            &&& holds(json, "agent_id"@, JsonView::Text(revision.agent_id))
            &&& holds(json, "spec_digest"@, JsonView::Text(revision.spec_digest))
            &&& holds(json, "spec"@, agent_spec_json(revision.spec))
            &&& holds(
                json,
                "parents"@,
                JsonView::Array(
                    Seq::new(
                        revision.parents.len(),
                        |i: int| JsonView::Text(revision.parents[i]),
                    ),
                ),
            )
            &&& json->Object_0.contains_key("message"@)
            &&& holds(
                part(json, "message"@),
                "subject"@,
                JsonView::Text(revision.message.subject),
            )
            &&& holds(part(json, "message"@), "body"@, text_or_null(revision.message.body))
            &&& json->Object_0.contains_key("metadata"@)
            &&& holds(part(json, "metadata"@), "author"@, text_or_null(revision.metadata.author))
            &&& holds(
                part(json, "metadata"@),
                "created_at"@,
                text_or_null(revision.metadata.created_at),
            )
        }),
{
    reveal_strlit("revision_id");
    reveal_strlit("agent_id");
    reveal_strlit("spec_digest");
    reveal_strlit("spec");
    reveal_strlit("parents");
    reveal_strlit("message");
    reveal_strlit("metadata");
    assert("revision_id"@.len() == 11 && "revision_id"@[0] == 'r');
    assert("agent_id"@.len() == 8 && "agent_id"@[0] == 'a');
    assert("spec_digest"@.len() == 11 && "spec_digest"@[0] == 's');
    assert("spec"@.len() == 4);
    assert("parents"@.len() == 7 && "parents"@[0] == 'p');
    assert("message"@.len() == 7 && "message"@[0] == 'm');
    assert("metadata"@.len() == 8 && "metadata"@[0] == 'm');
    reveal_strlit("subject");
    reveal_strlit("body");
    assert("subject"@.len() != "body"@.len());
    reveal_strlit("author");
    reveal_strlit("created_at");
    assert("author"@.len() != "created_at"@.len());
    let json = agent_revision_json(revision);
    assert(part(json, "parents"@)->Array_0 =~= Seq::new(
        revision.parents.len(),
        |i: int| JsonView::Text(revision.parents[i]),
    ));
}

} // verus!
