//! Laws of the merge of specifications.

use crate::codec::text_item_of;
use crate::json::{leveled, member, JsonView};
use crate::revision::merge::{
    agree, law_one_sided_change_wins, lookup, member_conflicts, merge_conflicts, merge_keys,
    merge_outcome, merged, merged_members, spec_conflicts, spec_merged,
};
use crate::revision::spec::{
    AgentBuildRefView, AgentSpecView, ComponentRefView, ModelSpecView, PromptSpecView,
    RuntimePolicySpecView, ToolInterfaceSpecView, ToolSpecView, TurnExecutionLimitsSpec,
};
use crate::revision::spec_codec::{
    agent_build_ref_json, agent_build_ref_of, agent_spec_json, agent_spec_of, component_ref_json,
    component_ref_of, law_agent_build_ref_is_read_back, law_agent_spec_is_read_back,
    law_component_ref_is_read_back, law_model_spec_is_read_back, law_prompt_spec_is_read_back,
    law_runtime_policy_spec_is_read_back, law_tool_interface_spec_is_read_back,
    law_tool_spec_is_read_back, law_turn_execution_limits_spec_is_read_back, model_spec_json,
    model_spec_of, prompt_spec_json, prompt_spec_of, runtime_policy_spec_json,
    runtime_policy_spec_of, templates_json, tool_interface_spec_json, tool_interface_spec_of,
    tool_spec_json, tool_spec_of, tools_json, turn_execution_limits_spec_json,
    turn_execution_limits_spec_of,
};
use crate::text::lemma_text_less_irreflexive;
use crate::text_map::{ascending, lemma_finite_is_walked};
use vstd::prelude::*;

verus! {

/// A merge without conflict, wherever the values stand.
pub open spec fn agrees(
    base: Option<JsonView>,
    ours: Option<JsonView>,
    theirs: Option<JsonView>,
) -> bool {
    exists|path: Seq<char>| #[trigger] merge_conflicts(base, ours, theirs, path).len() == 0
}

pub proof fn lemma_member_of_merge(
    base: Map<Seq<char>, JsonView>,
    ours: Map<Seq<char>, JsonView>,
    theirs: Map<Seq<char>, JsonView>,
    keys: Seq<Seq<char>>,
    key: Seq<char>,
)
    requires
        ascending(keys),
    ensures
        lookup(merged_members(base, ours, theirs, keys), key) == if keys.contains(key) {
            merged(lookup(base, key), lookup(ours, key), lookup(theirs, key))
        } else {
            None
        },
    decreases keys.len(),
{
    if keys.len() > 0 {
        let init = keys.drop_last();
        assert(ascending(init)) by {
            assert forall|i: int, j: int| 0 <= i < j < init.len() implies crate::text::text_less(
                #[trigger] init[i],
                #[trigger] init[j],
            ) by {
                assert(crate::text::text_less(keys[i], keys[j]));
            }
        }
        lemma_member_of_merge(base, ours, theirs, init, key);
        lemma_text_less_irreflexive(key);
        if key == keys.last() {
            assert(keys.contains(key));
            if init.contains(key) {
                let i = choose|i: int| 0 <= i < init.len() && init[i] == key;
                assert(crate::text::text_less(keys[i], keys[keys.len() - 1]));
            }
        } else {
            assert(keys.contains(key) <==> init.contains(key)) by {
                if keys.contains(key) {
                    let i = choose|i: int| 0 <= i < keys.len() && keys[i] == key;
                    assert(init[i] == key);
                }
                if init.contains(key) {
                    let i = choose|i: int| 0 <= i < init.len() && init[i] == key;
                    assert(keys[i] == key);
                }
            }
        }
    }
}

proof fn lemma_members_agree(
    base: Map<Seq<char>, JsonView>,
    ours: Map<Seq<char>, JsonView>,
    theirs: Map<Seq<char>, JsonView>,
    keys: Seq<Seq<char>>,
    path: Seq<char>,
    key: Seq<char>,
)
    requires
        member_conflicts(base, ours, theirs, keys, path).len() == 0,
        keys.contains(key),
    ensures
        agrees(lookup(base, key), lookup(ours, key), lookup(theirs, key)),
    decreases keys.len(),
{
    let init = keys.drop_last();
    let last = keys.last();
    let conflicts = merge_conflicts(
        lookup(base, last),
        lookup(ours, last),
        lookup(theirs, last),
        path + "."@ + last,
    );
    assert(conflicts.len() == 0);
    if key != last {
        let i = choose|i: int| 0 <= i < keys.len() && keys[i] == key;
        assert(init[i] == key);
        lemma_members_agree(base, ours, theirs, init, path, key);
    }
}

/// Objects that compare equal have members that do.
proof fn lemma_members_compare_equal(
    a: Map<Seq<char>, JsonView>,
    b: Map<Seq<char>, JsonView>,
    key: Seq<char>,
)
    requires
        agree(Some(JsonView::Object(a)), Some(JsonView::Object(b))),
    ensures
        agree(lookup(a, key), lookup(b, key)),
{
    let x = leveled(JsonView::Object(a))->Object_0;
    let y = leveled(JsonView::Object(b))->Object_0;
    assert(x == y);
    assert(x.contains_key(key) == a.contains_key(key));
    assert(y.contains_key(key) == b.contains_key(key));
    if a.contains_key(key) {
        assert(x[key] == leveled(a[key]));
        assert(y[key] == leveled(b[key]));
    }
}

/// Independent changes are combined: what a merge makes of two objects has at every key what
/// compares equal to the merge of the members at that key, and that merge itself unless one object
/// was taken whole.
pub proof fn law_members_are_merged_one_by_one(
    base: Map<Seq<char>, JsonView>,
    ours: Map<Seq<char>, JsonView>,
    theirs: Map<Seq<char>, JsonView>,
    key: Seq<char>,
)
    requires
        base.dom().finite(),
        ours.dom().finite(),
        theirs.dom().finite(),
    ensures
        ({
            let whole = merged(
                Some(JsonView::Object(base)),
                Some(JsonView::Object(ours)),
                Some(JsonView::Object(theirs)),
            );
            let part = merged(lookup(base, key), lookup(ours, key), lookup(theirs, key));
            &&& whole is Some
            &&& whole->Some_0 is Object
            &&& agree(lookup(whole->Some_0->Object_0, key), part)
            &&& whole->Some_0->Object_0 == ours || whole->Some_0->Object_0 == theirs || lookup(
                whole->Some_0->Object_0,
                key,
            ) == part
        }),
{
    let b = JsonView::Object(base);
    let o = JsonView::Object(ours);
    let t = JsonView::Object(theirs);
    if !(agree(Some(o), Some(t)) || agree(Some(o), Some(b)) || agree(Some(t), Some(b))) {
        let all = base.dom().union(ours.dom()).union(theirs.dom());
        lemma_finite_is_walked(all);
        lemma_member_of_merge(base, ours, theirs, merge_keys(base, ours, theirs), key);
        if !all.contains(key) {
            assert(lookup(base, key) is None);
            assert(lookup(ours, key) is None);
            assert(lookup(theirs, key) is None);
        }
    } else {
        if agree(Some(o), Some(t)) {
            lemma_members_compare_equal(ours, theirs, key);
        } else if agree(Some(o), Some(b)) {
            lemma_members_compare_equal(ours, base, key);
        } else {
            lemma_members_compare_equal(theirs, base, key);
        }
    }
}

/// A merge without conflict of three objects: what it makes of the members at a key, and that it is
/// without conflict there too.
proof fn lemma_field(b: JsonView, o: JsonView, t: JsonView, key: Seq<char>)
    requires
        b is Object,
        o is Object,
        t is Object,
        b->Object_0.dom().finite(),
        o->Object_0.dom().finite(),
        t->Object_0.dom().finite(),
        agrees(Some(b), Some(o), Some(t)),
    ensures
        merged(Some(b), Some(o), Some(t)) is Some,
        merged(Some(b), Some(o), Some(t))->Some_0 is Object,
        merged(Some(b), Some(o), Some(t)) == Some(o) || merged(Some(b), Some(o), Some(t)) == Some(t)
            || member(merged(Some(b), Some(o), Some(t))->Some_0, key) == merged(
            member(b, key),
            member(o, key),
            member(t, key),
        ),
        agrees(member(b, key), member(o, key), member(t, key)),
        is_kept(member(b, key), member(o, key), member(t, key)),
{
    law_members_are_merged_one_by_one(b->Object_0, o->Object_0, t->Object_0, key);
    let x = member(b, key);
    let y = member(o, key);
    let z = member(t, key);
    if agree(Some(o), Some(t)) {
        lemma_members_compare_equal(o->Object_0, t->Object_0, key);
    } else if agree(Some(o), Some(b)) {
        lemma_members_compare_equal(o->Object_0, b->Object_0, key);
    } else if agree(Some(t), Some(b)) {
        lemma_members_compare_equal(t->Object_0, b->Object_0, key);
    }
    if agree(y, z) || agree(y, x) || agree(z, x) {
        assert(merge_conflicts(x, y, z, Seq::empty()).len() == 0);
    } else {
        let path = choose|path: Seq<char>|
            #[trigger] merge_conflicts(Some(b), Some(o), Some(t), path).len() == 0;
        let all = b->Object_0.dom().union(o->Object_0.dom()).union(t->Object_0.dom());
        lemma_finite_is_walked(all);
        assert(all.contains(key));
        lemma_members_agree(
            b->Object_0,
            o->Object_0,
            t->Object_0,
            merge_keys(b->Object_0, o->Object_0, t->Object_0),
            path,
            key,
        );
    }
    let path = choose|path: Seq<char>| #[trigger] merge_conflicts(x, y, z, path).len() == 0;
    assert(merge_conflicts(x, y, z, path).len() == 0);
}

/// A merge takes one of the sides, unless all three are objects, and where both sides have a value
/// it has one.
spec fn is_kept(b: Option<JsonView>, o: Option<JsonView>, t: Option<JsonView>) -> bool {
    &&& !(b matches Some(JsonView::Object(_)) && o matches Some(JsonView::Object(_))
        && t matches Some(JsonView::Object(_))) ==> merged(b, o, t) == o || merged(b, o, t) == t
    &&& o is Some && t is Some ==> merged(b, o, t) is Some
}

proof fn lemma_component_ref(b: ComponentRefView, o: ComponentRefView, t: ComponentRefView)
    requires
        agrees(
            Some(component_ref_json(b)),
            Some(component_ref_json(o)),
            Some(component_ref_json(t)),
        ),
    ensures
        merged(
            Some(component_ref_json(b)),
            Some(component_ref_json(o)),
            Some(component_ref_json(t)),
        ) matches Some(json)
            && component_ref_of(json) is Some,
{
    let (x, y, z) = (component_ref_json(b), component_ref_json(o), component_ref_json(t));
    law_component_ref_is_read_back(b);
    law_component_ref_is_read_back(o);
    law_component_ref_is_read_back(t);
    lemma_field(x, y, z, "fqn"@);
    lemma_field(x, y, z, "configuration"@);
}

proof fn lemma_model_spec(b: ModelSpecView, o: ModelSpecView, t: ModelSpecView)
    requires
        agrees(Some(model_spec_json(b)), Some(model_spec_json(o)), Some(model_spec_json(t))),
    ensures
        merged(
            Some(model_spec_json(b)),
            Some(model_spec_json(o)),
            Some(model_spec_json(t)),
        ) matches Some(json)
            && model_spec_of(json) is Some,
{
    let (x, y, z) = (model_spec_json(b), model_spec_json(o), model_spec_json(t));
    law_model_spec_is_read_back(b);
    law_model_spec_is_read_back(o);
    law_model_spec_is_read_back(t);
    lemma_field(x, y, z, "fqn"@);
    lemma_field(x, y, z, "settings"@);
}

proof fn lemma_agent_build_ref(b: AgentBuildRefView, o: AgentBuildRefView, t: AgentBuildRefView)
    requires
        agrees(
            Some(agent_build_ref_json(b)),
            Some(agent_build_ref_json(o)),
            Some(agent_build_ref_json(t)),
        ),
    ensures
        merged(
            Some(agent_build_ref_json(b)),
            Some(agent_build_ref_json(o)),
            Some(agent_build_ref_json(t)),
        ) matches Some(json)
            && agent_build_ref_of(json) is Some,
{
    let (x, y, z) = (agent_build_ref_json(b), agent_build_ref_json(o), agent_build_ref_json(t));
    law_agent_build_ref_is_read_back(b);
    law_agent_build_ref_is_read_back(o);
    law_agent_build_ref_is_read_back(t);
    lemma_field(x, y, z, "id"@);
}

proof fn lemma_tool_interface_spec(
    b: ToolInterfaceSpecView,
    o: ToolInterfaceSpecView,
    t: ToolInterfaceSpecView,
)
    requires
        agrees(
            Some(tool_interface_spec_json(b)),
            Some(tool_interface_spec_json(o)),
            Some(tool_interface_spec_json(t)),
        ),
    ensures
        merged(
            Some(tool_interface_spec_json(b)),
            Some(tool_interface_spec_json(o)),
            Some(tool_interface_spec_json(t)),
        ) matches Some(json)
            && tool_interface_spec_of(json) is Some,
{
    let (x, y, z) = (tool_interface_spec_json(b), tool_interface_spec_json(o), tool_interface_spec_json(t));
    law_tool_interface_spec_is_read_back(b);
    law_tool_interface_spec_is_read_back(o);
    law_tool_interface_spec_is_read_back(t);
    lemma_field(x, y, z, "name"@);
    lemma_field(x, y, z, "description"@);
    lemma_field(x, y, z, "parameters"@);
    lemma_field(x, y, z, "output_schema"@);
}

proof fn lemma_turn_execution_limits_spec(
    b: TurnExecutionLimitsSpec,
    o: TurnExecutionLimitsSpec,
    t: TurnExecutionLimitsSpec,
)
    requires
        agrees(
            Some(turn_execution_limits_spec_json(b)),
            Some(turn_execution_limits_spec_json(o)),
            Some(turn_execution_limits_spec_json(t)),
        ),
    ensures
        merged(
            Some(turn_execution_limits_spec_json(b)),
            Some(turn_execution_limits_spec_json(o)),
            Some(turn_execution_limits_spec_json(t)),
        ) matches Some(json)
            && turn_execution_limits_spec_of(json) is Some,
{
    let (x, y, z) = (turn_execution_limits_spec_json(b), turn_execution_limits_spec_json(o), turn_execution_limits_spec_json(t));
    law_turn_execution_limits_spec_is_read_back(b);
    law_turn_execution_limits_spec_is_read_back(o);
    law_turn_execution_limits_spec_is_read_back(t);
    lemma_field(x, y, z, "max_model_iterations"@);
    lemma_field(x, y, z, "max_function_calls"@);
}

proof fn lemma_tool_spec(b: ToolSpecView, o: ToolSpecView, t: ToolSpecView)
    requires
        agrees(Some(tool_spec_json(b)), Some(tool_spec_json(o)), Some(tool_spec_json(t))),
    ensures
        merged(
            Some(tool_spec_json(b)),
            Some(tool_spec_json(o)),
            Some(tool_spec_json(t)),
        ) matches Some(json)
            && tool_spec_of(json) is Some,
{
    let (x, y, z) = (tool_spec_json(b), tool_spec_json(o), tool_spec_json(t));
    law_tool_spec_is_read_back(b);
    law_tool_spec_is_read_back(o);
    law_tool_spec_is_read_back(t);
    lemma_field(x, y, z, "interface"@);
    lemma_field(x, y, z, "configuration"@);
    reveal_strlit("interface");
    reveal_strlit("configuration");
    assert("interface"@.len() != "configuration"@.len());
    lemma_tool_interface_spec(b.interface, o.interface, t.interface);
}

proof fn lemma_runtime_policy_spec(
    b: RuntimePolicySpecView,
    o: RuntimePolicySpecView,
    t: RuntimePolicySpecView,
)
    requires
        agrees(
            Some(runtime_policy_spec_json(b)),
            Some(runtime_policy_spec_json(o)),
            Some(runtime_policy_spec_json(t)),
        ),
    ensures
        merged(
            Some(runtime_policy_spec_json(b)),
            Some(runtime_policy_spec_json(o)),
            Some(runtime_policy_spec_json(t)),
        ) matches Some(json)
            && runtime_policy_spec_of(json) is Some,
{
    let (x, y, z) = (runtime_policy_spec_json(b), runtime_policy_spec_json(o), runtime_policy_spec_json(t));
    law_runtime_policy_spec_is_read_back(b);
    law_runtime_policy_spec_is_read_back(o);
    law_runtime_policy_spec_is_read_back(t);
    lemma_field(x, y, z, "context_builder"@);
    lemma_field(x, y, z, "hooks"@);
    lemma_field(x, y, z, "turn_execution_limits"@);
    reveal_strlit("context_builder");
    reveal_strlit("hooks");
    reveal_strlit("turn_execution_limits");
    assert("context_builder"@.len() != "hooks"@.len());
    assert("context_builder"@.len() != "turn_execution_limits"@.len());
    assert("hooks"@.len() != "turn_execution_limits"@.len());
    lemma_component_ref(b.context_builder, o.context_builder, t.context_builder);
    lemma_turn_execution_limits_spec(
        b.turn_execution_limits,
        o.turn_execution_limits,
        t.turn_execution_limits,
    );
}

/// A merge without conflict of templates holds texts.
proof fn lemma_templates(
    b: Map<Seq<char>, Seq<char>>,
    o: Map<Seq<char>, Seq<char>>,
    t: Map<Seq<char>, Seq<char>>,
)
    requires
        b.dom().finite(),
        o.dom().finite(),
        t.dom().finite(),
        agrees(Some(templates_json(b)), Some(templates_json(o)), Some(templates_json(t))),
    ensures
        merged(
            Some(templates_json(b)),
            Some(templates_json(o)),
            Some(templates_json(t)),
        ) matches Some(JsonView::Object(members)) && forall|k: Seq<char>| #[trigger]
            members.contains_key(k) ==> text_item_of(members[k]) is Some,
{
    let (x, y, z) = (templates_json(b), templates_json(o), templates_json(t));
    assert(x->Object_0.dom() =~= b.dom());
    assert(y->Object_0.dom() =~= o.dom());
    assert(z->Object_0.dom() =~= t.dom());
    lemma_field(x, y, z, Seq::empty());
    let members = merged(Some(x), Some(y), Some(z))->Some_0->Object_0;
    assert forall|k: Seq<char>| #[trigger] members.contains_key(k) implies text_item_of(
        members[k],
    ) is Some by {
        lemma_field(x, y, z, k);
        assert(member(merged(Some(x), Some(y), Some(z))->Some_0, k) == Some(members[k]));
    }
}

/// A merge without conflict of tools holds tools.
proof fn lemma_tools(
    b: Map<Seq<char>, ToolSpecView>,
    o: Map<Seq<char>, ToolSpecView>,
    t: Map<Seq<char>, ToolSpecView>,
)
    requires
        b.dom().finite(),
        o.dom().finite(),
        t.dom().finite(),
        agrees(Some(tools_json(b)), Some(tools_json(o)), Some(tools_json(t))),
    ensures
        merged(
            Some(tools_json(b)),
            Some(tools_json(o)),
            Some(tools_json(t)),
        ) matches Some(JsonView::Object(members)) && forall|k: Seq<char>| #[trigger]
            members.contains_key(k) ==> tool_spec_of(members[k]) is Some,
{
    let (x, y, z) = (tools_json(b), tools_json(o), tools_json(t));
    assert(x->Object_0.dom() =~= b.dom());
    assert(y->Object_0.dom() =~= o.dom());
    assert(z->Object_0.dom() =~= t.dom());
    lemma_field(x, y, z, Seq::empty());
    let members = merged(Some(x), Some(y), Some(z))->Some_0->Object_0;
    assert forall|k: Seq<char>| #[trigger] members.contains_key(k) implies tool_spec_of(
        members[k],
    ) is Some by {
        lemma_field(x, y, z, k);
        assert(member(merged(Some(x), Some(y), Some(z))->Some_0, k) == Some(members[k]));
        if b.contains_key(k) && o.contains_key(k) && t.contains_key(k) {
            lemma_tool_spec(b[k], o[k], t[k]);
        }
        if o.contains_key(k) {
            law_tool_spec_is_read_back(o[k]);
        }
        if t.contains_key(k) {
            law_tool_spec_is_read_back(t[k]);
        }
    }
}

proof fn lemma_prompt_spec(b: PromptSpecView, o: PromptSpecView, t: PromptSpecView)
    requires
        b.templates.dom().finite(),
        o.templates.dom().finite(),
        t.templates.dom().finite(),
        agrees(Some(prompt_spec_json(b)), Some(prompt_spec_json(o)), Some(prompt_spec_json(t))),
    ensures
        merged(
            Some(prompt_spec_json(b)),
            Some(prompt_spec_json(o)),
            Some(prompt_spec_json(t)),
        ) matches Some(json) && prompt_spec_of(json) is Some,
{
    let (x, y, z) = (prompt_spec_json(b), prompt_spec_json(o), prompt_spec_json(t));
    law_prompt_spec_is_read_back(b);
    law_prompt_spec_is_read_back(o);
    law_prompt_spec_is_read_back(t);
    lemma_field(x, y, z, "system"@);
    lemma_field(x, y, z, "templates"@);
    reveal_strlit("system");
    reveal_strlit("templates");
    assert("system"@.len() != "templates"@.len());
    lemma_templates(b.templates, o.templates, t.templates);
}

/// A specification whose maps are finite, as those of every value are.
pub open spec fn is_finite(spec: AgentSpecView) -> bool {
    spec.prompts.templates.dom().finite() && spec.tools.dom().finite()
}

/// A merge of specifications without conflict gives a specification.
pub proof fn law_clean_merge_is_a_specification(
    base: AgentSpecView,
    ours: AgentSpecView,
    theirs: AgentSpecView,
)
    requires
        is_finite(base),
        is_finite(ours),
        is_finite(theirs),
        spec_conflicts(base, ours, theirs).len() == 0,
    ensures
        spec_merged(base, ours, theirs) matches Some(json) && agent_spec_of(json) is Some,
{
    let (x, y, z) = (agent_spec_json(base), agent_spec_json(ours), agent_spec_json(theirs));
    assert(merge_conflicts(Some(x), Some(y), Some(z), "$"@).len() == 0);
    law_agent_spec_is_read_back(base);
    law_agent_spec_is_read_back(ours);
    law_agent_spec_is_read_back(theirs);
    lemma_field(x, y, z, "agent_id"@);
    lemma_field(x, y, z, "model"@);
    lemma_field(x, y, z, "prompts"@);
    lemma_field(x, y, z, "tools"@);
    lemma_field(x, y, z, "runtime"@);
    lemma_field(x, y, z, "build"@);
    lemma_spec_members(base);
    lemma_spec_members(ours);
    lemma_spec_members(theirs);
    lemma_model_spec(base.model, ours.model, theirs.model);
    lemma_prompt_spec(base.prompts, ours.prompts, theirs.prompts);
    lemma_tools(base.tools, ours.tools, theirs.tools);
    lemma_runtime_policy_spec(base.runtime, ours.runtime, theirs.runtime);
    lemma_agent_build_ref(base.build, ours.build, theirs.build);
}

/// The members of the document of a specification.
pub proof fn lemma_spec_members(spec: AgentSpecView)
    ensures
        member(agent_spec_json(spec), "agent_id"@) == Some(JsonView::Text(spec.agent_id)),
        member(agent_spec_json(spec), "model"@) == Some(model_spec_json(spec.model)),
        member(agent_spec_json(spec), "prompts"@) == Some(prompt_spec_json(spec.prompts)),
        member(agent_spec_json(spec), "tools"@) == Some(tools_json(spec.tools)),
        member(agent_spec_json(spec), "runtime"@) == Some(runtime_policy_spec_json(spec.runtime)),
        member(agent_spec_json(spec), "build"@) == Some(agent_build_ref_json(spec.build)),
{
    reveal_strlit("agent_id");
    reveal_strlit("model");
    reveal_strlit("prompts");
    reveal_strlit("tools");
    reveal_strlit("runtime");
    reveal_strlit("build");
    assert("agent_id"@.len() != "model"@.len());
    assert("agent_id"@.len() != "prompts"@.len());
    assert("agent_id"@.len() != "tools"@.len());
    assert("agent_id"@.len() != "runtime"@.len());
    assert("agent_id"@.len() != "build"@.len());
    assert("model"@.len() != "prompts"@.len());
    assert("model"@[0] != "tools"@[0]);
    assert("model"@.len() != "runtime"@.len());
    assert("model"@[0] != "build"@[0]);
    assert("prompts"@.len() != "tools"@.len());
    assert("prompts"@[0] != "runtime"@[0]);
    assert("prompts"@.len() != "build"@.len());
    assert("tools"@.len() != "runtime"@.len());
    assert("tools"@[0] != "build"@[0]);
    assert("runtime"@.len() != "build"@.len());
}

/// The merge of two revisions always ends with either conflicts or a specification.
pub proof fn law_merge_ends_with_conflicts_or_a_specification(
    base_id: Seq<char>,
    ours_id: Seq<char>,
    theirs_id: Seq<char>,
    base: AgentSpecView,
    ours: AgentSpecView,
    theirs: AgentSpecView,
)
    requires
        is_finite(base),
        is_finite(ours),
        is_finite(theirs),
    ensures
        merge_outcome(base_id, ours_id, theirs_id, base, ours, theirs) matches Ok(result) && (
        result.spec is Some <==> result.conflicts.len() == 0),
{
    if spec_conflicts(base, ours, theirs).len() == 0 {
        law_clean_merge_is_a_specification(base, ours, theirs);
    }
}

/// A merge into a branch that changed nothing gives the specification of the other side, and so does
/// a merge of a branch that changed nothing. Where the other side changed nothing but the sign of a
/// zero, a merge into the branch leaves the branch as it is.
pub proof fn law_unchanged_branch_takes_the_other(
    base_id: Seq<char>,
    ours_id: Seq<char>,
    theirs_id: Seq<char>,
    base: AgentSpecView,
    changed: AgentSpecView,
)
    ensures
        merge_outcome(base_id, ours_id, theirs_id, base, base, changed) matches Ok(result)
            && result.spec == Some(
            if leveled(agent_spec_json(base)) == leveled(agent_spec_json(changed)) {
                base
            } else {
                changed
            },
        ),
        merge_outcome(base_id, ours_id, theirs_id, base, changed, base) matches Ok(result)
            && result.spec == Some(changed),
        merge_outcome(base_id, ours_id, theirs_id, base, changed, changed) matches Ok(result)
            && result.spec == Some(changed),
{
    law_agent_spec_is_read_back(base);
    law_agent_spec_is_read_back(changed);
    law_one_sided_change_wins(
        Some(agent_spec_json(base)),
        Some(agent_spec_json(changed)),
        "$"@,
    );
}

} // verus!
