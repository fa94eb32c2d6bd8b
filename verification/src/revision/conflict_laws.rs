//! When two changes of one value are in conflict, and what a merge keeps.

use crate::json::JsonView;
use crate::json_laws::{equals, law_values_compare_by_what_they_hold, lemma_equals_both_ways};
use crate::revision::merge::{
    agree, member_conflicts, merge_conflicts, merge_keys, merge_outcome, merged, spec_conflicts,
    MergeConflictView,
};
use crate::revision::merge_laws::{is_finite, law_members_are_merged_one_by_one};
use crate::revision::spec::{AgentBuildRefView, AgentSpecView, PromptSpecView};
use crate::revision::spec_codec::{
    agent_build_ref_json, agent_spec_json, agent_spec_of, law_agent_spec_is_read_back,
    model_spec_json, prompt_spec_json, runtime_policy_spec_json, templates_json, tools_json,
};
use crate::text_map::{ascending, lemma_finite_is_walked, lemma_sorted_keys};
use vstd::prelude::*;

verus! {

/// Two values, where a missing one is a value of its own, are the same.
pub open spec fn unchanged(a: Option<JsonView>, b: Option<JsonView>) -> bool {
    match (a, b) {
        (Some(a), Some(b)) => equals(a, b),
        _ => a is None && b is None,
    }
}

/// The three values of a merge are objects.
pub open spec fn are_objects(
    base: Option<JsonView>,
    ours: Option<JsonView>,
    theirs: Option<JsonView>,
) -> bool {
    &&& base is Some && base->Some_0 is Object
    &&& ours is Some && ours->Some_0 is Object
    &&& theirs is Some && theirs->Some_0 is Object
}

/// The member of an object, if it has it.
pub open spec fn at(value: Option<JsonView>, key: Seq<char>) -> Option<JsonView> {
    if value is Some && value->Some_0 is Object && value->Some_0->Object_0.contains_key(key) {
        Some(value->Some_0->Object_0[key])
    } else {
        None
    }
}

proof fn lemma_agree(a: Option<JsonView>, b: Option<JsonView>)
    ensures
        agree(a, b) <==> unchanged(a, b),
{
    if a is Some && b is Some {
        law_values_compare_by_what_they_hold(a->Some_0, b->Some_0);
    }
}

/// A value that both sides changed, and not to the same, is a conflict at its place, which tells
/// the three values; a value that is missing counts as a value of its own. Nothing else is: what
/// only one side changed or both changed to the same is taken over, and objects are merged member
/// by member.
pub proof fn law_conflict_is_told_where_both_changed(
    base: Option<JsonView>,
    ours: Option<JsonView>,
    theirs: Option<JsonView>,
    path: Seq<char>,
)
    ensures
        unchanged(ours, theirs) ==> merge_conflicts(base, ours, theirs, path) =~= seq![] && merged(
            base,
            ours,
            theirs,
        ) == ours,
        !unchanged(ours, theirs) && unchanged(ours, base) ==> merge_conflicts(
            base,
            ours,
            theirs,
            path,
        ) =~= seq![] && merged(base, ours, theirs) == theirs,
        !unchanged(ours, theirs) && !unchanged(ours, base) && unchanged(theirs, base)
            ==> merge_conflicts(base, ours, theirs, path) =~= seq![] && merged(base, ours, theirs)
            == ours,
        !unchanged(ours, theirs) && !unchanged(ours, base) && !unchanged(theirs, base)
            && !are_objects(base, ours, theirs) ==> merge_conflicts(base, ours, theirs, path)
            == seq![MergeConflictView { path, base, ours, theirs }] && merged(base, ours, theirs)
            is None,
{
    lemma_agree(ours, theirs);
    lemma_agree(ours, base);
    lemma_agree(theirs, base);
}

/// The keys of three objects in ascending order, each once.
pub open spec fn lists_keys(
    keys: Seq<Seq<char>>,
    base: JsonView,
    ours: JsonView,
    theirs: JsonView,
) -> bool {
    &&& ascending(keys)
    &&& forall|key: Seq<char>| #[trigger]
        keys.contains(key) <==> base->Object_0.contains_key(key) || ours->Object_0.contains_key(
            key,
        ) || theirs->Object_0.contains_key(key)
}

proof fn lemma_member_conflicts(
    base: JsonView,
    ours: JsonView,
    theirs: JsonView,
    keys: Seq<Seq<char>>,
    path: Seq<char>,
)
    requires
        base is Object,
        ours is Object,
        theirs is Object,
    ensures
        member_conflicts(base->Object_0, ours->Object_0, theirs->Object_0, keys, path)
            == Seq::new(
            keys.len(),
            |i: int|
                merge_conflicts(
                    at(Some(base), keys[i]),
                    at(Some(ours), keys[i]),
                    at(Some(theirs), keys[i]),
                    path.push('.') + keys[i],
                ),
        ).flatten(),
    decreases keys.len(),
{
    let parts = Seq::new(
        keys.len(),
        |i: int|
            merge_conflicts(
                at(Some(base), keys[i]),
                at(Some(ours), keys[i]),
                at(Some(theirs), keys[i]),
                path.push('.') + keys[i],
            ),
    );
    if keys.len() == 0 {
        assert(parts.flatten() =~= Seq::empty());
    } else {
        let init = keys.drop_last();
        lemma_member_conflicts(base, ours, theirs, init, path);
        let before = Seq::new(
            init.len(),
            |i: int|
                merge_conflicts(
                    at(Some(base), init[i]),
                    at(Some(ours), init[i]),
                    at(Some(theirs), init[i]),
                    path.push('.') + init[i],
                ),
        );
        assert(parts.drop_last() =~= before);
        reveal_strlit(".");
        assert(path + "."@ =~= path.push('.'));
        parts.lemma_flatten_and_flatten_alt_are_equivalent();
        before.lemma_flatten_and_flatten_alt_are_equivalent();
    }
}

/// Objects that both sides changed are in conflict where their members are: the conflicts are those
/// of the members, in the order of the keys, each at the place of the object followed by a dot and
/// the key. What is kept has at each key what is kept of the members there.
pub proof fn law_objects_conflict_where_their_members_do(
    base: JsonView,
    ours: JsonView,
    theirs: JsonView,
    path: Seq<char>,
    keys: Seq<Seq<char>>,
)
    requires
        base is Object && base->Object_0.dom().finite(),
        ours is Object && ours->Object_0.dom().finite(),
        theirs is Object && theirs->Object_0.dom().finite(),
        !equals(ours, theirs) && !equals(ours, base) && !equals(theirs, base),
        lists_keys(keys, base, ours, theirs),
    ensures
        merge_conflicts(Some(base), Some(ours), Some(theirs), path) == Seq::new(
            keys.len(),
            |i: int|
                merge_conflicts(
                    at(Some(base), keys[i]),
                    at(Some(ours), keys[i]),
                    at(Some(theirs), keys[i]),
                    path.push('.') + keys[i],
                ),
        ).flatten(),
        merged(Some(base), Some(ours), Some(theirs)) matches Some(JsonView::Object(members))
            && forall|key: Seq<char>|
            at(Some(JsonView::Object(members)), key) == #[trigger] merged(
                at(Some(base), key),
                at(Some(ours), key),
                at(Some(theirs), key),
            ),
{
    lemma_agree(Some(ours), Some(theirs));
    lemma_agree(Some(ours), Some(base));
    lemma_agree(Some(theirs), Some(base));
    let all = base->Object_0.dom().union(ours->Object_0.dom()).union(theirs->Object_0.dom());
    lemma_finite_is_walked(all);
    let names = merge_keys(base->Object_0, ours->Object_0, theirs->Object_0);
    assert(keys.to_set() =~= all);
    lemma_sorted_keys(keys);
    lemma_member_conflicts(base, ours, theirs, keys, path);
    assert forall|key: Seq<char>|
        at(merged(Some(base), Some(ours), Some(theirs)), key) == #[trigger] merged(
            at(Some(base), key),
            at(Some(ours), key),
            at(Some(theirs), key),
        ) by {
        law_members_are_merged_one_by_one(
            base->Object_0,
            ours->Object_0,
            theirs->Object_0,
            key,
        );
        let whole = merged(Some(base), Some(ours), Some(theirs))->Some_0;
        crate::revision::merge_laws::lemma_member_of_merge(
            base->Object_0,
            ours->Object_0,
            theirs->Object_0,
            names,
            key,
        );
        if !names.contains(key) {
            assert(!all.contains(key));
        }
    }
}

/// A merge of specifications is one of their documents: it tells the conflicts of these from the
/// root on and keeps the ids of the three revisions, and only a merge without conflict has a
/// specification, which is what the documents were merged to.
pub proof fn law_merge_of_specifications_is_one_of_their_documents(
    base_id: Seq<char>,
    ours_id: Seq<char>,
    theirs_id: Seq<char>,
    base: AgentSpecView,
    ours: AgentSpecView,
    theirs: AgentSpecView,
)
    requires
        is_finite(base),
        is_finite(ours),
        is_finite(theirs),
    ensures
        merge_outcome(base_id, ours_id, theirs_id, base, ours, theirs) matches Ok(result) && {
            let (b, o, t) = (agent_spec_json(base), agent_spec_json(ours), agent_spec_json(theirs));
            &&& result.base == base_id
            &&& result.ours == ours_id
            &&& result.theirs == theirs_id
            &&& result.conflicts == merge_conflicts(Some(b), Some(o), Some(t), seq!['$'])
            &&& result.conflicts.len() > 0 ==> result.spec is None
            &&& result.conflicts.len() == 0 ==> result.spec is Some && exists|json: JsonView|
                #[trigger] merged(Some(b), Some(o), Some(t)) == Some(json) && agent_spec_of(json)
                    == result.spec
        },
{
    reveal_strlit("$");
    assert("$"@ =~= seq!['$']);
    if spec_conflicts(base, ours, theirs).len() == 0 {
        crate::revision::merge_laws::law_clean_merge_is_a_specification(base, ours, theirs);
    }
}

/// One field of a specification was changed by one side at most, and what is kept is the change.
pub open spec fn takes_change<V>(base: V, ours: V, theirs: V, kept: V) -> bool {
    ours == base && kept == theirs || theirs == base && kept == ours
}

/// A value that differs only in the sign of a zero is none of these two.
pub open spec fn told_apart(a: JsonView, b: JsonView) -> bool {
    a == b || !equals(a, b)
}

proof fn lemma_field_kept(b: JsonView, o: JsonView, t: JsonView, k: JsonView, path: Seq<char>)
    requires
        takes_change(b, o, t, k),
        told_apart(o, t),
    ensures
        merged(Some(b), Some(o), Some(t)) == Some(k),
        merge_conflicts(Some(b), Some(o), Some(t), path).len() == 0,
{
    lemma_agree(Some(o), Some(t));
}

proof fn lemma_nothing_flattens_to_nothing(parts: Seq<Seq<MergeConflictView>>)
    requires
        forall|i: int| 0 <= i < parts.len() ==> (#[trigger] parts[i]).len() == 0,
    ensures
        parts.flatten().len() == 0,
    decreases parts.len(),
{
    if parts.len() > 0 {
        let rest = parts.drop_first();
        assert forall|i: int| 0 <= i < rest.len() implies (#[trigger] rest[i]).len() == 0 by {
            assert(rest[i] == parts[i + 1]);
        }
        lemma_nothing_flattens_to_nothing(rest);
        assert(parts[0].len() == 0);
    }
}

proof fn lemma_texts_are_told_apart(
    a: Map<Seq<char>, Seq<char>>,
    b: Map<Seq<char>, Seq<char>>,
)
    ensures
        told_apart(templates_json(a), templates_json(b)),
{
    let x = templates_json(a)->Object_0;
    let y = templates_json(b)->Object_0;
    if equals(templates_json(a), templates_json(b)) {
        assert forall|key: Seq<char>| #[trigger] x.contains_key(key) implies x[key] == y[key] by {
            assert(y.contains_key(key));
            assert(equals(x[key], y[key]));
        }
        assert(x =~= y);
    }
}

proof fn lemma_prompts_are_told_apart(a: PromptSpecView, b: PromptSpecView)
    ensures
        told_apart(prompt_spec_json(a), prompt_spec_json(b)),
{
    let x = prompt_spec_json(a)->Object_0;
    let y = prompt_spec_json(b)->Object_0;
    if equals(prompt_spec_json(a), prompt_spec_json(b)) {
        lemma_texts_are_told_apart(a.templates, b.templates);
        assert(x.contains_key("system"@) && y.contains_key("system"@));
        assert(x.contains_key("templates"@) && y.contains_key("templates"@));
        assert(equals(x["system"@], y["system"@]));
        assert(equals(x["templates"@], y["templates"@]));
        assert(x =~= y);
    }
}

proof fn lemma_builds_are_told_apart(a: AgentBuildRefView, b: AgentBuildRefView)
    ensures
        told_apart(agent_build_ref_json(a), agent_build_ref_json(b)),
{
    let x = agent_build_ref_json(a)->Object_0;
    let y = agent_build_ref_json(b)->Object_0;
    if equals(agent_build_ref_json(a), agent_build_ref_json(b)) {
        assert(x.contains_key("id"@) && y.contains_key("id"@));
        assert(equals(x["id"@], y["id"@]));
        assert(x =~= y);
    }
}

/// The members of a specification are those of its fields.
proof fn lemma_fields(spec: AgentSpecView)
    ensures
        agent_spec_json(spec) is Object,
        at(Some(agent_spec_json(spec)), "agent_id"@) == Some(JsonView::Text(spec.agent_id)),
        at(Some(agent_spec_json(spec)), "model"@) == Some(model_spec_json(spec.model)),
        at(Some(agent_spec_json(spec)), "prompts"@) == Some(prompt_spec_json(spec.prompts)),
        at(Some(agent_spec_json(spec)), "tools"@) == Some(tools_json(spec.tools)),
        at(Some(agent_spec_json(spec)), "runtime"@) == Some(runtime_policy_spec_json(spec.runtime)),
        at(Some(agent_spec_json(spec)), "build"@) == Some(agent_build_ref_json(spec.build)),
        forall|key: Seq<char>|
            !is_field(key) ==> #[trigger] at(Some(agent_spec_json(spec)), key) is None,
{
    crate::revision::merge_laws::lemma_spec_members(spec);
}

/// The name of a field of a specification.
pub open spec fn is_field(key: Seq<char>) -> bool {
    key == "agent_id"@ || key == "model"@ || key == "prompts"@ || key == "tools"@ || key
        == "runtime"@ || key == "build"@
}

proof fn lemma_same_object(a: JsonView, b: JsonView)
    requires
        a is Object,
        b is Object,
        forall|key: Seq<char>| #[trigger] at(Some(a), key) == at(Some(b), key),
    ensures
        a == b,
{
    let x = a->Object_0;
    let y = b->Object_0;
    assert forall|key: Seq<char>| x.contains_key(key) <==> y.contains_key(key) by {
        assert(at(Some(a), key) == at(Some(b), key));
    }
    assert forall|key: Seq<char>| x.contains_key(key) implies x[key] == y[key] by {
        assert(at(Some(a), key) == at(Some(b), key));
    }
    assert(x =~= y);
}

proof fn lemma_member_equals(a: JsonView, b: JsonView, key: Seq<char>)
    requires
        a is Object,
        b is Object,
        equals(a, b),
    ensures
        unchanged(at(Some(a), key), at(Some(b), key)),
{
    assert(a->Object_0.contains_key(key) <==> b->Object_0.contains_key(key));
}

/// Changes of different fields of a specification are combined: a merge of two sides of which each
/// field was changed by one at most has no conflict, and every change of either.
pub proof fn law_independent_changes_are_combined(
    base_id: Seq<char>,
    ours_id: Seq<char>,
    theirs_id: Seq<char>,
    base: AgentSpecView,
    ours: AgentSpecView,
    theirs: AgentSpecView,
    kept: AgentSpecView,
)
    requires
        is_finite(base),
        is_finite(ours),
        is_finite(theirs),
        takes_change(base.agent_id, ours.agent_id, theirs.agent_id, kept.agent_id),
        takes_change(base.model, ours.model, theirs.model, kept.model),
        takes_change(base.prompts, ours.prompts, theirs.prompts, kept.prompts),
        takes_change(base.tools, ours.tools, theirs.tools, kept.tools),
        takes_change(base.runtime, ours.runtime, theirs.runtime, kept.runtime),
        takes_change(base.build, ours.build, theirs.build, kept.build),
        told_apart(model_spec_json(ours.model), model_spec_json(theirs.model)),
        told_apart(tools_json(ours.tools), tools_json(theirs.tools)),
        told_apart(
            runtime_policy_spec_json(ours.runtime),
            runtime_policy_spec_json(theirs.runtime),
        ),
    ensures
        merge_outcome(base_id, ours_id, theirs_id, base, ours, theirs) matches Ok(result)
            && result.conflicts.len() == 0 && result.spec == Some(kept),
{
    let b = agent_spec_json(base);
    let o = agent_spec_json(ours);
    let t = agent_spec_json(theirs);
    let k = agent_spec_json(kept);
    lemma_fields(base);
    lemma_fields(ours);
    lemma_fields(theirs);
    lemma_fields(kept);
    lemma_prompts_are_told_apart(ours.prompts, theirs.prompts);
    lemma_builds_are_told_apart(ours.build, theirs.build);
    law_agent_spec_is_read_back(kept);
    lemma_agree(Some(o), Some(t));
    lemma_agree(Some(o), Some(b));
    lemma_agree(Some(t), Some(b));
    assert forall|key: Seq<char>| is_field(key) implies {
        &&& (#[trigger] at(Some(b), key)) is Some
        &&& at(Some(o), key) is Some
        &&& at(Some(t), key) is Some
        &&& at(Some(k), key) is Some
        &&& takes_change(
            at(Some(b), key)->Some_0,
            at(Some(o), key)->Some_0,
            at(Some(t), key)->Some_0,
            at(Some(k), key)->Some_0,
        )
        &&& told_apart(at(Some(o), key)->Some_0, at(Some(t), key)->Some_0)
    } by {}
    assert(merged(Some(b), Some(o), Some(t)) == Some(k) && merge_conflicts(
        Some(b),
        Some(o),
        Some(t),
        "$"@,
    ).len() == 0) by {
        if equals(o, t) || equals(o, b) || equals(t, b) {
            let side = if equals(o, t) {
                o
            } else if equals(o, b) {
                t
            } else {
                o
            };
            assert forall|key: Seq<char>| #[trigger] at(Some(side), key) == at(Some(k), key) by {
                if is_field(key) {
                    assert(at(Some(b), key) is Some);
                    if equals(o, t) {
                        lemma_member_equals(o, t, key);
                    } else if equals(o, b) {
                        lemma_member_equals(o, b, key);
                    } else {
                        lemma_member_equals(t, b, key);
                    }
                    lemma_equals_both_ways(
                        at(Some(t), key)->Some_0,
                        at(Some(o), key)->Some_0,
                    );
                }
            }
            lemma_same_object(side, k);
        } else {
            let keys = merge_keys(b->Object_0, o->Object_0, t->Object_0);
            let all = b->Object_0.dom().union(o->Object_0.dom()).union(t->Object_0.dom());
            lemma_finite_is_walked(all);
            assert(lists_keys(keys, b, o, t));
            law_objects_conflict_where_their_members_do(b, o, t, "$"@, keys);
            let m = merged(Some(b), Some(o), Some(t))->Some_0;
            assert forall|key: Seq<char>| #[trigger] at(Some(m), key) == at(Some(k), key) by {
                assert(at(Some(m), key) == merged(
                    at(Some(b), key),
                    at(Some(o), key),
                    at(Some(t), key),
                ));
                if is_field(key) {
                    assert(at(Some(b), key) is Some);
                    lemma_field_kept(
                        at(Some(b), key)->Some_0,
                        at(Some(o), key)->Some_0,
                        at(Some(t), key)->Some_0,
                        at(Some(k), key)->Some_0,
                        Seq::empty(),
                    );
                }
            }
            lemma_same_object(m, k);
            let parts = Seq::new(
                keys.len(),
                |i: int|
                    merge_conflicts(
                        at(Some(b), keys[i]),
                        at(Some(o), keys[i]),
                        at(Some(t), keys[i]),
                        "$"@.push('.') + keys[i],
                    ),
            );
            assert forall|i: int| 0 <= i < parts.len() implies (#[trigger] parts[i]).len() == 0 by {
                let key = keys[i];
                if is_field(key) {
                    assert(at(Some(b), key) is Some);
                    lemma_field_kept(
                        at(Some(b), key)->Some_0,
                        at(Some(o), key)->Some_0,
                        at(Some(t), key)->Some_0,
                        at(Some(k), key)->Some_0,
                        "$"@.push('.') + key,
                    );
                } else {
                    assert(at(Some(b), key) is None);
                    assert(at(Some(o), key) is None);
                    assert(at(Some(t), key) is None);
                }
            }
            lemma_nothing_flattens_to_nothing(parts);
        }
    }
}

} // verus!
