//! When a task is compiled, and which transitions leave a node.

use crate::eval::program::{
    compiled, constraints_checked, declared_id, declared_ids, deltas_of, leaving, nodes_indexed,
    targets_checked, transitions_indexed, ConstraintDeltaView, ConstraintOperationView,
    TaskCaseView, TaskGraphView, TaskNodeView, TaskTransitionView,
};
use crate::text::{is_blank, text_less};
use crate::text_map::{ascending, lemma_finite_is_walked, sorted_keys};
use vstd::prelude::*;

verus! {

/// The constraint that a change declares: the one that it adds, or puts in the place of another.
pub open spec fn declares(delta: ConstraintDeltaView, id: Seq<char>) -> bool {
    match delta.operation {
        ConstraintOperationView::Add { id: own, value } => own == id,
        ConstraintOperationView::Replace { target, id: own, value } => own == id,
        ConstraintOperationView::Remove { target } => false,
    }
}

/// Every node has a name of its own.
pub open spec fn nodes_are_named(nodes: Seq<TaskNodeView>) -> bool {
    &&& forall|i: int| 0 <= i < nodes.len() ==> !is_blank((#[trigger] nodes[i]).id)
    &&& forall|i: int, j: int|
        0 <= i < j < nodes.len() ==> (#[trigger] nodes[i]).id != (#[trigger] nodes[j]).id
}

/// A node of a name is among some nodes.
pub open spec fn has_node(nodes: Seq<TaskNodeView>, id: Seq<char>) -> bool {
    exists|i: int| 0 <= i < nodes.len() && (#[trigger] nodes[i]).id == id
}

/// Every transition has a name of its own and leads from one node to another.
pub open spec fn transitions_are_named(
    nodes: Seq<TaskNodeView>,
    transitions: Seq<TaskTransitionView>,
) -> bool {
    &&& forall|i: int|
        0 <= i < transitions.len() ==> !is_blank((#[trigger] transitions[i]).id) && has_node(
            nodes,
            transitions[i].from,
        ) && has_node(nodes, transitions[i].to)
    &&& forall|i: int, j: int|
        0 <= i < j < transitions.len() ==> (#[trigger] transitions[i]).id != (
        #[trigger] transitions[j]).id
}

proof fn lemma_nodes(nodes: Seq<TaskNodeView>)
    ensures
        nodes_indexed(nodes) is Ok <==> nodes_are_named(nodes),
        nodes_indexed(nodes) matches Ok(index) ==> {
            &&& index.dom().finite()
            &&& forall|id: Seq<char>| #[trigger] index.contains_key(id) <==> has_node(nodes, id)
            &&& forall|i: int| 0 <= i < nodes.len() ==> index[(#[trigger] nodes[i]).id] == nodes[i]
        },
    decreases nodes.len(),
{
    if nodes.len() == 0 {
    } else {
        let init = nodes.drop_last();
        let n = nodes.len() - 1;
        lemma_nodes(init);
        assert forall|i: int| 0 <= i < init.len() implies init[i] == nodes[i] by {}
        assert forall|id: Seq<char>| #[trigger] has_node(nodes, id) <==> has_node(init, id) || id
            == nodes[n].id by {
            if has_node(nodes, id) {
                let i = choose|i: int| 0 <= i < nodes.len() && (#[trigger] nodes[i]).id == id;
                if i < n {
                    assert(init[i].id == id);
                }
            }
            if has_node(init, id) {
                let i = choose|i: int| 0 <= i < init.len() && (#[trigger] init[i]).id == id;
                assert(nodes[i].id == id);
            }
        }
        if nodes_are_named(nodes) {
            assert forall|i: int| 0 <= i < init.len() implies !is_blank((#[trigger] init[i]).id) by {
                assert(!is_blank(nodes[i].id));
            }
            assert forall|i: int, j: int| 0 <= i < j < init.len() implies (#[trigger] init[i]).id
                != (#[trigger] init[j]).id by {
                assert(nodes[i].id != nodes[j].id);
            }
            assert(nodes_are_named(init));
            assert(!is_blank(nodes[n].id));
            if has_node(init, nodes[n].id) {
                let i = choose|i: int|
                    0 <= i < init.len() && (#[trigger] init[i]).id == nodes[n].id;
                assert(nodes[i].id != nodes[n].id);
            }
        }
        if nodes_indexed(nodes) is Ok {
            assert forall|i: int| 0 <= i < nodes.len() implies !is_blank(
                (#[trigger] nodes[i]).id,
            ) by {
                if i < n {
                    assert(!is_blank(init[i].id));
                }
            }
            assert forall|i: int, j: int| 0 <= i < j < nodes.len() implies (#[trigger] nodes[i]).id
                != (#[trigger] nodes[j]).id by {
                if j < n {
                    assert(init[i].id != init[j].id);
                } else {
                    assert(init[i].id == nodes[i].id);
                    assert(has_node(init, nodes[i].id));
                }
            }
            let index = nodes_indexed(nodes)->Ok_0;
            assert forall|i: int| 0 <= i < nodes.len() implies index[(#[trigger] nodes[i]).id]
                == nodes[i] by {
                if i < n {
                    assert(nodes_indexed(init)->Ok_0[init[i].id] == init[i]);
                    assert(nodes[i].id != nodes[n].id);
                }
            }
        }
    }
}

/// A transition of a name is among some transitions.
pub open spec fn has_transition(transitions: Seq<TaskTransitionView>, id: Seq<char>) -> bool {
    exists|i: int| 0 <= i < transitions.len() && (#[trigger] transitions[i]).id == id
}

proof fn lemma_transitions(
    nodes: Seq<TaskNodeView>,
    index: Map<Seq<char>, TaskNodeView>,
    transitions: Seq<TaskTransitionView>,
)
    requires
        forall|id: Seq<char>| #[trigger] index.contains_key(id) <==> has_node(nodes, id),
    ensures
        transitions_indexed(index, transitions) is Ok <==> transitions_are_named(nodes, transitions),
        transitions_indexed(index, transitions) matches Ok(known) ==> {
            &&& forall|id: Seq<char>| #[trigger]
                known.contains_key(id) <==> has_transition(transitions, id)
            &&& forall|i: int|
                0 <= i < transitions.len() ==> known[(#[trigger] transitions[i]).id]
                    == transitions[i]
        },
    decreases transitions.len(),
{
    if transitions.len() > 0 {
        let init = transitions.drop_last();
        let n = transitions.len() - 1;
        lemma_transitions(nodes, index, init);
        assert forall|i: int| 0 <= i < init.len() implies init[i] == transitions[i] by {}
        assert forall|id: Seq<char>| #[trigger] has_transition(transitions, id) <==> has_transition(
            init,
            id,
        ) || id == transitions[n].id by {
            if has_transition(transitions, id) {
                let i = choose|i: int|
                    0 <= i < transitions.len() && (#[trigger] transitions[i]).id == id;
                if i < n {
                    assert(init[i].id == id);
                }
            }
            if has_transition(init, id) {
                let i = choose|i: int| 0 <= i < init.len() && (#[trigger] init[i]).id == id;
                assert(transitions[i].id == id);
            }
        }
        if transitions_are_named(nodes, transitions) {
            assert forall|i: int| 0 <= i < init.len() implies !is_blank((#[trigger] init[i]).id)
                && has_node(nodes, init[i].from) && has_node(nodes, init[i].to) by {
                assert(!is_blank(transitions[i].id));
            }
            assert forall|i: int, j: int| 0 <= i < j < init.len() implies (#[trigger] init[i]).id
                != (#[trigger] init[j]).id by {
                assert(transitions[i].id != transitions[j].id);
            }
            assert(transitions_are_named(nodes, init));
            assert(!is_blank(transitions[n].id));
            if has_transition(init, transitions[n].id) {
                let i = choose|i: int|
                    0 <= i < init.len() && (#[trigger] init[i]).id == transitions[n].id;
                assert(transitions[i].id != transitions[n].id);
            }
        }
        if transitions_indexed(index, transitions) is Ok {
            assert forall|i: int| 0 <= i < transitions.len() implies !is_blank(
                (#[trigger] transitions[i]).id,
            ) && has_node(nodes, transitions[i].from) && has_node(nodes, transitions[i].to) by {
                if i < n {
                    assert(!is_blank(init[i].id));
                }
            }
            assert forall|i: int, j: int| 0 <= i < j < transitions.len() implies (
            #[trigger] transitions[i]).id != (#[trigger] transitions[j]).id by {
                if j < n {
                    assert(init[i].id != init[j].id);
                } else {
                    assert(init[i].id == transitions[i].id);
                    assert(has_transition(init, transitions[i].id));
                }
            }
            let known = transitions_indexed(index, transitions)->Ok_0;
            assert forall|i: int| 0 <= i < transitions.len() implies known[(
            #[trigger] transitions[i]).id] == transitions[i] by {
                if i < n {
                    assert(transitions_indexed(index, init)->Ok_0[init[i].id] == init[i]);
                    assert(transitions[i].id != transitions[n].id);
                }
            }
        }
    }
}

/// Every constraint is declared once, and what is replaced is declared.
pub open spec fn constraints_are_named(deltas: Seq<ConstraintDeltaView>) -> bool {
    &&& forall|i: int, j: int, id: Seq<char>|
        0 <= i < j < deltas.len() && #[trigger] declares(deltas[i], id) ==> !#[trigger] declares(
            deltas[j],
            id,
        )
    &&& forall|i: int|
        0 <= i < deltas.len() ==> ((#[trigger] deltas[i]).operation matches
            ConstraintOperationView::Replace { target, id, value } ==> is_declared(deltas, target))
}

/// Some change declares a constraint.
pub open spec fn is_declared(deltas: Seq<ConstraintDeltaView>, id: Seq<char>) -> bool {
    exists|i: int| 0 <= i < deltas.len() && #[trigger] declares(deltas[i], id)
}

proof fn lemma_declared(deltas: Seq<ConstraintDeltaView>)
    ensures
        declared_ids(deltas) is Ok <==> forall|i: int, j: int, id: Seq<char>|
            0 <= i < j < deltas.len() && #[trigger] declares(deltas[i], id)
                ==> !#[trigger] declares(deltas[j], id),
        declared_ids(deltas) matches Ok(declared) ==> forall|id: Seq<char>| #[trigger]
            declared.contains(id) <==> is_declared(deltas, id),
    decreases deltas.len(),
{
    if deltas.len() > 0 {
        let init = deltas.drop_last();
        let n = deltas.len() - 1;
        lemma_declared(init);
        assert forall|i: int| 0 <= i < init.len() implies init[i] == deltas[i] by {}
        assert forall|id: Seq<char>| #[trigger] is_declared(deltas, id) <==> is_declared(init, id)
            || declares(deltas[n], id) by {
            if is_declared(deltas, id) {
                let i = choose|i: int| 0 <= i < deltas.len() && #[trigger] declares(deltas[i], id);
                if i < n {
                    assert(declares(init[i], id));
                }
            }
            if is_declared(init, id) {
                let i = choose|i: int| 0 <= i < init.len() && #[trigger] declares(init[i], id);
                assert(declares(deltas[i], id));
            }
        }
        let last = declared_id(deltas[n].operation);
        assert forall|id: Seq<char>| #[trigger] declares(deltas[n], id) <==> last == Some(id) by {}
        if forall|i: int, j: int, id: Seq<char>|
            0 <= i < j < deltas.len() && #[trigger] declares(deltas[i], id) ==> !#[trigger] declares(
                deltas[j],
                id,
            ) {
            assert forall|i: int, j: int, id: Seq<char>|
                0 <= i < j < init.len() && #[trigger] declares(
                    init[i],
                    id,
                ) implies !#[trigger] declares(init[j], id) by {
                assert(declares(deltas[i], id));
                assert(!declares(deltas[j], id));
            }
            if last is Some && is_declared(init, last->Some_0) {
                let id = last->Some_0;
                let i = choose|i: int| 0 <= i < init.len() && #[trigger] declares(init[i], id);
                assert(declares(deltas[i], id));
                assert(!declares(deltas[n], id));
            }
        }
        if declared_ids(deltas) is Ok {
            assert forall|i: int, j: int, id: Seq<char>|
                0 <= i < j < deltas.len() && #[trigger] declares(
                    deltas[i],
                    id,
                ) implies !#[trigger] declares(deltas[j], id) by {
                assert(declares(init[i], id));
                if j < n {
                    assert(!declares(init[j], id));
                } else {
                    assert(is_declared(init, id));
                }
            }
        }
    }
}

proof fn lemma_targets(deltas: Seq<ConstraintDeltaView>, declared: Set<Seq<char>>)
    ensures
        targets_checked(deltas, declared) is Ok <==> forall|i: int|
            0 <= i < deltas.len() ==> ((#[trigger] deltas[i]).operation matches
                ConstraintOperationView::Replace { target, id, value } ==> declared.contains(
                target,
            )),
    decreases deltas.len(),
{
    if deltas.len() > 0 {
        let init = deltas.drop_last();
        let n = deltas.len() - 1;
        lemma_targets(init, declared);
        assert forall|i: int| 0 <= i < init.len() implies init[i] == deltas[i] by {}
        if targets_checked(deltas, declared) is Ok {
            assert forall|i: int| 0 <= i < deltas.len() implies ((#[trigger] deltas[i]).operation
                matches ConstraintOperationView::Replace { target, id, value }
                ==> declared.contains(target)) by {
                if i < n {
                    assert(init[i] == deltas[i]);
                }
            }
        }
        if forall|i: int|
            0 <= i < deltas.len() ==> ((#[trigger] deltas[i]).operation matches
                ConstraintOperationView::Replace { target, id, value } ==> declared.contains(
                target,
            )) {
            assert forall|i: int| 0 <= i < init.len() implies ((#[trigger] init[i]).operation
                matches ConstraintOperationView::Replace { target, id, value }
                ==> declared.contains(target)) by {
                assert(init[i] == deltas[i]);
            }
            assert(deltas[n] == deltas.last());
        }
    }
}

/// A task is compiled where it, its nodes and its transitions have names of their own, it starts at
/// one of its nodes, its transitions lead from node to node, and its constraints, over all its nodes
/// in the order of their names, are declared once and replaced where they are declared. The graph has
/// its name, its version and its start, and its nodes and transitions under their names.
pub proof fn law_task_is_compiled_as_it_is(case: TaskCaseView)
    ensures
        ({
            let named = !is_blank(case.id) && nodes_are_named(case.nodes) && has_node(
                case.nodes,
                case.start,
            ) && transitions_are_named(case.nodes, case.transitions);
            &&& compiled(case) matches Ok(graph) ==> {
                &&& named
                &&& constraints_are_named(deltas_of(graph.nodes, sorted_keys(graph.nodes.dom())))
                &&& graph.case_id == case.id
                &&& graph.version == case.version
                &&& graph.start == case.start
                &&& forall|id: Seq<char>| #[trigger]
                    graph.nodes.contains_key(id) <==> has_node(case.nodes, id)
                &&& forall|i: int|
                    0 <= i < case.nodes.len() ==> graph.nodes[(#[trigger] case.nodes[i]).id]
                        == case.nodes[i]
                &&& forall|id: Seq<char>| #[trigger]
                    graph.transitions.contains_key(id) <==> has_transition(case.transitions, id)
                &&& forall|i: int|
                    0 <= i < case.transitions.len() ==> graph.transitions[(
                    #[trigger] case.transitions[i]).id] == case.transitions[i]
            }
            &&& compiled(case) is Err && named ==> exists|nodes: Map<Seq<char>, TaskNodeView>|
                {
                    &&& forall|id: Seq<char>| #[trigger]
                        nodes.contains_key(id) <==> has_node(case.nodes, id)
                    &&& forall|i: int|
                        0 <= i < case.nodes.len() ==> nodes[(#[trigger] case.nodes[i]).id]
                            == case.nodes[i]
                    &&& !constraints_are_named(
                        #[trigger] deltas_of(nodes, sorted_keys(nodes.dom())),
                    )
                }
        }),
{
    lemma_nodes(case.nodes);
    if nodes_indexed(case.nodes) is Ok {
        let nodes = nodes_indexed(case.nodes)->Ok_0;
        lemma_transitions(case.nodes, nodes, case.transitions);
        let deltas = deltas_of(nodes, sorted_keys(nodes.dom()));
        lemma_declared(deltas);
        assert(constraints_checked(nodes) is Ok <==> constraints_are_named(deltas)) by {
            if declared_ids(deltas) is Ok {
                lemma_targets(deltas, declared_ids(deltas)->Ok_0);
                if constraints_are_named(deltas) {
                    assert forall|i: int| 0 <= i < deltas.len() implies ((
                    #[trigger] deltas[i]).operation matches ConstraintOperationView::Replace {
                        target,
                        id,
                        value,
                    } ==> declared_ids(deltas)->Ok_0.contains(target)) by {
                        if deltas[i].operation is Replace {
                            assert(is_declared(deltas, deltas[i].operation->Replace_target));
                        }
                    }
                }
            }
        }
    }
}

/// The changes of the nodes that are looked at when constraints are checked: each change of each
/// node, and no other.
pub proof fn law_all_changes_are_checked(
    nodes: Map<Seq<char>, TaskNodeView>,
    delta: ConstraintDeltaView,
)
    requires
        nodes.dom().finite(),
    ensures
        deltas_of(nodes, sorted_keys(nodes.dom())).contains(delta) <==> exists|id: Seq<char>|
            #[trigger] nodes.contains_key(id) && nodes[id].constraints.contains(delta),
{
    let names = sorted_keys(nodes.dom());
    lemma_finite_is_walked(nodes.dom());
    lemma_changes(nodes, names, delta);
    if deltas_of(nodes, names).contains(delta) {
        let i = choose|i: int|
            0 <= i < names.len() && nodes[#[trigger] names[i]].constraints.contains(delta);
        assert(names.contains(names[i]));
        assert(nodes.contains_key(names[i]));
    }
    if exists|id: Seq<char>| #[trigger] nodes.contains_key(id) && nodes[id].constraints.contains(
        delta,
    ) {
        let id = choose|id: Seq<char>| #[trigger]
            nodes.contains_key(id) && nodes[id].constraints.contains(delta);
        assert(names.contains(id));
        let i = choose|i: int| 0 <= i < names.len() && names[i] == id;
        assert(nodes[names[i]].constraints.contains(delta));
    }
}

proof fn lemma_changes(
    nodes: Map<Seq<char>, TaskNodeView>,
    names: Seq<Seq<char>>,
    delta: ConstraintDeltaView,
)
    ensures
        deltas_of(nodes, names).contains(delta) <==> exists|i: int|
            0 <= i < names.len() && nodes[#[trigger] names[i]].constraints.contains(delta),
    decreases names.len(),
{
    if names.len() > 0 {
        let init = names.drop_last();
        let n = names.len() - 1;
        lemma_changes(nodes, init, delta);
        let a = deltas_of(nodes, init);
        let b = nodes[names[n]].constraints;
        assert((a + b).contains(delta) <==> a.contains(delta) || b.contains(delta)) by {
            if a.contains(delta) {
                let k = choose|k: int| 0 <= k < a.len() && a[k] == delta;
                assert((a + b)[k] == delta);
            }
            if b.contains(delta) {
                let k = choose|k: int| 0 <= k < b.len() && b[k] == delta;
                assert((a + b)[a.len() + k] == delta);
            }
        }
        if a.contains(delta) {
            let i = choose|i: int|
                0 <= i < init.len() && nodes[#[trigger] init[i]].constraints.contains(delta);
            assert(nodes[names[i]].constraints.contains(delta));
        }
        if exists|i: int|
            0 <= i < names.len() && nodes[#[trigger] names[i]].constraints.contains(delta) {
            let i = choose|i: int|
                0 <= i < names.len() && nodes[#[trigger] names[i]].constraints.contains(delta);
            if i < n {
                assert(nodes[init[i]].constraints.contains(delta));
            }
        }
    } else {
        assert(!Seq::<ConstraintDeltaView>::empty().contains(delta));
    }
}

proof fn lemma_leaving(
    transitions: Map<Seq<char>, TaskTransitionView>,
    names: Seq<Seq<char>>,
    node: Seq<char>,
)
    requires
        ascending(names),
        forall|i: int| 0 <= i < names.len() ==> transitions[#[trigger] names[i]].id == names[i],
    ensures
        ({
            let found = leaving(transitions, names, node);
            &&& forall|i: int|
                0 <= i < found.len() ==> (#[trigger] found[i]).from == node && names.contains(
                    found[i].id,
                ) && found[i] == transitions[found[i].id]
            &&& forall|i: int, j: int|
                0 <= i < j < found.len() ==> text_less(
                    (#[trigger] found[i]).id,
                    (#[trigger] found[j]).id,
                )
            &&& forall|k: int|
                0 <= k < names.len() && transitions[#[trigger] names[k]].from == node
                    ==> found.contains(transitions[names[k]])
        }),
    decreases names.len(),
{
    if names.len() > 0 {
        let init = names.drop_last();
        let n = names.len() - 1;
        assert forall|i: int, j: int| 0 <= i < j < init.len() implies text_less(
            #[trigger] init[i],
            #[trigger] init[j],
        ) by {
            assert(text_less(names[i], names[j]));
        }
        assert forall|i: int| 0 <= i < init.len() implies transitions[#[trigger] init[i]].id
            == init[i] by {
            assert(transitions[names[i]].id == names[i]);
        }
        lemma_leaving(transitions, init, node);
        let before = leaving(transitions, init, node);
        let found = leaving(transitions, names, node);
        assert(transitions[names[n]].id == names[n]);
        assert(names.contains(names[n]));
        assert forall|i: int| 0 <= i < before.len() implies names.contains(
            (#[trigger] before[i]).id,
        ) && text_less(before[i].id, names[n]) by {
            let k = choose|k: int| 0 <= k < init.len() && init[k] == before[i].id;
            assert(names[k] == before[i].id);
            assert(text_less(names[k], names[n]));
        }
        assert forall|k: int|
            0 <= k < names.len() && transitions[#[trigger] names[k]].from == node implies
            found.contains(transitions[names[k]]) by {
            if k < n {
                assert(init[k] == names[k]);
                let i = choose|i: int|
                    0 <= i < before.len() && before[i] == transitions[init[k]];
                assert(found[i] == transitions[names[k]]);
            } else {
                assert(found[found.len() - 1] == transitions[names[n]]);
            }
        }
    }
}

/// The transitions that leave a node are those of the graph that lead from it, each once and in the
/// order of their names.
pub proof fn law_outgoing_transitions_leave_the_node(graph: TaskGraphView, node: Seq<char>)
    requires
        graph.transitions.dom().finite(),
        forall|id: Seq<char>| #[trigger]
            graph.transitions.contains_key(id) ==> graph.transitions[id].id == id,
    ensures
        ({
            let found = leaving(graph.transitions, sorted_keys(graph.transitions.dom()), node);
            &&& forall|i: int|
                0 <= i < found.len() ==> (#[trigger] found[i]).from == node
                    && graph.transitions.contains_key(found[i].id) && found[i]
                    == graph.transitions[found[i].id]
            &&& forall|i: int, j: int|
                0 <= i < j < found.len() ==> text_less(
                    (#[trigger] found[i]).id,
                    (#[trigger] found[j]).id,
                )
            &&& forall|id: Seq<char>| #[trigger]
                graph.transitions.contains_key(id) && graph.transitions[id].from == node
                    ==> found.contains(graph.transitions[id])
        }),
{
    let names = sorted_keys(graph.transitions.dom());
    lemma_finite_is_walked(graph.transitions.dom());
    assert forall|i: int| 0 <= i < names.len() implies graph.transitions[#[trigger] names[i]].id
        == names[i] by {
        assert(names.contains(names[i]));
        assert(graph.transitions.contains_key(names[i]));
    }
    lemma_leaving(graph.transitions, names, node);
    let found = leaving(graph.transitions, names, node);
    assert forall|i: int| 0 <= i < found.len() implies graph.transitions.contains_key(
        (#[trigger] found[i]).id,
    ) by {
        assert(names.contains(found[i].id));
    }
    assert forall|id: Seq<char>| #[trigger]
        graph.transitions.contains_key(id) && graph.transitions[id].from == node implies
        found.contains(graph.transitions[id]) by {
        assert(names.contains(id));
        let k = choose|k: int| 0 <= k < names.len() && names[k] == id;
        assert(graph.transitions[names[k]].from == node);
    }
}

} // verus!
