//! Tasks as graphs of states.

use crate::eval::error::{EvalError, EvalErrorView, Result};
use crate::json::{Json, JsonView};
use crate::same::{outcome_of, Replica, Same};
use crate::text::{blank, glue2, glue3, is_blank};
use crate::text_map::{sorted_keys, TextMap};
use vstd::prelude::*;

verus! {

/// The name of a transition.
#[derive(Debug, PartialEq, Eq, PartialOrd, Ord, Hash)]
pub struct TransitionId(pub String);

impl DeepView for TransitionId {
    type V = Seq<char>;

    open spec fn deep_view(&self) -> Self::V {
        self.0@
    }
}

impl Replica for TransitionId {
    fn replica(&self) -> (r: Self) {
        TransitionId(self.0.clone())
    }
}

impl Same for TransitionId {
    fn same(&self, other: &Self) -> (r: bool) {
        self.0.same(&other.0)
    }
}

impl Clone for TransitionId {
    fn clone(&self) -> (r: Self)
        ensures
            r.deep_view() == self.deep_view(),
    {
        self.replica()
    }
}

impl vstd::std_specs::convert::FromSpecImpl<&str> for TransitionId {
    open spec fn obeys_from_spec() -> bool {
        false
    }

    open spec fn from_spec(value: &str) -> Self {
        arbitrary()
    }
}

impl From<&str> for TransitionId {
    fn from(value: &str) -> (r: Self)
        ensures
            r.deep_view() == value@,
    {
        TransitionId(value.to_owned())
    }
}

/// The name of a constraint.
#[derive(Debug, PartialEq, Eq, PartialOrd, Ord, Hash)]
pub struct ConstraintId(pub String);

impl DeepView for ConstraintId {
    type V = Seq<char>;

    open spec fn deep_view(&self) -> Self::V {
        self.0@
    }
}

impl Replica for ConstraintId {
    fn replica(&self) -> (r: Self) {
        ConstraintId(self.0.clone())
    }
}

impl Same for ConstraintId {
    fn same(&self, other: &Self) -> (r: bool) {
        self.0.same(&other.0)
    }
}

impl Clone for ConstraintId {
    fn clone(&self) -> (r: Self)
        ensures
            r.deep_view() == self.deep_view(),
    {
        self.replica()
    }
}

impl vstd::std_specs::convert::FromSpecImpl<&str> for ConstraintId {
    open spec fn obeys_from_spec() -> bool {
        false
    }

    open spec fn from_spec(value: &str) -> Self {
        arbitrary()
    }
}

impl From<&str> for ConstraintId {
    fn from(value: &str) -> (r: Self)
        ensures
            r.deep_view() == value@,
    {
        ConstraintId(value.to_owned())
    }
}

/// The name of a node.
#[derive(Debug, PartialEq, Eq, PartialOrd, Ord, Hash)]
pub struct NodeId(pub String);

impl DeepView for NodeId {
    type V = Seq<char>;

    open spec fn deep_view(&self) -> Self::V {
        self.0@
    }
}

impl Replica for NodeId {
    fn replica(&self) -> (r: Self) {
        NodeId(self.0.clone())
    }
}

impl Same for NodeId {
    fn same(&self, other: &Self) -> (r: bool) {
        self.0.same(&other.0)
    }
}

impl Clone for NodeId {
    fn clone(&self) -> (r: Self)
        ensures
            r.deep_view() == self.deep_view(),
    {
        self.replica()
    }
}

impl vstd::std_specs::convert::FromSpecImpl<&str> for NodeId {
    open spec fn obeys_from_spec() -> bool {
        false
    }

    open spec fn from_spec(value: &str) -> Self {
        arbitrary()
    }
}

impl From<&str> for NodeId {
    fn from(value: &str) -> (r: Self)
        ensures
            r.deep_view() == value@,
    {
        NodeId(value.to_owned())
    }
}

/// How a node changes the constraints.
#[derive(Debug, PartialEq, Eq)]
pub enum ConstraintOperation {
    Add { id: ConstraintId, value: Json },
    Replace { target: ConstraintId, id: ConstraintId, value: Json },
    Remove { target: ConstraintId },
}

/// What a [`ConstraintOperation`] holds.
#[verifier::ext_equal]
pub enum ConstraintOperationView {
    Add { id: Seq<char>, value: JsonView },
    Replace { target: Seq<char>, id: Seq<char>, value: JsonView },
    Remove { target: Seq<char> },
}

impl DeepView for ConstraintOperation {
    type V = ConstraintOperationView;

    open spec fn deep_view(&self) -> Self::V {
        match self {
            ConstraintOperation::Add { id, value } => ConstraintOperationView::Add {
                id: id.deep_view(),
                value: value.deep_view(),
            },
            ConstraintOperation::Replace { target, id, value } => ConstraintOperationView::Replace {
                target: target.deep_view(),
                id: id.deep_view(),
                value: value.deep_view(),
            },
            ConstraintOperation::Remove { target } => ConstraintOperationView::Remove {
                target: target.deep_view(),
            },
        }
    }
}

impl Replica for ConstraintOperation {
    fn replica(&self) -> (r: Self) {
        match self {
            ConstraintOperation::Add { id, value } => ConstraintOperation::Add {
                id: id.replica(),
                value: value.replica(),
            },
            ConstraintOperation::Replace { target, id, value } => ConstraintOperation::Replace {
                target: target.replica(),
                id: id.replica(),
                value: value.replica(),
            },
            ConstraintOperation::Remove { target } => ConstraintOperation::Remove {
                target: target.replica(),
            },
        }
    }
}

impl Clone for ConstraintOperation {
    fn clone(&self) -> (r: Self)
        ensures
            r.deep_view() == self.deep_view(),
    {
        self.replica()
    }
}

impl Same for ConstraintOperation {
    fn same(&self, other: &Self) -> (r: bool) {
        match (self, other) {
            (
                ConstraintOperation::Add { id: a_id, value: a_value },
                ConstraintOperation::Add { id: b_id, value: b_value },
            ) => a_id.same(b_id) && a_value.same(b_value),
            (
                ConstraintOperation::Replace { target: a_target, id: a_id, value: a_value },
                ConstraintOperation::Replace { target: b_target, id: b_id, value: b_value },
            ) => a_target.same(b_target) && a_id.same(b_id) && a_value.same(b_value),
            (
                ConstraintOperation::Remove { target: a_target },
                ConstraintOperation::Remove { target: b_target },
            ) => a_target.same(b_target),
            _ => false,
        }
    }
}

/// A change of the constraints, and where it comes from.
#[derive(Debug, PartialEq, Eq)]
pub struct ConstraintDelta {
    pub operation: ConstraintOperation,
    pub provenance: Option<String>,
}

/// What a [`ConstraintDelta`] holds.
#[verifier::ext_equal]
pub struct ConstraintDeltaView {
    pub operation: ConstraintOperationView,
    pub provenance: Option<Seq<char>>,
}

impl DeepView for ConstraintDelta {
    type V = ConstraintDeltaView;

    open spec fn deep_view(&self) -> Self::V {
        ConstraintDeltaView {
            operation: self.operation.deep_view(),
            provenance: self.provenance.deep_view(),
        }
    }
}

impl Replica for ConstraintDelta {
    fn replica(&self) -> (r: Self) {
        ConstraintDelta {
            operation: self.operation.replica(),
            provenance: self.provenance.replica(),
        }
    }
}

impl Clone for ConstraintDelta {
    fn clone(&self) -> (r: Self)
        ensures
            r.deep_view() == self.deep_view(),
    {
        self.replica()
    }
}

impl Same for ConstraintDelta {
    fn same(&self, other: &Self) -> (r: bool) {
        self.operation.same(&other.operation)
            && self.provenance.same(&other.provenance)
    }
}

/// What a node demands.
#[derive(Debug, PartialEq, Eq)]
pub struct Obligation {
    pub id: String,
    pub payload: Json,
}

/// What an [`Obligation`] holds.
#[verifier::ext_equal]
pub struct ObligationView {
    pub id: Seq<char>,
    pub payload: JsonView,
}

impl DeepView for Obligation {
    type V = ObligationView;

    open spec fn deep_view(&self) -> Self::V {
        ObligationView {
            id: self.id.deep_view(),
            payload: self.payload.deep_view(),
        }
    }
}

impl Replica for Obligation {
    fn replica(&self) -> (r: Self) {
        Obligation {
            id: self.id.replica(),
            payload: self.payload.replica(),
        }
    }
}

impl Clone for Obligation {
    fn clone(&self) -> (r: Self)
        ensures
            r.deep_view() == self.deep_view(),
    {
        self.replica()
    }
}

impl Same for Obligation {
    fn same(&self, other: &Self) -> (r: bool) {
        self.id.same(&other.id)
            && self.payload.same(&other.payload)
    }
}

/// Why a task moves on.
#[derive(Clone, Copy, Debug, PartialEq, Eq, Structural)]
pub enum TransitionKind {
    Progress,
    Revision,
    BranchSelection,
    ConflictResolution,
}

impl DeepView for TransitionKind {
    type V = TransitionKind;

    open spec fn deep_view(&self) -> Self::V {
        *self
    }
}

impl Replica for TransitionKind {
    fn replica(&self) -> (r: Self) {
        *self
    }
}

impl Same for TransitionKind {
    fn same(&self, other: &Self) -> (r: bool) {
        *self == *other
    }
}

/// A state of a task.
#[derive(Debug, PartialEq, Eq)]
pub struct TaskNode {
    pub id: NodeId,
    pub constraints: Vec<ConstraintDelta>,
    pub result_obligation: Option<Obligation>,
    pub evidence_obligation: Option<Obligation>,
    pub terminal: bool,
}

/// What a [`TaskNode`] holds.
#[verifier::ext_equal]
pub struct TaskNodeView {
    pub id: Seq<char>,
    pub constraints: Seq<ConstraintDeltaView>,
    pub result_obligation: Option<ObligationView>,
    pub evidence_obligation: Option<ObligationView>,
    pub terminal: bool,
}

impl DeepView for TaskNode {
    type V = TaskNodeView;

    open spec fn deep_view(&self) -> Self::V {
        TaskNodeView {
            id: self.id.deep_view(),
            constraints: self.constraints.deep_view(),
            result_obligation: self.result_obligation.deep_view(),
            evidence_obligation: self.evidence_obligation.deep_view(),
            terminal: self.terminal.deep_view(),
        }
    }
}

impl Replica for TaskNode {
    fn replica(&self) -> (r: Self) {
        TaskNode {
            id: self.id.replica(),
            constraints: self.constraints.replica(),
            result_obligation: self.result_obligation.replica(),
            evidence_obligation: self.evidence_obligation.replica(),
            terminal: self.terminal.replica(),
        }
    }
}

impl Clone for TaskNode {
    fn clone(&self) -> (r: Self)
        ensures
            r.deep_view() == self.deep_view(),
    {
        self.replica()
    }
}

impl Same for TaskNode {
    fn same(&self, other: &Self) -> (r: bool) {
        self.id.same(&other.id)
            && self.constraints.same(&other.constraints)
            && self.result_obligation.same(&other.result_obligation)
            && self.evidence_obligation.same(&other.evidence_obligation)
            && self.terminal.same(&other.terminal)
    }
}

/// A step from one state of a task to another.
#[derive(Debug, PartialEq, Eq)]
pub struct TaskTransition {
    pub id: TransitionId,
    pub from: NodeId,
    pub to: NodeId,
    pub kind: TransitionKind,
}

/// What a [`TaskTransition`] holds.
#[verifier::ext_equal]
pub struct TaskTransitionView {
    pub id: Seq<char>,
    pub from: Seq<char>,
    pub to: Seq<char>,
    pub kind: TransitionKind,
}

impl DeepView for TaskTransition {
    type V = TaskTransitionView;

    open spec fn deep_view(&self) -> Self::V {
        TaskTransitionView {
            id: self.id.deep_view(),
            from: self.from.deep_view(),
            to: self.to.deep_view(),
            kind: self.kind.deep_view(),
        }
    }
}

impl Replica for TaskTransition {
    fn replica(&self) -> (r: Self) {
        TaskTransition {
            id: self.id.replica(),
            from: self.from.replica(),
            to: self.to.replica(),
            kind: self.kind.replica(),
        }
    }
}

impl Clone for TaskTransition {
    fn clone(&self) -> (r: Self)
        ensures
            r.deep_view() == self.deep_view(),
    {
        self.replica()
    }
}

impl Same for TaskTransition {
    fn same(&self, other: &Self) -> (r: bool) {
        self.id.same(&other.id)
            && self.from.same(&other.from)
            && self.to.same(&other.to)
            && self.kind.same(&other.kind)
    }
}

/// A task as it is authored.
#[derive(Debug, PartialEq, Eq)]
pub struct TaskCase {
    pub id: String,
    pub version: String,
    pub start: NodeId,
    pub nodes: Vec<TaskNode>,
    pub transitions: Vec<TaskTransition>,
}

/// What a [`TaskCase`] holds.
#[verifier::ext_equal]
pub struct TaskCaseView {
    pub id: Seq<char>,
    pub version: Seq<char>,
    pub start: Seq<char>,
    pub nodes: Seq<TaskNodeView>,
    pub transitions: Seq<TaskTransitionView>,
}

impl DeepView for TaskCase {
    type V = TaskCaseView;

    open spec fn deep_view(&self) -> Self::V {
        TaskCaseView {
            id: self.id.deep_view(),
            version: self.version.deep_view(),
            start: self.start.deep_view(),
            nodes: self.nodes.deep_view(),
            transitions: self.transitions.deep_view(),
        }
    }
}

impl Replica for TaskCase {
    fn replica(&self) -> (r: Self) {
        TaskCase {
            id: self.id.replica(),
            version: self.version.replica(),
            start: self.start.replica(),
            nodes: self.nodes.replica(),
            transitions: self.transitions.replica(),
        }
    }
}

impl Clone for TaskCase {
    fn clone(&self) -> (r: Self)
        ensures
            r.deep_view() == self.deep_view(),
    {
        self.replica()
    }
}

impl Same for TaskCase {
    fn same(&self, other: &Self) -> (r: bool) {
        self.id.same(&other.id)
            && self.version.same(&other.version)
            && self.start.same(&other.start)
            && self.nodes.same(&other.nodes)
            && self.transitions.same(&other.transitions)
    }
}

/// A task, validated and indexed.
#[derive(Debug, PartialEq, Eq)]
pub struct TaskGraph {
    pub case_id: String,
    pub version: String,
    pub start: NodeId,
    pub nodes: TextMap<TaskNode>,
    pub transitions: TextMap<TaskTransition>,
}

/// What a [`TaskGraph`] holds.
#[verifier::ext_equal]
pub struct TaskGraphView {
    pub case_id: Seq<char>,
    pub version: Seq<char>,
    pub start: Seq<char>,
    pub nodes: Map<Seq<char>, TaskNodeView>,
    pub transitions: Map<Seq<char>, TaskTransitionView>,
}

impl DeepView for TaskGraph {
    type V = TaskGraphView;

    open spec fn deep_view(&self) -> Self::V {
        TaskGraphView {
            case_id: self.case_id.deep_view(),
            version: self.version.deep_view(),
            start: self.start.deep_view(),
            nodes: self.nodes.deep_view(),
            transitions: self.transitions.deep_view(),
        }
    }
}

impl Replica for TaskGraph {
    fn replica(&self) -> (r: Self) {
        TaskGraph {
            case_id: self.case_id.replica(),
            version: self.version.replica(),
            start: self.start.replica(),
            nodes: self.nodes.replica(),
            transitions: self.transitions.replica(),
        }
    }
}

impl Clone for TaskGraph {
    fn clone(&self) -> (r: Self)
        ensures
            r.deep_view() == self.deep_view(),
    {
        self.replica()
    }
}

impl Same for TaskGraph {
    fn same(&self, other: &Self) -> (r: bool) {
        self.case_id.same(&other.case_id)
            && self.version.same(&other.version)
            && self.start.same(&other.start)
            && self.nodes.same(&other.nodes)
            && self.transitions.same(&other.transitions)
    }
}

/// The name that an operation declares.
pub open spec fn declared_id(operation: ConstraintOperationView) -> Option<Seq<char>> {
    match operation {
        ConstraintOperationView::Add { id, value: _ } => Some(id),
        ConstraintOperationView::Replace { target: _, id, value: _ } => Some(id),
        ConstraintOperationView::Remove { target: _ } => None,
    }
}

impl ConstraintOperation {
    /// The name that the operation declares.
    pub fn id(&self) -> (r: Option<&ConstraintId>)
        ensures
            match r {
                Some(id) => declared_id(self.deep_view()) == Some(id.deep_view()),
                None => declared_id(self.deep_view()) is None,
            },
    {
        match self {
            ConstraintOperation::Add { id, value: _ } => Some(id),
            ConstraintOperation::Replace { target: _, id, value: _ } => Some(id),
            ConstraintOperation::Remove { target: _ } => None,
        }
    }
}

/// What is wrong with a task.
pub open spec fn bad_graph(message: Seq<char>) -> EvalErrorView {
    EvalErrorView::InvalidTaskGraph(message)
}

/// The nodes by their names, unless a name is blank or used twice.
pub open spec fn nodes_indexed(nodes: Seq<TaskNodeView>) -> core::result::Result<
    Map<Seq<char>, TaskNodeView>,
    EvalErrorView,
>
    decreases nodes.len(),
{
    if nodes.len() == 0 {
        Ok(Map::empty())
    } else {
        let node = nodes.last();
        match nodes_indexed(nodes.drop_last()) {
            Err(error) => Err(error),
            Ok(index) => if is_blank(node.id) {
                Err(bad_graph("node id is empty"@))
            } else if index.contains_key(node.id) {
                Err(bad_graph("duplicate node id"@))
            } else {
                Ok(index.insert(node.id, node))
            },
        }
    }
}

proof fn lemma_nodes_prefix(nodes: Seq<TaskNodeView>, n: int)
    requires
        0 <= n <= nodes.len(),
        nodes_indexed(nodes.take(n)) is Err,
    ensures
        nodes_indexed(nodes) == nodes_indexed(nodes.take(n)),
    decreases nodes.len() - n,
{
    if n < nodes.len() {
        assert(nodes.take(n + 1).drop_last() =~= nodes.take(n));
        lemma_nodes_prefix(nodes, n + 1);
    } else {
        assert(nodes.take(n) =~= nodes);
    }
}

fn index_nodes(nodes: &Vec<TaskNode>) -> (r: Result<TextMap<TaskNode>>)
    ensures
        outcome_of(r) == nodes_indexed(nodes.deep_view()),
{
    let ghost views = nodes.deep_view();
    let mut index: TextMap<TaskNode> = TextMap::new();
    assert(views.take(0) =~= Seq::<TaskNodeView>::empty());
    assert(index.deep_view() =~= Map::<Seq<char>, TaskNodeView>::empty());
    for i in 0..nodes.len()
        invariant
            views == nodes.deep_view(),
            nodes_indexed(views.take(i as int)) == Ok::<
                Map<Seq<char>, TaskNodeView>,
                EvalErrorView,
            >(index.deep_view()),
    {
        let node = &nodes[i];
        assert(views.take(i + 1).drop_last() =~= views.take(i as int));
        assert(views.take(i + 1).last() == node.deep_view());
        if blank(node.id.0.as_str()) {
            proof {
                lemma_nodes_prefix(views, i + 1);
            }
            return Err(EvalError::InvalidTaskGraph("node id is empty".to_owned()));
        }
        if index.contains_key(node.id.0.as_str()) {
            proof {
                lemma_nodes_prefix(views, i + 1);
            }
            return Err(EvalError::InvalidTaskGraph("duplicate node id".to_owned()));
        }
        index = index.with(node.id.0.as_str(), node.replica());
    }
    assert(views.take(nodes.len() as int) =~= views);
    Ok(index)
}

/// The transitions by their names, unless a name is blank or used twice, or a transition leads
/// from or to a node that does not exist.
pub open spec fn transitions_indexed(
    nodes: Map<Seq<char>, TaskNodeView>,
    transitions: Seq<TaskTransitionView>,
) -> core::result::Result<Map<Seq<char>, TaskTransitionView>, EvalErrorView>
    decreases transitions.len(),
{
    if transitions.len() == 0 {
        Ok(Map::empty())
    } else {
        let transition = transitions.last();
        match transitions_indexed(nodes, transitions.drop_last()) {
            Err(error) => Err(error),
            Ok(index) => if is_blank(transition.id) {
                Err(bad_graph("transition id is empty"@))
            } else if !nodes.contains_key(transition.from) || !nodes.contains_key(transition.to) {
                Err(
                    bad_graph(
                        "transition "@ + transition.id + " references an unknown node"@,
                    ),
                )
            } else if index.contains_key(transition.id) {
                Err(bad_graph("duplicate transition id"@))
            } else {
                Ok(index.insert(transition.id, transition))
            },
        }
    }
}

proof fn lemma_transitions_prefix(
    nodes: Map<Seq<char>, TaskNodeView>,
    transitions: Seq<TaskTransitionView>,
    n: int,
)
    requires
        0 <= n <= transitions.len(),
        transitions_indexed(nodes, transitions.take(n)) is Err,
    ensures
        transitions_indexed(nodes, transitions) == transitions_indexed(nodes, transitions.take(n)),
    decreases transitions.len() - n,
{
    if n < transitions.len() {
        assert(transitions.take(n + 1).drop_last() =~= transitions.take(n));
        lemma_transitions_prefix(nodes, transitions, n + 1);
    } else {
        assert(transitions.take(n) =~= transitions);
    }
}

fn index_transitions(nodes: &TextMap<TaskNode>, transitions: &Vec<TaskTransition>) -> (r: Result<
    TextMap<TaskTransition>,
>)
    ensures
        outcome_of(r) == transitions_indexed(nodes.deep_view(), transitions.deep_view()),
{
    let ghost views = transitions.deep_view();
    let ghost known = nodes.deep_view();
    let mut index: TextMap<TaskTransition> = TextMap::new();
    assert(views.take(0) =~= Seq::<TaskTransitionView>::empty());
    assert(index.deep_view() =~= Map::<Seq<char>, TaskTransitionView>::empty());
    for i in 0..transitions.len()
        invariant
            views == transitions.deep_view(),
            known == nodes.deep_view(),
            transitions_indexed(known, views.take(i as int)) == Ok::<
                Map<Seq<char>, TaskTransitionView>,
                EvalErrorView,
            >(index.deep_view()),
    {
        let transition = &transitions[i];
        let id = transition.id.0.as_str();
        assert(views.take(i + 1).drop_last() =~= views.take(i as int));
        assert(views.take(i + 1).last() == transition.deep_view());
        if blank(id) {
            proof {
                lemma_transitions_prefix(known, views, i + 1);
            }
            return Err(EvalError::InvalidTaskGraph("transition id is empty".to_owned()));
        }
        if !nodes.contains_key(transition.from.0.as_str()) || !nodes.contains_key(
            transition.to.0.as_str(),
        ) {
            proof {
                lemma_transitions_prefix(known, views, i + 1);
            }
            return Err(
                EvalError::InvalidTaskGraph(
                    glue3("transition ", id, " references an unknown node"),
                ),
            );
        }
        if index.contains_key(id) {
            proof {
                lemma_transitions_prefix(known, views, i + 1);
            }
            return Err(EvalError::InvalidTaskGraph("duplicate transition id".to_owned()));
        }
        index = index.with(id, transition.replica());
    }
    assert(views.take(transitions.len() as int) =~= views);
    Ok(index)
}

/// The changes of the constraints by some nodes, in their order.
pub open spec fn deltas_of(
    nodes: Map<Seq<char>, TaskNodeView>,
    names: Seq<Seq<char>>,
) -> Seq<ConstraintDeltaView>
    decreases names.len(),
{
    if names.len() == 0 {
        Seq::empty()
    } else {
        deltas_of(nodes, names.drop_last()) + nodes[names.last()].constraints
    }
}

fn collect_deltas(nodes: &TextMap<TaskNode>) -> (r: Vec<ConstraintDelta>)
    ensures
        r.deep_view() == deltas_of(nodes.deep_view(), sorted_keys(nodes.deep_view().dom())),
{
    let ghost views = nodes.deep_view();
    assert(views.dom() =~= nodes@.dom());
    let n: usize = nodes.walk();
    let ghost names = nodes.keys();
    let mut r: Vec<ConstraintDelta> = Vec::new();
    assert(names.take(0) =~= Seq::<Seq<char>>::empty());
    assert(r.deep_view() =~= Seq::<ConstraintDeltaView>::empty());
    for i in 0..n
        invariant
            n == names.len(),
            names == nodes.keys(),
            views == nodes.deep_view(),
            views.dom() == nodes@.dom(),
            r.deep_view() == deltas_of(views, names.take(i as int)),
    {
        let node = nodes.value_at(i);
        assert(names.take(i + 1).drop_last() =~= names.take(i as int));
        let ghost before = r.deep_view();
        let ghost more = node.constraints.deep_view();
        assert(before + more.take(0) =~= before);
        for j in 0..node.constraints.len()
            invariant
                more == node.constraints.deep_view(),
                r.deep_view() == before + more.take(j as int),
        {
            let ghost so_far = r.deep_view();
            r.push(node.constraints[j].replica());
            assert(r.deep_view() =~= so_far.push(more[j as int]));
            assert(r.deep_view() =~= before + more.take(j + 1));
        }
        assert(more.take(node.constraints.len() as int) =~= more);
        assert(views[names[i as int]].constraints == more);
        assert(r.deep_view() =~= deltas_of(views, names.take(i + 1)));
    }
    assert(names.take(n as int) =~= names);
    r
}

/// The names that changes declare, unless one is declared twice.
pub open spec fn declared_ids(deltas: Seq<ConstraintDeltaView>) -> core::result::Result<
    Set<Seq<char>>,
    EvalErrorView,
>
    decreases deltas.len(),
{
    if deltas.len() == 0 {
        Ok(Set::empty())
    } else {
        match declared_ids(deltas.drop_last()) {
            Err(error) => Err(error),
            Ok(declared) => match declared_id(deltas.last().operation) {
                None => Ok(declared),
                Some(id) => if declared.contains(id) {
                    Err(bad_graph("duplicate constraint id: "@ + id))
                } else {
                    Ok(declared.insert(id))
                },
            },
        }
    }
}

proof fn lemma_declared_prefix(deltas: Seq<ConstraintDeltaView>, n: int)
    requires
        0 <= n <= deltas.len(),
        declared_ids(deltas.take(n)) is Err,
    ensures
        declared_ids(deltas) == declared_ids(deltas.take(n)),
    decreases deltas.len() - n,
{
    if n < deltas.len() {
        assert(deltas.take(n + 1).drop_last() =~= deltas.take(n));
        lemma_declared_prefix(deltas, n + 1);
    } else {
        assert(deltas.take(n) =~= deltas);
    }
}

/// A replacement of something that is not declared.
pub open spec fn replaces_unknown(delta: ConstraintDeltaView, declared: Set<Seq<char>>) -> bool {
    match delta.operation {
        ConstraintOperationView::Replace { target, id: _, value: _ } => !declared.contains(target),
        _ => false,
    }
}

/// What is wrong with the first replacement of something that is not declared.
pub open spec fn targets_checked(deltas: Seq<ConstraintDeltaView>, declared: Set<Seq<char>>) -> core::result::Result<
    (),
    EvalErrorView,
>
    decreases deltas.len(),
{
    if deltas.len() == 0 {
        Ok(())
    } else {
        match targets_checked(deltas.drop_last(), declared) {
            Err(error) => Err(error),
            Ok(_) => match deltas.last().operation {
                ConstraintOperationView::Replace { target, id: _, value: _ } => if declared.contains(
                    target,
                ) {
                    Ok(())
                } else {
                    Err(bad_graph("replacement targets unknown constraint: "@ + target))
                },
                _ => Ok(()),
            },
        }
    }
}

proof fn lemma_targets_prefix(deltas: Seq<ConstraintDeltaView>, declared: Set<Seq<char>>, n: int)
    requires
        0 <= n <= deltas.len(),
        targets_checked(deltas.take(n), declared) is Err,
    ensures
        targets_checked(deltas, declared) == targets_checked(deltas.take(n), declared),
    decreases deltas.len() - n,
{
    if n < deltas.len() {
        assert(deltas.take(n + 1).drop_last() =~= deltas.take(n));
        lemma_targets_prefix(deltas, declared, n + 1);
    } else {
        assert(deltas.take(n) =~= deltas);
    }
}

/// What is wrong with the names of the constraints of some nodes.
pub open spec fn constraints_checked(nodes: Map<Seq<char>, TaskNodeView>) -> core::result::Result<
    (),
    EvalErrorView,
> {
    let deltas = deltas_of(nodes, sorted_keys(nodes.dom()));
    match declared_ids(deltas) {
        Err(error) => Err(error),
        Ok(declared) => targets_checked(deltas, declared),
    }
}

/// Rejects a constraint that is declared twice, or a replacement of one that is not declared.
pub fn validate_constraint_ids(nodes: &TextMap<TaskNode>) -> (r: Result<()>)
    ensures
        outcome_of(r) == constraints_checked(nodes.deep_view()),
{
    let all = collect_deltas(nodes);
    let ghost deltas = all.deep_view();
    let mut declared: TextMap<bool> = TextMap::new();
    assert(deltas.take(0) =~= Seq::<ConstraintDeltaView>::empty());
    assert(declared@.dom() =~= Set::<Seq<char>>::empty());
    for i in 0..all.len()
        invariant
            deltas == all.deep_view(),
            deltas == deltas_of(nodes.deep_view(), sorted_keys(nodes.deep_view().dom())),
            declared_ids(deltas.take(i as int)) == Ok::<Set<Seq<char>>, EvalErrorView>(
                declared@.dom(),
            ),
    {
        assert(deltas.take(i + 1).drop_last() =~= deltas.take(i as int));
        assert(deltas.take(i + 1).last() == all@[i as int].deep_view());
        if let Some(id) = all[i].operation.id() {
            if declared.contains_key(id.0.as_str()) {
                proof {
                    lemma_declared_prefix(deltas, i + 1);
                }
                return Err(
                    EvalError::InvalidTaskGraph(
                        glue2("duplicate constraint id: ", id.0.as_str()),
                    ),
                );
            }
            let ghost before = declared@.dom();
            declared.insert(id.0.clone(), true);
            assert(declared@.dom() =~= before.insert(id.deep_view()));
        }
    }
    assert(deltas.take(all.len() as int) =~= deltas);
    assert(deltas.take(0) =~= Seq::<ConstraintDeltaView>::empty());
    for i in 0..all.len()
        invariant
            deltas == all.deep_view(),
            deltas == deltas_of(nodes.deep_view(), sorted_keys(nodes.deep_view().dom())),
            declared_ids(deltas) == Ok::<Set<Seq<char>>, EvalErrorView>(declared@.dom()),
            targets_checked(deltas.take(i as int), declared@.dom()) is Ok,
    {
        assert(deltas.take(i + 1).drop_last() =~= deltas.take(i as int));
        assert(deltas.take(i + 1).last() == all@[i as int].deep_view());
        if let ConstraintOperation::Replace { target, id: _, value: _ } = &all[i].operation {
            if !declared.contains_key(target.0.as_str()) {
                proof {
                    lemma_targets_prefix(deltas, declared@.dom(), i + 1);
                }
                return Err(
                    EvalError::InvalidTaskGraph(
                        glue2("replacement targets unknown constraint: ", target.0.as_str()),
                    ),
                );
            }
        }
    }
    assert(deltas.take(all.len() as int) =~= deltas);
    Ok(())
}

/// The graph that a case is compiled to: the case's own name and nodes are checked first, then the
/// start, the transitions and the constraints.
pub open spec fn compiled(
    case: TaskCaseView,
) -> core::result::Result<TaskGraphView, EvalErrorView> {
    if is_blank(case.id) {
        Err(bad_graph("case id is empty"@))
    } else if case.nodes.len() == 0 {
        Err(bad_graph("case has no nodes"@))
    } else {
        match nodes_indexed(case.nodes) {
            Err(error) => Err(error),
            Ok(nodes) => if !nodes.contains_key(case.start) {
                Err(bad_graph("start node does not exist: "@ + case.start))
            } else {
                match transitions_indexed(nodes, case.transitions) {
                    Err(error) => Err(error),
                    Ok(transitions) => match constraints_checked(nodes) {
                        Err(error) => Err(error),
                        Ok(_) => Ok(
                            TaskGraphView {
                                case_id: case.id,
                                version: case.version,
                                start: case.start,
                                nodes,
                                transitions,
                            },
                        ),
                    },
                }
            },
        }
    }
}

impl TaskCase {
    /// Validate and lower an authored case into an immutable, indexed program.
    pub fn compile(self) -> (r: Result<TaskGraph>)
        ensures
            outcome_of(r) == compiled(self.deep_view()),
    {
        if blank(self.id.as_str()) {
            return Err(EvalError::InvalidTaskGraph("case id is empty".to_owned()));
        }
        if self.nodes.len() == 0 {
            return Err(EvalError::InvalidTaskGraph("case has no nodes".to_owned()));
        }
        let nodes = match index_nodes(&self.nodes) {
            Ok(nodes) => nodes,
            Err(error) => return Err(error),
        };
        if !nodes.contains_key(self.start.0.as_str()) {
            return Err(
                EvalError::InvalidTaskGraph(
                    glue2("start node does not exist: ", self.start.0.as_str()),
                ),
            );
        }
        let transitions = match index_transitions(&nodes, &self.transitions) {
            Ok(transitions) => transitions,
            Err(error) => return Err(error),
        };
        match validate_constraint_ids(&nodes) {
            Ok(_) => {},
            Err(error) => return Err(error),
        }
        Ok(
            TaskGraph {
                case_id: self.id,
                version: self.version,
                start: self.start,
                nodes,
                transitions,
            },
        )
    }
}

/// The transitions of some names that leave a node, in their order.
pub open spec fn leaving(
    transitions: Map<Seq<char>, TaskTransitionView>,
    names: Seq<Seq<char>>,
    node: Seq<char>,
) -> Seq<TaskTransitionView>
    decreases names.len(),
{
    if names.len() == 0 {
        Seq::empty()
    } else {
        let rest = leaving(transitions, names.drop_last(), node);
        let transition = transitions[names.last()];
        if transition.from == node {
            rest.push(transition)
        } else {
            rest
        }
    }
}

/// A transition that must be there.
pub open spec fn required_transition(graph: TaskGraphView, id: Seq<char>) -> core::result::Result<
    TaskTransitionView,
    EvalErrorView,
> {
    if graph.transitions.contains_key(id) {
        Ok(graph.transitions[id])
    } else {
        Err(EvalErrorView::InvalidEnvironmentAction("unknown transition: "@ + id))
    }
}

/// A node that must be there.
pub open spec fn required_node(graph: TaskGraphView, id: Seq<char>) -> core::result::Result<
    TaskNodeView,
    EvalErrorView,
> {
    if graph.nodes.contains_key(id) {
        Ok(graph.nodes[id])
    } else {
        Err(bad_graph("unknown node: "@ + id))
    }
}

impl TaskGraph {
    /// The transitions that leave a node, in ascending order of their names.
    pub fn outgoing(&self, node: &NodeId) -> (r: Vec<&TaskTransition>)
        ensures
            r.deep_view() == leaving(
                self.deep_view().transitions,
                sorted_keys(self.deep_view().transitions.dom()),
                node.deep_view(),
            ),
    {
        let ghost views = self.transitions.deep_view();
        assert(views.dom() =~= self.transitions@.dom());
        let n: usize = self.transitions.walk();
        let ghost names = self.transitions.keys();
        let mut r: Vec<&TaskTransition> = Vec::new();
        assert(names.take(0) =~= Seq::<Seq<char>>::empty());
        assert(r.deep_view() =~= Seq::<TaskTransitionView>::empty());
        for i in 0..n
            invariant
                n == names.len(),
                names == self.transitions.keys(),
                views == self.transitions.deep_view(),
                views.dom() == self.transitions@.dom(),
                r.deep_view() == leaving(views, names.take(i as int), node.deep_view()),
        {
            let transition = self.transitions.value_at(i);
            assert(names.take(i + 1).drop_last() =~= names.take(i as int));
            let ghost before = r.deep_view();
            if transition.from.same(node) {
                r.push(transition);
                assert(r.deep_view() =~= before.push(transition.deep_view()));
            }
        }
        assert(names.take(n as int) =~= names);
        r
    }

    /// The transition of a name.
    pub fn transition(&self, id: &TransitionId) -> (r: Result<&TaskTransition>)
        ensures
            match r {
                Ok(transition) => required_transition(self.deep_view(), id.deep_view()) == Ok::<
                    TaskTransitionView,
                    EvalErrorView,
                >(transition.deep_view()),
                Err(error) => required_transition(self.deep_view(), id.deep_view()) == Err::<
                    TaskTransitionView,
                    EvalErrorView,
                >(error.deep_view()),
            },
    {
        match self.transitions.get(id.0.as_str()) {
            Some(transition) => Ok(transition),
            None => Err(
                EvalError::InvalidEnvironmentAction(
                    glue2("unknown transition: ", id.0.as_str()),
                ),
            ),
        }
    }

    /// The node of a name.
    pub fn node(&self, id: &NodeId) -> (r: Result<&TaskNode>)
        ensures
            match r {
                Ok(node) => required_node(self.deep_view(), id.deep_view()) == Ok::<
                    TaskNodeView,
                    EvalErrorView,
                >(node.deep_view()),
                Err(error) => required_node(self.deep_view(), id.deep_view()) == Err::<
                    TaskNodeView,
                    EvalErrorView,
                >(error.deep_view()),
            },
    {
        match self.nodes.get(id.0.as_str()) {
            Some(node) => Ok(node),
            None => Err(EvalError::InvalidTaskGraph(glue2("unknown node: ", id.0.as_str()))),
        }
    }
}

proof fn lemma_nodes_by_name(nodes: Seq<TaskNodeView>)
    requires
        nodes_indexed(nodes) is Ok,
    ensures
        ({
            let index = nodes_indexed(nodes)->Ok_0;
            forall|name: Seq<char>| #[trigger]
                index.contains_key(name) ==> index[name].id == name && !is_blank(name)
                    && nodes.contains(index[name])
        }),
        ({
            let index = nodes_indexed(nodes)->Ok_0;
            forall|i: int|
                0 <= i < nodes.len() ==> index.contains_key((#[trigger] nodes[i]).id)
                    && index[nodes[i].id] == nodes[i]
        }),
    decreases nodes.len(),
{
    if nodes.len() > 0 {
        let init = nodes.drop_last();
        lemma_nodes_by_name(init);
        let index = nodes_indexed(nodes)->Ok_0;
        let before = nodes_indexed(init)->Ok_0;
        assert forall|name: Seq<char>| #[trigger] index.contains_key(name) implies index[name].id
            == name && !is_blank(name) && nodes.contains(index[name]) by {
            if name == nodes.last().id {
                assert(nodes[nodes.len() - 1] == index[name]);
            } else {
                assert(before.contains_key(name));
                let i = choose|i: int| 0 <= i < init.len() && init[i] == before[name];
                assert(nodes[i] == index[name]);
            }
        }
        assert forall|i: int| 0 <= i < nodes.len() implies index.contains_key(
            (#[trigger] nodes[i]).id,
        ) && index[nodes[i].id] == nodes[i] by {
            if i < init.len() {
                assert(init[i] == nodes[i]);
            }
        }
    }
}

proof fn lemma_transitions_by_name(
    nodes: Map<Seq<char>, TaskNodeView>,
    transitions: Seq<TaskTransitionView>,
)
    requires
        transitions_indexed(nodes, transitions) is Ok,
    ensures
        ({
            let index = transitions_indexed(nodes, transitions)->Ok_0;
            forall|name: Seq<char>| #[trigger]
                index.contains_key(name) ==> index[name].id == name && !is_blank(name)
                    && nodes.contains_key(index[name].from) && nodes.contains_key(index[name].to)
        }),
        ({
            let index = transitions_indexed(nodes, transitions)->Ok_0;
            forall|i: int|
                0 <= i < transitions.len() ==> index.contains_key((#[trigger] transitions[i]).id)
                    && index[transitions[i].id] == transitions[i]
        }),
    decreases transitions.len(),
{
    if transitions.len() > 0 {
        let init = transitions.drop_last();
        lemma_transitions_by_name(nodes, init);
        let index = transitions_indexed(nodes, transitions)->Ok_0;
        let before = transitions_indexed(nodes, init)->Ok_0;
        assert forall|name: Seq<char>| #[trigger] index.contains_key(name) implies index[name].id
            == name && !is_blank(name) && nodes.contains_key(index[name].from)
            && nodes.contains_key(index[name].to) by {
            if name != transitions.last().id {
                assert(before.contains_key(name));
            }
        }
        assert forall|i: int| 0 <= i < transitions.len() implies index.contains_key(
            (#[trigger] transitions[i]).id,
        ) && index[transitions[i].id] == transitions[i] by {
            if i < init.len() {
                assert(init[i] == transitions[i]);
            }
        }
    }
}

/// A compiled graph holds every node and transition of its case under its own name, starts at a
/// node that it holds, and each of its transitions leads from a node that it holds to a node that
/// it holds.
pub proof fn law_compiled_graph_is_closed(case: TaskCaseView)
    requires
        compiled(case) is Ok,
    ensures
        ({
            let graph = compiled(case)->Ok_0;
            &&& graph.nodes.contains_key(graph.start)
            &&& forall|i: int|
                0 <= i < case.nodes.len() ==> graph.nodes.contains_key(
                    (#[trigger] case.nodes[i]).id,
                )
                    && graph.nodes[case.nodes[i].id] == case.nodes[i]
            &&& forall|i: int|
                0 <= i < case.transitions.len() ==> graph.transitions.contains_key(
                    (#[trigger] case.transitions[i]).id,
                ) && graph.transitions[case.transitions[i].id] == case.transitions[i]
            &&& forall|id: Seq<char>| #[trigger]
                graph.transitions.contains_key(id) ==> graph.transitions[id].id == id
                    && graph.nodes.contains_key(graph.transitions[id].from)
                    && graph.nodes.contains_key(graph.transitions[id].to)
            &&& forall|id: Seq<char>| #[trigger]
                graph.nodes.contains_key(id) ==> graph.nodes[id].id == id
        }),
{
    lemma_nodes_by_name(case.nodes);
    lemma_transitions_by_name(nodes_indexed(case.nodes)->Ok_0, case.transitions);
}

proof fn lemma_declared(deltas: Seq<ConstraintDeltaView>)
    requires
        declared_ids(deltas) is Ok,
    ensures
        forall|id: Seq<char>| #[trigger]
            declared_ids(deltas)->Ok_0.contains(id) <==> exists|i: int|
                0 <= i < deltas.len() && declared_id((#[trigger] deltas[i]).operation) == Some(id),
        forall|i: int, j: int|
            0 <= i < j < deltas.len() && declared_id((#[trigger] deltas[i]).operation) is Some
                ==> declared_id(deltas[i].operation) != declared_id(
                (#[trigger] deltas[j]).operation,
            ),
    decreases deltas.len(),
{
    if deltas.len() > 0 {
        let init = deltas.drop_last();
        lemma_declared(init);
        let before = declared_ids(init)->Ok_0;
        let declared = declared_ids(deltas)->Ok_0;
        assert forall|id: Seq<char>| #[trigger] declared.contains(id) <==> exists|i: int|
            0 <= i < deltas.len() && declared_id((#[trigger] deltas[i]).operation) == Some(id) by {
            if before.contains(id) {
                let i = choose|i: int|
                    0 <= i < init.len() && declared_id((#[trigger] init[i]).operation) == Some(id);
                assert(declared_id(deltas[i].operation) == Some(id));
            }
            if declared_id(deltas.last().operation) == Some(id) {
                assert(declared_id(deltas[deltas.len() - 1].operation) == Some(id));
            }
            if exists|i: int|
                0 <= i < deltas.len() && declared_id((#[trigger] deltas[i]).operation) == Some(id) {
                let i = choose|i: int|
                    0 <= i < deltas.len()
                        && declared_id((#[trigger] deltas[i]).operation) == Some(id);
                if i < init.len() {
                    assert(declared_id(init[i].operation) == Some(id));
                }
            }
        }
        assert forall|i: int, j: int|
            0 <= i < j < deltas.len() && declared_id((#[trigger] deltas[i]).operation)
                is Some implies declared_id(deltas[i].operation) != declared_id(
            (#[trigger] deltas[j]).operation,
        ) by {
            assert(init[i] == deltas[i]);
            if j < init.len() {
                assert(init[j] == deltas[j]);
            } else {
                assert(before.contains(declared_id(init[i].operation)->Some_0));
            }
        }
    }
}

proof fn lemma_targets(deltas: Seq<ConstraintDeltaView>, declared: Set<Seq<char>>)
    requires
        targets_checked(deltas, declared) is Ok,
    ensures
        forall|i: int| 0 <= i < deltas.len() ==> !replaces_unknown(#[trigger] deltas[i], declared),
    decreases deltas.len(),
{
    if deltas.len() > 0 {
        let init = deltas.drop_last();
        lemma_targets(init, declared);
        assert forall|i: int| 0 <= i < deltas.len() implies !replaces_unknown(
            #[trigger] deltas[i],
            declared,
        ) by {
            if i < init.len() {
                assert(init[i] == deltas[i]);
            }
        }
    }
}

/// In a compiled graph no constraint is declared twice, and every replacement replaces something
/// that is declared.
pub proof fn law_compiled_constraints_are_distinct(case: TaskCaseView)
    requires
        compiled(case) is Ok,
    ensures
        ({
            let nodes = compiled(case)->Ok_0.nodes;
            let deltas = deltas_of(nodes, sorted_keys(nodes.dom()));
            let declared = declared_ids(deltas)->Ok_0;
            &&& forall|i: int, j: int|
                0 <= i < j < deltas.len() && declared_id((#[trigger] deltas[i]).operation) is Some
                    ==> declared_id(deltas[i].operation) != declared_id(
                    (#[trigger] deltas[j]).operation,
                )
            &&& forall|i: int|
                0 <= i < deltas.len() ==> !replaces_unknown(#[trigger] deltas[i], declared)
            &&& forall|id: Seq<char>| #[trigger]
                declared.contains(id) <==> exists|i: int|
                    0 <= i < deltas.len()
                        && declared_id((#[trigger] deltas[i]).operation) == Some(id)
        }),
{
    let nodes = compiled(case)->Ok_0.nodes;
    let deltas = deltas_of(nodes, sorted_keys(nodes.dom()));
    lemma_declared(deltas);
    lemma_targets(deltas, declared_ids(deltas)->Ok_0);
}

} // verus!
