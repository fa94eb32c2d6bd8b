//! Environments that walk a task graph.

use crate::eval::error::{EvalError, EvalErrorView, Result};
use crate::eval::program::{
    required_node, ConstraintDelta, ConstraintDeltaView, ConstraintId, ConstraintOperation,
    ConstraintOperationView, NodeId, TaskGraph, TaskGraphView,
};
use crate::eval::state::{
    ConstraintApplication, ConstraintApplicationView, ConstraintExposure, ConstraintExposureView,
    ConstraintLedger, ConstraintLedgerView, EnvironmentState, EnvironmentStateView, ExposureLedger,
    ExposureOrigin, ExposureOriginView, ExposureRecord, ExposureRecordView,
};
use crate::json::{Json, JsonView};
use crate::same::{outcome_of, Replica};
use crate::text::{blank, glue2, glue4, is_blank};
use crate::text_map::{add_keys, TextMap};
use vstd::prelude::*;

verus! {

/// An action that an environment refuses.
pub open spec fn refused(message: Seq<char>) -> EvalErrorView {
    EvalErrorView::InvalidEnvironmentAction(message)
}

/// An action that is refused.
pub fn refuse(message: &str) -> (r: EvalError)
    ensures
        r.deep_view() == refused(message@),
{
    EvalError::InvalidEnvironmentAction(message.to_owned())
}

/// The number after a number; the largest number stays.
pub open spec fn next_number(n: u64) -> u64 {
    if n < u64::MAX {
        (n + 1) as u64
    } else {
        n
    }
}

/// The number after a number; the largest number stays.
pub fn following(n: u64) -> (r: u64)
    ensures
        r == next_number(n),
{
    if n < u64::MAX {
        n + 1
    } else {
        n
    }
}

/// The constraints after an operation. Something that holds cannot be added, and something that
/// does not hold can be neither replaced nor removed.
pub open spec fn operation_applied(
    active: Map<Seq<char>, JsonView>,
    operation: ConstraintOperationView,
) -> core::result::Result<Map<Seq<char>, JsonView>, Seq<char>> {
    match operation {
        ConstraintOperationView::Add { id, value } => if active.contains_key(id) {
            Err("constraint already active: "@ + id)
        } else {
            Ok(active.insert(id, value))
        },
        ConstraintOperationView::Replace { target, id, value } => if !active.contains_key(target) {
            Err("cannot replace inactive constraint: "@ + target)
        } else {
            Ok(active.remove(target).insert(id, value))
        },
        ConstraintOperationView::Remove { target } => if !active.contains_key(target) {
            Err("cannot remove inactive constraint: "@ + target)
        } else {
            Ok(active.remove(target))
        },
    }
}

/// Makes an operation on the constraints; one that fails leaves them as they are.
pub fn apply_operation(active: &mut TextMap<Json>, operation: &ConstraintOperation) -> (r: core::result::Result<
    (),
    String,
>)
    ensures
        match operation_applied(old(active).deep_view(), operation.deep_view()) {
            Ok(after) => r is Ok && final(active).deep_view() == after,
            Err(message) => r matches Err(text) && text@ == message && final(active).deep_view()
                == old(active).deep_view(),
        },
{
    let ghost before = active.deep_view();
    match operation {
        ConstraintOperation::Add { id, value } => {
            if active.contains_key(id.0.as_str()) {
                return Err(glue2("constraint already active: ", id.0.as_str()));
            }
            active.insert(id.0.clone(), value.replica());
            assert(active.deep_view() =~= before.insert(id.deep_view(), value.deep_view()));
        },
        ConstraintOperation::Replace { target, id, value } => {
            if active.remove(target.0.as_str()).is_none() {
                assert(active.deep_view() =~= before);
                return Err(glue2("cannot replace inactive constraint: ", target.0.as_str()));
            }
            active.insert(id.0.clone(), value.replica());
            assert(active.deep_view() =~= before.remove(target.deep_view()).insert(
                id.deep_view(),
                value.deep_view(),
            ));
        },
        ConstraintOperation::Remove { target } => {
            if active.remove(target.0.as_str()).is_none() {
                assert(active.deep_view() =~= before);
                return Err(glue2("cannot remove inactive constraint: ", target.0.as_str()));
            }
            assert(active.deep_view() =~= before.remove(target.deep_view()));
        },
    }
    Ok(())
}

/// The constraints after the changes that a node makes, or why the first that fails does.
pub open spec fn deltas_applied(
    ledger: ConstraintLedgerView,
    node: Seq<char>,
    deltas: Seq<ConstraintDeltaView>,
) -> core::result::Result<ConstraintLedgerView, Seq<char>>
    decreases deltas.len(),
{
    if deltas.len() == 0 {
        Ok(ledger)
    } else {
        let delta = deltas.last();
        match deltas_applied(ledger, node, deltas.drop_last()) {
            Err(message) => Err(message),
            Ok(before) => match operation_applied(before.active, delta.operation) {
                Err(message) => Err(message),
                Ok(active) => Ok(
                    ConstraintLedgerView {
                        active,
                        applied: before.applied.push(ConstraintApplicationView { node, delta }),
                    },
                ),
            },
        }
    }
}

proof fn lemma_deltas_prefix(
    ledger: ConstraintLedgerView,
    node: Seq<char>,
    deltas: Seq<ConstraintDeltaView>,
    n: int,
)
    requires
        0 <= n <= deltas.len(),
        deltas_applied(ledger, node, deltas.take(n)) is Err,
    ensures
        deltas_applied(ledger, node, deltas) == deltas_applied(ledger, node, deltas.take(n)),
    decreases deltas.len() - n,
{
    if n < deltas.len() {
        assert(deltas.take(n + 1).drop_last() =~= deltas.take(n));
        lemma_deltas_prefix(ledger, node, deltas, n + 1);
    } else {
        assert(deltas.take(n) =~= deltas);
    }
}

/// Makes the changes of a node; what comes back is new, so that a failure leaves nothing behind.
pub fn apply_deltas(ledger: &ConstraintLedger, node: &NodeId, deltas: &Vec<ConstraintDelta>) -> (r: core::result::Result<
    ConstraintLedger,
    String,
>)
    ensures
        match deltas_applied(ledger.deep_view(), node.deep_view(), deltas.deep_view()) {
            Ok(after) => r matches Ok(ledger) && ledger.deep_view() == after,
            Err(message) => r matches Err(text) && text@ == message,
        },
{
    let ghost views = deltas.deep_view();
    let ghost start = ledger.deep_view();
    let mut after = ledger.replica();
    assert(views.take(0) =~= Seq::<ConstraintDeltaView>::empty());
    for i in 0..deltas.len()
        invariant
            views == deltas.deep_view(),
            start == ledger.deep_view(),
            deltas_applied(start, node.deep_view(), views.take(i as int)) == Ok::<
                ConstraintLedgerView,
                Seq<char>,
            >(after.deep_view()),
    {
        assert(views.take(i + 1).drop_last() =~= views.take(i as int));
        assert(views.take(i + 1).last() == deltas@[i as int].deep_view());
        match apply_operation(&mut after.active, &deltas[i].operation) {
            Ok(_) => {},
            Err(message) => {
                proof {
                    lemma_deltas_prefix(start, node.deep_view(), views, i + 1);
                }
                return Err(message);
            },
        }
        let ghost applied = after.applied.deep_view();
        after.applied.push(
            ConstraintApplication { node: node.replica(), delta: deltas[i].replica() },
        );
        assert(after.applied.deep_view() =~= applied.push(
            ConstraintApplicationView { node: node.deep_view(), delta: views[i as int] },
        ));
    }
    assert(views.take(deltas.len() as int) =~= views);
    Ok(after)
}

/// The constraints after a node of a graph was entered.
pub open spec fn node_applied(graph: TaskGraphView, ledger: ConstraintLedgerView, id: Seq<char>) -> core::result::Result<
    ConstraintLedgerView,
    EvalErrorView,
> {
    match required_node(graph, id) {
        Err(error) => Err(error),
        Ok(node) => match deltas_applied(ledger, id, node.constraints) {
            Err(message) => Err(refused(message)),
            Ok(after) => Ok(after),
        },
    }
}

/// Enters a node of a graph.
pub fn apply_node(graph: &TaskGraph, ledger: &ConstraintLedger, id: &NodeId) -> (r: Result<
    ConstraintLedger,
>)
    ensures
        outcome_of(r) == node_applied(graph.deep_view(), ledger.deep_view(), id.deep_view()),
{
    let node = match graph.node(id) {
        Ok(node) => node,
        Err(error) => return Err(error),
    };
    match apply_deltas(ledger, id, &node.constraints) {
        Ok(after) => Ok(after),
        Err(message) => Err(EvalError::InvalidEnvironmentAction(message)),
    }
}

impl ExposureLedger {
    /// Tells whether a constraint is known.
    pub fn contains(&self, constraint: &ConstraintId) -> (r: bool)
        ensures
            r == self.deep_view().records.contains_key(constraint.deep_view()),
    {
        self.records.contains_key(constraint.0.as_str())
    }
}

/// The constraint that is made known.
pub open spec fn exposed_constraint(exposure: ConstraintExposureView) -> Seq<char> {
    match exposure {
        ConstraintExposureView::Disclose { constraint } => constraint,
        ConstraintExposureView::Derive { constraint, inputs: _, rule: _ } => constraint,
        ConstraintExposureView::ProvideContext { constraint, source: _ } => constraint,
    }
}

/// How the constraint is made known.
pub open spec fn exposure_origin(exposure: ConstraintExposureView) -> ExposureOriginView {
    match exposure {
        ConstraintExposureView::Disclose { constraint: _ } =>
            ExposureOriginView::ExplicitDisclosure,
        ConstraintExposureView::Derive { constraint: _, inputs, rule } =>
            ExposureOriginView::EnvironmentDerived {
            inputs,
            rule,
        },
        ConstraintExposureView::ProvideContext { constraint: _, source } =>
            ExposureOriginView::ContextProvided {
            source,
        },
    }
}

impl ConstraintExposure {
    /// The constraint that is made known.
    pub fn constraint(&self) -> (r: &ConstraintId)
        ensures
            r.deep_view() == exposed_constraint(self.deep_view()),
    {
        match self {
            ConstraintExposure::Disclose { constraint } => constraint,
            ConstraintExposure::Derive { constraint, inputs: _, rule: _ } => constraint,
            ConstraintExposure::ProvideContext { constraint, source: _ } => constraint,
        }
    }

    /// How the constraint is made known.
    pub fn origin(&self) -> (r: ExposureOrigin)
        ensures
            r.deep_view() == exposure_origin(self.deep_view()),
    {
        match self {
            ConstraintExposure::Disclose { constraint: _ } => ExposureOrigin::ExplicitDisclosure,
            ConstraintExposure::Derive { constraint: _, inputs, rule } =>
                ExposureOrigin::EnvironmentDerived {
                inputs: inputs.replica(),
                rule: rule.clone(),
            },
            ConstraintExposure::ProvideContext { constraint: _, source } =>
                ExposureOrigin::ContextProvided {
                source: source.clone(),
            },
        }
    }
}

/// What is wrong with the inputs of a derived constraint: the first that does not hold, or is not
/// known.
pub open spec fn inputs_checked(
    active: Set<Seq<char>>,
    available: Set<Seq<char>>,
    inputs: Seq<Seq<char>>,
    constraint: Seq<char>,
) -> core::result::Result<(), Seq<char>>
    decreases inputs.len(),
{
    if inputs.len() == 0 {
        Ok(())
    } else {
        match inputs_checked(active, available, inputs.drop_last(), constraint) {
            Err(message) => Err(message),
            Ok(_) => if !active.contains(inputs.last()) {
                Err(
                    "derived exposure references inactive input "@ + inputs.last() + " for "@
                        + constraint,
                )
            } else if !available.contains(inputs.last()) {
                Err(
                    "derived exposure references unexposed input "@ + inputs.last() + " for "@
                        + constraint,
                )
            } else {
                Ok(())
            },
        }
    }
}

proof fn lemma_inputs_prefix(
    active: Set<Seq<char>>,
    available: Set<Seq<char>>,
    inputs: Seq<Seq<char>>,
    constraint: Seq<char>,
    n: int,
)
    requires
        0 <= n <= inputs.len(),
        inputs_checked(active, available, inputs.take(n), constraint) is Err,
    ensures
        inputs_checked(active, available, inputs, constraint) == inputs_checked(
            active,
            available,
            inputs.take(n),
            constraint,
        ),
    decreases inputs.len() - n,
{
    if n < inputs.len() {
        assert(inputs.take(n + 1).drop_last() =~= inputs.take(n));
        lemma_inputs_prefix(active, available, inputs, constraint, n + 1);
    } else {
        assert(inputs.take(n) =~= inputs);
    }
}

fn check_inputs(
    active: &TextMap<Json>,
    available: &TextMap<bool>,
    inputs: &Vec<ConstraintId>,
    constraint: &ConstraintId,
) -> (r: core::result::Result<(), String>)
    ensures
        match inputs_checked(
            active@.dom(),
            available@.dom(),
            inputs.deep_view(),
            constraint.deep_view(),
        ) {
            Ok(_) => r is Ok,
            Err(message) => r matches Err(text) && text@ == message,
        },
{
    let ghost views = inputs.deep_view();
    assert(views.take(0) =~= Seq::<Seq<char>>::empty());
    for i in 0..inputs.len()
        invariant
            views == inputs.deep_view(),
            inputs_checked(
                active@.dom(),
                available@.dom(),
                views.take(i as int),
                constraint.deep_view(),
            ) is Ok,
    {
        let input = inputs[i].0.as_str();
        assert(views.take(i + 1).drop_last() =~= views.take(i as int));
        assert(views.take(i + 1).last() == input@);
        if !active.contains_key(input) {
            proof {
                lemma_inputs_prefix(
                    active@.dom(),
                    available@.dom(),
                    views,
                    constraint.deep_view(),
                    i + 1,
                );
            }
            return Err(
                glue4(
                    "derived exposure references inactive input ",
                    input,
                    " for ",
                    constraint.0.as_str(),
                ),
            );
        }
        if !available.contains_key(input) {
            proof {
                lemma_inputs_prefix(
                    active@.dom(),
                    available@.dom(),
                    views,
                    constraint.deep_view(),
                    i + 1,
                );
            }
            return Err(
                glue4(
                    "derived exposure references unexposed input ",
                    input,
                    " for ",
                    constraint.0.as_str(),
                ),
            );
        }
    }
    assert(views.take(inputs.len() as int) =~= views);
    Ok(())
}

/// What is wrong with making a constraint known, given what holds and what is known before.
pub open spec fn exposure_checked(
    active: Set<Seq<char>>,
    available: Set<Seq<char>>,
    exposure: ConstraintExposureView,
) -> core::result::Result<(), Seq<char>> {
    let constraint = exposed_constraint(exposure);
    if !active.contains(constraint) {
        Err("exposure references inactive constraint: "@ + constraint)
    } else if available.contains(constraint) {
        Err("constraint is already exposed: "@ + constraint)
    } else {
        match exposure {
            ConstraintExposureView::Disclose { constraint: _ } => Ok(()),
            ConstraintExposureView::Derive { constraint: _, inputs, rule } => if inputs.len() == 0 {
                Err("derived exposure has no inputs: "@ + constraint)
            } else if is_blank(rule) {
                Err("derived exposure has an empty rule: "@ + constraint)
            } else {
                inputs_checked(active, available, inputs, constraint)
            },
            ConstraintExposureView::ProvideContext { constraint: _, source } => if is_blank(
                source,
            ) {
                Err("context-provided exposure has an empty source: "@ + constraint)
            } else {
                Ok(())
            },
        }
    }
}

fn check_exposure(
    active: &TextMap<Json>,
    available: &TextMap<bool>,
    exposure: &ConstraintExposure,
) -> (r: core::result::Result<(), String>)
    ensures
        match exposure_checked(active@.dom(), available@.dom(), exposure.deep_view()) {
            Ok(_) => r is Ok,
            Err(message) => r matches Err(text) && text@ == message,
        },
{
    let constraint = exposure.constraint();
    let name = constraint.0.as_str();
    if !active.contains_key(name) {
        return Err(glue2("exposure references inactive constraint: ", name));
    }
    if available.contains_key(name) {
        return Err(glue2("constraint is already exposed: ", name));
    }
    match exposure {
        ConstraintExposure::Disclose { constraint: _ } => Ok(()),
        ConstraintExposure::Derive { constraint: _, inputs, rule } => {
            if inputs.len() == 0 {
                return Err(glue2("derived exposure has no inputs: ", name));
            }
            if blank(rule.as_str()) {
                return Err(glue2("derived exposure has an empty rule: ", name));
            }
            check_inputs(active, available, inputs, constraint)
        },
        ConstraintExposure::ProvideContext { constraint: _, source } => {
            if blank(source.as_str()) {
                return Err(glue2("context-provided exposure has an empty source: ", name));
            }
            Ok(())
        },
    }
}

/// The constraints that a number of exposures make known.
pub open spec fn exposed_constraints(exposures: Seq<ConstraintExposureView>) -> Set<Seq<char>>
    decreases exposures.len(),
{
    if exposures.len() == 0 {
        Set::empty()
    } else {
        exposed_constraints(exposures.drop_last()).insert(exposed_constraint(exposures.last()))
    }
}

/// The records of a number of exposures, or why the first that fails does. Each can build on those
/// before it.
pub open spec fn exposures_prepared(
    state: EnvironmentStateView,
    exposures: Seq<ConstraintExposureView>,
    sequence: u64,
) -> core::result::Result<Seq<ExposureRecordView>, EvalErrorView>
    decreases exposures.len(),
{
    if exposures.len() == 0 {
        Ok(Seq::empty())
    } else {
        let exposure = exposures.last();
        let init = exposures.drop_last();
        match exposures_prepared(state, init, sequence) {
            Err(error) => Err(error),
            Ok(records) => match exposure_checked(
                state.constraints.active.dom(),
                state.exposures.records.dom().union(exposed_constraints(init)),
                exposure,
            ) {
                Err(message) => Err(refused(message)),
                Ok(_) => Ok(
                    records.push(
                        ExposureRecordView {
                            constraint: exposed_constraint(exposure),
                            origin: exposure_origin(exposure),
                            observation_sequence: sequence,
                        },
                    ),
                ),
            },
        }
    }
}

proof fn lemma_exposures_prefix(
    state: EnvironmentStateView,
    exposures: Seq<ConstraintExposureView>,
    sequence: u64,
    n: int,
)
    requires
        0 <= n <= exposures.len(),
        exposures_prepared(state, exposures.take(n), sequence) is Err,
    ensures
        exposures_prepared(state, exposures, sequence) == exposures_prepared(
            state,
            exposures.take(n),
            sequence,
        ),
    decreases exposures.len() - n,
{
    if n < exposures.len() {
        assert(exposures.take(n + 1).drop_last() =~= exposures.take(n));
        lemma_exposures_prefix(state, exposures, sequence, n + 1);
    } else {
        assert(exposures.take(n) =~= exposures);
    }
}

/// Checks a number of exposures, and records them.
pub fn prepare_exposure_records(
    state: &EnvironmentState,
    exposures: &Vec<ConstraintExposure>,
    observation_sequence: u64,
) -> (r: Result<Vec<ExposureRecord>>)
    ensures
        outcome_of(r) == exposures_prepared(
            state.deep_view(),
            exposures.deep_view(),
            observation_sequence,
        ),
{
    let ghost views = exposures.deep_view();
    let ghost whole = state.deep_view();
    let ghost known = whole.exposures.records.dom();
    let active = &state.constraints.active;
    proof {
        assert(whole.constraints.active.dom() =~= active@.dom());
        assert(known =~= state.exposures.records@.dom());
    }
    let none: TextMap<bool> = TextMap::new();
    let mut available = add_keys(none, &state.exposures.records);
    let mut records: Vec<ExposureRecord> = Vec::new();
    proof {
        assert(views.take(0) =~= Seq::<ConstraintExposureView>::empty());
        assert(available@.dom() =~= known.union(exposed_constraints(views.take(0))));
        assert(records.deep_view() =~= Seq::<ExposureRecordView>::empty());
    }
    for i in 0..exposures.len()
        invariant
            views == exposures.deep_view(),
            whole == state.deep_view(),
            known == whole.exposures.records.dom(),
            *active == state.constraints.active,
            whole.constraints.active.dom() == active@.dom(),
            available@.dom() == known.union(exposed_constraints(views.take(i as int))),
            exposures_prepared(whole, views.take(i as int), observation_sequence) == Ok::<
                Seq<ExposureRecordView>,
                EvalErrorView,
            >(records.deep_view()),
    {
        let exposure = &exposures[i];
        assert(views.take(i + 1).drop_last() =~= views.take(i as int));
        assert(views.take(i + 1).last() == exposure.deep_view());
        match check_exposure(active, &available, exposure) {
            Ok(_) => {},
            Err(message) => {
                proof {
                    lemma_exposures_prefix(whole, views, observation_sequence, i + 1);
                }
                return Err(EvalError::InvalidEnvironmentAction(message));
            },
        }
        let ghost before = available@.dom();
        available.insert(exposure.constraint().0.clone(), true);
        let ghost done = records.deep_view();
        records.push(
            ExposureRecord {
                constraint: exposure.constraint().replica(),
                origin: exposure.origin(),
                observation_sequence,
            },
        );
        assert(available@.dom() =~= known.union(exposed_constraints(views.take(i + 1))));
        assert(records.deep_view() =~= exposures_prepared(
            whole,
            views.take(i + 1),
            observation_sequence,
        )->Ok_0);
    }
    assert(views.take(exposures.len() as int) =~= views);
    Ok(records)
}

} // verus!
