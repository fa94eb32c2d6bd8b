//! Differences between specifications.

use crate::json::{leveled, Json, JsonView};
use crate::revision::error::{Result, RevisionErrorView};
use crate::revision::ids::AgentId;
use crate::revision::merge::lookup;
use crate::revision::spec::{
    spec_checked, AgentBuildRef, AgentBuildRefView, AgentSpec, AgentSpecView, ComponentRef,
    ComponentRefView, ModelSpec,
    ModelSpecView, PromptSpec, PromptSpecView, RuntimePolicySpec, RuntimePolicySpecView,
    ToolInterfaceSpec, ToolInterfaceSpecView, ToolSpec, ToolSpecView,
};
use crate::same::{outcome_of, Replica, Same};
use crate::text_map::{add_keys, lemma_finite_is_walked, sorted_keys, TextMap};
use vstd::prelude::*;

verus! {

/// A value before and after.
#[derive(Debug, PartialEq, Eq)]
pub struct ValueChange<T> {
    pub before: T,
    pub after: T,
}

/// What a [`ValueChange`] holds.
#[verifier::ext_equal]
pub struct ValueChangeView<T> {
    pub before: T,
    pub after: T,
}

impl<T: DeepView> DeepView for ValueChange<T> {
    type V = ValueChangeView<T::V>;

    open spec fn deep_view(&self) -> Self::V {
        ValueChangeView { before: self.before.deep_view(), after: self.after.deep_view() }
    }
}

impl<T: Replica> Replica for ValueChange<T> {
    fn replica(&self) -> (r: Self) {
        ValueChange { before: self.before.replica(), after: self.after.replica() }
    }
}

impl<T: Replica> Clone for ValueChange<T> {
    fn clone(&self) -> (r: Self)
        ensures
            r.deep_view() == self.deep_view(),
    {
        self.replica()
    }
}

/// What changed in a tool.
#[derive(Debug, PartialEq, Eq)]
pub struct ToolDiff {
    pub interface: Option<ValueChange<ToolInterfaceSpec>>,
    pub configuration: Option<ValueChange<Json>>,
}

/// What a [`ToolDiff`] holds.
#[verifier::ext_equal]
pub struct ToolDiffView {
    pub interface: Option<ValueChangeView<ToolInterfaceSpecView>>,
    pub configuration: Option<ValueChangeView<JsonView>>,
}

impl DeepView for ToolDiff {
    type V = ToolDiffView;

    open spec fn deep_view(&self) -> Self::V {
        ToolDiffView {
            interface: self.interface.deep_view(),
            configuration: self.configuration.deep_view(),
        }
    }
}

impl Replica for ToolDiff {
    fn replica(&self) -> (r: Self) {
        ToolDiff {
            interface: self.interface.replica(),
            configuration: self.configuration.replica(),
        }
    }
}

impl Clone for ToolDiff {
    fn clone(&self) -> (r: Self)
        ensures
            r.deep_view() == self.deep_view(),
    {
        self.replica()
    }
}

/// What became of a tool.
#[derive(Debug, PartialEq, Eq)]
pub enum ToolChange {
    Added { name: String, tool: ToolSpec },
    Removed { name: String, tool: ToolSpec },
    Modified { name: String, diff: ToolDiff },
}

/// What a [`ToolChange`] holds.
#[verifier::ext_equal]
pub enum ToolChangeView {
    Added { name: Seq<char>, tool: ToolSpecView },
    Removed { name: Seq<char>, tool: ToolSpecView },
    Modified { name: Seq<char>, diff: ToolDiffView },
}

impl DeepView for ToolChange {
    type V = ToolChangeView;

    open spec fn deep_view(&self) -> Self::V {
        match self {
            ToolChange::Added { name, tool } => ToolChangeView::Added {
                name: name.deep_view(),
                tool: tool.deep_view(),
            },
            ToolChange::Removed { name, tool } => ToolChangeView::Removed {
                name: name.deep_view(),
                tool: tool.deep_view(),
            },
            ToolChange::Modified { name, diff } => ToolChangeView::Modified {
                name: name.deep_view(),
                diff: diff.deep_view(),
            },
        }
    }
}

impl Replica for ToolChange {
    fn replica(&self) -> (r: Self) {
        match self {
            ToolChange::Added { name, tool } => ToolChange::Added {
                name: name.replica(),
                tool: tool.replica(),
            },
            ToolChange::Removed { name, tool } => ToolChange::Removed {
                name: name.replica(),
                tool: tool.replica(),
            },
            ToolChange::Modified { name, diff } => ToolChange::Modified {
                name: name.replica(),
                diff: diff.replica(),
            },
        }
    }
}

impl Clone for ToolChange {
    fn clone(&self) -> (r: Self)
        ensures
            r.deep_view() == self.deep_view(),
    {
        self.replica()
    }
}

/// What changed between two specifications.
#[derive(Debug, PartialEq, Eq)]
pub struct AgentDiff {
    pub agent_id: Option<ValueChange<AgentId>>,
    pub model: Option<ValueChange<ModelSpec>>,
    pub prompts: Option<ValueChange<PromptSpec>>,
    pub tools: Vec<ToolChange>,
    pub runtime: Option<ValueChange<RuntimePolicySpec>>,
    pub build: Option<ValueChange<AgentBuildRef>>,
}

/// What an [`AgentDiff`] holds.
#[verifier::ext_equal]
pub struct AgentDiffView {
    pub agent_id: Option<ValueChangeView<Seq<char>>>,
    pub model: Option<ValueChangeView<ModelSpecView>>,
    pub prompts: Option<ValueChangeView<PromptSpecView>>,
    pub tools: Seq<ToolChangeView>,
    pub runtime: Option<ValueChangeView<RuntimePolicySpecView>>,
    pub build: Option<ValueChangeView<AgentBuildRefView>>,
}

impl DeepView for AgentDiff {
    type V = AgentDiffView;

    open spec fn deep_view(&self) -> Self::V {
        AgentDiffView {
            agent_id: self.agent_id.deep_view(),
            model: self.model.deep_view(),
            prompts: self.prompts.deep_view(),
            tools: self.tools.deep_view(),
            runtime: self.runtime.deep_view(),
            build: self.build.deep_view(),
        }
    }
}

impl Replica for AgentDiff {
    fn replica(&self) -> (r: Self) {
        AgentDiff {
            agent_id: self.agent_id.replica(),
            model: self.model.replica(),
            prompts: self.prompts.replica(),
            tools: self.tools.replica(),
            runtime: self.runtime.replica(),
            build: self.build.replica(),
        }
    }
}

impl Clone for AgentDiff {
    fn clone(&self) -> (r: Self)
        ensures
            r.deep_view() == self.deep_view(),
    {
        self.replica()
    }
}

/// A component as it is compared.
pub open spec fn leveled_component(component: ComponentRefView) -> ComponentRefView {
    ComponentRefView { configuration: leveled(component.configuration), ..component }
}

/// A model as it is compared.
pub open spec fn leveled_model(model: ModelSpecView) -> ModelSpecView {
    ModelSpecView { settings: leveled(model.settings), ..model }
}

/// The interface of a tool as it is compared.
pub open spec fn leveled_interface(interface: ToolInterfaceSpecView) -> ToolInterfaceSpecView {
    ToolInterfaceSpecView {
        parameters: leveled(interface.parameters),
        output_schema: leveled(interface.output_schema),
        ..interface
    }
}

/// A tool as it is compared.
pub open spec fn leveled_tool(tool: ToolSpecView) -> ToolSpecView {
    ToolSpecView {
        interface: leveled_interface(tool.interface),
        configuration: leveled(tool.configuration),
    }
}

/// A runtime policy as it is compared.
pub open spec fn leveled_runtime(runtime: RuntimePolicySpecView) -> RuntimePolicySpecView {
    RuntimePolicySpecView {
        context_builder: leveled_component(runtime.context_builder),
        hooks: runtime.hooks.map_values(|hook: ComponentRefView| leveled_component(hook)),
        ..runtime
    }
}

/// A specification as it is compared: as it is, but for the signs of zeros in its documents.
pub open spec fn leveled_spec(spec: AgentSpecView) -> AgentSpecView {
    AgentSpecView {
        model: leveled_model(spec.model),
        tools: spec.tools.map_values(|tool: ToolSpecView| leveled_tool(tool)),
        runtime: leveled_runtime(spec.runtime),
        ..spec
    }
}

fn same_component(a: &ComponentRef, b: &ComponentRef) -> (r: bool)
    ensures
        r == (leveled_component(a.deep_view()) == leveled_component(b.deep_view())),
{
    a.fqn.same(&b.fqn) && a.configuration.alike(&b.configuration)
}

fn same_model(a: &ModelSpec, b: &ModelSpec) -> (r: bool)
    ensures
        r == (leveled_model(a.deep_view()) == leveled_model(b.deep_view())),
{
    a.fqn.same(&b.fqn) && a.settings.alike(&b.settings)
}

fn same_interface(a: &ToolInterfaceSpec, b: &ToolInterfaceSpec) -> (r: bool)
    ensures
        r == (leveled_interface(a.deep_view()) == leveled_interface(b.deep_view())),
{
    a.name.same(&b.name) && a.description.same(&b.description) && a.parameters.alike(&b.parameters)
        && a.output_schema.alike(&b.output_schema)
}

fn same_tool(a: &ToolSpec, b: &ToolSpec) -> (r: bool)
    ensures
        r == (leveled_tool(a.deep_view()) == leveled_tool(b.deep_view())),
{
    same_interface(&a.interface, &b.interface) && a.configuration.alike(&b.configuration)
}

fn same_hooks(a: &Vec<ComponentRef>, b: &Vec<ComponentRef>) -> (r: bool)
    ensures
        r == (a.deep_view().map_values(|hook: ComponentRefView| leveled_component(hook))
            == b.deep_view().map_values(|hook: ComponentRefView| leveled_component(hook))),
{
    let ghost x = a.deep_view().map_values(|hook: ComponentRefView| leveled_component(hook));
    let ghost y = b.deep_view().map_values(|hook: ComponentRefView| leveled_component(hook));
    if a.len() != b.len() {
        assert(x.len() != y.len());
        return false;
    }
    for i in 0..a.len()
        invariant
            a.len() == b.len(),
            x == a.deep_view().map_values(|hook: ComponentRefView| leveled_component(hook)),
            y == b.deep_view().map_values(|hook: ComponentRefView| leveled_component(hook)),
            forall|j: int| 0 <= j < i ==> #[trigger] x[j] == y[j],
    {
        assert(x[i as int] == leveled_component(a[i as int].deep_view()));
        assert(y[i as int] == leveled_component(b[i as int].deep_view()));
        if !same_component(&a[i], &b[i]) {
            return false;
        }
    }
    assert(x =~= y);
    true
}

fn same_runtime(a: &RuntimePolicySpec, b: &RuntimePolicySpec) -> (r: bool)
    ensures
        r == (leveled_runtime(a.deep_view()) == leveled_runtime(b.deep_view())),
{
    same_component(&a.context_builder, &b.context_builder) && same_hooks(&a.hooks, &b.hooks)
        && a.turn_execution_limits.same(&b.turn_execution_limits)
}

/// A change, where there is one.
pub open spec fn change<T>(before: T, after: T, same: bool) -> Option<ValueChangeView<T>> {
    if same {
        None
    } else {
        Some(ValueChangeView { before, after })
    }
}

fn changed<T: Replica>(before: &T, after: &T, same: bool) -> (r: Option<ValueChange<T>>)
    ensures
        r.deep_view() == change(before.deep_view(), after.deep_view(), same),
{
    if same {
        None
    } else {
        Some(ValueChange { before: before.replica(), after: after.replica() })
    }
}

/// What changed in a tool.
pub open spec fn tool_diff(before: ToolSpecView, after: ToolSpecView) -> ToolDiffView {
    ToolDiffView {
        interface: change(
            before.interface,
            after.interface,
            leveled_interface(before.interface) == leveled_interface(after.interface),
        ),
        configuration: change(
            before.configuration,
            after.configuration,
            leveled(before.configuration) == leveled(after.configuration),
        ),
    }
}

impl ToolDiff {
    /// Tells whether nothing changed.
    pub fn is_empty(&self) -> (r: bool)
        ensures
            r == (self.deep_view().interface is None && self.deep_view().configuration is None),
    {
        self.interface.is_none() && self.configuration.is_none()
    }
}

/// What became of the tool of a name.
pub open spec fn tool_change(
    name: Seq<char>,
    before: Option<ToolSpecView>,
    after: Option<ToolSpecView>,
) -> Option<ToolChangeView> {
    match (before, after) {
        (None, Some(tool)) => Some(ToolChangeView::Added { name, tool }),
        (Some(tool), None) => Some(ToolChangeView::Removed { name, tool }),
        (Some(before), Some(after)) => if leveled_tool(before) == leveled_tool(after) {
            None
        } else {
            Some(ToolChangeView::Modified { name, diff: tool_diff(before, after) })
        },
        (None, None) => None,
    }
}

/// The changes of the tools of some names, in their order.
pub open spec fn tool_changes(
    before: Map<Seq<char>, ToolSpecView>,
    after: Map<Seq<char>, ToolSpecView>,
    names: Seq<Seq<char>>,
) -> Seq<ToolChangeView>
    decreases names.len(),
{
    if names.len() == 0 {
        Seq::empty()
    } else {
        let name = names.last();
        let rest = tool_changes(before, after, names.drop_last());
        match tool_change(name, lookup(before, name), lookup(after, name)) {
            Some(change) => rest.push(change),
            None => rest,
        }
    }
}

/// The names of the tools of two specifications, in ascending order.
pub open spec fn tool_names(
    before: Map<Seq<char>, ToolSpecView>,
    after: Map<Seq<char>, ToolSpecView>,
) -> Seq<Seq<char>> {
    sorted_keys(before.dom().union(after.dom()))
}

fn change_tool(name: &String, before: Option<&ToolSpec>, after: Option<&ToolSpec>) -> (r: Option<
    ToolChange,
>)
    ensures
        r.deep_view() == tool_change(
            name@,
            match before {
                Some(tool) => Some(tool.deep_view()),
                None => None,
            },
            match after {
                Some(tool) => Some(tool.deep_view()),
                None => None,
            },
        ),
{
    match (before, after) {
        (None, Some(tool)) => Some(ToolChange::Added { name: name.clone(), tool: tool.replica() }),
        (Some(tool), None) => Some(
            ToolChange::Removed { name: name.clone(), tool: tool.replica() },
        ),
        (Some(before), Some(after)) => {
            if same_tool(before, after) {
                None
            } else {
                Some(
                    ToolChange::Modified {
                        name: name.clone(),
                        diff: ToolDiff {
                            interface: changed(
                                &before.interface,
                                &after.interface,
                                same_interface(&before.interface, &after.interface),
                            ),
                            configuration: changed(
                                &before.configuration,
                                &after.configuration,
                                before.configuration.alike(&after.configuration),
                            ),
                        },
                    },
                )
            }
        },
        (None, None) => None,
    }
}

/// What became of each tool, in ascending order of the names.
pub fn diff_tools(before: &TextMap<ToolSpec>, after: &TextMap<ToolSpec>) -> (r: Vec<ToolChange>)
    ensures
        r.deep_view() == tool_changes(
            before.deep_view(),
            after.deep_view(),
            tool_names(before.deep_view(), after.deep_view()),
        ),
{
    let ghost bv = before.deep_view();
    let ghost av = after.deep_view();
    assert(bv.dom() =~= before@.dom());
    assert(av.dom() =~= after@.dom());
    let none: TextMap<bool> = TextMap::new();
    let keys = add_keys(add_keys(none, before), after);
    assert(keys@.dom() =~= bv.dom().union(av.dom()));
    let ghost names = tool_names(bv, av);
    let n: usize = keys.walk();
    let mut r: Vec<ToolChange> = Vec::new();
    assert(names.take(0) =~= Seq::<Seq<char>>::empty());
    assert(r.deep_view() =~= Seq::<ToolChangeView>::empty());
    for i in 0..n
        invariant
            n == names.len(),
            names == keys.keys(),
            bv == before.deep_view(),
            av == after.deep_view(),
            bv.dom() == before@.dom(),
            av.dom() == after@.dom(),
            r.deep_view() == tool_changes(bv, av, names.take(i as int)),
    {
        let name = keys.key_at(i);
        assert(names.take(i + 1).drop_last() =~= names.take(i as int));
        assert(names.take(i + 1).last() == name@);
        let ghost done = r.deep_view();
        if let Some(change) = change_tool(
            name,
            before.get(name.as_str()),
            after.get(name.as_str()),
        ) {
            r.push(change);
            assert(r.deep_view() =~= done.push(change.deep_view()));
        }
    }
    assert(names.take(n as int) =~= names);
    r
}

/// What changed between two specifications.
pub open spec fn agent_diff(before: AgentSpecView, after: AgentSpecView) -> AgentDiffView {
    AgentDiffView {
        agent_id: change(before.agent_id, after.agent_id, before.agent_id == after.agent_id),
        model: change(
            before.model,
            after.model,
            leveled_model(before.model) == leveled_model(after.model),
        ),
        prompts: change(before.prompts, after.prompts, before.prompts == after.prompts),
        tools: tool_changes(before.tools, after.tools, tool_names(before.tools, after.tools)),
        runtime: change(
            before.runtime,
            after.runtime,
            leveled_runtime(before.runtime) == leveled_runtime(after.runtime),
        ),
        build: change(before.build, after.build, before.build == after.build),
    }
}

/// Nothing changed.
pub open spec fn no_change(diff: AgentDiffView) -> bool {
    &&& diff.agent_id is None
    &&& diff.model is None
    &&& diff.prompts is None
    &&& diff.tools.len() == 0
    &&& diff.runtime is None
    &&& diff.build is None
}

impl AgentDiff {
    /// What changed between two specifications.
    pub fn between(before: &AgentSpec, after: &AgentSpec) -> (r: Self)
        ensures
            r.deep_view() == agent_diff(before.deep_view(), after.deep_view()),
    {
        AgentDiff {
            agent_id: changed(
                &before.agent_id,
                &after.agent_id,
                before.agent_id.same(&after.agent_id),
            ),
            model: changed(&before.model, &after.model, same_model(&before.model, &after.model)),
            prompts: changed(
                &before.prompts,
                &after.prompts,
                before.prompts.same(&after.prompts),
            ),
            tools: diff_tools(&before.tools, &after.tools),
            runtime: changed(
                &before.runtime,
                &after.runtime,
                same_runtime(&before.runtime, &after.runtime),
            ),
            build: changed(&before.build, &after.build, before.build.same(&after.build)),
        }
    }

    /// Tells whether nothing changed.
    pub fn is_empty(&self) -> (r: bool)
        ensures
            r == no_change(self.deep_view()),
    {
        self.agent_id.is_none() && self.model.is_none() && self.prompts.is_none()
            && self.tools.len() == 0 && self.runtime.is_none() && self.build.is_none()
    }
}

/// What changed between two specifications, unless one of them is not as it should be.
pub open spec fn diff_outcome(before: AgentSpecView, after: AgentSpecView) -> core::result::Result<
    AgentDiffView,
    RevisionErrorView,
> {
    match spec_checked(before) {
        Err(error) => Err(error),
        Ok(_) => match spec_checked(after) {
            Err(error) => Err(error),
            Ok(_) => Ok(agent_diff(before, after)),
        },
    }
}

impl AgentSpec {
    /// What changed from this specification to another.
    pub fn diff(&self, other: &Self) -> (r: Result<AgentDiff>)
        ensures
            outcome_of(r) == diff_outcome(self.deep_view(), other.deep_view()),
    {
        match self.validate() {
            Ok(_) => {},
            Err(error) => return Err(error),
        }
        match other.validate() {
            Ok(_) => {},
            Err(error) => return Err(error),
        }
        Ok(AgentDiff::between(self, other))
    }
}

/// The tool of a name as it is compared.
spec fn tool_at(tools: Map<Seq<char>, ToolSpecView>, name: Seq<char>) -> Option<ToolSpecView> {
    match lookup(tools, name) {
        Some(tool) => Some(leveled_tool(tool)),
        None => None,
    }
}

proof fn lemma_no_tool_changes(
    before: Map<Seq<char>, ToolSpecView>,
    after: Map<Seq<char>, ToolSpecView>,
    names: Seq<Seq<char>>,
)
    ensures
        tool_changes(before, after, names).len() == 0 <==> forall|i: int|
            0 <= i < names.len() ==> tool_at(before, #[trigger] names[i]) == tool_at(
                after,
                names[i],
            ),
    decreases names.len(),
{
    if names.len() > 0 {
        let init = names.drop_last();
        lemma_no_tool_changes(before, after, init);
        assert(forall|i: int| 0 <= i < init.len() ==> #[trigger] init[i] == names[i]);
        if tool_changes(before, after, names).len() == 0 {
            assert forall|i: int| 0 <= i < names.len() implies tool_at(before, #[trigger] names[i])
                == tool_at(after, names[i]) by {
                if i < init.len() {
                    assert(init[i] == names[i]);
                }
            }
        }
        if forall|i: int|
            0 <= i < names.len() ==> tool_at(before, #[trigger] names[i]) == tool_at(
                after,
                names[i],
            ) {
            assert(tool_at(before, names[names.len() - 1]) == tool_at(
                after,
                names[names.len() - 1],
            ));
        }
    }
}

/// Nothing changed between two specifications exactly where they compare equal.
pub proof fn law_empty_diff_means_equal(before: AgentSpecView, after: AgentSpecView)
    requires
        before.tools.dom().finite(),
        after.tools.dom().finite(),
    ensures
        no_change(agent_diff(before, after)) <==> leveled_spec(before) == leveled_spec(after),
{
    let names = tool_names(before.tools, after.tools);
    lemma_no_tool_changes(before.tools, after.tools, names);
    lemma_finite_is_walked(before.tools.dom().union(after.tools.dom()));
    let x = leveled_spec(before).tools;
    let y = leveled_spec(after).tools;
    assert forall|k: Seq<char>| #[trigger] tool_at(before.tools, k) == lookup(x, k) by {}
    assert forall|k: Seq<char>| #[trigger] tool_at(after.tools, k) == lookup(y, k) by {}
    if no_change(agent_diff(before, after)) {
        assert forall|k: Seq<char>| #[trigger] tool_at(before.tools, k) == tool_at(after.tools, k) by {
            if before.tools.contains_key(k) || after.tools.contains_key(k) {
                assert(names.contains(k));
                let i = choose|i: int| 0 <= i < names.len() && names[i] == k;
                assert(tool_at(before.tools, names[i]) == tool_at(after.tools, names[i]));
            }
        }
        assert(x =~= y) by {
            assert forall|k: Seq<char>| x.contains_key(k) <==> y.contains_key(k) by {
                assert(tool_at(before.tools, k) == tool_at(after.tools, k));
            }
            assert forall|k: Seq<char>| x.contains_key(k) implies x[k] == y[k] by {
                assert(tool_at(before.tools, k) == tool_at(after.tools, k));
            }
        }
        assert(leveled_spec(before) =~= leveled_spec(after));
    }
    if leveled_spec(before) == leveled_spec(after) {
        assert forall|i: int| 0 <= i < names.len() implies tool_at(before.tools, #[trigger] names[i])
            == tool_at(after.tools, names[i]) by {
            assert(tool_at(before.tools, names[i]) == lookup(x, names[i]));
            assert(tool_at(after.tools, names[i]) == lookup(y, names[i]));
        }
        assert(leveled_spec(before).model == leveled_model(before.model));
        assert(leveled_spec(after).model == leveled_model(after.model));
    }
}

/// Exchanging the two specifications exchanges before and after, and what was added with what was
/// removed.
pub proof fn law_diff_is_reversible(before: AgentSpecView, after: AgentSpecView)
    ensures
        agent_diff(after, before).tools.len() == agent_diff(before, after).tools.len(),
        forall|i: int|
            0 <= i < agent_diff(before, after).tools.len() ==> (#[trigger] agent_diff(
                after,
                before,
            ).tools[i]) == reversed_change(agent_diff(before, after).tools[i]),
        agent_diff(after, before).model == reversed(agent_diff(before, after).model),
        agent_diff(after, before).agent_id == reversed(agent_diff(before, after).agent_id),
        agent_diff(after, before).prompts == reversed(agent_diff(before, after).prompts),
        agent_diff(after, before).runtime == reversed(agent_diff(before, after).runtime),
        agent_diff(after, before).build == reversed(agent_diff(before, after).build),
{
    assert(before.tools.dom().union(after.tools.dom()) =~= after.tools.dom().union(
        before.tools.dom(),
    ));
    lemma_tool_changes_reversed(before.tools, after.tools, tool_names(before.tools, after.tools));
}

/// A change the other way round.
pub open spec fn reversed<T>(change: Option<ValueChangeView<T>>) -> Option<ValueChangeView<T>> {
    match change {
        Some(change) => Some(ValueChangeView { before: change.after, after: change.before }),
        None => None,
    }
}

/// The change of a tool the other way round.
pub open spec fn reversed_change(change: ToolChangeView) -> ToolChangeView {
    match change {
        ToolChangeView::Added { name, tool } => ToolChangeView::Removed { name, tool },
        ToolChangeView::Removed { name, tool } => ToolChangeView::Added { name, tool },
        ToolChangeView::Modified { name, diff } => ToolChangeView::Modified {
            name,
            diff: ToolDiffView {
                interface: reversed(diff.interface),
                configuration: reversed(diff.configuration),
            },
        },
    }
}

proof fn lemma_tool_changes_reversed(
    before: Map<Seq<char>, ToolSpecView>,
    after: Map<Seq<char>, ToolSpecView>,
    names: Seq<Seq<char>>,
)
    ensures
        tool_changes(after, before, names).len() == tool_changes(before, after, names).len(),
        forall|i: int|
            0 <= i < tool_changes(before, after, names).len() ==> (#[trigger] tool_changes(
                after,
                before,
                names,
            )[i]) == reversed_change(tool_changes(before, after, names)[i]),
    decreases names.len(),
{
    if names.len() > 0 {
        lemma_tool_changes_reversed(before, after, names.drop_last());
    }
}

} // verus!
