//! Specifications of agents.

use crate::digest::{digest_text, is_digest, text_digest};
use crate::json::{Json, JsonView};
use crate::revision::error::{revision_error_text, Result, RevisionError, RevisionErrorView};
use crate::revision::ids::{validate_component, AgentId, SpecDigest};
use crate::revision::spec_codec::{agent_spec_text, write_agent_spec};
use crate::same::{outcome_of, Replica, Same};
use crate::text::{blank, glue4, is_blank, same_text};
use crate::text_map::{sorted_keys, TextMap};
use vstd::prelude::*;

verus! {

/// A component of the runtime, by name, and how it is configured.
#[derive(Debug, PartialEq, Eq)]
pub struct ComponentRef {
    pub fqn: String,
    pub configuration: Json,
}

/// What a [`ComponentRef`] holds.
#[verifier::ext_equal]
pub struct ComponentRefView {
    pub fqn: Seq<char>,
    pub configuration: JsonView,
}

impl DeepView for ComponentRef {
    type V = ComponentRefView;

    open spec fn deep_view(&self) -> Self::V {
        ComponentRefView {
            fqn: self.fqn.deep_view(),
            configuration: self.configuration.deep_view(),
        }
    }
}

impl Replica for ComponentRef {
    fn replica(&self) -> (r: Self) {
        ComponentRef {
            fqn: self.fqn.replica(),
            configuration: self.configuration.replica(),
        }
    }
}

impl Clone for ComponentRef {
    fn clone(&self) -> (r: Self)
        ensures
            r.deep_view() == self.deep_view(),
    {
        self.replica()
    }
}

impl Same for ComponentRef {
    fn same(&self, other: &Self) -> (r: bool) {
        self.fqn.same(&other.fqn)
            && self.configuration.same(&other.configuration)
    }
}

/// The model of an agent.
#[derive(Debug, PartialEq, Eq)]
pub struct ModelSpec {
    pub fqn: String,
    pub settings: Json,
}

/// What a [`ModelSpec`] holds.
#[verifier::ext_equal]
pub struct ModelSpecView {
    pub fqn: Seq<char>,
    pub settings: JsonView,
}

impl DeepView for ModelSpec {
    type V = ModelSpecView;

    open spec fn deep_view(&self) -> Self::V {
        ModelSpecView {
            fqn: self.fqn.deep_view(),
            settings: self.settings.deep_view(),
        }
    }
}

impl Replica for ModelSpec {
    fn replica(&self) -> (r: Self) {
        ModelSpec {
            fqn: self.fqn.replica(),
            settings: self.settings.replica(),
        }
    }
}

impl Clone for ModelSpec {
    fn clone(&self) -> (r: Self)
        ensures
            r.deep_view() == self.deep_view(),
    {
        self.replica()
    }
}

impl Same for ModelSpec {
    fn same(&self, other: &Self) -> (r: bool) {
        self.fqn.same(&other.fqn)
            && self.settings.same(&other.settings)
    }
}

/// The prompts of an agent.
#[derive(Debug, PartialEq, Eq)]
pub struct PromptSpec {
    pub system: String,
    pub templates: TextMap<String>,
}

/// What a [`PromptSpec`] holds.
#[verifier::ext_equal]
pub struct PromptSpecView {
    pub system: Seq<char>,
    pub templates: Map<Seq<char>, Seq<char>>,
}

impl DeepView for PromptSpec {
    type V = PromptSpecView;

    open spec fn deep_view(&self) -> Self::V {
        PromptSpecView {
            system: self.system.deep_view(),
            templates: self.templates.deep_view(),
        }
    }
}

impl Replica for PromptSpec {
    fn replica(&self) -> (r: Self) {
        PromptSpec {
            system: self.system.replica(),
            templates: self.templates.replica(),
        }
    }
}

impl Clone for PromptSpec {
    fn clone(&self) -> (r: Self)
        ensures
            r.deep_view() == self.deep_view(),
    {
        self.replica()
    }
}

impl Same for PromptSpec {
    fn same(&self, other: &Self) -> (r: bool) {
        self.system.same(&other.system)
            && self.templates.same(&other.templates)
    }
}

/// A tool as the model sees it.
#[derive(Debug, PartialEq, Eq)]
pub struct ToolInterfaceSpec {
    pub name: String,
    pub description: String,
    pub parameters: Json,
    pub output_schema: Json,
}

/// What a [`ToolInterfaceSpec`] holds.
#[verifier::ext_equal]
pub struct ToolInterfaceSpecView {
    pub name: Seq<char>,
    pub description: Seq<char>,
    pub parameters: JsonView,
    pub output_schema: JsonView,
}

impl DeepView for ToolInterfaceSpec {
    type V = ToolInterfaceSpecView;

    open spec fn deep_view(&self) -> Self::V {
        ToolInterfaceSpecView {
            name: self.name.deep_view(),
            description: self.description.deep_view(),
            parameters: self.parameters.deep_view(),
            output_schema: self.output_schema.deep_view(),
        }
    }
}

impl Replica for ToolInterfaceSpec {
    fn replica(&self) -> (r: Self) {
        ToolInterfaceSpec {
            name: self.name.replica(),
            description: self.description.replica(),
            parameters: self.parameters.replica(),
            output_schema: self.output_schema.replica(),
        }
    }
}

impl Clone for ToolInterfaceSpec {
    fn clone(&self) -> (r: Self)
        ensures
            r.deep_view() == self.deep_view(),
    {
        self.replica()
    }
}

impl Same for ToolInterfaceSpec {
    fn same(&self, other: &Self) -> (r: bool) {
        self.name.same(&other.name)
            && self.description.same(&other.description)
            && self.parameters.same(&other.parameters)
            && self.output_schema.same(&other.output_schema)
    }
}

/// Application-defined identity of the build that supplies the agent runtime and its opaque tool implementations.
#[derive(Debug, PartialEq, Eq)]
pub struct AgentBuildRef {
    pub id: String,
}

/// What an [`AgentBuildRef`] holds.
#[verifier::ext_equal]
pub struct AgentBuildRefView {
    pub id: Seq<char>,
}

impl DeepView for AgentBuildRef {
    type V = AgentBuildRefView;

    open spec fn deep_view(&self) -> Self::V {
        AgentBuildRefView {
            id: self.id.deep_view(),
        }
    }
}

impl Replica for AgentBuildRef {
    fn replica(&self) -> (r: Self) {
        AgentBuildRef {
            id: self.id.replica(),
        }
    }
}

impl Clone for AgentBuildRef {
    fn clone(&self) -> (r: Self)
        ensures
            r.deep_view() == self.deep_view(),
    {
        self.replica()
    }
}

impl Same for AgentBuildRef {
    fn same(&self, other: &Self) -> (r: bool) {
        self.id.same(&other.id)
    }
}

/// A tool and how it is configured.
#[derive(Debug, PartialEq, Eq)]
pub struct ToolSpec {
    pub interface: ToolInterfaceSpec,
    pub configuration: Json,
}

/// What a [`ToolSpec`] holds.
#[verifier::ext_equal]
pub struct ToolSpecView {
    pub interface: ToolInterfaceSpecView,
    pub configuration: JsonView,
}

impl DeepView for ToolSpec {
    type V = ToolSpecView;

    open spec fn deep_view(&self) -> Self::V {
        ToolSpecView {
            interface: self.interface.deep_view(),
            configuration: self.configuration.deep_view(),
        }
    }
}

impl Replica for ToolSpec {
    fn replica(&self) -> (r: Self) {
        ToolSpec {
            interface: self.interface.replica(),
            configuration: self.configuration.replica(),
        }
    }
}

impl Clone for ToolSpec {
    fn clone(&self) -> (r: Self)
        ensures
            r.deep_view() == self.deep_view(),
    {
        self.replica()
    }
}

impl Same for ToolSpec {
    fn same(&self, other: &Self) -> (r: bool) {
        self.interface.same(&other.interface)
            && self.configuration.same(&other.configuration)
    }
}

/// How much a turn may do.
#[derive(Clone, Copy, Debug, PartialEq, Eq, Structural)]
pub struct TurnExecutionLimitsSpec {
    pub max_model_iterations: usize,
    pub max_function_calls: usize,
}

impl DeepView for TurnExecutionLimitsSpec {
    type V = TurnExecutionLimitsSpec;

    open spec fn deep_view(&self) -> Self::V {
        *self
    }
}

impl Replica for TurnExecutionLimitsSpec {
    fn replica(&self) -> (r: Self) {
        *self
    }
}

impl Same for TurnExecutionLimitsSpec {
    fn same(&self, other: &Self) -> (r: bool) {
        *self == *other
    }
}

/// How an agent is run.
#[derive(Debug, PartialEq, Eq)]
pub struct RuntimePolicySpec {
    pub context_builder: ComponentRef,
    pub hooks: Vec<ComponentRef>,
    pub turn_execution_limits: TurnExecutionLimitsSpec,
}

/// What a [`RuntimePolicySpec`] holds.
#[verifier::ext_equal]
pub struct RuntimePolicySpecView {
    pub context_builder: ComponentRefView,
    pub hooks: Seq<ComponentRefView>,
    pub turn_execution_limits: TurnExecutionLimitsSpec,
}

impl DeepView for RuntimePolicySpec {
    type V = RuntimePolicySpecView;

    open spec fn deep_view(&self) -> Self::V {
        RuntimePolicySpecView {
            context_builder: self.context_builder.deep_view(),
            hooks: self.hooks.deep_view(),
            turn_execution_limits: self.turn_execution_limits.deep_view(),
        }
    }
}

impl Replica for RuntimePolicySpec {
    fn replica(&self) -> (r: Self) {
        RuntimePolicySpec {
            context_builder: self.context_builder.replica(),
            hooks: self.hooks.replica(),
            turn_execution_limits: self.turn_execution_limits.replica(),
        }
    }
}

impl Clone for RuntimePolicySpec {
    fn clone(&self) -> (r: Self)
        ensures
            r.deep_view() == self.deep_view(),
    {
        self.replica()
    }
}

impl Same for RuntimePolicySpec {
    fn same(&self, other: &Self) -> (r: bool) {
        self.context_builder.same(&other.context_builder)
            && self.hooks.same(&other.hooks)
            && self.turn_execution_limits.same(&other.turn_execution_limits)
    }
}

/// The declared composition of an agent.
#[derive(Debug, PartialEq, Eq)]
pub struct AgentSpec {
    pub agent_id: AgentId,
    pub model: ModelSpec,
    pub prompts: PromptSpec,
    pub tools: TextMap<ToolSpec>,
    pub runtime: RuntimePolicySpec,
    pub build: AgentBuildRef,
}

/// What an [`AgentSpec`] holds.
#[verifier::ext_equal]
pub struct AgentSpecView {
    pub agent_id: Seq<char>,
    pub model: ModelSpecView,
    pub prompts: PromptSpecView,
    pub tools: Map<Seq<char>, ToolSpecView>,
    pub runtime: RuntimePolicySpecView,
    pub build: AgentBuildRefView,
}

impl DeepView for AgentSpec {
    type V = AgentSpecView;

    open spec fn deep_view(&self) -> Self::V {
        AgentSpecView {
            agent_id: self.agent_id.deep_view(),
            model: self.model.deep_view(),
            prompts: self.prompts.deep_view(),
            tools: self.tools.deep_view(),
            runtime: self.runtime.deep_view(),
            build: self.build.deep_view(),
        }
    }
}

impl Replica for AgentSpec {
    fn replica(&self) -> (r: Self) {
        AgentSpec {
            agent_id: self.agent_id.replica(),
            model: self.model.replica(),
            prompts: self.prompts.replica(),
            tools: self.tools.replica(),
            runtime: self.runtime.replica(),
            build: self.build.replica(),
        }
    }
}

impl Clone for AgentSpec {
    fn clone(&self) -> (r: Self)
        ensures
            r.deep_view() == self.deep_view(),
    {
        self.replica()
    }
}

impl Same for AgentSpec {
    fn same(&self, other: &Self) -> (r: bool) {
        self.agent_id.same(&other.agent_id)
            && self.model.same(&other.model)
            && self.prompts.same(&other.prompts)
            && self.tools.same(&other.tools)
            && self.runtime.same(&other.runtime)
            && self.build.same(&other.build)
    }
}

/// A component needs a name.
pub open spec fn component_checked(
    value: ComponentRefView,
) -> core::result::Result<(), RevisionErrorView> {
    if is_blank(value.fqn) {
        Err(RevisionErrorView::InvalidSpec("component FQN is empty"@))
    } else {
        Ok(())
    }
}

impl ComponentRef {
    /// Rejects a component without a name.
    pub fn validate(&self) -> (r: Result<()>)
        ensures
            outcome_of(r) == component_checked(self.deep_view()),
    {
        if blank(self.fqn.as_str()) {
            return Err(RevisionError::InvalidSpec("component FQN is empty".to_owned()));
        }
        Ok(())
    }
}

/// A model needs a name.
pub open spec fn model_checked(
    value: ModelSpecView,
) -> core::result::Result<(), RevisionErrorView> {
    if is_blank(value.fqn) {
        Err(RevisionErrorView::InvalidSpec("model provider and model are required"@))
    } else {
        Ok(())
    }
}

impl ModelSpec {
    /// Rejects a model without a name.
    pub fn validate(&self) -> (r: Result<()>)
        ensures
            outcome_of(r) == model_checked(self.deep_view()),
    {
        if blank(self.fqn.as_str()) {
            return Err(
                RevisionError::InvalidSpec("model provider and model are required".to_owned()),
            );
        }
        Ok(())
    }
}

/// A build needs an identity.
pub open spec fn build_checked(
    value: AgentBuildRefView,
) -> core::result::Result<(), RevisionErrorView> {
    if is_blank(value.id) {
        Err(RevisionErrorView::InvalidSpec("agent build id is empty"@))
    } else {
        Ok(())
    }
}

impl AgentBuildRef {
    /// Rejects a build without an identity.
    pub fn validate(&self) -> (r: Result<()>)
        ensures
            outcome_of(r) == build_checked(self.deep_view()),
    {
        if blank(self.id.as_str()) {
            return Err(RevisionError::InvalidSpec("agent build id is empty".to_owned()));
        }
        Ok(())
    }
}

/// A tool needs a name.
pub open spec fn interface_checked(
    value: ToolInterfaceSpecView,
) -> core::result::Result<(), RevisionErrorView> {
    if is_blank(value.name) {
        Err(RevisionErrorView::InvalidSpec("tool name is empty"@))
    } else {
        Ok(())
    }
}

impl ToolInterfaceSpec {
    /// Rejects a tool without a name.
    pub fn validate(&self) -> (r: Result<()>)
        ensures
            outcome_of(r) == interface_checked(self.deep_view()),
    {
        if blank(self.name.as_str()) {
            return Err(RevisionError::InvalidSpec("tool name is empty".to_owned()));
        }
        Ok(())
    }
}

impl ComponentRef {
    /// A component, unless its name is blank.
    pub fn new(fqn: String, configuration: Json) -> (r: Result<Self>)
        ensures
            outcome_of(r) == ({
                let component = ComponentRefView {
                    fqn: fqn@,
                    configuration: configuration.deep_view(),
                };
                match component_checked(component) {
                    Ok(_) => Ok::<ComponentRefView, RevisionErrorView>(component),
                    Err(error) => Err(error),
                }
            }),
    {
        let component = ComponentRef { fqn, configuration };
        match component.validate() {
            Ok(_) => Ok(component),
            Err(error) => Err(error),
        }
    }
}

/// No template of a prompt has a blank name.
pub open spec fn prompts_checked(value: PromptSpecView) -> core::result::Result<
    (),
    RevisionErrorView,
> {
    if exists|name: Seq<char>| #[trigger] value.templates.contains_key(name) && is_blank(name) {
        Err(RevisionErrorView::InvalidSpec("prompt extension name is empty"@))
    } else {
        Ok(())
    }
}

impl PromptSpec {
    /// Rejects a template without a name.
    pub fn validate(&self) -> (r: Result<()>)
        ensures
            outcome_of(r) == prompts_checked(self.deep_view()),
    {
        let n: usize = self.templates.walk();
        let ghost keys = self.templates.keys();
        assert(self.deep_view().templates.dom() =~= self.templates@.dom());
        for i in 0..n
            invariant
                n == keys.len(),
                keys == self.templates.keys(),
                self.deep_view().templates.dom() == self.templates@.dom(),
                forall|j: int| 0 <= j < i ==> !is_blank(#[trigger] keys[j]),
        {
            if blank(self.templates.key_at(i).as_str()) {
                assert(self.deep_view().templates.contains_key(keys[i as int]));
                return Err(RevisionError::InvalidSpec("prompt extension name is empty".to_owned()));
            }
        }
        assert forall|name: Seq<char>| #[trigger]
            self.deep_view().templates.contains_key(name) implies !is_blank(name) by {
            assert(self.templates@.contains_key(name));
            assert(keys.contains(name));
        }
        Ok(())
    }
}

/// A tool is listed under the name of its interface.
pub open spec fn tool_checked(value: ToolSpecView, expected_name: Seq<char>) -> core::result::Result<
    (),
    RevisionErrorView,
> {
    match interface_checked(value.interface) {
        Err(error) => Err(error),
        Ok(_) => if value.interface.name != expected_name {
            Err(
                RevisionErrorView::InvalidSpec(
                    "tool map key "@ + expected_name + " does not match interface name "@
                        + value.interface.name,
                ),
            )
        } else {
            Ok(())
        },
    }
}

impl ToolSpec {
    /// Rejects a tool without a name or under another name.
    pub fn validate(&self, expected_name: &str) -> (r: Result<()>)
        ensures
            outcome_of(r) == tool_checked(self.deep_view(), expected_name@),
    {
        match self.interface.validate() {
            Ok(_) => {},
            Err(error) => return Err(error),
        }
        if !same_text(self.interface.name.as_str(), expected_name) {
            return Err(
                RevisionError::InvalidSpec(
                    glue4(
                        "tool map key ",
                        expected_name,
                        " does not match interface name ",
                        self.interface.name.as_str(),
                    ),
                ),
            );
        }
        Ok(())
    }
}

/// The first of the tools, in the order of `names`, that is not as it should be.
pub open spec fn tools_checked(tools: Map<Seq<char>, ToolSpecView>, names: Seq<Seq<char>>) -> core::result::Result<
    (),
    RevisionErrorView,
>
    decreases names.len(),
{
    if names.len() == 0 {
        Ok(())
    } else {
        match tool_checked(tools[names[0]], names[0]) {
            Err(error) => Err(error),
            Ok(_) => tools_checked(tools, names.drop_first()),
        }
    }
}

/// Rejects the first tool that is not as it should be.
pub fn validate_tools(tools: &TextMap<ToolSpec>) -> (r: Result<()>)
    ensures
        outcome_of(r) == tools_checked(
            tools.deep_view(),
            sorted_keys(tools.deep_view().dom()),
        ),
{
    let n: usize = tools.walk();
    let ghost keys = tools.keys();
    let ghost views = tools.deep_view();
    assert(views.dom() =~= tools@.dom());
    assert(keys.skip(0) =~= keys);
    for i in 0..n
        invariant
            n == keys.len(),
            keys == tools.keys(),
            views == tools.deep_view(),
            views.dom() == tools@.dom(),
            tools_checked(views, keys) == tools_checked(views, keys.skip(i as int)),
    {
        assert(keys.skip(i as int)[0] == keys[i as int]);
        assert(keys.skip(i as int).drop_first() =~= keys.skip(i + 1));
        match tools.value_at(i).validate(tools.key_at(i).as_str()) {
            Ok(_) => {},
            Err(error) => return Err(error),
        }
    }
    Ok(())
}

/// The first of the hooks that is not as it should be.
pub open spec fn hooks_checked(hooks: Seq<ComponentRefView>) -> core::result::Result<
    (),
    RevisionErrorView,
> {
    if forall|i: int| 0 <= i < hooks.len() ==> (#[trigger] component_checked(hooks[i])) is Ok {
        Ok(())
    } else {
        Err(RevisionErrorView::InvalidSpec("component FQN is empty"@))
    }
}

/// The context builder and the hooks need names.
pub open spec fn policy_checked(value: RuntimePolicySpecView) -> core::result::Result<
    (),
    RevisionErrorView,
> {
    match component_checked(value.context_builder) {
        Err(error) => Err(error),
        Ok(_) => hooks_checked(value.hooks),
    }
}

impl RuntimePolicySpec {
    /// Rejects a component without a name.
    pub fn validate(&self) -> (r: Result<()>)
        ensures
            outcome_of(r) == policy_checked(self.deep_view()),
    {
        match self.context_builder.validate() {
            Ok(_) => {},
            Err(error) => return Err(error),
        }
        let ghost hooks = self.hooks.deep_view();
        for i in 0..self.hooks.len()
            invariant
                hooks == self.hooks.deep_view(),
                component_checked(self.context_builder.deep_view()) is Ok,
                forall|j: int| 0 <= j < i ==> (#[trigger] component_checked(hooks[j])) is Ok,
        {
            match self.hooks[i].validate() {
                Ok(_) => {},
                Err(error) => {
                    assert(component_checked(hooks[i as int]) is Err);
                    return Err(error);
                },
            }
        }
        Ok(())
    }
}

/// What is wrong with a specification: the agent's name first, then its model, prompts, tools,
/// runtime and build.
pub open spec fn spec_checked(value: AgentSpecView) -> core::result::Result<(), RevisionErrorView> {
    match agent_name_checked(value.agent_id) {
        Err(error) => Err(RevisionErrorView::InvalidSpec(revision_error_text(error))),
        Ok(_) => match model_checked(value.model) {
            Err(error) => Err(error),
            Ok(_) => match prompts_checked(value.prompts) {
                Err(error) => Err(error),
                Ok(_) => match tools_checked(value.tools, sorted_keys(value.tools.dom())) {
                    Err(error) => Err(error),
                    Ok(_) => match policy_checked(value.runtime) {
                        Err(error) => Err(error),
                        Ok(_) => build_checked(value.build),
                    },
                },
            },
        },
    }
}

/// What is wrong with the name of an agent.
pub open spec fn agent_name_checked(agent_id: Seq<char>) -> core::result::Result<
    (),
    RevisionErrorView,
> {
    crate::revision::ids::component_checked("agent id"@, agent_id)
}

impl AgentSpec {
    /// Rejects a specification that is not complete or not consistent.
    pub fn validate(&self) -> (r: Result<()>)
        ensures
            outcome_of(r) == spec_checked(self.deep_view()),
    {
        match validate_component("agent id", self.agent_id.0.as_str()) {
            Ok(_) => {},
            Err(error) => return Err(RevisionError::InvalidSpec(error.text())),
        }
        match self.model.validate() {
            Ok(_) => {},
            Err(error) => return Err(error),
        }
        match self.prompts.validate() {
            Ok(_) => {},
            Err(error) => return Err(error),
        }
        match validate_tools(&self.tools) {
            Ok(_) => {},
            Err(error) => return Err(error),
        }
        match self.runtime.validate() {
            Ok(_) => {},
            Err(error) => return Err(error),
        }
        self.build.validate()
    }

    /// The digest of the specification, unless it is not complete or not consistent.
    pub fn digest(&self) -> (r: Result<SpecDigest>)
        ensures
            outcome_of(r) == (match spec_checked(self.deep_view()) {
                Ok(_) => Ok::<Seq<char>, RevisionErrorView>(spec_digest(self.deep_view())),
                Err(error) => Err(error),
            }),
            r matches Ok(digest) ==> is_digest(digest.deep_view()),
    {
        match self.validate() {
            Ok(_) => {},
            Err(error) => return Err(error),
        }
        Ok(SpecDigest(digest_text(write_agent_spec(self).as_str())))
    }
}

/// The digest of a specification: that of its text.
pub open spec fn spec_digest(value: AgentSpecView) -> Seq<char> {
    text_digest(agent_spec_text(value))
}

} // verus!
