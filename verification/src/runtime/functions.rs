//! Functions that the model may call.

use crate::codec::{make_missing_field, missing_field};
use crate::json::{compact, lemma_object_view, member, no_members, Json, JsonView};
use crate::kernel::events::{GoalState, GoalStateView, GoalStatus, Suspension, SuspensionView};
use crate::kernel::model::{FunctionSpec, FunctionSpecView};
use crate::kernel::projection::{ThreadProjection, ThreadProjectionView};
use crate::runtime::error::{AgentError, AgentErrorView, Result};
use crate::same::{outcome_of, Replica, Same};
use crate::text::{glue3, same_text};
use crate::text_map::{sorted_keys, TextMap};
use crate::time_span::TimeSpan;
use crate::typed::{
    nullable_text_field, nullable_text_of, read_nullable_text, read_nullable_text_field, read_text,
    read_text_field, say_wrong_length, say_wrong_type, say_wrong_value, text_field, text_of,
    wrong_length, wrong_type, wrong_value,
};
use vstd::utf8::encode_utf8;
use vstd::prelude::*;

verus! {

/// What a function is told about the call that it serves.
#[derive(Debug, PartialEq, Eq)]
pub struct FunctionContext {
    pub thread_id: String,
    pub metadata: Json,
    pub turn_id: String,
    pub call_id: String,
    pub projection: ThreadProjection,
}

/// What a [`FunctionContext`] holds.
#[verifier::ext_equal]
pub struct FunctionContextView {
    pub thread_id: Seq<char>,
    pub metadata: JsonView,
    pub turn_id: Seq<char>,
    pub call_id: Seq<char>,
    pub projection: ThreadProjectionView,
}

impl DeepView for FunctionContext {
    type V = FunctionContextView;

    open spec fn deep_view(&self) -> Self::V {
        FunctionContextView {
            thread_id: self.thread_id.deep_view(),
            metadata: self.metadata.deep_view(),
            turn_id: self.turn_id.deep_view(),
            call_id: self.call_id.deep_view(),
            projection: self.projection.deep_view(),
        }
    }
}

impl Replica for FunctionContext {
    fn replica(&self) -> (r: Self) {
        FunctionContext {
            thread_id: self.thread_id.replica(),
            metadata: self.metadata.replica(),
            turn_id: self.turn_id.replica(),
            call_id: self.call_id.replica(),
            projection: self.projection.replica(),
        }
    }
}

impl Clone for FunctionContext {
    fn clone(&self) -> (r: Self)
        ensures
            r.deep_view() == self.deep_view(),
    {
        self.replica()
    }
}

/// What a function may take.
#[derive(Copy, Debug, PartialEq, Eq)]
pub struct FunctionLimits {
    pub time_budget: TimeSpan,
    pub max_output_bytes: usize,
}

/// What a [`FunctionLimits`] holds.
#[verifier::ext_equal]
pub struct FunctionLimitsView {
    pub time_budget: nat,
    pub max_output_bytes: usize,
}

impl DeepView for FunctionLimits {
    type V = FunctionLimitsView;

    open spec fn deep_view(&self) -> Self::V {
        FunctionLimitsView {
            time_budget: self.time_budget.deep_view(),
            max_output_bytes: self.max_output_bytes.deep_view(),
        }
    }
}

impl Replica for FunctionLimits {
    fn replica(&self) -> (r: Self) {
        FunctionLimits {
            time_budget: self.time_budget.replica(),
            max_output_bytes: self.max_output_bytes.replica(),
        }
    }
}

impl Clone for FunctionLimits {
    fn clone(&self) -> (r: Self)
        ensures
            r.deep_view() == self.deep_view(),
    {
        self.replica()
    }
}

/// Whether a function may be called again when nothing tells how the first call ended.
#[derive(Clone, Copy, Debug, PartialEq, Eq, Structural)]
pub enum FunctionRecoveryPolicy {
    Idempotent,
    NonIdempotent,
}

impl DeepView for FunctionRecoveryPolicy {
    type V = FunctionRecoveryPolicy;

    open spec fn deep_view(&self) -> Self::V {
        *self
    }
}

impl Replica for FunctionRecoveryPolicy {
    fn replica(&self) -> (r: Self) {
        *self
    }
}

impl Same for FunctionRecoveryPolicy {
    fn same(&self, other: &Self) -> (r: bool) {
        *self == *other
    }
}

/// A function and what it may take.
#[derive(Debug, PartialEq, Eq)]
pub struct FunctionDescriptor {
    pub spec: FunctionSpec,
    pub output_schema: Json,
    pub limits: FunctionLimits,
    pub recovery_policy: FunctionRecoveryPolicy,
}

/// What a [`FunctionDescriptor`] holds.
#[verifier::ext_equal]
pub struct FunctionDescriptorView {
    pub spec: FunctionSpecView,
    pub output_schema: JsonView,
    pub limits: FunctionLimitsView,
    pub recovery_policy: FunctionRecoveryPolicy,
}

impl DeepView for FunctionDescriptor {
    type V = FunctionDescriptorView;

    open spec fn deep_view(&self) -> Self::V {
        FunctionDescriptorView {
            spec: self.spec.deep_view(),
            output_schema: self.output_schema.deep_view(),
            limits: self.limits.deep_view(),
            recovery_policy: self.recovery_policy.deep_view(),
        }
    }
}

impl Replica for FunctionDescriptor {
    fn replica(&self) -> (r: Self) {
        FunctionDescriptor {
            spec: self.spec.replica(),
            output_schema: self.output_schema.replica(),
            limits: self.limits.replica(),
            recovery_policy: self.recovery_policy.replica(),
        }
    }
}

impl Clone for FunctionDescriptor {
    fn clone(&self) -> (r: Self)
        ensures
            r.deep_view() == self.deep_view(),
    {
        self.replica()
    }
}

/// What a tool function returns.
#[derive(Debug, PartialEq, Eq)]
pub enum FunctionExecution {
    Completed { output: Json },
    SuspendedBeforeExecution { suspension: Suspension },
    SuspendedAfterExecution { suspension: Suspension, output: Json },
}

/// What a [`FunctionExecution`] holds.
#[verifier::ext_equal]
pub enum FunctionExecutionView {
    Completed { output: JsonView },
    SuspendedBeforeExecution { suspension: SuspensionView },
    SuspendedAfterExecution { suspension: SuspensionView, output: JsonView },
}

impl DeepView for FunctionExecution {
    type V = FunctionExecutionView;

    open spec fn deep_view(&self) -> Self::V {
        match self {
            FunctionExecution::Completed { output } => FunctionExecutionView::Completed {
                output: output.deep_view(),
            },
            FunctionExecution::SuspendedBeforeExecution { suspension } =>
                FunctionExecutionView::SuspendedBeforeExecution {
                suspension: suspension.deep_view(),
            },
            FunctionExecution::SuspendedAfterExecution { suspension, output } =>
                FunctionExecutionView::SuspendedAfterExecution {
                suspension: suspension.deep_view(),
                output: output.deep_view(),
            },
        }
    }
}

impl Replica for FunctionExecution {
    fn replica(&self) -> (r: Self) {
        match self {
            FunctionExecution::Completed { output } => FunctionExecution::Completed {
                output: output.replica(),
            },
            FunctionExecution::SuspendedBeforeExecution { suspension } =>
                FunctionExecution::SuspendedBeforeExecution {
                suspension: suspension.replica(),
            },
            FunctionExecution::SuspendedAfterExecution { suspension, output } =>
                FunctionExecution::SuspendedAfterExecution {
                suspension: suspension.replica(),
                output: output.replica(),
            },
        }
    }
}

impl Clone for FunctionExecution {
    fn clone(&self) -> (r: Self)
        ensures
            r.deep_view() == self.deep_view(),
    {
        self.replica()
    }
}

/// How a suspension is resolved.
#[derive(Debug, PartialEq, Eq)]
pub enum SuspensionResolution {
    Approve,
    Deny { reason: String },
    UserInput { text: String },
    ExternalResult { output: Json },
}

/// What a [`SuspensionResolution`] holds.
#[verifier::ext_equal]
pub enum SuspensionResolutionView {
    Approve,
    Deny { reason: Seq<char> },
    UserInput { text: Seq<char> },
    ExternalResult { output: JsonView },
}

impl DeepView for SuspensionResolution {
    type V = SuspensionResolutionView;

    open spec fn deep_view(&self) -> Self::V {
        match self {
            SuspensionResolution::Approve => SuspensionResolutionView::Approve,
            SuspensionResolution::Deny { reason } => SuspensionResolutionView::Deny {
                reason: reason.deep_view(),
            },
            SuspensionResolution::UserInput { text } => SuspensionResolutionView::UserInput {
                text: text.deep_view(),
            },
            SuspensionResolution::ExternalResult { output } =>
                SuspensionResolutionView::ExternalResult {
                output: output.deep_view(),
            },
        }
    }
}

impl Replica for SuspensionResolution {
    fn replica(&self) -> (r: Self) {
        match self {
            SuspensionResolution::Approve => SuspensionResolution::Approve,
            SuspensionResolution::Deny { reason } => SuspensionResolution::Deny {
                reason: reason.replica(),
            },
            SuspensionResolution::UserInput { text } => SuspensionResolution::UserInput {
                text: text.replica(),
            },
            SuspensionResolution::ExternalResult { output } =>
                SuspensionResolution::ExternalResult {
                output: output.replica(),
            },
        }
    }
}

impl Clone for SuspensionResolution {
    fn clone(&self) -> (r: Self)
        ensures
            r.deep_view() == self.deep_view(),
    {
        self.replica()
    }
}

/// What a runtime command does to the thread.
#[derive(Debug, PartialEq, Eq)]
pub enum RuntimeEffect {
    SetGoal(GoalState),
}

/// What a [`RuntimeEffect`] holds.
#[verifier::ext_equal]
pub enum RuntimeEffectView {
    SetGoal(GoalStateView),
}

impl DeepView for RuntimeEffect {
    type V = RuntimeEffectView;

    open spec fn deep_view(&self) -> Self::V {
        match self {
            RuntimeEffect::SetGoal(value) => RuntimeEffectView::SetGoal(value.deep_view()),
        }
    }
}

impl Replica for RuntimeEffect {
    fn replica(&self) -> (r: Self) {
        match self {
            RuntimeEffect::SetGoal(value) => RuntimeEffect::SetGoal(value.replica()),
        }
    }
}

impl Clone for RuntimeEffect {
    fn clone(&self) -> (r: Self)
        ensures
            r.deep_view() == self.deep_view(),
    {
        self.replica()
    }
}

/// What a runtime command returns.
#[derive(Debug, PartialEq, Eq)]
pub enum RuntimeCommandExecution {
    Completed { output: Json, effects: Vec<RuntimeEffect> },
    SuspendedAfterExecution { suspension: Suspension, output: Json, effects: Vec<RuntimeEffect> },
    SuspendedBeforeExecution { suspension: Suspension, effects: Vec<RuntimeEffect> },
}

/// What a [`RuntimeCommandExecution`] holds.
#[verifier::ext_equal]
pub enum RuntimeCommandExecutionView {
    Completed { output: JsonView, effects: Seq<RuntimeEffectView> },
    SuspendedAfterExecution {
        suspension: SuspensionView,
        output: JsonView,
        effects: Seq<RuntimeEffectView>,
    },
    SuspendedBeforeExecution { suspension: SuspensionView, effects: Seq<RuntimeEffectView> },
}

impl DeepView for RuntimeCommandExecution {
    type V = RuntimeCommandExecutionView;

    open spec fn deep_view(&self) -> Self::V {
        match self {
            RuntimeCommandExecution::Completed { output, effects } =>
                RuntimeCommandExecutionView::Completed {
                output: output.deep_view(),
                effects: effects.deep_view(),
            },
            RuntimeCommandExecution::SuspendedAfterExecution { suspension, output, effects } =>
                RuntimeCommandExecutionView::SuspendedAfterExecution {
                suspension: suspension.deep_view(),
                output: output.deep_view(),
                effects: effects.deep_view(),
            },
            RuntimeCommandExecution::SuspendedBeforeExecution { suspension, effects } =>
                RuntimeCommandExecutionView::SuspendedBeforeExecution {
                suspension: suspension.deep_view(),
                effects: effects.deep_view(),
            },
        }
    }
}

impl Replica for RuntimeCommandExecution {
    fn replica(&self) -> (r: Self) {
        match self {
            RuntimeCommandExecution::Completed { output, effects } =>
                RuntimeCommandExecution::Completed {
                output: output.replica(),
                effects: effects.replica(),
            },
            RuntimeCommandExecution::SuspendedAfterExecution { suspension, output, effects } =>
                RuntimeCommandExecution::SuspendedAfterExecution {
                suspension: suspension.replica(),
                output: output.replica(),
                effects: effects.replica(),
            },
            RuntimeCommandExecution::SuspendedBeforeExecution { suspension, effects } =>
                RuntimeCommandExecution::SuspendedBeforeExecution {
                suspension: suspension.replica(),
                effects: effects.replica(),
            },
        }
    }
}

impl Clone for RuntimeCommandExecution {
    fn clone(&self) -> (r: Self)
        ensures
            r.deep_view() == self.deep_view(),
    {
        self.replica()
    }
}

/// What a function call amounts to.
#[derive(Debug, PartialEq, Eq)]
pub enum FunctionCallExecution {
    Completed { output: Json, effects: Vec<RuntimeEffect> },
    SuspendedAfterExecution { suspension: Suspension, output: Json, effects: Vec<RuntimeEffect> },
    SuspendedBeforeExecution { suspension: Suspension, effects: Vec<RuntimeEffect> },
}

/// What a [`FunctionCallExecution`] holds.
#[verifier::ext_equal]
pub enum FunctionCallExecutionView {
    Completed { output: JsonView, effects: Seq<RuntimeEffectView> },
    SuspendedAfterExecution {
        suspension: SuspensionView,
        output: JsonView,
        effects: Seq<RuntimeEffectView>,
    },
    SuspendedBeforeExecution { suspension: SuspensionView, effects: Seq<RuntimeEffectView> },
}

impl DeepView for FunctionCallExecution {
    type V = FunctionCallExecutionView;

    open spec fn deep_view(&self) -> Self::V {
        match self {
            FunctionCallExecution::Completed { output, effects } =>
                FunctionCallExecutionView::Completed {
                output: output.deep_view(),
                effects: effects.deep_view(),
            },
            FunctionCallExecution::SuspendedAfterExecution { suspension, output, effects } =>
                FunctionCallExecutionView::SuspendedAfterExecution {
                suspension: suspension.deep_view(),
                output: output.deep_view(),
                effects: effects.deep_view(),
            },
            FunctionCallExecution::SuspendedBeforeExecution { suspension, effects } =>
                FunctionCallExecutionView::SuspendedBeforeExecution {
                suspension: suspension.deep_view(),
                effects: effects.deep_view(),
            },
        }
    }
}

impl Replica for FunctionCallExecution {
    fn replica(&self) -> (r: Self) {
        match self {
            FunctionCallExecution::Completed { output, effects } =>
                FunctionCallExecution::Completed {
                output: output.replica(),
                effects: effects.replica(),
            },
            FunctionCallExecution::SuspendedAfterExecution { suspension, output, effects } =>
                FunctionCallExecution::SuspendedAfterExecution {
                suspension: suspension.replica(),
                output: output.replica(),
                effects: effects.replica(),
            },
            FunctionCallExecution::SuspendedBeforeExecution { suspension, effects } =>
                FunctionCallExecution::SuspendedBeforeExecution {
                suspension: suspension.replica(),
                effects: effects.replica(),
            },
        }
    }
}

impl Clone for FunctionCallExecution {
    fn clone(&self) -> (r: Self)
        ensures
            r.deep_view() == self.deep_view(),
    {
        self.replica()
    }
}

/// What stands behind a registered function.
#[derive(Clone, Copy, Debug, PartialEq, Eq, Structural)]
pub enum FunctionKind {
    Tool,
    RuntimeCommand,
}

impl DeepView for FunctionKind {
    type V = FunctionKind;

    open spec fn deep_view(&self) -> Self::V {
        *self
    }
}

impl Replica for FunctionKind {
    fn replica(&self) -> (r: Self) {
        *self
    }
}

impl Same for FunctionKind {
    fn same(&self, other: &Self) -> (r: bool) {
        *self == *other
    }
}

/// A registered function.
#[derive(Debug, PartialEq, Eq)]
pub struct RegisteredFunction {
    pub kind: FunctionKind,
    pub descriptor: FunctionDescriptor,
}

/// What a [`RegisteredFunction`] holds.
#[verifier::ext_equal]
pub struct RegisteredFunctionView {
    pub kind: FunctionKind,
    pub descriptor: FunctionDescriptorView,
}

impl DeepView for RegisteredFunction {
    type V = RegisteredFunctionView;

    open spec fn deep_view(&self) -> Self::V {
        RegisteredFunctionView {
            kind: self.kind.deep_view(),
            descriptor: self.descriptor.deep_view(),
        }
    }
}

impl Replica for RegisteredFunction {
    fn replica(&self) -> (r: Self) {
        RegisteredFunction {
            kind: self.kind.replica(),
            descriptor: self.descriptor.replica(),
        }
    }
}

impl Clone for RegisteredFunction {
    fn clone(&self) -> (r: Self)
        ensures
            r.deep_view() == self.deep_view(),
    {
        self.replica()
    }
}

/// Shortens an output that is longer than its function may return.
pub trait FunctionOutputResolver {
    fn resolve(
        &self,
        function_name: &str,
        output: Json,
        max_output_bytes: usize,
    ) -> (r: Result<Json>);
}

/// Gives up an output that is too long.
#[derive(Clone, Copy, Debug)]
pub struct DiscardResolver;

impl FunctionOutputResolver for DiscardResolver {
    fn resolve(
        &self,
        function_name: &str,
        output: Json,
        max_output_bytes: usize,
    ) -> (r: Result<Json>)
        ensures
            outcome_of(r) == Err::<JsonView, AgentErrorView>(
                AgentErrorView::FunctionOutputTooLarge {
                    name: function_name@,
                    max_bytes: max_output_bytes,
                },
            ),
    {
        Err(
            AgentError::FunctionOutputTooLarge {
                name: function_name.to_owned(),
                max_bytes: max_output_bytes,
            },
        )
    }
}

/// The length in bytes of a document without white space.
pub open spec fn json_size(json: JsonView) -> usize {
    encode_utf8(compact(json)).len() as usize
}

/// The length in bytes of a document without white space.
pub fn size_of_json(json: &Json) -> (r: usize)
    ensures
        r == json_size(json.deep_view()),
{
    json.to_text().as_str().len()
}

/// What limits are accepted, and what is wrong with the others.
pub open spec fn limits_checked(name: Seq<char>, limits: FunctionLimitsView) -> core::result::Result<
    (),
    AgentErrorView,
> {
    if limits.time_budget == 0 {
        Err(AgentErrorView::InvalidFunctionTimeout { name })
    } else if limits.max_output_bytes == 0 {
        Err(AgentErrorView::InvalidFunctionOutputLimit { name })
    } else {
        Ok(())
    }
}

/// Rejects limits under which no call could end well.
pub fn validate_limits(name: &str, limits: FunctionLimits) -> (r: Result<()>)
    ensures
        outcome_of(r) == limits_checked(name@, limits.deep_view()),
{
    if limits.time_budget.is_zero() {
        return Err(AgentError::InvalidFunctionTimeout { name: name.to_owned() });
    }
    if limits.max_output_bytes == 0 {
        return Err(AgentError::InvalidFunctionOutputLimit { name: name.to_owned() });
    }
    Ok(())
}

/// What becomes of an output that a resolver has worked on.
pub open spec fn resolution_settled(
    name: Seq<char>,
    resolved: core::result::Result<JsonView, AgentErrorView>,
    max_output_bytes: usize,
) -> core::result::Result<JsonView, AgentErrorView> {
    match resolved {
        Ok(output) => if json_size(output) > max_output_bytes {
            Err(AgentErrorView::FunctionOutputTooLarge { name, max_bytes: max_output_bytes })
        } else {
            Ok(output)
        },
        Err(error) => Err(error),
    }
}

/// Takes what a resolver returned, unless it is still too long.
pub fn settle_resolution(name: &str, resolved: Result<Json>, max_output_bytes: usize) -> (r: Result<
    Json,
>)
    ensures
        outcome_of(r) == resolution_settled(name@, outcome_of(resolved), max_output_bytes),
{
    match resolved {
        Ok(output) => {
            if size_of_json(&output) > max_output_bytes {
                return Err(
                    AgentError::FunctionOutputTooLarge {
                        name: name.to_owned(),
                        max_bytes: max_output_bytes,
                    },
                );
            }
            Ok(output)
        },
        Err(error) => Err(error),
    }
}

/// What may become of an output: it stays as it is when it is short enough, and else it is what
/// the resolver makes of it, unless that is still too long.
pub open spec fn output_settled<R: FunctionOutputResolver>(
    name: &str,
    output: Json,
    max_output_bytes: usize,
    resolver: &R,
    result: core::result::Result<JsonView, AgentErrorView>,
) -> bool {
    if json_size(output.deep_view()) <= max_output_bytes {
        result == Ok::<JsonView, AgentErrorView>(output.deep_view())
    } else {
        exists|resolved: Result<Json>|
            {
                &&& #[trigger] call_ensures(
                    R::resolve,
                    (resolver, name, output, max_output_bytes),
                    resolved,
                )
                &&& result == resolution_settled(name@, outcome_of(resolved), max_output_bytes)
            }
    }
}

/// Hands an output on when it is short enough, and else what the resolver makes of it.
pub fn resolve_output<R: FunctionOutputResolver>(
    name: &str,
    output: Json,
    max_output_bytes: usize,
    resolver: &R,
) -> (r: Result<Json>)
    ensures
        output_settled(name, output, max_output_bytes, resolver, outcome_of(r)),
{
    if size_of_json(&output) <= max_output_bytes {
        return Ok(output);
    }
    let resolved = resolver.resolve(name, output, max_output_bytes);
    settle_resolution(name, resolved, max_output_bytes)
}

/// The error of a call that took longer than its time budget.
pub open spec fn timed_out(name: Seq<char>, limits: FunctionLimitsView) -> AgentErrorView {
    AgentErrorView::FunctionTimeout { name, timeout_ms: (limits.time_budget / 1_000_000) as u128 }
}

/// What a tool function's return amounts to, where `returned` is nothing when time ran out.
pub open spec fn tool_call_settled<R: FunctionOutputResolver>(
    name: &str,
    limits: FunctionLimits,
    returned: Option<Result<FunctionExecution>>,
    resolver: &R,
    result: core::result::Result<FunctionCallExecutionView, AgentErrorView>,
) -> bool {
    let max = limits.max_output_bytes;
    match returned {
        None => result == Err::<FunctionCallExecutionView, _>(timed_out(name@, limits.deep_view())),
        Some(Err(error)) => result == Err::<FunctionCallExecutionView, _>(error.deep_view()),
        Some(Ok(FunctionExecution::Completed { output })) => exists|settled|
            {
                &&& #[trigger] output_settled(name, output, max, resolver, settled)
                &&& result == match settled {
                    Ok(output) => Ok::<FunctionCallExecutionView, AgentErrorView>(
                        FunctionCallExecutionView::Completed { output, effects: Seq::empty() },
                    ),
                    Err(error) => Err(error),
                }
            },
        Some(Ok(FunctionExecution::SuspendedAfterExecution { suspension, output })) =>
            exists|settled|
            {
                &&& #[trigger] output_settled(name, output, max, resolver, settled)
                &&& result == match settled {
                    Ok(output) => Ok::<FunctionCallExecutionView, AgentErrorView>(
                        FunctionCallExecutionView::SuspendedAfterExecution {
                            suspension: suspension.deep_view(),
                            output,
                            effects: Seq::empty(),
                        },
                    ),
                    Err(error) => Err(error),
                }
            },
        Some(Ok(FunctionExecution::SuspendedBeforeExecution { suspension })) => result == Ok::<
            FunctionCallExecutionView,
            AgentErrorView,
        >(
            FunctionCallExecutionView::SuspendedBeforeExecution {
                suspension: suspension.deep_view(),
                effects: Seq::empty(),
            },
        ),
    }
}

/// What a runtime command's return amounts to, where `returned` is nothing when time ran out.
pub open spec fn command_call_settled<R: FunctionOutputResolver>(
    name: &str,
    limits: FunctionLimits,
    returned: Option<Result<RuntimeCommandExecution>>,
    resolver: &R,
    result: core::result::Result<FunctionCallExecutionView, AgentErrorView>,
) -> bool {
    let max = limits.max_output_bytes;
    match returned {
        None => result == Err::<FunctionCallExecutionView, _>(timed_out(name@, limits.deep_view())),
        Some(Err(error)) => result == Err::<FunctionCallExecutionView, _>(error.deep_view()),
        Some(Ok(RuntimeCommandExecution::Completed { output, effects })) => exists|settled|
            {
                &&& #[trigger] output_settled(name, output, max, resolver, settled)
                &&& result == match settled {
                    Ok(output) => Ok::<FunctionCallExecutionView, AgentErrorView>(
                        FunctionCallExecutionView::Completed {
                            output,
                            effects: effects.deep_view(),
                        },
                    ),
                    Err(error) => Err(error),
                }
            },
        Some(
            Ok(RuntimeCommandExecution::SuspendedAfterExecution { suspension, output, effects }),
        ) => exists|settled|
            {
                &&& #[trigger] output_settled(name, output, max, resolver, settled)
                &&& result == match settled {
                    Ok(output) => Ok::<FunctionCallExecutionView, AgentErrorView>(
                        FunctionCallExecutionView::SuspendedAfterExecution {
                            suspension: suspension.deep_view(),
                            output,
                            effects: effects.deep_view(),
                        },
                    ),
                    Err(error) => Err(error),
                }
            },
        Some(Ok(RuntimeCommandExecution::SuspendedBeforeExecution { suspension, effects })) =>
            result
            == Ok::<FunctionCallExecutionView, AgentErrorView>(
            FunctionCallExecutionView::SuspendedBeforeExecution {
                suspension: suspension.deep_view(),
                effects: effects.deep_view(),
            },
        ),
    }
}

/// The functions that the model may call, by name.
pub struct FunctionRegistry {
    functions: TextMap<RegisteredFunction>,
}

impl DeepView for FunctionRegistry {
    type V = Map<Seq<char>, RegisteredFunctionView>;

    closed spec fn deep_view(&self) -> Self::V {
        self.functions.deep_view()
    }
}

/// The descriptors of registered functions, in ascending name order.
pub open spec fn registry_descriptors(functions: Map<Seq<char>, RegisteredFunctionView>) -> Seq<
    FunctionDescriptorView,
> {
    Seq::new(
        sorted_keys(functions.dom()).len(),
        |i: int| functions[sorted_keys(functions.dom())[i]].descriptor,
    )
}

impl FunctionRegistry {
    /// A registry without functions.
    pub fn new() -> (r: Self)
        ensures
            r.deep_view() == Map::<Seq<char>, RegisteredFunctionView>::empty(),
    {
        let r = FunctionRegistry { functions: TextMap::new() };
        assert(r.deep_view() =~= Map::<Seq<char>, RegisteredFunctionView>::empty());
        r
    }

    /// Registers a tool function under its name, in the place of one that had the name.
    pub fn register(&mut self, descriptor: FunctionDescriptor)
        ensures
            final(self).deep_view() == old(self).deep_view().insert(
                descriptor.spec.name@,
                RegisteredFunctionView {
                    kind: FunctionKind::Tool,
                    descriptor: descriptor.deep_view(),
                },
            ),
    {
        let name = descriptor.spec.name.clone();
        self.functions.insert(name, RegisteredFunction { kind: FunctionKind::Tool, descriptor });
    }

    /// Registers a runtime command under its name, in the place of one that had the name.
    pub fn register_runtime_command(&mut self, descriptor: FunctionDescriptor)
        ensures
            final(self).deep_view() == old(self).deep_view().insert(
                descriptor.spec.name@,
                RegisteredFunctionView {
                    kind: FunctionKind::RuntimeCommand,
                    descriptor: descriptor.deep_view(),
                },
            ),
    {
        let name = descriptor.spec.name.clone();
        self.functions.insert(
            name,
            RegisteredFunction { kind: FunctionKind::RuntimeCommand, descriptor },
        );
    }

    /// The descriptors of all functions, in ascending name order.
    pub fn descriptors(&self) -> (r: Vec<FunctionDescriptor>)
        ensures
            r.deep_view() == registry_descriptors(self.deep_view()),
    {
        let mut out: Vec<FunctionDescriptor> = Vec::new();
        let n: usize = self.functions.walk();
        assert(self.deep_view().dom() =~= self.functions@.dom());
        for i in 0..n
            invariant
                n == self.functions.keys().len(),
                out@.len() == i,
                self.deep_view() == self.functions.deep_view(),
                self.deep_view().dom() == self.functions@.dom(),
                forall|j: int|
                    0 <= j < i ==> (#[trigger] out@[j]).deep_view() == registry_descriptors(
                        self.deep_view(),
                    )[j],
        {
            out.push(self.functions.value_at(i).descriptor.replica());
        }
        assert(out.deep_view() =~= registry_descriptors(self.deep_view()));
        out
    }

    /// What the model is told of all functions, in ascending name order.
    pub fn specs(&self) -> (r: Vec<FunctionSpec>)
        ensures
            r.deep_view() == registry_descriptors(self.deep_view()).map_values(
                |descriptor: FunctionDescriptorView| descriptor.spec,
            ),
    {
        let ghost want = registry_descriptors(self.deep_view()).map_values(
            |descriptor: FunctionDescriptorView| descriptor.spec,
        );
        let mut out: Vec<FunctionSpec> = Vec::new();
        let n: usize = self.functions.walk();
        assert(self.deep_view().dom() =~= self.functions@.dom());
        for i in 0..n
            invariant
                n == self.functions.keys().len(),
                out@.len() == i,
                self.deep_view() == self.functions.deep_view(),
                self.deep_view().dom() == self.functions@.dom(),
                want == registry_descriptors(self.deep_view()).map_values(
                    |descriptor: FunctionDescriptorView| descriptor.spec,
                ),
                forall|j: int| 0 <= j < i ==> (#[trigger] out@[j]).deep_view() == want[j],
        {
            out.push(self.functions.value_at(i).descriptor.spec.replica());
        }
        assert(out.deep_view() =~= want);
        out
    }

    /// The recovery policy of a function.
    pub fn recovery_policy(&self, name: &str) -> (r: Result<FunctionRecoveryPolicy>)
        ensures
            outcome_of(r) == (if self.deep_view().contains_key(name@) {
                Ok(self.deep_view()[name@].descriptor.recovery_policy)
            } else {
                Err::<FunctionRecoveryPolicy, AgentErrorView>(
                    AgentErrorView::FunctionNotFound(name@),
                )
            }),
    {
        match self.functions.get(name) {
            Some(function) => Ok(function.descriptor.recovery_policy),
            None => Err(AgentError::FunctionNotFound(name.to_owned())),
        }
    }

    /// The function to call for `name`, once its limits are found to be in order.
    pub fn plan_call(&self, name: &str) -> (r: Result<RegisteredFunction>)
        ensures
            outcome_of(r) == (if !self.deep_view().contains_key(name@) {
                Err::<RegisteredFunctionView, AgentErrorView>(
                    AgentErrorView::FunctionNotFound(name@),
                )
            } else {
                match limits_checked(name@, self.deep_view()[name@].descriptor.limits) {
                    Ok(_) => Ok(self.deep_view()[name@]),
                    Err(error) => Err(error),
                }
            }),
    {
        match self.functions.get(name) {
            Some(function) => match validate_limits(name, function.descriptor.limits) {
                Ok(_) => Ok(function.replica()),
                Err(error) => Err(error),
            },
            None => Err(AgentError::FunctionNotFound(name.to_owned())),
        }
    }

    /// What a call of a tool function amounts to, once it has returned or its time has run out.
    pub fn finish_tool_call<R: FunctionOutputResolver>(
        name: &str,
        limits: FunctionLimits,
        returned: Option<Result<FunctionExecution>>,
        resolver: &R,
    ) -> (r: Result<FunctionCallExecution>)
        ensures
            tool_call_settled(name, limits, returned, resolver, outcome_of(r)),
    {
        let max: usize = limits.max_output_bytes;
        match returned {
            None => Err(
                AgentError::FunctionTimeout {
                    name: name.to_owned(),
                    timeout_ms: limits.time_budget.as_millis(),
                },
            ),
            Some(Err(error)) => Err(error),
            Some(Ok(FunctionExecution::Completed { output })) => {
                let settled = resolve_output(name, output, max, resolver);
                assert(output_settled(name, output, max, resolver, outcome_of(settled)));
                match settled {
                    Ok(output) => Ok(no_effects_completed(output)),
                    Err(error) => Err(error),
                }
            },
            Some(Ok(FunctionExecution::SuspendedAfterExecution { suspension, output })) => {
                let settled = resolve_output(name, output, max, resolver);
                assert(output_settled(name, output, max, resolver, outcome_of(settled)));
                match settled {
                    Ok(output) => Ok(no_effects_suspended_after(suspension, output)),
                    Err(error) => Err(error),
                }
            },
            Some(Ok(FunctionExecution::SuspendedBeforeExecution { suspension })) => {
                let effects: Vec<RuntimeEffect> = Vec::new();
                assert(effects.deep_view() =~= Seq::empty());
                Ok(FunctionCallExecution::SuspendedBeforeExecution { suspension, effects })
            },
        }
    }

    /// What a call of a runtime command amounts to, once it has returned or its time has run
    /// out.
    pub fn finish_command_call<R: FunctionOutputResolver>(
        name: &str,
        limits: FunctionLimits,
        returned: Option<Result<RuntimeCommandExecution>>,
        resolver: &R,
    ) -> (r: Result<FunctionCallExecution>)
        ensures
            command_call_settled(name, limits, returned, resolver, outcome_of(r)),
    {
        let max: usize = limits.max_output_bytes;
        match returned {
            None => Err(
                AgentError::FunctionTimeout {
                    name: name.to_owned(),
                    timeout_ms: limits.time_budget.as_millis(),
                },
            ),
            Some(Err(error)) => Err(error),
            Some(Ok(RuntimeCommandExecution::Completed { output, effects })) => {
                let settled = resolve_output(name, output, max, resolver);
                assert(output_settled(name, output, max, resolver, outcome_of(settled)));
                match settled {
                    Ok(output) => Ok(FunctionCallExecution::Completed { output, effects }),
                    Err(error) => Err(error),
                }
            },
            Some(
                Ok(
                    RuntimeCommandExecution::SuspendedAfterExecution {
                        suspension,
                        output,
                        effects,
                    },
                ),
            ) => {
                let settled = resolve_output(name, output, max, resolver);
                assert(output_settled(name, output, max, resolver, outcome_of(settled)));
                match settled {
                    Ok(output) => Ok(
                        FunctionCallExecution::SuspendedAfterExecution {
                            suspension,
                            output,
                            effects,
                        },
                    ),
                    Err(error) => Err(error),
                }
            },
            Some(Ok(RuntimeCommandExecution::SuspendedBeforeExecution { suspension, effects })) =>
                Ok(
                FunctionCallExecution::SuspendedBeforeExecution { suspension, effects },
            ),
        }
    }
}

fn no_effects_completed(output: Json) -> (r: FunctionCallExecution)
    ensures
        r.deep_view() == (FunctionCallExecutionView::Completed {
            output: output.deep_view(),
            effects: Seq::empty(),
        }),
{
    let effects: Vec<RuntimeEffect> = Vec::new();
    assert(effects.deep_view() =~= Seq::empty());
    FunctionCallExecution::Completed { output, effects }
}

fn no_effects_suspended_after(suspension: Suspension, output: Json) -> (r: FunctionCallExecution)
    ensures
        r.deep_view() == (FunctionCallExecutionView::SuspendedAfterExecution {
            suspension: suspension.deep_view(),
            output: output.deep_view(),
            effects: Seq::empty(),
        }),
{
    let effects: Vec<RuntimeEffect> = Vec::new();
    assert(effects.deep_view() =~= Seq::empty());
    FunctionCallExecution::SuspendedAfterExecution { suspension, output, effects }
}

/// The status that a text names.
pub open spec fn goal_status_of(text: Seq<char>) -> Option<GoalStatus> {
    if text == "active"@ {
        Some(GoalStatus::Active)
    } else if text == "complete"@ {
        Some(GoalStatus::Complete)
    } else if text == "blocked"@ {
        Some(GoalStatus::Blocked)
    } else {
        None
    }
}

/// The text that names a status.
pub open spec fn goal_status_text(status: GoalStatus) -> Seq<char> {
    match status {
        GoalStatus::Active => "active"@,
        GoalStatus::Complete => "complete"@,
        GoalStatus::Blocked => "blocked"@,
    }
}

/// The status that a text names, or what is said of one that names none.
pub open spec fn goal_status_named(text: Seq<char>) -> core::result::Result<GoalStatus, Seq<char>> {
    match goal_status_of(text) {
        Some(status) => Ok(status),
        None => Err(
            "unknown variant `"@ + text + "`, expected one of `active`, `complete`, `blocked`"@,
        ),
    }
}

/// The status that a document names: by its text, or as the only key of an object, with nothing
/// under it.
pub open spec fn goal_status_value(json: JsonView) -> core::result::Result<GoalStatus, Seq<char>> {
    match json {
        JsonView::Text(text) => goal_status_named(text),
        JsonView::Object(members) => {
            let keys = sorted_keys(members.dom());
            if keys.len() != 1 {
                Err(wrong_value(json, "map with a single key"@))
            } else {
                match goal_status_named(keys[0]) {
                    Err(error) => Err(error),
                    Ok(status) => if members[keys[0]] is Null {
                        Ok(status)
                    } else {
                        Err(wrong_type(members[keys[0]], "unit"@))
                    },
                }
            }
        },
        _ => Err(wrong_type(json, "string or map"@)),
    }
}

/// The status that arguments give the goal, where they name one.
pub open spec fn goal_status_field(args: JsonView) -> core::result::Result<
    Option<GoalStatus>,
    Seq<char>,
> {
    match member(args, "status"@) {
        None => Ok(None),
        Some(value) => match goal_status_value(value) {
            Ok(status) => Ok(Some(status)),
            Err(error) => Err(error),
        },
    }
}

/// The goal that the members of an object describe. Members are read in ascending order of their
/// keys.
pub open spec fn goal_members(args: JsonView) -> core::result::Result<GoalStateView, Seq<char>> {
    match nullable_text_field(args, "notes"@) {
        Err(error) => Err(error),
        Ok(notes) => match text_field(args, "objective"@) {
            Err(error) => Err(error),
            Ok(objective) => match goal_status_field(args) {
                Err(error) => Err(error),
                Ok(status) => match (objective, status) {
                    (Some(objective), Some(status)) => Ok(
                        GoalStateView { objective, status, notes },
                    ),
                    (None, _) => Err(missing_field("objective"@)),
                    (Some(_), None) => Err(missing_field("status"@)),
                },
            },
        },
    }
}

/// What is said of too few items for a goal.
pub open spec fn short_goal(items: nat) -> Seq<char> {
    wrong_length(items, "struct UpdateGoalArgs with 3 elements"@)
}

/// The goal that items describe: the objective, the status and the notes.
pub open spec fn goal_items(items: Seq<JsonView>) -> core::result::Result<
    GoalStateView,
    Seq<char>,
> {
    if items.len() == 0 {
        Err(short_goal(0))
    } else {
        match text_of(items[0]) {
            Err(error) => Err(error),
            Ok(objective) => if items.len() == 1 {
                Err(short_goal(1))
            } else {
                match goal_status_value(items[1]) {
                    Err(error) => Err(error),
                    Ok(status) => if items.len() == 2 {
                        Err(short_goal(2))
                    } else {
                        match nullable_text_of(items[2]) {
                            Err(error) => Err(error),
                            Ok(notes) => if items.len() > 3 {
                                Err(wrong_length(items.len(), "fewer elements in array"@))
                            } else {
                                Ok(GoalStateView { objective, status, notes })
                            },
                        }
                    },
                }
            },
        }
    }
}

/// The goal that arguments describe, or what is said of arguments that describe none.
pub open spec fn goal_of(args: JsonView) -> core::result::Result<GoalStateView, Seq<char>> {
    match args {
        JsonView::Object(_) => goal_members(args),
        JsonView::Array(items) => goal_items(items),
        _ => Err(wrong_type(args, "struct UpdateGoalArgs"@)),
    }
}

/// A goal as a document.
pub open spec fn goal_json(goal: GoalStateView) -> JsonView {
    JsonView::Object(
        Map::<Seq<char>, JsonView>::empty().insert(
            "objective"@,
            JsonView::Text(goal.objective),
        ).insert("status"@, JsonView::Text(goal_status_text(goal.status))).insert(
            "notes"@,
            match goal.notes {
                Some(notes) => JsonView::Text(notes),
                None => JsonView::Null,
            },
        ),
    )
}

/// The runtime command that sets the goal of a thread.
pub struct UpdateGoal;

fn name_goal_status(text: &str) -> (r: core::result::Result<GoalStatus, String>)
    ensures
        match r {
            Ok(status) => goal_status_named(text@) == Ok::<GoalStatus, Seq<char>>(status),
            Err(error) => goal_status_named(text@) == Err::<GoalStatus, Seq<char>>(error@),
        },
{
    if same_text(text, "active") {
        Ok(GoalStatus::Active)
    } else if same_text(text, "complete") {
        Ok(GoalStatus::Complete)
    } else if same_text(text, "blocked") {
        Ok(GoalStatus::Blocked)
    } else {
        Err(
            glue3(
                "unknown variant `",
                text,
                "`, expected one of `active`, `complete`, `blocked`",
            ),
        )
    }
}

fn read_goal_status(json: &Json) -> (r: core::result::Result<GoalStatus, String>)
    ensures
        match r {
            Ok(status) => goal_status_value(json.deep_view()) == Ok::<GoalStatus, Seq<char>>(
                status,
            ),
            Err(error) => goal_status_value(json.deep_view()) == Err::<GoalStatus, Seq<char>>(
                error@,
            ),
        },
{
    match json {
        Json::Text(text) => name_goal_status(text.as_str()),
        Json::Object(members) => {
            proof {
                lemma_object_view(*members);
                assert(members.deep_view().dom() =~= members@.dom());
            }
            if members.walk() != 1 {
                return Err(say_wrong_value(json, "map with a single key"));
            }
            match name_goal_status(members.key_at(0).as_str()) {
                Err(error) => Err(error),
                Ok(status) => {
                    let value = members.value_at(0);
                    match value {
                        Json::Null => Ok(status),
                        _ => Err(say_wrong_type(value, "unit")),
                    }
                },
            }
        },
        _ => Err(say_wrong_type(json, "string or map")),
    }
}

fn read_goal_members(args: &Json) -> (r: core::result::Result<GoalState, String>)
    ensures
        match r {
            Ok(goal) => goal_members(args.deep_view()) == Ok::<GoalStateView, Seq<char>>(
                goal.deep_view(),
            ),
            Err(error) => goal_members(args.deep_view()) == Err::<GoalStateView, Seq<char>>(error@),
        },
{
    let notes = match read_nullable_text_field(args, "notes") {
        Ok(notes) => notes,
        Err(error) => return Err(error),
    };
    let objective = match read_text_field(args, "objective") {
        Ok(objective) => objective,
        Err(error) => return Err(error),
    };
    let status = match args.get("status") {
        None => None,
        Some(value) => match read_goal_status(value) {
            Ok(status) => Some(status),
            Err(error) => return Err(error),
        },
    };
    match (objective, status) {
        (Some(objective), Some(status)) => Ok(GoalState { objective, status, notes }),
        (None, _) => Err(make_missing_field("objective")),
        (Some(_), None) => Err(make_missing_field("status")),
    }
}

fn read_goal_items(items: &Vec<Json>) -> (r: core::result::Result<GoalState, String>)
    ensures
        match r {
            Ok(goal) => goal_items(items.deep_view()) == Ok::<GoalStateView, Seq<char>>(
                goal.deep_view(),
            ),
            Err(error) => goal_items(items.deep_view()) == Err::<GoalStateView, Seq<char>>(error@),
        },
{
    let n: usize = items.len();
    if n == 0 {
        return Err(say_wrong_length(0, "struct UpdateGoalArgs with 3 elements"));
    }
    let objective = match read_text(&items[0]) {
        Ok(objective) => objective,
        Err(error) => return Err(error),
    };
    if n == 1 {
        return Err(say_wrong_length(1, "struct UpdateGoalArgs with 3 elements"));
    }
    let status = match read_goal_status(&items[1]) {
        Ok(status) => status,
        Err(error) => return Err(error),
    };
    if n == 2 {
        return Err(say_wrong_length(2, "struct UpdateGoalArgs with 3 elements"));
    }
    let notes = match read_nullable_text(&items[2]) {
        Ok(notes) => notes,
        Err(error) => return Err(error),
    };
    if n > 3 {
        return Err(say_wrong_length(n, "fewer elements in array"));
    }
    Ok(GoalState { objective, status, notes })
}

fn read_goal(args: &Json) -> (r: core::result::Result<GoalState, String>)
    ensures
        match r {
            Ok(goal) => goal_of(args.deep_view())
                == Ok::<GoalStateView, Seq<char>>(goal.deep_view()),
            Err(error) => goal_of(args.deep_view()) == Err::<GoalStateView, Seq<char>>(error@),
        },
{
    match args {
        Json::Object(_) => read_goal_members(args),
        Json::Array(items) => read_goal_items(items),
        _ => Err(say_wrong_type(args, "struct UpdateGoalArgs")),
    }
}

fn goal_document(goal: &GoalState) -> (r: Json)
    ensures
        r.deep_view() == goal_json(goal.deep_view()),
{
    let status = match goal.status {
        GoalStatus::Active => Json::text("active"),
        GoalStatus::Complete => Json::text("complete"),
        GoalStatus::Blocked => Json::text("blocked"),
    };
    let notes = match &goal.notes {
        Some(notes) => Json::text(notes.as_str()),
        None => Json::Null,
    };
    Json::object(
        no_members()
            .with("objective", Json::text(goal.objective.as_str()))
            .with("status", status)
            .with(
            "notes",
            notes,
        ),
    )
}

/// `{"type": <name>}`.
pub open spec fn type_json(name: Seq<char>) -> JsonView {
    JsonView::Object(Map::<Seq<char>, JsonView>::empty().insert("type"@, JsonView::Text(name)))
}

fn type_document(name: &str) -> (r: Json)
    ensures
        r.deep_view() == type_json(name@),
{
    Json::object(no_members().with("type", Json::text(name)))
}

/// The schema of the arguments of `update_goal`.
pub open spec fn update_goal_parameters() -> JsonView {
    let none = Map::<Seq<char>, JsonView>::empty();
    JsonView::Object(
        none.insert("type"@, JsonView::Text("object"@)).insert(
            "required"@,
            JsonView::Array(seq![JsonView::Text("objective"@), JsonView::Text("status"@)]),
        ).insert(
            "properties"@,
            JsonView::Object(
                none.insert("objective"@, type_json("string"@)).insert(
                    "status"@,
                    JsonView::Object(
                        none.insert("type"@, JsonView::Text("string"@)).insert(
                            "enum"@,
                            JsonView::Array(
                                seq![
                                    JsonView::Text("active"@),
                                    JsonView::Text("complete"@),
                                    JsonView::Text("blocked"@),
                                ],
                            ),
                        ),
                    ),
                ).insert("notes"@, type_json("string"@)),
            ),
        ).insert("additionalProperties"@, JsonView::Bool(false)),
    )
}

/// What `update_goal` is registered as.
pub open spec fn update_goal_descriptor() -> FunctionDescriptorView {
    FunctionDescriptorView {
        spec: FunctionSpecView {
            name: "update_goal"@,
            description: "Set or update the explicit goal state for this thread."@,
            parameters: update_goal_parameters(),
        },
        output_schema: type_json("object"@),
        limits: FunctionLimitsView {
            time_budget: 1_000_000_000,
            max_output_bytes: 20_971_520,
        },
        recovery_policy: FunctionRecoveryPolicy::Idempotent,
    }
}

impl UpdateGoal {
    /// The function as it is registered.
    pub fn descriptor() -> (r: FunctionDescriptor)
        ensures
            r.deep_view() == update_goal_descriptor(),
    {
        let mut required: Vec<Json> = Vec::new();
        required.push(Json::text("objective"));
        required.push(Json::text("status"));
        assert(required.deep_view() =~= seq![
            JsonView::Text("objective"@),
            JsonView::Text("status"@),
        ]);
        let mut statuses: Vec<Json> = Vec::new();
        statuses.push(Json::text("active"));
        statuses.push(Json::text("complete"));
        statuses.push(Json::text("blocked"));
        assert(statuses.deep_view() =~= seq![
            JsonView::Text("active"@),
            JsonView::Text("complete"@),
            JsonView::Text("blocked"@),
        ]);
        let status = Json::object(
            no_members().with("type", Json::text("string")).with("enum", Json::array(statuses)),
        );
        let properties = Json::object(
            no_members().with("objective", type_document("string")).with("status", status).with(
                "notes",
                type_document("string"),
            ),
        );
        let parameters = Json::object(
            no_members()
                .with("type", Json::text("object"))
                .with("required", Json::array(required))
                .with(
                "properties",
                properties,
            ).with("additionalProperties", Json::Bool(false)),
        );
        FunctionDescriptor {
            spec: FunctionSpec {
                name: "update_goal".to_owned(),
                description: "Set or update the explicit goal state for this thread.".to_owned(),
                parameters,
            },
            output_schema: type_document("object"),
            limits: FunctionLimits {
                time_budget: TimeSpan::from_secs(1),
                max_output_bytes: 20_971_520,
            },
            recovery_policy: FunctionRecoveryPolicy::Idempotent,
        }
    }

    /// Sets the goal that the arguments describe.
    pub fn call(args: &Json) -> (r: Result<RuntimeCommandExecution>)
        ensures
            outcome_of(r) == (match goal_of(args.deep_view()) {
                Ok(goal) => Ok::<RuntimeCommandExecutionView, AgentErrorView>(
                    RuntimeCommandExecutionView::Completed {
                        output: JsonView::Object(
                            Map::<Seq<char>, JsonView>::empty().insert("goal"@, goal_json(goal)),
                        ),
                        effects: seq![RuntimeEffectView::SetGoal(goal)],
                    },
                ),
                Err(message) => Err(
                    AgentErrorView::InvalidFunctionArguments { name: "update_goal"@, message },
                ),
            }),
    {
        match read_goal(args) {
            Ok(goal) => {
                let output = Json::object(no_members().with("goal", goal_document(&goal)));
                let mut effects: Vec<RuntimeEffect> = Vec::new();
                effects.push(RuntimeEffect::SetGoal(goal));
                assert(effects.deep_view() =~= seq![RuntimeEffectView::SetGoal(goal.deep_view())]);
                Ok(RuntimeCommandExecution::Completed { output, effects })
            },
            Err(message) => Err(
                AgentError::InvalidFunctionArguments { name: "update_goal".to_owned(), message },
            ),
        }
    }
}

/// The registry with the functions that every agent has.
pub fn builtin_registry() -> (r: FunctionRegistry)
    ensures
        r.deep_view() == Map::<Seq<char>, RegisteredFunctionView>::empty().insert(
            "update_goal"@,
            RegisteredFunctionView {
                kind: FunctionKind::RuntimeCommand,
                descriptor: update_goal_descriptor(),
            },
        ),
{
    let mut registry = FunctionRegistry::new();
    registry.register_runtime_command(UpdateGoal::descriptor());
    registry
}

} // verus!
