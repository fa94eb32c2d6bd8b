//! Semantic contracts for native command sandbox backends.
//!
//! No operating-system sandbox is implemented here. What is defined are the isolation guarantees
//! that a command asks for and the boundary that native, container, or user-provided backends
//! stand behind.

use crate::same::{outcome_of, Replica, Same};
use crate::text::{glue2, glue4, trim, trimmed};
use crate::text_map::TextMap;
use crate::time_span::TimeSpan;
use crate::tools::kernel_ops::{baseline_policy, KernelOpsPolicy, KernelOpsPolicyView};
use crate::tools::path::{
    absolute, absolute_path, begins_with, climb, climbed, is_absolute, lemma_climbed_again,
    lemma_climbed_parts, lemma_parts_are_parts, lemma_parts_of_absolute_path, path_parts,
    split_path, starts_with, write_absolute_path,
};
use vstd::std_specs::iter::IteratorSpec;
use vstd::utf8::{decode_utf8, valid_utf8};
use vstd::prelude::*;

verus! {

/// Why a command could not be run in a sandbox.
#[derive(Debug, PartialEq, Eq)]
pub enum SandboxError {
    InvalidRequest(String),
    UnsupportedPolicy(String),
    Launch(String),
    Io(String),
}

/// What a [`SandboxError`] holds.
#[verifier::ext_equal]
pub enum SandboxErrorView {
    InvalidRequest(Seq<char>),
    UnsupportedPolicy(Seq<char>),
    Launch(Seq<char>),
    Io(Seq<char>),
}

impl DeepView for SandboxError {
    type V = SandboxErrorView;

    open spec fn deep_view(&self) -> Self::V {
        match self {
            SandboxError::InvalidRequest(value) => SandboxErrorView::InvalidRequest(
                value.deep_view(),
            ),
            SandboxError::UnsupportedPolicy(value) => SandboxErrorView::UnsupportedPolicy(
                value.deep_view(),
            ),
            SandboxError::Launch(value) => SandboxErrorView::Launch(value.deep_view()),
            SandboxError::Io(value) => SandboxErrorView::Io(value.deep_view()),
        }
    }
}

impl Replica for SandboxError {
    fn replica(&self) -> (r: Self) {
        match self {
            SandboxError::InvalidRequest(value) => SandboxError::InvalidRequest(value.replica()),
            SandboxError::UnsupportedPolicy(value) => SandboxError::UnsupportedPolicy(
                value.replica(),
            ),
            SandboxError::Launch(value) => SandboxError::Launch(value.replica()),
            SandboxError::Io(value) => SandboxError::Io(value.replica()),
        }
    }
}

impl Clone for SandboxError {
    fn clone(&self) -> (r: Self)
        ensures
            r.deep_view() == self.deep_view(),
    {
        self.replica()
    }
}

/// What is known of a command before it is launched.
#[derive(Debug, PartialEq, Eq)]
pub enum SandboxPreflight {
    Allowed,
    PolicyViolation { reason: String },
}

/// What a [`SandboxPreflight`] holds.
#[verifier::ext_equal]
pub enum SandboxPreflightView {
    Allowed,
    PolicyViolation { reason: Seq<char> },
}

impl DeepView for SandboxPreflight {
    type V = SandboxPreflightView;

    open spec fn deep_view(&self) -> Self::V {
        match self {
            SandboxPreflight::Allowed => SandboxPreflightView::Allowed,
            SandboxPreflight::PolicyViolation { reason } => SandboxPreflightView::PolicyViolation {
                reason: reason.deep_view(),
            },
        }
    }
}

impl Replica for SandboxPreflight {
    fn replica(&self) -> (r: Self) {
        match self {
            SandboxPreflight::Allowed => SandboxPreflight::Allowed,
            SandboxPreflight::PolicyViolation { reason } => SandboxPreflight::PolicyViolation {
                reason: reason.replica(),
            },
        }
    }
}

impl Clone for SandboxPreflight {
    fn clone(&self) -> (r: Self)
        ensures
            r.deep_view() == self.deep_view(),
    {
        self.replica()
    }
}

impl Same for SandboxPreflight {
    fn same(&self, other: &Self) -> (r: bool) {
        match (self, other) {
            (SandboxPreflight::Allowed, SandboxPreflight::Allowed) => true,
            (
                SandboxPreflight::PolicyViolation { reason: a_reason },
                SandboxPreflight::PolicyViolation { reason: b_reason },
            ) => a_reason.same(b_reason),
            _ => false,
        }
    }
}

/// What happens when a backend cannot provide one requested isolation guarantee.
#[derive(Clone, Copy, Debug, PartialEq, Eq, Structural)]
pub enum UnsupportedPolicyBehavior {
    Error,
    WarnAndFallback,
}

impl DeepView for UnsupportedPolicyBehavior {
    type V = UnsupportedPolicyBehavior;

    open spec fn deep_view(&self) -> Self::V {
        *self
    }
}

impl Replica for UnsupportedPolicyBehavior {
    fn replica(&self) -> (r: Self) {
        *self
    }
}

impl Same for UnsupportedPolicyBehavior {
    fn same(&self, other: &Self) -> (r: bool) {
        *self == *other
    }
}

/// A guarantee that a policy asks for.
#[derive(Clone, Copy, Debug, PartialEq, Eq, Structural)]
pub enum SandboxPolicyDimension {
    Filesystem,
    Network,
    Process,
    Identity,
    KernelOps,
}

impl DeepView for SandboxPolicyDimension {
    type V = SandboxPolicyDimension;

    open spec fn deep_view(&self) -> Self::V {
        *self
    }
}

impl Replica for SandboxPolicyDimension {
    fn replica(&self) -> (r: Self) {
        *self
    }
}

impl Same for SandboxPolicyDimension {
    fn same(&self, other: &Self) -> (r: bool) {
        *self == *other
    }
}

/// What a command may do with a path.
#[derive(Clone, Copy, Debug, PartialEq, Eq, Structural)]
pub enum FilesystemAccess {
    Denied,
    ReadOnly,
    ReadWrite,
}

impl DeepView for FilesystemAccess {
    type V = FilesystemAccess;

    open spec fn deep_view(&self) -> Self::V {
        *self
    }
}

impl Replica for FilesystemAccess {
    fn replica(&self) -> (r: Self) {
        *self
    }
}

impl Same for FilesystemAccess {
    fn same(&self, other: &Self) -> (r: bool) {
        *self == *other
    }
}

/// Network visibility requested by the command.
#[derive(Clone, Copy, Debug, PartialEq, Eq, Structural)]
pub enum NetworkAccess {
    Denied,
    Isolated,
    Host,
}

impl DeepView for NetworkAccess {
    type V = NetworkAccess;

    open spec fn deep_view(&self) -> Self::V {
        *self
    }
}

impl Replica for NetworkAccess {
    fn replica(&self) -> (r: Self) {
        *self
    }
}

impl Same for NetworkAccess {
    fn same(&self, other: &Self) -> (r: bool) {
        *self == *other
    }
}

/// Which processes a command can see.
#[derive(Clone, Copy, Debug, PartialEq, Eq, Structural)]
pub enum ProcessVisibility {
    Isolated,
    Host,
}

impl DeepView for ProcessVisibility {
    type V = ProcessVisibility;

    open spec fn deep_view(&self) -> Self::V {
        *self
    }
}

impl Replica for ProcessVisibility {
    fn replica(&self) -> (r: Self) {
        *self
    }
}

impl Same for ProcessVisibility {
    fn same(&self, other: &Self) -> (r: bool) {
        *self == *other
    }
}

/// Whether the command inherits the host identity of its caller.
#[derive(Clone, Copy, Debug, PartialEq, Eq, Structural)]
pub enum IdentityIsolation {
    Unprivileged,
    Host,
}

impl DeepView for IdentityIsolation {
    type V = IdentityIsolation;

    open spec fn deep_view(&self) -> Self::V {
        *self
    }
}

impl Replica for IdentityIsolation {
    fn replica(&self) -> (r: Self) {
        *self
    }
}

impl Same for IdentityIsolation {
    fn same(&self, other: &Self) -> (r: bool) {
        *self == *other
    }
}

/// Process visibility and descendant cleanup are independent guarantees.
#[derive(Clone, Copy, Debug, PartialEq, Eq, Structural)]
pub struct ProcessPolicy {
    pub visibility: ProcessVisibility,
    pub terminate_descendants: bool,
}

impl DeepView for ProcessPolicy {
    type V = ProcessPolicy;

    open spec fn deep_view(&self) -> Self::V {
        *self
    }
}

impl Replica for ProcessPolicy {
    fn replica(&self) -> (r: Self) {
        *self
    }
}

impl Same for ProcessPolicy {
    fn same(&self, other: &Self) -> (r: bool) {
        *self == *other
    }
}

/// A guarantee, and what happens where a backend cannot provide it.
#[derive(Debug, PartialEq, Eq)]
pub struct PolicySetting<T> {
    pub requested: T,
    pub unsupported: UnsupportedPolicyBehavior,
}

/// What a [`PolicySetting`] holds.
#[verifier::ext_equal]
pub struct PolicySettingView<T> {
    pub requested: T,
    pub unsupported: UnsupportedPolicyBehavior,
}

impl<T: DeepView> DeepView for PolicySetting<T> {
    type V = PolicySettingView<T::V>;

    open spec fn deep_view(&self) -> Self::V {
        PolicySettingView {
            requested: self.requested.deep_view(),
            unsupported: self.unsupported,
        }
    }
}

impl<T: Replica> Replica for PolicySetting<T> {
    fn replica(&self) -> (r: Self) {
        PolicySetting { requested: self.requested.replica(), unsupported: self.unsupported }
    }
}

impl<T: Replica> Clone for PolicySetting<T> {
    fn clone(&self) -> (r: Self)
        ensures
            r.deep_view() == self.deep_view(),
    {
        self.replica()
    }
}

/// A guarantee that must be provided.
pub open spec fn strict_setting<T>(requested: T) -> PolicySettingView<T> {
    PolicySettingView { requested, unsupported: UnsupportedPolicyBehavior::Error }
}

/// A guarantee that may be weakened, with a warning.
pub open spec fn fallback_setting<T>(requested: T) -> PolicySettingView<T> {
    PolicySettingView { requested, unsupported: UnsupportedPolicyBehavior::WarnAndFallback }
}

impl<T: DeepView> PolicySetting<T> {
    /// A guarantee that must be provided.
    pub fn strict(requested: T) -> (r: Self)
        ensures
            r.deep_view() == strict_setting(requested.deep_view()),
    {
        PolicySetting { requested, unsupported: UnsupportedPolicyBehavior::Error }
    }

    /// A guarantee that may be weakened, with a warning.
    pub fn fallback(requested: T) -> (r: Self)
        ensures
            r.deep_view() == fallback_setting(requested.deep_view()),
    {
        PolicySetting { requested, unsupported: UnsupportedPolicyBehavior::WarnAndFallback }
    }
}

impl Default for UnsupportedPolicyBehavior {
    fn default() -> (r: Self)
        ensures
            r == UnsupportedPolicyBehavior::Error,
    {
        UnsupportedPolicyBehavior::Error
    }
}

impl Default for NetworkAccess {
    fn default() -> (r: Self)
        ensures
            r == NetworkAccess::Isolated,
    {
        NetworkAccess::Isolated
    }
}

impl Default for ProcessVisibility {
    fn default() -> (r: Self)
        ensures
            r == ProcessVisibility::Isolated,
    {
        ProcessVisibility::Isolated
    }
}

impl Default for IdentityIsolation {
    fn default() -> (r: Self)
        ensures
            r == IdentityIsolation::Unprivileged,
    {
        IdentityIsolation::Unprivileged
    }
}

/// The process policy that is asked for unless another is.
pub open spec fn default_process() -> ProcessPolicy {
    ProcessPolicy { visibility: ProcessVisibility::Isolated, terminate_descendants: true }
}

impl Default for ProcessPolicy {
    fn default() -> (r: Self)
        ensures
            r == default_process(),
    {
        ProcessPolicy { visibility: ProcessVisibility::Isolated, terminate_descendants: true }
    }
}

/// Filesystem visibility and write access requested by the command.
#[derive(Debug, PartialEq, Eq)]
pub enum FilesystemPolicy {
    /// No host filesystem access other than what the backend needs to launch
    /// the command.
    Isolated,
    /// Expose only one subtree of a managed workspace. Paths outside the
    /// base remain read-only, while sibling paths below the base are hidden.
    WorkspaceScoped { base: String, visible: String, access: FilesystemAccess },
    /// The command can access the host filesystem without filesystem
    /// isolation. This must be selected explicitly.
    Host,
}

/// What a [`FilesystemPolicy`] holds.
#[verifier::ext_equal]
pub enum FilesystemPolicyView {
    Isolated,
    WorkspaceScoped { base: Seq<char>, visible: Seq<char>, access: FilesystemAccess },
    Host,
}

impl DeepView for FilesystemPolicy {
    type V = FilesystemPolicyView;

    open spec fn deep_view(&self) -> Self::V {
        match self {
            FilesystemPolicy::Isolated => FilesystemPolicyView::Isolated,
            FilesystemPolicy::WorkspaceScoped { base, visible, access } =>
                FilesystemPolicyView::WorkspaceScoped {
                base: base.deep_view(),
                visible: visible.deep_view(),
                access: access.deep_view(),
            },
            FilesystemPolicy::Host => FilesystemPolicyView::Host,
        }
    }
}

impl Replica for FilesystemPolicy {
    fn replica(&self) -> (r: Self) {
        match self {
            FilesystemPolicy::Isolated => FilesystemPolicy::Isolated,
            FilesystemPolicy::WorkspaceScoped { base, visible, access } =>
                FilesystemPolicy::WorkspaceScoped {
                base: base.replica(),
                visible: visible.replica(),
                access: access.replica(),
            },
            FilesystemPolicy::Host => FilesystemPolicy::Host,
        }
    }
}

impl Clone for FilesystemPolicy {
    fn clone(&self) -> (r: Self)
        ensures
            r.deep_view() == self.deep_view(),
    {
        self.replica()
    }
}

impl Same for FilesystemPolicy {
    fn same(&self, other: &Self) -> (r: bool) {
        match (self, other) {
            (FilesystemPolicy::Isolated, FilesystemPolicy::Isolated) => true,
            (
                FilesystemPolicy::WorkspaceScoped {
                    base: a_base,
                    visible: a_visible,
                    access: a_access,
                },
                FilesystemPolicy::WorkspaceScoped {
                    base: b_base,
                    visible: b_visible,
                    access: b_access,
                },
            ) => a_base.same(b_base) && a_visible.same(b_visible) && a_access.same(b_access),
            (FilesystemPolicy::Host, FilesystemPolicy::Host) => true,
            _ => false,
        }
    }
}

impl Default for FilesystemPolicy {
    fn default() -> (r: Self)
        ensures
            r.deep_view() == FilesystemPolicyView::Isolated,
    {
        FilesystemPolicy::Isolated
    }
}

/// A guarantee that was weakened or changed.
#[derive(Debug, PartialEq, Eq)]
pub struct SandboxWarning {
    pub dimension: SandboxPolicyDimension,
    pub message: String,
}

/// What a [`SandboxWarning`] holds.
#[verifier::ext_equal]
pub struct SandboxWarningView {
    pub dimension: SandboxPolicyDimension,
    pub message: Seq<char>,
}

impl DeepView for SandboxWarning {
    type V = SandboxWarningView;

    open spec fn deep_view(&self) -> Self::V {
        SandboxWarningView {
            dimension: self.dimension.deep_view(),
            message: self.message.deep_view(),
        }
    }
}

impl Replica for SandboxWarning {
    fn replica(&self) -> (r: Self) {
        SandboxWarning {
            dimension: self.dimension.replica(),
            message: self.message.replica(),
        }
    }
}

impl Clone for SandboxWarning {
    fn clone(&self) -> (r: Self)
        ensures
            r.deep_view() == self.deep_view(),
    {
        self.replica()
    }
}

impl Same for SandboxWarning {
    fn same(&self, other: &Self) -> (r: bool) {
        self.dimension.same(&other.dimension)
            && self.message.same(&other.message)
    }
}

/// Semantic isolation requirements for one command execution.
#[derive(Debug, PartialEq, Eq)]
pub struct SandboxPolicy {
    pub filesystem: PolicySetting<FilesystemPolicy>,
    pub network: PolicySetting<NetworkAccess>,
    pub process: PolicySetting<ProcessPolicy>,
    pub identity: PolicySetting<IdentityIsolation>,
    pub kernel_ops: PolicySetting<KernelOpsPolicy>,
}

/// What a [`SandboxPolicy`] holds.
#[verifier::ext_equal]
pub struct SandboxPolicyView {
    pub filesystem: PolicySettingView<FilesystemPolicyView>,
    pub network: PolicySettingView<NetworkAccess>,
    pub process: PolicySettingView<ProcessPolicy>,
    pub identity: PolicySettingView<IdentityIsolation>,
    pub kernel_ops: PolicySettingView<KernelOpsPolicyView>,
}

impl DeepView for SandboxPolicy {
    type V = SandboxPolicyView;

    open spec fn deep_view(&self) -> Self::V {
        SandboxPolicyView {
            filesystem: self.filesystem.deep_view(),
            network: self.network.deep_view(),
            process: self.process.deep_view(),
            identity: self.identity.deep_view(),
            kernel_ops: self.kernel_ops.deep_view(),
        }
    }
}

impl Replica for SandboxPolicy {
    fn replica(&self) -> (r: Self) {
        SandboxPolicy {
            filesystem: self.filesystem.replica(),
            network: self.network.replica(),
            process: self.process.replica(),
            identity: self.identity.replica(),
            kernel_ops: self.kernel_ops.replica(),
        }
    }
}

impl Clone for SandboxPolicy {
    fn clone(&self) -> (r: Self)
        ensures
            r.deep_view() == self.deep_view(),
    {
        self.replica()
    }
}

/// The guarantees that a backend enforces.
#[derive(Debug, PartialEq, Eq)]
pub struct EffectiveSandboxPolicy {
    pub filesystem: FilesystemPolicy,
    pub network: NetworkAccess,
    pub process: ProcessPolicy,
    pub identity: IdentityIsolation,
    pub kernel_ops: KernelOpsPolicy,
}

/// What an [`EffectiveSandboxPolicy`] holds.
#[verifier::ext_equal]
pub struct EffectiveSandboxPolicyView {
    pub filesystem: FilesystemPolicyView,
    pub network: NetworkAccess,
    pub process: ProcessPolicy,
    pub identity: IdentityIsolation,
    pub kernel_ops: KernelOpsPolicyView,
}

impl DeepView for EffectiveSandboxPolicy {
    type V = EffectiveSandboxPolicyView;

    open spec fn deep_view(&self) -> Self::V {
        EffectiveSandboxPolicyView {
            filesystem: self.filesystem.deep_view(),
            network: self.network.deep_view(),
            process: self.process.deep_view(),
            identity: self.identity.deep_view(),
            kernel_ops: self.kernel_ops.deep_view(),
        }
    }
}

impl Replica for EffectiveSandboxPolicy {
    fn replica(&self) -> (r: Self) {
        EffectiveSandboxPolicy {
            filesystem: self.filesystem.replica(),
            network: self.network.replica(),
            process: self.process.replica(),
            identity: self.identity.replica(),
            kernel_ops: self.kernel_ops.replica(),
        }
    }
}

impl Clone for EffectiveSandboxPolicy {
    fn clone(&self) -> (r: Self)
        ensures
            r.deep_view() == self.deep_view(),
    {
        self.replica()
    }
}

/// What was asked for, what is enforced, and every difference.
#[derive(Debug, PartialEq, Eq)]
pub struct SandboxPolicyResolution {
    pub requested: SandboxPolicy,
    pub effective: EffectiveSandboxPolicy,
    pub warnings: Vec<SandboxWarning>,
}

/// What a [`SandboxPolicyResolution`] holds.
#[verifier::ext_equal]
pub struct SandboxPolicyResolutionView {
    pub requested: SandboxPolicyView,
    pub effective: EffectiveSandboxPolicyView,
    pub warnings: Seq<SandboxWarningView>,
}

impl DeepView for SandboxPolicyResolution {
    type V = SandboxPolicyResolutionView;

    open spec fn deep_view(&self) -> Self::V {
        SandboxPolicyResolutionView {
            requested: self.requested.deep_view(),
            effective: self.effective.deep_view(),
            warnings: self.warnings.deep_view(),
        }
    }
}

impl Replica for SandboxPolicyResolution {
    fn replica(&self) -> (r: Self) {
        SandboxPolicyResolution {
            requested: self.requested.replica(),
            effective: self.effective.replica(),
            warnings: self.warnings.replica(),
        }
    }
}

impl Clone for SandboxPolicyResolution {
    fn clone(&self) -> (r: Self)
        ensures
            r.deep_view() == self.deep_view(),
    {
        self.replica()
    }
}

/// A command to run.
#[derive(Debug, PartialEq, Eq)]
pub struct SandboxRequest {
    /// The requested executable path on the host.
    pub program: String,
    pub args: Vec<String>,
    /// The requested working directory on the host.
    pub cwd: String,
    pub environment: TextMap<String>,
    pub policy: SandboxPolicy,
}

/// What a [`SandboxRequest`] holds.
#[verifier::ext_equal]
pub struct SandboxRequestView {
    pub program: Seq<char>,
    pub args: Seq<Seq<char>>,
    pub cwd: Seq<char>,
    pub environment: Map<Seq<char>, Seq<char>>,
    pub policy: SandboxPolicyView,
}

impl DeepView for SandboxRequest {
    type V = SandboxRequestView;

    open spec fn deep_view(&self) -> Self::V {
        SandboxRequestView {
            program: self.program.deep_view(),
            args: self.args.deep_view(),
            cwd: self.cwd.deep_view(),
            environment: self.environment.deep_view(),
            policy: self.policy.deep_view(),
        }
    }
}

impl Replica for SandboxRequest {
    fn replica(&self) -> (r: Self) {
        SandboxRequest {
            program: self.program.replica(),
            args: self.args.replica(),
            cwd: self.cwd.replica(),
            environment: self.environment.replica(),
            policy: self.policy.replica(),
        }
    }
}

impl Clone for SandboxRequest {
    fn clone(&self) -> (r: Self)
        ensures
            r.deep_view() == self.deep_view(),
    {
        self.replica()
    }
}

/// How a command ended.
#[derive(Debug, PartialEq, Eq)]
pub enum SandboxStatus {
    Exited { code: i32 },
    Signaled { signal: i32 },
    TimedOut,
    Cancelled,
    PolicyViolation { reason: String },
}

/// What a [`SandboxStatus`] holds.
#[verifier::ext_equal]
pub enum SandboxStatusView {
    Exited { code: i32 },
    Signaled { signal: i32 },
    TimedOut,
    Cancelled,
    PolicyViolation { reason: Seq<char> },
}

impl DeepView for SandboxStatus {
    type V = SandboxStatusView;

    open spec fn deep_view(&self) -> Self::V {
        match self {
            SandboxStatus::Exited { code } => SandboxStatusView::Exited {
                code: code.deep_view(),
            },
            SandboxStatus::Signaled { signal } => SandboxStatusView::Signaled {
                signal: signal.deep_view(),
            },
            SandboxStatus::TimedOut => SandboxStatusView::TimedOut,
            SandboxStatus::Cancelled => SandboxStatusView::Cancelled,
            SandboxStatus::PolicyViolation { reason } => SandboxStatusView::PolicyViolation {
                reason: reason.deep_view(),
            },
        }
    }
}

impl Replica for SandboxStatus {
    fn replica(&self) -> (r: Self) {
        match self {
            SandboxStatus::Exited { code } => SandboxStatus::Exited {
                code: code.replica(),
            },
            SandboxStatus::Signaled { signal } => SandboxStatus::Signaled {
                signal: signal.replica(),
            },
            SandboxStatus::TimedOut => SandboxStatus::TimedOut,
            SandboxStatus::Cancelled => SandboxStatus::Cancelled,
            SandboxStatus::PolicyViolation { reason } => SandboxStatus::PolicyViolation {
                reason: reason.replica(),
            },
        }
    }
}

impl Clone for SandboxStatus {
    fn clone(&self) -> (r: Self)
        ensures
            r.deep_view() == self.deep_view(),
    {
        self.replica()
    }
}

impl Same for SandboxStatus {
    fn same(&self, other: &Self) -> (r: bool) {
        match (self, other) {
            (
                SandboxStatus::Exited { code: a_code },
                SandboxStatus::Exited { code: b_code },
            ) => a_code.same(b_code),
            (
                SandboxStatus::Signaled { signal: a_signal },
                SandboxStatus::Signaled { signal: b_signal },
            ) => a_signal.same(b_signal),
            (SandboxStatus::TimedOut, SandboxStatus::TimedOut) => true,
            (SandboxStatus::Cancelled, SandboxStatus::Cancelled) => true,
            (
                SandboxStatus::PolicyViolation { reason: a_reason },
                SandboxStatus::PolicyViolation { reason: b_reason },
            ) => a_reason.same(b_reason),
            _ => false,
        }
    }
}

/// What a command left.
#[derive(Debug, PartialEq, Eq)]
pub struct SandboxOutput {
    pub status: SandboxStatus,
    pub stdout: Vec<u8>,
    pub stderr: Vec<u8>,
    pub warnings: Vec<SandboxWarning>,
    pub stdout_truncated: bool,
    pub stderr_truncated: bool,
    pub duration: TimeSpan,
}

/// What a [`SandboxOutput`] holds.
#[verifier::ext_equal]
pub struct SandboxOutputView {
    pub status: SandboxStatusView,
    pub stdout: Seq<u8>,
    pub stderr: Seq<u8>,
    pub warnings: Seq<SandboxWarningView>,
    pub stdout_truncated: bool,
    pub stderr_truncated: bool,
    pub duration: nat,
}

impl DeepView for SandboxOutput {
    type V = SandboxOutputView;

    open spec fn deep_view(&self) -> Self::V {
        SandboxOutputView {
            status: self.status.deep_view(),
            stdout: self.stdout.deep_view(),
            stderr: self.stderr.deep_view(),
            warnings: self.warnings.deep_view(),
            stdout_truncated: self.stdout_truncated.deep_view(),
            stderr_truncated: self.stderr_truncated.deep_view(),
            duration: self.duration.deep_view(),
        }
    }
}

impl Replica for SandboxOutput {
    fn replica(&self) -> (r: Self) {
        SandboxOutput {
            status: self.status.replica(),
            stdout: self.stdout.replica(),
            stderr: self.stderr.replica(),
            warnings: self.warnings.replica(),
            stdout_truncated: self.stdout_truncated.replica(),
            stderr_truncated: self.stderr_truncated.replica(),
            duration: self.duration.replica(),
        }
    }
}

impl Clone for SandboxOutput {
    fn clone(&self) -> (r: Self)
        ensures
            r.deep_view() == self.deep_view(),
    {
        self.replica()
    }
}

/// A result of a sandbox.
pub type SandboxResult<T> = core::result::Result<T, SandboxError>;

/// How an error is told.
pub open spec fn sandbox_error_text(error: SandboxErrorView) -> Seq<char> {
    match error {
        SandboxErrorView::InvalidRequest(message) => "invalid sandbox request: "@ + message,
        SandboxErrorView::UnsupportedPolicy(message) => "sandbox policy is unsupported: "@
            + message,
        SandboxErrorView::Launch(message) => "sandbox launch failed: "@ + message,
        SandboxErrorView::Io(message) => "sandbox I/O error: "@ + message,
    }
}

impl SandboxError {
    /// How the error is told.
    pub fn text(&self) -> (r: String)
        ensures
            r@ == sandbox_error_text(self.deep_view()),
    {
        match self {
            SandboxError::InvalidRequest(message) => glue2(
                "invalid sandbox request: ",
                message.as_str(),
            ),
            SandboxError::UnsupportedPolicy(message) => glue2(
                "sandbox policy is unsupported: ",
                message.as_str(),
            ),
            SandboxError::Launch(message) => glue2("sandbox launch failed: ", message.as_str()),
            SandboxError::Io(message) => glue2("sandbox I/O error: ", message.as_str()),
        }
    }
}

/// The components of an absolute path, without `.` and `..`.
pub open spec fn normal_parts(path: Seq<char>) -> core::result::Result<
    Seq<Seq<char>>,
    SandboxErrorView,
> {
    if !is_absolute(path) {
        Err(SandboxErrorView::InvalidRequest("filesystem paths must be absolute"@))
    } else {
        match climbed(path_parts(path)) {
            Some(parts) => Ok(parts),
            None => Err(
                SandboxErrorView::InvalidRequest("filesystem path escapes its root: "@ + path),
            ),
        }
    }
}

/// Splits an absolute path into its components, without `.` and `..`.
pub fn normalize_absolute_path(path: &str) -> (r: SandboxResult<Vec<String>>)
    ensures
        outcome_of(r) == normal_parts(path@),
{
    if !absolute(path) {
        return Err(
            SandboxError::InvalidRequest("filesystem paths must be absolute".to_owned()),
        );
    }
    match climb(&split_path(path)) {
        Some(parts) => Ok(parts),
        None => Err(
            SandboxError::InvalidRequest(glue2("filesystem path escapes its root: ", path)),
        ),
    }
}

/// The normal components of the base and of the visible path, which lies at or below it.
pub open spec fn scoped_parts(base: Seq<char>, visible: Seq<char>) -> core::result::Result<
    (Seq<Seq<char>>, Seq<Seq<char>>),
    SandboxErrorView,
> {
    match normal_parts(base) {
        Err(error) => Err(error),
        Ok(base) => match normal_parts(visible) {
            Err(error) => Err(error),
            Ok(visible) => if starts_with(visible, base) {
                Ok((base, visible))
            } else {
                Err(
                    SandboxErrorView::InvalidRequest(
                        "visible workspace path "@ + absolute_path(visible)
                            + " must be inside base path "@ + absolute_path(base),
                    ),
                )
            },
        },
    }
}

fn scope(base: &str, visible: &str) -> (r: SandboxResult<(Vec<String>, Vec<String>)>)
    ensures
        match r {
            Ok(parts) => scoped_parts(base@, visible@) == Ok::<
                (Seq<Seq<char>>, Seq<Seq<char>>),
                SandboxErrorView,
            >((parts.0.deep_view(), parts.1.deep_view())),
            Err(error) => scoped_parts(base@, visible@) == Err::<
                (Seq<Seq<char>>, Seq<Seq<char>>),
                SandboxErrorView,
            >(error.deep_view()),
        },
{
    let base = match normalize_absolute_path(base) {
        Ok(base) => base,
        Err(error) => return Err(error),
    };
    let visible = match normalize_absolute_path(visible) {
        Ok(visible) => visible,
        Err(error) => return Err(error),
    };
    if !begins_with(&visible, &base) {
        return Err(
            SandboxError::InvalidRequest(
                glue4(
                    "visible workspace path ",
                    write_absolute_path(&visible).as_str(),
                    " must be inside base path ",
                    write_absolute_path(&base).as_str(),
                ),
            ),
        );
    }
    Ok((base, visible))
}

/// What is wrong with a filesystem policy.
pub open spec fn filesystem_checked(policy: FilesystemPolicyView) -> core::result::Result<
    (),
    SandboxErrorView,
> {
    match policy {
        FilesystemPolicyView::WorkspaceScoped { base, visible, access: _ } => match scoped_parts(
            base,
            visible,
        ) {
            Ok(_) => Ok(()),
            Err(error) => Err(error),
        },
        _ => Ok(()),
    }
}

/// What a policy lets a command do with an absolute path. In a workspace the longest of the two
/// prefixes decides, compared by complete components.
pub open spec fn access_of(policy: FilesystemPolicyView, path: Seq<char>) -> core::result::Result<
    FilesystemAccess,
    SandboxErrorView,
> {
    match normal_parts(path) {
        Err(error) => Err(error),
        Ok(parts) => match policy {
            FilesystemPolicyView::Isolated => Ok(FilesystemAccess::Denied),
            FilesystemPolicyView::Host => Ok(FilesystemAccess::ReadWrite),
            FilesystemPolicyView::WorkspaceScoped { base, visible, access } =>
                match filesystem_checked(
                policy,
            ) {
                Err(error) => Err(error),
                Ok(_) => if starts_with(parts, path_parts(visible)) {
                    Ok(access)
                } else if starts_with(parts, path_parts(base)) {
                    Ok(FilesystemAccess::Denied)
                } else {
                    Ok(FilesystemAccess::ReadOnly)
                },
            },
        },
    }
}

impl FilesystemPolicy {
    /// One workspace, all of it visible.
    pub fn workspace(host_path: &str, access: FilesystemAccess) -> (r: Self)
        ensures
            r.deep_view() == (FilesystemPolicyView::WorkspaceScoped {
                base: host_path@,
                visible: host_path@,
                access,
            }),
    {
        FilesystemPolicy::WorkspaceScoped {
            base: host_path.to_owned(),
            visible: host_path.to_owned(),
            access,
        }
    }

    /// One subtree of a workspace; both paths are normalized.
    pub fn workspace_scoped(base: &str, visible: &str, access: FilesystemAccess) -> (r: SandboxResult<
        Self,
    >)
        ensures
            outcome_of(r) == (match scoped_parts(base@, visible@) {
                Ok(parts) => Ok::<FilesystemPolicyView, SandboxErrorView>(
                    FilesystemPolicyView::WorkspaceScoped {
                        base: absolute_path(parts.0),
                        visible: absolute_path(parts.1),
                        access,
                    },
                ),
                Err(error) => Err(error),
            }),
    {
        match scope(base, visible) {
            Ok((base, visible)) => Ok(
                FilesystemPolicy::WorkspaceScoped {
                    base: write_absolute_path(&base),
                    visible: write_absolute_path(&visible),
                    access,
                },
            ),
            Err(error) => Err(error),
        }
    }

    /// Resolve the effective access for an absolute path using longest-prefix
    /// matching on complete path components.
    pub fn access_for(&self, path: &str) -> (r: SandboxResult<FilesystemAccess>)
        ensures
            outcome_of(r) == access_of(self.deep_view(), path@),
    {
        let path = match normalize_absolute_path(path) {
            Ok(path) => path,
            Err(error) => return Err(error),
        };
        match self {
            FilesystemPolicy::Isolated => Ok(FilesystemAccess::Denied),
            FilesystemPolicy::Host => Ok(FilesystemAccess::ReadWrite),
            FilesystemPolicy::WorkspaceScoped { base, visible, access } => {
                match self.validate() {
                    Ok(_) => {},
                    Err(error) => return Err(error),
                }
                if begins_with(&path, &split_path(visible.as_str())) {
                    Ok(*access)
                } else if begins_with(&path, &split_path(base.as_str())) {
                    Ok(FilesystemAccess::Denied)
                } else {
                    Ok(FilesystemAccess::ReadOnly)
                }
            },
        }
    }

    /// Rejects a workspace whose visible path is not inside its base.
    pub fn validate(&self) -> (r: SandboxResult<()>)
        ensures
            outcome_of(r) == filesystem_checked(self.deep_view()),
    {
        match self {
            FilesystemPolicy::WorkspaceScoped { base, visible, access: _ } => match scope(
                base.as_str(),
                visible.as_str(),
            ) {
                Ok(_) => Ok(()),
                Err(error) => Err(error),
            },
            _ => Ok(()),
        }
    }
}

/// The policy that is asked for unless another is.
pub open spec fn default_policy() -> SandboxPolicyView {
    SandboxPolicyView {
        filesystem: strict_setting(FilesystemPolicyView::Isolated),
        network: strict_setting(NetworkAccess::Isolated),
        process: fallback_setting(default_process()),
        identity: fallback_setting(IdentityIsolation::Unprivileged),
        kernel_ops: fallback_setting(baseline_policy()),
    }
}

impl Default for SandboxPolicy {
    fn default() -> (r: Self)
        ensures
            r.deep_view() == default_policy(),
    {
        SandboxPolicy {
            filesystem: PolicySetting::strict(FilesystemPolicy::Isolated),
            network: PolicySetting::strict(NetworkAccess::Isolated),
            process: PolicySetting::fallback(
                ProcessPolicy {
                    visibility: ProcessVisibility::Isolated,
                    terminate_descendants: true,
                },
            ),
            identity: PolicySetting::fallback(IdentityIsolation::Unprivileged),
            kernel_ops: PolicySetting::fallback(KernelOpsPolicy::baseline()),
        }
    }
}

/// The default policy with one workspace, all of it visible.
pub open spec fn workspace_policy(
    host_path: Seq<char>,
    access: FilesystemAccess,
    network: NetworkAccess,
) -> SandboxPolicyView {
    SandboxPolicyView {
        filesystem: strict_setting(
            FilesystemPolicyView::WorkspaceScoped { base: host_path, visible: host_path, access },
        ),
        network: strict_setting(network),
        ..default_policy()
    }
}

impl SandboxPolicy {
    /// One workspace that can be read.
    pub fn workspace_read_only(host_path: &str) -> (r: Self)
        ensures
            r.deep_view() == workspace_policy(
                host_path@,
                FilesystemAccess::ReadOnly,
                NetworkAccess::Isolated,
            ),
    {
        let mut policy = SandboxPolicy::default();
        policy.filesystem = PolicySetting::strict(
            FilesystemPolicy::workspace(host_path, FilesystemAccess::ReadOnly),
        );
        policy
    }

    /// One workspace that can be read and written.
    pub fn workspace_read_write(host_path: &str) -> (r: Self)
        ensures
            r.deep_view() == workspace_policy(
                host_path@,
                FilesystemAccess::ReadWrite,
                NetworkAccess::Isolated,
            ),
    {
        let mut policy = SandboxPolicy::default();
        policy.filesystem = PolicySetting::strict(
            FilesystemPolicy::workspace(host_path, FilesystemAccess::ReadWrite),
        );
        policy
    }

    /// One workspace that can be read and written, and the network of the host.
    pub fn workspace_read_write_with_host_network(host_path: &str) -> (r: Self)
        ensures
            r.deep_view() == workspace_policy(
                host_path@,
                FilesystemAccess::ReadWrite,
                NetworkAccess::Host,
            ),
    {
        let mut policy = SandboxPolicy::default();
        policy.filesystem = PolicySetting::strict(
            FilesystemPolicy::workspace(host_path, FilesystemAccess::ReadWrite),
        );
        policy.network = PolicySetting::strict(NetworkAccess::Host);
        policy
    }

    /// One subtree of a workspace.
    pub fn workspace_scoped(base: &str, visible: &str, access: FilesystemAccess) -> (r: SandboxResult<
        Self,
    >)
        ensures
            outcome_of(r) == (match scoped_parts(base@, visible@) {
                Ok(parts) => Ok::<SandboxPolicyView, SandboxErrorView>(
                    SandboxPolicyView {
                        filesystem: strict_setting(
                            FilesystemPolicyView::WorkspaceScoped {
                                base: absolute_path(parts.0),
                                visible: absolute_path(parts.1),
                                access,
                            },
                        ),
                        ..default_policy()
                    },
                ),
                Err(error) => Err(error),
            }),
    {
        let filesystem = match FilesystemPolicy::workspace_scoped(base, visible, access) {
            Ok(filesystem) => filesystem,
            Err(error) => return Err(error),
        };
        let mut policy = SandboxPolicy::default();
        policy.filesystem = PolicySetting::strict(filesystem);
        Ok(policy)
    }

    /// Rejects a policy that cannot be enforced by any backend.
    pub fn validate(&self) -> (r: SandboxResult<()>)
        ensures
            outcome_of(r) == filesystem_checked(self.deep_view().filesystem.requested),
    {
        self.filesystem.requested.validate()
    }
}

/// What is wrong with a request.
pub open spec fn request_checked(request: SandboxRequestView) -> core::result::Result<
    (),
    SandboxErrorView,
> {
    if request.program.len() == 0 {
        Err(SandboxErrorView::InvalidRequest("program must not be empty"@))
    } else if !is_absolute(request.cwd) {
        Err(
            SandboxErrorView::InvalidRequest("working directory must be an absolute host path"@),
        )
    } else {
        filesystem_checked(request.policy.filesystem.requested)
    }
}

impl SandboxRequest {
    /// Rejects a request that cannot be launched by any backend.
    pub fn validate(&self) -> (r: SandboxResult<()>)
        ensures
            outcome_of(r) == request_checked(self.deep_view()),
    {
        if self.program.as_str().unicode_len() == 0 {
            return Err(SandboxError::InvalidRequest("program must not be empty".to_owned()));
        }
        if !absolute(self.cwd.as_str()) {
            return Err(
                SandboxError::InvalidRequest(
                    "working directory must be an absolute host path".to_owned(),
                ),
            );
        }
        self.policy.validate()
    }
}

/// The text of bytes, with the replacement character for what is not UTF-8.
pub uninterp spec fn lossy_text(bytes: Seq<u8>) -> Seq<char>;

/// `String::from_utf8_lossy`: the text depends on the bytes alone, and bytes that are UTF-8 are read
/// as the text that they encode.
#[verifier::external_body]
fn read_lossy(bytes: &[u8]) -> (r: String)
    ensures
        r@ == lossy_text(bytes@),
        valid_utf8(bytes@) ==> r@ == decode_utf8(bytes@),
{
    String::from_utf8_lossy(bytes).into_owned()
}

/// A letter from `A` to `Z` in lower case; any other character as it is.
pub open spec fn ascii_lower(c: char) -> char {
    if 'A' <= c && c <= 'Z' {
        (c as u32 + 32) as char
    } else {
        c
    }
}

fn lower(c: char) -> (r: char)
    ensures
        r == ascii_lower(c),
{
    if 'A' <= c && c <= 'Z' {
        let n: u32 = c as u32;
        let low: u8 = (n + 32) as u8;
        low as char
    } else {
        c
    }
}

/// A phrase stands in a text at a place, whatever the case of the letters from `A` to `Z`.
pub open spec fn phrase_at(text: Seq<char>, phrase: Seq<char>, at: int) -> bool {
    &&& 0 <= at <= text.len() - phrase.len()
    &&& forall|i: int| 0 <= i < phrase.len() ==> ascii_lower(text[at + i]) == #[trigger] phrase[i]
}

/// A phrase stands in a text, whatever the case of the letters from `A` to `Z`.
pub open spec fn holds_phrase(text: Seq<char>, phrase: Seq<char>) -> bool {
    exists|at: int| phrase_at(text, phrase, at)
}

fn letters(text: &str) -> (r: Vec<char>)
    ensures
        r@ == text@,
{
    let mut r: Vec<char> = Vec::new();
    for c in it: text.chars()
        invariant
            it.seq() == text@,
            r@ == text@.take(it.index() as int),
    {
        r.push(c);
        assert(r@ =~= text@.take(it.index() + 1));
    }
    assert(text@.take(text@.len() as int) =~= text@);
    r
}

/// Looks for a phrase in a text, whatever the case of the letters from `A` to `Z`.
pub fn find_phrase(text: &str, phrase: &str) -> (r: bool)
    ensures
        r == holds_phrase(text@, phrase@),
{
    let body = letters(text);
    let wanted = letters(phrase);
    let total: usize = body.len();
    let count: usize = wanted.len();
    if count > total {
        return false;
    }
    let last: usize = total - count;
    for at in 0..total
        invariant
            total == body@.len(),
            count == wanted@.len(),
            last == total - count,
            body@ == text@,
            wanted@ == phrase@,
            forall|k: int| 0 <= k < at ==> !phrase_at(text@, phrase@, k),
    {
        if at > last {
            return false;
        }
        let mut i: usize = 0;
        while i < count && lower(body[at + i]) == wanted[i]
            invariant
                total == body@.len(),
                count == wanted@.len(),
                last == total - count,
                at <= last,
                i <= count,
                forall|j: int| 0 <= j < i ==> ascii_lower(body@[at + j]) == #[trigger] wanted@[j],
            decreases count - i,
        {
            i = i + 1;
        }
        if i == count {
            assert(phrase_at(text@, phrase@, at as int));
            return true;
        }
        assert(ascii_lower(text@[at + i]) != phrase@[i as int]);
    }
    if count == 0 {
        assert(phrase_at(text@, phrase@, total as int));
        return true;
    }
    false
}

/// How a command ended, given what it wrote: an exit with a complaint about permissions is a
/// violation of the policy.
pub open spec fn status_classified(
    status: SandboxStatusView,
    message: Seq<char>,
) -> SandboxStatusView {
    if status is Exited && (holds_phrase(message, "operation not permitted"@) || holds_phrase(
        message,
        "permission denied"@,
    )) {
        SandboxStatusView::PolicyViolation { reason: trimmed(message) }
    } else {
        status
    }
}

/// Tells a violation of the policy from an exit, given what the command wrote.
pub fn classify_message(status: SandboxStatus, message: &str) -> (r: SandboxStatus)
    ensures
        r.deep_view() == status_classified(status.deep_view(), message@),
{
    match status {
        SandboxStatus::Exited { code } => {
            if find_phrase(message, "operation not permitted") || find_phrase(
                message,
                "permission denied",
            ) {
                SandboxStatus::PolicyViolation { reason: trim(message).to_owned() }
            } else {
                SandboxStatus::Exited { code }
            }
        },
        _ => status,
    }
}

/// Tells a violation of the policy from an exit, given the bytes that the command wrote.
pub fn classify_policy_violation(status: SandboxStatus, stderr: &[u8]) -> (r: SandboxStatus)
    ensures
        r.deep_view() == status_classified(status.deep_view(), lossy_text(stderr@)),
        valid_utf8(stderr@) ==> r.deep_view() == status_classified(
            status.deep_view(),
            decode_utf8(stderr@),
        ),
{
    classify_message(status, read_lossy(stderr).as_str())
}

/// What is known before a launch, given how the policy was resolved.
pub open spec fn preflight_outcome(
    request: SandboxRequestView,
    resolved: core::result::Result<SandboxPolicyResolutionView, SandboxErrorView>,
) -> core::result::Result<SandboxPreflightView, SandboxErrorView> {
    match request_checked(request) {
        Err(error) => Err(error),
        Ok(_) => match resolved {
            Err(error) => Err(error),
            Ok(_) => Ok(SandboxPreflightView::Allowed),
        },
    }
}

/// Tells what is known before a launch, given how the policy was resolved.
pub fn preflight_with(
    request: &SandboxRequest,
    resolved: SandboxResult<SandboxPolicyResolution>,
) -> (r: SandboxResult<SandboxPreflight>)
    ensures
        outcome_of(r) == preflight_outcome(request.deep_view(), outcome_of(resolved)),
{
    match request.validate() {
        Ok(_) => {},
        Err(error) => return Err(error),
    }
    match resolved {
        Ok(_) => Ok(SandboxPreflight::Allowed),
        Err(error) => Err(error),
    }
}

/// A backend that executes a native command under a semantic isolation policy.
pub trait SandboxBackend: Sized {
    /// How the backend is called.
    fn name(&self) -> (r: String);

    /// Validate whether a request can be launched under its requested policy.
    ///
    /// This is the only phase that may produce an approval suspension. Once
    /// execution begins, a policy violation is a failed, single-attempt
    /// execution and must not be retried automatically.
    fn preflight(&self, request: &SandboxRequest) -> (r: SandboxResult<SandboxPreflight>)
        default_ensures
            match request_checked(request.deep_view()) {
                Err(error) => outcome_of(r) == Err::<SandboxPreflightView, SandboxErrorView>(error),
                Ok(_) => exists|resolved: SandboxResult<SandboxPolicyResolution>|
                    {
                        &&& #[trigger] call_ensures(
                            Self::resolve_policy,
                            (self, &request.policy),
                            resolved,
                        )
                        &&& outcome_of(r) == preflight_outcome(
                            request.deep_view(),
                            outcome_of(resolved),
                        )
                    },
            },
    {
        match request.validate() {
            Ok(_) => {},
            Err(error) => return Err(error),
        }
        let resolved = self.resolve_policy(&request.policy);
        preflight_with(request, resolved)
    }

    /// Resolve the requested guarantees into the policy this backend can
    /// actually enforce.
    ///
    /// The returned warnings must describe every requested guarantee that was
    /// weakened or changed by fallback.
    fn resolve_policy(&self, policy: &SandboxPolicy) -> (r: SandboxResult<SandboxPolicyResolution>);
}

/// Unless a backend says otherwise, a request is allowed exactly where it is valid and its policy can
/// be resolved; an invalid request is refused whatever the policy comes to, and nothing is put down
/// to the policy beforehand.
pub proof fn law_valid_requests_are_allowed(
    request: SandboxRequestView,
    resolved: core::result::Result<SandboxPolicyResolutionView, SandboxErrorView>,
)
    ensures
        preflight_outcome(request, resolved) is Ok <==> request_checked(request) is Ok && resolved
            is Ok,
        preflight_outcome(request, resolved) matches Ok(outcome) ==> outcome
            == SandboxPreflightView::Allowed,
        request_checked(request) matches Err(error) ==> preflight_outcome(request, resolved) == Err::<
            SandboxPreflightView,
            SandboxErrorView,
        >(error),
        request_checked(request) is Ok ==> (resolved matches Err(error) ==> preflight_outcome(
            request,
            resolved,
        ) == Err::<SandboxPreflightView, SandboxErrorView>(error)),
{
}

/// In a workspace that was scoped, a path at or below the visible one has the access that was
/// asked for, any other path at or below the base is hidden, and the rest can only be read.
pub proof fn law_scoped_access(
    base: Seq<char>,
    visible: Seq<char>,
    access: FilesystemAccess,
    path: Seq<char>,
)
    requires
        scoped_parts(base, visible) is Ok,
        normal_parts(path) is Ok,
    ensures
        ({
            let parts = scoped_parts(base, visible)->Ok_0;
            let policy = FilesystemPolicyView::WorkspaceScoped {
                base: absolute_path(parts.0),
                visible: absolute_path(parts.1),
                access,
            };
            let place = normal_parts(path)->Ok_0;
            access_of(policy, path) == Ok::<FilesystemAccess, SandboxErrorView>(
                if starts_with(place, parts.1) {
                    access
                } else if starts_with(place, parts.0) {
                    FilesystemAccess::Denied
                } else {
                    FilesystemAccess::ReadOnly
                },
            )
        }),
{
    let parts = scoped_parts(base, visible)->Ok_0;
    law_normal_path_is_kept(base);
    law_normal_path_is_kept(visible);
}

/// A path that is written from its normal components has the same normal components, and they
/// are all of its components.
pub proof fn law_normal_path_is_kept(path: Seq<char>)
    requires
        normal_parts(path) is Ok,
    ensures
        ({
            let parts = normal_parts(path)->Ok_0;
            &&& path_parts(absolute_path(parts)) == parts
            &&& normal_parts(absolute_path(parts)) == normal_parts(path)
        }),
{
    let parts = normal_parts(path)->Ok_0;
    lemma_parts_are_parts(path);
    lemma_climbed_parts(path_parts(path));
    lemma_parts_of_absolute_path(parts);
    lemma_climbed_again(parts);
}

/// Without a filesystem nothing can be touched, and with that of the host everything can.
pub proof fn law_unscoped_access(path: Seq<char>)
    requires
        normal_parts(path) is Ok,
    ensures
        access_of(FilesystemPolicyView::Isolated, path) == Ok::<FilesystemAccess, SandboxErrorView>(
            FilesystemAccess::Denied,
        ),
        access_of(FilesystemPolicyView::Host, path) == Ok::<FilesystemAccess, SandboxErrorView>(
            FilesystemAccess::ReadWrite,
        ),
{
}

} // verus!
