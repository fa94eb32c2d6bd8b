//! A backend for Windows that keeps the requested policy in the request and validates the
//! workspace, but does not provide OS-level isolation.

use crate::same::outcome_of;
use crate::time_span::TimeSpan;
use crate::tools::kernel_ops::{KernelOpsPolicy, KernelOpsPolicyView};
use crate::tools::sandbox::{
    filesystem_checked, EffectiveSandboxPolicy, EffectiveSandboxPolicyView, FilesystemPolicy,
    FilesystemPolicyView, IdentityIsolation, NetworkAccess, ProcessPolicy, ProcessVisibility,
    SandboxBackend, SandboxErrorView, SandboxOutput, SandboxOutputView, SandboxPolicy,
    SandboxPolicyDimension, SandboxPolicyResolution, SandboxPolicyResolutionView,
    SandboxPolicyView, SandboxResult, SandboxStatus, SandboxStatusView, SandboxWarning,
    SandboxWarningView,
};
use vstd::prelude::*;

verus! {

/// The backend without isolation.
#[derive(Clone, Copy, Debug)]
pub struct WindowsFakeBackend;

impl WindowsFakeBackend {
    /// The backend.
    pub fn new() -> (r: Self)
        ensures
            r == WindowsFakeBackend,
    {
        WindowsFakeBackend
    }
}

/// What is enforced: nothing. A command has what the host has, whatever was asked for, and only the
/// command itself is ended with it.
pub open spec fn host_policy() -> EffectiveSandboxPolicyView {
    EffectiveSandboxPolicyView {
        filesystem: FilesystemPolicyView::Host,
        network: NetworkAccess::Host,
        process: ProcessPolicy {
            visibility: ProcessVisibility::Host,
            terminate_descendants: false,
        },
        identity: IdentityIsolation::Host,
        kernel_ops: KernelOpsPolicyView::Unrestricted,
    }
}

/// The dimension, where it is one to warn of.
pub open spec fn warned_if(weakened: bool, dimension: SandboxPolicyDimension) -> Seq<
    SandboxPolicyDimension,
> {
    if weakened {
        seq![dimension]
    } else {
        Seq::empty()
    }
}

/// What is warned of: the filesystem in any case, and every other guarantee that was asked for and
/// is not enforced.
pub open spec fn warned_of(policy: SandboxPolicyView) -> Seq<SandboxPolicyDimension> {
    let host = host_policy();
    seq![SandboxPolicyDimension::Filesystem]
        + warned_if(policy.network.requested != host.network, SandboxPolicyDimension::Network)
        + warned_if(policy.process.requested != host.process, SandboxPolicyDimension::Process)
        + warned_if(policy.identity.requested != host.identity, SandboxPolicyDimension::Identity)
        + warned_if(
        policy.kernel_ops.requested != host.kernel_ops,
        SandboxPolicyDimension::KernelOps,
    )
}

/// What is said of a guarantee before a command is launched.
pub open spec fn resolution_message(dimension: SandboxPolicyDimension) -> Seq<char> {
    match dimension {
        SandboxPolicyDimension::Filesystem =>
            "Windows MVP 使用 fake sandbox；当前不提供 OS 级文件系统隔离。"@,
        SandboxPolicyDimension::Network =>
            "Windows MVP 使用 fake sandbox；当前不提供 OS 级网络隔离。"@,
        SandboxPolicyDimension::Process =>
            "Windows MVP 使用 fake sandbox；当前不提供 OS 级进程隔离。"@,
        SandboxPolicyDimension::Identity =>
            "Windows MVP 使用 fake sandbox；当前不提供 OS 级身份隔离。"@,
        SandboxPolicyDimension::KernelOps =>
            "Windows MVP 使用 fake sandbox；当前不提供 OS 级内核操作限制。"@,
    }
}

/// The warnings before a command is launched.
pub open spec fn resolution_warnings(policy: SandboxPolicyView) -> Seq<SandboxWarningView> {
    warned_of(policy).map_values(
        |dimension: SandboxPolicyDimension|
            SandboxWarningView { dimension, message: resolution_message(dimension) },
    )
}

/// The warnings once a command has run.
pub open spec fn output_warnings(policy: SandboxPolicyView) -> Seq<SandboxWarningView> {
    warned_of(policy).map_values(
        |dimension: SandboxPolicyDimension|
            SandboxWarningView { dimension, message: "fake sandbox: OS 隔离未启用"@ },
    )
}

/// The dimensions that a command under a policy is warned of.
fn dimensions_to_warn_of(policy: &SandboxPolicy) -> (r: Vec<SandboxPolicyDimension>)
    ensures
        r@ == warned_of(policy.deep_view()),
{
    let mut r: Vec<SandboxPolicyDimension> = Vec::new();
    r.push(SandboxPolicyDimension::Filesystem);
    if policy.network.requested != NetworkAccess::Host {
        r.push(SandboxPolicyDimension::Network);
    }
    if policy.process.requested.visibility != ProcessVisibility::Host
        || policy.process.requested.terminate_descendants {
        r.push(SandboxPolicyDimension::Process);
    }
    if policy.identity.requested != IdentityIsolation::Host {
        r.push(SandboxPolicyDimension::Identity);
    }
    match policy.kernel_ops.requested {
        KernelOpsPolicy::Unrestricted => {},
        _ => {
            r.push(SandboxPolicyDimension::KernelOps);
        },
    }
    assert(r@ =~= warned_of(policy.deep_view()));
    r
}

/// Says what a guarantee comes to before a command is launched.
fn say_of_resolution(dimension: SandboxPolicyDimension) -> (r: String)
    ensures
        r@ == resolution_message(dimension),
{
    match dimension {
        SandboxPolicyDimension::Filesystem =>
            "Windows MVP 使用 fake sandbox；当前不提供 OS 级文件系统隔离。".to_owned(),
        SandboxPolicyDimension::Network =>
            "Windows MVP 使用 fake sandbox；当前不提供 OS 级网络隔离。".to_owned(),
        SandboxPolicyDimension::Process =>
            "Windows MVP 使用 fake sandbox；当前不提供 OS 级进程隔离。".to_owned(),
        SandboxPolicyDimension::Identity =>
            "Windows MVP 使用 fake sandbox；当前不提供 OS 级身份隔离。".to_owned(),
        SandboxPolicyDimension::KernelOps =>
            "Windows MVP 使用 fake sandbox；当前不提供 OS 级内核操作限制。".to_owned(),
    }
}

/// What a command comes to: how it ended and what it wrote, or nothing where it was cancelled; and
/// a warning of every guarantee that was asked for and is not enforced.
pub open spec fn fake_output(
    policy: SandboxPolicyView,
    ended: Option<(i32, Seq<u8>, Seq<u8>)>,
    duration: nat,
) -> SandboxOutputView {
    let (status, stdout, stderr) = match ended {
        Some((code, stdout, stderr)) => (SandboxStatusView::Exited { code }, stdout, stderr),
        None => (SandboxStatusView::Cancelled, Seq::empty(), Seq::empty()),
    };
    SandboxOutputView {
        status,
        stdout,
        stderr,
        warnings: output_warnings(policy),
        stdout_truncated: false,
        stderr_truncated: false,
        duration,
    }
}

impl WindowsFakeBackend {
    /// Tells what a command comes to, given the policy it was asked to run under, and its exit
    /// code, its output and its errors, or nothing where it was cancelled.
    pub fn finish(
        &self,
        policy: &SandboxPolicy,
        ended: Option<(i32, Vec<u8>, Vec<u8>)>,
        duration: TimeSpan,
    ) -> (r: SandboxOutput)
        ensures
            r.deep_view() == fake_output(
                policy.deep_view(),
                match ended {
                    Some((code, stdout, stderr)) => Some((code, stdout@, stderr@)),
                    None => None,
                },
                duration.deep_view(),
            ),
    {
        let dimensions = dimensions_to_warn_of(policy);
        let ghost want = output_warnings(policy.deep_view());
        let mut warnings: Vec<SandboxWarning> = Vec::new();
        assert(warnings.deep_view() =~= want.take(0));
        for i in 0..dimensions.len()
            invariant
                dimensions@ == warned_of(policy.deep_view()),
                want == output_warnings(policy.deep_view()),
                warnings.deep_view() == want.take(i as int),
        {
            let ghost before = warnings.deep_view();
            warnings.push(
                SandboxWarning {
                    dimension: dimensions[i],
                    message: "fake sandbox: OS 隔离未启用".to_owned(),
                },
            );
            assert(warnings.deep_view() =~= before.push(want[i as int]));
            assert(want.take(i + 1) =~= want.take(i as int).push(want[i as int]));
        }
        assert(want.take(dimensions.len() as int) =~= want);
        let (status, stdout, stderr) = match ended {
            Some((code, stdout, stderr)) => (SandboxStatus::Exited { code }, stdout, stderr),
            None => (SandboxStatus::Cancelled, Vec::new(), Vec::new()),
        };
        assert(stdout.deep_view() =~= stdout@);
        assert(stderr.deep_view() =~= stderr@);
        SandboxOutput {
            status,
            stdout,
            stderr,
            warnings,
            stdout_truncated: false,
            stderr_truncated: false,
            duration,
        }
    }
}

/// What a policy is resolved into: what the host has, with a warning of every guarantee that was
/// asked for and is not enforced.
pub open spec fn fake_resolution(policy: SandboxPolicyView) -> SandboxPolicyResolutionView {
    SandboxPolicyResolutionView {
        requested: policy,
        effective: host_policy(),
        warnings: resolution_warnings(policy),
    }
}

/// Some warning is of a dimension.
pub open spec fn warns_of(
    warnings: Seq<SandboxWarningView>,
    dimension: SandboxPolicyDimension,
) -> bool {
    exists|i: int| 0 <= i < warnings.len() && (#[trigger] warnings[i]).dimension == dimension
}

/// Every guarantee that was asked for and is not what is enforced is warned of, before a command is
/// launched and once it has run; and what is enforced is what the host has.
pub proof fn law_every_weakened_guarantee_is_warned_of(
    policy: SandboxPolicyView,
    ended: Option<(i32, Seq<u8>, Seq<u8>)>,
    duration: nat,
    dimension: SandboxPolicyDimension,
)
    requires
        match dimension {
            SandboxPolicyDimension::Filesystem => policy.filesystem.requested
                != FilesystemPolicyView::Host,
            SandboxPolicyDimension::Network => policy.network.requested != NetworkAccess::Host,
            SandboxPolicyDimension::Process => policy.process.requested.visibility
                != ProcessVisibility::Host || policy.process.requested.terminate_descendants,
            SandboxPolicyDimension::Identity => policy.identity.requested
                != IdentityIsolation::Host,
            SandboxPolicyDimension::KernelOps => policy.kernel_ops.requested
                != KernelOpsPolicyView::Unrestricted,
        },
    ensures
        warns_of(fake_resolution(policy).warnings, dimension),
        warns_of(fake_output(policy, ended, duration).warnings, dimension),
        fake_resolution(policy).requested == policy,
        fake_resolution(policy).effective == host_policy(),
{
    let dimensions = warned_of(policy);
    let network = warned_if(
        policy.network.requested != NetworkAccess::Host,
        SandboxPolicyDimension::Network,
    ).len() as int;
    let process = warned_if(
        policy.process.requested != host_policy().process,
        SandboxPolicyDimension::Process,
    ).len() as int;
    let identity = warned_if(
        policy.identity.requested != IdentityIsolation::Host,
        SandboxPolicyDimension::Identity,
    ).len() as int;
    let place: int = match dimension {
        SandboxPolicyDimension::Filesystem => 0,
        SandboxPolicyDimension::Network => 1,
        SandboxPolicyDimension::Process => 1 + network,
        SandboxPolicyDimension::Identity => 1 + network + process,
        SandboxPolicyDimension::KernelOps => 1 + network + process + identity,
    };
    assert(dimensions[place] == dimension);
    assert(fake_resolution(policy).warnings[place].dimension == dimension);
    assert(fake_output(policy, ended, duration).warnings[place].dimension == dimension);
}

impl SandboxBackend for WindowsFakeBackend {
    fn name(&self) -> (r: String)
        ensures
            r@ == "windows-fake"@,
    {
        "windows-fake".to_owned()
    }

    fn resolve_policy(&self, policy: &SandboxPolicy) -> (r: SandboxResult<SandboxPolicyResolution>)
        ensures
            outcome_of(r) == (match filesystem_checked(policy.deep_view().filesystem.requested) {
                Ok(_) => Ok::<SandboxPolicyResolutionView, SandboxErrorView>(
                    fake_resolution(policy.deep_view()),
                ),
                Err(error) => Err(error),
            }),
    {
        match policy.validate() {
            Ok(_) => {},
            Err(error) => return Err(error),
        }
        let dimensions = dimensions_to_warn_of(policy);
        let ghost want = resolution_warnings(policy.deep_view());
        let mut warnings: Vec<SandboxWarning> = Vec::new();
        assert(warnings.deep_view() =~= want.take(0));
        for i in 0..dimensions.len()
            invariant
                dimensions@ == warned_of(policy.deep_view()),
                want == resolution_warnings(policy.deep_view()),
                warnings.deep_view() == want.take(i as int),
        {
            let ghost before = warnings.deep_view();
            warnings.push(
                SandboxWarning {
                    dimension: dimensions[i],
                    message: say_of_resolution(dimensions[i]),
                },
            );
            assert(warnings.deep_view() =~= before.push(want[i as int]));
            assert(want.take(i + 1) =~= want.take(i as int).push(want[i as int]));
        }
        assert(want.take(dimensions.len() as int) =~= want);
        Ok(
            SandboxPolicyResolution {
                requested: policy.clone(),
                effective: EffectiveSandboxPolicy {
                    filesystem: FilesystemPolicy::Host,
                    network: NetworkAccess::Host,
                    process: ProcessPolicy {
                        visibility: ProcessVisibility::Host,
                        terminate_descendants: false,
                    },
                    identity: IdentityIsolation::Host,
                    kernel_ops: KernelOpsPolicy::Unrestricted,
                },
                warnings,
            },
        )
    }
}

} // verus!
