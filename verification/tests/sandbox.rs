use canary_agent::tools::kernel_ops::{
    KernelOp, KernelOpSet, KernelOpViolationAction, KernelOpsPolicy,
};
use canary_agent::tools::sandbox::{
    classify_policy_violation, FilesystemAccess, FilesystemPolicy, IdentityIsolation,
    NetworkAccess, ProcessVisibility, SandboxBackend, SandboxError, SandboxPolicy,
    SandboxPolicyDimension, SandboxPreflight, SandboxRequest, SandboxStatus,
    UnsupportedPolicyBehavior,
};
use canary_agent::text_map::TextMap;
use canary_agent::time_span::TimeSpan;
use canary_agent::tools::windows_fake::WindowsFakeBackend;

#[test]
fn scoped_workspace_resolves_visibility_by_path() {
    let policy = FilesystemPolicy::workspace_scoped(
        "/workspace",
        "/workspace/user-a/thread-a",
        FilesystemAccess::ReadWrite,
    )
    .expect("valid scoped workspace");

    assert_eq!(
        policy
            .access_for("/workspace/user-a/thread-a/file")
            .unwrap(),
        FilesystemAccess::ReadWrite
    );
    assert_eq!(
        policy
            .access_for("/workspace/user-a/thread-b/file")
            .unwrap(),
        FilesystemAccess::Denied
    );
    assert_eq!(
        policy.access_for("/etc/hosts").unwrap(),
        FilesystemAccess::ReadOnly
    );
}

#[test]
fn baseline_blocks_high_risk_kernel_operations() {
    let KernelOpsPolicy::DenyList { denied, .. } = KernelOpsPolicy::baseline() else {
        panic!("baseline must be a deny list");
    };
    assert_eq!(denied.len(), 8);
    assert!(denied.contains(&KernelOp::ChangeNamespace));
    assert!(denied.contains(&KernelOp::TraceProcess));
    assert!(denied.contains(&KernelOp::LoadKernelCode));
}

#[test]
fn explicit_kernel_operation_lists_are_preserved() {
    let allowed = KernelOpSet::of(&vec![KernelOp::TraceProcess]);
    let policy = KernelOpsPolicy::AllowList {
        allowed: allowed.clone(),
        violation: KernelOpViolationAction::KillProcess,
    };
    assert_eq!(
        policy,
        KernelOpsPolicy::AllowList {
            allowed,
            violation: KernelOpViolationAction::KillProcess,
        }
    );
}

#[test]
fn paths_are_normalized_before_they_are_compared() {
    let policy = FilesystemPolicy::workspace_scoped(
        "/workspace/./a/..",
        "//workspace/b/",
        FilesystemAccess::ReadOnly,
    )
    .unwrap();
    assert_eq!(
        policy,
        FilesystemPolicy::WorkspaceScoped {
            base: "/workspace".to_string(),
            visible: "/workspace/b".to_string(),
            access: FilesystemAccess::ReadOnly,
        }
    );
    assert_eq!(
        policy.access_for("/workspace/c/../b/x").unwrap(),
        FilesystemAccess::ReadOnly
    );
    assert_eq!(
        policy.access_for("/workspace/bc").unwrap(),
        FilesystemAccess::Denied
    );
    assert_eq!(
        policy.access_for("/").unwrap(),
        FilesystemAccess::ReadOnly
    );
}

#[test]
fn paths_that_leave_the_root_or_the_base_are_rejected() {
    let error = FilesystemPolicy::Host.access_for("relative").unwrap_err();
    assert_eq!(
        error.text(),
        "invalid sandbox request: filesystem paths must be absolute"
    );
    let error = FilesystemPolicy::Host.access_for("/a/../..").unwrap_err();
    assert_eq!(
        error.text(),
        "invalid sandbox request: filesystem path escapes its root: /a/../.."
    );
    let error = SandboxPolicy::workspace_scoped("/a", "/b/../c", FilesystemAccess::ReadOnly)
        .unwrap_err();
    assert_eq!(
        error,
        SandboxError::InvalidRequest(
            "visible workspace path /c must be inside base path /a".to_string()
        )
    );
    assert_eq!(
        SandboxError::UnsupportedPolicy("x".to_string()).text(),
        "sandbox policy is unsupported: x"
    );
    assert_eq!(
        SandboxError::Launch("x".to_string()).text(),
        "sandbox launch failed: x"
    );
    assert_eq!(
        SandboxError::Io("x".to_string()).text(),
        "sandbox I/O error: x"
    );
}

#[test]
fn the_default_policy_is_isolated() {
    let policy = SandboxPolicy::default();
    assert_eq!(policy.filesystem.requested, FilesystemPolicy::Isolated);
    assert_eq!(
        policy.filesystem.unsupported,
        UnsupportedPolicyBehavior::Error
    );
    assert_eq!(policy.network.requested, NetworkAccess::Isolated);
    assert_eq!(policy.identity.requested, IdentityIsolation::Unprivileged);
    assert_eq!(
        policy.process.unsupported,
        UnsupportedPolicyBehavior::WarnAndFallback
    );
    assert!(policy.process.requested.terminate_descendants);
    let host = SandboxPolicy::workspace_read_write_with_host_network("/w");
    assert_eq!(host.network.requested, NetworkAccess::Host);
    assert_eq!(
        SandboxPolicy::workspace_read_only("/w").filesystem.requested,
        FilesystemPolicy::workspace("/w", FilesystemAccess::ReadOnly)
    );
    assert_eq!(
        SandboxPolicy::workspace_read_write("/w").filesystem.requested,
        FilesystemPolicy::workspace("/w", FilesystemAccess::ReadWrite)
    );
}

fn request(program: &str, cwd: &str, policy: SandboxPolicy) -> SandboxRequest {
    SandboxRequest {
        program: program.to_string(),
        args: vec![],
        cwd: cwd.to_string(),
        environment: TextMap::new(),
        policy,
    }
}

#[test]
fn preflight_rejects_what_cannot_be_launched() {
    let backend = WindowsFakeBackend::new();
    assert_eq!(backend.name(), "windows-fake");
    assert_eq!(
        backend
            .preflight(&request("", "/", SandboxPolicy::default()))
            .unwrap_err()
            .text(),
        "invalid sandbox request: program must not be empty"
    );
    assert_eq!(
        backend
            .preflight(&request("ls", "here", SandboxPolicy::default()))
            .unwrap_err()
            .text(),
        "invalid sandbox request: working directory must be an absolute host path"
    );
    assert_eq!(
        backend
            .preflight(&request("ls", "/", SandboxPolicy::workspace_read_only("w")))
            .unwrap_err()
            .text(),
        "invalid sandbox request: filesystem paths must be absolute"
    );
    assert_eq!(
        backend
            .preflight(&request("ls", "/", SandboxPolicy::default()))
            .unwrap(),
        SandboxPreflight::Allowed
    );
    let resolution = backend.resolve_policy(&SandboxPolicy::default()).unwrap();
    assert_eq!(resolution.requested, SandboxPolicy::default());
    let dimensions: Vec<SandboxPolicyDimension> =
        resolution.warnings.iter().map(|warning| warning.dimension).collect();
    assert_eq!(
        dimensions,
        vec![
            SandboxPolicyDimension::Filesystem,
            SandboxPolicyDimension::Network,
            SandboxPolicyDimension::Process,
            SandboxPolicyDimension::Identity,
            SandboxPolicyDimension::KernelOps,
        ]
    );
    assert_eq!(resolution.effective.filesystem, FilesystemPolicy::Host);
    assert_eq!(resolution.effective.network, NetworkAccess::Host);
    assert_eq!(resolution.effective.process.visibility, ProcessVisibility::Host);
    assert!(!resolution.effective.process.terminate_descendants);
    assert_eq!(resolution.effective.identity, IdentityIsolation::Host);
    assert_eq!(resolution.effective.kernel_ops, KernelOpsPolicy::Unrestricted);
    let shared = SandboxPolicy::workspace_read_write_with_host_network("/w");
    let resolution = backend.resolve_policy(&shared).unwrap();
    assert!(resolution
        .warnings
        .iter()
        .all(|warning| warning.dimension != SandboxPolicyDimension::Network));
    assert_eq!(
        resolution.warnings[0].message,
        "Windows MVP 使用 fake sandbox；当前不提供 OS 级文件系统隔离。"
    );
    assert!(backend
        .resolve_policy(&SandboxPolicy::workspace_read_only("w"))
        .is_err());
}

#[test]
fn complaints_about_permissions_are_policy_violations() {
    assert_eq!(
        classify_policy_violation(
            SandboxStatus::Exited { code: 1 },
            b"  mkdir: Operation NOT permitted\n"
        ),
        SandboxStatus::PolicyViolation {
            reason: "mkdir: Operation NOT permitted".to_string()
        }
    );
    assert_eq!(
        classify_policy_violation(SandboxStatus::Exited { code: 1 }, b"\xffpermission denied"),
        SandboxStatus::PolicyViolation {
            reason: "\u{fffd}permission denied".to_string()
        }
    );
    assert_eq!(
        classify_policy_violation(SandboxStatus::Exited { code: 1 }, b"permission"),
        SandboxStatus::Exited { code: 1 }
    );
    assert_eq!(
        classify_policy_violation(SandboxStatus::TimedOut, b"permission denied"),
        SandboxStatus::TimedOut
    );
}

#[test]
fn commands_without_isolation_end_with_a_warning() {
    let backend = WindowsFakeBackend::new();
    let span = TimeSpan::from_millis(1500);
    let output = backend.finish(
        &SandboxPolicy::default(),
        Some((3, b"out".to_vec(), b"err".to_vec())),
        span,
    );
    assert_eq!(output.status, SandboxStatus::Exited { code: 3 });
    assert_eq!(output.stdout, b"out".to_vec());
    assert_eq!(output.stderr, b"err".to_vec());
    assert_eq!(output.duration, span);
    assert_eq!(output.warnings.len(), 5);
    assert_eq!(output.warnings[4].dimension, SandboxPolicyDimension::KernelOps);
    assert_eq!(output.warnings[0].message, "fake sandbox: OS 隔离未启用");
    assert!(!output.stdout_truncated && !output.stderr_truncated);
    let output = backend.finish(&SandboxPolicy::workspace_read_write_with_host_network("/w"), None, span);
    assert_eq!(output.status, SandboxStatus::Cancelled);
    assert!(output.stdout.is_empty() && output.stderr.is_empty());
    assert_eq!(output.warnings.len(), 4);
}
