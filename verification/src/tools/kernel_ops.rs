//! Operations on the kernel that a sandbox can deny.

use crate::same::{Replica, Same};
use vstd::prelude::*;

verus! {

/// What happens to a command that tries a denied operation.
#[derive(Clone, Copy, Debug, PartialEq, Eq, Structural)]
pub enum KernelOpViolationAction {
    ReturnPermissionDenied,
    KillProcess,
}

impl DeepView for KernelOpViolationAction {
    type V = KernelOpViolationAction;

    open spec fn deep_view(&self) -> Self::V {
        *self
    }
}

impl Replica for KernelOpViolationAction {
    fn replica(&self) -> (r: Self) {
        *self
    }
}

impl Same for KernelOpViolationAction {
    fn same(&self, other: &Self) -> (r: bool) {
        *self == *other
    }
}

/// High-level operations that can affect the host kernel or other processes.
///
/// This is deliberately independent of syscall names and numbers. Backends
/// translate these operations into their native policy language.
#[derive(Clone, Copy, Debug, PartialEq, Eq, Structural)]
pub enum KernelOp {
    MountFilesystem,
    ChangeNamespace,
    TraceProcess,
    AccessProcessMemory,
    UseKernelInstrumentation,
    LoadKernelCode,
    AccessRawDevice,
    ManageSystemPower,
}

impl DeepView for KernelOp {
    type V = KernelOp;

    open spec fn deep_view(&self) -> Self::V {
        *self
    }
}

impl Replica for KernelOp {
    fn replica(&self) -> (r: Self) {
        *self
    }
}

impl Same for KernelOp {
    fn same(&self, other: &Self) -> (r: bool) {
        *self == *other
    }
}

impl KernelOp {
    /// Every operation, in order.
    pub fn all() -> (r: Vec<KernelOp>)
        ensures
            r@ == seq![
                KernelOp::MountFilesystem,
                KernelOp::ChangeNamespace,
                KernelOp::TraceProcess,
                KernelOp::AccessProcessMemory,
                KernelOp::UseKernelInstrumentation,
                KernelOp::LoadKernelCode,
                KernelOp::AccessRawDevice,
                KernelOp::ManageSystemPower,
            ],
            forall|op: KernelOp| r@.contains(op),
    {
        let r: Vec<KernelOp> = vec![
            KernelOp::MountFilesystem,
            KernelOp::ChangeNamespace,
            KernelOp::TraceProcess,
            KernelOp::AccessProcessMemory,
            KernelOp::UseKernelInstrumentation,
            KernelOp::LoadKernelCode,
            KernelOp::AccessRawDevice,
            KernelOp::ManageSystemPower,
        ];
        assert(r@ =~= seq![
            KernelOp::MountFilesystem,
            KernelOp::ChangeNamespace,
            KernelOp::TraceProcess,
            KernelOp::AccessProcessMemory,
            KernelOp::UseKernelInstrumentation,
            KernelOp::LoadKernelCode,
            KernelOp::AccessRawDevice,
            KernelOp::ManageSystemPower,
        ]);
        assert forall|op: KernelOp| r@.contains(op) by {
            match op {
                KernelOp::MountFilesystem => assert(r@[0] == op),
                KernelOp::ChangeNamespace => assert(r@[1] == op),
                KernelOp::TraceProcess => assert(r@[2] == op),
                KernelOp::AccessProcessMemory => assert(r@[3] == op),
                KernelOp::UseKernelInstrumentation => assert(r@[4] == op),
                KernelOp::LoadKernelCode => assert(r@[5] == op),
                KernelOp::AccessRawDevice => assert(r@[6] == op),
                KernelOp::ManageSystemPower => assert(r@[7] == op),
            }
        }
        r
    }
}

/// A set of operations.
#[derive(Clone, Copy, Debug, PartialEq, Eq, Structural)]
pub struct KernelOpSet {
    mount_filesystem: bool,
    change_namespace: bool,
    trace_process: bool,
    access_process_memory: bool,
    use_kernel_instrumentation: bool,
    load_kernel_code: bool,
    access_raw_device: bool,
    manage_system_power: bool,
}

/// A set with one more operation, or without.
pub open spec fn with_if(set: Set<KernelOp>, present: bool, op: KernelOp) -> Set<KernelOp> {
    if present {
        set.insert(op)
    } else {
        set
    }
}

impl View for KernelOpSet {
    type V = Set<KernelOp>;

    closed spec fn view(&self) -> Self::V {
        let set = Set::<KernelOp>::empty();
        let set = with_if(set, self.mount_filesystem, KernelOp::MountFilesystem);
        let set = with_if(set, self.change_namespace, KernelOp::ChangeNamespace);
        let set = with_if(set, self.trace_process, KernelOp::TraceProcess);
        let set = with_if(set, self.access_process_memory, KernelOp::AccessProcessMemory);
        let set = with_if(set, self.use_kernel_instrumentation, KernelOp::UseKernelInstrumentation);
        let set = with_if(set, self.load_kernel_code, KernelOp::LoadKernelCode);
        let set = with_if(set, self.access_raw_device, KernelOp::AccessRawDevice);
        let set = with_if(set, self.manage_system_power, KernelOp::ManageSystemPower);
        set
    }
}

impl DeepView for KernelOpSet {
    type V = Set<KernelOp>;

    open spec fn deep_view(&self) -> Self::V {
        self@
    }
}

impl Replica for KernelOpSet {
    fn replica(&self) -> (r: Self) {
        *self
    }
}

impl KernelOpSet {
    /// No operation.
    pub fn new() -> (r: Self)
        ensures
            r@ == Set::<KernelOp>::empty(),
    {
        KernelOpSet {
            mount_filesystem: false,
            change_namespace: false,
            trace_process: false,
            access_process_memory: false,
            use_kernel_instrumentation: false,
            load_kernel_code: false,
            access_raw_device: false,
            manage_system_power: false,
        }
    }

    /// One more operation.
    pub fn with(self, op: KernelOp) -> (r: Self)
        ensures
            r@ == self@.insert(op),
    {
        let mut r = self;
        match op {
            KernelOp::MountFilesystem => r.mount_filesystem = true,
            KernelOp::ChangeNamespace => r.change_namespace = true,
            KernelOp::TraceProcess => r.trace_process = true,
            KernelOp::AccessProcessMemory => r.access_process_memory = true,
            KernelOp::UseKernelInstrumentation => r.use_kernel_instrumentation = true,
            KernelOp::LoadKernelCode => r.load_kernel_code = true,
            KernelOp::AccessRawDevice => r.access_raw_device = true,
            KernelOp::ManageSystemPower => r.manage_system_power = true,
        }
        assert(r@ =~= self@.insert(op));
        r
    }

    /// Tells whether an operation is in the set.
    pub fn contains(&self, op: &KernelOp) -> (r: bool)
        ensures
            r == self@.contains(*op),
    {
        match op {
            KernelOp::MountFilesystem => self.mount_filesystem,
            KernelOp::ChangeNamespace => self.change_namespace,
            KernelOp::TraceProcess => self.trace_process,
            KernelOp::AccessProcessMemory => self.access_process_memory,
            KernelOp::UseKernelInstrumentation => self.use_kernel_instrumentation,
            KernelOp::LoadKernelCode => self.load_kernel_code,
            KernelOp::AccessRawDevice => self.access_raw_device,
            KernelOp::ManageSystemPower => self.manage_system_power,
        }
    }

    /// The number of operations in the set.
    pub fn len(&self) -> (r: usize)
        ensures
            r == self@.len(),
    {
        let mut count: usize = 0;
        let ghost mut set = Set::<KernelOp>::empty();
        if self.mount_filesystem {
            count = count + 1;
        }
        proof {
            set = with_if(set, self.mount_filesystem, KernelOp::MountFilesystem);
            assert(count == set.len());
        }
        if self.change_namespace {
            count = count + 1;
        }
        proof {
            set = with_if(set, self.change_namespace, KernelOp::ChangeNamespace);
            assert(count == set.len());
        }
        if self.trace_process {
            count = count + 1;
        }
        proof {
            set = with_if(set, self.trace_process, KernelOp::TraceProcess);
            assert(count == set.len());
        }
        if self.access_process_memory {
            count = count + 1;
        }
        proof {
            set = with_if(set, self.access_process_memory, KernelOp::AccessProcessMemory);
            assert(count == set.len());
        }
        if self.use_kernel_instrumentation {
            count = count + 1;
        }
        proof {
            set = with_if(set, self.use_kernel_instrumentation, KernelOp::UseKernelInstrumentation);
            assert(count == set.len());
        }
        if self.load_kernel_code {
            count = count + 1;
        }
        proof {
            set = with_if(set, self.load_kernel_code, KernelOp::LoadKernelCode);
            assert(count == set.len());
        }
        if self.access_raw_device {
            count = count + 1;
        }
        proof {
            set = with_if(set, self.access_raw_device, KernelOp::AccessRawDevice);
            assert(count == set.len());
        }
        if self.manage_system_power {
            count = count + 1;
        }
        proof {
            set = with_if(set, self.manage_system_power, KernelOp::ManageSystemPower);
            assert(count == set.len());
        }
        count
    }

    /// The operations of a list.
    pub fn of(ops: &Vec<KernelOp>) -> (r: Self)
        ensures
            r@ == ops@.to_set(),
    {
        let mut r = Self::new();
        assert(ops@.take(0).to_set() =~= Set::<KernelOp>::empty());
        for i in 0..ops.len()
            invariant
                r@ == ops@.take(i as int).to_set(),
        {
            let ghost before = ops@.take(i as int);
            let ghost now = ops@.take(i + 1);
            r = r.with(ops[i]);
            assert(now =~= before.push(ops@[i as int]));
            assert forall|op: KernelOp| now.to_set().contains(op) <==> #[trigger] before.to_set().insert(
                ops@[i as int],
            ).contains(op) by {
                if before.contains(op) {
                    let j = choose|j: int| 0 <= j < before.len() && before[j] == op;
                    assert(now[j] == op);
                }
                assert(now[i as int] == ops@[i as int]);
            }
            assert(now.to_set() =~= before.to_set().insert(ops@[i as int]));
        }
        assert(ops@.take(ops.len() as int) =~= ops@);
        r
    }
}

impl Same for KernelOpSet {
    fn same(&self, other: &Self) -> (r: bool) {
        let ops = KernelOp::all();
        for i in 0..ops.len()
            invariant
                forall|op: KernelOp| ops@.contains(op),
                forall|j: int|
                    0 <= j < i ==> self@.contains(#[trigger] ops@[j]) == other@.contains(ops@[j]),
        {
            if self.contains(&ops[i]) != other.contains(&ops[i]) {
                return false;
            }
        }
        assert forall|op: KernelOp| self@.contains(op) == other@.contains(op) by {
            assert(ops@.contains(op));
        }
        assert(self@ =~= other@);
        true
    }
}

/// Kernel-operation restrictions requested from a sandbox backend.
#[derive(Debug, PartialEq, Eq)]
pub enum KernelOpsPolicy {
    /// Do not install a kernel-operation filter.
    Unrestricted,
    /// Deny the listed operation groups and allow all other operations.
    DenyList { denied: KernelOpSet, violation: KernelOpViolationAction },
    /// Allow only the listed operation groups. This is intentionally opt-in:
    /// arbitrary shells and language runtimes need a broad syscall surface.
    AllowList { allowed: KernelOpSet, violation: KernelOpViolationAction },
}

/// What a [`KernelOpsPolicy`] holds.
#[verifier::ext_equal]
pub enum KernelOpsPolicyView {
    Unrestricted,
    DenyList { denied: Set<KernelOp>, violation: KernelOpViolationAction },
    AllowList { allowed: Set<KernelOp>, violation: KernelOpViolationAction },
}

impl DeepView for KernelOpsPolicy {
    type V = KernelOpsPolicyView;

    open spec fn deep_view(&self) -> Self::V {
        match self {
            KernelOpsPolicy::Unrestricted => KernelOpsPolicyView::Unrestricted,
            KernelOpsPolicy::DenyList { denied, violation } => KernelOpsPolicyView::DenyList {
                denied: denied.deep_view(),
                violation: violation.deep_view(),
            },
            KernelOpsPolicy::AllowList { allowed, violation } => KernelOpsPolicyView::AllowList {
                allowed: allowed.deep_view(),
                violation: violation.deep_view(),
            },
        }
    }
}

impl Replica for KernelOpsPolicy {
    fn replica(&self) -> (r: Self) {
        match self {
            KernelOpsPolicy::Unrestricted => KernelOpsPolicy::Unrestricted,
            KernelOpsPolicy::DenyList { denied, violation } => KernelOpsPolicy::DenyList {
                denied: denied.replica(),
                violation: violation.replica(),
            },
            KernelOpsPolicy::AllowList { allowed, violation } => KernelOpsPolicy::AllowList {
                allowed: allowed.replica(),
                violation: violation.replica(),
            },
        }
    }
}

impl Clone for KernelOpsPolicy {
    fn clone(&self) -> (r: Self)
        ensures
            r.deep_view() == self.deep_view(),
    {
        self.replica()
    }
}

impl Same for KernelOpsPolicy {
    fn same(&self, other: &Self) -> (r: bool) {
        match (self, other) {
            (KernelOpsPolicy::Unrestricted, KernelOpsPolicy::Unrestricted) => true,
            (
                KernelOpsPolicy::DenyList { denied: a_denied, violation: a_violation },
                KernelOpsPolicy::DenyList { denied: b_denied, violation: b_violation },
            ) => a_denied.same(b_denied) && a_violation.same(b_violation),
            (
                KernelOpsPolicy::AllowList { allowed: a_allowed, violation: a_violation },
                KernelOpsPolicy::AllowList { allowed: b_allowed, violation: b_violation },
            ) => a_allowed.same(b_allowed) && a_violation.same(b_violation),
            _ => false,
        }
    }
}

/// The baseline denies every operation.
pub open spec fn baseline_policy() -> KernelOpsPolicyView {
    KernelOpsPolicyView::DenyList {
        denied: Set::full(),
        violation: KernelOpViolationAction::ReturnPermissionDenied,
    }
}

impl KernelOpsPolicy {
    /// A practical baseline for untrusted command execution. It blocks
    /// operations that can create further isolation escapes, inspect or alter
    /// other processes, load kernel functionality, access raw device handles,
    /// or change system power state.
    pub fn baseline() -> (r: Self)
        ensures
            r.deep_view() == baseline_policy(),
    {
        let denied = KernelOpSet::of(&KernelOp::all());
        assert(denied@ =~= Set::full());
        KernelOpsPolicy::DenyList {
            denied,
            violation: KernelOpViolationAction::ReturnPermissionDenied,
        }
    }
}

} // verus!
