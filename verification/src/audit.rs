//! Plain records of what a device run reports about itself: dispatch audits, dispatch evidence
//! and cleanup counts.
use crate::text::same_text;
use vstd::prelude::*;

verus! {

/// What an execution request reports about the kernels it dispatched.
#[derive(Debug)]
pub struct AuditReport {
    pub selected_backend: String,
    pub target: String,
    pub submission_count: u64,
    pub kernel_dispatch_count: u64,
    pub fallback_used: bool,
    pub all_dispatches_hip: bool,
}

impl AuditReport {
    /// Whether the request ran kernels on the HIP backend of `target` and on nothing else.
    pub open spec fn is_hip_only(self, target: Seq<char>) -> bool {
        &&& self.target@ == target
        &&& self.selected_backend@ == "hip"@
        &&& self.kernel_dispatch_count > 0
        &&& !self.fallback_used
        &&& self.all_dispatches_hip
    }
}

/// Whether an audit shows kernels on the HIP backend of the target and on nothing else.
pub fn audit_is_valid(audit: &AuditReport, target: &str) -> (out: bool)
    ensures
        out == audit.is_hip_only(target@),
{
    same_text(audit.target.as_str(), target) && same_text(audit.selected_backend.as_str(), "hip")
        && audit.kernel_dispatch_count > 0 && !audit.fallback_used && audit.all_dispatches_hip
}

/// An audit is valid just where kernels ran, all of them on the HIP backend of the target and none by
/// way of a fallback.
pub proof fn valid_audits_ran_on_the_device_alone(audit: &AuditReport, target: &str, valid: bool)
    requires
        call_ensures(audit_is_valid, (audit, target), valid),
    ensures
        valid <==> {
            &&& audit.kernel_dispatch_count >= 1
            &&& audit.selected_backend@ == "hip"@
            &&& audit.target@ == target@
            &&& audit.all_dispatches_hip
            &&& !audit.fallback_used
        },
{
}

/// What a dispatch reports about itself.
#[derive(Clone, Debug)]
pub struct DispatchEvidence {
    pub abi_version: u32,
    pub info_version: u32,
    pub dispatch_id: u64,
    pub dispatch_count: u32,
    pub kernel_id: u32,
    pub workgroup_size_x: u32,
    pub grid_size_x: u32,
    pub row_count: u64,
    pub normalized_size: u64,
    pub backend: u32,
    pub fallback_allowed: bool,
    pub fallback_used: bool,
    pub kernel_symbol: String,
    pub device_symbol: String,
    pub target: String,
}

/// What a session could not release when it shut down.
#[derive(Clone, Copy, Debug, PartialEq, Eq, Structural)]
pub struct CleanupCounts {
    pub retryable_cleanup: usize,
    pub durable_quarantine: usize,
}

impl CleanupCounts {
    /// Whether everything was released.
    pub open spec fn is_zero(self) -> bool {
        self.retryable_cleanup == 0 && self.durable_quarantine == 0
    }

    /// Whether everything was released.
    pub fn terminal_zero(&self) -> (out: bool)
        ensures
            out == self.is_zero(),
    {
        self.retryable_cleanup == 0 && self.durable_quarantine == 0
    }
}

/// Everything was released just where nothing waits to be released and nothing is held for good.
pub proof fn released_sessions_hold_nothing(counts: &CleanupCounts, zero: bool)
    requires
        call_ensures(CleanupCounts::terminal_zero, (counts,), zero),
    ensures
        zero <==> counts.retryable_cleanup == 0 && counts.durable_quarantine == 0,
{
}

} // verus!
