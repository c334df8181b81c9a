//! The verdicts of the catch-up state check: what a truncation, a catch-up and a whole run showed.
use crate::audit::{audit_is_valid, AuditReport, CleanupCounts};
use crate::digest::digest_of;
use crate::kv_image::{hash_payload, payload_image, payload_views, same_payloads, LayerPayload};
use crate::mtp_numeric::{
    diff_refusal, equal_rows_have_no_steps, first_difference_is_first, max_steps, numeric_diff,
    NumericDiff,
};
use crate::number::f32_rank;
use crate::mtp_path::DRAFT_WIDTH;
use crate::state_check::{
    first_logit_difference, first_logit_places, float_diff, logit_mismatch, logit_refusal,
    LogitRefusal, TruncationPlan,
};
use crate::text::{
    append_decimal, bool_str, bool_text, decimal, joined3, push_text, same_text, texts,
};
use vstd::prelude::*;
use vstd::string::StringExecFns;

verus! {

broadcast use vstd::string::group_string_axioms;

/// What a draft request gave after a catch-up: its length, its cache, the step that followed, and
/// its audit.
#[derive(Debug)]
pub struct CaughtUp {
    pub committed_length: u64,
    pub kv: Vec<LayerPayload>,
    pub next_hidden: Vec<u16>,
    pub next_logits: Vec<u32>,
    pub next_token: Option<i32>,
    pub audit: AuditReport,
}

/// Why two requests cannot be compared after a catch-up.
#[derive(Debug)]
pub enum StateRefusal {
    Hidden(String),
    Logits(LogitRefusal),
}

/// Whether an outcome is the refusal that the next rows of two requests call for.
pub open spec fn refuses_next<T>(out: Result<T, StateRefusal>, a: CaughtUp, b: CaughtUp) -> bool {
    match diff_refusal(a.next_hidden@, b.next_hidden@) {
        Some(message) => out matches Err(StateRefusal::Hidden(text)) && text@ == message,
        None => match logit_refusal(a.next_logits@, b.next_logits@) {
            Some(refusal) => out matches Err(StateRefusal::Logits(found)) && found == refusal,
            None => false,
        },
    }
}

/// Whether the next rows of two requests can be compared.
pub open spec fn comparable(a: CaughtUp, b: CaughtUp) -> bool {
    &&& diff_refusal(a.next_hidden@, b.next_hidden@) is None
    &&& logit_refusal(a.next_logits@, b.next_logits@) is None
}

/// How two requests compare after a catch-up.
#[derive(Clone, Copy, Debug, PartialEq, Eq)]
pub struct StateComparison {
    pub kv_payload_match: bool,
    pub next_hidden: NumericDiff,
    pub next_logits_first_mismatch: Option<usize>,
    pub next_token_match: bool,
}

impl StateComparison {
    /// The comparison of two requests.
    pub open spec fn compares(self, a: CaughtUp, b: CaughtUp) -> bool {
        &&& self.kv_payload_match == (payload_views(a.kv@) == payload_views(b.kv@))
        &&& self.next_hidden.compares(a.next_hidden@, b.next_hidden@)
        &&& self.next_logits_first_mismatch == logit_mismatch(a.next_logits@, b.next_logits@)
        &&& self.next_token_match == (a.next_token == b.next_token)
    }

    /// Whether the states are the same, to the bit in the cache and in value in the next step.
    pub open spec fn is_exact(self) -> bool {
        &&& self.kv_payload_match
        &&& self.next_hidden.max_ulp == 0
        &&& self.next_logits_first_mismatch is None
        &&& self.next_token_match
    }

    /// Whether the states are the same.
    pub fn exact(&self) -> (out: bool)
        ensures
            out == self.is_exact(),
    {
        self.kv_payload_match && self.next_hidden.max_ulp == 0
            && self.next_logits_first_mismatch.is_none() && self.next_token_match
    }
}

fn same_token(a: Option<i32>, b: Option<i32>) -> (out: bool)
    ensures
        out == (a == b),
{
    match (a, b) {
        (Some(x), Some(y)) => x == y,
        (None, None) => true,
        _ => false,
    }
}

/// Compares two requests after a catch-up.
pub fn compare_states(a: &CaughtUp, b: &CaughtUp) -> (out: Result<StateComparison, StateRefusal>)
    ensures
        if comparable(*a, *b) {
            out is Ok && out->Ok_0.compares(*a, *b)
        } else {
            refuses_next(out, *a, *b)
        },
{
    let kv_payload_match = same_payloads(&a.kv, &b.kv);
    let next_hidden = match numeric_diff(a.next_hidden.as_slice(), b.next_hidden.as_slice()) {
        Ok(diff) => diff,
        Err(message) => {
            return Err(StateRefusal::Hidden(message));
        },
    };
    let next_logits_first_mismatch = match float_diff(
        a.next_logits.as_slice(),
        b.next_logits.as_slice(),
    ) {
        Ok(first) => first,
        Err(refusal) => {
            return Err(StateRefusal::Logits(refusal));
        },
    };
    Ok(
        StateComparison {
            kv_payload_match,
            next_hidden,
            next_logits_first_mismatch,
            next_token_match: same_token(a.next_token, b.next_token),
        },
    )
}

/// Logits that are the same differ nowhere.
proof fn same_logits_do_not_differ(row: Seq<u32>, from: int)
    requires
        0 <= from <= row.len(),
    ensures
        first_logit_difference(row, row, from) == row.len(),
    decreases row.len() - from,
{
    if from < row.len() {
        same_logits_do_not_differ(row, from + 1);
    }
}

/// Two requests that hold the same cache and made the same step compare as exact.
pub proof fn equal_states_are_exact(comparison: StateComparison, a: CaughtUp, b: CaughtUp)
    requires
        comparison.compares(a, b),
        payload_views(a.kv@) == payload_views(b.kv@),
        a.next_hidden@ == b.next_hidden@,
        a.next_logits@ == b.next_logits@,
        a.next_token == b.next_token,
    ensures
        comparison.is_exact(),
{
    equal_rows_have_no_steps(a.next_hidden@);
    same_logits_do_not_differ(a.next_logits@, 0);
}

/// What the audits of a pair of requests show together.
#[derive(Clone, Copy, Debug, PartialEq, Eq, Structural)]
pub struct PairDispatch {
    pub first_kernel_dispatches: u64,
    pub second_kernel_dispatches: u64,
    pub exact_target: bool,
    pub all_hip: bool,
    pub fallback_used: bool,
}

impl PairDispatch {
    /// What two audits show together.
    pub open spec fn reads(self, a: AuditReport, b: AuditReport, target: Seq<char>) -> bool {
        &&& self.first_kernel_dispatches == a.kernel_dispatch_count
        &&& self.second_kernel_dispatches == b.kernel_dispatch_count
        &&& self.exact_target == (a.target@ == target && b.target@ == target)
        &&& self.all_hip == (a.selected_backend@ == "hip"@ && b.selected_backend@ == "hip"@
            && a.all_dispatches_hip && b.all_dispatches_hip)
        &&& self.fallback_used == (a.fallback_used || b.fallback_used)
    }

    /// Whether both requests ran kernels on the HIP backend of the target and nothing else.
    pub open spec fn is_clean(self) -> bool {
        &&& self.exact_target
        &&& self.all_hip
        &&& !self.fallback_used
        &&& self.first_kernel_dispatches > 0
        &&& self.second_kernel_dispatches > 0
    }
}

fn read_pair(a: &AuditReport, b: &AuditReport, target: &str) -> (out: PairDispatch)
    ensures
        out.reads(*a, *b, target@),
{
    PairDispatch {
        first_kernel_dispatches: a.kernel_dispatch_count,
        second_kernel_dispatches: b.kernel_dispatch_count,
        exact_target: same_text(a.target.as_str(), target) && same_text(
            b.target.as_str(),
            target,
        ),
        all_hip: same_text(a.selected_backend.as_str(), "hip") && same_text(
            b.selected_backend.as_str(),
            "hip",
        ) && a.all_dispatches_hip && b.all_dispatches_hip,
        fallback_used: a.fallback_used || b.fallback_used,
    }
}

/// What cutting a batch back to some of its rows showed.
#[derive(Clone, Copy, Debug, PartialEq, Eq)]
pub struct TruncationReport {
    pub plan: TruncationPlan,
    pub observed_length: u64,
    pub length_match: bool,
    pub state: StateComparison,
    pub dispatch: PairDispatch,
    pub exact: bool,
}

impl TruncationReport {
    /// The report on a cut request and one that took only the rows that were kept.
    pub open spec fn reports(
        self,
        plan: TruncationPlan,
        truncated: CaughtUp,
        scalar: CaughtUp,
        target: Seq<char>,
    ) -> bool {
        &&& self.plan == plan
        &&& self.observed_length == truncated.committed_length
        &&& self.length_match == (truncated.committed_length == plan.expected_length)
        &&& self.state.compares(truncated, scalar)
        &&& self.dispatch.reads(truncated.audit, scalar.audit, target)
        &&& self.exact == (self.length_match && self.state.is_exact() && self.dispatch.is_clean())
    }
}

/// Holds a cut request against one that took only the rows that were kept.
pub fn truncation_report(
    plan: TruncationPlan,
    truncated: &CaughtUp,
    scalar: &CaughtUp,
    target: &str,
) -> (out: Result<TruncationReport, StateRefusal>)
    ensures
        if comparable(*truncated, *scalar) {
            out is Ok && out->Ok_0.reports(plan, *truncated, *scalar, target@)
        } else {
            refuses_next(out, *truncated, *scalar)
        },
{
    let state = match compare_states(truncated, scalar) {
        Ok(state) => state,
        Err(refusal) => {
            return Err(refusal);
        },
    };
    let dispatch = read_pair(&truncated.audit, &scalar.audit, target);
    let length_match = truncated.committed_length == plan.expected_length;
    Ok(
        TruncationReport {
            plan,
            observed_length: truncated.committed_length,
            length_match,
            state,
            dispatch,
            exact: length_match && state.exact() && dispatch.exact_target && dispatch.all_hip
                && !dispatch.fallback_used && dispatch.first_kernel_dispatches > 0
                && dispatch.second_kernel_dispatches > 0,
        },
    )
}

/// A truncation is exact only where both requests pass the audit on their own.
pub proof fn exact_truncations_pass_the_audit(
    report: TruncationReport,
    plan: TruncationPlan,
    truncated: CaughtUp,
    scalar: CaughtUp,
    target: Seq<char>,
)
    requires
        report.reports(plan, truncated, scalar, target),
    ensures
        report.exact == (truncated.committed_length == plan.expected_length
            && report.state.is_exact() && truncated.audit.is_hip_only(target)
            && scalar.audit.is_hip_only(target)),
{
}

/// The message about a truncation that is not exact.
pub open spec fn truncation_message(report: TruncationReport, logits_abs: Seq<char>) -> Seq<char> {
    "truncation 3->"@ + decimal(report.plan.to_rows as nat) + " mismatch: length="@ + bool_text(
        report.length_match,
    ) + " kv="@ + bool_text(report.state.kv_payload_match) + " hidden_ulp="@ + decimal(
        report.state.next_hidden.max_ulp as nat,
    ) + " logits_abs="@ + logits_abs + " token="@ + bool_text(report.state.next_token_match)
}

/// Records a truncation: a failure where it is not exact.
pub fn record_truncation(failures: &mut Vec<String>, report: &TruncationReport, logits_abs: &str)
    ensures
        texts(final(failures)@) == if report.exact {
            texts(old(failures)@)
        } else {
            texts(old(failures)@).push(truncation_message(*report, logits_abs@))
        },
{
    if !report.exact {
        let mut message = "truncation 3->".to_owned();
        append_decimal(&mut message, report.plan.to_rows as u64);
        message.append(" mismatch: length=");
        message.append(bool_str(report.length_match));
        message.append(" kv=");
        message.append(bool_str(report.state.kv_payload_match));
        message.append(" hidden_ulp=");
        append_decimal(&mut message, report.state.next_hidden.max_ulp);
        message.append(" logits_abs=");
        message.append(logits_abs);
        message.append(" token=");
        message.append(bool_str(report.state.next_token_match));
        push_text(failures, message);
    }
}

/// Records a truncation that could not be measured.
pub fn record_unmeasured_truncation(failures: &mut Vec<String>, to_rows: usize, error: &str)
    ensures
        texts(final(failures)@) == texts(old(failures)@).push(
            "truncation 3->"@ + decimal(to_rows as nat) + " could not be measured: "@ + error@,
        ),
{
    let mut message = "truncation 3->".to_owned();
    append_decimal(&mut message, to_rows as u64);
    message.append(" could not be measured: ");
    message.append(error);
    push_text(failures, message);
}

/// What catching up on a number of accepted drafts showed.
#[derive(Debug)]
pub struct CatchUpReport {
    pub accepted_draft_tokens: usize,
    pub catch_up_rows: usize,
    pub rewound_rows: usize,
    pub base_length: u64,
    pub expected_length: u64,
    pub batch_length: u64,
    pub scalar_length: u64,
    pub length_match: bool,
    pub batch_kv_sha256: String,
    pub scalar_kv_sha256: String,
    pub state: StateComparison,
    pub next_batch_token: Option<i32>,
    pub next_scalar_token: Option<i32>,
    pub proposal_kernel_dispatches: u64,
    pub scalar_kernel_dispatches: u64,
    pub target_audit_valid: bool,
    pub audits_valid: bool,
    pub fallback_used: bool,
}

impl CatchUpReport {
    /// The report on a request that took the rows in one batch and one that took them singly.
    pub open spec fn reports(
        self,
        accepted: int,
        base_length: int,
        batch: CaughtUp,
        scalar: CaughtUp,
        target_audit_valid: bool,
        target: Seq<char>,
    ) -> bool {
        &&& self.accepted_draft_tokens == accepted
        &&& self.catch_up_rows == accepted + 1
        &&& self.rewound_rows == DRAFT_WIDTH
        &&& self.base_length == base_length
        &&& self.expected_length == base_length + accepted + 1
        &&& self.batch_length == batch.committed_length
        &&& self.scalar_length == scalar.committed_length
        &&& self.length_match == (batch.committed_length == self.expected_length
            && scalar.committed_length == self.expected_length)
        &&& self.batch_kv_sha256@ == digest_of(payload_image(payload_views(batch.kv@)))
        &&& self.scalar_kv_sha256@ == digest_of(payload_image(payload_views(scalar.kv@)))
        &&& self.state.compares(batch, scalar)
        &&& self.next_batch_token == batch.next_token
        &&& self.next_scalar_token == scalar.next_token
        &&& self.proposal_kernel_dispatches == batch.audit.kernel_dispatch_count
        &&& self.scalar_kernel_dispatches == scalar.audit.kernel_dispatch_count
        &&& self.target_audit_valid == target_audit_valid
        &&& self.audits_valid == (batch.audit.is_hip_only(target) && scalar.audit.is_hip_only(
            target,
        ))
        &&& self.fallback_used == (batch.audit.fallback_used || scalar.audit.fallback_used)
    }

    /// Whether the batch ended in the very state of the single rows.
    pub open spec fn holds(self) -> bool {
        self.length_match && self.state.is_exact() && self.target_audit_valid && self.audits_valid
    }
}

/// Holds a request that took the rows in one batch against one that took them singly.
pub fn catch_up_report(
    accepted: usize,
    base_length: u64,
    batch: &CaughtUp,
    scalar: &CaughtUp,
    target_audit_valid: bool,
    target: &str,
) -> (out: Result<CatchUpReport, StateRefusal>)
    requires
        accepted <= DRAFT_WIDTH,
        base_length + DRAFT_WIDTH + 1 <= u64::MAX,
    ensures
        if comparable(*batch, *scalar) {
            out is Ok && out->Ok_0.reports(
                accepted as int,
                base_length as int,
                *batch,
                *scalar,
                target_audit_valid,
                target@,
            )
        } else {
            refuses_next(out, *batch, *scalar)
        },
{
    let expected_length: u64 = base_length + accepted as u64 + 1;
    let batch_kv_sha256 = hash_payload(&batch.kv);
    let scalar_kv_sha256 = hash_payload(&scalar.kv);
    let state = match compare_states(batch, scalar) {
        Ok(state) => state,
        Err(refusal) => {
            return Err(refusal);
        },
    };
    Ok(
        CatchUpReport {
            accepted_draft_tokens: accepted,
            catch_up_rows: accepted + 1,
            rewound_rows: DRAFT_WIDTH,
            base_length,
            expected_length,
            batch_length: batch.committed_length,
            scalar_length: scalar.committed_length,
            length_match: batch.committed_length == expected_length && scalar.committed_length
                == expected_length,
            batch_kv_sha256,
            scalar_kv_sha256,
            state,
            next_batch_token: batch.next_token,
            next_scalar_token: scalar.next_token,
            proposal_kernel_dispatches: batch.audit.kernel_dispatch_count,
            scalar_kernel_dispatches: scalar.audit.kernel_dispatch_count,
            target_audit_valid,
            audits_valid: audit_is_valid(&batch.audit, target) && audit_is_valid(
                &scalar.audit,
                target,
            ),
            fallback_used: batch.audit.fallback_used || scalar.audit.fallback_used,
        },
    )
}

/// A catch-up that holds leaves both requests at the expected length, with the same cache under one
/// digest and the same next token.
pub proof fn catch_ups_that_hold_agree(
    report: CatchUpReport,
    accepted: int,
    base_length: int,
    batch: CaughtUp,
    scalar: CaughtUp,
    target_audit_valid: bool,
    target: Seq<char>,
)
    requires
        report.reports(accepted, base_length, batch, scalar, target_audit_valid, target),
        report.holds(),
    ensures
        batch.committed_length == base_length + accepted + 1,
        scalar.committed_length == base_length + accepted + 1,
        payload_views(batch.kv@) == payload_views(scalar.kv@),
        report.batch_kv_sha256@ == report.scalar_kv_sha256@,
        batch.next_token == scalar.next_token,
        batch.audit.is_hip_only(target),
        scalar.audit.is_hip_only(target),
{
}

/// The message about a catch-up that does not hold.
pub open spec fn catch_up_message(report: CatchUpReport, logits_abs: Seq<char>) -> Seq<char> {
    "accepted="@ + decimal(report.accepted_draft_tokens as nat) + " batch_length="@ + decimal(
        report.batch_length as nat,
    ) + " scalar_length="@ + decimal(report.scalar_length as nat) + " expected="@ + decimal(
        report.expected_length as nat,
    ) + " kv_match="@ + bool_text(report.state.kv_payload_match) + " next_hidden_ulp="@ + decimal(
        report.state.next_hidden.max_ulp as nat,
    ) + " next_logits_abs="@ + logits_abs + " next_token_match="@ + bool_text(
        report.state.next_token_match,
    ) + " audits_valid="@ + bool_text(report.audits_valid)
}

/// Records a catch-up: a failure where it does not hold.
pub fn record_catch_up(failures: &mut Vec<String>, report: &CatchUpReport, logits_abs: &str)
    ensures
        texts(final(failures)@) == if report.holds() {
            texts(old(failures)@)
        } else {
            texts(old(failures)@).push(catch_up_message(*report, logits_abs@))
        },
{
    if !(report.length_match && report.state.exact() && report.target_audit_valid
        && report.audits_valid) {
        let mut message = "accepted=".to_owned();
        append_decimal(&mut message, report.accepted_draft_tokens as u64);
        message.append(" batch_length=");
        append_decimal(&mut message, report.batch_length);
        message.append(" scalar_length=");
        append_decimal(&mut message, report.scalar_length);
        message.append(" expected=");
        append_decimal(&mut message, report.expected_length);
        message.append(" kv_match=");
        message.append(bool_str(report.state.kv_payload_match));
        message.append(" next_hidden_ulp=");
        append_decimal(&mut message, report.state.next_hidden.max_ulp);
        message.append(" next_logits_abs=");
        message.append(logits_abs);
        message.append(" next_token_match=");
        message.append(bool_str(report.state.next_token_match));
        message.append(" audits_valid=");
        message.append(bool_str(report.audits_valid));
        push_text(failures, message);
    }
}

/// The dispatches of a run, by the two models, that a case or a request adds to.
#[derive(Clone, Copy, Debug, PartialEq, Eq, Structural)]
pub struct DispatchTotals {
    pub target: u64,
    pub mtp: u64,
}

/// A sum that stops at the largest number.
pub open spec fn saturated(n: int) -> int {
    if n > u64::MAX {
        u64::MAX as int
    } else {
        n
    }
}

impl DispatchTotals {
    /// No dispatches.
    pub fn zero() -> (out: DispatchTotals)
        ensures
            out.target == 0,
            out.mtp == 0,
    {
        DispatchTotals { target: 0, mtp: 0 }
    }

    /// Adds the dispatches of a pair of draft requests.
    pub fn add_catch_up(&mut self, report: &CatchUpReport)
        ensures
            final(self).target == old(self).target,
            final(self).mtp == saturated(
                old(self).mtp + report.proposal_kernel_dispatches + report.scalar_kernel_dispatches,
            ),
    {
        self.mtp = self.mtp.saturating_add(report.proposal_kernel_dispatches).saturating_add(
            report.scalar_kernel_dispatches,
        );
    }

    /// Adds the dispatches of a truncation.
    pub fn add_truncation(&mut self, report: &TruncationReport)
        requires
            report.dispatch.first_kernel_dispatches + report.dispatch.second_kernel_dispatches
                <= u64::MAX,
        ensures
            final(self).target == old(self).target,
            final(self).mtp == saturated(
                old(self).mtp + report.dispatch.first_kernel_dispatches
                    + report.dispatch.second_kernel_dispatches,
            ),
    {
        let sum: u64 = report.dispatch.first_kernel_dispatches
            + report.dispatch.second_kernel_dispatches;
        self.mtp = self.mtp.saturating_add(sum);
    }

    /// Adds the dispatches of a case.
    pub fn add_case(&mut self, case: &DispatchTotals)
        ensures
            final(self).target == saturated(old(self).target + case.target),
            final(self).mtp == saturated(old(self).mtp + case.mtp),
    {
        self.target = self.target.saturating_add(case.target);
        self.mtp = self.mtp.saturating_add(case.mtp);
    }
}

/// The failures of a catch-up, each behind the case's name and the accepted drafts.
pub open spec fn accepted_failures(
    name: Seq<char>,
    accepted: nat,
    failures: Seq<Seq<char>>,
) -> Seq<Seq<char>> {
    Seq::new(
        failures.len(),
        |i: int| "case="@ + name + " accepted="@ + decimal(accepted) + ": "@ + failures[i],
    )
}

/// Adds the failures of a catch-up, each behind the case's name and the accepted drafts.
pub fn merge_accepted(
    failures: &mut Vec<String>,
    name: &str,
    accepted: usize,
    found: &Vec<String>,
)
    ensures
        texts(final(failures)@) == texts(old(failures)@) + accepted_failures(
            name@,
            accepted as nat,
            texts(found@),
        ),
{
    let ghost named = accepted_failures(name@, accepted as nat, texts(found@));
    let ghost before = texts(failures@);
    assert(before + named.take(0) =~= before);
    for i in 0..found.len()
        invariant
            named == accepted_failures(name@, accepted as nat, texts(found@)),
            texts(failures@) == before + named.take(i as int),
    {
        let mut message = joined3("case=", name, " accepted=");
        append_decimal(&mut message, accepted as u64);
        message.append(": ");
        message.append(found[i].as_str());
        push_text(failures, message);
        assert(texts(found@)[i as int] == found@[i as int]@);
        assert(before + named.take(i + 1) =~= (before + named.take(i as int)).push(
            named[i as int],
        ));
    }
    assert(named.take(found.len() as int) =~= named);
}

/// Adds the error of a case that could not be run.
pub fn merge_case_error(failures: &mut Vec<String>, name: &str, error: &str)
    ensures
        texts(final(failures)@) == texts(old(failures)@).push("case="@ + name@ + ": "@ + error@),
{
    let mut message = joined3("case=", name, ": ");
    message.append(error);
    push_text(failures, message);
}

/// What the audits of a run show together.
#[derive(Clone, Copy, Debug, PartialEq, Eq, Structural)]
pub struct RunDispatch {
    pub totals: DispatchTotals,
    pub nonzero: bool,
    pub exact_target: bool,
    pub all_hip: bool,
    pub fallback_used: bool,
}

impl RunDispatch {
    /// What a list of audits shows together.
    pub open spec fn reads(self, audits: Seq<AuditReport>, target: Seq<char>) -> bool {
        &&& self.nonzero == forall|i: int|
            0 <= i < audits.len() ==> (#[trigger] audits[i]).kernel_dispatch_count > 0
        &&& self.exact_target == forall|i: int|
            0 <= i < audits.len() ==> (#[trigger] audits[i]).target@ == target
        &&& self.all_hip == forall|i: int|
            0 <= i < audits.len() ==> (#[trigger] audits[i]).selected_backend@ == "hip"@
                && audits[i].all_dispatches_hip
        &&& self.fallback_used == exists|i: int|
            0 <= i < audits.len() && (#[trigger] audits[i]).fallback_used
    }

    /// Whether the run kept to the HIP backend of its target.
    pub open spec fn is_clean(self) -> bool {
        self.nonzero && self.exact_target && self.all_hip && !self.fallback_used
    }
}

/// Reads the audits of a run.
pub fn read_audits(audits: &Vec<AuditReport>, target: &str, totals: DispatchTotals) -> (out:
    RunDispatch)
    ensures
        out.totals == totals,
        out.reads(audits@, target@),
{
    let mut nonzero = true;
    let mut exact_target = true;
    let mut all_hip = true;
    let mut fallback_used = false;
    for i in 0..audits.len()
        invariant
            nonzero == forall|j: int|
                0 <= j < i ==> (#[trigger] audits@[j]).kernel_dispatch_count > 0,
            exact_target == forall|j: int| 0 <= j < i ==> (#[trigger] audits@[j]).target@ == target@,
            all_hip == forall|j: int|
                0 <= j < i ==> (#[trigger] audits@[j]).selected_backend@ == "hip"@
                    && audits@[j].all_dispatches_hip,
            fallback_used == exists|j: int| 0 <= j < i && (#[trigger] audits@[j]).fallback_used,
    {
        let audit = &audits[i];
        assert(*audit == audits@[i as int]);
        nonzero = nonzero && audit.kernel_dispatch_count > 0;
        exact_target = exact_target && same_text(audit.target.as_str(), target);
        all_hip = all_hip && same_text(audit.selected_backend.as_str(), "hip")
            && audit.all_dispatches_hip;
        fallback_used = fallback_used || audit.fallback_used;
    }
    RunDispatch { totals, nonzero, exact_target, all_hip, fallback_used }
}

/// What a session still held before it shut down, and what it could not release.
#[derive(Clone, Copy, Debug, PartialEq, Eq, Structural)]
pub struct CleanupReport {
    pub current_bytes_before_shutdown: u64,
    pub poisoned_before_shutdown: bool,
    pub cleanup: CleanupCounts,
}

impl CleanupReport {
    /// Whether nothing was held and everything was released.
    pub open spec fn is_zero(self) -> bool {
        self.current_bytes_before_shutdown == 0 && !self.poisoned_before_shutdown
            && self.cleanup.is_zero()
    }

    /// Whether nothing was held and everything was released.
    pub fn zero(&self) -> (out: bool)
        ensures
            out == self.is_zero(),
    {
        self.current_bytes_before_shutdown == 0 && !self.poisoned_before_shutdown
            && self.cleanup.terminal_zero()
    }
}

/// Whether the visible device is the expected one.
pub fn uuid_matches(expected: &str, observed: Option<&str>) -> (out: bool)
    ensures
        out == (observed is Some && observed->Some_0@ == expected@),
{
    match observed {
        Some(uuid) => same_text(uuid, expected),
        None => false,
    }
}

/// The message about a device that is not the expected one.
pub open spec fn uuid_message(expected: Seq<char>, observed: Seq<char>) -> Seq<char> {
    "GPU UUID visibility mismatch: expected="@ + expected + " observed="@ + observed
}

/// The message about a session that was not empty.
pub open spec fn cleanup_message(cleanup: CleanupReport) -> Seq<char> {
    "cleanup was not zero: current_bytes="@ + decimal(cleanup.current_bytes_before_shutdown as nat)
        + " poisoned="@ + bool_text(cleanup.poisoned_before_shutdown) + " retryable="@ + decimal(
        cleanup.cleanup.retryable_cleanup as nat,
    ) + " durable="@ + decimal(cleanup.cleanup.durable_quarantine as nat)
}

/// The message about a run that left the HIP backend of its target.
pub open spec fn dispatch_message(dispatch: RunDispatch) -> Seq<char> {
    "dispatch audit failed: nonzero="@ + bool_text(dispatch.nonzero) + " exact_target="@
        + bool_text(dispatch.exact_target) + " all_hip="@ + bool_text(dispatch.all_hip)
        + " fallback_used="@ + bool_text(dispatch.fallback_used)
}

fn describe_cleanup(cleanup: &CleanupReport) -> (out: String)
    ensures
        out@ == cleanup_message(*cleanup),
{
    let mut message = "cleanup was not zero: current_bytes=".to_owned();
    append_decimal(&mut message, cleanup.current_bytes_before_shutdown);
    message.append(" poisoned=");
    message.append(bool_str(cleanup.poisoned_before_shutdown));
    message.append(" retryable=");
    append_decimal(&mut message, cleanup.cleanup.retryable_cleanup as u64);
    message.append(" durable=");
    append_decimal(&mut message, cleanup.cleanup.durable_quarantine as u64);
    message
}

fn describe_dispatch(dispatch: &RunDispatch) -> (out: String)
    ensures
        out@ == dispatch_message(*dispatch),
{
    let mut message = "dispatch audit failed: nonzero=".to_owned();
    message.append(bool_str(dispatch.nonzero));
    message.append(" exact_target=");
    message.append(bool_str(dispatch.exact_target));
    message.append(" all_hip=");
    message.append(bool_str(dispatch.all_hip));
    message.append(" fallback_used=");
    message.append(bool_str(dispatch.fallback_used));
    message
}

/// The failures that a run adds to those of its cases.
pub open spec fn run_failures(
    expected_uuid: Seq<char>,
    observed_uuid: Seq<char>,
    uuid_match: bool,
    cases: nat,
    cleanup: CleanupReport,
    dispatch: RunDispatch,
) -> Seq<Seq<char>> {
    let uuid = if uuid_match {
        Seq::empty()
    } else {
        seq![uuid_message(expected_uuid, observed_uuid)]
    };
    let empty = if cases == 0 {
        seq!["all Phase86 state-check cases failed before producing evidence"@]
    } else {
        Seq::empty()
    };
    let held = if cleanup.is_zero() {
        Seq::empty()
    } else {
        seq![cleanup_message(cleanup)]
    };
    let left = if dispatch.is_clean() {
        Seq::empty()
    } else {
        seq![dispatch_message(dispatch)]
    };
    uuid + empty + held + left
}

/// Ends a run: adds what it failed as a whole to the failures of its cases. It passes if and only
/// if there is no failure at all. `observed_uuid` is the visible device as text.
pub fn finish_state_check(
    failures: &mut Vec<String>,
    expected_uuid: &str,
    observed_uuid: &str,
    uuid_match: bool,
    cases: usize,
    cleanup: &CleanupReport,
    dispatch: &RunDispatch,
) -> (out: bool)
    ensures
        texts(final(failures)@) == texts(old(failures)@) + run_failures(
            expected_uuid@,
            observed_uuid@,
            uuid_match,
            cases as nat,
            *cleanup,
            *dispatch,
        ),
        out == (old(failures)@.len() == 0 && uuid_match && cases > 0 && cleanup.is_zero()
            && dispatch.is_clean()),
{
    if !uuid_match {
        let mut message = joined3("GPU UUID visibility mismatch: expected=", expected_uuid, " observed=");
        message.append(observed_uuid);
        push_text(failures, message);
    }
    if cases == 0 {
        push_text(
            failures,
            "all Phase86 state-check cases failed before producing evidence".to_owned(),
        );
    }
    if !cleanup.zero() {
        push_text(failures, describe_cleanup(cleanup));
    }
    if !dispatch.nonzero || !dispatch.exact_target || !dispatch.all_hip || dispatch.fallback_used {
        push_text(failures, describe_dispatch(dispatch));
    }
    assert(texts(failures@) =~= texts(old(failures)@) + run_failures(
        expected_uuid@,
        observed_uuid@,
        uuid_match,
        cases as nat,
        *cleanup,
        *dispatch,
    ));
    assert(texts(failures@).len() == failures@.len());
    assert(texts(old(failures)@).len() == old(failures)@.len());
    failures.len() == 0
}

/// A truncation is exact just where the cut request stands at the length that is left, holds the same
/// cache and gives the same next token, hidden words and logits as one that took the kept rows alone,
/// and both ran kernels of the HIP backend of the target without fallback.
pub proof fn truncations_are_exact_where_nothing_differs(
    plan: TruncationPlan,
    truncated: &CaughtUp,
    scalar: &CaughtUp,
    target: &str,
    report: TruncationReport,
)
    requires
        call_ensures(truncation_report, (plan, truncated, scalar, target), Ok(report)),
    ensures
        report.exact <==> {
            &&& truncated.committed_length == plan.expected_length
            &&& payload_views(truncated.kv@) == payload_views(scalar.kv@)
            &&& truncated.next_token == scalar.next_token
            &&& max_steps(truncated.next_hidden@, scalar.next_hidden@) == 0
            &&& logit_mismatch(truncated.next_logits@, scalar.next_logits@) is None
            &&& truncated.audit.is_hip_only(target@)
            &&& scalar.audit.is_hip_only(target@)
        },
{
}

/// A catch-up is a failure unless both requests stand one row for each accepted draft and one more
/// behind the base, hold the same cache, give the same next token, hidden words and logits, and ran
/// kernels of the HIP backend of the target without fallback, as the target did.
pub proof fn catch_ups_fail_where_anything_differs(
    failures: &mut Vec<String>,
    accepted: usize,
    base_length: u64,
    batch: &CaughtUp,
    scalar: &CaughtUp,
    target_audit_valid: bool,
    target: &str,
    report: CatchUpReport,
    logits_abs: &str,
)
    requires
        accepted <= 2,
        base_length + 3 <= u64::MAX,
        call_ensures(
            catch_up_report,
            (accepted, base_length, batch, scalar, target_audit_valid, target),
            Ok(report),
        ),
        call_ensures(record_catch_up, (failures, &report, logits_abs), ()),
    ensures
        report.catch_up_rows == accepted + 1 && report.rewound_rows == 2,
        texts(final(failures)@).len() == texts(old(failures)@).len() + if {
            &&& batch.committed_length == base_length + accepted + 1
            &&& scalar.committed_length == base_length + accepted + 1
            &&& payload_views(batch.kv@) == payload_views(scalar.kv@)
            &&& batch.next_token == scalar.next_token
            &&& max_steps(batch.next_hidden@, scalar.next_hidden@) == 0
            &&& logit_mismatch(batch.next_logits@, scalar.next_logits@) is None
            &&& target_audit_valid
            &&& batch.audit.is_hip_only(target@)
            &&& scalar.audit.is_hip_only(target@)
        } {
            0int
        } else {
            1
        },
{
}

/// A run passes just where no case failed, the device is the expected one, some case was measured,
/// the session was left empty, and every audit shows kernels of the HIP backend of the target alone.
pub proof fn a_state_check_passes_without_failures(
    failures: &mut Vec<String>,
    expected_uuid: &str,
    observed_uuid: &str,
    uuid_match: bool,
    cases: usize,
    cleanup: &CleanupReport,
    audits: &Vec<AuditReport>,
    target: &str,
    totals: DispatchTotals,
    dispatch: RunDispatch,
    passed: bool,
)
    requires
        call_ensures(read_audits, (audits, target, totals), dispatch),
        call_ensures(
            finish_state_check,
            (failures, expected_uuid, observed_uuid, uuid_match, cases, cleanup, &dispatch),
            passed,
        ),
    ensures
        passed <==> final(failures)@.len() == 0,
        passed <==> {
            &&& old(failures)@.len() == 0
            &&& uuid_match
            &&& cases >= 1
            &&& cleanup.current_bytes_before_shutdown == 0
            &&& !cleanup.poisoned_before_shutdown
            &&& cleanup.cleanup.retryable_cleanup == 0
            &&& cleanup.cleanup.durable_quarantine == 0
            &&& forall|i: int|
                0 <= i < audits@.len() ==> {
                    &&& (#[trigger] audits@[i]).kernel_dispatch_count > 0
                    &&& audits@[i].target@ == target@
                    &&& audits@[i].selected_backend@ == "hip"@
                    &&& audits@[i].all_dispatches_hip
                    &&& !audits@[i].fallback_used
                }
        },
        dispatch.totals == totals,
{
    assert(texts(final(failures)@).len() == final(failures)@.len());
    assert(texts(old(failures)@).len() == old(failures)@.len());
    if passed {
        assert forall|i: int| 0 <= i < audits@.len() implies {
            &&& (#[trigger] audits@[i]).kernel_dispatch_count > 0
            &&& audits@[i].target@ == target@
            &&& audits@[i].selected_backend@ == "hip"@
            &&& audits@[i].all_dispatches_hip
            &&& !audits@[i].fallback_used
        } by {}
    }
}

/// Totals grow by what both requests of a catch-up, or of a truncation, dispatched, and stop at the
/// largest number.
pub proof fn totals_count_every_request(
    totals: &mut DispatchTotals,
    report: &CatchUpReport,
)
    requires
        call_ensures(DispatchTotals::add_catch_up, (totals, report), ()),
    ensures
        ({
            let sum = old(totals).mtp + report.proposal_kernel_dispatches
                + report.scalar_kernel_dispatches;
            &&& final(totals).target == old(totals).target
            &&& sum <= u64::MAX ==> final(totals).mtp == sum
            &&& sum > u64::MAX ==> final(totals).mtp == u64::MAX
        }),
{
}

/// Two caught-up states are compared part by part: their caches, their hidden rows, their logits and
/// their tokens; rows of different lengths are not compared at all.
pub proof fn states_are_compared_part_by_part(
    a: &CaughtUp,
    b: &CaughtUp,
    out: Result<StateComparison, StateRefusal>,
    same: bool,
)
    requires
        call_ensures(compare_states, (a, b), out),
        call_ensures(same_payloads, (&a.kv, &b.kv), same),
    ensures
        a.next_hidden@.len() != b.next_hidden@.len() || a.next_logits@.len() != b.next_logits@.len()
            ==> out is Err,
        out matches Ok(found) ==> {
            &&& found.kv_payload_match == same
            &&& found.next_token_match == (a.next_token == b.next_token)
            &&& found.next_hidden.first_mismatch is Some <==> a.next_hidden@ != b.next_hidden@
            &&& found.next_logits_first_mismatch is None <==> forall|i: int|
                0 <= i < a.next_logits@.len() ==> f32_rank(#[trigger] a.next_logits@[i]) == f32_rank(
                    b.next_logits@[i],
                )
        },
{
    if out is Ok {
        first_difference_is_first(a.next_hidden@, b.next_hidden@, 0);
        first_logit_places(a.next_logits@, b.next_logits@, 0);
        if out->Ok_0.next_hidden.first_mismatch is None {
            assert(a.next_hidden@ =~= b.next_hidden@);
        }
    }
}

/// What a number of accepted drafts failed in goes behind what failed before, one for one.
pub proof fn accepted_failures_are_all_kept(
    failures: &mut Vec<String>,
    name: &str,
    accepted: usize,
    found: &Vec<String>,
)
    requires
        call_ensures(merge_accepted, (failures, name, accepted, found), ()),
    ensures
        final(failures)@.len() == old(failures)@.len() + found@.len(),
        forall|i: int|
            0 <= i < old(failures)@.len() ==> (#[trigger] final(failures)@[i])@ == old(failures)@[i]@,
        forall|i: int|
            0 <= i < found@.len() ==> (#[trigger] final(failures)@[old(failures)@.len() + i])@
                == "case="@ + name@ + " accepted="@ + decimal(accepted as nat) + ": "@ + found@[i]@,
{
    let before = texts(old(failures)@);
    let after = texts(final(failures)@);
    assert(after.len() == final(failures)@.len());
    assert(before.len() == old(failures)@.len());
    assert forall|i: int| 0 <= i < old(failures)@.len() implies (#[trigger] final(failures)@[i])@
        == old(failures)@[i]@ by {
        assert(after[i] == before[i]);
    }
    assert forall|i: int| 0 <= i < found@.len() implies (
    #[trigger] final(failures)@[old(failures)@.len() + i])@ == "case="@ + name@ + " accepted="@
        + decimal(accepted as nat) + ": "@ + found@[i]@ by {
        assert(after[before.len() + i] == accepted_failures(
            name@,
            accepted as nat,
            texts(found@),
        )[i]);
    }
}

/// A truncation is recorded as a failure exactly where it is not exact.
pub proof fn exact_truncations_are_not_recorded(
    failures: &mut Vec<String>,
    report: &TruncationReport,
    logits_abs: &str,
)
    requires
        call_ensures(record_truncation, (failures, report, logits_abs), ()),
    ensures
        final(failures)@.len() == old(failures)@.len() + if report.exact {
            0int
        } else {
            1
        },
{
    assert(texts(final(failures)@).len() == final(failures)@.len());
    assert(texts(old(failures)@).len() == old(failures)@.len());
}

} // verus!
