//! The comparison of two draft companions in one process: a BF16 one and a quantized one run in
//! turn, the order of the turns reversed in the second round.
use crate::bytes::same_items;
use crate::state_report::CleanupReport;
use crate::text::{append_decimal, bool_str, bool_text, decimal, joined, joined3};
use vstd::prelude::*;
use vstd::string::StringExecFns;

verus! {

broadcast use vstd::string::group_string_axioms;

/// A row of a measurement: how long its prompt is and how many tokens it generates.
#[derive(Clone, Copy, Debug, PartialEq, Eq, Structural)]
pub struct RowSpec {
    pub prompt_tokens: u64,
    pub output_tokens: u64,
}

/// What a comparison is asked to run.
#[derive(Debug)]
pub struct CompanionConfig {
    pub phase83: bool,
    pub mtp_enabled: bool,
    pub draft_width: usize,
    pub gpu_fixed_sampling: bool,
    pub replay_inputs: bool,
    pub rows: Vec<RowSpec>,
    pub warmups: usize,
    pub measured: usize,
    pub companion_given: bool,
}

impl CompanionConfig {
    /// Whether this is the one run that the comparison is made on.
    pub open spec fn is_required_run(self, prompt_capacity: u64) -> bool {
        &&& self.phase83
        &&& self.mtp_enabled
        &&& self.draft_width == 2
        &&& self.gpu_fixed_sampling
        &&& !self.replay_inputs
        &&& self.rows@ == seq![RowSpec { prompt_tokens: prompt_capacity, output_tokens: 128 }]
        &&& self.warmups == 1
        &&& self.measured == 3
    }
}

/// The message that refuses a comparison, if there is one.
pub open spec fn companion_refusal(
    config: CompanionConfig,
    prompt_capacity: u64,
    switch: Seq<char>,
    companion: Seq<char>,
) -> Option<Seq<char>> {
    if !config.is_required_run(prompt_capacity) {
        Some(
            switch
                + "=1 requires Phase83 coding8192, MTP width2, gpu-fixed sampling, row 8192/128, warmup1, measured3"@,
        )
    } else if !config.companion_given {
        Some(switch + "=1 requires "@ + companion)
    } else {
        None
    }
}

/// Refuses a comparison that is asked for anything but its one run. `switch` and `companion` name
/// the settings that ask for it and give its companion.
pub fn check_companion_config(
    config: &CompanionConfig,
    prompt_capacity: u64,
    switch: &str,
    companion: &str,
) -> (out: Result<(), String>)
    ensures
        match companion_refusal(*config, prompt_capacity, switch@, companion@) {
            Some(message) => out is Err && out->Err_0@ == message,
            None => out is Ok,
        },
{
    let rows_match = config.rows.len() == 1 && config.rows[0].prompt_tokens == prompt_capacity
        && config.rows[0].output_tokens == 128;
    proof {
        let required = RowSpec { prompt_tokens: prompt_capacity, output_tokens: 128 };
        if rows_match {
            assert(config.rows@ =~= seq![required]);
        } else if config.rows@.len() == 1 {
            assert(config.rows@[0] != seq![required][0]);
        } else {
            assert(config.rows@.len() != seq![required].len());
        }
    }
    if !config.phase83 || !config.mtp_enabled || config.draft_width != 2
        || !config.gpu_fixed_sampling || config.replay_inputs || !rows_match || config.warmups != 1
        || config.measured != 3 {
        return Err(
            joined(
                switch,
                "=1 requires Phase83 coding8192, MTP width2, gpu-fixed sampling, row 8192/128, warmup1, measured3",
            ),
        );
    }
    if !config.companion_given {
        return Err(joined3(switch, "=1 requires ", companion));
    }
    Ok(())
}

/// Refuses a candidate that is not the calibrated quantized companion.
pub fn check_candidate_encoding(is_calibrated_nvfp4: bool) -> (out: Result<(), String>)
    ensures
        if is_calibrated_nvfp4 {
            out is Ok
        } else {
            out is Err && out->Err_0@
                == "Stage3 AB/BA candidate must be the calibrated NVFP4 MTP sidecar"@
        },
{
    if is_calibrated_nvfp4 {
        Ok(())
    } else {
        Err("Stage3 AB/BA candidate must be the calibrated NVFP4 MTP sidecar".to_owned())
    }
}

/// Refuses a priming capacity that is zero or larger than the request state.
pub fn check_priming_capacity(priming_capacity: u64, state_capacity: u64) -> (out: Result<
    (),
    String,
>)
    ensures
        if priming_capacity == 0 || priming_capacity > state_capacity {
            out is Err && out->Err_0@ == "Stage3 MTP priming capacity is outside request state"@
        } else {
            out is Ok
        },
{
    if priming_capacity == 0 || priming_capacity > state_capacity {
        Err("Stage3 MTP priming capacity is outside request state".to_owned())
    } else {
        Ok(())
    }
}

/// What the two companions take in resident memory.
#[derive(Clone, Copy, Debug, PartialEq, Eq, Structural)]
pub struct CompanionBytes {
    pub bf16: u64,
    pub nvfp4: u64,
}

/// The message that refuses the resident sizes, if there is one.
pub open spec fn resident_refusal(target: u64, with_bf16: u64, with_both: u64) -> Option<
    Seq<char>,
> {
    if with_bf16 < target {
        Some("Stage3 BF16 resident memory decreased after load"@)
    } else if with_both < with_bf16 {
        Some("Stage3 NVFP4 resident memory decreased after load"@)
    } else {
        None
    }
}

/// What each companion added to the resident memory when it was loaded.
pub fn companion_bytes(target: u64, with_bf16: u64, with_both: u64) -> (out: Result<
    CompanionBytes,
    String,
>)
    ensures
        match resident_refusal(target, with_bf16, with_both) {
            Some(message) => out is Err && out->Err_0@ == message,
            None => {
                &&& out is Ok
                &&& out->Ok_0.bf16 == with_bf16 - target
                &&& out->Ok_0.nvfp4 == with_both - with_bf16
                &&& target + out->Ok_0.bf16 + out->Ok_0.nvfp4 == with_both
            },
        },
{
    if with_bf16 < target {
        return Err("Stage3 BF16 resident memory decreased after load".to_owned());
    }
    if with_both < with_bf16 {
        return Err("Stage3 NVFP4 resident memory decreased after load".to_owned());
    }
    Ok(CompanionBytes { bf16: with_bf16 - target, nvfp4: with_both - with_bf16 })
}

/// The order of the companions in a round.
#[derive(Clone, Copy, Debug, PartialEq, Eq, Structural)]
pub enum RoundOrder {
    Ab,
    Ba,
}

impl RoundOrder {
    /// The name of the order.
    pub fn name(self) -> (out: &'static str)
        ensures
            out@ == match self {
                RoundOrder::Ab => "AB"@,
                RoundOrder::Ba => "BA"@,
            },
    {
        match self {
            RoundOrder::Ab => "AB",
            RoundOrder::Ba => "BA",
        }
    }

    /// Whether the BF16 companion runs first.
    pub fn bf16_first(self) -> (out: bool)
        ensures
            out == (self == RoundOrder::Ab),
    {
        matches!(self, RoundOrder::Ab)
    }
}

/// The rounds of a comparison, each with its order: every companion goes first once.
pub fn round_orders() -> (out: Vec<(usize, RoundOrder)>)
    ensures
        out@ == seq![(1usize, RoundOrder::Ab), (2usize, RoundOrder::Ba)],
{
    let mut rounds: Vec<(usize, RoundOrder)> = Vec::new();
    rounds.push((1, RoundOrder::Ab));
    rounds.push((2, RoundOrder::Ba));
    assert(rounds@ =~= seq![(1usize, RoundOrder::Ab), (2usize, RoundOrder::Ba)]);
    rounds
}

/// Whether the runs of two companions generated the same tokens, as far as both have runs.
pub open spec fn generations_agree(left: Seq<Vec<u32>>, right: Seq<Vec<u32>>) -> bool {
    forall|i: int|
        0 <= i < left.len() && i < right.len() ==> (#[trigger] left[i])@ == (
        #[trigger] right[i])@
}

/// Whether the runs of two companions generated the same tokens, as far as both have runs.
pub fn generated_tokens_equal(left: &Vec<Vec<u32>>, right: &Vec<Vec<u32>>) -> (out: bool)
    ensures
        out == generations_agree(left@, right@),
{
    let count: usize = if left.len() < right.len() { left.len() } else { right.len() };
    for i in 0..count
        invariant
            count <= left@.len(),
            count <= right@.len(),
            forall|j: int| 0 <= j < i ==> (#[trigger] left@[j])@ == (#[trigger] right@[j])@,
    {
        if !same_items(left[i].as_slice(), right[i].as_slice()) {
            assert(left@[i as int]@ != right@[i as int]@);
            return false;
        }
    }
    true
}

/// What a companion's runs in a round showed.
#[derive(Clone, Copy, Debug, PartialEq, Eq, Structural)]
pub struct VariantFlags {
    pub all_dispatches_hip: bool,
    pub fallback_used: bool,
    pub request_cleanup_zero: bool,
}

/// What a round showed.
#[derive(Clone, Copy, Debug, PartialEq, Eq, Structural)]
pub struct RoundFlags {
    pub bf16: VariantFlags,
    pub nvfp4: VariantFlags,
    pub nvfp4_faster: bool,
    pub nvfp4_meets_one_percent: bool,
}

impl RoundFlags {
    /// Whether both companions kept to the HIP backend.
    pub open spec fn is_hip_only(self) -> bool {
        &&& self.bf16.all_dispatches_hip
        &&& self.nvfp4.all_dispatches_hip
        &&& !self.bf16.fallback_used
        &&& !self.nvfp4.fallback_used
    }

    /// Whether every request of the round released what it held.
    pub open spec fn released(self) -> bool {
        self.bf16.request_cleanup_zero && self.nvfp4.request_cleanup_zero
    }
}

/// What a comparison showed.
#[derive(Clone, Copy, Debug, PartialEq, Eq, Structural)]
pub struct CompanionVerdict {
    pub all_rounds_candidate_faster: bool,
    pub all_rounds_meet_one_percent: bool,
    pub all_rounds_hip_only: bool,
    pub all_rounds_request_cleanup_zero: bool,
    pub cleanup_zero: bool,
    pub passed: bool,
}

impl CompanionVerdict {
    /// The verdict on a list of rounds and the cleanup after them.
    pub open spec fn judges(self, rounds: Seq<RoundFlags>, cleanup: CleanupReport) -> bool {
        &&& self.all_rounds_candidate_faster == forall|i: int|
            0 <= i < rounds.len() ==> (#[trigger] rounds[i]).nvfp4_faster
        &&& self.all_rounds_meet_one_percent == forall|i: int|
            0 <= i < rounds.len() ==> (#[trigger] rounds[i]).nvfp4_meets_one_percent
        &&& self.all_rounds_hip_only == forall|i: int|
            0 <= i < rounds.len() ==> (#[trigger] rounds[i]).is_hip_only()
        &&& self.all_rounds_request_cleanup_zero == forall|i: int|
            0 <= i < rounds.len() ==> (#[trigger] rounds[i]).released()
        &&& self.cleanup_zero == cleanup.is_zero()
        &&& self.passed == (self.cleanup_zero && self.all_rounds_hip_only
            && self.all_rounds_request_cleanup_zero)
    }
}

/// Judges a comparison. It passes on clean rounds alone: how fast they were is reported beside.
pub fn judge_companions(rounds: &Vec<RoundFlags>, cleanup: &CleanupReport) -> (out: CompanionVerdict)
    ensures
        out.judges(rounds@, *cleanup),
{
    let mut faster = true;
    let mut one_percent = true;
    let mut hip_only = true;
    let mut released = true;
    for i in 0..rounds.len()
        invariant
            faster == forall|j: int| 0 <= j < i ==> (#[trigger] rounds@[j]).nvfp4_faster,
            one_percent == forall|j: int|
                0 <= j < i ==> (#[trigger] rounds@[j]).nvfp4_meets_one_percent,
            hip_only == forall|j: int| 0 <= j < i ==> (#[trigger] rounds@[j]).is_hip_only(),
            released == forall|j: int| 0 <= j < i ==> (#[trigger] rounds@[j]).released(),
    {
        let round = rounds[i];
        assert(round == rounds@[i as int]);
        faster = faster && round.nvfp4_faster;
        one_percent = one_percent && round.nvfp4_meets_one_percent;
        hip_only = hip_only && round.bf16.all_dispatches_hip && round.nvfp4.all_dispatches_hip
            && !round.bf16.fallback_used && !round.nvfp4.fallback_used;
        released = released && round.bf16.request_cleanup_zero && round.nvfp4.request_cleanup_zero;
    }
    let cleanup_zero = cleanup.zero();
    CompanionVerdict {
        all_rounds_candidate_faster: faster,
        all_rounds_meet_one_percent: one_percent,
        all_rounds_hip_only: hip_only,
        all_rounds_request_cleanup_zero: released,
        cleanup_zero,
        passed: cleanup_zero && hip_only && released,
    }
}

/// What is said of the cleanup after an error.
pub open spec fn cleanup_text(cleanup: CleanupReport) -> Seq<char> {
    "current_bytes="@ + decimal(cleanup.current_bytes_before_shutdown as nat) + " poisoned="@
        + bool_text(cleanup.poisoned_before_shutdown) + " retryable_cleanup="@ + decimal(
        cleanup.cleanup.retryable_cleanup as nat,
    ) + " durable_quarantine="@ + decimal(cleanup.cleanup.durable_quarantine as nat)
}

/// The error of a comparison that failed on the way, with what its cleanup gave.
pub fn error_after_cleanup(error: &str, cleanup: Result<&CleanupReport, &str>) -> (out: String)
    ensures
        out@ == error@ + "; post-error cleanup: "@ + match cleanup {
            Ok(report) => cleanup_text(*report),
            Err(cleanup_error) => cleanup_error@,
        },
{
    let mut said = String::new();
    match cleanup {
        Ok(report) => {
            said.append("current_bytes=");
            append_decimal(&mut said, report.current_bytes_before_shutdown);
            said.append(" poisoned=");
            said.append(bool_str(report.poisoned_before_shutdown));
            said.append(" retryable_cleanup=");
            append_decimal(&mut said, report.cleanup.retryable_cleanup as u64);
            said.append(" durable_quarantine=");
            append_decimal(&mut said, report.cleanup.durable_quarantine as u64);
            assert(said@ =~= cleanup_text(*report));
        },
        Err(cleanup_error) => {
            said.append(cleanup_error);
            assert(said@ =~= cleanup_error@);
        },
    }
    joined3(error, "; post-error cleanup: ", said.as_str())
}

/// A comparison passes just where it left nothing behind and every round ran both companions on the
/// HIP backend without fallback and released what they held. Speed plays no part.
pub proof fn clean_rounds_pass_at_any_speed(
    rounds: &Vec<RoundFlags>,
    cleanup: &CleanupReport,
    verdict: CompanionVerdict,
)
    requires
        call_ensures(judge_companions, (rounds, cleanup), verdict),
    ensures
        verdict.passed <==> {
            &&& cleanup.current_bytes_before_shutdown == 0
            &&& !cleanup.poisoned_before_shutdown
            &&& cleanup.cleanup.retryable_cleanup == 0
            &&& cleanup.cleanup.durable_quarantine == 0
            &&& forall|i: int|
                0 <= i < rounds@.len() ==> {
                    &&& (#[trigger] rounds@[i]).bf16.all_dispatches_hip
                    &&& rounds@[i].nvfp4.all_dispatches_hip
                    &&& !rounds@[i].bf16.fallback_used
                    &&& !rounds@[i].nvfp4.fallback_used
                    &&& rounds@[i].bf16.request_cleanup_zero
                    &&& rounds@[i].nvfp4.request_cleanup_zero
                }
        },
        verdict.all_rounds_candidate_faster <==> forall|i: int|
            0 <= i < rounds@.len() ==> (#[trigger] rounds@[i]).nvfp4_faster,
        verdict.all_rounds_meet_one_percent <==> forall|i: int|
            0 <= i < rounds@.len() ==> (#[trigger] rounds@[i]).nvfp4_meets_one_percent,
{
    if verdict.passed {
        assert forall|i: int| 0 <= i < rounds@.len() implies {
            &&& (#[trigger] rounds@[i]).bf16.all_dispatches_hip
            &&& rounds@[i].nvfp4.all_dispatches_hip
            &&& !rounds@[i].bf16.fallback_used
            &&& !rounds@[i].nvfp4.fallback_used
            &&& rounds@[i].bf16.request_cleanup_zero
            &&& rounds@[i].nvfp4.request_cleanup_zero
        } by {
            assert(rounds@[i].is_hip_only() && rounds@[i].released());
        }
    }
}

/// What the companions added is what is resident beyond the target.
pub proof fn companions_make_up_the_difference(
    target: u64,
    with_bf16: u64,
    with_both: u64,
    out: Result<CompanionBytes, String>,
)
    requires
        call_ensures(companion_bytes, (target, with_bf16, with_both), out),
    ensures
        out is Ok <==> target <= with_bf16 <= with_both,
        out matches Ok(bytes) ==> target + bytes.bf16 == with_bf16 && target + bytes.bf16
            + bytes.nvfp4 == with_both,
{
}

/// In two rounds each companion goes first once.
pub proof fn each_companion_goes_first_once(
    rounds: Vec<(usize, RoundOrder)>,
    first: bool,
    second: bool,
)
    requires
        call_ensures(round_orders, (), rounds),
        call_ensures(RoundOrder::bf16_first, (rounds@[0].1,), first),
        call_ensures(RoundOrder::bf16_first, (rounds@[1].1,), second),
    ensures
        rounds@.len() == 2,
        rounds@[0].0 == 1 && rounds@[1].0 == 2,
        first && !second,
{
}

/// Only the one run is compared: two drafts, fixed sampling, one row of 128 tokens behind a full
/// prompt, one warm-up and three measured runs, with a companion given.
pub proof fn only_the_one_run_is_compared(
    config: &CompanionConfig,
    prompt_capacity: u64,
    switch: &str,
    companion: &str,
    out: Result<(), String>,
)
    requires
        call_ensures(check_companion_config, (config, prompt_capacity, switch, companion), out),
    ensures
        out is Ok <==> {
            &&& config.phase83 && config.mtp_enabled && config.gpu_fixed_sampling
            &&& !config.replay_inputs
            &&& config.draft_width == 2
            &&& config.warmups == 1
            &&& config.measured == 3
            &&& config.rows@.len() == 1
            &&& config.rows@[0].prompt_tokens == prompt_capacity
            &&& config.rows@[0].output_tokens == 128
            &&& config.companion_given
        },
{
    let row = RowSpec { prompt_tokens: prompt_capacity, output_tokens: 128 };
    if config.rows@.len() == 1 && config.rows@[0] == row {
        assert(config.rows@ =~= seq![row]);
    }
}

/// Two companions generated the same just where each common run did, token by token.
pub proof fn common_runs_must_agree(
    left: &Vec<Vec<u32>>,
    right: &Vec<Vec<u32>>,
    equal: bool,
    at: int,
)
    requires
        call_ensures(generated_tokens_equal, (left, right), equal),
        0 <= at < left@.len(),
        at < right@.len(),
    ensures
        equal ==> left@[at]@ == right@[at]@,
        left@.len() == 1 && left@[at]@ == right@[at]@ ==> equal,
{
}

/// Priming stays within the state of its request, and holds something.
pub proof fn priming_stays_within_its_state(priming: u64, state: u64, out: Result<(), String>)
    requires
        call_ensures(check_priming_capacity, (priming, state), out),
    ensures
        out is Ok <==> 0 < priming <= state,
{
}

} // verus!
