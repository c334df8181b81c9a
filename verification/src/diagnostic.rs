//! How the multi-token prediction diagnostics are configured from named settings, and how they
//! gather what their cases found.
use crate::audit::{AuditReport, CleanupCounts};
use crate::mtp_path::STATE_CAPACITY;
use crate::text::{
    decimal, decimal_string, joined, joined3, parse_u32, parse_unsigned, push_text, same_text,
    text_opt, texts, unsigned_number,
};
use vstd::prelude::*;
use vstd::string::StringExecFns;

verus! {

broadcast use vstd::string::group_string_axioms;

/// The names of the settings that a diagnostic reads.
#[derive(Debug)]
pub struct SettingNames {
    pub target: String,
    pub device: String,
    pub model: String,
    pub compat_model: String,
    pub state_capacity: String,
    pub companion: String,
}

/// The setting that names the target of a run.
pub const TARGET_SETTING: &'static str = "SLLM_BENCH_TARGET";

/// The setting that gives the device of a run.
pub const DEVICE_SETTING: &'static str = "SLLM_BENCH_DEVICE_INDEX";

/// The setting that says where the model lies.
pub const MODEL_SETTING: &'static str = "SLLM_BENCH_MODEL";

/// The older setting that says where the model lies.
pub const COMPAT_MODEL_SETTING: &'static str = "SLLM_MODEL_ROOT";

/// The setting that gives the state capacity of a request.
pub const STATE_CAPACITY_SETTING: &'static str = "SLLM_BENCH_STATE_CAPACITY";

/// The setting that says where a quantized companion lies.
pub const COMPANION_SETTING: &'static str = "SLLM_PHASE84_MTP_COMPANION_PATH";

/// The setting that asks for the comparison of two companions.
pub const COMPANIONS_SETTING: &'static str = "SLLM_PHASE87_STAGE3_ABBA";

impl SettingNames {
    /// The settings that the runs read.
    pub fn known() -> (out: SettingNames)
        ensures
            out.target@ == TARGET_SETTING@,
            out.device@ == DEVICE_SETTING@,
            out.model@ == MODEL_SETTING@,
            out.compat_model@ == COMPAT_MODEL_SETTING@,
            out.state_capacity@ == STATE_CAPACITY_SETTING@,
            out.companion@ == COMPANION_SETTING@,
    {
        SettingNames {
            target: TARGET_SETTING.to_owned(),
            device: DEVICE_SETTING.to_owned(),
            model: MODEL_SETTING.to_owned(),
            compat_model: COMPAT_MODEL_SETTING.to_owned(),
            state_capacity: STATE_CAPACITY_SETTING.to_owned(),
            companion: COMPANION_SETTING.to_owned(),
        }
    }
}

/// What the settings hold.
#[derive(Debug)]
pub struct Settings {
    pub target: Option<String>,
    pub device: Option<String>,
    pub model_given: bool,
    pub state_capacity: Option<String>,
    pub companion_given: bool,
}

/// What a diagnostic runs on.
#[derive(Debug)]
pub struct RunConfig {
    pub target: String,
    pub device_index: u32,
    pub state_capacity: u64,
}

/// Whether a target is one that the diagnostics support.
pub open spec fn is_supported_target(target: Seq<char>) -> bool {
    target == "gfx1030"@ || target == "gfx1201"@
}

/// The message that refuses the device setting, if there is one.
pub open spec fn device_refusal(name: Seq<char>, device: Option<Seq<char>>) -> Option<Seq<char>> {
    match device {
        None => Some(name + " is required"@),
        Some(text) => if unsigned_number(text, u32::MAX as nat) is None {
            Some(name + " must be a u32"@)
        } else {
            None
        },
    }
}

/// The device that the setting names.
pub open spec fn device_of(device: Option<Seq<char>>) -> nat {
    unsigned_number(device->Some_0, u32::MAX as nat)->Some_0
}

fn read_device(name: &str, device: &Option<String>) -> (out: Result<u32, String>)
    ensures
        match device_refusal(name@, text_opt(*device)) {
            Some(message) => out is Err && out->Err_0@ == message,
            None => out is Ok && out->Ok_0 == device_of(text_opt(*device)),
        },
{
    match device {
        None => Err(joined(name, " is required")),
        Some(text) => match parse_u32(text.as_str()) {
            Some(index) => Ok(index),
            None => Err(joined(name, " must be a u32")),
        },
    }
}

/// The state capacity that the setting gives: the default one where it is not a number.
pub open spec fn capacity_of(setting: Option<Seq<char>>) -> nat {
    match setting {
        None => STATE_CAPACITY as nat,
        Some(text) => match unsigned_number(text, u64::MAX as nat) {
            None => STATE_CAPACITY as nat,
            Some(capacity) => capacity,
        },
    }
}

/// The message that refuses a state capacity.
pub open spec fn capacity_message(name: Seq<char>) -> Seq<char> {
    name + " must be at least "@ + decimal(STATE_CAPACITY as nat)
}

fn read_capacity(name: &str, setting: &Option<String>) -> (out: Result<u64, String>)
    ensures
        if capacity_of(text_opt(*setting)) < STATE_CAPACITY {
            out is Err && out->Err_0@ == capacity_message(name@)
        } else {
            out is Ok && out->Ok_0 == capacity_of(text_opt(*setting))
        },
{
    let capacity: u64 = match setting {
        None => STATE_CAPACITY,
        Some(text) => match parse_unsigned(text.as_str(), u64::MAX) {
            Some(capacity) => capacity,
            None => STATE_CAPACITY,
        },
    };
    if capacity < STATE_CAPACITY {
        let least = decimal_string(STATE_CAPACITY);
        Err(joined3(name, " must be at least ", least.as_str()))
    } else {
        Ok(capacity)
    }
}

fn copied(text: &String) -> (out: String)
    ensures
        out@ == text@,
{
    text.as_str().to_owned()
}

impl RunConfig {
    /// The configuration that the settings give.
    pub open spec fn follows(self, settings: Settings) -> bool {
        &&& settings.target is Some
        &&& self.target@ == settings.target->Some_0@
        &&& self.device_index == device_of(text_opt(settings.device))
        &&& self.state_capacity == capacity_of(text_opt(settings.state_capacity))
    }
}

/// The message that refuses the settings of the path diagnostic, if there is one.
pub open spec fn diagnostic_refusal(names: SettingNames, settings: Settings) -> Option<Seq<char>> {
    match text_opt(settings.target) {
        None => Some(names.target@ + " is required"@),
        Some(target) => if !is_supported_target(target) {
            Some(names.target@ + " must be gfx1030 or gfx1201"@)
        } else {
            match device_refusal(names.device@, text_opt(settings.device)) {
                Some(message) => Some(message),
                None => if !settings.model_given {
                    Some(names.model@ + " or "@ + names.compat_model@ + " is required"@)
                } else if capacity_of(text_opt(settings.state_capacity)) < STATE_CAPACITY {
                    Some(capacity_message(names.state_capacity@))
                } else {
                    None
                },
            }
        },
    }
}

fn missing_model(names: &SettingNames) -> (out: String)
    ensures
        out@ == names.model@ + " or "@ + names.compat_model@ + " is required"@,
{
    let mut message = joined3(names.model.as_str(), " or ", names.compat_model.as_str());
    message.append(" is required");
    message
}

/// Reads the settings of the path diagnostic.
pub fn diagnostic_config(names: &SettingNames, settings: &Settings) -> (out: Result<
    RunConfig,
    String,
>)
    ensures
        match diagnostic_refusal(*names, *settings) {
            Some(message) => out is Err && out->Err_0@ == message,
            None => out is Ok && out->Ok_0.follows(*settings),
        },
{
    let target = match &settings.target {
        Some(target) => copied(target),
        None => {
            return Err(joined(names.target.as_str(), " is required"));
        },
    };
    if !same_text(target.as_str(), "gfx1030") && !same_text(target.as_str(), "gfx1201") {
        return Err(joined(names.target.as_str(), " must be gfx1030 or gfx1201"));
    }
    let device_index: u32 = match read_device(names.device.as_str(), &settings.device) {
        Ok(index) => index,
        Err(message) => {
            return Err(message);
        },
    };
    if !settings.model_given {
        return Err(missing_model(names));
    }
    let state_capacity: u64 = match read_capacity(
        names.state_capacity.as_str(),
        &settings.state_capacity,
    ) {
        Ok(capacity) => capacity,
        Err(message) => {
            return Err(message);
        },
    };
    Ok(RunConfig { target, device_index, state_capacity })
}

/// The UUID of the device of a target, if the target is supported.
pub open spec fn uuid_of(target: Seq<char>) -> Option<Seq<char>> {
    if target == "gfx1030"@ {
        Some("GPU-76a08c022586fed6"@)
    } else if target == "gfx1201"@ {
        Some("GPU-a8e9ddefa2d60f55"@)
    } else {
        None
    }
}

/// The UUID of the device that a target must run on.
pub fn expected_uuid(target: &str) -> (out: Result<&'static str, String>)
    ensures
        match uuid_of(target@) {
            Some(uuid) => out is Ok && out->Ok_0@ == uuid,
            None => out is Err && out->Err_0@ == "unsupported Phase86 target: "@ + target@,
        },
{
    if same_text(target, "gfx1030") {
        Ok("GPU-76a08c022586fed6")
    } else if same_text(target, "gfx1201") {
        Ok("GPU-a8e9ddefa2d60f55")
    } else {
        Err(joined("unsupported Phase86 target: ", target))
    }
}

/// The message that refuses the settings of the state check, if there is one.
pub open spec fn state_check_refusal(names: SettingNames, settings: Settings) -> Option<Seq<char>> {
    match text_opt(settings.target) {
        None => Some(names.target@ + " is required"@),
        Some(target) => if uuid_of(target) is None {
            Some("unsupported Phase86 target: "@ + target)
        } else {
            match device_refusal(names.device@, text_opt(settings.device)) {
                Some(message) => Some(message),
                None => if !settings.model_given {
                    Some(names.model@ + " or "@ + names.compat_model@ + " is required"@)
                } else if settings.companion_given {
                    Some(
                        "Phase86 Stage2a requires BF16 MTP; "@ + names.companion@
                            + " must be unset"@,
                    )
                } else if capacity_of(text_opt(settings.state_capacity)) < STATE_CAPACITY {
                    Some(capacity_message(names.state_capacity@))
                } else {
                    None
                },
            }
        },
    }
}

/// Reads the settings of the state check.
pub fn state_check_config(names: &SettingNames, settings: &Settings) -> (out: Result<
    RunConfig,
    String,
>)
    ensures
        match state_check_refusal(*names, *settings) {
            Some(message) => out is Err && out->Err_0@ == message,
            None => out is Ok && out->Ok_0.follows(*settings),
        },
{
    let target = match &settings.target {
        Some(target) => copied(target),
        None => {
            return Err(joined(names.target.as_str(), " is required"));
        },
    };
    match expected_uuid(target.as_str()) {
        Ok(_) => {},
        Err(message) => {
            return Err(message);
        },
    }
    let device_index: u32 = match read_device(names.device.as_str(), &settings.device) {
        Ok(index) => index,
        Err(message) => {
            return Err(message);
        },
    };
    if !settings.model_given {
        return Err(missing_model(names));
    }
    if settings.companion_given {
        return Err(
            joined3(
                "Phase86 Stage2a requires BF16 MTP; ",
                names.companion.as_str(),
                " must be unset",
            ),
        );
    }
    let state_capacity: u64 = match read_capacity(
        names.state_capacity.as_str(),
        &settings.state_capacity,
    ) {
        Ok(capacity) => capacity,
        Err(message) => {
            return Err(message);
        },
    };
    Ok(RunConfig { target, device_index, state_capacity })
}

/// Refuses a tokenizer file of another size than the verified one.
pub fn check_tokenizer_size(observed: u64, expected: u64) -> (out: Result<(), String>)
    ensures
        if observed != expected {
            out is Err && out->Err_0@ == "verified tokenizer size changed"@
        } else {
            out is Ok
        },
{
    if observed != expected {
        Err("verified tokenizer size changed".to_owned())
    } else {
        Ok(())
    }
}

/// Refuses a quantized companion: the path diagnostic compares the BF16 one.
pub fn check_no_companion(companion_given: bool) -> (out: Result<(), String>)
    ensures
        if companion_given {
            out is Err && out->Err_0@
                == "Phase84.5 diagnostic requires BF16 MTP companion; unset SLLM_PHASE84_MTP_COMPANION_PATH"@
        } else {
            out is Ok
        },
{
    if companion_given {
        Err(
            "Phase84.5 diagnostic requires BF16 MTP companion; unset SLLM_PHASE84_MTP_COMPANION_PATH".to_owned(),
        )
    } else {
        Ok(())
    }
}

/// The failures of a case, each behind the case's name.
pub open spec fn named_failures(name: Seq<char>, failures: Seq<Seq<char>>) -> Seq<Seq<char>> {
    Seq::new(failures.len(), |i: int| "case="@ + name + ": "@ + failures[i])
}

/// Adds the failures of a measured case, each behind the case's name.
pub fn merge_case(failures: &mut Vec<String>, name: &str, found: &Vec<String>)
    ensures
        texts(final(failures)@) == texts(old(failures)@) + named_failures(name@, texts(found@)),
{
    let ghost named = named_failures(name@, texts(found@));
    let ghost before = texts(failures@);
    assert(before + named.take(0) =~= before);
    for i in 0..found.len()
        invariant
            named == named_failures(name@, texts(found@)),
            texts(failures@) == before + named.take(i as int),
    {
        let mut message = joined3("case=", name, ": ");
        message.append(found[i].as_str());
        push_text(failures, message);
        assert(texts(found@)[i as int] == found@[i as int]@);
        assert(before + named.take(i + 1) =~= (before + named.take(i as int)).push(
            named[i as int],
        ));
    }
    assert(named.take(found.len() as int) =~= named);
}

/// Adds the error of a case that could not be measured.
pub fn merge_unmeasured(failures: &mut Vec<String>, name: &str, error: &str)
    ensures
        texts(final(failures)@) == texts(old(failures)@).push(
            "case="@ + name@ + " could not be measured: "@ + error@,
        ),
{
    let mut message = joined3("case=", name, " could not be measured: ");
    message.append(error);
    push_text(failures, message);
}

/// Refuses a run without a measured case.
pub fn check_measured(measured_cases: usize, failures: &str) -> (out: Result<(), String>)
    ensures
        if measured_cases == 0 {
            out is Err && out->Err_0@
                == "all diagnostic cases failed before producing evidence: "@ + failures@
        } else {
            out is Ok
        },
{
    if measured_cases == 0 {
        Err(joined("all diagnostic cases failed before producing evidence: ", failures))
    } else {
        Ok(())
    }
}

/// The dispatches of the frontend run.
#[derive(Clone, Copy, Debug, PartialEq, Eq, Structural)]
pub struct FrontendDispatch {
    pub target_dispatches: u64,
    pub mtp_dispatches: u64,
    pub fallback_used: bool,
    pub all_dispatches_hip: bool,
}

/// Reads the audits of the frontend run, and records a failure where it left the HIP backend.
pub fn record_frontend(failures: &mut Vec<String>, target: &AuditReport, mtp: &AuditReport) -> (out:
    FrontendDispatch)
    ensures
        out.target_dispatches == target.kernel_dispatch_count,
        out.mtp_dispatches == mtp.kernel_dispatch_count,
        out.fallback_used == (target.fallback_used || mtp.fallback_used),
        out.all_dispatches_hip == (target.all_dispatches_hip && mtp.all_dispatches_hip),
        texts(final(failures)@) == if out.fallback_used || !out.all_dispatches_hip {
            texts(old(failures)@).push(
                "frontend executor observed fallback or non-HIP dispatch"@,
            )
        } else {
            texts(old(failures)@)
        },
{
    let fallback_used = target.fallback_used || mtp.fallback_used;
    let all_dispatches_hip = target.all_dispatches_hip && mtp.all_dispatches_hip;
    if fallback_used || !all_dispatches_hip {
        push_text(failures, "frontend executor observed fallback or non-HIP dispatch".to_owned());
    }
    FrontendDispatch {
        target_dispatches: target.kernel_dispatch_count,
        mtp_dispatches: mtp.kernel_dispatch_count,
        fallback_used,
        all_dispatches_hip,
    }
}

/// Refuses a session that did not release everything.
pub fn check_cleanup(cleanup: &CleanupCounts) -> (out: Result<(), String>)
    ensures
        if cleanup.is_zero() {
            out is Ok
        } else {
            out is Err && out->Err_0@ == "diagnostic cleanup was not empty"@
        },
{
    if cleanup.terminal_zero() {
        Ok(())
    } else {
        Err("diagnostic cleanup was not empty".to_owned())
    }
}

/// Whether no token is negative.
pub open spec fn all_nonnegative(tokens: Seq<i32>) -> bool {
    forall|i: int| 0 <= i < tokens.len() ==> #[trigger] tokens[i] >= 0
}

/// The tokens as unsigned integers.
pub open spec fn unsigned_tokens(tokens: Seq<i32>) -> Seq<u32> {
    Seq::new(tokens.len(), |i: int| tokens[i] as u32)
}

/// A prompt as the tokenizer's numbers.
pub fn unsigned_prompt(prompt: &[i32]) -> (out: Result<Vec<u32>, String>)
    ensures
        if all_nonnegative(prompt@) {
            out is Ok && out->Ok_0@ == unsigned_tokens(prompt@)
        } else {
            out is Err && out->Err_0@ == "negative prompt token"@
        },
{
    let mut tokens: Vec<u32> = Vec::new();
    for i in 0..prompt.len()
        invariant
            forall|j: int| 0 <= j < i ==> #[trigger] prompt@[j] >= 0,
            tokens@ == unsigned_tokens(prompt@).take(i as int),
    {
        if prompt[i] < 0 {
            assert(!(prompt@[i as int] >= 0));
            return Err("negative prompt token".to_owned());
        }
        tokens.push(prompt[i] as u32);
        assert(unsigned_tokens(prompt@).take(i + 1) =~= unsigned_tokens(prompt@).take(
            i as int,
        ).push(unsigned_tokens(prompt@)[i as int]));
    }
    assert(unsigned_tokens(prompt@).take(prompt.len() as int) =~= unsigned_tokens(prompt@));
    Ok(tokens)
}

/// Why the diagnostic allows what it allows.
pub const THRESHOLD_RATIONALE: &'static str =
    "BF16 readback permits at most three representable steps as a provisional diagnostic screen borrowed from an existing GDN fixture; this is not a validated full-model bound; tokens, lengths, and KV payloads remain exact";

/// How a diagnostic ends: it passes where nothing failed.
pub fn diagnostic_state(failures: &Vec<String>) -> (out: &'static str)
    ensures
        out@ == if failures@.len() == 0 {
            "PASS"@
        } else {
            "FAIL"@
        },
{
    if failures.len() == 0 {
        "PASS"
    } else {
        "FAIL"
    }
}

/// A diagnostic runs exactly where it is given a supported target, a device and a model, and its state
/// holds 256 positions or more; without a setting for them it holds 256. The state check also asks that no
/// companion is given, and takes the same settings otherwise.
pub proof fn diagnostics_take_complete_settings(
    names: &SettingNames,
    settings: &Settings,
    out: Result<RunConfig, String>,
    checked: Result<RunConfig, String>,
)
    requires
        call_ensures(diagnostic_config, (names, settings), out),
        call_ensures(state_check_config, (names, settings), checked),
    ensures
        out is Ok ==> {
            let config = out->Ok_0;
            &&& config.target@ == "gfx1030"@ || config.target@ == "gfx1201"@
            &&& settings.target is Some && config.target@ == settings.target->Some_0@
            &&& settings.device is Some
            &&& unsigned_number(settings.device->Some_0@, u32::MAX as nat) == Some(
                config.device_index as nat,
            )
            &&& settings.model_given
            &&& config.state_capacity >= 256
            &&& settings.state_capacity is None ==> config.state_capacity == 256
            &&& settings.state_capacity matches Some(text) ==> {
                let capacity = unsigned_number(text@, u64::MAX as nat);
                &&& capacity is Some ==> config.state_capacity == capacity->Some_0
                &&& capacity is None ==> config.state_capacity == 256
            }
        },
        checked is Ok <==> out is Ok && !settings.companion_given,
        checked is Ok ==> checked->Ok_0.target@ == out->Ok_0.target@ && checked->Ok_0.device_index
            == out->Ok_0.device_index && checked->Ok_0.state_capacity == out->Ok_0.state_capacity,
{
}

/// A supported target has one device, and the two targets have different ones.
pub proof fn targets_have_devices_of_their_own(
    a: &str,
    b: &str,
    first: Result<&'static str, String>,
    second: Result<&'static str, String>,
)
    requires
        call_ensures(expected_uuid, (a,), first),
        call_ensures(expected_uuid, (b,), second),
    ensures
        first is Ok <==> a@ == "gfx1030"@ || a@ == "gfx1201"@,
        first is Ok && second is Ok ==> (first->Ok_0@ == second->Ok_0@ <==> a@ == b@),
{
    reveal_strlit("GPU-76a08c022586fed6");
    reveal_strlit("GPU-a8e9ddefa2d60f55");
    assert("GPU-76a08c022586fed6"@[4] == '7');
    assert("GPU-a8e9ddefa2d60f55"@[4] == 'a');
}

/// A prompt is taken as it stands where no token is negative, and refused else.
pub proof fn prompts_are_taken_as_they_stand(prompt: &[i32], out: Result<Vec<u32>, String>)
    requires
        call_ensures(unsigned_prompt, (prompt,), out),
    ensures
        out is Ok <==> forall|i: int| 0 <= i < prompt@.len() ==> #[trigger] prompt@[i] >= 0,
        out matches Ok(tokens) ==> tokens@.len() == prompt@.len() && forall|i: int|
            0 <= i < prompt@.len() ==> #[trigger] tokens@[i] == prompt@[i],
{
}

/// What a case failed in goes behind what failed before, one for one and named after the case; a case that
/// failed in nothing adds nothing.
pub proof fn failures_are_kept_by_case(
    failures: &mut Vec<String>,
    name: &str,
    found: &Vec<String>,
)
    requires
        call_ensures(merge_case, (failures, name, found), ()),
    ensures
        final(failures)@.len() == old(failures)@.len() + found@.len(),
        forall|i: int|
            0 <= i < old(failures)@.len() ==> (#[trigger] final(failures)@[i])@ == old(failures)@[i]@,
        forall|i: int|
            0 <= i < found@.len() ==> (#[trigger] final(failures)@[old(failures)@.len() + i])@
                == "case="@ + name@ + ": "@ + found@[i]@,
{
    let before = texts(old(failures)@);
    let after = texts(final(failures)@);
    assert(after.len() == final(failures)@.len());
    assert(before.len() == old(failures)@.len());
    assert forall|i: int| 0 <= i < old(failures)@.len() implies (#[trigger] final(failures)@[i])@
        == old(failures)@[i]@ by {
        assert(after[i] == before[i]);
    }
    assert forall|i: int| 0 <= i < found@.len() implies (
    #[trigger] final(failures)@[old(failures)@.len() + i])@ == "case="@ + name@ + ": "@ + found@[i]@ by {
        assert(after[before.len() + i] == named_failures(name@, texts(found@))[i]);
    }
}

/// A diagnostic passes exactly where nothing failed, and a dispatch off the device is a failure.
pub proof fn dispatches_off_the_device_fail(
    failures: &mut Vec<String>,
    target: &AuditReport,
    mtp: &AuditReport,
    report: FrontendDispatch,
    state: &'static str,
)
    requires
        call_ensures(record_frontend, (failures, target, mtp), report),
        call_ensures(diagnostic_state, (&*final(failures),), state),
    ensures
        report.fallback_used <==> target.fallback_used || mtp.fallback_used,
        report.all_dispatches_hip <==> target.all_dispatches_hip && mtp.all_dispatches_hip,
        report.target_dispatches == target.kernel_dispatch_count,
        report.mtp_dispatches == mtp.kernel_dispatch_count,
        final(failures)@.len() == old(failures)@.len() + if target.fallback_used || mtp.fallback_used
            || !target.all_dispatches_hip || !mtp.all_dispatches_hip {
            1int
        } else {
            0
        },
        state@ == "PASS"@ <==> final(failures)@.len() == 0,
{
    reveal_strlit("PASS");
    reveal_strlit("FAIL");
    assert("PASS"@[0] == 'P' && "FAIL"@[0] == 'F');
    assert(texts(final(failures)@).len() == final(failures)@.len());
    assert(texts(old(failures)@).len() == old(failures)@.len());
}

} // verus!
