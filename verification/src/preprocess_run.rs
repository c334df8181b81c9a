//! The attention preprocessing run: its cases, the dispatches they must come from, and how their
//! results are compared.
use crate::audit::DispatchEvidence;
use crate::bytes::{same_items, words_image, words_to_bytes};
use crate::native::PositionMode;
use crate::number::{
    bf16_is_finite, bf16_is_infinite, bf16_is_nan, distance, finite_bf16_ulp_distance,
    signed_zero_rank,
};
use crate::preprocess_inputs::{HEAD_DIM, K_HEADS, Q_HEADS};
use crate::text::{append_decimal, decimal, hex_word, hex_word_string, same_text};
use vstd::prelude::*;
use vstd::string::StringExecFns;

verus! {

broadcast use vstd::string::group_string_axioms;

/// A number of tokens and where they stand.
#[derive(Clone, Copy, Debug, PartialEq, Eq, Structural)]
pub struct PreprocessCase {
    pub m: usize,
    pub start_position: u32,
    pub mode: PositionMode,
}

/// A case.
pub open spec fn case_of(m: usize, start_position: u32, mode: PositionMode) -> PreprocessCase {
    PreprocessCase { m, start_position, mode }
}

/// The cases of the run.
pub open spec fn preprocess_cases() -> Seq<PreprocessCase> {
    seq![
        case_of(1, 0, PositionMode::Prefill),
        case_of(3, 0, PositionMode::Prefill),
        case_of(17, 0, PositionMode::Prefill),
        case_of(1, 1, PositionMode::DecodeContinuation),
        case_of(3, 3, PositionMode::DecodeContinuation),
        case_of(17, 255, PositionMode::DecodeContinuation),
        case_of(1, 256, PositionMode::DecodeContinuation),
        case_of(3, 257, PositionMode::DecodeContinuation),
    ]
}

fn make_case(m: usize, start_position: u32, mode: PositionMode) -> (out: PreprocessCase)
    ensures
        out == case_of(m, start_position, mode),
{
    PreprocessCase { m, start_position, mode }
}

/// The cases of the run.
pub fn cases() -> (out: Vec<PreprocessCase>)
    ensures
        out@ == preprocess_cases(),
{
    let out: Vec<PreprocessCase> = vec![
        make_case(1, 0, PositionMode::Prefill),
        make_case(3, 0, PositionMode::Prefill),
        make_case(17, 0, PositionMode::Prefill),
        make_case(1, 1, PositionMode::DecodeContinuation),
        make_case(3, 3, PositionMode::DecodeContinuation),
        make_case(17, 255, PositionMode::DecodeContinuation),
        make_case(1, 256, PositionMode::DecodeContinuation),
        make_case(3, 257, PositionMode::DecodeContinuation),
    ];
    assert(out@ =~= preprocess_cases());
    out
}

/// A case starts a sequence exactly where it starts at its first position.
pub proof fn prefill_cases_start_at_zero(i: int)
    requires
        0 <= i < preprocess_cases().len(),
    ensures
        preprocess_cases()[i].mode == PositionMode::Prefill <==> preprocess_cases()[i].start_position
            == 0,
        1 <= preprocess_cases()[i].m <= 17,
{
}

/// The positions of a case's tokens.
pub open spec fn case_positions(case: PreprocessCase) -> Seq<i32> {
    Seq::new(case.m as nat, |i: int| (case.start_position + i) as i32)
}

/// The positions of a case's tokens.
pub fn positions(case: PreprocessCase) -> (out: Vec<i32>)
    requires
        case.start_position + case.m <= i32::MAX + 1,
    ensures
        out@ == case_positions(case),
{
    let ghost all = case_positions(case);
    let mut out: Vec<i32> = Vec::new();
    for i in 0..case.m
        invariant
            case.start_position + case.m <= i32::MAX + 1,
            all == case_positions(case),
            out@ == all.take(i as int),
    {
        out.push((case.start_position as i64 + i as i64) as i32);
        assert(all.take(i + 1) =~= all.take(i as int).push(all[i as int]));
    }
    assert(all.take(case.m as int) =~= all);
    out
}

/// Whether a setting is on: it is unless it was given a value other than `1`.
pub open spec fn is_on_by_default(value: Option<&str>) -> bool {
    match value {
        None => true,
        Some(value) => value@ == "1"@,
    }
}

/// Whether a setting is on: it is unless it was given a value other than `1`.
pub fn default_on_env(value: Option<&str>) -> (out: bool)
    ensures
        out == is_on_by_default(value),
{
    match value {
        None => true,
        Some(value) => same_text(value, "1"),
    }
}

/// Whether a run uses the kernel that works on waves of thirty-two lanes.
pub open spec fn uses_wave32(target: Seq<char>, setting: Option<&str>) -> bool {
    target == "gfx1030"@ && is_on_by_default(setting)
}

/// Whether a run uses the kernel that works on waves of thirty-two lanes, which rounds in another
/// order.
pub fn rounding_order_changed(target: &str, setting: Option<&str>) -> (out: bool)
    ensures
        out == uses_wave32(target@, setting),
{
    same_text(target, "gfx1030") && default_on_env(setting)
}

/// Whether a dispatch is exactly the one that a case must come from.
pub open spec fn is_exact_preprocess(
    dispatch: DispatchEvidence,
    case: PreprocessCase,
    target: Seq<char>,
    wave32: bool,
) -> bool {
    &&& dispatch.abi_version == 1
    &&& dispatch.info_version == 1
    &&& dispatch.dispatch_id != 0
    &&& dispatch.dispatch_count == 1
    &&& dispatch.kernel_id == if wave32 {
        2u32
    } else {
        1u32
    }
    &&& dispatch.workgroup_size_x == if wave32 {
        32u32
    } else {
        1u32
    }
    &&& dispatch.grid_size_x == case.m * (Q_HEADS + K_HEADS)
    &&& dispatch.row_count == case.m
    &&& dispatch.normalized_size == HEAD_DIM
    &&& dispatch.backend == 1
    &&& !dispatch.fallback_allowed
    &&& !dispatch.fallback_used
    &&& dispatch.kernel_symbol@ == if wave32 {
        "attention_preprocess.headwise_norm_rope.wave32.v1"@
    } else {
        "attention_preprocess.headwise_norm_rope.v1"@
    }
    &&& dispatch.device_symbol@ == if wave32 {
        "sllm_attention_preprocess_headwise_norm_rope_wave32_v1"@
    } else {
        "sllm_attention_preprocess_headwise_norm_rope_v1"@
    }
    &&& dispatch.target@ == target
}

/// Why a dispatch is not the one that a case must come from.
pub open spec fn dispatch_refusal(
    dispatch: DispatchEvidence,
    case: PreprocessCase,
    target: Seq<char>,
    wave32: bool,
) -> Option<Seq<char>> {
    if case.m * (Q_HEADS + K_HEADS) > usize::MAX {
        Some("attention preprocess grid size overflowed usize"@)
    } else if case.m * (Q_HEADS + K_HEADS) > u32::MAX {
        Some("attention preprocess grid size does not fit u32"@)
    } else if !is_exact_preprocess(dispatch, case, target, wave32) {
        Some(
            "attention preprocess dispatch metadata violated the exact contract for M="@ + decimal(
                case.m as nat,
            ) + " start="@ + decimal(case.start_position as nat) + " target="@ + target,
        )
    } else {
        None
    }
}

/// Refuses a dispatch that is not the one that a case must come from; `setting` is what the
/// environment says of the wave kernel.
pub fn validate_dispatch(
    dispatch: &DispatchEvidence,
    case: PreprocessCase,
    target: &str,
    setting: Option<&str>,
) -> (out: Result<(), String>)
    ensures
        match dispatch_refusal(*dispatch, case, target@, uses_wave32(target@, setting)) {
            Some(message) => out is Err && out->Err_0@ == message,
            None => out is Ok,
        },
{
    let wave32 = rounding_order_changed(target, setting);
    let grid_size: usize = match case.m.checked_mul(Q_HEADS + K_HEADS) {
        Some(grid_size) => grid_size,
        None => {
            return Err("attention preprocess grid size overflowed usize".to_owned());
        },
    };
    if grid_size as u64 > u32::MAX as u64 {
        return Err("attention preprocess grid size does not fit u32".to_owned());
    }
    let kernel_id: u32 = if wave32 {
        2
    } else {
        1
    };
    let workgroup: u32 = if wave32 {
        32
    } else {
        1
    };
    let kernel_symbol = if wave32 {
        "attention_preprocess.headwise_norm_rope.wave32.v1"
    } else {
        "attention_preprocess.headwise_norm_rope.v1"
    };
    let device_symbol = if wave32 {
        "sllm_attention_preprocess_headwise_norm_rope_wave32_v1"
    } else {
        "sllm_attention_preprocess_headwise_norm_rope_v1"
    };
    if dispatch.abi_version != 1 || dispatch.info_version != 1 || dispatch.dispatch_id == 0
        || dispatch.dispatch_count != 1 || dispatch.kernel_id != kernel_id
        || dispatch.workgroup_size_x != workgroup || dispatch.grid_size_x as u64
        != grid_size as u64 || dispatch.row_count != case.m as u64 || dispatch.normalized_size
        != HEAD_DIM as u64 || dispatch.backend != 1 || dispatch.fallback_allowed
        || dispatch.fallback_used || !same_text(dispatch.kernel_symbol.as_str(), kernel_symbol)
        || !same_text(dispatch.device_symbol.as_str(), device_symbol) || !same_text(
        dispatch.target.as_str(),
        target,
    ) {
        let mut message =
            "attention preprocess dispatch metadata violated the exact contract for M=".to_owned();
        append_decimal(&mut message, case.m as u64);
        message.append(" start=");
        append_decimal(&mut message, case.start_position as u64);
        message.append(" target=");
        message.append(target);
        return Err(message);
    }
    Ok(())
}

/// How many BF16 steps a finite result may be off.
pub const FINITE_BF16_ULP_BOUND: u16 = 2;

/// What is wrong with a word, if anything.
#[derive(Clone, Copy, Debug, PartialEq, Eq, Structural)]
pub enum WordFault {
    Nan,
    Infinity,
    Zero,
    Finite,
    Steps(u16),
}

/// What is wrong with a word. Zeros, infinities and NaNs must have the same class and sign (the
/// payload of a NaN may differ), every other word must be finite and a few steps away at most.
pub open spec fn word_fault(expected: u16, actual: u16) -> Option<WordFault> {
    if bf16_is_nan(expected) {
        if !bf16_is_nan(actual) || expected / 0x8000 != actual / 0x8000 {
            Some(WordFault::Nan)
        } else {
            None
        }
    } else if bf16_is_infinite(expected) {
        if actual != expected {
            Some(WordFault::Infinity)
        } else {
            None
        }
    } else if expected % 0x8000 == 0 {
        if actual % 0x8000 != 0 || expected / 0x8000 != actual / 0x8000 {
            Some(WordFault::Zero)
        } else {
            None
        }
    } else if !bf16_is_finite(actual) {
        Some(WordFault::Finite)
    } else if steps(expected, actual) > FINITE_BF16_ULP_BOUND {
        Some(WordFault::Steps(steps(expected, actual) as u16))
    } else {
        None
    }
}

/// The number of BF16 steps between two words.
pub open spec fn steps(expected: u16, actual: u16) -> nat {
    distance(signed_zero_rank(expected) as int, signed_zero_rank(actual) as int)
}

/// The steps that a word counts for: only words that are neither special nor zero count.
pub open spec fn counted_steps(expected: u16, actual: u16) -> nat {
    if bf16_is_finite(expected) && expected % 0x8000 != 0 && bf16_is_finite(actual) {
        steps(expected, actual)
    } else {
        0
    }
}

/// The place of the first wrong word, and the length where all are right.
pub open spec fn first_fault(expected: Seq<u16>, actual: Seq<u16>, from: int) -> int
    decreases expected.len() - from,
{
    if from < 0 || from >= expected.len() {
        expected.len() as int
    } else if word_fault(expected[from], actual[from]) is Some {
        from
    } else {
        first_fault(expected, actual, from + 1)
    }
}

/// The largest of the steps of the words before a place, and of an earlier maximum.
pub open spec fn largest_steps(expected: Seq<u16>, actual: Seq<u16>, upto: int, before: nat) -> nat
    decreases upto,
{
    if upto <= 0 {
        before
    } else {
        let earlier = largest_steps(expected, actual, upto - 1, before);
        let here = counted_steps(expected[upto - 1], actual[upto - 1]);
        if here > earlier {
            here
        } else {
            earlier
        }
    }
}

/// How many words a comparison looks at: all up to the first wrong one, and that one too.
pub open spec fn compared_words(expected: Seq<u16>, actual: Seq<u16>) -> int {
    let fault = first_fault(expected, actual, 0);
    if fault < expected.len() {
        fault + 1
    } else {
        fault
    }
}

/// The message about a wrong word.
pub open spec fn fault_message(
    label: Seq<char>,
    index: int,
    fault: WordFault,
    expected: u16,
    actual: u16,
) -> Seq<char> {
    let place = label + "["@ + decimal(index as nat) + "]"@;
    let what = match fault {
        WordFault::Nan => place + " NaN classification/sign mismatch"@,
        WordFault::Infinity => place + " infinity classification/sign mismatch"@,
        WordFault::Zero => place + " zero classification/sign mismatch"@,
        WordFault::Finite => place + " finite classification mismatch"@,
        WordFault::Steps(ulp) => place + " finite BF16 error is "@ + decimal(ulp as nat)
            + " ULPs, bound is 2"@,
    };
    what + ": expected 0x"@ + hex_word(expected) + ", got 0x"@ + hex_word(actual)
}

/// Why the words of a result are refused.
pub open spec fn words_refusal(expected: Seq<u16>, actual: Seq<u16>, label: Seq<char>) -> Option<
    Seq<char>,
> {
    let fault = first_fault(expected, actual, 0);
    if expected.len() != actual.len() {
        Some(
            label + " length mismatch: expected "@ + decimal(expected.len()) + ", got "@ + decimal(
                actual.len(),
            ),
        )
    } else if fault < expected.len() {
        Some(
            fault_message(
                label,
                fault,
                word_fault(expected[fault], actual[fault])->Some_0,
                expected[fault],
                actual[fault],
            ),
        )
    } else {
        None
    }
}

fn fault_of(expected: u16, actual: u16) -> (out: Option<WordFault>)
    ensures
        out == word_fault(expected, actual),
{
    if expected % 0x8000 > 0x7f80 {
        if actual % 0x8000 <= 0x7f80 || expected / 0x8000 != actual / 0x8000 {
            return Some(WordFault::Nan);
        }
        return None;
    }
    if expected % 0x8000 == 0x7f80 {
        if actual != expected {
            return Some(WordFault::Infinity);
        }
        return None;
    }
    if expected % 0x8000 == 0 {
        if actual % 0x8000 != 0 || expected / 0x8000 != actual / 0x8000 {
            return Some(WordFault::Zero);
        }
        return None;
    }
    if actual % 0x8000 >= 0x7f80 {
        return Some(WordFault::Finite);
    }
    let ulp: u16 = finite_bf16_ulp_distance(expected, actual);
    if ulp > FINITE_BF16_ULP_BOUND {
        Some(WordFault::Steps(ulp))
    } else {
        None
    }
}

fn counted(expected: u16, actual: u16) -> (out: u16)
    ensures
        out == counted_steps(expected, actual),
{
    if expected % 0x8000 < 0x7f80 && expected % 0x8000 != 0 && actual % 0x8000 < 0x7f80 {
        finite_bf16_ulp_distance(expected, actual)
    } else {
        0
    }
}

fn describe_fault(label: &str, index: usize, fault: WordFault, expected: u16, actual: u16) -> (out:
    String)
    ensures
        out@ == fault_message(label@, index as int, fault, expected, actual),
{
    let mut message = label.to_owned();
    message.append("[");
    append_decimal(&mut message, index as u64);
    message.append("]");
    match fault {
        WordFault::Nan => {
            message.append(" NaN classification/sign mismatch");
        },
        WordFault::Infinity => {
            message.append(" infinity classification/sign mismatch");
        },
        WordFault::Zero => {
            message.append(" zero classification/sign mismatch");
        },
        WordFault::Finite => {
            message.append(" finite classification mismatch");
        },
        WordFault::Steps(ulp) => {
            message.append(" finite BF16 error is ");
            append_decimal(&mut message, ulp as u64);
            message.append(" ULPs, bound is 2");
        },
    }
    message.append(": expected 0x");
    message.append(hex_word_string(expected).as_str());
    message.append(", got 0x");
    message.append(hex_word_string(actual).as_str());
    message
}

/// Compares the words of a result, named by `label`, and keeps the largest number of steps that was
/// seen.
pub fn compare_bf16_words(
    expected: &[u16],
    actual: &[u16],
    label: &str,
    max_finite_ulp: &mut u16,
) -> (out: Result<(), String>)
    ensures
        match words_refusal(expected@, actual@, label@) {
            Some(message) => out is Err && out->Err_0@ == message,
            None => out is Ok,
        },
        *final(max_finite_ulp) == if expected@.len() != actual@.len() {
            *old(max_finite_ulp) as nat
        } else {
            largest_steps(
                expected@,
                actual@,
                compared_words(expected@, actual@),
                *old(max_finite_ulp) as nat,
            )
        },
{
    if expected.len() != actual.len() {
        let mut message = label.to_owned();
        message.append(" length mismatch: expected ");
        append_decimal(&mut message, expected.len() as u64);
        message.append(", got ");
        append_decimal(&mut message, actual.len() as u64);
        return Err(message);
    }
    for index in 0..expected.len()
        invariant
            expected@.len() == actual@.len(),
            first_fault(expected@, actual@, 0) == first_fault(expected@, actual@, index as int),
            *max_finite_ulp == largest_steps(
                expected@,
                actual@,
                index as int,
                *old(max_finite_ulp) as nat,
            ),
    {
        let ulp: u16 = counted(expected[index], actual[index]);
        if ulp > *max_finite_ulp {
            *max_finite_ulp = ulp;
        }
        match fault_of(expected[index], actual[index]) {
            Some(fault) => {
                return Err(describe_fault(label, index, fault, expected[index], actual[index]));
            },
            None => {},
        }
    }
    Ok(())
}

/// Equal words are accepted, and any result that is accepted keeps every finite word within the
/// bound.
pub proof fn comparison_accepts_what_is_close(expected: Seq<u16>, actual: Seq<u16>, from: int)
    requires
        expected.len() == actual.len(),
        0 <= from <= expected.len(),
    ensures
        expected == actual ==> first_fault(expected, actual, from) == expected.len(),
        first_fault(expected, actual, from) == expected.len() ==> forall|i: int|
            from <= i < expected.len() ==> #[trigger] counted_steps(expected[i], actual[i])
                <= FINITE_BF16_ULP_BOUND,
    decreases expected.len() - from,
{
    if from < expected.len() {
        comparison_accepts_what_is_close(expected, actual, from + 1);
        if first_fault(expected, actual, from) == expected.len() {
            assert forall|i: int| from <= i < expected.len() implies #[trigger] counted_steps(
                expected[i],
                actual[i],
            ) <= FINITE_BF16_ULP_BOUND by {
                if i > from {
                    assert(from + 1 <= i);
                }
            }
        }
    }
}

/// Refuses an output that has another number of bytes than it must.
pub fn check_output_bytes(index: usize, expected: usize, written: u64) -> (out: Result<(), String>)
    ensures
        if written == expected {
            out is Ok
        } else {
            &&& out is Err
            &&& out->Err_0@ == "output "@ + decimal(index as nat)
                + " byte count mismatch: expected "@ + decimal(expected as nat) + ", got "@
                + decimal(written as nat)
        },
{
    if written == expected as u64 {
        return Ok(());
    }
    let mut message = "output ".to_owned();
    append_decimal(&mut message, index as u64);
    message.append(" byte count mismatch: expected ");
    append_decimal(&mut message, expected as u64);
    message.append(", got ");
    append_decimal(&mut message, written);
    Err(message)
}

/// Refuses gates that are not copied byte for byte.
pub fn check_gate(case: PreprocessCase, expected: &[u16], actual_bytes: &[u8]) -> (out: Result<
    (),
    String,
>)
    ensures
        if words_image(expected@) == actual_bytes@ {
            out is Ok
        } else {
            &&& out is Err
            &&& out->Err_0@ == "gate output byte mismatch for M="@ + decimal(case.m as nat)
                + " start="@ + decimal(case.start_position as nat)
        },
{
    let bytes = words_to_bytes(expected);
    if same_items(bytes.as_slice(), actual_bytes) {
        return Ok(());
    }
    let mut message = "gate output byte mismatch for M=".to_owned();
    append_decimal(&mut message, case.m as u64);
    message.append(" start=");
    append_decimal(&mut message, case.start_position as u64);
    Err(message)
}

/// The last position of a case.
pub fn last_position(case: PreprocessCase) -> (out: u32)
    requires
        1 <= case.m,
        case.start_position + case.m <= u32::MAX,
    ensures
        out == case.start_position + case.m - 1,
{
    case.start_position + case.m as u32 - 1
}

/// A dispatch is accepted just where it is a fresh single one on the HIP backend of the target without
/// fallback, with a group for each of the twenty heads of each token. One target has a kernel of its
/// own that works on thirty-two lanes, unless a setting turns it off.
pub proof fn dispatches_cover_every_head(
    dispatch: &DispatchEvidence,
    case: PreprocessCase,
    target: &str,
    setting: Option<&str>,
    changed: bool,
    out: Result<(), String>,
)
    requires
        case.m * 20 <= u32::MAX,
        call_ensures(rounding_order_changed, (target, setting), changed),
        call_ensures(validate_dispatch, (dispatch, case, target, setting), out),
    ensures
        changed <==> target@ == "gfx1030"@ && (setting is None || setting->Some_0@ == "1"@),
        out is Ok <==> {
            &&& dispatch.grid_size_x == 20 * case.m
            &&& dispatch.row_count == case.m
            &&& dispatch.normalized_size == 256
            &&& dispatch.dispatch_id != 0
            &&& dispatch.dispatch_count == 1
            &&& dispatch.abi_version == 1
            &&& dispatch.info_version == 1
            &&& dispatch.backend == 1
            &&& !dispatch.fallback_allowed
            &&& !dispatch.fallback_used
            &&& dispatch.target@ == target@
            &&& changed ==> {
                &&& dispatch.kernel_id == 2
                &&& dispatch.workgroup_size_x == 32
                &&& dispatch.kernel_symbol@ == "attention_preprocess.headwise_norm_rope.wave32.v1"@
                &&& dispatch.device_symbol@
                    == "sllm_attention_preprocess_headwise_norm_rope_wave32_v1"@
            }
            &&& !changed ==> {
                &&& dispatch.kernel_id == 1
                &&& dispatch.workgroup_size_x == 1
                &&& dispatch.kernel_symbol@ == "attention_preprocess.headwise_norm_rope.v1"@
                &&& dispatch.device_symbol@ == "sllm_attention_preprocess_headwise_norm_rope_v1"@
            }
        },
{
}

/// Whether a word is met: a NaN by a NaN of its sign, an infinity or a zero by itself, and every other
/// word by a finite one at most two steps away.
pub proof fn accepted_words_are_close(
    expected: &[u16],
    actual: &[u16],
    label: &str,
    max_finite_ulp: &mut u16,
    at: int,
)
    requires
        call_ensures(compare_bf16_words, (expected, actual, label, max_finite_ulp), Ok(())),
        0 <= at < expected@.len(),
    ensures
        actual@.len() == expected@.len(),
        ({
            let (e, a) = (expected@[at], actual@[at]);
            let nan = |word: u16| word % 0x8000 > 0x7f80;
            &&& nan(e) ==> nan(a) && e / 0x8000 == a / 0x8000
            &&& !nan(e) && (e % 0x8000 == 0x7f80 || e % 0x8000 == 0) ==> a == e
            &&& 0 < e % 0x8000 < 0x7f80 ==> {
                let steps = signed_zero_rank(e) - signed_zero_rank(a);
                &&& a % 0x8000 < 0x7f80
                &&& -2 <= steps <= 2
                &&& *final(max_finite_ulp) >= steps && *final(max_finite_ulp) >= -steps
            }
        }),
        *final(max_finite_ulp) >= *old(max_finite_ulp),
{
    let fault = first_fault(expected@, actual@, 0);
    no_fault_before_the_first(expected@, actual@, 0);
    assert(word_fault(expected@[at], actual@[at]) is None);
    largest_steps_bound(expected@, actual@, expected@.len() as int, *old(max_finite_ulp) as nat, at);
}

proof fn no_fault_before_the_first(expected: Seq<u16>, actual: Seq<u16>, from: int)
    requires
        0 <= from <= expected.len(),
    ensures
        from <= first_fault(expected, actual, from) <= expected.len(),
        forall|i: int|
            from <= i < first_fault(expected, actual, from) ==> word_fault(
                #[trigger] expected[i],
                actual[i],
            ) is None,
    decreases expected.len() - from,
{
    if from < expected.len() && word_fault(expected[from], actual[from]) is None {
        no_fault_before_the_first(expected, actual, from + 1);
    }
}

proof fn largest_steps_bound(
    expected: Seq<u16>,
    actual: Seq<u16>,
    upto: int,
    before: nat,
    at: int,
)
    requires
        0 <= upto,
    ensures
        largest_steps(expected, actual, upto, before) >= before,
        0 <= at < upto ==> largest_steps(expected, actual, upto, before) >= counted_steps(
            expected[at],
            actual[at],
        ),
    decreases upto,
{
    if upto > 0 {
        largest_steps_bound(expected, actual, upto - 1, before, at);
    }
}

/// Words that are equal, or finite and at most two steps apart, are never refused.
pub proof fn close_words_are_accepted(
    expected: &[u16],
    actual: &[u16],
    label: &str,
    max_finite_ulp: &mut u16,
    out: Result<(), String>,
)
    requires
        call_ensures(compare_bf16_words, (expected, actual, label, max_finite_ulp), out),
        expected@.len() == actual@.len(),
        forall|i: int|
            0 <= i < expected@.len() ==> #[trigger] expected@[i] == actual@[i] || {
                &&& 0 < expected@[i] % 0x8000 < 0x7f80
                &&& actual@[i] % 0x8000 < 0x7f80
                &&& -2 <= signed_zero_rank(expected@[i]) - signed_zero_rank(actual@[i]) <= 2
            },
    ensures
        out is Ok,
{
    assert forall|i: int| 0 <= i < expected@.len() implies word_fault(
        #[trigger] expected@[i],
        actual@[i],
    ) is None by {}
    no_fault_before_the_first(expected@, actual@, 0);
    first_fault_is_a_fault(expected@, actual@, 0);
}

proof fn first_fault_is_a_fault(expected: Seq<u16>, actual: Seq<u16>, from: int)
    requires
        0 <= from <= expected.len(),
    ensures
        ({
            let at = first_fault(expected, actual, from);
            at < expected.len() ==> word_fault(expected[at], actual[at]) is Some
        }),
    decreases expected.len() - from,
{
    if from < expected.len() && word_fault(expected[from], actual[from]) is None {
        first_fault_is_a_fault(expected, actual, from + 1);
    }
}

/// The tokens of a case stand one behind the other from its first position on.
pub proof fn positions_follow_one_another(case: PreprocessCase, places: Vec<i32>, at: int)
    requires
        case.start_position + case.m <= i32::MAX + 1,
        call_ensures(positions, (case,), places),
        0 <= at < case.m,
    ensures
        places@.len() == case.m,
        places@[0] == case.start_position,
        at + 1 < case.m ==> places@[at + 1] == places@[at] + 1,
{
}

/// Gates are accepted just where they are copied byte for byte, outputs where all their bytes were
/// written.
pub proof fn gates_are_copied(
    case: PreprocessCase,
    expected: &[u16],
    bytes: &[u8],
    copied: Result<(), String>,
    index: usize,
    size: usize,
    written: u64,
    counted: Result<(), String>,
)
    requires
        call_ensures(check_gate, (case, expected, bytes), copied),
        call_ensures(check_output_bytes, (index, size, written), counted),
    ensures
        copied is Ok <==> bytes@ == words_image(expected@),
        counted is Ok <==> written == size,
{
}

} // verus!
