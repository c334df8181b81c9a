//! The FP8 accuracy run: its prompts, the token that a row of logits ranks first, and the verdict.
use crate::candidates::{rank_total, total_rank};
use crate::number::{f32_is_finite, is_finite_f32};
use crate::text::{bool_str, bool_text, parse_u32, texts, unsigned_number};
use vstd::prelude::*;
use vstd::string::StringExecFns;

verus! {

broadcast use vstd::string::group_string_axioms;

/// The prompts of the run.
pub open spec fn prompts() -> Seq<Seq<i32>> {
    seq![seq![9419i32], seq![1i32, 17, 257], seq![127i32, 128, 129, 255, 256, 257]]
}

/// The contents of a list of prompts.
pub open spec fn prompts_of(rows: Seq<Vec<i32>>) -> Seq<Seq<i32>> {
    Seq::new(rows.len(), |i: int| rows[i]@)
}

/// The prompts of the run.
pub fn case_prompts() -> (out: Vec<Vec<i32>>)
    ensures
        prompts_of(out@) == prompts(),
{
    let first: Vec<i32> = vec![9419];
    let second: Vec<i32> = vec![1, 17, 257];
    let third: Vec<i32> = vec![127, 128, 129, 255, 256, 257];
    assert(first@ =~= seq![9419i32]);
    assert(second@ =~= seq![1i32, 17, 257]);
    assert(third@ =~= seq![127i32, 128, 129, 255, 256, 257]);
    let mut out: Vec<Vec<i32>> = Vec::new();
    out.push(first);
    out.push(second);
    out.push(third);
    assert(prompts_of(out@) =~= prompts());
    out
}

/// Whether a row of logits has one that is infinite or NaN.
pub open spec fn has_non_finite(logits: Seq<u32>) -> bool {
    exists|i: int| 0 <= i < logits.len() && !f32_is_finite(#[trigger] logits[i])
}

/// Refuses a prompt without logits, or with one that is not finite.
#[verifier::loop_isolation(false)]
pub fn check_logits(logits: Option<&[u32]>) -> (out: Result<(), String>)
    ensures
        match logits {
            None => {
                &&& out is Err
                &&& out->Err_0@ == "full-model evidence did not publish logits"@
            },
            Some(values) => if has_non_finite(values@) {
                &&& out is Err
                &&& out->Err_0@ == "full-model evidence produced non-finite logits"@
            } else {
                out is Ok
            },
        },
{
    let values = match logits {
        None => {
            return Err("full-model evidence did not publish logits".to_owned());
        },
        Some(values) => values,
    };
    for i in 0..values.len()
        invariant
            forall|j: int| 0 <= j < i ==> f32_is_finite(#[trigger] values@[j]),
    {
        if !is_finite_f32(values[i]) {
            assert(!f32_is_finite(values@[i as int]));
            return Err("full-model evidence produced non-finite logits".to_owned());
        }
    }
    Ok(())
}

/// Whether a place holds the largest logit, and none after it one as large.
pub open spec fn is_last_largest(logits: Seq<u32>, place: int) -> bool {
    &&& 0 <= place < logits.len()
    &&& forall|i: int|
        0 <= i < logits.len() ==> total_rank(#[trigger] logits[i]) <= total_rank(logits[place])
    &&& forall|i: int|
        place < i < logits.len() ==> total_rank(#[trigger] logits[i]) < total_rank(logits[place])
}

/// The place of the largest logit, the last one among equals, and zero without logits.
pub fn top1(values: &[u32]) -> (out: usize)
    ensures
        if values@.len() == 0 {
            out == 0
        } else {
            is_last_largest(values@, out as int)
        },
{
    let mut best: usize = 0;
    for i in 0..values.len()
        invariant
            values@.len() > 0 ==> best < values@.len(),
            i > 0 ==> best < i,
            i == 0 ==> best == 0,
            forall|j: int|
                0 <= j < i ==> total_rank(#[trigger] values@[j]) <= total_rank(values@[best as int]),
            forall|j: int|
                best < j < i ==> total_rank(#[trigger] values@[j]) < total_rank(
                    values@[best as int],
                ),
    {
        if rank_total(values[i]) >= rank_total(values[best]) {
            best = i;
        }
    }
    best
}

/// A row has one place only that holds its last largest logit.
pub proof fn the_last_largest_is_one(logits: Seq<u32>, a: int, b: int)
    requires
        is_last_largest(logits, a),
        is_last_largest(logits, b),
    ensures
        a == b,
{
    if a < b {
        assert(total_rank(logits[b]) < total_rank(logits[a]));
        assert(total_rank(logits[a]) <= total_rank(logits[b]));
    } else if b < a {
        assert(total_rank(logits[a]) < total_rank(logits[b]));
        assert(total_rank(logits[b]) <= total_rank(logits[a]));
    }
}

/// Whether two lists of places agree everywhere.
pub open spec fn all_match(reference: Seq<usize>, candidate: Seq<usize>) -> bool {
    forall|i: int| 0 <= i < reference.len() ==> reference[i] == candidate[i]
}

/// The verdict of a run: every prompt must rank the same token first, and no divergence may be
/// over the bound. `divergence_over` says whether one is, and `max_kld` is the largest in words.
pub fn judge_accuracy(
    reference: &[usize],
    candidate: &[usize],
    divergence_over: bool,
    max_kld: &str,
) -> (out: Result<(), String>)
    requires
        reference@.len() == candidate@.len(),
    ensures
        if all_match(reference@, candidate@) && !divergence_over {
            out is Ok
        } else {
            &&& out is Err
            &&& out->Err_0@ == "full-model FP8 accuracy gate failed: all_top1="@ + bool_text(
                all_match(reference@, candidate@),
            ) + " max_kld="@ + max_kld@
        },
{
    let mut matches = true;
    for i in 0..reference.len()
        invariant
            reference@.len() == candidate@.len(),
            matches == forall|j: int| 0 <= j < i ==> reference@[j] == candidate@[j],
    {
        let same = reference[i] == candidate[i];
        assert(same == (reference@[i as int] == candidate@[i as int]));
        matches = matches && same;
    }
    if matches && !divergence_over {
        return Ok(());
    }
    let mut message = "full-model FP8 accuracy gate failed: all_top1=".to_owned();
    message.append(bool_str(matches));
    message.append(" max_kld=");
    message.append(max_kld);
    Err(message)
}

/// What a run was asked for.
#[derive(Debug)]
pub struct AccuracyConfig {
    pub lock: String,
    pub cache: String,
    pub manifest: String,
    pub artifact: String,
    pub device_index: u32,
    pub target: String,
}

/// Refuses a command line that has another number of arguments than the run takes.
pub fn check_usage(arguments: &Vec<String>) -> (out: Result<(), String>)
    ensures
        if arguments@.len() == 6 {
            out is Ok
        } else {
            &&& out is Err
            &&& out->Err_0@ == "usage: LOCK CACHE MANIFEST ARTIFACT DEVICE_INDEX TARGET"@
        },
{
    if arguments.len() == 6 {
        Ok(())
    } else {
        Err("usage: LOCK CACHE MANIFEST ARTIFACT DEVICE_INDEX TARGET".to_owned())
    }
}

/// Reads the command line of the run.
pub fn parse_accuracy_arguments(arguments: &Vec<String>) -> (out: Result<AccuracyConfig, String>)
    ensures
        ({
            let all = texts(arguments@);
            if all.len() != 6 {
                &&& out is Err
                &&& out->Err_0@ == "usage: LOCK CACHE MANIFEST ARTIFACT DEVICE_INDEX TARGET"@
            } else {
                match unsigned_number(all[4], u32::MAX as nat) {
                    None => out is Err && out->Err_0@ == "device index must be u32"@,
                    Some(device_index) => {
                        &&& out is Ok
                        &&& out->Ok_0.lock@ == all[0]
                        &&& out->Ok_0.cache@ == all[1]
                        &&& out->Ok_0.manifest@ == all[2]
                        &&& out->Ok_0.artifact@ == all[3]
                        &&& out->Ok_0.device_index == device_index
                        &&& out->Ok_0.target@ == all[5]
                    },
                }
            }
        }),
{
    match check_usage(arguments) {
        Ok(()) => {},
        Err(message) => {
            return Err(message);
        },
    }
    let ghost all = texts(arguments@);
    assert(forall|i: int| 0 <= i < 6 ==> all[i] == arguments@[i]@);
    let device_index: u32 = match parse_u32(arguments[4].as_str()) {
        Some(device_index) => device_index,
        None => {
            return Err("device index must be u32".to_owned());
        },
    };
    Ok(
        AccuracyConfig {
            lock: arguments[0].as_str().to_owned(),
            cache: arguments[1].as_str().to_owned(),
            manifest: arguments[2].as_str().to_owned(),
            artifact: arguments[3].as_str().to_owned(),
            device_index,
            target: arguments[5].as_str().to_owned(),
        },
    )
}

/// The token ranked first has the largest logit, and of equal ones it is the last.
pub proof fn the_last_of_the_largest_is_first(values: &[u32], place: usize, at: int)
    requires
        call_ensures(top1, (values,), place),
        0 <= at < values@.len(),
    ensures
        place < values@.len(),
        total_rank(values@[at]) <= total_rank(values@[place as int]),
        at > place ==> total_rank(values@[at]) < total_rank(values@[place as int]),
{
}

/// A run is accurate just where every prompt ranks the same token first and no divergence is over its
/// bound.
pub proof fn one_other_token_fails_the_run(
    reference: &[usize],
    candidate: &[usize],
    over: bool,
    max_kld: &str,
    out: Result<(), String>,
)
    requires
        reference@.len() == candidate@.len(),
        call_ensures(judge_accuracy, (reference, candidate, over, max_kld), out),
    ensures
        out is Ok <==> !over && reference@ == candidate@,
{
    if reference@ != candidate@ {
        assert(!(reference@ =~= candidate@));
    }
}

/// Logits are taken exactly where they were published and every one of them is finite.
pub proof fn only_finite_logits_are_taken(logits: Option<&[u32]>, out: Result<(), String>)
    requires
        call_ensures(check_logits, (logits,), out),
    ensures
        out is Ok <==> logits is Some && forall|i: int|
            0 <= i < logits->Some_0@.len() ==> (#[trigger] logits->Some_0@[i]) % 0x8000_0000
                < 0x7f80_0000,
{
    if let Some(values) = logits {
        assert forall|i: int| 0 <= i < values@.len() implies (f32_is_finite(#[trigger] values@[i])
            <==> values@[i] % 0x8000_0000 < 0x7f80_0000) by {
            let bits = values@[i];
            assert(bits / 0x80_0000 % 256 == bits % 0x8000_0000 / 0x80_0000);
        }
    }
}

/// A run takes six arguments, each in its place; the device is the fifth and a number.
pub proof fn arguments_stand_in_their_places(
    arguments: &Vec<String>,
    out: Result<AccuracyConfig, String>,
)
    requires
        call_ensures(parse_accuracy_arguments, (arguments,), out),
    ensures
        out is Ok <==> arguments@.len() == 6 && unsigned_number(arguments@[4]@, u32::MAX as nat) is Some,
        out matches Ok(config) ==> {
            &&& config.lock@ == arguments@[0]@
            &&& config.cache@ == arguments@[1]@
            &&& config.manifest@ == arguments@[2]@
            &&& config.artifact@ == arguments@[3]@
            &&& unsigned_number(arguments@[4]@, u32::MAX as nat) == Some(config.device_index as nat)
            &&& config.target@ == arguments@[5]@
        },
{
    let all = texts(arguments@);
    assert(all.len() == arguments@.len());
    assert(arguments@.len() == 6 ==> all[4] == arguments@[4]@);
}

} // verus!
