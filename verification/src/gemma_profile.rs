//! The profiles of the Gemma engine: their requests, and the statistics of their decodes.
use crate::audit::CleanupCounts;
use crate::bytes::{i32_image, i32_to_bytes};
use crate::digest::{digest, digest_of};
use crate::stats::{ascending, ascending_is_a_sorted_permutation, sorted_samples};
use vstd::prelude::*;

verus! {

broadcast use vstd::string::group_string_axioms;

/// The token that a profile's prompt is made of.
pub const PROFILE_INPUT_TOKEN: i32 = 2;

/// A profile: its name, the length of its prompt and the tokens that it generates.
#[derive(Clone, Copy, Debug)]
pub struct ProfileSpec {
    pub name: &'static str,
    pub prefill_tokens: usize,
    pub generated_tokens: usize,
}

/// A profile.
pub open spec fn profile_of(
    name: &'static str,
    prefill_tokens: usize,
    generated_tokens: usize,
) -> ProfileSpec {
    ProfileSpec { name, prefill_tokens, generated_tokens }
}

fn make_profile(name: &'static str, prefill_tokens: usize, generated_tokens: usize) -> (out:
    ProfileSpec)
    ensures
        out == profile_of(name, prefill_tokens, generated_tokens),
{
    ProfileSpec { name, prefill_tokens, generated_tokens }
}

/// The profiles of a run.
pub fn profiles() -> (out: Vec<ProfileSpec>)
    ensures
        out@ == seq![profile_of("short-odd-3-17", 3, 17), profile_of("bounded-32-32", 32, 32)],
{
    let mut list: Vec<ProfileSpec> = Vec::new();
    list.push(make_profile("short-odd-3-17", 3, 17));
    list.push(make_profile("bounded-32-32", 32, 32));
    assert(list@ =~= seq![profile_of("short-odd-3-17", 3, 17), profile_of("bounded-32-32", 32, 32)]);
    list
}

/// What a profile's request is made with.
#[derive(Debug)]
pub struct ProfileRequest {
    pub state_capacity: u64,
    pub input: Vec<i32>,
}

/// Plans the request of a profile.
pub fn profile_request(prefill_tokens: usize, generated_tokens: usize) -> (out: Result<
    ProfileRequest,
    String,
>)
    ensures
        if prefill_tokens + generated_tokens > usize::MAX {
            out is Err && out->Err_0@ == "profile capacity overflowed"@
        } else {
            &&& out is Ok
            &&& out->Ok_0.state_capacity == prefill_tokens + generated_tokens
            &&& out->Ok_0.input@ == Seq::new(prefill_tokens as nat, |i: int| PROFILE_INPUT_TOKEN)
        },
{
    match prefill_tokens.checked_add(generated_tokens) {
        None => Err("profile capacity overflowed".to_owned()),
        Some(count) => {
            let input: Vec<i32> = vec![PROFILE_INPUT_TOKEN; prefill_tokens];
            assert(input@ =~= Seq::new(prefill_tokens as nat, |i: int| PROFILE_INPUT_TOKEN));
            Ok(ProfileRequest { state_capacity: count as u64, input })
        },
    }
}

/// A time in nanoseconds, cut to what its field can hold.
pub fn elapsed_ns(nanoseconds: u128) -> (out: u64)
    ensures
        out == if nanoseconds <= u64::MAX {
            nanoseconds as int
        } else {
            u64::MAX as int
        },
{
    if nanoseconds <= u64::MAX as u128 {
        nanoseconds as u64
    } else {
        u64::MAX
    }
}

/// The sum of times.
pub open spec fn total(times: Seq<u64>) -> nat
    decreases times.len(),
{
    if times.len() == 0 {
        0
    } else {
        total(times.drop_last()) + times.last() as nat
    }
}

proof fn front_is_no_more(times: Seq<u64>, count: int)
    requires
        0 <= count <= times.len(),
    ensures
        total(times.take(count)) <= total(times),
    decreases times.len(),
{
    if count < times.len() {
        front_is_no_more(times.drop_last(), count);
        assert(times.drop_last().take(count) =~= times.take(count));
    } else {
        assert(times.take(count) =~= times);
    }
}

/// The statistics of a profile's decodes.
#[derive(Clone, Copy, Debug, PartialEq, Eq, Structural)]
pub struct DecodeStats {
    pub total_ns: u64,
    pub min_ns: u64,
    pub median_ns: u64,
    pub max_ns: u64,
}

impl DecodeStats {
    /// The statistics of a list of times: the lower one of two middles, and zeros without any.
    pub open spec fn summarize(self, times: Seq<u64>) -> bool {
        let sorted = ascending(times);
        let last = times.len() - 1;
        &&& self.total_ns == total(times)
        &&& self.min_ns == if times.len() == 0 {
            0
        } else {
            sorted[0]
        }
        &&& self.median_ns == if times.len() == 0 {
            0
        } else {
            sorted[last / 2]
        }
        &&& self.max_ns == if times.len() == 0 {
            0
        } else {
            sorted[last]
        }
    }
}

/// The statistics of a profile's decodes.
pub fn decode_stats(times: &[u64]) -> (out: Result<DecodeStats, String>)
    ensures
        if total(times@) > u64::MAX {
            out is Err && out->Err_0@ == "decode timing overflowed"@
        } else {
            out is Ok && out->Ok_0.summarize(times@)
        },
{
    let mut sum: u64 = 0;
    for i in 0..times.len()
        invariant
            sum == total(times@.take(i as int)),
    {
        assert(times@.take(i + 1).drop_last() =~= times@.take(i as int));
        proof {
            front_is_no_more(times@, i + 1);
        }
        match sum.checked_add(times[i]) {
            Some(next) => {
                sum = next;
            },
            None => {
                return Err("decode timing overflowed".to_owned());
            },
        }
    }
    assert(times@.take(times.len() as int) =~= times@);
    if times.len() == 0 {
        return Ok(DecodeStats { total_ns: sum, min_ns: 0, median_ns: 0, max_ns: 0 });
    }
    let sorted = sorted_samples(times);
    let last: usize = sorted.len() - 1;
    Ok(
        DecodeStats {
            total_ns: sum,
            min_ns: sorted[0],
            median_ns: sorted[last / 2],
            max_ns: sorted[last],
        },
    )
}

/// The digest of the tokens that a profile generated.
pub fn token_digest(tokens: &[i32]) -> (out: String)
    ensures
        out@ == digest_of(i32_image(tokens@)),
{
    let image = i32_to_bytes(tokens);
    digest(image.as_slice())
}

/// Refuses a profile that used a fallback.
pub fn check_profile_audit(fallback_used: bool) -> (out: Result<(), String>)
    ensures
        if fallback_used {
            out is Err && out->Err_0@ == "profile used an execution fallback"@
        } else {
            out is Ok
        },
{
    if fallback_used {
        Err("profile used an execution fallback".to_owned())
    } else {
        Ok(())
    }
}

/// Refuses a profile whose request left memory behind.
pub fn check_profile_cleanup(request_state_bytes: u64, workspace_bytes: u64) -> (out: Result<
    (),
    String,
>)
    ensures
        if request_state_bytes != 0 || workspace_bytes != 0 {
            out is Err && out->Err_0@ == "profile request cleanup retained dynamic memory"@
        } else {
            out is Ok
        },
{
    if request_state_bytes != 0 || workspace_bytes != 0 {
        Err("profile request cleanup retained dynamic memory".to_owned())
    } else {
        Ok(())
    }
}

/// Refuses a run that left anything behind.
pub fn check_run_cleanup(final_current_bytes: u64, cleanup: &CleanupCounts) -> (out: Result<
    (),
    String,
>)
    ensures
        if final_current_bytes != 0 || !cleanup.is_zero() {
            out is Err && out->Err_0@ == "profile cleanup retained runtime resources"@
        } else {
            out is Ok
        },
{
    if final_current_bytes != 0 || !cleanup.terminal_zero() {
        Err("profile cleanup retained runtime resources".to_owned())
    } else {
        Ok(())
    }
}

/// The least time of a list is one of its times and no greater than any, the greatest likewise, and
/// the middle one stands half way up, the lower of two. The total is their sum.
pub proof fn statistics_frame_the_times(times: &[u64], stats: DecodeStats, at: int)
    requires
        call_ensures(decode_stats, (times,), Ok(stats)),
        0 <= at < times@.len(),
    ensures
        stats.min_ns <= times@[at] <= stats.max_ns,
        times@.contains(stats.min_ns) && times@.contains(stats.max_ns) && times@.contains(
            stats.median_ns,
        ),
        stats.min_ns <= stats.median_ns <= stats.max_ns,
        times@[at] <= stats.total_ns,
        times@.len() == 1 ==> stats.total_ns == times@[0],
        times@.len() == 2 ==> stats.total_ns == times@[0] + times@[1] && stats.median_ns
            == stats.min_ns,
{
    broadcast use vstd::seq_lib::group_to_multiset_ensures;

    let sorted = ascending(times@);
    ascending_is_a_sorted_permutation(times@);
    let last = times@.len() - 1;
    assert(sorted.to_multiset().contains(sorted[0]));
    assert(sorted.to_multiset().contains(sorted[last / 2]));
    assert(sorted.to_multiset().contains(sorted[last]));
    assert(times@.to_multiset().contains(times@[at]));
    assert(sorted.contains(times@[at]));
    let place = choose|i: int| 0 <= i < sorted.len() && sorted[i] == times@[at];
    assert(sorted[0] <= sorted[place] && sorted[place] <= sorted[last]);
    assert(sorted[0] <= sorted[last / 2] && sorted[last / 2] <= sorted[last]);
    each_is_in_the_total(times@, at);
    reveal_with_fuel(total, 3);
}

proof fn each_is_in_the_total(times: Seq<u64>, at: int)
    requires
        0 <= at < times.len(),
    ensures
        times[at] <= total(times),
    decreases times.len(),
{
    if at < times.len() - 1 {
        each_is_in_the_total(times.drop_last(), at);
    }
}

/// Times after one another add up: a list and one more time take the list's total and that time.
pub proof fn totals_grow_by_each_time(times: Seq<u64>, time: u64)
    ensures
        total(times.push(time)) == total(times) + time,
        total(Seq::<u64>::empty()) == 0,
{
    assert(times.push(time).drop_last() =~= times);
}

/// A profile's request holds its prompt and what it generates; the prompt is the same token over and
/// over.
pub proof fn requests_hold_prompt_and_output(
    prefill_tokens: usize,
    generated_tokens: usize,
    request: ProfileRequest,
    at: int,
)
    requires
        call_ensures(profile_request, (prefill_tokens, generated_tokens), Ok(request)),
    ensures
        request.state_capacity == prefill_tokens + generated_tokens,
        request.input@.len() == prefill_tokens,
        0 <= at < prefill_tokens ==> request.input@[at] == 2,
{
}

} // verus!
