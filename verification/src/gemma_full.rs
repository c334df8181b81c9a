//! The full Gemma generation: what each transition must report, and what the run adds up.
use crate::audit::CleanupCounts;
use crate::bytes::same_items;
use crate::text::{
    append_decimal, decimal, joined, joined3, same_text, signed_bracketed, signed_bracketed_string,
};
use vstd::prelude::*;
use vstd::string::StringExecFns;

verus! {

broadcast use vstd::string::group_string_axioms;

/// The transitions of a generation.
pub const TRANSITIONS: usize = 8;

/// The token that the reference generates in every transition.
pub const REFERENCE_TOKEN: i32 = 258_882;

/// The state capacity of a generation.
pub const STATE_CAPACITY: u64 = 17;

/// The tokens that the reference generates.
pub open spec fn reference_tokens() -> Seq<i32> {
    Seq::new(TRANSITIONS as nat, |i: int| REFERENCE_TOKEN)
}

/// The message about memory that does not suffice.
pub open spec fn memory_message(prefix: Seq<char>, required: nat, available: nat) -> Seq<char> {
    prefix + " exact layout requires "@ + decimal(required) + " bytes but only "@ + decimal(
        available,
    ) + " are available"@
}

/// The memory that a layout takes. It is refused where it does not fit what is known to be
/// available; `prefix` names the model in messages.
pub fn required_memory(
    model_weight_bytes: u64,
    workspace_bytes: u64,
    request_state_bytes: u64,
    available: Option<u64>,
    prefix: &str,
) -> (out: Result<u64, String>)
    ensures
        ({
            let required = model_weight_bytes + workspace_bytes + request_state_bytes;
            if required > u64::MAX {
                out is Err && out->Err_0@ == prefix@ + " required memory overflowed"@
            } else if available is Some && required > available->Some_0 {
                out is Err && out->Err_0@ == memory_message(
                    prefix@,
                    required as nat,
                    available->Some_0 as nat,
                )
            } else {
                out is Ok && out->Ok_0 == required
            }
        }),
{
    let required: u64 = match model_weight_bytes.checked_add(workspace_bytes) {
        None => {
            return Err(joined(prefix, " required memory overflowed"));
        },
        Some(bytes) => match bytes.checked_add(request_state_bytes) {
            None => {
                return Err(joined(prefix, " required memory overflowed"));
            },
            Some(bytes) => bytes,
        },
    };
    match available {
        Some(bytes) => {
            if required > bytes {
                let mut message = joined(prefix, " exact layout requires ");
                append_decimal(&mut message, required);
                message.append(" bytes but only ");
                append_decimal(&mut message, bytes);
                message.append(" are available");
                return Err(message);
            }
        },
        None => {},
    }
    Ok(required)
}

/// The work that transitions did.
#[derive(Clone, Copy, Debug, PartialEq, Eq, Structural)]
pub struct WorkCounts {
    pub submission_count: u64,
    pub kernel_dispatch_count: u64,
    pub segment_count: u64,
    pub boundary_count: u64,
}

/// What a transition reported.
#[derive(Debug)]
pub struct Transition {
    pub token: Option<i32>,
    pub fallback_used: bool,
    pub backend: u32,
    pub target: String,
    pub poisoned: bool,
    pub committed_length: u64,
    pub state_generation: u64,
    pub work: WorkCounts,
}

impl Transition {
    /// Whether the transition ran on the HIP backend of the target and committed the position.
    pub open spec fn is_exact(self, target: Seq<char>, committed_length: int) -> bool {
        &&& !self.fallback_used
        &&& self.backend == 1
        &&& self.target@ == target
        &&& !self.poisoned
        &&& self.committed_length == committed_length
    }

    fn exact(&self, target: &str, committed_length: u64) -> (out: bool)
        ensures
            out == self.is_exact(target@, committed_length as int),
    {
        !self.fallback_used && self.backend == 1 && same_text(self.target.as_str(), target)
            && !self.poisoned && self.committed_length == committed_length
    }
}

/// A generation so far.
#[derive(Debug)]
pub struct GenerationRun {
    pub target: String,
    pub tokens: Vec<i32>,
    pub work: WorkCounts,
}

/// What the next transition runs on.
#[derive(Clone, Copy, Debug, PartialEq, Eq, Structural)]
pub struct NextTransition {
    pub token: i32,
    pub start_position: u64,
    pub binding_generation: u64,
}

/// The message that refuses a first transition, if there is one.
pub open spec fn prefill_refusal(prefill: Transition, target: Seq<char>) -> Option<Seq<char>> {
    if !prefill.is_exact(target, 1) {
        Some("Gemma full prefill audit is not exact/no-fallback"@)
    } else if prefill.token is None {
        Some("Gemma prefill returned no token"@)
    } else {
        None
    }
}

/// The message that refuses the transition at a position, if there is one.
pub open spec fn decode_refusal(
    decode: Transition,
    target: Seq<char>,
    position: int,
    work: WorkCounts,
) -> Option<Seq<char>> {
    if !decode.is_exact(target, position + 1) || decode.state_generation != position + 1 {
        if position == 1 {
            Some("Gemma full decode audit is not exact/no-fallback"@)
        } else {
            Some("Gemma repeated decode audit is not exact/no-fallback"@)
        }
    } else if decode.token is None {
        if position == 1 {
            Some("Gemma decode returned no token"@)
        } else {
            Some("Gemma repeated decode returned no token"@)
        }
    } else if work.submission_count + decode.work.submission_count > u64::MAX {
        Some("submission count overflowed"@)
    } else if work.kernel_dispatch_count + decode.work.kernel_dispatch_count > u64::MAX {
        Some("kernel dispatch count overflowed"@)
    } else if work.segment_count + decode.work.segment_count > u64::MAX {
        Some("segment count overflowed"@)
    } else if work.boundary_count + decode.work.boundary_count > u64::MAX {
        Some("boundary count overflowed"@)
    } else {
        None
    }
}

/// Two amounts of work together.
pub open spec fn is_sum(sum: WorkCounts, a: WorkCounts, b: WorkCounts) -> bool {
    &&& sum.submission_count == a.submission_count + b.submission_count
    &&& sum.kernel_dispatch_count == a.kernel_dispatch_count + b.kernel_dispatch_count
    &&& sum.segment_count == a.segment_count + b.segment_count
    &&& sum.boundary_count == a.boundary_count + b.boundary_count
}

impl GenerationRun {
    /// A run has made one transition at least and no more than it makes.
    pub open spec fn wf(self) -> bool {
        1 <= self.tokens@.len() <= TRANSITIONS
    }

    /// Begins a run with its first transition.
    pub fn start(target: &str, prefill: &Transition) -> (out: Result<GenerationRun, String>)
        ensures
            match prefill_refusal(*prefill, target@) {
                Some(message) => out is Err && out->Err_0@ == message,
                None => {
                    &&& out is Ok
                    &&& out->Ok_0.wf()
                    &&& out->Ok_0.target@ == target@
                    &&& out->Ok_0.tokens@ == seq![prefill.token->Some_0]
                    &&& out->Ok_0.work == prefill.work
                },
            },
    {
        if !prefill.exact(target, 1) {
            return Err("Gemma full prefill audit is not exact/no-fallback".to_owned());
        }
        let token: i32 = match prefill.token {
            Some(token) => token,
            None => {
                return Err("Gemma prefill returned no token".to_owned());
            },
        };
        let mut tokens: Vec<i32> = Vec::new();
        tokens.push(token);
        assert(tokens@ =~= seq![token]);
        Ok(GenerationRun { target: target.to_owned(), tokens, work: prefill.work })
    }

    /// What the next transition runs on, until all have been made.
    pub fn next(&self) -> (out: Option<NextTransition>)
        requires
            self.wf(),
        ensures
            match out {
                Some(next) => {
                    &&& self.tokens@.len() < TRANSITIONS
                    &&& next.token == self.tokens@.last()
                    &&& next.start_position == self.tokens@.len()
                    &&& next.binding_generation == self.tokens@.len() + 1
                },
                None => self.tokens@.len() == TRANSITIONS,
            },
    {
        let made: usize = self.tokens.len();
        if made < TRANSITIONS {
            Some(
                NextTransition {
                    token: self.tokens[made - 1],
                    start_position: made as u64,
                    binding_generation: made as u64 + 1,
                },
            )
        } else {
            None
        }
    }

    /// Records the next transition. A refused one leaves the run as it was.
    pub fn record(&mut self, decode: &Transition) -> (out: Result<(), String>)
        requires
            old(self).wf(),
            old(self).tokens@.len() < TRANSITIONS,
        ensures
            final(self).wf(),
            final(self).target@ == old(self).target@,
            match decode_refusal(
                *decode,
                old(self).target@,
                old(self).tokens@.len() as int,
                old(self).work,
            ) {
                Some(message) => {
                    &&& out is Err
                    &&& out->Err_0@ == message
                    &&& final(self).tokens@ == old(self).tokens@
                    &&& final(self).work == old(self).work
                },
                None => {
                    &&& out is Ok
                    &&& final(self).tokens@ == old(self).tokens@.push(decode.token->Some_0)
                    &&& is_sum(final(self).work, old(self).work, decode.work)
                },
            },
    {
        let position: u64 = self.tokens.len() as u64;
        let first = position == 1;
        if !decode.exact(self.target.as_str(), position + 1) || decode.state_generation != position
            + 1 {
            return Err(
                if first {
                    "Gemma full decode audit is not exact/no-fallback".to_owned()
                } else {
                    "Gemma repeated decode audit is not exact/no-fallback".to_owned()
                },
            );
        }
        let token: i32 = match decode.token {
            Some(token) => token,
            None => {
                return Err(
                    if first {
                        "Gemma decode returned no token".to_owned()
                    } else {
                        "Gemma repeated decode returned no token".to_owned()
                    },
                );
            },
        };
        let submission_count: u64 = match self.work.submission_count.checked_add(
            decode.work.submission_count,
        ) {
            Some(count) => count,
            None => {
                return Err("submission count overflowed".to_owned());
            },
        };
        let kernel_dispatch_count: u64 = match self.work.kernel_dispatch_count.checked_add(
            decode.work.kernel_dispatch_count,
        ) {
            Some(count) => count,
            None => {
                return Err("kernel dispatch count overflowed".to_owned());
            },
        };
        let segment_count: u64 = match self.work.segment_count.checked_add(
            decode.work.segment_count,
        ) {
            Some(count) => count,
            None => {
                return Err("segment count overflowed".to_owned());
            },
        };
        let boundary_count: u64 = match self.work.boundary_count.checked_add(
            decode.work.boundary_count,
        ) {
            Some(count) => count,
            None => {
                return Err("boundary count overflowed".to_owned());
            },
        };
        self.tokens.push(token);
        self.work = WorkCounts {
            submission_count,
            kernel_dispatch_count,
            segment_count,
            boundary_count,
        };
        Ok(())
    }

    /// Ends a run: its tokens must be those of the reference.
    pub fn finish(&self) -> (out: Result<(), String>)
        ensures
            if self.tokens@ == reference_tokens() {
                out is Ok
            } else {
                out is Err && out->Err_0@
                    == "Gemma generated tokens differ from the independent CPU reference: "@
                    + signed_bracketed(self.tokens@)
            },
    {
        let reference: Vec<i32> = vec![REFERENCE_TOKEN; TRANSITIONS];
        assert(reference@ =~= reference_tokens());
        if same_items(self.tokens.as_slice(), reference.as_slice()) {
            Ok(())
        } else {
            let tokens = signed_bracketed_string(self.tokens.as_slice());
            Err(
                joined(
                    "Gemma generated tokens differ from the independent CPU reference: ",
                    tokens.as_str(),
                ),
            )
        }
    }
}

/// The work of transitions from the first on.
pub open spec fn total_work(transitions: Seq<Transition>) -> (int, int, int, int)
    decreases transitions.len(),
{
    if transitions.len() == 0 {
        (0, 0, 0, 0)
    } else {
        let front = total_work(transitions.drop_last());
        let last = transitions.last().work;
        (
            front.0 + last.submission_count,
            front.1 + last.kernel_dispatch_count,
            front.2 + last.segment_count,
            front.3 + last.boundary_count,
        )
    }
}

/// Whether a run is what a list of transitions leads to.
pub open spec fn accounts_for(run: GenerationRun, transitions: Seq<Transition>) -> bool {
    let total = total_work(transitions);
    &&& run.tokens@.len() == transitions.len()
    &&& forall|i: int|
        0 <= i < transitions.len() ==> (#[trigger] transitions[i]).token == Some(run.tokens@[i])
            && transitions[i].is_exact(run.target@, i + 1)
    &&& run.work.submission_count == total.0
    &&& run.work.kernel_dispatch_count == total.1
    &&& run.work.segment_count == total.2
    &&& run.work.boundary_count == total.3
}

/// A run that accounts for its transitions still does after it recorded one more: every transition
/// stayed on the HIP backend of the target and committed its own position, and the counts are sums
/// over all of them.
pub proof fn recording_keeps_the_account(
    before: GenerationRun,
    after: GenerationRun,
    transitions: Seq<Transition>,
    decode: Transition,
)
    requires
        before.wf(),
        accounts_for(before, transitions),
        decode_refusal(decode, before.target@, before.tokens@.len() as int, before.work) is None,
        after.target@ == before.target@,
        after.tokens@ == before.tokens@.push(decode.token->Some_0),
        is_sum(after.work, before.work, decode.work),
    ensures
        accounts_for(after, transitions.push(decode)),
{
    let all = transitions.push(decode);
    assert(all.drop_last() =~= transitions);
    assert forall|i: int| 0 <= i < all.len() implies (#[trigger] all[i]).token == Some(
        after.tokens@[i],
    ) && all[i].is_exact(after.target@, i + 1) by {
        if i < transitions.len() {
            assert(all[i] == transitions[i]);
        }
    }
}

/// A run begins with an account of its first transition.
pub proof fn a_run_accounts_for_its_start(run: GenerationRun, prefill: Transition)
    requires
        prefill_refusal(prefill, run.target@) is None,
        run.tokens@ == seq![prefill.token->Some_0],
        run.work == prefill.work,
    ensures
        accounts_for(run, seq![prefill]),
{
    assert(seq![prefill].drop_last() =~= Seq::<Transition>::empty());
    assert(total_work(Seq::<Transition>::empty()) == (0int, 0int, 0int, 0int));
}

/// A generation that takes any token: what it has generated, and how much it is to generate.
#[derive(Debug)]
pub struct TokenRun {
    pub name: &'static str,
    pub wanted: usize,
    pub tokens: Vec<i32>,
}

/// The message on a step of a generation that gave no token.
pub open spec fn no_token_message(name: Seq<char>, stage: Seq<char>) -> Seq<char> {
    name + stage + " returned no token"@
}

impl TokenRun {
    /// A generation holds the token of its prefill, and no more tokens than wanted after it.
    pub open spec fn wf(self) -> bool {
        &&& self.tokens@.len() >= 1
        &&& self.tokens@.len() == 1 || self.tokens@.len() <= self.wanted
    }

    /// Starts a generation on the token of its prefill. A generation has that token even where
    /// none is wanted.
    pub fn start(name: &'static str, wanted: usize, prefill: Option<i32>) -> (out: Result<
        TokenRun,
        String,
    >)
        ensures
            match prefill {
                Some(token) => {
                    &&& out is Ok
                    &&& out->Ok_0.wf()
                    &&& out->Ok_0.name == name
                    &&& out->Ok_0.wanted == wanted
                    &&& out->Ok_0.tokens@ == seq![token]
                },
                None => out is Err && out->Err_0@ == no_token_message(name@, " prefill"@),
            },
    {
        match prefill {
            Some(token) => {
                let mut tokens: Vec<i32> = Vec::new();
                tokens.push(token);
                let run = TokenRun { name, wanted, tokens };
                assert(run.tokens@ =~= seq![token]);
                Ok(run)
            },
            None => Err(joined3(name, " prefill", " returned no token")),
        }
    }

    /// The token to decode next, the one generated last; none is left once all are generated.
    pub fn next(&self) -> (out: Option<i32>)
        requires
            self.wf(),
        ensures
            out == if self.tokens@.len() < self.wanted {
                Some(self.tokens@.last())
            } else {
                None
            },
    {
        if self.tokens.len() < self.wanted {
            Some(self.tokens[self.tokens.len() - 1])
        } else {
            None
        }
    }

    /// Takes what a decode gave; a decode without a token changes nothing.
    pub fn record(&mut self, decoded: Option<i32>) -> (out: Result<(), String>)
        requires
            old(self).wf(),
            old(self).tokens@.len() < old(self).wanted,
        ensures
            final(self).wf(),
            final(self).name == old(self).name,
            final(self).wanted == old(self).wanted,
            match decoded {
                Some(token) => out is Ok && final(self).tokens@ == old(self).tokens@.push(token),
                None => {
                    &&& out is Err
                    &&& out->Err_0@ == no_token_message(old(self).name@, " decode"@)
                    &&& final(self).tokens@ == old(self).tokens@
                },
            },
    {
        match decoded {
            Some(token) => {
                self.tokens.push(token);
                Ok(())
            },
            None => Err(joined3(self.name, " decode", " returned no token")),
        }
    }
}

/// A generation that has nothing left to decode holds as many tokens as were wanted, and its
/// prefill's token where none was.
pub proof fn an_ended_generation_is_whole(run: TokenRun)
    requires
        run.wf(),
        run.tokens@.len() >= run.wanted,
    ensures
        run.tokens@.len() == if run.wanted == 0 {
            1
        } else {
            run.wanted as nat
        },
{
}

/// Refuses a quantized generation that left the HIP backend of its target.
pub fn check_quantized_audit(fallback_used: bool, audit_target: &str, target: &str) -> (out: Result<
    (),
    String,
>)
    ensures
        if fallback_used || audit_target@ != target@ {
            out is Err && out->Err_0@ == "quantized Gemma execution was not exact HIP/no-fallback"@
        } else {
            out is Ok
        },
{
    if fallback_used || !same_text(audit_target, target) {
        Err("quantized Gemma execution was not exact HIP/no-fallback".to_owned())
    } else {
        Ok(())
    }
}

/// Refuses a session that did not release everything.
pub fn check_session_cleanup(cleanup: &CleanupCounts) -> (out: Result<(), String>)
    ensures
        if cleanup.is_zero() {
            out is Ok
        } else {
            out is Err && out->Err_0@ == "session cleanup retained resources"@
        },
{
    if cleanup.terminal_zero() {
        Ok(())
    } else {
        Err("session cleanup retained resources".to_owned())
    }
}

/// A generation makes eight transitions. Each runs on the token that the one before gave, at the
/// position behind it, and is bound to the generation that it brings the state to.
pub proof fn transitions_follow_one_another(
    run: &mut GenerationRun,
    next: Option<NextTransition>,
    decode: &Transition,
    out: Result<(), String>,
    after: Option<NextTransition>,
)
    requires
        old(run).wf(),
        old(run).tokens@.len() < 8,
        call_ensures(GenerationRun::next, (old(run),), next),
        call_ensures(GenerationRun::record, (run, decode), out),
        call_ensures(GenerationRun::next, (final(run),), after),
    ensures
        next is Some,
        next->Some_0.token == old(run).tokens@.last(),
        next->Some_0.binding_generation == next->Some_0.start_position + 1,
        out is Ok ==> {
            &&& decode.committed_length == next->Some_0.start_position + 1
            &&& decode.state_generation == next->Some_0.binding_generation
            &&& !decode.fallback_used && !decode.poisoned && decode.backend == 1
            &&& decode.target@ == old(run).target@
            &&& decode.token == Some(final(run).tokens@.last())
            &&& final(run).tokens@.drop_last() == old(run).tokens@
            &&& final(run).work.submission_count - old(run).work.submission_count
                == decode.work.submission_count
            &&& final(run).work.kernel_dispatch_count - old(run).work.kernel_dispatch_count
                == decode.work.kernel_dispatch_count
            &&& final(run).work.segment_count - old(run).work.segment_count
                == decode.work.segment_count
            &&& final(run).work.boundary_count - old(run).work.boundary_count
                == decode.work.boundary_count
            &&& after is Some ==> after->Some_0.token == decode.token->Some_0
                && after->Some_0.start_position == next->Some_0.start_position + 1
            &&& after is None <==> final(run).tokens@.len() == 8
        },
        out is Err ==> final(run).tokens@ == old(run).tokens@ && final(run).work == old(run).work,
{
    if out is Ok {
        assert(final(run).tokens@.drop_last() =~= old(run).tokens@);
    }
}

/// A transition is refused only where it left the HIP backend of its target, is not at its position or
/// generation, gave no token, or a count would overflow.
pub proof fn exact_transitions_are_recorded(
    run: &mut GenerationRun,
    decode: &Transition,
    out: Result<(), String>,
)
    requires
        old(run).wf(),
        old(run).tokens@.len() < 8,
        call_ensures(GenerationRun::record, (run, decode), out),
        !decode.fallback_used && !decode.poisoned && decode.backend == 1,
        decode.target@ == old(run).target@,
        decode.committed_length == old(run).tokens@.len() + 1,
        decode.state_generation == old(run).tokens@.len() + 1,
        decode.token is Some,
        old(run).work.submission_count + decode.work.submission_count <= u64::MAX,
        old(run).work.kernel_dispatch_count + decode.work.kernel_dispatch_count <= u64::MAX,
        old(run).work.segment_count + decode.work.segment_count <= u64::MAX,
        old(run).work.boundary_count + decode.work.boundary_count <= u64::MAX,
    ensures
        out is Ok,
{
}

/// A generation begins with a prefill at the first position, and ends well just where all eight tokens
/// are the one of the reference.
pub proof fn generations_end_with_the_reference(
    target: &str,
    prefill: &Transition,
    started: Result<GenerationRun, String>,
    run: &GenerationRun,
    ended: Result<(), String>,
)
    requires
        call_ensures(GenerationRun::start, (target, prefill), started),
        call_ensures(GenerationRun::finish, (run,), ended),
    ensures
        started is Ok <==> {
            &&& !prefill.fallback_used && !prefill.poisoned && prefill.backend == 1
            &&& prefill.target@ == target@
            &&& prefill.committed_length == 1
            &&& prefill.token is Some
        },
        started matches Ok(begun) ==> begun.tokens@.len() == 1 && prefill.token == Some(
            begun.tokens@[0],
        ) && begun.work == prefill.work && begun.target@ == target@,
        ended is Ok <==> run.tokens@.len() == 8 && forall|i: int|
            0 <= i < 8 ==> #[trigger] run.tokens@[i] == 258_882,
{
    if started is Ok {
        assert(started->Ok_0.tokens@[0] == prefill.token->Some_0);
    }
    if run.tokens@.len() == 8 && forall|i: int| 0 <= i < 8 ==> #[trigger] run.tokens@[i] == 258_882 {
        assert(run.tokens@ =~= reference_tokens());
    }
}

/// A layout is accepted just where its three parts together fit a count and what is known to be
/// available.
pub proof fn layouts_must_fit_as_a_whole(
    weights: u64,
    workspace: u64,
    state: u64,
    available: Option<u64>,
    prefix: &str,
    out: Result<u64, String>,
)
    requires
        call_ensures(required_memory, (weights, workspace, state, available, prefix), out),
    ensures
        out is Ok <==> weights + workspace + state <= u64::MAX && (available matches Some(bytes)
            ==> weights + workspace + state <= bytes),
        out matches Ok(required) ==> required == weights + workspace + state,
{
}

/// A generation decodes its last token until it holds as many as wanted, and takes what each decode
/// gives.
pub proof fn the_last_token_is_decoded_next(
    run: &mut TokenRun,
    next: Option<i32>,
    decoded: Option<i32>,
    out: Result<(), String>,
    after: Option<i32>,
)
    requires
        old(run).wf(),
        old(run).tokens@.len() < old(run).wanted,
        call_ensures(TokenRun::next, (old(run),), next),
        call_ensures(TokenRun::record, (run, decoded), out),
        call_ensures(TokenRun::next, (final(run),), after),
    ensures
        next == Some(old(run).tokens@.last()),
        out is Ok <==> decoded is Some,
        out is Ok ==> final(run).tokens@.len() == old(run).tokens@.len() + 1 && decoded == Some(
            final(run).tokens@.last(),
        ),
        out is Ok && final(run).tokens@.len() < old(run).wanted ==> after == decoded,
        out is Ok && final(run).tokens@.len() == old(run).wanted ==> after is None,
{
}

} // verus!
