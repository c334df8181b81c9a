//! One entry of a catch-up run: how the draft state is primed and realigned, what every device
//! reply must look like, and the ledger that the entry's report is made of.
use crate::audit::{audit_is_valid, AuditReport};
use crate::bytes::push_words;
use crate::catch_up::{
    bf16_rows_to_f32, is_best, is_ranked, row_of, top_summary, widened_row, CatchUpMode,
    ForcedBlockDecision, WIDTH,
};
use crate::number::{f32_is_finite, f32_rank, widened};
use crate::text::{decimal, decimal_string, joined, joined3};
use vstd::prelude::*;
use vstd::slice::{slice_subrange, slice_to_vec};
use vstd::string::StringExecFns;

verus! {

broadcast use vstd::string::group_string_axioms;

/// Tokens and hidden rows that one state-only batch feeds to a request.
#[derive(Debug)]
pub struct StateBatch {
    pub tokens: Vec<i32>,
    pub hidden: Vec<u16>,
}

/// The contents of a state-only batch.
pub struct StateBatchView {
    pub tokens: Seq<i32>,
    pub hidden: Seq<u16>,
}

impl View for StateBatch {
    type V = StateBatchView;

    open spec fn view(&self) -> StateBatchView {
        StateBatchView { tokens: self.tokens@, hidden: self.hidden@ }
    }
}

/// The contents of a list of batches.
pub open spec fn batch_views(batches: Seq<StateBatch>) -> Seq<StateBatchView> {
    Seq::new(batches.len(), |i: int| batches[i]@)
}

/// The tokens of a list of batches, in order.
pub open spec fn batch_tokens(batches: Seq<StateBatchView>) -> Seq<i32>
    decreases batches.len(),
{
    if batches.len() == 0 {
        Seq::empty()
    } else {
        batches[0].tokens + batch_tokens(batches.drop_first())
    }
}

/// The hidden rows of a list of batches, in order.
pub open spec fn batch_hidden(batches: Seq<StateBatchView>) -> Seq<u16>
    decreases batches.len(),
{
    if batches.len() == 0 {
        Seq::empty()
    } else {
        batches[0].hidden + batch_hidden(batches.drop_first())
    }
}

/// What priming the draft request takes: one prefill of the first prompt token on a zero row,
/// then the rest of the prompt in batches, each token on the target's hidden row before it.
#[derive(Debug)]
pub struct Primed {
    pub hidden_width: usize,
    pub first_token: i32,
    pub first_hidden: Vec<u16>,
    pub batches: Vec<StateBatch>,
    pub last_target_hidden: Vec<u16>,
}

/// The contents of an optional slice.
pub open spec fn view_opt<T>(slice: Option<&[T]>) -> Option<Seq<T>> {
    match slice {
        Some(s) => Some(s@),
        None => None,
    }
}

/// The message that refuses to prime, if there is one.
pub open spec fn prime_refusal(
    prompt: Seq<i32>,
    hidden: Option<Seq<u16>>,
    chunk_capacity: u64,
) -> Option<Seq<char>> {
    if prompt.len() == 0 {
        Some("Phase86 prompt is empty"@)
    } else {
        match hidden {
            None => Some("Phase86 target prompt omitted hidden rows"@),
            Some(rows) => if rows.len() / prompt.len() == 0 {
                Some("Phase86 target hidden width is invalid"@)
            } else if rows.len() % prompt.len() != 0 {
                Some("Phase86 target prompt hidden rows are invalid"@)
            } else if chunk_capacity > usize::MAX {
                Some("Phase86 draft capacity overflowed"@)
            } else {
                None
            },
        }
    }
}

/// The batches that carry the prompt from row `index` on, at most `capacity` tokens each.
pub open spec fn prime_batches(
    prompt: Seq<i32>,
    hidden: Seq<u16>,
    width: int,
    capacity: int,
    index: int,
) -> Seq<StateBatchView>
    decreases prompt.len() - index,
{
    if index >= prompt.len() || index < 1 || capacity < 1 {
        Seq::empty()
    } else {
        let end = if index + capacity < prompt.len() {
            index + capacity
        } else {
            prompt.len() as int
        };
        seq![
            StateBatchView {
                tokens: prompt.subrange(index, end),
                hidden: hidden.subrange((index - 1) * width, (end - 1) * width),
            },
        ] + prime_batches(prompt, hidden, width, capacity, end)
    }
}

/// A capacity of zero counts as one.
pub open spec fn batch_capacity(chunk_capacity: u64) -> int {
    if chunk_capacity == 0 {
        1
    } else {
        chunk_capacity as int
    }
}

impl Primed {
    /// The plan for a prompt and the target's hidden rows over it.
    pub open spec fn primes(self, prompt: Seq<i32>, hidden: Seq<u16>, chunk_capacity: u64) -> bool {
        let width = (hidden.len() / prompt.len()) as int;
        &&& self.hidden_width == width
        &&& width > 0
        &&& hidden.len() == prompt.len() * width
        &&& self.first_token == prompt[0]
        &&& self.first_hidden@ == Seq::new(width as nat, |i: int| 0u16)
        &&& batch_views(self.batches@) == prime_batches(
            prompt,
            hidden,
            width,
            batch_capacity(chunk_capacity),
            1,
        )
        &&& self.last_target_hidden@ == hidden.skip((prompt.len() - 1) * width)
        &&& self.last_target_hidden@.len() == width
    }
}

/// Priming feeds every prompt token behind the first exactly once and in order, each paired with
/// the hidden row of the token before it.
pub proof fn priming_covers_the_prompt(
    prompt: Seq<i32>,
    hidden: Seq<u16>,
    width: int,
    capacity: int,
    index: int,
)
    requires
        1 <= index <= prompt.len(),
        width > 0,
        capacity > 0,
        hidden.len() == prompt.len() * width,
    ensures
        batch_tokens(prime_batches(prompt, hidden, width, capacity, index)) == prompt.skip(index),
        batch_hidden(prime_batches(prompt, hidden, width, capacity, index)) == hidden.subrange(
            (index - 1) * width,
            (prompt.len() - 1) * width,
        ),
    decreases prompt.len() - index,
{
    let n = prompt.len() as int;
    if index < n {
        let end = if index + capacity < n {
            index + capacity
        } else {
            n
        };
        assert((index - 1) * width <= (end - 1) * width <= (n - 1) * width <= n * width)
            by (nonlinear_arith)
            requires
                1 <= index < end <= n,
                width > 0,
        ;
        assert(0 <= (index - 1) * width) by (nonlinear_arith)
            requires
                1 <= index,
                width > 0,
        ;
        priming_covers_the_prompt(prompt, hidden, width, capacity, end);
        let all = prime_batches(prompt, hidden, width, capacity, index);
        let rest = prime_batches(prompt, hidden, width, capacity, end);
        assert(all.drop_first() =~= rest);
        assert(batch_tokens(all) =~= prompt.subrange(index, end) + prompt.skip(end));
        assert(batch_tokens(all) =~= prompt.skip(index));
        assert(batch_hidden(all) =~= hidden.subrange((index - 1) * width, (end - 1) * width)
            + hidden.subrange((end - 1) * width, (n - 1) * width));
        assert(batch_hidden(all) =~= hidden.subrange((index - 1) * width, (n - 1) * width));
    } else {
        assert(prompt.skip(index) =~= Seq::<i32>::empty());
        assert(0 <= (n - 1) * width <= n * width) by (nonlinear_arith)
            requires
                n >= 1,
                width > 0,
        ;
        assert(hidden.subrange((n - 1) * width, (n - 1) * width) =~= Seq::<u16>::empty());
    }
}

/// Plans the priming of a draft request from the target's prompt prefill.
pub fn prime_requests(
    prompt: &[i32],
    hidden: Option<&[u16]>,
    chunk_capacity: u64,
) -> (out: Result<Primed, String>)
    ensures
        match prime_refusal(prompt@, view_opt(hidden), chunk_capacity) {
            Some(message) => out is Err && out->Err_0@ == message,
            None => out is Ok && hidden is Some && out->Ok_0.primes(
                prompt@,
                hidden->Some_0@,
                chunk_capacity,
            ),
        },
{
    if prompt.len() == 0 {
        return Err("Phase86 prompt is empty".to_owned());
    }
    let rows: &[u16] = match hidden {
        Some(rows) => rows,
        None => {
            return Err("Phase86 target prompt omitted hidden rows".to_owned());
        },
    };
    let width: usize = rows.len() / prompt.len();
    if width == 0 {
        return Err("Phase86 target hidden width is invalid".to_owned());
    }
    if rows.len() % prompt.len() != 0 {
        return Err("Phase86 target prompt hidden rows are invalid".to_owned());
    }
    if chunk_capacity > usize::MAX as u64 {
        return Err("Phase86 draft capacity overflowed".to_owned());
    }
    let capacity: usize = if chunk_capacity == 0 { 1 } else { chunk_capacity as usize };
    let n: usize = prompt.len();
    proof {
        vstd::arithmetic::div_mod::lemma_fundamental_div_mod(rows@.len() as int, n as int);
    }
    let ghost wanted = prime_batches(prompt@, rows@, width as int, capacity as int, 1);
    let mut batches: Vec<StateBatch> = Vec::new();
    let mut index: usize = 1;
    proof {
        assert(batch_views(batches@) + wanted =~= wanted);
    }
    while index < n
        invariant
            1 <= index <= n,
            n == prompt@.len(),
            rows@.len() == n * width,
            rows@.len() <= usize::MAX,
            width > 0,
            capacity > 0,
            batch_views(batches@) + prime_batches(
                prompt@,
                rows@,
                width as int,
                capacity as int,
                index as int,
            ) == wanted,
        decreases n - index,
    {
        let end: usize = if capacity < n - index { index + capacity } else { n };
        proof {
            assert((index - 1) * width <= (end - 1) * width <= n * width) by (nonlinear_arith)
                requires
                    1 <= index < end <= n,
                    width > 0,
            ;
            assert(0 <= (index - 1) * width) by (nonlinear_arith)
                requires
                    1 <= index,
                    width > 0,
            ;
        }
        let batch = StateBatch {
            tokens: slice_to_vec(slice_subrange(prompt, index, end)),
            hidden: slice_to_vec(slice_subrange(rows, (index - 1) * width, (end - 1) * width)),
        };
        let ghost before = batch_views(batches@);
        let ghost rest = prime_batches(
            prompt@,
            rows@,
            width as int,
            capacity as int,
            end as int,
        );
        let ghost head = batch@;
        batches.push(batch);
        proof {
            assert(batch_views(batches@) =~= before.push(head));
            assert(before + (seq![head] + rest) =~= before.push(head) + rest);
        }
        index = end;
    }
    proof {
        assert(batch_views(batches@) + Seq::<StateBatchView>::empty() =~= batch_views(batches@));
        assert((n - 1) * width + width == n * width) by (nonlinear_arith);
        assert(0 <= (n - 1) * width) by (nonlinear_arith)
            requires
                n >= 1,
        ;
    }
    let first_hidden: Vec<u16> = vec![0u16; width];
    proof {
        assert(first_hidden@ =~= Seq::new(width as nat, |i: int| 0u16));
        assert(rows@.subrange((n - 1) * width, rows@.len() as int) =~= rows@.skip((n - 1) * width));
    }
    Ok(
        Primed {
            hidden_width: width,
            first_token: prompt[0],
            first_hidden,
            batches,
            last_target_hidden: slice_to_vec(
                slice_subrange(rows, (n - 1) * width, rows.len()),
            ),
        },
    )
}

/// How the draft request is realigned behind a block: decode transitions to rewind, then at most
/// one state-only batch.
#[derive(Debug)]
pub struct RetainPlan {
    pub rewinds: usize,
    pub batch: Option<StateBatch>,
}

/// What a rewind and a batch that realign the draft request are called in messages.
pub fn realign_labels(mode: CatchUpMode, separate: bool) -> (out: (&'static str, &'static str))
    ensures
        if mode == CatchUpMode::P && separate {
            &&& out.0@ == "Phase86 catch-up rewind failed"@
            &&& out.1@ == "Phase86 separate catch-up failed"@
        } else {
            &&& out.0@ == "Phase86 draft rewind failed"@
            &&& out.1@ == "Phase86 all-accept state alignment failed"@
        },
{
    if matches!(mode, CatchUpMode::P) && separate {
        ("Phase86 catch-up rewind failed", "Phase86 separate catch-up failed")
    } else {
        ("Phase86 draft rewind failed", "Phase86 all-accept state alignment failed")
    }
}

/// The batch of a plan, if it has one.
pub open spec fn batch_opt(batch: Option<StateBatch>) -> Option<StateBatchView> {
    match batch {
        Some(b) => Some(b@),
        None => None,
    }
}

/// The batch that realigns the draft state: under separate catch-up the committed inputs, each on
/// the target's hidden row before it; otherwise the last input alone, when every draft was
/// accepted.
pub open spec fn retain_batch(
    separate: bool,
    inputs: Seq<i32>,
    before: Seq<u16>,
    target_hidden: Seq<u16>,
    width: int,
    decision: ForcedBlockDecision,
) -> Option<StateBatchView> {
    if separate {
        Some(
            StateBatchView {
                tokens: inputs.take(decision.committed_rows as int),
                hidden: before + target_hidden.take((decision.committed_rows - 1) * width),
            },
        )
    } else if decision.needs_bonus_state {
        Some(
            StateBatchView {
                tokens: seq![inputs[WIDTH as int]],
                hidden: row_of(target_hidden, width, WIDTH - 1),
            },
        )
    } else {
        None
    }
}

/// Plans how the draft request is realigned behind a decided block.
pub fn retain_or_catch_up(
    mode: CatchUpMode,
    separate: bool,
    inputs: &[i32],
    target_hidden_before: &[u16],
    target_hidden: &[u16],
    hidden_width: usize,
    decision: &ForcedBlockDecision,
) -> (out: RetainPlan)
    requires
        inputs@.len() == WIDTH + 1,
        target_hidden@.len() == (WIDTH + 1) * hidden_width,
        decision.wf(),
    ensures
        ({
            let caught_up = mode == CatchUpMode::P && separate;
            &&& out.rewinds == if caught_up { WIDTH } else { decision.rewind_rows }
            &&& batch_opt(out.batch) == retain_batch(
                caught_up,
                inputs@,
                target_hidden_before@,
                target_hidden@,
                hidden_width as int,
                *decision,
            )
        }),
{
    let committed: usize = decision.committed_rows;
    if matches!(mode, CatchUpMode::P) && separate {
        proof {
            assert(0 <= (committed - 1) * hidden_width <= 3 * hidden_width) by (nonlinear_arith)
                requires
                    1 <= committed <= 3,
                    hidden_width >= 0,
            ;
        }
        assert(target_hidden.len() == 3 * hidden_width);
        let mut state_hidden: Vec<u16> = slice_to_vec(target_hidden_before);
        let end: usize = (committed - 1) * hidden_width;
        push_words(&mut state_hidden, slice_subrange(target_hidden, 0, end));
        assert(target_hidden@.subrange(0, end as int) =~= target_hidden@.take(end as int));
        let tokens = slice_to_vec(slice_subrange(inputs, 0, committed));
        assert(inputs@.subrange(0, committed as int) =~= inputs@.take(committed as int));
        return RetainPlan {
            rewinds: WIDTH,
            batch: Some(StateBatch { tokens, hidden: state_hidden }),
        };
    }
    if decision.needs_bonus_state {
        assert(target_hidden.len() == 3 * hidden_width);
        let start: usize = hidden_width;
        let mut tokens: Vec<i32> = Vec::new();
        tokens.push(inputs[WIDTH]);
        assert(tokens@ =~= seq![inputs@[WIDTH as int]]);
        RetainPlan {
            rewinds: decision.rewind_rows,
            batch: Some(
                StateBatch {
                    tokens,
                    hidden: slice_to_vec(
                        slice_subrange(target_hidden, start, start + hidden_width),
                    ),
                },
            ),
        }
    } else {
        RetainPlan { rewinds: decision.rewind_rows, batch: None }
    }
}

/// Realigning leaves the draft request with exactly the committed inputs, in order: those of its
/// own two rows that are not rewound, then those of the batch.
pub proof fn realignment_leaves_the_committed_inputs(
    caught_up: bool,
    inputs: Seq<i32>,
    before: Seq<u16>,
    target_hidden: Seq<u16>,
    width: int,
    decision: ForcedBlockDecision,
)
    requires
        inputs.len() == WIDTH + 1,
        decision.wf(),
    ensures
        ({
            let rewinds = if caught_up {
                WIDTH
            } else {
                decision.rewind_rows
            };
            let kept = inputs.take(WIDTH - rewinds);
            let batch = retain_batch(caught_up, inputs, before, target_hidden, width, decision);
            let added = if batch is Some {
                batch->Some_0.tokens
            } else {
                Seq::empty()
            };
            kept + added == inputs.take(decision.committed_rows as int)
        }),
{
    let rewinds = if caught_up {
        WIDTH
    } else {
        decision.rewind_rows
    };
    let kept = inputs.take(WIDTH - rewinds);
    if caught_up {
        assert(kept + inputs.take(decision.committed_rows as int) =~= inputs.take(
            decision.committed_rows as int,
        ));
    } else if decision.needs_bonus_state {
        assert(kept + seq![inputs[WIDTH as int]] =~= inputs.take(decision.committed_rows as int));
    } else {
        assert(kept + Seq::<i32>::empty() =~= inputs.take(decision.committed_rows as int));
    }
}

/// Under separate catch-up every row of the draft is taken back, and every committed input stands
/// on the target's hidden row of the token before it: the first on the row before the block, each
/// later one on the row that the block gave for its predecessor.
pub proof fn caught_up_inputs_stand_on_the_row_before_them(
    inputs: &[i32],
    before: &[u16],
    target_hidden: &[u16],
    width: usize,
    decision: &ForcedBlockDecision,
    plan: RetainPlan,
    row: int,
    column: int,
)
    requires
        inputs@.len() == 3,
        before@.len() == width,
        target_hidden@.len() == 3 * width,
        decision.wf(),
        call_ensures(
            retain_or_catch_up,
            (CatchUpMode::P, true, inputs, before, target_hidden, width, decision),
            plan,
        ),
        0 <= row < decision.committed_rows,
        0 <= column < width,
    ensures
        plan.rewinds == 2,
        plan.batch is Some,
        plan.batch->Some_0.tokens@.len() == decision.committed_rows,
        plan.batch->Some_0.hidden@.len() == decision.committed_rows * width,
        plan.batch->Some_0.tokens@[row] == inputs@[row],
        plan.batch->Some_0.hidden@[row * width + column] == if row == 0 {
            before@[column]
        } else {
            target_hidden@[(row - 1) * width + column]
        },
{
    let committed = decision.committed_rows as int;
    assert(0 <= (committed - 1) * width <= 3 * width && (committed - 1) * width + width == committed
        * width) by (nonlinear_arith)
        requires
            1 <= committed <= 3,
            width >= 0,
    ;
    assert(0 <= row * width && row * width + column < committed * width && (row == 0 ==> row * width
        == 0) && (row > 0 ==> row * width >= width && (row - 1) * width == row * width - width))
        by (nonlinear_arith)
        requires
            0 <= row < committed,
            0 <= column < width,
    ;
}

/// Without separate catch-up the draft keeps its own rows for what was accepted. Only where both
/// drafts were accepted is a row added: the last input, on the target's hidden row before it.
pub proof fn a_row_is_added_behind_two_accepted_drafts(
    mode: CatchUpMode,
    separate: bool,
    inputs: &[i32],
    before: &[u16],
    target_hidden: &[u16],
    width: usize,
    decision: &ForcedBlockDecision,
    plan: RetainPlan,
    column: int,
)
    requires
        inputs@.len() == 3,
        target_hidden@.len() == 3 * width,
        decision.wf(),
        mode == CatchUpMode::T || !separate,
        call_ensures(
            retain_or_catch_up,
            (mode, separate, inputs, before, target_hidden, width, decision),
            plan,
        ),
        0 <= column < width,
    ensures
        plan.rewinds == (if decision.accepted == 0 {
            1int
        } else {
            0
        }),
        plan.batch is Some <==> decision.accepted == 2,
        plan.batch is Some ==> {
            &&& plan.batch->Some_0.tokens@.len() == 1
            &&& plan.batch->Some_0.tokens@[0] == inputs@[2]
            &&& plan.batch->Some_0.hidden@.len() == width
            &&& plan.batch->Some_0.hidden@[column] == target_hidden@[width + column]
        },
{
}

/// Where both drafts were accepted, the row that is added without separate catch-up is the last row
/// of the batch with it.
pub proof fn both_ways_end_on_the_same_row(
    inputs: &[i32],
    before: &[u16],
    target_hidden: &[u16],
    width: usize,
    decision: &ForcedBlockDecision,
    separate: RetainPlan,
    kept: RetainPlan,
)
    requires
        inputs@.len() == 3,
        before@.len() == width,
        target_hidden@.len() == 3 * width,
        decision.wf(),
        decision.accepted == 2,
        call_ensures(
            retain_or_catch_up,
            (CatchUpMode::P, true, inputs, before, target_hidden, width, decision),
            separate,
        ),
        call_ensures(
            retain_or_catch_up,
            (CatchUpMode::P, false, inputs, before, target_hidden, width, decision),
            kept,
        ),
    ensures
        separate.batch is Some && kept.batch is Some,
        separate.batch->Some_0.tokens@.last() == kept.batch->Some_0.tokens@.last(),
        separate.batch->Some_0.hidden@.skip(2 * width) == kept.batch->Some_0.hidden@,
{
    assert(separate.batch->Some_0.hidden@.skip(2 * width) =~= kept.batch->Some_0.hidden@);
}

/// Priming hands the draft every prompt token once and in order, in batches within the capacity.
/// Its hidden words are those of the target moved back by one row: a row of zeros stands in front,
/// and the target's last row is left for what follows the prompt.
pub proof fn priming_moves_the_hidden_rows_back_by_one(
    prompt: &[i32],
    hidden: &[u16],
    chunk_capacity: u64,
    primed: Primed,
)
    requires
        call_ensures(prime_requests, (prompt, Some(hidden), chunk_capacity), Ok(primed)),
    ensures
        prompt@.len() >= 1,
        prompt@.len() * primed.hidden_width == hidden@.len(),
        primed.hidden_width > 0,
        seq![primed.first_token] + batch_tokens(batch_views(primed.batches@)) == prompt@,
        primed.first_hidden@.len() == primed.hidden_width,
        forall|i: int|
            0 <= i < primed.first_hidden@.len() ==> #[trigger] primed.first_hidden@[i] == 0,
        batch_hidden(batch_views(primed.batches@)) + primed.last_target_hidden@ == hidden@,
        primed.last_target_hidden@.len() == primed.hidden_width,
        forall|i: int|
            0 <= i < primed.batches@.len() ==> {
                let tokens = (#[trigger] primed.batches@[i]).tokens@.len();
                &&& 1 <= tokens
                &&& tokens <= chunk_capacity || tokens == 1
                &&& primed.batches@[i].hidden@.len() == tokens * primed.hidden_width
            },
{
    let width = primed.hidden_width as int;
    let capacity = batch_capacity(chunk_capacity);
    let n = prompt@.len() as int;
    assert((n - 1) * width + width == n * width && 0 <= (n - 1) * width) by (nonlinear_arith)
        requires
            n >= 1,
            width > 0,
    ;
    priming_covers_the_prompt(prompt@, hidden@, width, capacity, 1);
    prime_batches_fit(prompt@, hidden@, width, capacity, 1);
    assert(seq![primed.first_token] + prompt@.skip(1) =~= prompt@);
    assert(hidden@.subrange(0, (n - 1) * width) + hidden@.skip((n - 1) * width) =~= hidden@);
    assert forall|i: int| 0 <= i < primed.batches@.len() implies {
        let tokens = (#[trigger] primed.batches@[i]).tokens@.len();
        &&& 1 <= tokens
        &&& tokens <= chunk_capacity || tokens == 1
        &&& primed.batches@[i].hidden@.len() == tokens * primed.hidden_width
    } by {
        assert(batch_views(primed.batches@)[i] == primed.batches@[i]@);
    }
}

proof fn prime_batches_fit(
    prompt: Seq<i32>,
    hidden: Seq<u16>,
    width: int,
    capacity: int,
    index: int,
)
    requires
        1 <= index <= prompt.len(),
        width > 0,
        capacity > 0,
        hidden.len() == prompt.len() * width,
    ensures
        forall|i: int|
            0 <= i < prime_batches(prompt, hidden, width, capacity, index).len() ==> {
                let batch = #[trigger] prime_batches(prompt, hidden, width, capacity, index)[i];
                1 <= batch.tokens.len() <= capacity && batch.hidden.len() == batch.tokens.len()
                    * width
            },
    decreases prompt.len() - index,
{
    let n = prompt.len() as int;
    if index < n {
        let end = if index + capacity < n {
            index + capacity
        } else {
            n
        };
        prime_batches_fit(prompt, hidden, width, capacity, end);
        assert(0 <= (index - 1) * width <= (end - 1) * width <= n * width && (end - 1) * width - (
        index - 1) * width == (end - index) * width) by (nonlinear_arith)
            requires
                1 <= index < end <= n,
                width > 0,
        ;
        let all = prime_batches(prompt, hidden, width, capacity, index);
        let rest = prime_batches(prompt, hidden, width, capacity, end);
        assert forall|i: int| 0 <= i < all.len() implies {
            let batch = #[trigger] all[i];
            1 <= batch.tokens.len() <= capacity && batch.hidden.len() == batch.tokens.len() * width
        } by {
            if i > 0 {
                assert(all[i] == rest[i - 1]);
            }
        }
    }
}

/// The audits of both requests of an entry.
#[derive(Debug)]
pub struct Phase86Audit {
    pub target: AuditReport,
    pub draft: AuditReport,
}

/// Accepts the audits of both requests when each shows submitted work on the HIP backend of the
/// target alone. The two descriptions stand for the audits in the message.
pub fn audit_pair(
    target_audit: AuditReport,
    draft_audit: AuditReport,
    target: &str,
    target_description: &str,
    draft_description: &str,
) -> (out: Result<Phase86Audit, String>)
    ensures
        if target_audit.is_hip_only(target@) && target_audit.submission_count > 0
            && draft_audit.is_hip_only(target@) && draft_audit.submission_count > 0 {
            out == Ok::<Phase86Audit, String>(
                (Phase86Audit { target: target_audit, draft: draft_audit }),
            )
        } else {
            out is Err && out->Err_0@ == "Phase86 dispatch audit is not HIP-only: target="@
                + target_description@ + " draft="@ + draft_description@
        },
{
    if audit_is_valid(&target_audit, target) && target_audit.submission_count > 0
        && audit_is_valid(&draft_audit, target) && draft_audit.submission_count > 0 {
        Ok(Phase86Audit { target: target_audit, draft: draft_audit })
    } else {
        let mut message = joined3(
            "Phase86 dispatch audit is not HIP-only: target=",
            target_description,
            " draft=",
        );
        message.append(draft_description);
        Err(message)
    }
}

/// Which hidden state a row ran on.
#[derive(Clone, Copy, Debug, PartialEq, Eq, Structural)]
pub enum HiddenConditioning {
    Target,
    Draft,
}

impl HiddenConditioning {
    /// The name that reports carry.
    pub fn name(self) -> (out: &'static str)
        ensures
            out@ == match self {
                HiddenConditioning::Target => "target-hidden"@,
                HiddenConditioning::Draft => "draft-hidden"@,
            },
    {
        match self {
            HiddenConditioning::Target => "target-hidden",
            HiddenConditioning::Draft => "draft-hidden",
        }
    }
}

/// The best logits of one measured row; the two values are binary32 bits.
#[derive(Clone, Copy, Debug, PartialEq, Eq)]
pub struct Phase86LogitSummary {
    pub sequence_index: usize,
    pub block_row: usize,
    pub input_token: i32,
    pub forced_token: Option<i32>,
    pub top1_token: usize,
    pub top1_value: u32,
    pub top2_value: u32,
    pub top1_matches_forced: Option<bool>,
    pub hidden_conditioning: HiddenConditioning,
}

impl Phase86LogitSummary {
    /// The summary of a row of logits.
    pub open spec fn reports(
        self,
        sequence_index: int,
        block_row: int,
        input_token: i32,
        forced_token: Option<i32>,
        logits: Seq<u32>,
        hidden_conditioning: HiddenConditioning,
    ) -> bool {
        &&& self.sequence_index == sequence_index
        &&& self.block_row == block_row
        &&& self.input_token == input_token
        &&& self.forced_token == forced_token
        &&& is_best(logits, -1, self.top1_token as int)
        &&& self.top1_value == logits[self.top1_token as int]
        &&& exists|second: int|
            #[trigger] is_best(logits, self.top1_token as int, second) && self.top2_value
                == logits[second]
        &&& self.top1_matches_forced == match forced_token {
            Some(token) => Some(self.top1_token == token),
            None => None,
        }
        &&& self.hidden_conditioning == hidden_conditioning
    }
}

/// Summarizes a row of logits, or refuses a row without two finite values.
pub fn summarize_row(
    sequence_index: usize,
    block_row: usize,
    input_token: i32,
    forced_token: Option<i32>,
    logits: &[u32],
    hidden_conditioning: HiddenConditioning,
) -> (out: Result<Phase86LogitSummary, String>)
    ensures
        if is_ranked(logits@) {
            out is Ok && out->Ok_0.reports(
                sequence_index as int,
                block_row as int,
                input_token,
                forced_token,
                logits@,
                hidden_conditioning,
            )
        } else {
            out is Err && out->Err_0@ == "logit row is empty, too short, or non-finite"@
        },
{
    let top = match top_summary(logits) {
        Ok(top) => top,
        Err(message) => {
            return Err(message);
        },
    };
    let top1_matches_forced: Option<bool> = match forced_token {
        Some(token) => Some(token >= 0 && top.first as u64 == token as u64),
        None => None,
    };
    let summary = Phase86LogitSummary {
        sequence_index,
        block_row,
        input_token,
        forced_token,
        top1_token: top.first,
        top1_value: top.first_bits,
        top2_value: top.second_bits,
        top1_matches_forced,
        hidden_conditioning,
    };
    assert(is_best(logits@, summary.top1_token as int, top.second as int));
    assert(summary.reports(
        sequence_index as int,
        block_row as int,
        input_token,
        forced_token,
        logits@,
        hidden_conditioning,
    ));
    Ok(summary)
}

/// A message about a position.
pub(crate) fn message_at(prefix: &str, position: usize) -> (out: String)
    ensures
        out@ == prefix@ + decimal(position as nat),
{
    let number = decimal_string(position as u64);
    joined(prefix, number.as_str())
}

/// Whether row `row` of BF16 logits has two finite values.
pub open spec fn row_is_ranked(logits: Seq<u16>, vocab: int, row: int) -> bool {
    is_ranked(widened_row(row_of(logits, vocab, row)))
}

/// The message that refuses the target's reply to a block, if there is one.
pub open spec fn target_block_refusal(
    cursor: nat,
    hidden: Option<Seq<u16>>,
    logits: Option<Seq<u16>>,
    width: nat,
    vocab: nat,
) -> Option<Seq<char>> {
    match hidden {
        None => Some("Phase86 target block omitted hidden rows at "@ + decimal(cursor)),
        Some(rows) => if rows.len() != (WIDTH + 1) * width {
            Some("Phase86 target hidden rows differ at "@ + decimal(cursor))
        } else {
            match logits {
                None => Some("Phase86 target block omitted logits at "@ + decimal(cursor)),
                Some(words) => if vocab == 0 || words.len() % vocab != 0 {
                    Some("BF16 logits do not contain whole rows"@)
                } else if words.len() / vocab != WIDTH + 1 {
                    Some("Phase86 target logits rows differ at "@ + decimal(cursor))
                } else if !(row_is_ranked(words, vocab as int, 0) && row_is_ranked(
                    words,
                    vocab as int,
                    1,
                ) && row_is_ranked(words, vocab as int, 2)) {
                    Some("logit row is empty, too short, or non-finite"@)
                } else {
                    None
                },
            }
        },
    }
}

/// The token that row `row` of a block is held against: none for the last row.
pub open spec fn forced_in_block(inputs: Seq<i32>, row: int) -> Option<i32> {
    if row < WIDTH {
        Some(inputs[row + 1])
    } else {
        None
    }
}

/// Whether the rows summarize the target's logits of a block.
pub open spec fn target_rows_report(
    rows: Seq<Phase86LogitSummary>,
    cursor: int,
    inputs: Seq<i32>,
    logits: Seq<u16>,
    vocab: int,
) -> bool {
    &&& rows.len() == WIDTH + 1
    &&& forall|row: int|
        0 <= row <= WIDTH ==> (#[trigger] rows[row]).reports(
            cursor + row,
            row,
            inputs[row],
            forced_in_block(inputs, row),
            widened_row(row_of(logits, vocab, row)),
            HiddenConditioning::Target,
        )
}

/// Checks the target's reply to a block and summarizes its three rows of logits.
#[verifier::loop_isolation(false)]
pub fn check_target_block(
    cursor: usize,
    inputs: &[i32],
    hidden: Option<&[u16]>,
    logits: Option<&[u16]>,
    hidden_width: usize,
    vocab: usize,
) -> (out: Result<Vec<Phase86LogitSummary>, String>)
    requires
        inputs@.len() == WIDTH + 1,
        cursor <= usize::MAX - WIDTH,
    ensures
        match target_block_refusal(
            cursor as nat,
            view_opt(hidden),
            view_opt(logits),
            hidden_width as nat,
            vocab as nat,
        ) {
            Some(message) => out is Err && out->Err_0@ == message,
            None => out is Ok && hidden is Some && logits is Some && target_rows_report(
                out->Ok_0@,
                cursor as int,
                inputs@,
                logits->Some_0@,
                vocab as int,
            ),
        },
{
    let rows: &[u16] = match hidden {
        Some(rows) => rows,
        None => {
            return Err(message_at("Phase86 target block omitted hidden rows at ", cursor));
        },
    };
    if rows.len() % 3 != 0 || rows.len() / 3 != hidden_width {
        return Err(message_at("Phase86 target hidden rows differ at ", cursor));
    }
    let words: &[u16] = match logits {
        Some(words) => words,
        None => {
            return Err(message_at("Phase86 target block omitted logits at ", cursor));
        },
    };
    let split = match bf16_rows_to_f32(words, vocab) {
        Ok(split) => split,
        Err(message) => {
            return Err(message);
        },
    };
    if split.len() != WIDTH + 1 {
        return Err(message_at("Phase86 target logits rows differ at ", cursor));
    }
    let mut summaries: Vec<Phase86LogitSummary> = Vec::new();
    for row in 0..WIDTH + 1
        invariant
            inputs@.len() == WIDTH + 1,
            cursor <= usize::MAX - WIDTH,
            split@.len() == WIDTH + 1,
            summaries@.len() == row,
            forall|r: int|
                0 <= r <= WIDTH ==> #[trigger] split@[r]@ == widened_row(
                    row_of(words@, vocab as int, r),
                ),
            forall|r: int|
                0 <= r < row ==> (#[trigger] summaries@[r]).reports(
                    cursor + r,
                    r,
                    inputs@[r],
                    forced_in_block(inputs@, r),
                    widened_row(row_of(words@, vocab as int, r)),
                    HiddenConditioning::Target,
                ) && row_is_ranked(words@, vocab as int, r),
    {
        let forced: Option<i32> = if row < WIDTH { Some(inputs[row + 1]) } else { None };
        assert(split@[row as int]@ == widened_row(row_of(words@, vocab as int, row as int)));
        match summarize_row(
            cursor + row,
            row,
            inputs[row],
            forced,
            split[row].as_slice(),
            HiddenConditioning::Target,
        ) {
            Ok(summary) => {
                summaries.push(summary);
            },
            Err(message) => {
                assert(!row_is_ranked(words@, vocab as int, row as int));
                return Err(message);
            },
        }
    }
    assert(summaries@[0].block_row == 0 && summaries@[1].block_row == 1
        && summaries@[2].block_row == 2);
    Ok(summaries)
}

/// The hidden row that the second draft row runs on, or the message that refuses the first row's
/// reply: the draft's own row in mode `P`, the target's first row otherwise.
pub fn row_one_hidden(
    cursor: usize,
    mode: CatchUpMode,
    q0_hidden: Option<&[u16]>,
    q0_logits: Option<&[u32]>,
    target_hidden: &[u16],
    hidden_width: usize,
) -> (out: Result<Vec<u16>, String>)
    requires
        hidden_width <= target_hidden@.len(),
    ensures
        match q0_hidden {
            None => out is Err && out->Err_0@ == "Phase86 draft row 0 omitted hidden at "@
                + decimal(cursor as nat),
            Some(own) => if q0_logits is None {
                out is Err && out->Err_0@ == "Phase86 draft row 0 omitted logits at "@ + decimal(
                    cursor as nat,
                )
            } else {
                out is Ok && out->Ok_0@ == if mode == CatchUpMode::P {
                    own@
                } else {
                    target_hidden@.take(hidden_width as int)
                }
            },
        },
{
    let own: &[u16] = match q0_hidden {
        Some(own) => own,
        None => {
            return Err(message_at("Phase86 draft row 0 omitted hidden at ", cursor));
        },
    };
    if q0_logits.is_none() {
        return Err(message_at("Phase86 draft row 0 omitted logits at ", cursor));
    }
    if matches!(mode, CatchUpMode::P) {
        Ok(slice_to_vec(own))
    } else {
        assert(target_hidden@.subrange(0, hidden_width as int) =~= target_hidden@.take(
            hidden_width as int,
        ));
        Ok(slice_to_vec(slice_subrange(target_hidden, 0, hidden_width)))
    }
}

/// The summaries of the two draft rows of a block.
#[derive(Clone, Copy, Debug, PartialEq, Eq)]
pub struct DraftRows {
    pub row0: Phase86LogitSummary,
    pub row1: Phase86LogitSummary,
}

impl DraftRows {
    /// Whether the first draft equals the forced token.
    pub open spec fn row0_matches(self) -> bool {
        self.row0.top1_matches_forced == Some(true)
    }

    /// Whether the second draft equals the forced token.
    pub open spec fn row1_matches(self) -> bool {
        self.row1.top1_matches_forced == Some(true)
    }

    /// The summaries of both rows.
    pub open spec fn report(
        self,
        cursor: int,
        mode: CatchUpMode,
        inputs: Seq<i32>,
        q0: Seq<u32>,
        q1: Seq<u32>,
    ) -> bool {
        &&& self.row0.reports(
            cursor,
            0,
            inputs[0],
            Some(inputs[1]),
            q0,
            HiddenConditioning::Target,
        )
        &&& self.row1.reports(
            cursor + 1,
            1,
            inputs[1],
            Some(inputs[2]),
            q1,
            if mode == CatchUpMode::P {
                HiddenConditioning::Draft
            } else {
                HiddenConditioning::Target
            },
        )
    }
}

/// Checks and summarizes the two draft rows of a block.
pub fn check_draft_rows(
    cursor: usize,
    mode: CatchUpMode,
    inputs: &[i32],
    q0_logits: &[u32],
    q1_logits: Option<&[u32]>,
) -> (out: Result<DraftRows, String>)
    requires
        inputs@.len() == WIDTH + 1,
        cursor < usize::MAX,
    ensures
        match q1_logits {
            None => out is Err && out->Err_0@ == "Phase86 draft row 1 omitted logits at "@
                + decimal(cursor as nat),
            Some(q1) => if is_ranked(q0_logits@) && is_ranked(q1@) {
                out is Ok && out->Ok_0.report(cursor as int, mode, inputs@, q0_logits@, q1@)
            } else {
                out is Err && out->Err_0@ == "logit row is empty, too short, or non-finite"@
            },
        },
{
    let q1: &[u32] = match q1_logits {
        Some(q1) => q1,
        None => {
            return Err(message_at("Phase86 draft row 1 omitted logits at ", cursor));
        },
    };
    let row0 = match summarize_row(
        cursor,
        0,
        inputs[0],
        Some(inputs[1]),
        q0_logits,
        HiddenConditioning::Target,
    ) {
        Ok(row) => row,
        Err(message) => {
            return Err(message);
        },
    };
    let conditioning = if matches!(mode, CatchUpMode::P) {
        HiddenConditioning::Draft
    } else {
        HiddenConditioning::Target
    };
    match summarize_row(cursor + 1, 1, inputs[1], Some(inputs[2]), q1, conditioning) {
        Ok(row1) => Ok(DraftRows { row0, row1 }),
        Err(message) => Err(message),
    }
}

/// The target's hidden row behind the committed rows: the last committed row of the replay, or
/// of the block itself where the replay carries no hidden rows.
pub fn next_target_hidden(
    cursor: usize,
    committed: usize,
    replay: Option<&[u16]>,
    target_hidden: &[u16],
    hidden_width: usize,
) -> (out: Result<Vec<u16>, String>)
    requires
        1 <= committed <= WIDTH + 1,
        target_hidden@.len() == (WIDTH + 1) * hidden_width,
    ensures
        match replay {
            Some(rows) => if rows@.len() < committed * hidden_width {
                out is Err && out->Err_0@ == "Phase86 replay hidden rows differ at "@ + decimal(
                    cursor as nat,
                )
            } else {
                out is Ok && out->Ok_0@ == row_of(rows@, hidden_width as int, committed - 1)
            },
            None => out is Ok && out->Ok_0@ == row_of(
                target_hidden@,
                hidden_width as int,
                committed - 1,
            ),
        },
        out is Ok ==> out->Ok_0@.len() == hidden_width,
{
    assert(target_hidden.len() == 3 * hidden_width);
    proof {
        assert(0 <= (committed - 1) * hidden_width) by (nonlinear_arith)
            requires
                committed >= 1,
        ;
        assert((committed - 1) * hidden_width + hidden_width == committed * hidden_width)
            by (nonlinear_arith);
        assert(committed * hidden_width <= 3 * hidden_width) by (nonlinear_arith)
            requires
                committed <= 3,
        ;
    }
    let end: usize = committed * hidden_width;
    let start: usize = end - hidden_width;
    match replay {
        Some(rows) => {
            if rows.len() < end {
                return Err(message_at("Phase86 replay hidden rows differ at ", cursor));
            }
            Ok(slice_to_vec(slice_subrange(rows, start, end)))
        },
        None => Ok(slice_to_vec(slice_subrange(target_hidden, start, end))),
    }
}

/// The second draft row runs on the draft's own hidden row in mode `P` and on the target's first row
/// in mode `T`, and its summary says which.
pub proof fn summaries_name_the_row_they_ran_on(
    cursor: usize,
    mode: CatchUpMode,
    own: &[u16],
    q0: &[u32],
    target_hidden: &[u16],
    width: usize,
    inputs: &[i32],
    q1: &[u32],
    used: Vec<u16>,
    rows: DraftRows,
)
    requires
        width <= target_hidden@.len(),
        inputs@.len() == 3,
        cursor < usize::MAX,
        call_ensures(
            row_one_hidden,
            (cursor, mode, Some(own), Some(q0), target_hidden, width),
            Ok(used),
        ),
        call_ensures(check_draft_rows, (cursor, mode, inputs, q0, Some(q1)), Ok(rows)),
    ensures
        rows.row0.hidden_conditioning == HiddenConditioning::Target,
        mode == CatchUpMode::P ==> used@ == own@ && rows.row1.hidden_conditioning
            == HiddenConditioning::Draft,
        mode == CatchUpMode::T ==> used@.len() == width && rows.row1.hidden_conditioning
            == HiddenConditioning::Target && forall|i: int|
            0 <= i < width ==> #[trigger] used@[i] == target_hidden@[i],
        rows.row0.sequence_index == cursor && rows.row1.sequence_index == cursor + 1,
        rows.row0.block_row == 0 && rows.row1.block_row == 1,
        rows.row0.input_token == inputs@[0] && rows.row1.input_token == inputs@[1],
        rows.row0.forced_token == Some(inputs@[1]) && rows.row1.forced_token == Some(inputs@[2]),
        rows.row0.top1_matches_forced == Some(rows.row0.top1_token == inputs@[1]),
        rows.row1.top1_matches_forced == Some(rows.row1.top1_token == inputs@[2]),
{
}

/// Each target row of a block is held against the input that follows it; the last one against none.
pub proof fn target_rows_are_held_against_the_next_input(
    cursor: usize,
    inputs: &[i32],
    hidden: &[u16],
    logits: &[u16],
    width: usize,
    vocab: usize,
    rows: Vec<Phase86LogitSummary>,
    row: int,
)
    requires
        inputs@.len() == 3,
        cursor <= usize::MAX - 2,
        call_ensures(
            check_target_block,
            (cursor, inputs, Some(hidden), Some(logits), width, vocab),
            Ok(rows),
        ),
        0 <= row < 3,
    ensures
        rows@.len() == 3,
        hidden@.len() == 3 * width,
        logits@.len() == 3 * vocab,
        rows@[row].sequence_index == cursor + row,
        rows@[row].block_row == row,
        rows@[row].input_token == inputs@[row],
        rows@[row].hidden_conditioning == HiddenConditioning::Target,
        row < 2 ==> rows@[row].forced_token == Some(inputs@[row + 1]),
        row == 2 ==> rows@[row].forced_token is None && rows@[row].top1_matches_forced is None,
        row < 2 ==> rows@[row].top1_matches_forced == Some(
            rows@[row].top1_token == inputs@[row + 1],
        ),
        rows@[row].top1_token < vocab,
        rows@[row].top1_value == widened(logits@[row * vocab + rows@[row].top1_token]),
        forall|column: int|
            0 <= column < vocab ==> f32_rank(widened(#[trigger] logits@[row * vocab + column]))
                <= f32_rank(rows@[row].top1_value),
{
    vstd::arithmetic::div_mod::lemma_fundamental_div_mod(logits@.len() as int, vocab as int);
    assert(logits@.len() == 3 * vocab);
    assert(0 <= row * vocab && row * vocab + vocab <= 3 * vocab) by (nonlinear_arith)
        requires
            0 <= row < 3,
            vocab >= 0,
    ;
    let words = row_of(logits@, vocab as int, row);
    let values = widened_row(words);
    assert(is_best(values, -1, rows@[row].top1_token as int));
    assert forall|column: int| 0 <= column < vocab implies f32_rank(
        widened(#[trigger] logits@[row * vocab + column]),
    ) <= f32_rank(rows@[row].top1_value) by {
        assert(values[column] == widened(logits@[row * vocab + column]));
    }
}

/// The row before the next block is the last row that was committed.
pub proof fn the_last_committed_row_leads_the_next_block(
    cursor: usize,
    committed: usize,
    replay: Option<&[u16]>,
    target_hidden: &[u16],
    width: usize,
    next: Vec<u16>,
    column: int,
)
    requires
        1 <= committed <= 3,
        target_hidden@.len() == 3 * width,
        call_ensures(
            next_target_hidden,
            (cursor, committed, replay, target_hidden, width),
            Ok(next),
        ),
        0 <= column < width,
    ensures
        next@.len() == width,
        replay matches Some(rows) ==> rows@.len() >= committed * width && next@[column]
            == rows@[committed * width - width + column],
        replay is None ==> next@[column] == target_hidden@[committed * width - width + column],
{
    assert((committed - 1) * width == committed * width - width && 0 <= (committed - 1) * width
        && committed * width <= 3 * width) by (nonlinear_arith)
        requires
            1 <= committed <= 3,
            width >= 0,
    ;
}

/// A pair of audits is taken exactly where both ran on the device of the target alone and submitted
/// something; they keep their places.
pub proof fn both_audits_must_hold(
    target_audit: AuditReport,
    draft_audit: AuditReport,
    target: &str,
    target_description: &str,
    draft_description: &str,
    out: Result<Phase86Audit, String>,
)
    requires
        call_ensures(
            audit_pair,
            (target_audit, draft_audit, target, target_description, draft_description),
            out,
        ),
    ensures
        out is Ok ==> out->Ok_0.target == target_audit && out->Ok_0.draft == draft_audit,
        out is Ok ==> target_audit.target@ == target@ && draft_audit.target@ == target@
            && !target_audit.fallback_used && !draft_audit.fallback_used
            && target_audit.all_dispatches_hip && draft_audit.all_dispatches_hip
            && target_audit.kernel_dispatch_count > 0 && draft_audit.kernel_dispatch_count > 0
            && target_audit.submission_count > 0 && draft_audit.submission_count > 0,
        target_audit == draft_audit ==> (out is Ok <==> target_audit.target@ == target@
            && target_audit.selected_backend@ == "hip"@ && target_audit.kernel_dispatch_count > 0
            && target_audit.submission_count > 0 && !target_audit.fallback_used
            && target_audit.all_dispatches_hip),
{
}

/// A row is summarized exactly where it has two finite values or more: the best of them and the next best,
/// both as they stand in the row.
pub proof fn summaries_hold_the_two_best(
    sequence_index: usize,
    block_row: usize,
    input_token: i32,
    forced_token: Option<i32>,
    logits: &[u32],
    conditioning: HiddenConditioning,
    out: Result<Phase86LogitSummary, String>,
    at: int,
)
    requires
        call_ensures(
            summarize_row,
            (sequence_index, block_row, input_token, forced_token, logits, conditioning),
            out,
        ),
        0 <= at < logits@.len(),
    ensures
        out is Ok ==> logits@.len() >= 2 && f32_is_finite(logits@[at]),
        out matches Ok(summary) ==> {
            let best = summary.top1_token as int;
            &&& 0 <= best < logits@.len()
            &&& summary.top1_value == logits@[best]
            &&& f32_rank(logits@[at]) <= f32_rank(summary.top1_value)
            &&& at != best ==> f32_rank(logits@[at]) <= f32_rank(summary.top2_value)
            &&& f32_rank(summary.top2_value) <= f32_rank(summary.top1_value)
            &&& summary.sequence_index == sequence_index && summary.block_row == block_row
            &&& summary.input_token == input_token && summary.forced_token == forced_token
            &&& summary.hidden_conditioning == conditioning
        },
{
    if let Ok(summary) = out {
        let best = summary.top1_token as int;
        let second = choose|second: int| #[trigger]
            is_best(logits@, best, second) && summary.top2_value == logits@[second];
        assert(is_best(logits@, best, second));
    }
}

} // verus!
