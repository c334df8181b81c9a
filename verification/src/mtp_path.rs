//! The multi-token prediction path diagnostic: how its requests are primed, which transitions a
//! resolved block retains, what counts as a failure, and how it ends.
use crate::bytes::push_words;
use crate::catch_up::row_of;
use crate::catch_up_entry::{batch_opt, batch_views, StateBatch, StateBatchView};
use crate::text::{append_decimal, decimal, decimal_string, joined3};
use vstd::prelude::*;
use vstd::slice::{slice_subrange, slice_to_vec};
use vstd::string::StringExecFns;

verus! {

broadcast use vstd::string::group_string_axioms;

/// The least state capacity of a diagnostic request, and the default one.
pub const STATE_CAPACITY: u64 = 256;

/// The prefill chunk capacity of the target graph.
pub const CHUNK_CAPACITY: u64 = 128;

/// The priming capacity of the draft graph.
pub const MTP_GRAPH_CAPACITY: u64 = 256;

/// The number of draft rows in a proposal.
pub const DRAFT_WIDTH: usize = 2;

/// How a draft request is primed: its first token on a zero row, then the rest of the prompt in
/// one batch, each token on the target's hidden row before it.
#[derive(Debug)]
pub struct PrimePlan {
    pub first_token: i32,
    pub first_hidden: Vec<u16>,
    pub batch: Option<StateBatch>,
}

impl PrimePlan {
    /// The plan for a prompt and the target's hidden rows over it.
    pub open spec fn primes(self, prompt: Seq<i32>, hidden: Seq<u16>, width: int) -> bool {
        &&& self.first_token == prompt[0]
        &&& self.first_hidden@ == Seq::new(width as nat, |i: int| 0u16)
        &&& batch_opt(self.batch) == if prompt.len() > 1 {
            Some(
                StateBatchView {
                    tokens: prompt.skip(1),
                    hidden: hidden.take((prompt.len() - 1) * width),
                },
            )
        } else {
            None
        }
    }
}

/// Plans the priming of a draft request.
pub fn prime_mtp(prompt: &[i32], hidden: &[u16], hidden_width: usize) -> (out: Result<
    PrimePlan,
    String,
>)
    ensures
        if prompt@.len() == 0 || hidden@.len() != prompt@.len() * hidden_width {
            out is Err && out->Err_0@ == "MTP prefix shape mismatch"@
        } else {
            out is Ok && out->Ok_0.primes(prompt@, hidden@, hidden_width as int)
        },
{
    if prompt.len() == 0 {
        return Err("MTP prefix shape mismatch".to_owned());
    }
    let count: usize = hidden.len();
    match prompt.len().checked_mul(hidden_width) {
        Some(expected) => {
            if count != expected {
                return Err("MTP prefix shape mismatch".to_owned());
            }
        },
        None => {
            return Err("MTP prefix shape mismatch".to_owned());
        },
    }
    let n: usize = prompt.len();
    let first_hidden: Vec<u16> = vec![0u16; hidden_width];
    assert(first_hidden@ =~= Seq::new(hidden_width as nat, |i: int| 0u16));
    let batch: Option<StateBatch> = if n > 1 {
        proof {
            assert(0 <= (n - 1) * hidden_width <= n * hidden_width) by (nonlinear_arith)
                requires
                    n >= 1,
                    hidden_width >= 0,
            ;
        }
        let tokens = slice_to_vec(slice_subrange(prompt, 1, n));
        assert(prompt@.subrange(1, n as int) =~= prompt@.skip(1));
        let end: usize = (n - 1) * hidden_width;
        let rows = slice_to_vec(slice_subrange(hidden, 0, end));
        assert(hidden@.subrange(0, end as int) =~= hidden@.take(end as int));
        Some(StateBatch { tokens, hidden: rows })
    } else {
        None
    };
    Ok(PrimePlan { first_token: prompt[0], first_hidden, batch })
}

/// Priming hands over the whole prompt in order, with hidden words that lag by one row: a row of zeros
/// comes first, and the target's last row is left for what follows the prompt.
pub proof fn priming_moves_the_hidden_rows_back_by_one(
    prompt: &[i32],
    hidden: &[u16],
    width: usize,
    plan: PrimePlan,
)
    requires
        call_ensures(prime_mtp, (prompt, hidden, width), Ok(plan)),
    ensures
        prompt@.len() * width == hidden@.len(),
        plan.first_hidden@.len() == width,
        forall|i: int| 0 <= i < width ==> #[trigger] plan.first_hidden@[i] == 0,
        plan.batch is Some <==> prompt@.len() > 1,
        plan.batch matches Some(batch) ==> {
            &&& seq![plan.first_token] + batch.tokens@ == prompt@
            &&& batch.hidden@.len() + width == hidden@.len()
            &&& forall|i: int| 0 <= i < batch.hidden@.len() ==> #[trigger] batch.hidden@[i] == hidden@[i]
        },
        plan.batch is None ==> prompt@ == seq![plan.first_token],
{
    let n = prompt@.len() as int;
    assert((n - 1) * width + width == n * width && 0 <= (n - 1) * width) by (nonlinear_arith)
        requires
            n >= 1,
            width >= 0,
    ;
    assert(batch_opt(plan.batch) is Some <==> plan.batch is Some);
    if n > 1 {
        assert(seq![prompt@[0]] + prompt@.skip(1) =~= prompt@);
    } else {
        assert(prompt@ =~= seq![plan.first_token]);
    }
}

/// Whether every token fits an `i32`.
pub open spec fn all_fit_i32(tokens: Seq<u32>) -> bool {
    forall|i: int| 0 <= i < tokens.len() ==> #[trigger] tokens[i] <= i32::MAX
}

/// The tokens as signed integers.
pub open spec fn signed_tokens(tokens: Seq<u32>) -> Seq<i32> {
    Seq::new(tokens.len(), |i: int| tokens[i] as i32)
}

fn to_signed(tokens: &[u32]) -> (out: Option<Vec<i32>>)
    ensures
        match out {
            Some(signed) => all_fit_i32(tokens@) && signed@ == signed_tokens(tokens@),
            None => !all_fit_i32(tokens@),
        },
{
    let mut signed: Vec<i32> = Vec::new();
    for i in 0..tokens.len()
        invariant
            forall|j: int| 0 <= j < i ==> #[trigger] tokens@[j] <= i32::MAX,
            signed@ == signed_tokens(tokens@).take(i as int),
    {
        if tokens[i] > i32::MAX as u32 {
            assert(!(tokens@[i as int] <= i32::MAX));
            return None;
        }
        signed.push(tokens[i] as i32);
        assert(signed_tokens(tokens@).take(i + 1) =~= signed_tokens(tokens@).take(i as int).push(
            signed_tokens(tokens@)[i as int],
        ));
    }
    assert(signed_tokens(tokens@).take(tokens.len() as int) =~= signed_tokens(tokens@));
    Some(signed)
}

/// The prompts of the diagnostic.
#[derive(Debug)]
pub struct PromptCases {
    pub coding: Vec<i32>,
    pub japanese: Vec<i32>,
}

/// The message that refuses the tokenized prompts, if there is one.
pub open spec fn prompt_refusal(coding: Seq<u32>, japanese: Seq<u32>) -> Option<Seq<char>> {
    if !all_fit_i32(coding) || !all_fit_i32(japanese) {
        Some("token ID overflow"@)
    } else if japanese.len() < 129 {
        Some("Japanese prompt did not reach the 129-token boundary"@)
    } else if coding.len() != 127 {
        Some(
            "raw coding diagnostic fixture tokenized to "@ + decimal(coding.len())
                + ", expected 127"@,
        )
    } else {
        None
    }
}

/// The prompts made of the tokenized sources: all of the coding source, which must be one token
/// short of a chunk, and of the Japanese source as much as reaches one past it.
pub fn prompt_cases(coding: &[u32], japanese: &[u32]) -> (out: Result<PromptCases, String>)
    ensures
        match prompt_refusal(coding@, japanese@) {
            Some(message) => out is Err && out->Err_0@ == message,
            None => {
                &&& out is Ok
                &&& out->Ok_0.coding@ == signed_tokens(coding@)
                &&& out->Ok_0.japanese@ == signed_tokens(japanese@).take(129)
            },
        },
{
    let coding_tokens = match to_signed(coding) {
        Some(tokens) => tokens,
        None => {
            return Err("token ID overflow".to_owned());
        },
    };
    let japanese_tokens = match to_signed(japanese) {
        Some(tokens) => tokens,
        None => {
            return Err("token ID overflow".to_owned());
        },
    };
    if japanese_tokens.len() < 129 {
        return Err("Japanese prompt did not reach the 129-token boundary".to_owned());
    }
    if coding_tokens.len() != 127 {
        let count = decimal_string(coding_tokens.len() as u64);
        return Err(
            joined3("raw coding diagnostic fixture tokenized to ", count.as_str(), ", expected 127"),
        );
    }
    let front = slice_to_vec(slice_subrange(japanese_tokens.as_slice(), 0, 129));
    assert(japanese_tokens@.subrange(0, 129) =~= japanese_tokens@.take(129));
    Ok(PromptCases { coding: coding_tokens, japanese: front })
}

/// The two prompts lie on either side of a chunk of 128 tokens, and hold their sources' tokens in
/// order.
pub proof fn prompts_lie_around_a_chunk(
    coding: &[u32],
    japanese: &[u32],
    prompts: PromptCases,
    at: int,
)
    requires
        call_ensures(prompt_cases, (coding, japanese), Ok(prompts)),
    ensures
        prompts.coding@.len() == 127 && prompts.japanese@.len() == 129,
        coding@.len() == 127 && japanese@.len() >= 129,
        0 <= at < 127 ==> prompts.coding@[at] == coding@[at],
        0 <= at < 129 ==> prompts.japanese@[at] == japanese@[at],
{
}

/// A prompt fits just where it is not empty and leaves four of 256 places.
pub proof fn prompts_leave_room_for_a_case(prompt_len: usize, out: Result<(), String>)
    requires
        call_ensures(check_prompt_fits, (prompt_len,), out),
    ensures
        out is Ok <==> 1 <= prompt_len <= 252,
{
}

/// A block reads the target's token and behind it every draft in order.
pub proof fn blocks_read_the_drafts_in_order(
    target_first: i32,
    drafts: &[u32],
    inputs: Vec<i32>,
    at: int,
)
    requires
        call_ensures(block_inputs, (target_first, drafts), Ok(inputs)),
    ensures
        inputs@.len() == drafts@.len() + 1,
        inputs@[0] == target_first,
        0 <= at < drafts@.len() ==> inputs@[at + 1] == drafts@[at],
{
    assert(0 <= at < drafts@.len() ==> drafts@[at] <= i32::MAX);
}

/// Refuses a prompt that is empty or leaves no room for the rows of a case.
pub fn check_prompt_fits(prompt_len: usize) -> (out: Result<(), String>)
    ensures
        if prompt_len == 0 || prompt_len + 4 > STATE_CAPACITY {
            out is Err && out->Err_0@ == "diagnostic prompt does not fit state capacity"@
        } else {
            out is Ok
        },
{
    if prompt_len == 0 || prompt_len > 252 {
        Err("diagnostic prompt does not fit state capacity".to_owned())
    } else {
        Ok(())
    }
}

/// The inputs of a target block: the target's own token, then the drafts.
pub fn block_inputs(target_first: i32, draft_tokens: &[u32]) -> (out: Result<Vec<i32>, String>)
    ensures
        if all_fit_i32(draft_tokens@) {
            out is Ok && out->Ok_0@ == seq![target_first] + signed_tokens(draft_tokens@)
        } else {
            out is Err && out->Err_0@ == "draft token overflow"@
        },
{
    let mut drafts = match to_signed(draft_tokens) {
        Some(tokens) => tokens,
        None => {
            return Err("draft token overflow".to_owned());
        },
    };
    let mut inputs: Vec<i32> = Vec::new();
    inputs.push(target_first);
    inputs.append(&mut drafts);
    assert(inputs@ =~= seq![target_first] + signed_tokens(draft_tokens@));
    Ok(inputs)
}

/// The message that refuses a replayed proposal row, if there is one.
pub open spec fn proposal_refusal(
    row: nat,
    selected: Option<u32>,
    draft_tokens: Seq<u32>,
    has_hidden: bool,
) -> Option<Seq<char>> {
    match selected {
        None => Some("optimized rewind proposal selection missing"@),
        Some(token) => if row >= draft_tokens.len() {
            Some("draft token row missing during selector check"@)
        } else if token != draft_tokens[row as int] {
            Some(
                "optimized rewind proposal token mismatch at row "@ + decimal(row) + ": selected="@
                    + decimal(token as nat) + " expected="@ + decimal(
                    draft_tokens[row as int] as nat,
                ),
            )
        } else if !has_hidden {
            Some("optimized MTP proposal hidden row missing"@)
        } else if token > i32::MAX {
            Some("draft token overflow"@)
        } else {
            None
        },
    }
}

/// Checks a replayed proposal row: it must select the draft that was observed before. Gives the
/// token and the hidden row that the next row runs on.
pub fn check_proposal_row(
    row: usize,
    selected: Option<u32>,
    draft_tokens: &[u32],
    hidden: Option<&[u16]>,
) -> (out: Result<(i32, Vec<u16>), String>)
    ensures
        match proposal_refusal(row as nat, selected, draft_tokens@, hidden is Some) {
            Some(message) => out is Err && out->Err_0@ == message,
            None => {
                &&& out is Ok
                &&& hidden is Some
                &&& row < draft_tokens@.len()
                &&& out->Ok_0.0 == draft_tokens@[row as int]
                &&& out->Ok_0.1@ == hidden->Some_0@
            },
        },
{
    let token: u32 = match selected {
        Some(token) => token,
        None => {
            return Err("optimized rewind proposal selection missing".to_owned());
        },
    };
    if row >= draft_tokens.len() {
        return Err("draft token row missing during selector check".to_owned());
    }
    let expected: u32 = draft_tokens[row];
    if token != expected {
        let mut message = "optimized rewind proposal token mismatch at row ".to_owned();
        append_decimal(&mut message, row as u64);
        message.append(": selected=");
        append_decimal(&mut message, token as u64);
        message.append(" expected=");
        append_decimal(&mut message, expected as u64);
        return Err(message);
    }
    let rows: &[u16] = match hidden {
        Some(rows) => rows,
        None => {
            return Err("optimized MTP proposal hidden row missing".to_owned());
        },
    };
    if token > i32::MAX as u32 {
        return Err("draft token overflow".to_owned());
    }
    Ok((token as i32, slice_to_vec(rows)))
}

/// What resolving a block to a number of committed rows takes on the draft side: what the
/// optimized request rewinds or adds, the transitions that the sequential request makes, and the
/// row on which both go on.
#[derive(Debug)]
pub struct ResolvePlan {
    pub rewinds: usize,
    pub bonus: Option<StateBatch>,
    pub committed: Vec<StateBatch>,
    pub next_input: i32,
    pub next_hidden: Vec<u16>,
}

/// One transition: a token on a hidden row.
pub open spec fn transition(token: i32, hidden: Seq<u16>) -> StateBatchView {
    StateBatchView { tokens: seq![token], hidden }
}

/// The transitions that a proposal makes: the target's token on its own hidden row, then the
/// first draft on the hidden row of the first transition.
pub open spec fn proposal_transitions(
    target_first: i32,
    draft_tokens: Seq<u32>,
    last_hidden: Seq<u16>,
    proposal_hidden: Seq<u16>,
) -> Seq<StateBatchView> {
    seq![
        transition(target_first, last_hidden),
        transition(draft_tokens[0] as i32, proposal_hidden),
    ]
}

/// Words cut into rows of a width; the last row may be shorter.
pub open spec fn cut_rows(words: Seq<u16>, width: int) -> Seq<Seq<u16>>
    decreases words.len(),
{
    if width <= 0 || words.len() == 0 {
        Seq::empty()
    } else if words.len() <= width {
        seq![words]
    } else {
        seq![words.take(width)] + cut_rows(words.skip(width), width)
    }
}

/// The hidden words behind the transitions that are committed: the target's row, the row of the
/// proposal's first transition, and the target's second row, as far as rows are committed.
pub open spec fn committed_words(
    last_hidden: Seq<u16>,
    proposal_hidden: Seq<u16>,
    block_hidden: Seq<u16>,
    committed_rows: int,
) -> Seq<u16> {
    let second = if committed_rows >= 2 {
        proposal_hidden
    } else {
        Seq::empty()
    };
    let third = if committed_rows >= 3 {
        row_of(block_hidden, last_hidden.len() as int, 1)
    } else {
        Seq::empty()
    };
    last_hidden + second + third
}

/// Tokens and rows put together one by one, as far as both go.
pub open spec fn paired(tokens: Seq<i32>, rows: Seq<Seq<u16>>) -> Seq<StateBatchView> {
    Seq::new(
        if tokens.len() <= rows.len() {
            tokens.len()
        } else {
            rows.len()
        },
        |i: int| transition(tokens[i], rows[i]),
    )
}

/// The transitions that are committed: the target's token and the accepted drafts, each on its
/// row of the committed words.
pub open spec fn committed_transitions(
    target_first: i32,
    draft_tokens: Seq<u32>,
    last_hidden: Seq<u16>,
    proposal_hidden: Seq<u16>,
    block_hidden: Seq<u16>,
    committed_rows: int,
) -> Seq<StateBatchView> {
    paired(
        seq![target_first] + signed_tokens(draft_tokens.take(committed_rows - 1)),
        cut_rows(
            committed_words(last_hidden, proposal_hidden, block_hidden, committed_rows),
            last_hidden.len() as int,
        ),
    )
}

impl ResolvePlan {
    /// The plan for a number of committed rows.
    pub open spec fn resolves(
        self,
        committed_rows: int,
        target_first: i32,
        draft_tokens: Seq<u32>,
        last_hidden: Seq<u16>,
        proposal_hidden: Seq<u16>,
        block_tokens: Seq<i32>,
        block_hidden: Seq<u16>,
    ) -> bool {
        let width = last_hidden.len() as int;
        &&& self.rewinds == if committed_rows == 1 { 1int } else { 0 }
        &&& batch_opt(self.bonus) == if committed_rows == DRAFT_WIDTH + 1 {
            Some(transition(draft_tokens[1] as i32, row_of(block_hidden, width, 1)))
        } else {
            None
        }
        &&& batch_views(self.committed@) == committed_transitions(
            target_first,
            draft_tokens,
            last_hidden,
            proposal_hidden,
            block_hidden,
            committed_rows,
        )
        &&& self.next_input == block_tokens[committed_rows - 1]
        &&& self.next_hidden@ == row_of(block_hidden, width, committed_rows - 1)
    }
}

pub(crate) fn single(token: i32, hidden: Vec<u16>) -> (out: StateBatch)
    ensures
        out@ == transition(token, hidden@),
{
    let mut tokens: Vec<i32> = Vec::new();
    tokens.push(token);
    assert(tokens@ =~= seq![token]);
    StateBatch { tokens, hidden }
}

/// Puts tokens on the rows that words are cut into.
fn pair_rows(tokens: &[i32], words: &[u16], width: usize) -> (out: Vec<StateBatch>)
    requires
        width > 0,
    ensures
        batch_views(out@) == paired(tokens@, cut_rows(words@, width as int)),
{
    let ghost rows = cut_rows(words@, width as int);
    let mut out: Vec<StateBatch> = Vec::new();
    let mut start: usize = 0;
    assert(words@.skip(0) =~= words@);
    while out.len() < tokens.len() && start < words.len()
        invariant
            width > 0,
            rows == cut_rows(words@, width as int),
            start <= words@.len(),
            out@.len() <= tokens@.len(),
            out@.len() <= rows.len(),
            rows.skip(out@.len() as int) == cut_rows(words@.skip(start as int), width as int),
            batch_views(out@) =~= paired(tokens@.take(out@.len() as int), rows),
        decreases tokens@.len() - out@.len(),
    {
        let ghost rest = words@.skip(start as int);
        let ghost done = out@.len() as int;
        let ghost before = out@;
        let length: usize = if words.len() - start <= width { words.len() - start } else { width };
        let row = slice_to_vec(slice_subrange(words, start, start + length));
        let next = single(tokens[out.len()], row);
        proof {
            assert(row@ =~= rest.take(length as int));
            assert(rest.take(rest.len() as int) =~= rest);
            assert(cut_rows(rest, width as int)[0] == row@);
            assert(rest.len() > 0);
            assert(rows.skip(done).len() >= 1);
            assert(rows.skip(done).len() == rows.len() - done);
            assert(rows.skip(done)[0] == rows[done]);
            assert(words@.skip(start + length) =~= rest.skip(length as int));
            assert(rest.skip(rest.len() as int).len() == 0);
            assert(cut_rows(rest.skip(length as int), width as int) =~= cut_rows(
                rest,
                width as int,
            ).skip(1));
            assert(rows.skip(done + 1) =~= rows.skip(done).skip(1));
        }
        out.push(next);
        start = start + length;
        assert(batch_views(out@) =~= batch_views(before).push(next@));
    }
    proof {
        assert(start == words@.len() ==> rows.skip(out@.len() as int).len() == 0);
        assert(batch_views(out@) =~= paired(tokens@, rows));
    }
    out
}

/// Plans how the draft requests resolve a block to `committed_input_rows` rows.
pub fn resolve_plan(
    committed_input_rows: usize,
    target_first: i32,
    draft_tokens: &[u32],
    last_target_hidden: &[u16],
    proposal_hidden: &[u16],
    block_tokens: &[i32],
    block_hidden: &[u16],
) -> (out: ResolvePlan)
    requires
        1 <= committed_input_rows <= DRAFT_WIDTH + 1,
        draft_tokens@.len() == DRAFT_WIDTH,
        all_fit_i32(draft_tokens@),
        last_target_hidden@.len() > 0,
        block_tokens@.len() >= committed_input_rows,
        block_hidden@.len() >= committed_input_rows * last_target_hidden@.len(),
    ensures
        out.resolves(
            committed_input_rows as int,
            target_first,
            draft_tokens@,
            last_target_hidden@,
            proposal_hidden@,
            block_tokens@,
            block_hidden@,
        ),
{
    let width: usize = last_target_hidden.len();
    let accepted: usize = committed_input_rows - 1;
    assert(draft_tokens@[0] <= i32::MAX && draft_tokens@[1] <= i32::MAX);
    proof {
        let c: int = committed_input_rows as int;
        assert(0 <= (c - 1) * width && (c - 1) * width + width == c * width && (c >= 3 ==> 2 * width
            <= c * width)) by (nonlinear_arith)
            requires
                c >= 1,
                width >= 0,
        ;
    }
    assert(committed_input_rows * width <= block_hidden.len());
    let rewinds: usize = if accepted < DRAFT_WIDTH { DRAFT_WIDTH - committed_input_rows } else { 0 };
    let bonus: Option<StateBatch> = if accepted < DRAFT_WIDTH {
        None
    } else {
        Some(
            single(
                draft_tokens[1] as i32,
                slice_to_vec(slice_subrange(block_hidden, width, width + width)),
            ),
        )
    };
    let mut tokens: Vec<i32> = Vec::new();
    tokens.push(target_first);
    let mut words: Vec<u16> = slice_to_vec(last_target_hidden);
    if accepted >= 1 {
        tokens.push(draft_tokens[0] as i32);
        push_words(&mut words, proposal_hidden);
    }
    if accepted >= 2 {
        tokens.push(draft_tokens[1] as i32);
        push_words(&mut words, slice_subrange(block_hidden, width, width + width));
    }
    assert(tokens@ =~= seq![target_first] + signed_tokens(draft_tokens@.take(accepted as int)));
    assert(words@ =~= committed_words(
        last_target_hidden@,
        proposal_hidden@,
        block_hidden@,
        committed_input_rows as int,
    ));
    let committed = pair_rows(tokens.as_slice(), words.as_slice(), width);
    let start: usize = accepted * width;
    ResolvePlan {
        rewinds,
        bonus,
        committed,
        next_input: block_tokens[accepted],
        next_hidden: slice_to_vec(slice_subrange(block_hidden, start, start + width)),
    }
}

proof fn whole_rows_are_cut_apart(a: Seq<u16>, b: Seq<u16>, c: Seq<u16>)
    requires
        a.len() > 0,
        b.len() == a.len(),
        c.len() == a.len(),
    ensures
        cut_rows(a, a.len() as int) == seq![a],
        cut_rows(a + b, a.len() as int) == seq![a, b],
        cut_rows(a + b + c, a.len() as int) == seq![a, b, c],
{
    let width = a.len() as int;
    reveal_with_fuel(cut_rows, 4);
    assert((a + b).take(width) =~= a && (a + b).skip(width) =~= b);
    assert((a + b + c).take(width) =~= a && (a + b + c).skip(width) =~= b + c);
    assert((b + c).take(width) =~= b && (b + c).skip(width) =~= c);
    assert(cut_rows(a + b, width) =~= seq![a, b]);
    assert(cut_rows(a + b + c, width) =~= seq![a, b, c]);
}

/// Resolving to a number of rows commits the target's token on its own hidden row, the first draft on
/// the row of the proposal, and the second draft on the target's row before it. One row of the
/// proposal is taken back where only the first row is committed, and the third row is added where all
/// are. Both requests go on from the target's row of the last committed input.
pub proof fn resolved_rows_stand_on_their_hidden_rows(
    committed: usize,
    target_first: i32,
    drafts: &[u32],
    last_hidden: &[u16],
    proposal_hidden: &[u16],
    block_tokens: &[i32],
    block_hidden: &[u16],
    plan: ResolvePlan,
    column: int,
)
    requires
        1 <= committed <= 3,
        drafts@.len() == 2,
        all_fit_i32(drafts@),
        last_hidden@.len() > 0,
        proposal_hidden@.len() == last_hidden@.len(),
        block_tokens@.len() >= committed,
        block_hidden@.len() == 3 * last_hidden@.len(),
        call_ensures(
            resolve_plan,
            (
                committed,
                target_first,
                drafts,
                last_hidden,
                proposal_hidden,
                block_tokens,
                block_hidden,
            ),
            plan,
        ),
        0 <= column < last_hidden@.len(),
    ensures
        ({
            let width = last_hidden@.len();
            let rows = plan.committed@;
            &&& rows.len() == committed
            &&& rows[0].tokens@ == seq![target_first]
            &&& rows[0].hidden@ == last_hidden@
            &&& committed >= 2 ==> rows[1].tokens@ == seq![drafts@[0] as i32] && rows[1].hidden@
                == proposal_hidden@
            &&& committed == 3 ==> rows[2].tokens@ == seq![drafts@[1] as i32]
                && rows[2].hidden@.len() == width && rows[2].hidden@[column] == block_hidden@[width
                + column]
            &&& plan.rewinds == if committed == 1 {
                1int
            } else {
                0
            }
            &&& plan.bonus is Some <==> committed == 3
            &&& plan.bonus matches Some(bonus) ==> bonus@ == rows[2]@
            &&& plan.next_input == block_tokens@[committed - 1]
            &&& plan.next_hidden@.len() == width
            &&& plan.next_hidden@[column] == block_hidden@[(committed - 1) * width + column]
        }),
{
    let width = last_hidden@.len() as int;
    let c = committed as int;
    assert(0 <= (c - 1) * width && (c - 1) * width + width <= 3 * width) by (nonlinear_arith)
        requires
            1 <= c <= 3,
            width > 0,
    ;
    let third = row_of(block_hidden@, width, 1);
    whole_rows_are_cut_apart(last_hidden@, proposal_hidden@, third);
    let words = committed_words(last_hidden@, proposal_hidden@, block_hidden@, c);
    if c == 1 {
        assert(words =~= last_hidden@);
    } else if c == 2 {
        assert(words =~= last_hidden@ + proposal_hidden@);
    } else {
        assert(words =~= last_hidden@ + proposal_hidden@ + third);
    }
    let views = batch_views(plan.committed@);
    assert(views.len() == c);
    assert forall|i: int| 0 <= i < c implies views[i] == #[trigger] plan.committed@[i]@ by {}
    assert(views[0] == plan.committed@[0]@);
    assert(c >= 2 ==> views[1] == plan.committed@[1]@);
    assert(c == 3 ==> views[2] == plan.committed@[2]@);
}

/// Rewinding and realigning leaves the optimized request with exactly the transitions that the
/// sequential request makes: what is left of the proposal, then the added one. The proposal's
/// hidden row is as wide as the target's.
pub proof fn optimized_and_sequential_transitions_agree(
    plan: ResolvePlan,
    committed_rows: int,
    target_first: i32,
    draft_tokens: Seq<u32>,
    last_hidden: Seq<u16>,
    proposal_hidden: Seq<u16>,
    block_tokens: Seq<i32>,
    block_hidden: Seq<u16>,
)
    requires
        1 <= committed_rows <= DRAFT_WIDTH + 1,
        draft_tokens.len() == DRAFT_WIDTH,
        last_hidden.len() > 0,
        proposal_hidden.len() == last_hidden.len(),
        block_hidden.len() >= committed_rows * last_hidden.len(),
        plan.resolves(
            committed_rows,
            target_first,
            draft_tokens,
            last_hidden,
            proposal_hidden,
            block_tokens,
            block_hidden,
        ),
    ensures
        ({
            let kept = proposal_transitions(
                target_first,
                draft_tokens,
                last_hidden,
                proposal_hidden,
            ).take(DRAFT_WIDTH - plan.rewinds);
            batch_views(plan.committed@) == match batch_opt(plan.bonus) {
                Some(bonus) => kept.push(bonus),
                None => kept,
            }
        }),
        batch_views(plan.committed@).len() == committed_rows,
{
    let kept = proposal_transitions(target_first, draft_tokens, last_hidden, proposal_hidden).take(
        DRAFT_WIDTH - plan.rewinds,
    );
    let width = last_hidden.len() as int;
    let words = committed_words(last_hidden, proposal_hidden, block_hidden, committed_rows);
    let rows = cut_rows(words, width);
    reveal_with_fuel(cut_rows, 4);
    assert(words.take(width) =~= last_hidden);
    if committed_rows == 1 {
        assert(rows =~= seq![last_hidden]);
    } else if committed_rows == 2 {
        assert(words.skip(width) =~= proposal_hidden);
        assert(rows =~= seq![last_hidden, proposal_hidden]);
    } else {
        let third = row_of(block_hidden, width, 1);
        assert(committed_rows == 3 && block_hidden.len() >= 3 * width);
        assert(third.len() == width);
        assert(words.skip(width) =~= proposal_hidden + third);
        assert((proposal_hidden + third).take(width) =~= proposal_hidden);
        assert((proposal_hidden + third).skip(width) =~= third);
        assert(rows =~= seq![last_hidden, proposal_hidden, third]);
    }
    match batch_opt(plan.bonus) {
        Some(bonus) => {
            assert(batch_views(plan.committed@) =~= kept.push(bonus));
        },
        None => {
            assert(batch_views(plan.committed@) =~= kept);
        },
    }
}

/// A replayed row goes on exactly where it selects the draft that stands in its place and left a hidden
/// row: the next row runs on that token and on that hidden row.
pub proof fn replayed_rows_repeat_their_drafts(
    row: usize,
    selected: Option<u32>,
    draft_tokens: &[u32],
    hidden: Option<&[u16]>,
    out: Result<(i32, Vec<u16>), String>,
)
    requires
        call_ensures(check_proposal_row, (row, selected, draft_tokens, hidden), out),
    ensures
        out is Ok <==> {
            &&& row < draft_tokens@.len()
            &&& selected == Some(draft_tokens@[row as int])
            &&& hidden is Some
            &&& draft_tokens@[row as int] < 0x8000_0000
        },
        out matches Ok(next) ==> Some(next.0 as u32) == selected && next.0 >= 0 && next.1@
            == hidden->Some_0@,
{
}

} // verus!
