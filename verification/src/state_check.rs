//! The catch-up state check: a draft request that rewinds its proposal and takes the accepted rows
//! in one batch must end in the very state that the same rows give one by one.
use crate::bytes::push_words;
use crate::catch_up::row_of;
use crate::mtp_path::DRAFT_WIDTH;
use crate::number::{f32_is_finite, f32_rank, is_finite_f32, rank_f32};
use crate::text::{append_decimal, decimal, push_text, signed_decimal, signed_decimal_string, texts};
use vstd::prelude::*;
use vstd::slice::{slice_subrange, slice_to_vec};
use vstd::string::StringExecFns;

verus! {

broadcast use vstd::string::group_string_axioms;

/// Why two rows of logits cannot be compared.
#[derive(Clone, Copy, Debug, PartialEq, Eq, Structural)]
pub enum LogitRefusal {
    Length { left: usize, right: usize },
    NonFinite { index: usize },
}

/// The first place from `from` on where a logit is not finite, or the length.
pub open spec fn first_nonfinite_logit(left: Seq<u32>, right: Seq<u32>, from: int) -> int
    decreases left.len() - from,
{
    if from >= left.len() {
        left.len() as int
    } else if !f32_is_finite(left[from]) || !f32_is_finite(right[from]) {
        from
    } else {
        first_nonfinite_logit(left, right, from + 1)
    }
}

/// The first place from `from` on where the logits differ in value, or the length.
pub open spec fn first_logit_difference(left: Seq<u32>, right: Seq<u32>, from: int) -> int
    decreases left.len() - from,
{
    if from >= left.len() {
        left.len() as int
    } else if f32_rank(left[from]) != f32_rank(right[from]) {
        from
    } else {
        first_logit_difference(left, right, from + 1)
    }
}

/// Why two rows of logits cannot be compared, if they cannot.
pub open spec fn logit_refusal(left: Seq<u32>, right: Seq<u32>) -> Option<LogitRefusal> {
    let at = first_nonfinite_logit(left, right, 0);
    if left.len() != right.len() {
        Some(LogitRefusal::Length { left: left.len() as usize, right: right.len() as usize })
    } else if at < left.len() {
        Some(LogitRefusal::NonFinite { index: at as usize })
    } else {
        None
    }
}

/// The place of the first difference in value, if there is one.
pub open spec fn logit_mismatch(left: Seq<u32>, right: Seq<u32>) -> Option<usize> {
    let at = first_logit_difference(left, right, 0);
    if at < left.len() {
        Some(at as usize)
    } else {
        None
    }
}

/// Compares two rows of finite logits in value: the place of their first difference.
pub fn float_diff(left: &[u32], right: &[u32]) -> (out: Result<Option<usize>, LogitRefusal>)
    ensures
        match logit_refusal(left@, right@) {
            Some(refusal) => out == Err::<Option<usize>, LogitRefusal>(refusal),
            None => out == Ok::<Option<usize>, LogitRefusal>(logit_mismatch(left@, right@)),
        },
{
    if left.len() != right.len() {
        return Err(LogitRefusal::Length { left: left.len(), right: right.len() });
    }
    let mut first: Option<usize> = None;
    for i in 0..left.len()
        invariant
            left@.len() == right@.len(),
            first_nonfinite_logit(left@, right@, 0) == first_nonfinite_logit(
                left@,
                right@,
                i as int,
            ),
            match first {
                Some(at) => at < i && at == first_logit_difference(left@, right@, 0),
                None => first_logit_difference(left@, right@, 0) == first_logit_difference(
                    left@,
                    right@,
                    i as int,
                ),
            },
    {
        if !is_finite_f32(left[i]) || !is_finite_f32(right[i]) {
            return Err(LogitRefusal::NonFinite { index: i });
        }
        if rank_f32(left[i]) != rank_f32(right[i]) && first.is_none() {
            first = Some(i);
        }
    }
    Ok(first)
}

pub(crate) proof fn first_logit_places(left: Seq<u32>, right: Seq<u32>, from: int)
    requires
        left.len() == right.len(),
        0 <= from <= left.len(),
    ensures
        ({
            let at = first_logit_difference(left, right, from);
            &&& from <= at <= left.len()
            &&& at < left.len() ==> f32_rank(left[at]) != f32_rank(right[at])
            &&& forall|i: int|
                from <= i < at ==> f32_rank(#[trigger] left[i]) == f32_rank(right[i])
        }),
        ({
            let at = first_nonfinite_logit(left, right, from);
            &&& from <= at <= left.len()
            &&& at < left.len() ==> !f32_is_finite(left[at]) || !f32_is_finite(right[at])
            &&& forall|i: int|
                from <= i < at ==> f32_is_finite(#[trigger] left[i]) && f32_is_finite(right[i])
        }),
    decreases left.len() - from,
{
    if from < left.len() {
        first_logit_places(left, right, from + 1);
    }
}

/// Two rows of logits agree just where they have the same values at every place; else the first place
/// that differs is named. Rows of unlike length or with a value that is not finite are refused.
pub proof fn logits_agree_where_all_values_do(
    left: &[u32],
    right: &[u32],
    out: Result<Option<usize>, LogitRefusal>,
    at: int,
)
    requires
        call_ensures(float_diff, (left, right), out),
        0 <= at < left@.len() <= usize::MAX,
        right@.len() <= usize::MAX,
    ensures
        out is Ok ==> left@.len() == right@.len() && f32_is_finite(left@[at]) && f32_is_finite(
            right@[at],
        ),
        out matches Ok(None) ==> f32_rank(left@[at]) == f32_rank(right@[at]),
        out matches Ok(Some(place)) ==> {
            &&& place < left@.len()
            &&& f32_rank(left@[place as int]) != f32_rank(right@[place as int])
            &&& at < place ==> f32_rank(left@[at]) == f32_rank(right@[at])
        },
        out matches Err(LogitRefusal::NonFinite { index }) ==> {
            &&& left@.len() == right@.len()
            &&& index < left@.len()
            &&& !f32_is_finite(left@[index as int]) || !f32_is_finite(right@[index as int])
            &&& at < index ==> f32_is_finite(left@[at]) && f32_is_finite(right@[at])
        },
        out matches Err(LogitRefusal::Length { left: a, right: b }) ==> a == left@.len() && b
            == right@.len() && a != b,
{
    if left@.len() == right@.len() {
        first_logit_places(left@, right@, 0);
    }
}

/// The message of a refusal; `left` and `right` are the two values as text.
pub open spec fn logit_message(refusal: LogitRefusal, left: Seq<char>, right: Seq<char>) -> Seq<
    char,
> {
    match refusal {
        LogitRefusal::Length { left: a, right: b } => "next proposal logits length differs: "@
            + decimal(a as nat) + " vs "@ + decimal(b as nat),
        LogitRefusal::NonFinite { index } => "non-finite next proposal logit at index "@ + decimal(
            index as nat,
        ) + ": left="@ + left + " right="@ + right,
    }
}

/// The message of a refusal; `left` and `right` are the two values as text.
pub fn logit_refusal_message(refusal: LogitRefusal, left: &str, right: &str) -> (out: String)
    ensures
        out@ == logit_message(refusal, left@, right@),
{
    match refusal {
        LogitRefusal::Length { left: a, right: b } => {
            let mut message = "next proposal logits length differs: ".to_owned();
            append_decimal(&mut message, a as u64);
            message.append(" vs ");
            append_decimal(&mut message, b as u64);
            message
        },
        LogitRefusal::NonFinite { index } => {
            let mut message = "non-finite next proposal logit at index ".to_owned();
            append_decimal(&mut message, index as u64);
            message.append(": left=");
            message.append(left);
            message.append(" right=");
            message.append(right);
            message
        },
    }
}

/// Refuses target rows over a prompt that are not one row each.
pub fn check_prefill_shape(prompt_len: usize, hidden_len: usize, hidden_width: usize) -> (out:
    Result<(), String>)
    ensures
        if hidden_len != prompt_len * hidden_width {
            out is Err && out->Err_0@ == "target prefill hidden shape differs from prompt rows"@
        } else {
            out is Ok
        },
{
    let fits = match prompt_len.checked_mul(hidden_width) {
        Some(expected) => hidden_len == expected,
        None => false,
    };
    if fits {
        Ok(())
    } else {
        Err("target prefill hidden shape differs from prompt rows".to_owned())
    }
}

/// The message that refuses a target block, if there is one.
pub open spec fn block_shape_refusal(
    inputs: nat,
    hidden_len: nat,
    tokens: nat,
    hidden_width: nat,
) -> Option<Seq<char>> {
    if hidden_len != inputs * hidden_width {
        Some("target block hidden row count differs from draft width"@)
    } else if tokens != inputs {
        Some("target block token rows differ from draft width"@)
    } else {
        None
    }
}

/// Refuses a target block without one hidden row and one token for each input.
pub fn check_block_shape(inputs: usize, hidden_len: usize, tokens: usize, hidden_width: usize) -> (out:
    Result<(), String>)
    ensures
        match block_shape_refusal(
            inputs as nat,
            hidden_len as nat,
            tokens as nat,
            hidden_width as nat,
        ) {
            Some(message) => out is Err && out->Err_0@ == message,
            None => out is Ok,
        },
{
    let fits = match inputs.checked_mul(hidden_width) {
        Some(expected) => hidden_len == expected,
        None => false,
    };
    if !fits {
        Err("target block hidden row count differs from draft width".to_owned())
    } else if tokens != inputs {
        Err("target block token rows differ from draft width".to_owned())
    } else {
        Ok(())
    }
}

/// The hidden rows that the inputs of a block are conditioned on: the last row of the prompt,
/// then all rows of the block but the last.
pub open spec fn conditioning_rows(last_hidden: Seq<u16>, block_hidden: Seq<u16>) -> Seq<u16> {
    last_hidden + block_hidden.take(DRAFT_WIDTH * last_hidden.len())
}

/// The hidden rows that the inputs of a block are conditioned on.
pub fn target_hidden_rows(last_hidden: &[u16], block_hidden: &[u16]) -> (out: Vec<u16>)
    requires
        block_hidden@.len() == (DRAFT_WIDTH + 1) * last_hidden@.len(),
    ensures
        out@ == conditioning_rows(last_hidden@, block_hidden@),
        out@.len() == (DRAFT_WIDTH + 1) * last_hidden@.len(),
{
    let width: usize = last_hidden.len();
    assert(block_hidden.len() == 3 * width);
    let mut rows: Vec<u16> = slice_to_vec(last_hidden);
    let front = slice_subrange(block_hidden, 0, 2 * width);
    push_words(&mut rows, front);
    assert(rows@ =~= conditioning_rows(last_hidden@, block_hidden@));
    rows
}

/// What catching up on a number of accepted drafts takes: the accepted inputs on their rows, and
/// the step that both requests then make.
#[derive(Debug)]
pub struct CatchUpPlan {
    pub rows: usize,
    pub tokens: Vec<i32>,
    pub hidden: Vec<u16>,
    pub next_input: i32,
    pub next_hidden: Vec<u16>,
}

impl CatchUpPlan {
    /// The plan for a number of rows.
    pub open spec fn plans(
        self,
        rows: int,
        inputs: Seq<i32>,
        hidden_rows: Seq<u16>,
        block_tokens: Seq<i32>,
        block_hidden: Seq<u16>,
        width: int,
    ) -> bool {
        &&& self.rows == rows
        &&& self.tokens@ == inputs.take(rows)
        &&& self.hidden@ == hidden_rows.take(rows * width)
        &&& self.next_input == block_tokens[rows - 1]
        &&& self.next_hidden@ == row_of(block_hidden, width, rows - 1)
    }
}

/// Plans the catch-up on a number of rows, from one up to all inputs of the block.
pub fn catch_up_plan(
    rows: usize,
    inputs: &[i32],
    hidden_rows: &[u16],
    block_tokens: &[i32],
    block_hidden: &[u16],
    width: usize,
) -> (out: CatchUpPlan)
    requires
        1 <= rows <= DRAFT_WIDTH + 1,
        inputs@.len() == DRAFT_WIDTH + 1,
        block_tokens@.len() == DRAFT_WIDTH + 1,
        hidden_rows@.len() == (DRAFT_WIDTH + 1) * width,
        block_hidden@.len() == (DRAFT_WIDTH + 1) * width,
    ensures
        out.plans(
            rows as int,
            inputs@,
            hidden_rows@,
            block_tokens@,
            block_hidden@,
            width as int,
        ),
{
    assert(hidden_rows.len() == 3 * width && block_hidden.len() == 3 * width);
    proof {
        let r: int = rows as int;
        assert(0 <= (r - 1) * width && (r - 1) * width + width == r * width && r * width <= 3
            * width) by (nonlinear_arith)
            requires
                1 <= r <= 3,
                width >= 0,
        ;
    }
    let end: usize = rows * width;
    let start: usize = (rows - 1) * width;
    let tokens = slice_to_vec(slice_subrange(inputs, 0, rows));
    let hidden = slice_to_vec(slice_subrange(hidden_rows, 0, end));
    assert(inputs@.subrange(0, rows as int) =~= inputs@.take(rows as int));
    assert(hidden_rows@.subrange(0, end as int) =~= hidden_rows@.take(end as int));
    CatchUpPlan {
        rows,
        tokens,
        hidden,
        next_input: block_tokens[rows - 1],
        next_hidden: slice_to_vec(slice_subrange(block_hidden, start, start + width)),
    }
}

/// A catch-up feeds the inputs in order, each on the target's hidden row of the token before it: the
/// first on the last row of the prompt, each later one on the row that the block gave for its
/// predecessor. Both requests then go on from the last row that was fed, with the token that the
/// block gave there.
pub proof fn caught_up_rows_lead_by_one(
    rows: usize,
    inputs: &[i32],
    last_hidden: &[u16],
    block_tokens: &[i32],
    block_hidden: &[u16],
    hidden_rows: Vec<u16>,
    given: &[u16],
    plan: CatchUpPlan,
    row: int,
    column: int,
)
    requires
        1 <= rows <= 3,
        inputs@.len() == 3,
        block_tokens@.len() == 3,
        block_hidden@.len() == 3 * last_hidden@.len(),
        last_hidden@.len() <= usize::MAX,
        call_ensures(target_hidden_rows, (last_hidden, block_hidden), hidden_rows),
        given@ == hidden_rows@,
        call_ensures(
            catch_up_plan,
            (rows, inputs, given, block_tokens, block_hidden, last_hidden@.len() as usize),
            plan,
        ),
        0 <= row < rows,
        0 <= column < last_hidden@.len(),
    ensures
        ({
            let width = last_hidden@.len();
            &&& plan.rows == rows
            &&& plan.tokens@.len() == rows
            &&& plan.tokens@[row] == inputs@[row]
            &&& plan.hidden@.len() == rows * width
            &&& row == 0 ==> plan.hidden@[column] == last_hidden@[column]
            &&& row > 0 ==> plan.hidden@[row * width + column] == block_hidden@[(row - 1) * width
                + column]
            &&& plan.next_input == block_tokens@[rows - 1]
            &&& plan.next_hidden@.len() == width
            &&& plan.next_hidden@[column] == block_hidden@[(rows - 1) * width + column]
        }),
{
    let width = last_hidden@.len() as int;
    let r = rows as int;
    assert(0 <= (r - 1) * width && (r - 1) * width + width == r * width && r * width <= 3 * width)
        by (nonlinear_arith)
        requires
            1 <= r <= 3,
            width >= 0,
    ;
    assert(0 <= row * width && row * width + column < r * width && (row > 0 ==> row * width >= width
        && (row - 1) * width == row * width - width)) by (nonlinear_arith)
        requires
            0 <= row < r,
            0 <= column < width,
    ;
}

/// How a batch of all rows is cut back to some of them.
#[derive(Clone, Copy, Debug, PartialEq, Eq, Structural)]
pub struct TruncationPlan {
    pub from_rows: usize,
    pub to_rows: usize,
    pub rewind_rows: usize,
    pub expected_length: u64,
}

impl TruncationPlan {
    /// The plan for a number of rows behind a base length.
    pub open spec fn cuts(self, to_rows: int, base_length: int) -> bool {
        &&& self.from_rows == DRAFT_WIDTH + 1
        &&& self.to_rows == to_rows
        &&& self.rewind_rows == DRAFT_WIDTH + 1 - to_rows
        &&& self.expected_length == base_length + to_rows
    }
}

/// Plans the cut from all rows of a block to `to_rows` of them.
pub fn truncation_plan(to_rows: usize, base_length: u64) -> (out: Result<TruncationPlan, String>)
    requires
        base_length + DRAFT_WIDTH <= u64::MAX,
    ensures
        if 1 <= to_rows <= DRAFT_WIDTH {
            out is Ok && out->Ok_0.cuts(to_rows as int, base_length as int)
        } else {
            out is Err && out->Err_0@ == "invalid truncation row count: "@ + decimal(
                to_rows as nat,
            )
        },
{
    if to_rows < 1 || to_rows > DRAFT_WIDTH {
        let mut message = "invalid truncation row count: ".to_owned();
        append_decimal(&mut message, to_rows as u64);
        return Err(message);
    }
    Ok(
        TruncationPlan {
            from_rows: DRAFT_WIDTH + 1,
            to_rows,
            rewind_rows: DRAFT_WIDTH + 1 - to_rows,
            expected_length: base_length + to_rows as u64,
        },
    )
}

/// A batch of three rows is cut to one or two of them and to no other number; what is rewound and
/// what is left make up the batch.
pub proof fn cuts_leave_one_or_two_rows(
    to_rows: usize,
    base_length: u64,
    out: Result<TruncationPlan, String>,
)
    requires
        base_length + 2 <= u64::MAX,
        call_ensures(truncation_plan, (to_rows, base_length), out),
    ensures
        out is Ok <==> to_rows == 1 || to_rows == 2,
        out matches Ok(plan) ==> {
            &&& plan.from_rows == 3
            &&& plan.to_rows == to_rows
            &&& plan.to_rows + plan.rewind_rows == 3
            &&& plan.expected_length - base_length == to_rows
        },
{
}

/// Rewinding a batch of all rows by a plan's rows leaves the rows that the plan cuts to, at the
/// length that it expects.
pub proof fn truncation_keeps_the_front(
    plan: TruncationPlan,
    to_rows: int,
    base_length: int,
    inputs: Seq<i32>,
    hidden_rows: Seq<u16>,
    width: int,
)
    requires
        1 <= to_rows <= DRAFT_WIDTH,
        plan.cuts(to_rows, base_length),
        inputs.len() == DRAFT_WIDTH + 1,
        hidden_rows.len() == (DRAFT_WIDTH + 1) * width,
        width >= 0,
    ensures
        inputs.take(inputs.len() - plan.rewind_rows) == inputs.take(to_rows),
        hidden_rows.take(hidden_rows.len() - plan.rewind_rows * width) == hidden_rows.take(
            to_rows * width,
        ),
        base_length + inputs.len() - plan.rewind_rows == plan.expected_length,
{
    assert((DRAFT_WIDTH + 1) * width - plan.rewind_rows * width == to_rows * width)
        by (nonlinear_arith)
        requires
            plan.rewind_rows == DRAFT_WIDTH + 1 - to_rows,
    ;
}

/// The message on a replayed draft row of a truncation that selects another token.
pub open spec fn truncation_replay_message(row: nat, observed: i32, expected: i32) -> Seq<char> {
    "truncation draft replay row "@ + decimal(row) + ": observed "@ + signed_decimal(
        observed as int,
    ) + ", expected "@ + signed_decimal(expected as int)
}

/// Refuses a replayed draft row of a truncation that selects another token than before.
pub fn check_truncation_replay(row: usize, observed: i32, expected: i32) -> (out: Result<
    (),
    String,
>)
    ensures
        if observed != expected {
            out is Err && out->Err_0@ == truncation_replay_message(row as nat, observed, expected)
        } else {
            out is Ok
        },
{
    if observed != expected {
        let mut message = "truncation draft replay row ".to_owned();
        append_decimal(&mut message, row as u64);
        message.append(": observed ");
        let a = signed_decimal_string(observed);
        message.append(a.as_str());
        message.append(", expected ");
        let b = signed_decimal_string(expected);
        message.append(b.as_str());
        Err(message)
    } else {
        Ok(())
    }
}

/// The message on a replayed draft row that selects another token.
pub open spec fn replay_message(row: nat, observed: i32, expected: i32) -> Seq<char> {
    "draft replay row "@ + decimal(row) + " selected "@ + signed_decimal(observed as int)
        + ", expected "@ + signed_decimal(expected as int)
}

/// Records a replayed draft row: a failure where it selects another token than before.
pub fn record_replay(failures: &mut Vec<String>, row: usize, observed: i32, expected: i32)
    ensures
        texts(final(failures)@) == if observed != expected {
            texts(old(failures)@).push(replay_message(row as nat, observed, expected))
        } else {
            texts(old(failures)@)
        },
{
    if observed != expected {
        let mut message = "draft replay row ".to_owned();
        append_decimal(&mut message, row as u64);
        message.append(" selected ");
        let a = signed_decimal_string(observed);
        message.append(a.as_str());
        message.append(", expected ");
        let b = signed_decimal_string(expected);
        message.append(b.as_str());
        push_text(failures, message);
    }
}

/// Records a rewind: a failure where it does not lead back to the base length.
pub fn record_rewind(failures: &mut Vec<String>, observed: u64, base: u64)
    ensures
        texts(final(failures)@) == if observed != base {
            texts(old(failures)@).push(
                "draft rewind restored "@ + decimal(observed as nat) + " rows, expected base "@
                    + decimal(base as nat),
            )
        } else {
            texts(old(failures)@)
        },
{
    if observed != base {
        let mut message = "draft rewind restored ".to_owned();
        append_decimal(&mut message, observed);
        message.append(" rows, expected base ");
        append_decimal(&mut message, base);
        push_text(failures, message);
    }
}

/// Refuses a proposal that its rewinds do not lead back to the base length.
pub fn check_rewind(observed: u64, base: u64) -> (out: Result<(), String>)
    ensures
        if observed != base {
            out is Err && out->Err_0@ == "rewind did not restore base length: "@ + decimal(
                observed as nat,
            ) + " vs "@ + decimal(base as nat)
        } else {
            out is Ok
        },
{
    if observed != base {
        let mut message = "rewind did not restore base length: ".to_owned();
        append_decimal(&mut message, observed);
        message.append(" vs ");
        append_decimal(&mut message, base);
        Err(message)
    } else {
        Ok(())
    }
}

/// A target block is accepted just where it has one token and one hidden row for each input.
pub proof fn blocks_have_a_row_for_each_input(
    inputs: usize,
    hidden_len: usize,
    tokens: usize,
    width: usize,
    out: Result<(), String>,
)
    requires
        call_ensures(check_block_shape, (inputs, hidden_len, tokens, width), out),
    ensures
        out is Ok <==> tokens == inputs && hidden_len == inputs * width,
{
}

/// A replayed token and a restored length are recorded exactly where they differ from what was expected,
/// and refused exactly there.
pub proof fn only_differences_are_recorded(
    replayed: &mut Vec<String>,
    row: usize,
    observed: i32,
    expected: i32,
    rewound: &mut Vec<String>,
    length: u64,
    base: u64,
    token: Result<(), String>,
    rewind: Result<(), String>,
)
    requires
        call_ensures(record_replay, (replayed, row, observed, expected), ()),
        call_ensures(record_rewind, (rewound, length, base), ()),
        call_ensures(check_truncation_replay, (row, observed, expected), token),
        call_ensures(check_rewind, (length, base), rewind),
    ensures
        final(replayed)@.len() == old(replayed)@.len() + if observed == expected {
            0int
        } else {
            1
        },
        final(rewound)@.len() == old(rewound)@.len() + if length == base {
            0int
        } else {
            1
        },
        token is Ok <==> observed == expected,
        rewind is Ok <==> length == base,
{
    assert(texts(final(replayed)@).len() == final(replayed)@.len());
    assert(texts(old(replayed)@).len() == old(replayed)@.len());
    assert(texts(final(rewound)@).len() == final(rewound)@.len());
    assert(texts(old(rewound)@).len() == old(rewound)@.len());
}

} // verus!
