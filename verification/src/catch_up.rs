//! Teacher-forced catch-up runs: the width-two block decision, the plans that prime and realign
//! the draft state, the per-entry ledger and the final verdict.
use crate::digest::{digest, digest_of};
use crate::number::{bf16_to_f32, f32_is_finite, f32_rank, is_finite_f32, rank_f32, widened};
use crate::text::{
    ascii_lower, ascii_lowered, begins_with, chars_of, decimal, decimal_round_trip, is_digit, joined,
    lowered_chars, pieces_are_added, pieces_between, pieces_without_separator, same_chars, same_text,
    signed_decimal, signed_decimal_string, starts_with,
};
use vstd::prelude::*;
use vstd::string::StringExecFns;

verus! {

broadcast use vstd::string::group_string_axioms;

/// The number of draft rows in a forced block.
pub const WIDTH: usize = 2;

/// A digest text without its `sha256:` prefix, in lower case.
pub open spec fn bare_digest(s: Seq<char>) -> Seq<char> {
    ascii_lowered(if begins_with(s, "sha256:"@) { s.skip("sha256:"@.len() as int) } else { s })
}

fn bare_digest_chars(s: &str) -> (out: Vec<char>)
    ensures
        out@ == bare_digest(s@),
{
    proof {
        reveal_strlit("sha256:");
    }
    let text = chars_of(s);
    let from: usize = if starts_with(s, "sha256:") { 7 } else { 0 };
    let mut rest: Vec<char> = Vec::new();
    for i in from..text.len()
        invariant
            from <= text.len(),
            rest@ == text@.subrange(from as int, i as int),
    {
        rest.push(text[i]);
        assert(text@.subrange(from as int, i + 1) =~= text@.subrange(from as int, i as int).push(
            text@[i as int],
        ));
    }
    assert(rest@ =~= text@.skip(from as int));
    assert(text@.skip(0) =~= text@);
    lowered_chars(&rest)
}

/// Whether two digests agree, each with or without the `sha256:` prefix and in any letter case.
pub fn digest_matches(expected: &str, actual_with_prefix: &str) -> (out: bool)
    ensures
        out == (bare_digest(expected@) == bare_digest(actual_with_prefix@)),
{
    let a = bare_digest_chars(expected);
    let b = bare_digest_chars(actual_with_prefix);
    same_chars(&a, &b)
}

/// A digest agrees with its prefixed form, whichever side carries the prefix.
pub proof fn digest_prefix_is_irrelevant(bare: Seq<char>)
    requires
        !begins_with(bare, "sha256:"@),
    ensures
        bare_digest("sha256:"@ + bare) == bare_digest(bare),
{
    reveal_strlit("sha256:");
    let full = "sha256:"@ + bare;
    assert(full.take(7) =~= "sha256:"@);
    assert(full.skip(7) =~= bare);
}

/// The tokens in decimal, separated by commas.
pub open spec fn canonical_text(tokens: Seq<i32>) -> Seq<char>
    decreases tokens.len(),
{
    if tokens.len() == 0 {
        Seq::empty()
    } else if tokens.len() == 1 {
        signed_decimal(tokens[0] as int)
    } else {
        canonical_text(tokens.drop_last()) + ","@ + signed_decimal(tokens.last() as int)
    }
}

fn canonical_string(tokens: &[i32]) -> (out: String)
    ensures
        out@ == canonical_text(tokens@),
{
    let mut out = String::new();
    for i in 0..tokens.len()
        invariant
            out@ == canonical_text(tokens@.take(i as int)),
    {
        assert(tokens@.take(i + 1).drop_last() =~= tokens@.take(i as int));
        if i > 0 {
            out.append(",");
        }
        let number = signed_decimal_string(tokens[i]);
        out.append(number.as_str());
        assert(out@ =~= canonical_text(tokens@.take(i + 1)));
    }
    assert(tokens@.take(tokens.len() as int) =~= tokens@);
    out
}

/// The digest of a token sequence: SHA-256 over its decimal, comma-separated text.
pub fn canonical_sequence_hash(tokens: &[i32]) -> (out: String)
    ensures
        out@ == digest_of(vstd::utf8::encode_utf8(canonical_text(tokens@))),
{
    let canonical = canonical_string(tokens);
    digest(canonical.as_str().as_bytes())
}

/// Whether a run measured anything at all: a block, a target row and a draft row.
pub fn measured_rows_present(blocks: usize, target_rows: usize, draft_rows: usize) -> (out: bool)
    ensures
        out == (blocks > 0 && target_rows > 0 && draft_rows > 0),
{
    blocks > 0 && target_rows > 0 && draft_rows > 0
}

/// What a forced block commits, rewinds and leaves over.
#[derive(Clone, Copy, Debug, PartialEq, Eq, Structural)]
pub struct ForcedBlockDecision {
    pub accepted: usize,
    pub committed_rows: usize,
    pub rewind_rows: usize,
    pub needs_bonus_state: bool,
    pub next_input_start: usize,
    pub tail_tokens_omitted: usize,
}

/// The drafts accepted in order: the second counts only behind the first.
pub open spec fn accepted_in_order(row0_matches: bool, row1_matches: bool) -> nat {
    if !row0_matches {
        0
    } else if !row1_matches {
        1
    } else {
        2
    }
}

impl ForcedBlockDecision {
    /// The decision for `accepted` drafts of the block at `input_start`.
    pub open spec fn decides(self, input_start: int, output_len: int, accepted: int) -> bool {
        &&& self.accepted == accepted
        &&& self.committed_rows == accepted + 1
        &&& self.rewind_rows == if accepted == 0 { 1int } else { 0 }
        &&& self.needs_bonus_state == (accepted == WIDTH)
        &&& self.next_input_start == input_start + accepted + 1
        &&& self.tail_tokens_omitted == output_len - (input_start + accepted + 1)
    }

    /// A decision that some block of a sequence can have.
    pub open spec fn wf(self) -> bool {
        &&& self.accepted <= WIDTH
        &&& self.committed_rows == self.accepted + 1
        &&& self.rewind_rows == if self.accepted == 0 { 1int } else { 0 }
        &&& self.needs_bonus_state == (self.accepted == WIDTH)
        &&& self.next_input_start >= self.committed_rows
    }
}

/// The message that refuses a block, if there is one.
pub open spec fn block_refusal(
    input_start: int,
    output_len: int,
    accepted: int,
) -> Option<Seq<char>> {
    if accepted > WIDTH {
        Some("Phase86 accepted count exceeds forced width"@)
    } else if input_start > output_len {
        Some("Phase86 block input start exceeds output length"@)
    } else if output_len - input_start < WIDTH + 1 {
        Some("Phase86 forced width-two block has an incomplete tail"@)
    } else {
        None
    }
}

/// Decides a block by the number of drafts it accepts.
pub fn forced_block_decision_for_count(
    input_start: usize,
    output_len: usize,
    accepted: usize,
) -> (out: Result<ForcedBlockDecision, String>)
    ensures
        match block_refusal(input_start as int, output_len as int, accepted as int) {
            Some(message) => out is Err && out->Err_0@ == message,
            None => out is Ok && out->Ok_0.wf() && out->Ok_0.decides(
                input_start as int,
                output_len as int,
                accepted as int,
            ),
        },
{
    if accepted > WIDTH {
        return Err("Phase86 accepted count exceeds forced width".to_owned());
    }
    if input_start > output_len {
        return Err("Phase86 block input start exceeds output length".to_owned());
    }
    let remaining: usize = output_len - input_start;
    if remaining < WIDTH + 1 {
        return Err("Phase86 forced width-two block has an incomplete tail".to_owned());
    }
    let committed_rows: usize = accepted + 1;
    let rewind_rows: usize = if WIDTH > committed_rows { WIDTH - committed_rows } else { 0 };
    let next_input_start: usize = input_start + committed_rows;
    Ok(
        ForcedBlockDecision {
            accepted,
            committed_rows,
            rewind_rows,
            needs_bonus_state: accepted == WIDTH,
            next_input_start,
            tail_tokens_omitted: output_len - next_input_start,
        },
    )
}

/// Decides a block by which of its two draft rows match the forced tokens.
pub fn forced_block_decision(
    input_start: usize,
    output_len: usize,
    row0_matches: bool,
    row1_matches: bool,
) -> (out: Result<ForcedBlockDecision, String>)
    ensures
        ({
            let accepted = accepted_in_order(row0_matches, row1_matches) as int;
            match block_refusal(input_start as int, output_len as int, accepted) {
                Some(message) => out is Err && out->Err_0@ == message,
                None => out is Ok && out->Ok_0.wf() && out->Ok_0.decides(
                    input_start as int,
                    output_len as int,
                    accepted,
                ),
            }
        }),
{
    let accepted: usize = if row0_matches {
        if row1_matches {
            WIDTH
        } else {
            1
        }
    } else {
        0
    };
    forced_block_decision_for_count(input_start, output_len, accepted)
}

/// How the draft rows of a run are conditioned.
#[derive(Clone, Copy, Debug, PartialEq, Eq, Structural)]
pub enum CatchUpMode {
    /// Every row on the target's hidden states, one token at a time.
    T,
    /// Width-two blocks whose second row runs on the draft's own hidden state.
    P,
}

impl CatchUpMode {
    /// The letter that selects the mode.
    pub open spec fn letter(self) -> Seq<char> {
        match self {
            CatchUpMode::T => "T"@,
            CatchUpMode::P => "P"@,
        }
    }

    /// The letter that selects the mode.
    pub fn name(self) -> (out: &'static str)
        ensures
            out@ == self.letter(),
    {
        match self {
            CatchUpMode::T => "T",
            CatchUpMode::P => "P",
        }
    }
}

/// Reads the mode from the value of its environment variable.
pub fn parse_mode(value: Option<&str>) -> (out: Result<CatchUpMode, String>)
    ensures
        match value {
            None => out is Err && out->Err_0@ == "SLLM_PHASE86_MODE is required for Phase86"@,
            Some(text) => if text@ == "T"@ {
                out == Ok::<CatchUpMode, String>(CatchUpMode::T)
            } else if text@ == "P"@ {
                out == Ok::<CatchUpMode, String>(CatchUpMode::P)
            } else {
                out is Err && out->Err_0@ == "SLLM_PHASE86_MODE must be T or P, got "@ + text@
            },
        },
{
    match value {
        None => Err("SLLM_PHASE86_MODE is required for Phase86".to_owned()),
        Some(text) => {
            if same_text(text, "T") {
                Ok(CatchUpMode::T)
            } else if same_text(text, "P") {
                Ok(CatchUpMode::P)
            } else {
                Err(joined("SLLM_PHASE86_MODE must be T or P, got ", text))
            }
        },
    }
}

/// Reads whether catch-up is separate from the value of its environment variable.
pub fn parse_catch_up(value: Option<&str>) -> (out: Result<bool, String>)
    ensures
        match value {
            None => out == Ok::<bool, String>(false),
            Some(text) => if text@ == "separate"@ {
                out == Ok::<bool, String>(true)
            } else {
                out is Err && out->Err_0@
                    == "SLLM_QWEN_MTP_CATCH_UP must be unset or separate, got "@ + text@
            },
        },
{
    match value {
        None => Ok(false),
        Some(text) => {
            if same_text(text, "separate") {
                Ok(true)
            } else {
                Err(joined("SLLM_QWEN_MTP_CATCH_UP must be unset or separate, got ", text))
            }
        },
    }
}

/// Refuses separate catch-up in the one-token baseline.
pub fn check_mode(mode: CatchUpMode, separate: bool) -> (out: Result<(), String>)
    ensures
        if mode == CatchUpMode::T && separate {
            out is Err && out->Err_0@ == "Phase86 T baseline does not accept separate catch-up"@
        } else {
            out is Ok
        },
{
    if matches!(mode, CatchUpMode::T) && separate {
        Err("Phase86 T baseline does not accept separate catch-up".to_owned())
    } else {
        Ok(())
    }
}

/// The binary32 bits of a sequence of BF16 words.
pub open spec fn widened_row(words: Seq<u16>) -> Seq<u32> {
    Seq::new(words.len(), |i: int| widened(words[i]))
}

/// Row `row` of a sequence of rows of `width` values.
pub open spec fn row_of<T>(values: Seq<T>, width: int, row: int) -> Seq<T> {
    values.subrange(row * width, row * width + width)
}

/// Splits BF16 logits into rows of binary32 bits; the values must make whole rows.
pub fn bf16_rows_to_f32(values: &[u16], row_width: usize) -> (out: Result<Vec<Vec<u32>>, String>)
    ensures
        if row_width == 0 || values@.len() % row_width as nat != 0 {
            out is Err && out->Err_0@ == "BF16 logits do not contain whole rows"@
        } else {
            &&& out is Ok
            &&& out->Ok_0@.len() == values@.len() / row_width as nat
            &&& forall|row: int|
                0 <= row < out->Ok_0@.len() ==> #[trigger] out->Ok_0@[row]@ == widened_row(
                    row_of(values@, row_width as int, row),
                )
        },
{
    if row_width == 0 || values.len() % row_width != 0 {
        return Err("BF16 logits do not contain whole rows".to_owned());
    }
    let count: usize = values.len() / row_width;
    let mut rows: Vec<Vec<u32>> = Vec::new();
    let mut start: usize = 0;
    proof {
        vstd::arithmetic::div_mod::lemma_fundamental_div_mod(
            values@.len() as int,
            row_width as int,
        );
        assert(count * row_width == row_width * count) by (nonlinear_arith);
    }
    while rows.len() < count
        invariant
            row_width > 0,
            rows.len() <= count,
            count * row_width == values@.len() <= usize::MAX,
            start == rows.len() * row_width,
            forall|row: int|
                0 <= row < rows.len() ==> #[trigger] rows@[row]@ == widened_row(
                    row_of(values@, row_width as int, row),
                ),
        decreases count - rows.len(),
    {
        proof {
            let done: int = rows.len() as int;
            assert(done * row_width + row_width <= count * row_width) by (nonlinear_arith)
                requires
                    done < count,
            ;
            assert((done + 1) * row_width == done * row_width + row_width) by (nonlinear_arith);
        }
        let ghost source = row_of(values@, row_width as int, rows.len() as int);
        let mut row: Vec<u32> = Vec::new();
        for column in 0..row_width
            invariant
                start + row_width <= values@.len() <= usize::MAX,
                source == values@.subrange(start as int, start + row_width),
                row@ == widened_row(source).take(column as int),
        {
            row.push(bf16_to_f32(values[start + column]));
            assert(widened_row(source).take(column + 1) =~= widened_row(source).take(
                column as int,
            ).push(widened_row(source)[column as int]));
        }
        assert(widened_row(source).take(row_width as int) =~= widened_row(source));
        rows.push(row);
        start = start + row_width;
    }
    Ok(rows)
}

/// The two best logits of a row.
#[derive(Clone, Copy, Debug, PartialEq, Eq, Structural)]
pub struct TopSummary {
    pub first: usize,
    pub second: usize,
    pub first_bits: u32,
    pub second_bits: u32,
}

/// Whether `at` is the least index, other than `skip`, whose value no other index but `skip`
/// exceeds.
pub open spec fn is_best(row: Seq<u32>, skip: int, at: int) -> bool {
    &&& 0 <= at < row.len()
    &&& at != skip
    &&& forall|j: int|
        0 <= j < row.len() && j != skip ==> f32_rank(#[trigger] row[j]) <= f32_rank(row[at]) && (j
            < at ==> f32_rank(row[j]) < f32_rank(row[at]))
}

/// Whether every value of a row is finite.
pub open spec fn all_finite(row: Seq<u32>) -> bool {
    forall|j: int| 0 <= j < row.len() ==> f32_is_finite(#[trigger] row[j])
}

/// Whether a row of logits has a best and a second-best value.
pub open spec fn is_ranked(row: Seq<u32>) -> bool {
    row.len() >= 2 && all_finite(row)
}

impl TopSummary {
    /// The summary of a row: the best value and the best of the others, ties to the lower index.
    pub open spec fn summarizes(self, row: Seq<u32>) -> bool {
        &&& is_best(row, -1, self.first as int)
        &&& is_best(row, self.first as int, self.second as int)
        &&& self.first_bits == row[self.first as int]
        &&& self.second_bits == row[self.second as int]
    }
}

/// Finds the two best logits of a row.
pub fn top_summary(logits: &[u32]) -> (out: Result<TopSummary, String>)
    ensures
        if is_ranked(logits@) {
            out is Ok && out->Ok_0.summarizes(logits@)
        } else {
            out is Err && out->Err_0@ == "logit row is empty, too short, or non-finite"@
        },
{
    if logits.len() < 2 {
        return Err("logit row is empty, too short, or non-finite".to_owned());
    }
    for i in 0..logits.len()
        invariant
            forall|j: int| 0 <= j < i ==> f32_is_finite(#[trigger] logits@[j]),
    {
        if !is_finite_f32(logits[i]) {
            assert(!f32_is_finite(logits@[i as int]));
            return Err("logit row is empty, too short, or non-finite".to_owned());
        }
    }
    let mut first: usize = 0;
    let mut second: usize = 1;
    let mut index: usize = 1;
    while index < logits.len()
        invariant
            logits@.len() >= 2,
            1 <= index <= logits@.len(),
            is_best(logits@.take(index as int), -1, first as int),
            index == 1 ==> first == 0 && second == 1,
            index >= 2 ==> is_best(logits@.take(index as int), first as int, second as int),
        decreases logits@.len() - index,
    {
        let ghost before = logits@.take(index as int);
        let ghost after = logits@.take(index + 1);
        proof {
            assert forall|j: int| 0 <= j < index implies #[trigger] after[j] == before[j] by {}
            assert forall|j: int| 0 <= j < index implies #[trigger] before[j] == after[j] by {}
            assert(after[index as int] == logits@[index as int]);
            assert(before[first as int] == logits@[first as int]);
        }
        let value: i64 = rank_f32(logits[index]);
        if value > rank_f32(logits[first]) {
            second = first;
            first = index;
        } else if value > rank_f32(logits[second]) {
            second = index;
        }
        index = index + 1;
    }
    assert(logits@.take(index as int) =~= logits@);
    Ok(
        TopSummary {
            first,
            second,
            first_bits: logits[first],
            second_bits: logits[second],
        },
    )
}

/// The two best logits of a row are determined by the row.
pub proof fn top_summary_is_unique(row: Seq<u32>, a: TopSummary, b: TopSummary)
    requires
        a.summarizes(row),
        b.summarizes(row),
    ensures
        a == b,
{
    assert(f32_rank(row[a.first as int]) <= f32_rank(row[b.first as int]));
    assert(a.first == b.first);
    assert(f32_rank(row[a.second as int]) <= f32_rank(row[b.second as int]));
}

/// A forced block keeps its first input and then as many drafts as match without a gap. What the
/// two draft rows made, less what is rewound and with the row that is added, is what it commits;
/// the next block begins right behind that, and what is left over is the rest of the column.
pub proof fn forced_blocks_keep_the_matching_front(
    input_start: usize,
    output_len: usize,
    row0_matches: bool,
    row1_matches: bool,
    decision: ForcedBlockDecision,
)
    requires
        call_ensures(
            forced_block_decision,
            (input_start, output_len, row0_matches, row1_matches),
            Ok(decision),
        ),
    ensures
        input_start + 3 <= output_len,
        decision.accepted >= 1 <==> row0_matches,
        decision.accepted >= 2 <==> row0_matches && row1_matches,
        decision.accepted <= 2,
        2 - decision.rewind_rows + (if decision.needs_bonus_state {
            1int
        } else {
            0
        }) == decision.committed_rows,
        decision.needs_bonus_state <==> row0_matches && row1_matches,
        decision.next_input_start - input_start == decision.committed_rows,
        decision.committed_rows - decision.accepted == 1,
        decision.next_input_start + decision.tail_tokens_omitted == output_len,
{
}

/// A block is refused exactly where fewer than three tokens are left, or more than two drafts are
/// said to be accepted.
pub proof fn only_incomplete_blocks_are_refused(
    input_start: usize,
    output_len: usize,
    accepted: usize,
    out: Result<ForcedBlockDecision, String>,
)
    requires
        call_ensures(forced_block_decision_for_count, (input_start, output_len, accepted), out),
    ensures
        out is Ok <==> accepted <= 2 && input_start + 3 <= output_len,
        out matches Ok(decision) ==> decision.accepted == accepted,
{
}

/// The best logit of a row is exceeded by none, the second best by none but the best, and of equal
/// ones the earlier comes first.
pub proof fn the_best_logits_come_first(logits: &[u32], top: TopSummary, at: int)
    requires
        call_ensures(top_summary, (logits,), Ok(top)),
        0 <= at < logits@.len(),
    ensures
        top.first != top.second,
        top.first_bits == logits@[top.first as int],
        top.second_bits == logits@[top.second as int],
        f32_rank(logits@[at]) <= f32_rank(top.first_bits),
        at < top.first ==> f32_rank(logits@[at]) < f32_rank(top.first_bits),
        at != top.first ==> f32_rank(logits@[at]) <= f32_rank(top.second_bits),
        at != top.first && at < top.second ==> f32_rank(logits@[at]) < f32_rank(top.second_bits),
{
}

/// Rows of logits hold the words in their order: each word stands in one row, above sixteen zero bits,
/// and no word is left over.
pub proof fn logit_rows_hold_every_word(
    values: &[u16],
    row_width: usize,
    rows: Vec<Vec<u32>>,
    at: int,
)
    requires
        call_ensures(bf16_rows_to_f32, (values, row_width), Ok(rows)),
        0 <= at < values@.len(),
    ensures
        row_width > 0,
        rows@.len() * row_width == values@.len(),
        0 <= at / (row_width as int) < rows@.len(),
        rows@[at / (row_width as int)]@.len() == row_width,
        rows@[at / (row_width as int)]@[at % (row_width as int)] == values@[at] * 65536,
{
    let width = row_width as int;
    let row = at / width;
    vstd::arithmetic::div_mod::lemma_fundamental_div_mod(values@.len() as int, width);
    vstd::arithmetic::div_mod::lemma_fundamental_div_mod(at, width);
    vstd::arithmetic::mul::lemma_mul_is_commutative(rows@.len() as int, width);
    vstd::arithmetic::mul::lemma_mul_is_commutative(row, width);
    vstd::arithmetic::div_mod::lemma_div_pos_is_pos(at, width);
    assert(row < rows@.len()) by (nonlinear_arith)
        requires
            at < rows@.len() * width,
            at == width * row + at % width,
            at % width >= 0,
            width > 0,
    ;
    assert(row * width + width <= values@.len()) by (nonlinear_arith)
        requires
            row < rows@.len(),
            rows@.len() * width == values@.len(),
            width > 0,
    ;
    assert(rows@[row]@ == widened_row(row_of(values@, width, row)));
}

proof fn numbers_hold_no_comma(n: int)
    ensures
        !signed_decimal(n).contains(','),
{
    let text = signed_decimal(n);
    let body = decimal((if n < 0 { -n } else { n }) as nat);
    decimal_round_trip((if n < 0 { -n } else { n }) as nat);
    assert forall|i: int| 0 <= i < text.len() implies text[i] != ',' by {
        if n < 0 {
            if i > 0 {
                assert(text[i] == body[i - 1]);
                assert(is_digit(body[i - 1]));
            }
        } else {
            assert(is_digit(body[i]));
        }
    }
}

proof fn canonical_pieces(tokens: Seq<i32>)
    requires
        tokens.len() > 0,
    ensures
        pieces_between(canonical_text(tokens), ',') == Seq::new(
            tokens.len(),
            |i: int| signed_decimal(tokens[i] as int),
        ),
    decreases tokens.len(),
{
    let wanted = Seq::new(tokens.len(), |i: int| signed_decimal(tokens[i] as int));
    let last = signed_decimal(tokens.last() as int);
    numbers_hold_no_comma(tokens.last() as int);
    pieces_without_separator(last, ',');
    if tokens.len() == 1 {
        assert(wanted =~= seq![last]);
    } else {
        let front = tokens.drop_last();
        canonical_pieces(front);
        reveal_strlit(",");
        let text = canonical_text(front);
        assert(text + ","@ + last =~= text.push(',') + last);
        pieces_are_added(text, last, ',');
        assert(wanted =~= pieces_between(text, ',') + seq![last]);
    }
}

/// What is digested of a sequence are its tokens as decimal numbers with a comma between every two, so
/// that the tokens can be read back from it.
pub proof fn sequences_are_digested_token_by_token(tokens: &[i32], digested: String)
    requires
        tokens@.len() > 0,
        call_ensures(canonical_sequence_hash, (tokens,), digested),
    ensures
        exists|text: Seq<char>|
            {
                &&& digested@ == digest_of(#[trigger] vstd::utf8::encode_utf8(text))
                &&& pieces_between(text, ',') == Seq::new(
                    tokens@.len(),
                    |i: int| signed_decimal(tokens@[i] as int),
                )
            },
{
    canonical_pieces(tokens@);
    let text = canonical_text(tokens@);
    assert(digested@ == digest_of(vstd::utf8::encode_utf8(text)));
}

/// Digests agree by their digits, in either case, and with or without the name of the algorithm in front
/// of the expected one.
pub proof fn digests_agree_by_their_digits(
    plain: &str,
    named: &str,
    actual: &str,
    matched: bool,
    matched_named: bool,
)
    requires
        !begins_with(plain@, "sha256:"@),
        named@ == "sha256:"@ + plain@,
        !begins_with(actual@, "sha256:"@),
        call_ensures(digest_matches, (plain, actual), matched),
        call_ensures(digest_matches, (named, actual), matched_named),
    ensures
        matched_named == matched,
        matched ==> plain@.len() == actual@.len(),
        plain@ == actual@ ==> matched,
        matched <==> plain@.len() == actual@.len() && forall|i: int|
            0 <= i < plain@.len() ==> ascii_lower(#[trigger] plain@[i]) == ascii_lower(actual@[i]),
{
    assert(named@.skip("sha256:"@.len() as int) =~= plain@);
    assert(named@.take("sha256:"@.len() as int) =~= "sha256:"@);
    let a = ascii_lowered(plain@);
    let b = ascii_lowered(actual@);
    if matched {
        assert(a == b);
        assert(a.len() == plain@.len() && b.len() == actual@.len());
        assert forall|i: int| 0 <= i < plain@.len() implies ascii_lower(#[trigger] plain@[i])
            == ascii_lower(actual@[i]) by {
            assert(a[i] == b[i]);
        }
    } else if plain@.len() == actual@.len() && (forall|i: int|
        0 <= i < plain@.len() ==> ascii_lower(#[trigger] plain@[i]) == ascii_lower(actual@[i])) {
        assert(a =~= b);
    }
}

/// A baseline is never caught up separately; every other pair of settings runs.
pub proof fn only_the_baseline_refuses_separate_batches(
    mode: Option<&str>,
    setting: Option<&str>,
    read: Result<CatchUpMode, String>,
    separate: Result<bool, String>,
    out: Result<(), String>,
)
    requires
        call_ensures(parse_mode, (mode,), read),
        call_ensures(parse_catch_up, (setting,), separate),
        read is Ok && separate is Ok,
        call_ensures(check_mode, (read->Ok_0, separate->Ok_0), out),
    ensures
        mode is Some && (mode->Some_0@ == "T"@ || mode->Some_0@ == "P"@),
        out is Err <==> mode->Some_0@ == "T"@ && setting is Some,
        setting is Some ==> setting->Some_0@ == "separate"@,
{
    reveal_strlit("T");
    reveal_strlit("P");
    assert("T"@[0] == 'T' && "P"@[0] == 'P');
}

} // verus!
