//! The verdicts of the multi-token prediction path diagnostic: how the optimized route of a case is
//! held against the sequential one, and how failures are gathered.
use crate::bytes::{same_items, words_image};
use crate::digest::digest_of;
use crate::kv_image::{payload_views, same_payloads, LayerPayload};
use crate::mtp_numeric::{
    diff_refusal, equal_rows_have_no_steps, hash_words, max_steps, numeric_diff, NumericDiff,
};
use crate::text::{
    append_decimal, bool_str, bool_text, bracketed, bracketed_string, decimal, joined, push_text,
    texts,
};
use vstd::prelude::*;
use vstd::string::StringExecFns;

verus! {

broadcast use vstd::string::group_string_axioms;

/// What a target request gave after it reached the committed rows: its prompt rows, the tokens and
/// hidden rows of the committed inputs, its cache, and one step more.
#[derive(Debug)]
pub struct TargetSide {
    pub prefill_hidden: Vec<u16>,
    pub tokens: Vec<i32>,
    pub hidden: Vec<u16>,
    pub kv: Vec<LayerPayload>,
    pub next_tokens: Vec<i32>,
    pub next_hidden: Vec<u16>,
    pub next_logits: Vec<u16>,
    pub committed_length: u64,
}

/// How a resolved block compares with the same inputs one by one.
#[derive(Debug)]
pub struct TargetComparison {
    pub committed_length: u64,
    pub sequential_length: u64,
    pub committed_length_match: bool,
    pub resolved_token_match: bool,
    pub block_prefill_hidden_sha256: String,
    pub sequential_prefill_hidden_sha256: String,
    pub prefill_hidden_match: bool,
    pub hidden: NumericDiff,
    pub hidden_within_threshold: bool,
    pub kv_match: bool,
    pub next_token_match: bool,
    pub next_hidden: NumericDiff,
    pub next_logits: NumericDiff,
    pub next_within_threshold: bool,
}

/// The message that refuses to compare two target sides, if there is one.
pub open spec fn target_refusal(block: TargetSide, sequential: TargetSide) -> Option<Seq<char>> {
    match diff_refusal(block.hidden@, sequential.hidden@) {
        Some(message) => Some(message),
        None => match diff_refusal(block.next_hidden@, sequential.next_hidden@) {
            Some(message) => Some(message),
            None => diff_refusal(block.next_logits@, sequential.next_logits@),
        },
    }
}

impl TargetComparison {
    /// The comparison of two target sides.
    pub open spec fn compares(self, block: TargetSide, sequential: TargetSide) -> bool {
        &&& self.committed_length == block.committed_length
        &&& self.sequential_length == sequential.committed_length
        &&& self.committed_length_match == (block.committed_length == sequential.committed_length)
        &&& self.resolved_token_match == (block.tokens@ == sequential.tokens@)
        &&& self.block_prefill_hidden_sha256@ == digest_of(words_image(block.prefill_hidden@))
        &&& self.sequential_prefill_hidden_sha256@ == digest_of(
            words_image(sequential.prefill_hidden@),
        )
        &&& self.prefill_hidden_match == (block.prefill_hidden@ == sequential.prefill_hidden@)
        &&& self.hidden.compares(block.hidden@, sequential.hidden@)
        &&& self.hidden_within_threshold == self.hidden.is_within()
        &&& self.kv_match == (payload_views(block.kv@) == payload_views(sequential.kv@))
        &&& self.next_token_match == (block.next_tokens@ == sequential.next_tokens@)
        &&& self.next_hidden.compares(block.next_hidden@, sequential.next_hidden@)
        &&& self.next_logits.compares(block.next_logits@, sequential.next_logits@)
        &&& self.next_within_threshold == (self.next_hidden.is_within()
            && self.next_logits.is_within())
    }
}

/// Holds a resolved block against the same inputs one by one.
pub fn compare_target(block: &TargetSide, sequential: &TargetSide) -> (out: Result<
    TargetComparison,
    String,
>)
    ensures
        match target_refusal(*block, *sequential) {
            Some(message) => out is Err && out->Err_0@ == message,
            None => out is Ok && out->Ok_0.compares(*block, *sequential),
        },
{
    let hidden = match numeric_diff(block.hidden.as_slice(), sequential.hidden.as_slice()) {
        Ok(diff) => diff,
        Err(message) => {
            return Err(message);
        },
    };
    let next_hidden = match numeric_diff(
        block.next_hidden.as_slice(),
        sequential.next_hidden.as_slice(),
    ) {
        Ok(diff) => diff,
        Err(message) => {
            return Err(message);
        },
    };
    let next_logits = match numeric_diff(
        block.next_logits.as_slice(),
        sequential.next_logits.as_slice(),
    ) {
        Ok(diff) => diff,
        Err(message) => {
            return Err(message);
        },
    };
    Ok(
        TargetComparison {
            committed_length: block.committed_length,
            sequential_length: sequential.committed_length,
            committed_length_match: block.committed_length == sequential.committed_length,
            resolved_token_match: same_items(
                block.tokens.as_slice(),
                sequential.tokens.as_slice(),
            ),
            block_prefill_hidden_sha256: hash_words(block.prefill_hidden.as_slice()),
            sequential_prefill_hidden_sha256: hash_words(sequential.prefill_hidden.as_slice()),
            prefill_hidden_match: same_items(
                block.prefill_hidden.as_slice(),
                sequential.prefill_hidden.as_slice(),
            ),
            hidden,
            hidden_within_threshold: hidden.within_threshold(),
            kv_match: same_payloads(&block.kv, &sequential.kv),
            next_token_match: same_items(
                block.next_tokens.as_slice(),
                sequential.next_tokens.as_slice(),
            ),
            next_hidden,
            next_logits,
            next_within_threshold: next_hidden.within_threshold() && next_logits.within_threshold(),
        },
    )
}

/// What a draft request gave after it reached the committed rows: its cache and one step more.
#[derive(Debug)]
pub struct DraftSide {
    pub kv: Vec<LayerPayload>,
    pub next_hidden: Vec<u16>,
    pub next_token: u32,
}

/// How the optimized draft request compares with the sequential one.
#[derive(Clone, Copy, Debug, PartialEq, Eq)]
pub struct DraftComparison {
    pub kv_match: bool,
    pub next_token_match: bool,
    pub next_hidden: NumericDiff,
}

impl DraftComparison {
    /// The comparison of two draft sides.
    pub open spec fn compares(self, optimized: DraftSide, sequential: DraftSide) -> bool {
        &&& self.kv_match == (payload_views(optimized.kv@) == payload_views(sequential.kv@))
        &&& self.next_token_match == (optimized.next_token == sequential.next_token)
        &&& self.next_hidden.compares(optimized.next_hidden@, sequential.next_hidden@)
    }
}

/// Holds the optimized draft request against the sequential one.
pub fn compare_draft(optimized: &DraftSide, sequential: &DraftSide) -> (out: Result<
    DraftComparison,
    String,
>)
    ensures
        match diff_refusal(optimized.next_hidden@, sequential.next_hidden@) {
            Some(message) => out is Err && out->Err_0@ == message,
            None => out is Ok && out->Ok_0.compares(*optimized, *sequential),
        },
{
    let next_hidden = match numeric_diff(
        optimized.next_hidden.as_slice(),
        sequential.next_hidden.as_slice(),
    ) {
        Ok(diff) => diff,
        Err(message) => {
            return Err(message);
        },
    };
    Ok(
        DraftComparison {
            kv_match: same_payloads(&optimized.kv, &sequential.kv),
            next_token_match: optimized.next_token == sequential.next_token,
            next_hidden,
        },
    )
}

/// Refuses prompt rows that do not fit the target's hidden row.
pub fn check_prefix_rows(prompt_len: usize, prefix_hidden_len: usize, hidden_width: usize) -> (out:
    Result<(), String>)
    ensures
        if hidden_width == 0 || prefix_hidden_len != prompt_len * hidden_width {
            out is Err && out->Err_0@ == "target MTP hidden row is empty"@
        } else {
            out is Ok
        },
{
    let fits = match prompt_len.checked_mul(hidden_width) {
        Some(expected) => hidden_width != 0 && prefix_hidden_len == expected,
        None => false,
    };
    if fits {
        Ok(())
    } else {
        Err("target MTP hidden row is empty".to_owned())
    }
}

/// What resolving a block to a number of committed rows showed.
#[derive(Debug)]
pub struct ResolveReport {
    pub accepted_draft_tokens: usize,
    pub committed_input_rows: usize,
    pub target: TargetComparison,
    pub companion: DraftComparison,
}

impl ResolveReport {
    /// Whether the block resolved as the sequential route does.
    pub open spec fn holds(self, logprob_within: bool) -> bool {
        &&& self.target.committed_length_match
        &&& self.target.resolved_token_match
        &&& self.target.prefill_hidden_match
        &&& self.target.hidden_within_threshold
        &&& self.target.kv_match
        &&& self.target.next_token_match
        &&& self.target.next_within_threshold
        &&& self.companion.kv_match
        &&& self.companion.next_token_match
        &&& logprob_within
        &&& self.companion.next_hidden.is_within()
    }

    /// The report on a number of committed rows.
    pub fn new(
        committed_input_rows: usize,
        target: TargetComparison,
        companion: DraftComparison,
    ) -> (out: ResolveReport)
        requires
            committed_input_rows >= 1,
        ensures
            out.accepted_draft_tokens == committed_input_rows - 1,
            out.committed_input_rows == committed_input_rows,
            out.target == target,
            out.companion == companion,
    {
        ResolveReport {
            accepted_draft_tokens: committed_input_rows - 1,
            committed_input_rows,
            target,
            companion,
        }
    }

    /// Whether the block resolved as the sequential route does.
    pub fn passes(&self, logprob_within: bool) -> (out: bool)
        ensures
            out == self.holds(logprob_within),
    {
        self.target.committed_length_match && self.target.resolved_token_match
            && self.target.prefill_hidden_match && self.target.hidden_within_threshold
            && self.target.kv_match && self.target.next_token_match
            && self.target.next_within_threshold && self.companion.kv_match
            && self.companion.next_token_match && logprob_within
            && self.companion.next_hidden.within_threshold()
    }
}

/// A block resolves as the sequential route does just where both sides stand at the same length with
/// the same tokens, prompt rows, caches and next tokens, no hidden word or logit is more than three
/// steps apart, and the draft requests agree in the same way.
pub proof fn resolutions_hold_where_both_routes_agree(
    block: &TargetSide,
    sequential: &TargetSide,
    optimized: &DraftSide,
    single: &DraftSide,
    target: TargetComparison,
    companion: DraftComparison,
    rows: usize,
    report: ResolveReport,
    within: bool,
    passes: bool,
)
    requires
        rows >= 1,
        call_ensures(compare_target, (block, sequential), Ok(target)),
        call_ensures(compare_draft, (optimized, single), Ok(companion)),
        call_ensures(ResolveReport::new, (rows, target, companion), report),
        call_ensures(ResolveReport::passes, (&report, within), passes),
    ensures
        report.committed_input_rows == rows && report.accepted_draft_tokens + 1 == rows,
        passes <==> {
            &&& block.committed_length == sequential.committed_length
            &&& block.tokens@ == sequential.tokens@
            &&& block.prefill_hidden@ == sequential.prefill_hidden@
            &&& payload_views(block.kv@) == payload_views(sequential.kv@)
            &&& block.next_tokens@ == sequential.next_tokens@
            &&& max_steps(block.hidden@, sequential.hidden@) <= 3
            &&& max_steps(block.next_hidden@, sequential.next_hidden@) <= 3
            &&& max_steps(block.next_logits@, sequential.next_logits@) <= 3
            &&& payload_views(optimized.kv@) == payload_views(single.kv@)
            &&& optimized.next_token == single.next_token
            &&& max_steps(optimized.next_hidden@, single.next_hidden@) <= 3
            &&& within
        },
{
}

/// Two routes that gave the very same hold, as far as their words are finite.
pub proof fn equal_routes_resolve(
    block: &TargetSide,
    sequential: &TargetSide,
    out: Result<TargetComparison, String>,
)
    requires
        call_ensures(compare_target, (block, sequential), out),
        block.hidden@ == sequential.hidden@,
        block.next_hidden@ == sequential.next_hidden@,
        block.next_logits@ == sequential.next_logits@,
        block.tokens@ == sequential.tokens@,
    ensures
        out matches Ok(found) ==> {
            &&& found.hidden_within_threshold
            &&& found.next_within_threshold
            &&& found.resolved_token_match
            &&& found.hidden.max_ulp == 0
        },
{
    equal_rows_have_no_steps(block.hidden@);
    equal_rows_have_no_steps(block.next_hidden@);
    equal_rows_have_no_steps(block.next_logits@);
}

/// The message about a resolution that differs.
pub open spec fn resolve_mismatch(rows: nat, details: Seq<char>) -> Seq<char> {
    "resolve rows="@ + decimal(rows) + " mismatch: "@ + details
}

/// Records a resolution: a failure where it does not hold.
pub fn record_resolve(
    failures: &mut Vec<String>,
    report: &ResolveReport,
    logprob_within: bool,
    details: &str,
)
    ensures
        texts(final(failures)@) == if report.holds(logprob_within) {
            texts(old(failures)@)
        } else {
            texts(old(failures)@).push(
                resolve_mismatch(report.committed_input_rows as nat, details@),
            )
        },
{
    if !report.passes(logprob_within) {
        let mut message = "resolve rows=".to_owned();
        append_decimal(&mut message, report.committed_input_rows as u64);
        message.append(" mismatch: ");
        message.append(details);
        push_text(failures, message);
    }
}

/// Records a resolution that could not be measured.
pub fn record_unmeasured_resolve(failures: &mut Vec<String>, rows: usize, error: &str)
    ensures
        texts(final(failures)@) == texts(old(failures)@).push(
            "resolve rows="@ + decimal(rows as nat) + " could not be measured: "@ + error@,
        ),
{
    let mut message = "resolve rows=".to_owned();
    append_decimal(&mut message, rows as u64);
    message.append(" could not be measured: ");
    message.append(error);
    push_text(failures, message);
}

/// The values of a draft row's selection, as text.
#[derive(Debug)]
pub struct SelectionTexts {
    pub observed: String,
    pub oracle: String,
    pub abs_error: String,
}

/// The message about a draft row whose hidden row is too far off.
pub open spec fn draft_hidden_message(row: nat, ulp: nat) -> Seq<char> {
    "MTP optimized/sequential hidden mismatch at draft row "@ + decimal(row) + ": "@ + decimal(ulp)
        + " BF16 ULP"@
}

/// The message about a draft row whose log-probability is too far off.
pub open spec fn draft_logprob_message(row: nat, selection: SelectionTexts) -> Seq<char> {
    "GPU selector logprob mismatch at draft row "@ + decimal(row) + ": observed="@
        + selection.observed@ + " oracle="@ + selection.oracle@ + " abs_error="@
        + selection.abs_error@
}

/// The failures of a draft row.
pub open spec fn draft_row_failures(
    row: nat,
    diff: NumericDiff,
    logprob_within: bool,
    selection: SelectionTexts,
) -> Seq<Seq<char>> {
    let hidden = if diff.is_within() {
        Seq::empty()
    } else {
        seq![draft_hidden_message(row, diff.max_ulp as nat)]
    };
    if logprob_within {
        hidden
    } else {
        hidden.push(draft_logprob_message(row, selection))
    }
}

/// Records a draft row: a failure for its hidden row and one for its log-probability, each where
/// it is too far off.
pub fn record_draft_row(
    failures: &mut Vec<String>,
    row: usize,
    diff: &NumericDiff,
    logprob_within: bool,
    selection: &SelectionTexts,
)
    ensures
        texts(final(failures)@) == texts(old(failures)@) + draft_row_failures(
            row as nat,
            *diff,
            logprob_within,
            *selection,
        ),
{
    if !diff.within_threshold() {
        let mut message = "MTP optimized/sequential hidden mismatch at draft row ".to_owned();
        append_decimal(&mut message, row as u64);
        message.append(": ");
        append_decimal(&mut message, diff.max_ulp);
        message.append(" BF16 ULP");
        push_text(failures, message);
    }
    if !logprob_within {
        let mut message = "GPU selector logprob mismatch at draft row ".to_owned();
        append_decimal(&mut message, row as u64);
        message.append(": observed=");
        message.append(selection.observed.as_str());
        message.append(" oracle=");
        message.append(selection.oracle.as_str());
        message.append(" abs_error=");
        message.append(selection.abs_error.as_str());
        push_text(failures, message);
    }
    assert(texts(failures@) =~= texts(old(failures)@) + draft_row_failures(
        row as nat,
        *diff,
        logprob_within,
        *selection,
    ));
}

/// A draft row fails once for a hidden word that is more than three steps off and once for a
/// log-probability that is too far off.
pub proof fn draft_rows_fail_once_for_each_reason(
    row: nat,
    diff: NumericDiff,
    within: bool,
    selection: SelectionTexts,
)
    ensures
        draft_row_failures(row, diff, within, selection).len() == (if diff.max_ulp > 3 {
            1int
        } else {
            0
        }) + (if within {
            0int
        } else {
            1
        }),
{
}

/// The digests of a prompt's hidden rows in the three requests of a case.
#[derive(Debug)]
pub struct PrefillReport {
    pub target_sha256: String,
    pub sequential_sha256: String,
    pub block_sha256: String,
    pub matches: bool,
}

/// The message about prompt rows that differ.
pub open spec fn prefill_message(target: Seq<u16>, sequential: Seq<u16>, block: Seq<u16>) -> Seq<
    char,
> {
    "target prefill hidden differs across requests: target="@ + digest_of(words_image(target))
        + ", sequential="@ + digest_of(words_image(sequential)) + ", block="@ + digest_of(
        words_image(block),
    )
}

/// Compares a prompt's hidden rows in the three requests of a case, and records a failure where
/// they differ.
pub fn record_prefill(
    failures: &mut Vec<String>,
    target: &[u16],
    sequential: &[u16],
    block: &[u16],
) -> (out: PrefillReport)
    ensures
        out.target_sha256@ == digest_of(words_image(target@)),
        out.sequential_sha256@ == digest_of(words_image(sequential@)),
        out.block_sha256@ == digest_of(words_image(block@)),
        out.matches == (target@ == sequential@ && target@ == block@),
        texts(final(failures)@) == if target@ == sequential@ && target@ == block@ {
            texts(old(failures)@)
        } else {
            texts(old(failures)@).push(prefill_message(target@, sequential@, block@))
        },
{
    let target_sha256 = hash_words(target);
    let sequential_sha256 = hash_words(sequential);
    let block_sha256 = hash_words(block);
    let matches = same_items(target, sequential) && same_items(target, block);
    if !matches {
        let mut message = "target prefill hidden differs across requests: target=".to_owned();
        message.append(target_sha256.as_str());
        message.append(", sequential=");
        message.append(sequential_sha256.as_str());
        message.append(", block=");
        message.append(block_sha256.as_str());
        push_text(failures, message);
    }
    PrefillReport { target_sha256, sequential_sha256, block_sha256, matches }
}

/// The rows of a target block, or of the same inputs one by one.
#[derive(Debug)]
pub struct BlockSide {
    pub tokens: Vec<i32>,
    pub hidden: Vec<u16>,
    pub logits: Vec<u16>,
}

/// How a target block compares with the same inputs one by one.
#[derive(Clone, Copy, Debug, PartialEq, Eq)]
pub struct BlockComparison {
    pub token_match: bool,
    pub hidden: NumericDiff,
    pub logits: NumericDiff,
    pub hidden_within_threshold: bool,
    pub logits_within_threshold: bool,
}

impl BlockComparison {
    /// The comparison of a block with the same inputs one by one.
    pub open spec fn compares(self, block: BlockSide, sequential: BlockSide) -> bool {
        &&& self.token_match == (block.tokens@ == sequential.tokens@)
        &&& self.hidden.compares(block.hidden@, sequential.hidden@)
        &&& self.logits.compares(block.logits@, sequential.logits@)
        &&& self.hidden_within_threshold == self.hidden.is_within()
        &&& self.logits_within_threshold == self.logits.is_within()
    }

    /// Whether the block counts as equal.
    pub open spec fn holds(self) -> bool {
        self.token_match && self.hidden_within_threshold && self.logits_within_threshold
    }
}

/// Why a block cannot be compared: its hidden rows, or its logits, where the hidden rows could be.
#[derive(Debug)]
pub enum BlockRefusal {
    Hidden(String),
    Logits(String, NumericDiff),
}

/// Compares a block with the same inputs one by one.
pub fn compare_block(block: &BlockSide, sequential: &BlockSide) -> (out: Result<
    BlockComparison,
    BlockRefusal,
>)
    ensures
        match diff_refusal(block.hidden@, sequential.hidden@) {
            Some(message) => out matches Err(BlockRefusal::Hidden(text)) && text@ == message,
            None => match diff_refusal(block.logits@, sequential.logits@) {
                Some(message) => out matches Err(BlockRefusal::Logits(text, diff)) && text@
                    == message && diff.compares(block.hidden@, sequential.hidden@),
                None => out is Ok && out->Ok_0.compares(*block, *sequential),
            },
        },
{
    let hidden = match numeric_diff(block.hidden.as_slice(), sequential.hidden.as_slice()) {
        Ok(diff) => diff,
        Err(message) => {
            return Err(BlockRefusal::Hidden(message));
        },
    };
    let logits = match numeric_diff(block.logits.as_slice(), sequential.logits.as_slice()) {
        Ok(diff) => diff,
        Err(message) => {
            return Err(BlockRefusal::Logits(message, hidden));
        },
    };
    Ok(
        BlockComparison {
            token_match: same_items(block.tokens.as_slice(), sequential.tokens.as_slice()),
            hidden,
            logits,
            hidden_within_threshold: hidden.within_threshold(),
            logits_within_threshold: logits.within_threshold(),
        },
    )
}

/// A block counts as equal just where its tokens are those of the same inputs one by one, and no
/// hidden word or logit is more than three steps off.
pub proof fn blocks_hold_within_three_steps(
    block: &BlockSide,
    sequential: &BlockSide,
    found: BlockComparison,
)
    requires
        call_ensures(compare_block, (block, sequential), Ok(found)),
    ensures
        found.token_match <==> block.tokens@ == sequential.tokens@,
        found.hidden_within_threshold <==> max_steps(block.hidden@, sequential.hidden@) <= 3,
        found.logits_within_threshold <==> max_steps(block.logits@, sequential.logits@) <= 3,
        found.holds() <==> found.token_match && found.hidden_within_threshold
            && found.logits_within_threshold,
{
}

/// What is said beside a block that differs or cannot be compared, as text.
#[derive(Debug)]
pub struct BlockTexts {
    pub hidden_diff: String,
    pub logits_diff: String,
    pub draft_logprob_errors: String,
    pub dump: String,
}

/// The message about a block that differs.
pub open spec fn block_message(
    token_match: bool,
    draft_tokens: Seq<u32>,
    details: BlockTexts,
) -> Seq<char> {
    "target block mismatch: tokens="@ + bool_text(token_match) + ", hidden_diff="@
        + details.hidden_diff@ + ", logits_diff="@ + details.logits_diff@ + ", draft_tokens="@
        + bracketed(draft_tokens) + ", draft_logprob_errors="@ + details.draft_logprob_errors@
        + ", dump="@ + details.dump@
}

/// Records a block: a failure where it does not count as equal.
pub fn record_block(
    failures: &mut Vec<String>,
    comparison: &BlockComparison,
    draft_tokens: &[u32],
    details: &BlockTexts,
)
    ensures
        texts(final(failures)@) == if comparison.holds() {
            texts(old(failures)@)
        } else {
            texts(old(failures)@).push(
                block_message(comparison.token_match, draft_tokens@, *details),
            )
        },
{
    if !(comparison.token_match && comparison.hidden_within_threshold
        && comparison.logits_within_threshold) {
        let drafts = bracketed_string(draft_tokens);
        let mut message = joined("target block mismatch: tokens=", bool_str(comparison.token_match));
        message.append(", hidden_diff=");
        message.append(details.hidden_diff.as_str());
        message.append(", logits_diff=");
        message.append(details.logits_diff.as_str());
        message.append(", draft_tokens=");
        message.append(drafts.as_str());
        message.append(", draft_logprob_errors=");
        message.append(details.draft_logprob_errors.as_str());
        message.append(", dump=");
        message.append(details.dump.as_str());
        push_text(failures, message);
    }
}

/// The error of a case whose block cannot be compared.
pub open spec fn block_error(
    refusal: BlockRefusal,
    draft_tokens: Seq<u32>,
    details: BlockTexts,
) -> Seq<char> {
    let tail = "; draft_tokens="@ + bracketed(draft_tokens) + "; draft_logprob_errors="@
        + details.draft_logprob_errors@;
    match refusal {
        BlockRefusal::Hidden(error) => "target block hidden numeric failure: "@ + error@ + tail
            + "; dump="@ + details.dump@,
        BlockRefusal::Logits(error, _) => "target block logits numeric failure: "@ + error@ + tail
            + "; hidden_diff="@ + details.hidden_diff@ + "; dump="@ + details.dump@,
    }
}

/// The error of a case whose block cannot be compared.
pub fn block_failure(refusal: &BlockRefusal, draft_tokens: &[u32], details: &BlockTexts) -> (out:
    String)
    ensures
        out@ == block_error(*refusal, draft_tokens@, *details),
{
    let drafts = bracketed_string(draft_tokens);
    let mut tail = joined("; draft_tokens=", drafts.as_str());
    tail.append("; draft_logprob_errors=");
    tail.append(details.draft_logprob_errors.as_str());
    match refusal {
        BlockRefusal::Hidden(error) => {
            let mut message = joined("target block hidden numeric failure: ", error.as_str());
            message.append(tail.as_str());
            message.append("; dump=");
            message.append(details.dump.as_str());
            message
        },
        BlockRefusal::Logits(error, _) => {
            let mut message = joined("target block logits numeric failure: ", error.as_str());
            message.append(tail.as_str());
            message.append("; hidden_diff=");
            message.append(details.hidden_diff.as_str());
            message.append("; dump=");
            message.append(details.dump.as_str());
            message
        },
    }
}

/// Only what does not hold is recorded, as one failure behind those before it: a block by its tokens and
/// both its rows, a prefill by the rows of its three routes.
pub proof fn only_what_differs_is_recorded(
    failures: &mut Vec<String>,
    comparison: &BlockComparison,
    draft_tokens: &[u32],
    details: &BlockTexts,
    prefilled: &mut Vec<String>,
    target: &[u16],
    sequential: &[u16],
    block: &[u16],
    report: PrefillReport,
)
    requires
        call_ensures(record_block, (failures, comparison, draft_tokens, details), ()),
        call_ensures(record_prefill, (prefilled, target, sequential, block), report),
    ensures
        final(failures)@.len() == old(failures)@.len() + if comparison.token_match
            && comparison.hidden_within_threshold && comparison.logits_within_threshold {
            0int
        } else {
            1
        },
        report.matches <==> target@ == sequential@ && sequential@ == block@,
        final(prefilled)@.len() == old(prefilled)@.len() + if target@ == sequential@ && sequential@
            == block@ {
            0int
        } else {
            1
        },
{
    assert(texts(final(failures)@).len() == final(failures)@.len());
    assert(texts(old(failures)@).len() == old(failures)@.len());
    assert(texts(final(prefilled)@).len() == final(prefilled)@.len());
    assert(texts(old(prefilled)@).len() == old(prefilled)@.len());
}

/// A prompt has its hidden rows exactly where there is one of the full width for every token.
pub proof fn prompts_have_a_row_for_each_token(
    prompt_len: usize,
    prefix_hidden_len: usize,
    hidden_width: usize,
    out: Result<(), String>,
)
    requires
        call_ensures(check_prefix_rows, (prompt_len, prefix_hidden_len, hidden_width), out),
    ensures
        out is Ok <==> hidden_width > 0 && prefix_hidden_len == prompt_len * hidden_width,
{
}

/// A resolution is recorded as a failure exactly where it does not hold.
pub proof fn resolutions_that_hold_are_not_recorded(
    failures: &mut Vec<String>,
    report: &ResolveReport,
    logprob_within: bool,
    details: &str,
)
    requires
        call_ensures(record_resolve, (failures, report, logprob_within, details), ()),
    ensures
        final(failures)@.len() == old(failures)@.len() ==> logprob_within && report.target.kv_match
            && report.target.next_token_match && report.target.resolved_token_match
            && report.target.committed_length_match && report.target.prefill_hidden_match
            && report.companion.kv_match && report.companion.next_token_match,
        !logprob_within ==> final(failures)@.len() == old(failures)@.len() + 1,
        final(failures)@.len() <= old(failures)@.len() + 1,
{
    assert(texts(final(failures)@).len() == final(failures)@.len());
    assert(texts(old(failures)@).len() == old(failures)@.len());
}

} // verus!
