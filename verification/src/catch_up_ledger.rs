//! The ledgers of catch-up entries: what a run over one frozen column records block by block or
//! token by token, the entry they make, and the verdict over all entries.
use crate::bytes::{push_words, words_image, words_to_bytes};
use crate::catch_up::{
    accepted_in_order, all_finite, bf16_rows_to_f32, forced_block_decision, is_ranked,
    measured_rows_present,
    row_of, widened_row, CatchUpMode, ForcedBlockDecision, WIDTH,
};
use crate::catch_up_entry::{
    batch_opt, message_at, next_target_hidden, retain_batch, retain_or_catch_up, row_is_ranked, summarize_row,
    view_opt, DraftRows, HiddenConditioning, Phase86Audit, Phase86LogitSummary, Primed, RetainPlan,
};
use crate::digest::{digest, digest_of};
use crate::number::{f32_is_finite, is_finite_f32, widened};
use crate::text::{decimal, decimal_string, joined, joined3};
use vstd::prelude::*;
use vstd::slice::{slice_subrange, slice_to_vec};
use vstd::string::StringExecFns;

verus! {

broadcast use vstd::string::group_string_axioms;

/// What one block of a run decided.
#[derive(Clone, Copy, Debug, PartialEq, Eq, Structural)]
pub struct Phase86BlockReport {
    pub input_start: usize,
    pub accepted_draft_tokens: usize,
    pub committed_input_rows: usize,
    pub row0_matches: bool,
    pub row1_matches: bool,
}

/// The drafts that a list of blocks accepted.
pub open spec fn accepted_sum(reports: Seq<Phase86BlockReport>) -> nat
    decreases reports.len(),
{
    if reports.len() == 0 {
        0
    } else {
        accepted_sum(reports.drop_last()) + reports.last().accepted_draft_tokens as nat
    }
}

/// Whether the blocks follow each other from the first token up to `end` without a gap, each
/// accepting its drafts in order and committing one row more than it accepts.
pub open spec fn chained(reports: Seq<Phase86BlockReport>, end: int) -> bool
    decreases reports.len(),
{
    if reports.len() == 0 {
        end == 0
    } else {
        let last = reports.last();
        &&& last.accepted_draft_tokens == accepted_in_order(last.row0_matches, last.row1_matches)
        &&& last.committed_input_rows == last.accepted_draft_tokens + 1
        &&& last.input_start + last.committed_input_rows == end
        &&& chained(reports.drop_last(), last.input_start as int)
    }
}

/// A run over one frozen column in forced width-two blocks.
#[derive(Debug)]
pub struct EntryRun {
    pub mode: CatchUpMode,
    pub separate: bool,
    pub output: Vec<i32>,
    pub hidden_width: usize,
    pub target_hidden_before: Vec<u16>,
    pub hashed_hidden: Vec<u16>,
    pub cursor: usize,
    pub blocks: usize,
    pub accepted_total: usize,
    pub tail_tokens_omitted: usize,
    pub target_rows: Vec<Phase86LogitSummary>,
    pub draft_rows: Vec<Phase86LogitSummary>,
    pub block_reports: Vec<Phase86BlockReport>,
}

impl EntryRun {
    /// Every token is committed by a block, omitted as the tail, or still to come: the blocks
    /// reach from the first token to the cursor, and the counts agree with them.
    pub open spec fn wf(self) -> bool {
        &&& self.cursor <= self.output@.len()
        &&& self.tail_tokens_omitted == self.output@.len() - self.cursor
        &&& self.blocks == self.block_reports@.len()
        &&& self.accepted_total == accepted_sum(self.block_reports@)
        &&& self.cursor == self.accepted_total + self.blocks
        &&& chained(self.block_reports@, self.cursor as int)
        &&& self.target_rows@.len() == (WIDTH + 1) * self.blocks
        &&& self.draft_rows@.len() == WIDTH * self.blocks
        &&& self.target_hidden_before@.len() == self.hidden_width
        &&& self.hidden_width > 0
    }

    /// Whether a whole block is left.
    pub open spec fn has_block(self) -> bool {
        self.cursor + WIDTH < self.output@.len()
    }

    /// The inputs of the next block.
    pub open spec fn block_inputs(self) -> Seq<i32> {
        self.output@.subrange(self.cursor as int, self.cursor + WIDTH + 1)
    }

    /// Starts a run behind the priming of its prompt.
    pub fn start(
        mode: CatchUpMode,
        separate: bool,
        output: Vec<i32>,
        prompt_hidden: &[u16],
        primed: &Primed,
    ) -> (out: EntryRun)
        requires
            primed.hidden_width > 0,
            primed.last_target_hidden@.len() == primed.hidden_width,
        ensures
            out.wf(),
            out.mode == mode,
            out.separate == separate,
            out.output == output,
            out.hidden_width == primed.hidden_width,
            out.target_hidden_before@ == primed.last_target_hidden@,
            out.hashed_hidden@ == prompt_hidden@,
            out.cursor == 0,
            out.block_reports@.len() == 0,
            out.target_rows@.len() == 0,
            out.draft_rows@.len() == 0,
    {
        let tail_tokens_omitted: usize = output.len();
        EntryRun {
            mode,
            separate,
            output,
            hidden_width: primed.hidden_width,
            target_hidden_before: slice_to_vec(primed.last_target_hidden.as_slice()),
            hashed_hidden: slice_to_vec(prompt_hidden),
            cursor: 0,
            blocks: 0,
            accepted_total: 0,
            tail_tokens_omitted,
            target_rows: Vec::new(),
            draft_rows: Vec::new(),
            block_reports: Vec::new(),
        }
    }

    /// The inputs of the next block, while a whole one is left.
    pub fn next_block(&self) -> (out: Option<Vec<i32>>)
        requires
            self.wf(),
        ensures
            match out {
                Some(inputs) => self.has_block() && inputs@ == self.block_inputs(),
                None => !self.has_block() && self.tail_tokens_omitted <= WIDTH,
            },
    {
        let total: usize = self.output.len();
        if self.tail_tokens_omitted > WIDTH {
            assert(self.cursor + WIDTH < total);
            Some(
                slice_to_vec(
                    slice_subrange(self.output.as_slice(), self.cursor, self.cursor + WIDTH + 1),
                ),
            )
        } else {
            None
        }
    }

    /// Decides the next block by its draft rows.
    pub fn decide(&self, draft: &DraftRows) -> (out: Result<ForcedBlockDecision, String>)
        requires
            self.wf(),
            self.has_block(),
        ensures
            out is Ok,
            out->Ok_0.wf(),
            out->Ok_0.decides(
                self.cursor as int,
                self.output@.len() as int,
                accepted_in_order(draft.row0_matches(), draft.row1_matches()) as int,
            ),
    {
        let row0_matches: bool = matches!(draft.row0.top1_matches_forced, Some(true));
        let row1_matches: bool = matches!(draft.row1.top1_matches_forced, Some(true));
        forced_block_decision(self.cursor, self.output.len(), row0_matches, row1_matches)
    }

    /// Records a decided block and plans how the draft request is realigned behind it. A replay
    /// with too few hidden rows is refused and leaves the run as it was.
    pub fn commit_block(
        &mut self,
        decision: &ForcedBlockDecision,
        target_hidden: &[u16],
        mut target_rows: Vec<Phase86LogitSummary>,
        draft: &DraftRows,
        replay: Option<&[u16]>,
    ) -> (out: Result<RetainPlan, String>)
        requires
            old(self).wf(),
            old(self).has_block(),
            decision.wf(),
            decision.decides(
                old(self).cursor as int,
                old(self).output@.len() as int,
                accepted_in_order(draft.row0_matches(), draft.row1_matches()) as int,
            ),
            target_hidden@.len() == (WIDTH + 1) * old(self).hidden_width,
            target_rows@.len() == WIDTH + 1,
        ensures
            ({
                let width = old(self).hidden_width as int;
                let committed = decision.committed_rows as int;
                let short = replay is Some && replay->Some_0@.len() < committed * width;
                if short {
                    &&& out is Err
                    &&& out->Err_0@ == "Phase86 replay hidden rows differ at "@ + decimal(
                        old(self).cursor as nat,
                    )
                    &&& *final(self) == *old(self)
                } else {
                    let caught_up = old(self).mode == CatchUpMode::P && old(self).separate;
                    &&& out is Ok
                    &&& out->Ok_0.rewinds == if caught_up { WIDTH } else { decision.rewind_rows }
                    &&& batch_opt(out->Ok_0.batch) == retain_batch(
                        caught_up,
                        old(self).block_inputs(),
                        old(self).target_hidden_before@,
                        target_hidden@,
                        width,
                        *decision,
                    )
                    &&& final(self).wf()
                    &&& final(self).mode == old(self).mode
                    &&& final(self).separate == old(self).separate
                    &&& final(self).output == old(self).output
                    &&& final(self).hidden_width == old(self).hidden_width
                    &&& final(self).cursor == decision.next_input_start
                    &&& final(self).cursor > old(self).cursor
                    &&& final(self).hashed_hidden@ == old(self).hashed_hidden@ + target_hidden@
                    &&& final(self).target_hidden_before@ == row_of(
                        if replay is Some {
                            replay->Some_0@
                        } else {
                            target_hidden@
                        },
                        width,
                        committed - 1,
                    )
                    &&& final(self).target_rows@ == old(self).target_rows@ + target_rows@
                    &&& final(self).draft_rows@ == old(self).draft_rows@.push(draft.row0).push(
                        draft.row1,
                    )
                    &&& final(self).block_reports@ == old(self).block_reports@.push(
                        (Phase86BlockReport {
                            input_start: old(self).cursor,
                            accepted_draft_tokens: decision.accepted,
                            committed_input_rows: decision.committed_rows,
                            row0_matches: draft.row0_matches(),
                            row1_matches: draft.row1_matches(),
                        }),
                    )
                }
            }),
    {
        let next = match next_target_hidden(
            self.cursor,
            decision.committed_rows,
            replay,
            target_hidden,
            self.hidden_width,
        ) {
            Ok(next) => next,
            Err(message) => {
                return Err(message);
            },
        };
        let total: usize = self.output.len();
        assert(self.cursor + WIDTH < total);
        let inputs = slice_to_vec(
            slice_subrange(self.output.as_slice(), self.cursor, self.cursor + WIDTH + 1),
        );
        let plan = retain_or_catch_up(
            self.mode,
            self.separate,
            inputs.as_slice(),
            self.target_hidden_before.as_slice(),
            target_hidden,
            self.hidden_width,
            decision,
        );
        let report = Phase86BlockReport {
            input_start: self.cursor,
            accepted_draft_tokens: decision.accepted,
            committed_input_rows: decision.committed_rows,
            row0_matches: matches!(draft.row0.top1_matches_forced, Some(true)),
            row1_matches: matches!(draft.row1.top1_matches_forced, Some(true)),
        };
        push_words(&mut self.hashed_hidden, target_hidden);
        self.target_rows.append(&mut target_rows);
        self.draft_rows.push(draft.row0);
        self.draft_rows.push(draft.row1);
        self.block_reports.push(report);
        self.target_hidden_before = next;
        self.cursor = decision.next_input_start;
        self.accepted_total = self.accepted_total + decision.accepted;
        self.blocks = self.blocks + 1;
        self.tail_tokens_omitted = decision.tail_tokens_omitted;
        proof {
            assert(self.block_reports@.drop_last() =~= old(self).block_reports@);
            let done: int = old(self).blocks as int;
            assert((WIDTH + 1) * (done + 1) == (WIDTH + 1) * done + (WIDTH + 1)) by (nonlinear_arith);
        }
        Ok(plan)
    }
}

/// A committed block moves the run behind its first input and the drafts that match without a gap.
/// Its rows are kept in order, all three hidden rows of the block are hashed, and the row that leads
/// the next block is that of the last committed input, as the replay gives it where it does.
pub proof fn committed_blocks_advance_the_run(
    run: &mut EntryRun,
    decision: &ForcedBlockDecision,
    target_hidden: &[u16],
    target_rows: Vec<Phase86LogitSummary>,
    draft: &DraftRows,
    replay: Option<&[u16]>,
    plan: RetainPlan,
    column: int,
)
    requires
        old(run).wf(),
        old(run).has_block(),
        decision.wf(),
        decision.decides(
            old(run).cursor as int,
            old(run).output@.len() as int,
            accepted_in_order(draft.row0_matches(), draft.row1_matches()) as int,
        ),
        target_hidden@.len() == 3 * old(run).hidden_width,
        target_rows@.len() == 3,
        call_ensures(
            EntryRun::commit_block,
            (run, decision, target_hidden, target_rows, draft, replay),
            Ok(plan),
        ),
        0 <= column < old(run).hidden_width,
    ensures
        ({
            let width = old(run).hidden_width as int;
            let first = draft.row0.top1_matches_forced == Some(true);
            let both = first && draft.row1.top1_matches_forced == Some(true);
            let accepted = if both {
                2int
            } else if first {
                1
            } else {
                0
            };
            let lead = accepted * width + column;
            let reports = final(run).block_reports@;
            &&& final(run).cursor == old(run).cursor + 1 + accepted
            &&& final(run).blocks == old(run).blocks + 1
            &&& final(run).accepted_total == old(run).accepted_total + accepted
            &&& final(run).cursor + final(run).tail_tokens_omitted == old(run).output@.len()
            &&& final(run).output@ == old(run).output@
            &&& final(run).hashed_hidden@ == old(run).hashed_hidden@ + target_hidden@
            &&& final(run).target_rows@ == old(run).target_rows@ + target_rows@
            &&& final(run).draft_rows@ == old(run).draft_rows@ + seq![draft.row0, draft.row1]
            &&& final(run).target_hidden_before@.len() == width
            &&& final(run).target_hidden_before@[column] == (match replay {
                Some(rows) => rows@[lead],
                None => target_hidden@[lead],
            })
            &&& reports.drop_last() == old(run).block_reports@
            &&& reports.last().input_start == old(run).cursor
            &&& reports.last().accepted_draft_tokens == accepted
            &&& reports.last().committed_input_rows == accepted + 1
        }),
{
    let width = old(run).hidden_width as int;
    let committed = decision.committed_rows as int;
    assert(0 <= (committed - 1) * width && (committed - 1) * width + width == committed * width
        && committed * width <= 3 * width) by (nonlinear_arith)
        requires
            1 <= committed <= 3,
            width > 0,
    ;
    assert(final(run).block_reports@.drop_last() =~= old(run).block_reports@);
    assert(old(run).draft_rows@.push(draft.row0).push(draft.row1) =~= old(run).draft_rows@
        + seq![draft.row0, draft.row1]);
}

/// The blocks of a run are read from the column one behind the other: the next one takes the three
/// tokens at the cursor, as long as there are three.
pub proof fn blocks_are_read_at_the_cursor(run: &EntryRun, out: Option<Vec<i32>>)
    requires
        run.wf(),
        call_ensures(EntryRun::next_block, (run,), out),
    ensures
        out is Some <==> run.cursor + 3 <= run.output@.len(),
        out matches Some(inputs) ==> {
            &&& inputs@.len() == 3
            &&& forall|i: int| 0 <= i < 3 ==> #[trigger] inputs@[i] == run.output@[run.cursor + i]
        },
{
}

/// Every token of the column is accounted for: one committed per block and one per accepted
/// draft, the rest omitted; when no whole block is left, at most the width is omitted.
pub proof fn every_token_is_accounted_for(run: EntryRun)
    requires
        run.wf(),
    ensures
        run.blocks + run.accepted_total + run.tail_tokens_omitted == run.output@.len(),
        !run.has_block() ==> run.tail_tokens_omitted <= WIDTH,
        run.accepted_total <= WIDTH * run.blocks,
{
    accepted_at_most_width(run.block_reports@, run.cursor as int);
}

proof fn accepted_at_most_width(reports: Seq<Phase86BlockReport>, end: int)
    requires
        chained(reports, end),
    ensures
        accepted_sum(reports) <= WIDTH * reports.len(),
    decreases reports.len(),
{
    if reports.len() > 0 {
        accepted_at_most_width(reports.drop_last(), reports.last().input_start as int);
    }
}

/// The token that position `index` of a column is held against: none behind the last one.
pub open spec fn forced_after(output: Seq<i32>, index: int) -> Option<i32> {
    if index + 1 < output.len() {
        Some(output[index + 1])
    } else {
        None
    }
}

/// The report of one baseline position: its own draft, and nothing behind it.
pub open spec fn baseline_report(index: int, matches: bool) -> Phase86BlockReport {
    Phase86BlockReport {
        input_start: index as usize,
        accepted_draft_tokens: if matches { 1 } else { 0 },
        committed_input_rows: 1,
        row0_matches: matches,
        row1_matches: false,
    }
}

/// The baseline run over one frozen column: every position on the target's hidden rows.
#[derive(Debug)]
pub struct TeacherRun {
    pub output: Vec<i32>,
    pub hidden_width: usize,
    pub target_hidden_before: Vec<u16>,
    pub hashed_hidden: Vec<u16>,
    pub accepted_total: usize,
    pub target_rows: Vec<Phase86LogitSummary>,
    pub draft_rows: Vec<Phase86LogitSummary>,
    pub block_reports: Vec<Phase86BlockReport>,
}

impl TeacherRun {
    /// One target row, one draft row and one report per position that was run.
    pub open spec fn wf(self) -> bool {
        &&& self.block_reports@.len() <= self.output@.len()
        &&& self.target_rows@.len() == self.block_reports@.len()
        &&& self.draft_rows@.len() == self.block_reports@.len()
        &&& self.target_hidden_before@.len() == self.hidden_width
        &&& self.accepted_total == accepted_sum(self.block_reports@)
        &&& self.accepted_total <= self.block_reports@.len()
        &&& forall|i: int|
            0 <= i < self.block_reports@.len() ==> #[trigger] self.block_reports@[i]
                == baseline_report(i, self.draft_rows@[i].top1_matches_forced == Some(true))
    }

    /// The next position.
    pub open spec fn index(self) -> int {
        self.block_reports@.len() as int
    }

    /// Starts the baseline behind the priming of its prompt.
    pub fn start(output: Vec<i32>, prompt_hidden: &[u16], primed: &Primed) -> (out: TeacherRun)
        requires
            primed.last_target_hidden@.len() == primed.hidden_width,
        ensures
            out.wf(),
            out.index() == 0,
            out.output == output,
            out.hidden_width == primed.hidden_width,
            out.target_hidden_before@ == primed.last_target_hidden@,
            out.hashed_hidden@ == prompt_hidden@,
    {
        TeacherRun {
            output,
            hidden_width: primed.hidden_width,
            target_hidden_before: slice_to_vec(primed.last_target_hidden.as_slice()),
            hashed_hidden: slice_to_vec(prompt_hidden),
            accepted_total: 0,
            target_rows: Vec::new(),
            draft_rows: Vec::new(),
            block_reports: Vec::new(),
        }
    }

    /// The next input and the token it is held against, while positions are left.
    pub fn next_row(&self) -> (out: Option<(i32, Option<i32>)>)
        requires
            self.wf(),
        ensures
            match out {
                Some((input, forced)) => {
                    &&& self.index() < self.output@.len()
                    &&& input == self.output@[self.index()]
                    &&& forced == forced_after(self.output@, self.index())
                },
                None => self.index() == self.output@.len(),
            },
    {
        let index: usize = self.block_reports.len();
        let total: usize = self.output.len();
        if index < total {
            let forced: Option<i32> = if index + 1 < total {
                Some(self.output[index + 1])
            } else {
                None
            };
            Some((self.output[index], forced))
        } else {
            None
        }
    }

    /// Records the replies to the next position.
    pub fn record(
        &mut self,
        target_hidden: &[u16],
        target_row: Phase86LogitSummary,
        draft_row: Phase86LogitSummary,
    )
        requires
            old(self).wf(),
            old(self).index() < old(self).output@.len(),
            target_hidden@.len() == old(self).hidden_width,
        ensures
            final(self).wf(),
            final(self).output == old(self).output,
            final(self).hidden_width == old(self).hidden_width,
            final(self).target_hidden_before@ == target_hidden@,
            final(self).hashed_hidden@ == old(self).hashed_hidden@ + target_hidden@,
            final(self).target_rows@ == old(self).target_rows@.push(target_row),
            final(self).draft_rows@ == old(self).draft_rows@.push(draft_row),
            final(self).block_reports@ == old(self).block_reports@.push(
                baseline_report(old(self).index(), draft_row.top1_matches_forced == Some(true)),
            ),
    {
        let matches: bool = matches!(draft_row.top1_matches_forced, Some(true));
        let index: usize = self.block_reports.len();
        let total: usize = self.output.len();
        assert(self.accepted_total < total);
        let accepted: usize = if matches { 1 } else { 0 };
        self.block_reports.push(
            Phase86BlockReport {
                input_start: index,
                accepted_draft_tokens: accepted,
                committed_input_rows: 1,
                row0_matches: matches,
                row1_matches: false,
            },
        );
        self.accepted_total = self.accepted_total + accepted;
        self.target_rows.push(target_row);
        self.draft_rows.push(draft_row);
        push_words(&mut self.hashed_hidden, target_hidden);
        self.target_hidden_before = slice_to_vec(target_hidden);
        proof {
            assert(self.block_reports@.drop_last() =~= old(self).block_reports@);
            assert forall|i: int| 0 <= i < self.block_reports@.len() implies
                #[trigger] self.block_reports@[i] == baseline_report(
                i,
                self.draft_rows@[i].top1_matches_forced == Some(true),
            ) by {
                if i < index {
                    assert(old(self).block_reports@[i] == self.block_reports@[i]);
                    assert(old(self).draft_rows@[i] == self.draft_rows@[i]);
                }
            }
        }
    }
}

/// The baseline takes every token of the column once, holds each against the one behind it, and
/// counts a draft as accepted just where it matches.
pub proof fn the_baseline_takes_every_token(
    run: &mut TeacherRun,
    next: Option<(i32, Option<i32>)>,
    target_hidden: &[u16],
    target_row: Phase86LogitSummary,
    draft_row: Phase86LogitSummary,
)
    requires
        old(run).wf(),
        old(run).block_reports@.len() < old(run).output@.len() <= usize::MAX,
        target_hidden@.len() == old(run).hidden_width,
        call_ensures(TeacherRun::next_row, (old(run),), next),
        call_ensures(TeacherRun::record, (run, target_hidden, target_row, draft_row), ()),
    ensures
        ({
            let at = old(run).block_reports@.len() as int;
            let report = final(run).block_reports@.last();
            let matches = draft_row.top1_matches_forced == Some(true);
            &&& next is Some
            &&& next->Some_0.0 == old(run).output@[at]
            &&& at + 1 < old(run).output@.len() ==> next->Some_0.1 == Some(old(run).output@[at + 1])
            &&& at + 1 == old(run).output@.len() ==> next->Some_0.1 is None
            &&& final(run).block_reports@.len() == at + 1
            &&& report.input_start == at
            &&& report.committed_input_rows == 1
            &&& report.accepted_draft_tokens == if matches {
                1int
            } else {
                0
            }
            &&& report.row0_matches == matches && !report.row1_matches
            &&& final(run).accepted_total == old(run).accepted_total
                + report.accepted_draft_tokens
            &&& final(run).target_hidden_before@ == target_hidden@
            &&& final(run).hashed_hidden@ == old(run).hashed_hidden@ + target_hidden@
            &&& final(run).target_rows@.last() == target_row
            &&& final(run).draft_rows@.last() == draft_row
        }),
{
    assert(final(run).block_reports@.drop_last() =~= old(run).block_reports@);
}

/// The message that refuses the target's reply to a baseline position, if there is one.
pub open spec fn target_row_refusal(
    index: nat,
    hidden: Option<Seq<u16>>,
    logits: Option<Seq<u16>>,
    width: nat,
    vocab: nat,
) -> Option<Seq<char>> {
    match hidden {
        None => Some("Phase86 T target hidden missing at "@ + decimal(index)),
        Some(row) => if row.len() != width {
            Some("Phase86 T target hidden width differs at "@ + decimal(index))
        } else {
            match logits {
                None => Some("Phase86 T target logits missing at "@ + decimal(index)),
                Some(words) => if vocab == 0 || words.len() % vocab != 0 {
                    Some("BF16 logits do not contain whole rows"@)
                } else if words.len() / vocab == 0 {
                    Some("Phase86 T target logits row missing at "@ + decimal(index))
                } else if !row_is_ranked(words, vocab as int, 0) {
                    Some("logit row is empty, too short, or non-finite"@)
                } else {
                    None
                },
            }
        },
    }
}

/// Checks the target's reply to a baseline position and summarizes its first row of logits.
pub fn check_target_row(
    index: usize,
    input: i32,
    forced: Option<i32>,
    hidden: Option<&[u16]>,
    logits: Option<&[u16]>,
    hidden_width: usize,
    vocab: usize,
) -> (out: Result<Phase86LogitSummary, String>)
    ensures
        match target_row_refusal(
            index as nat,
            view_opt(hidden),
            view_opt(logits),
            hidden_width as nat,
            vocab as nat,
        ) {
            Some(message) => out is Err && out->Err_0@ == message,
            None => out is Ok && logits is Some && out->Ok_0.reports(
                index as int,
                0,
                input,
                forced,
                widened_row(row_of(logits->Some_0@, vocab as int, 0)),
                HiddenConditioning::Target,
            ),
        },
{
    let row: &[u16] = match hidden {
        Some(row) => row,
        None => {
            return Err(message_at("Phase86 T target hidden missing at ", index));
        },
    };
    if row.len() != hidden_width {
        return Err(message_at("Phase86 T target hidden width differs at ", index));
    }
    let words: &[u16] = match logits {
        Some(words) => words,
        None => {
            return Err(message_at("Phase86 T target logits missing at ", index));
        },
    };
    let split = match bf16_rows_to_f32(words, vocab) {
        Ok(split) => split,
        Err(message) => {
            return Err(message);
        },
    };
    if split.len() == 0 {
        return Err(message_at("Phase86 T target logits row missing at ", index));
    }
    assert(split@[0]@ == widened_row(row_of(words@, vocab as int, 0)));
    summarize_row(index, 0, input, forced, split[0].as_slice(), HiddenConditioning::Target)
}

/// Checks the draft's reply to a baseline position and summarizes its logits.
pub fn check_draft_row(
    index: usize,
    input: i32,
    forced: Option<i32>,
    logits: Option<&[u32]>,
) -> (out: Result<Phase86LogitSummary, String>)
    ensures
        match logits {
            None => out is Err && out->Err_0@ == "Phase86 T draft logits missing at "@ + decimal(
                index as nat,
            ),
            Some(row) => if is_ranked(row@) {
                out is Ok && out->Ok_0.reports(
                    index as int,
                    0,
                    input,
                    forced,
                    row@,
                    HiddenConditioning::Target,
                )
            } else {
                out is Err && out->Err_0@ == "logit row is empty, too short, or non-finite"@
            },
        },
{
    match logits {
        None => Err(message_at("Phase86 T draft logits missing at ", index)),
        Some(row) => summarize_row(index, 0, input, forced, row, HiddenConditioning::Target),
    }
}

/// What identifies an entry and where its logits were written.
#[derive(Debug)]
pub struct EntryIdentity {
    pub case_id: String,
    pub seed: u64,
    pub prompt_token_count: usize,
    pub prompt_sha256: String,
    pub output_prefix_sha256: String,
    pub full_prefix_sha256: String,
    pub target_logits_file: String,
    pub target_logits_sha256: String,
    pub draft_logits_file: String,
    pub draft_logits_sha256: String,
}

/// The evidence of one entry.
#[derive(Debug)]
pub struct Phase86Entry {
    pub identity: EntryIdentity,
    pub output_prefix_token_count: usize,
    pub target_hidden_sha256: String,
    pub blocks: usize,
    pub tail_tokens_omitted: usize,
    pub proposed_draft_tokens: usize,
    pub accepted_draft_tokens: usize,
    pub block_reports: Vec<Phase86BlockReport>,
    pub forced_acceptance_contract: &'static str,
    pub catch_up_contract: &'static str,
    pub target_logit_rows: Vec<Phase86LogitSummary>,
    pub draft_logit_rows: Vec<Phase86LogitSummary>,
    pub audit: Phase86Audit,
}

/// The names of the files that hold an entry's target and draft logits.
pub fn logits_file_names(name: &str, seed: u64, mode: CatchUpMode) -> (out: (String, String))
    ensures
        out.0@ == name@ + "-seed-"@ + decimal(seed as nat) + "-target.f32"@,
        out.1@ == name@ + "-seed-"@ + decimal(seed as nat) + "-draft-"@ + mode.letter() + ".f32"@,
{
    let number = decimal_string(seed);
    let base = joined3(name, "-seed-", number.as_str());
    let target = joined(base.as_str(), "-target.f32");
    let mut draft = joined3(base.as_str(), "-draft-", mode.name());
    draft.append(".f32");
    (target, draft)
}

impl EntryRun {
    /// The entry that a run over blocks makes.
    pub fn finish(self, identity: EntryIdentity, audit: Phase86Audit) -> (out: Phase86Entry)
        requires
            self.wf(),
        ensures
            out.identity == identity,
            out.output_prefix_token_count == self.output@.len(),
            out.target_hidden_sha256@ == digest_of(words_image(self.hashed_hidden@)),
            out.blocks == self.blocks,
            out.tail_tokens_omitted == self.tail_tokens_omitted,
            out.proposed_draft_tokens == WIDTH * self.blocks,
            out.accepted_draft_tokens == self.accepted_total,
            out.block_reports == self.block_reports,
            out.forced_acceptance_contract@
                == "diagnostic teacher-forcing: q top1 equals frozen forced token; p/q is not claimed"@,
            out.catch_up_contract@ == if self.mode == CatchUpMode::P && self.separate {
                "separate: rewind all proposal rows then target-hidden state-only replay"@
            } else {
                "off: production retention/rewind shape, with forced q columns"@
            },
            out.target_logit_rows == self.target_rows,
            out.draft_logit_rows == self.draft_rows,
            out.audit == audit,
    {
        let image = words_to_bytes(self.hashed_hidden.as_slice());
        let proposed: usize = self.draft_rows.len();
        let catch_up_contract: &'static str = if matches!(self.mode, CatchUpMode::P)
            && self.separate {
            "separate: rewind all proposal rows then target-hidden state-only replay"
        } else {
            "off: production retention/rewind shape, with forced q columns"
        };
        Phase86Entry {
            identity,
            output_prefix_token_count: self.output.len(),
            target_hidden_sha256: digest(image.as_slice()),
            blocks: self.blocks,
            tail_tokens_omitted: self.tail_tokens_omitted,
            proposed_draft_tokens: proposed,
            accepted_draft_tokens: self.accepted_total,
            block_reports: self.block_reports,
            forced_acceptance_contract:
                "diagnostic teacher-forcing: q top1 equals frozen forced token; p/q is not claimed",
            catch_up_contract,
            target_logit_rows: self.target_rows,
            draft_logit_rows: self.draft_rows,
            audit,
        }
    }
}

impl TeacherRun {
    /// The entry that a finished baseline makes.
    pub fn finish(self, identity: EntryIdentity, audit: Phase86Audit) -> (out: Phase86Entry)
        requires
            self.wf(),
        ensures
            out.identity == identity,
            out.output_prefix_token_count == self.output@.len(),
            out.target_hidden_sha256@ == digest_of(words_image(self.hashed_hidden@)),
            out.blocks == self.block_reports@.len(),
            out.tail_tokens_omitted == 0,
            out.proposed_draft_tokens == if self.output@.len() == 0 {
                0
            } else {
                self.output@.len() - 1
            },
            out.accepted_draft_tokens == accepted_sum(self.block_reports@),
            out.block_reports == self.block_reports,
            out.forced_acceptance_contract@
                == "diagnostic teacher-forcing: q top1 equals frozen forced token; p/q is not claimed"@,
            out.catch_up_contract@
                == "T baseline: every forced position uses target hidden conditioning; no width-two retention experiment"@,
            out.target_logit_rows == self.target_rows,
            out.draft_logit_rows == self.draft_rows,
            out.audit == audit,
    {
        let image = words_to_bytes(self.hashed_hidden.as_slice());
        let total: usize = self.output.len();
        Phase86Entry {
            identity,
            output_prefix_token_count: total,
            target_hidden_sha256: digest(image.as_slice()),
            blocks: self.block_reports.len(),
            tail_tokens_omitted: 0,
            proposed_draft_tokens: if total == 0 { 0 } else { total - 1 },
            accepted_draft_tokens: self.accepted_total,
            block_reports: self.block_reports,
            forced_acceptance_contract:
                "diagnostic teacher-forcing: q top1 equals frozen forced token; p/q is not claimed",
            catch_up_contract:
                "T baseline: every forced position uses target hidden conditioning; no width-two retention experiment",
            target_logit_rows: self.target_rows,
            draft_logit_rows: self.draft_rows,
            audit,
        }
    }
}

/// Whether both values of every row are finite.
pub open spec fn rows_finite(rows: Seq<Phase86LogitSummary>) -> bool {
    forall|i: int|
        0 <= i < rows.len() ==> f32_is_finite((#[trigger] rows[i]).top1_value) && f32_is_finite(
            rows[i].top2_value,
        )
}

fn check_rows_finite(rows: &Vec<Phase86LogitSummary>) -> (out: bool)
    ensures
        out == rows_finite(rows@),
{
    for i in 0..rows.len()
        invariant
            forall|j: int|
                0 <= j < i ==> f32_is_finite((#[trigger] rows@[j]).top1_value) && f32_is_finite(
                    rows@[j].top2_value,
                ),
    {
        if !is_finite_f32(rows[i].top1_value) || !is_finite_f32(rows[i].top2_value) {
            assert(!f32_is_finite(rows@[i as int].top1_value) || !f32_is_finite(
                rows@[i as int].top2_value,
            ));
            return false;
        }
    }
    true
}

impl Phase86Entry {
    /// Whether the entry measured something, holds finite logits only and fell back nowhere.
    pub open spec fn is_valid(self, margins_finite: bool) -> bool {
        &&& self.blocks > 0
        &&& self.target_logit_rows@.len() > 0
        &&& self.draft_logit_rows@.len() > 0
        &&& rows_finite(self.target_logit_rows@)
        &&& rows_finite(self.draft_logit_rows@)
        &&& margins_finite
        &&& !self.audit.target.fallback_used
        &&& !self.audit.draft.fallback_used
    }

    /// Whether the entry is valid; `margins_finite` tells whether all its margins are finite.
    pub fn valid(&self, margins_finite: bool) -> (out: bool)
        ensures
            out == self.is_valid(margins_finite),
    {
        measured_rows_present(
            self.blocks,
            self.target_logit_rows.len(),
            self.draft_logit_rows.len(),
        ) && check_rows_finite(&self.target_logit_rows) && check_rows_finite(
            &self.draft_logit_rows,
        ) && margins_finite && !self.audit.target.fallback_used
            && !self.audit.draft.fallback_used
    }
}

/// Whether a run is valid as a whole: it has entries, and each is valid. `margins_finite` holds
/// for each entry whether all its margins are finite.
pub fn all_entries_valid(entries: &Vec<Phase86Entry>, margins_finite: &Vec<bool>) -> (out: bool)
    requires
        margins_finite@.len() == entries@.len(),
    ensures
        out == (entries@.len() > 0 && forall|i: int|
            0 <= i < entries@.len() ==> (#[trigger] entries@[i]).is_valid(margins_finite@[i])),
{
    if entries.len() == 0 {
        return false;
    }
    for i in 0..entries.len()
        invariant
            margins_finite@.len() == entries@.len(),
            forall|j: int| 0 <= j < i ==> (#[trigger] entries@[j]).is_valid(margins_finite@[j]),
    {
        if !entries[i].valid(margins_finite[i]) {
            assert(!entries@[i as int].is_valid(margins_finite@[i as int]));
            return false;
        }
    }
    true
}

/// The state that a report carries.
pub fn report_state(passed: bool) -> (out: &'static str)
    ensures
        out@ == if passed {
            "PASS"@
        } else {
            "FAIL"@
        },
{
    if passed {
        "PASS"
    } else {
        "FAIL"
    }
}

/// Entries count two drafts for each block, and the baseline one for each token that another one
/// follows; neither accepts more than it proposes, and all tokens are either committed or left over.
pub proof fn entries_propose_what_they_can_accept(
    run: EntryRun,
    identity: EntryIdentity,
    audit: Phase86Audit,
    entry: Phase86Entry,
)
    requires
        run.wf(),
        call_ensures(EntryRun::finish, (run, identity, audit), entry),
    ensures
        entry.proposed_draft_tokens == 2 * entry.block_reports@.len(),
        entry.blocks == entry.block_reports@.len(),
        entry.accepted_draft_tokens <= entry.proposed_draft_tokens,
        entry.blocks + entry.accepted_draft_tokens + entry.tail_tokens_omitted
            == entry.output_prefix_token_count,
        entry.target_logit_rows@.len() == 3 * entry.blocks,
        entry.draft_logit_rows@.len() == 2 * entry.blocks,
        entry.identity == identity && entry.audit == audit,
{
    every_token_is_accounted_for(run);
}

/// An entry is valid just where it measured a block, a target row and a draft row, its logits and
/// margins are all finite, and neither request fell back.
pub proof fn valid_entries_measured_something(
    entry: &Phase86Entry,
    margins_finite: bool,
    valid: bool,
)
    requires
        call_ensures(Phase86Entry::valid, (entry, margins_finite), valid),
    ensures
        valid <==> {
            &&& entry.blocks >= 1
            &&& entry.target_logit_rows@.len() >= 1
            &&& entry.draft_logit_rows@.len() >= 1
            &&& forall|i: int|
                0 <= i < entry.target_logit_rows@.len() ==> f32_is_finite(
                    (#[trigger] entry.target_logit_rows@[i]).top1_value,
                ) && f32_is_finite(entry.target_logit_rows@[i].top2_value)
            &&& forall|i: int|
                0 <= i < entry.draft_logit_rows@.len() ==> f32_is_finite(
                    (#[trigger] entry.draft_logit_rows@[i]).top1_value,
                ) && f32_is_finite(entry.draft_logit_rows@[i].top2_value)
            &&& margins_finite
            &&& !entry.audit.target.fallback_used
            &&& !entry.audit.draft.fallback_used
        },
{
}

/// A run is valid just where it has entries and each of them is.
pub proof fn one_invalid_entry_fails_the_run(
    entries: &Vec<Phase86Entry>,
    margins_finite: &Vec<bool>,
    at: int,
    valid: bool,
    all: bool,
)
    requires
        margins_finite@.len() == entries@.len(),
        0 <= at < entries@.len(),
        call_ensures(Phase86Entry::valid, (&entries@[at], margins_finite@[at]), valid),
        call_ensures(all_entries_valid, (entries, margins_finite), all),
    ensures
        all ==> valid,
        entries@.len() == 1 && valid ==> all,
{
}

/// A run without entries is not valid.
pub proof fn a_run_needs_entries(
    entries: &Vec<Phase86Entry>,
    margins_finite: &Vec<bool>,
    all: bool,
)
    requires
        entries@.len() == 0,
        margins_finite@.len() == 0,
        call_ensures(all_entries_valid, (entries, margins_finite), all),
    ensures
        !all,
{
}

proof fn words_widen_their_exponent(word: u16)
    ensures
        widened(word) == word * 65536,
        f32_is_finite(widened(word)) == (word / 0x80 % 256 != 255),
{
}

/// A reply of the target is taken exactly where it holds one hidden row and whole rows of logits, the
/// first of them finite: its summary tells where it stands and what was read there.
pub proof fn target_replies_are_whole(
    index: usize,
    input: i32,
    forced: Option<i32>,
    hidden: Option<&[u16]>,
    logits: Option<&[u16]>,
    hidden_width: usize,
    vocab: usize,
    out: Result<Phase86LogitSummary, String>,
)
    requires
        call_ensures(
            check_target_row,
            (index, input, forced, hidden, logits, hidden_width, vocab),
            out,
        ),
    ensures
        out is Ok <==> {
            &&& hidden is Some && hidden->Some_0@.len() == hidden_width
            &&& logits is Some && vocab >= 2 && logits->Some_0@.len() >= vocab
            &&& logits->Some_0@.len() % (vocab as nat) == 0
            &&& forall|i: int|
                0 <= i < vocab ==> (#[trigger] logits->Some_0@[i]) / 0x80 % 256 != 255
        },
        out matches Ok(summary) ==> {
            &&& summary.sequence_index == index
            &&& summary.block_row == 0
            &&& summary.input_token == input
            &&& summary.forced_token == forced
            &&& 0 <= summary.top1_token < vocab
            &&& summary.top1_value == logits->Some_0@[summary.top1_token as int] * 65536
            &&& summary.top1_matches_forced == match forced {
                Some(token) => Some(summary.top1_token == token),
                None => None,
            }
        },
{
    if logits is Some && vocab > 0 {
        let words = logits->Some_0@;
        vstd::arithmetic::div_mod::lemma_fundamental_div_mod(words.len() as int, vocab as int);
        if words.len() < vocab {
            vstd::arithmetic::div_mod::lemma_basic_div(words.len() as int, vocab as int);
        } else {
            vstd::arithmetic::div_mod::lemma_div_non_zero(words.len() as int, vocab as int);
            let row = row_of(words, vocab as int, 0);
            assert(row.len() == vocab);
            assert(forall|i: int| 0 <= i < vocab ==> row[i] == words[i]);
            let wide = widened_row(row);
            assert forall|i: int| 0 <= i < vocab implies #[trigger] wide[i] == words[i] * 65536
                && f32_is_finite(wide[i]) == (words[i] / 0x80 % 256 != 255) by {
                words_widen_their_exponent(words[i]);
            }
            assert(all_finite(wide) <==> forall|i: int|
                0 <= i < vocab ==> (#[trigger] words[i]) / 0x80 % 256 != 255) by {
                if all_finite(wide) {
                    assert forall|i: int| 0 <= i < vocab implies (#[trigger] words[i]) / 0x80 % 256
                        != 255 by {
                        assert(f32_is_finite(wide[i]));
                    }
                }
            }
        }
    }
}

} // verus!
