//! The draft rows of a proposal, one after another: which token on which hidden row each of them
//! runs on, and which catch-ups and cuts a state check makes of them.
use crate::catch_up::row_of;
use crate::catch_up_entry::{batch_views, StateBatch};
use crate::mtp_path::{
    all_fit_i32, check_proposal_row, proposal_refusal, proposal_transitions, single, transition,
    DRAFT_WIDTH,
};
use crate::state_check::{
    check_truncation_replay, record_replay, replay_message, truncation_replay_message, CatchUpPlan,
};
use crate::text::{joined, texts};
use vstd::prelude::*;
use vstd::slice::{slice_subrange, slice_to_vec};

verus! {

broadcast use vstd::string::group_string_axioms;

/// What a draft row runs on.
#[derive(Debug)]
pub struct DraftStep {
    pub row: usize,
    pub token: i32,
    pub hidden: Vec<u16>,
}

/// A proposal as far as it has come: what its first row runs on, and what each row has given.
#[derive(Debug)]
pub struct DraftRun {
    pub first: i32,
    pub last_hidden: Vec<u16>,
    pub tokens: Vec<i32>,
    pub hidden: Vec<Vec<u16>>,
}

/// What the steps that left something out are refused with; `label` names them in messages.
pub open spec fn omission(label: Seq<char>, token: Option<i32>, hidden: bool) -> Option<Seq<char>> {
    if token is None {
        Some(label + " omitted token"@)
    } else if !hidden {
        Some(label + " omitted hidden row"@)
    } else {
        None
    }
}

impl DraftRun {
    /// Every row gave a token and a hidden row, and no row follows the last.
    pub open spec fn wf(self) -> bool {
        self.tokens@.len() == self.hidden@.len() <= DRAFT_WIDTH
    }

    /// The token that a row runs on: that of the row before it.
    pub open spec fn input(self, row: int) -> i32 {
        if row == 0 {
            self.first
        } else {
            self.tokens@[row - 1]
        }
    }

    /// The hidden row that a row runs on: that of the row before it.
    pub open spec fn condition(self, row: int) -> Seq<u16> {
        if row == 0 {
            self.last_hidden@
        } else {
            self.hidden@[row - 1]@
        }
    }

    /// Whether a proposal is another one and one more row.
    pub open spec fn extends(self, before: DraftRun, token: i32, hidden: Seq<u16>) -> bool {
        &&& self.first == before.first
        &&& self.last_hidden@ == before.last_hidden@
        &&& self.tokens@ == before.tokens@.push(token)
        &&& self.hidden@.len() == before.hidden@.len() + 1
        &&& self.hidden@.take(before.hidden@.len() as int) == before.hidden@
        &&& self.hidden@.last()@ == hidden
    }

    /// Starts a proposal on the target's token and its hidden row.
    pub fn start(first: i32, last_hidden: &[u16]) -> (out: DraftRun)
        ensures
            out.wf(),
            out.first == first,
            out.last_hidden@ == last_hidden@,
            out.tokens@.len() == 0,
    {
        DraftRun {
            first,
            last_hidden: slice_to_vec(last_hidden),
            tokens: Vec::new(),
            hidden: Vec::new(),
        }
    }

    /// What the next row runs on; none is left once all rows have run.
    pub fn next(&self) -> (out: Option<DraftStep>)
        requires
            self.wf(),
        ensures
            (out is Some) == (self.tokens@.len() < DRAFT_WIDTH),
            out matches Some(step) ==> {
                &&& step.row == self.tokens@.len()
                &&& step.token == self.input(step.row as int)
                &&& step.hidden@ == self.condition(step.row as int)
            },
    {
        let row: usize = self.tokens.len();
        if row >= DRAFT_WIDTH {
            return None;
        }
        if row == 0 {
            Some(
                DraftStep {
                    row,
                    token: self.first,
                    hidden: slice_to_vec(self.last_hidden.as_slice()),
                },
            )
        } else {
            Some(
                DraftStep {
                    row,
                    token: self.tokens[row - 1],
                    hidden: slice_to_vec(self.hidden[row - 1].as_slice()),
                },
            )
        }
    }

    fn push(&mut self, token: i32, hidden: Vec<u16>)
        requires
            old(self).wf(),
            old(self).tokens@.len() < DRAFT_WIDTH,
        ensures
            final(self).wf(),
            final(self).extends(*old(self), token, hidden@),
    {
        let ghost before = self.hidden@;
        self.tokens.push(token);
        self.hidden.push(hidden);
        assert(self.hidden@.take(before.len() as int) =~= before);
    }

    /// Takes what a row gave that must select the draft observed before; a refused row changes
    /// nothing.
    pub fn record_selected(
        &mut self,
        draft_tokens: &[u32],
        selected: Option<u32>,
        hidden: Option<&[u16]>,
    ) -> (out: Result<(), String>)
        requires
            old(self).wf(),
            old(self).tokens@.len() < DRAFT_WIDTH,
        ensures
            final(self).wf(),
            match proposal_refusal(
                old(self).tokens@.len(),
                selected,
                draft_tokens@,
                hidden is Some,
            ) {
                Some(message) => {
                    &&& out is Err
                    &&& out->Err_0@ == message
                    &&& *final(self) == *old(self)
                },
                None => {
                    &&& out is Ok
                    &&& final(self).extends(
                        *old(self),
                        draft_tokens@[old(self).tokens@.len() as int] as i32,
                        hidden->Some_0@,
                    )
                },
            },
    {
        match check_proposal_row(self.tokens.len(), selected, draft_tokens, hidden) {
            Ok((token, hidden)) => {
                self.push(token, hidden);
                Ok(())
            },
            Err(message) => Err(message),
        }
    }

    /// Takes what a row of the first proposal gave; a refused row changes nothing.
    pub fn record_proposed(&mut self, token: Option<i32>, hidden: Option<Vec<u16>>) -> (out: Result<
        (),
        String,
    >)
        requires
            old(self).wf(),
            old(self).tokens@.len() < DRAFT_WIDTH,
        ensures
            final(self).wf(),
            match omission("MTP proposal"@, token, hidden is Some) {
                Some(message) => {
                    &&& out is Err
                    &&& out->Err_0@ == message
                    &&& *final(self) == *old(self)
                },
                None => {
                    &&& out is Ok
                    &&& final(self).extends(*old(self), token->Some_0, hidden->Some_0@)
                },
            },
    {
        self.record(token, hidden, "MTP proposal")
    }

    /// Takes what a row gave that replays a draft before a catch-up. A replayed row that selects
    /// another token is a failure, and the replay goes on from that token; a row that left
    /// something out ends it.
    pub fn record_replayed(
        &mut self,
        failures: &mut Vec<String>,
        drafts: &[i32],
        token: Option<i32>,
        hidden: Option<Vec<u16>>,
    ) -> (out: Result<(), String>)
        requires
            old(self).wf(),
            old(self).tokens@.len() < DRAFT_WIDTH == drafts@.len(),
        ensures
            final(self).wf(),
            match omission("MTP replay proposal"@, token, hidden is Some) {
                Some(message) => {
                    &&& out is Err
                    &&& out->Err_0@ == message
                    &&& *final(self) == *old(self)
                },
                None => {
                    &&& out is Ok
                    &&& final(self).extends(*old(self), token->Some_0, hidden->Some_0@)
                },
            },
            texts(final(failures)@) == match token {
                Some(observed) if observed != drafts@[old(self).tokens@.len() as int] => texts(
                    old(failures)@,
                ).push(
                    replay_message(
                        old(self).tokens@.len(),
                        observed,
                        drafts@[old(self).tokens@.len() as int],
                    ),
                ),
                _ => texts(old(failures)@),
            },
    {
        if let Some(observed) = token {
            let row: usize = self.tokens.len();
            record_replay(failures, row, observed, drafts[row]);
        }
        self.record(token, hidden, "MTP replay proposal")
    }

    /// Takes what a row gave that replays a draft before a cut. It must select the draft observed
    /// before; a refused row changes nothing.
    pub fn record_truncated(
        &mut self,
        drafts: &[i32],
        token: Option<i32>,
        hidden: Option<Vec<u16>>,
    ) -> (out: Result<(), String>)
        requires
            old(self).wf(),
            old(self).tokens@.len() < DRAFT_WIDTH == drafts@.len(),
        ensures
            final(self).wf(),
            match truncation_refusal(
                old(self).tokens@.len(),
                drafts@[old(self).tokens@.len() as int],
                token,
                hidden is Some,
            ) {
                Some(message) => {
                    &&& out is Err
                    &&& out->Err_0@ == message
                    &&& *final(self) == *old(self)
                },
                None => {
                    &&& out is Ok
                    &&& final(self).extends(*old(self), token->Some_0, hidden->Some_0@)
                },
            },
    {
        if let Some(observed) = token {
            let row: usize = self.tokens.len();
            if let Err(message) = check_truncation_replay(row, observed, drafts[row]) {
                return Err(message);
            }
        }
        self.record(token, hidden, "truncation draft replay")
    }

    fn record(&mut self, token: Option<i32>, hidden: Option<Vec<u16>>, label: &str) -> (out: Result<
        (),
        String,
    >)
        requires
            old(self).wf(),
            old(self).tokens@.len() < DRAFT_WIDTH,
        ensures
            final(self).wf(),
            match omission(label@, token, hidden is Some) {
                Some(message) => {
                    &&& out is Err
                    &&& out->Err_0@ == message
                    &&& *final(self) == *old(self)
                },
                None => {
                    &&& out is Ok
                    &&& final(self).extends(*old(self), token->Some_0, hidden->Some_0@)
                },
            },
    {
        match (token, hidden) {
            (None, _) => Err(joined(label, " omitted token")),
            (Some(_), None) => Err(joined(label, " omitted hidden row")),
            (Some(token), Some(hidden)) => {
                self.push(token, hidden);
                Ok(())
            },
        }
    }

    /// How often a request that made the proposal is to be rewound to stand before it.
    pub fn rewinds(&self) -> (out: usize)
        ensures
            out == self.tokens@.len(),
    {
        self.tokens.len()
    }

    /// The inputs of the block that checks the proposal.
    pub fn block_inputs(&self) -> (out: Vec<i32>)
        ensures
            out@ == seq![self.first] + self.tokens@,
    {
        let mut inputs: Vec<i32> = Vec::new();
        inputs.push(self.first);
        for i in 0..self.tokens.len()
            invariant
                inputs@ == seq![self.first] + self.tokens@.take(i as int),
        {
            inputs.push(self.tokens[i]);
            assert(inputs@ =~= seq![self.first] + self.tokens@.take(i + 1));
        }
        assert(self.tokens@.take(self.tokens@.len() as int) =~= self.tokens@);
        inputs
    }
}

/// What a row that replays a draft before a cut is refused with.
pub open spec fn truncation_refusal(
    row: nat,
    expected: i32,
    token: Option<i32>,
    hidden: bool,
) -> Option<Seq<char>> {
    match token {
        Some(observed) if observed != expected => Some(
            truncation_replay_message(row, observed, expected),
        ),
        _ => omission("truncation draft replay"@, token, hidden),
    }
}

/// A proposal that selected the drafts observed before has made just the transitions of that
/// proposal.
pub proof fn selected_rows_make_the_proposal(run: DraftRun, draft_tokens: Seq<u32>)
    requires
        run.wf(),
        draft_tokens.len() == DRAFT_WIDTH,
        all_fit_i32(draft_tokens),
        run.tokens@ == Seq::new(DRAFT_WIDTH as nat, |i: int| draft_tokens[i] as i32),
    ensures
        Seq::new(
            DRAFT_WIDTH as nat,
            |row: int| transition(run.input(row), run.condition(row)),
        ) == proposal_transitions(run.first, draft_tokens, run.last_hidden@, run.hidden@[0]@),
{
    assert(Seq::new(
        DRAFT_WIDTH as nat,
        |row: int| transition(run.input(row), run.condition(row)),
    ) =~= proposal_transitions(run.first, draft_tokens, run.last_hidden@, run.hidden@[0]@));
}

/// The first draft row runs on the target's token and hidden row, the second on what the first gave,
/// and there is no third. Behind both the request is rewound twice, and the block that checks them
/// reads the target's token and both drafts.
pub proof fn two_draft_rows_follow_the_target(
    run: &DraftRun,
    next: Option<DraftStep>,
    rewinds: usize,
    inputs: Vec<i32>,
)
    requires
        run.wf(),
        call_ensures(DraftRun::next, (run,), next),
        call_ensures(DraftRun::rewinds, (run,), rewinds),
        call_ensures(DraftRun::block_inputs, (run,), inputs),
    ensures
        next is None <==> run.tokens@.len() == 2,
        next matches Some(step) ==> {
            &&& step.row == run.tokens@.len()
            &&& step.row == 0 ==> step.token == run.first && step.hidden@ == run.last_hidden@
            &&& step.row == 1 ==> step.token == run.tokens@[0] && step.hidden@ == run.hidden@[0]@
            &&& step.row <= 1
        },
        next is None ==> rewinds == 2 && inputs@ == seq![run.first, run.tokens@[0], run.tokens@[1]],
{
    if next is None {
        assert(inputs@ =~= seq![run.first, run.tokens@[0], run.tokens@[1]]);
    }
}

/// A proposed row is taken just where it gave a token and a hidden row.
pub proof fn whole_rows_are_taken(
    run: &mut DraftRun,
    token: Option<i32>,
    hidden: Option<Vec<u16>>,
    out: Result<(), String>,
)
    requires
        old(run).wf(),
        old(run).tokens@.len() < 2,
        call_ensures(DraftRun::record_proposed, (run, token, hidden), out),
    ensures
        out is Ok <==> token is Some && hidden is Some,
        out is Ok ==> final(run).tokens@ == old(run).tokens@.push(token->Some_0)
            && final(run).hidden@.last()@ == hidden->Some_0@,
        out is Err ==> *final(run) == *old(run),
{
}

/// A replayed row goes on from its own token, also where that is not the draft of before; a row that
/// is replayed for a cut must select that draft. One more failure is recorded just where a replayed
/// row gives another token.
pub proof fn replays_go_on_from_their_own_token(
    run: &mut DraftRun,
    failures: &mut Vec<String>,
    drafts: &[i32],
    token: i32,
    hidden: Vec<u16>,
    out: Result<(), String>,
)
    requires
        old(run).wf(),
        old(run).tokens@.len() < 2 == drafts@.len(),
        call_ensures(
            DraftRun::record_replayed,
            (run, failures, drafts, Some(token), Some(hidden)),
            out,
        ),
    ensures
        out is Ok,
        final(run).tokens@ == old(run).tokens@.push(token),
        final(run).hidden@.last()@ == hidden@,
        texts(final(failures)@).len() == texts(old(failures)@).len() + if token
            == drafts@[old(run).tokens@.len() as int] {
            0int
        } else {
            1
        },
{
}

/// A row that is replayed for a cut is taken just where it is whole and selects the draft of before.
pub proof fn cuts_need_the_same_drafts(
    run: &mut DraftRun,
    drafts: &[i32],
    token: Option<i32>,
    hidden: Option<Vec<u16>>,
    out: Result<(), String>,
)
    requires
        old(run).wf(),
        old(run).tokens@.len() < 2 == drafts@.len(),
        call_ensures(DraftRun::record_truncated, (run, drafts, token, hidden), out),
    ensures
        out is Ok <==> hidden is Some && token == Some(drafts@[old(run).tokens@.len() as int]),
        out is Ok ==> final(run).tokens@ == old(run).tokens@.push(token->Some_0),
{
}

/// What a row of two routes runs on.
#[derive(Debug)]
pub struct PairStep {
    pub row: usize,
    pub token: i32,
    pub proposal_hidden: Vec<u16>,
    pub replay_hidden: Vec<u16>,
}

/// A proposal of the optimized route, and the sequential route that follows its tokens on hidden
/// rows of its own.
#[derive(Debug)]
pub struct DraftPair {
    pub proposal: DraftRun,
    pub replay: DraftRun,
}

impl DraftPair {
    /// Both routes start on the same row and read the same tokens.
    pub open spec fn wf(self) -> bool {
        &&& self.proposal.wf()
        &&& self.replay.wf()
        &&& self.proposal.first == self.replay.first
        &&& self.proposal.last_hidden@ == self.replay.last_hidden@
        &&& self.proposal.tokens@ == self.replay.tokens@
    }

    /// Starts both routes on the target's token and its hidden row.
    pub fn start(first: i32, last_hidden: &[u16]) -> (out: DraftPair)
        ensures
            out.wf(),
            out.proposal.first == first,
            out.proposal.last_hidden@ == last_hidden@,
            out.proposal.tokens@.len() == 0,
    {
        let pair = DraftPair {
            proposal: DraftRun::start(first, last_hidden),
            replay: DraftRun::start(first, last_hidden),
        };
        assert(pair.proposal.tokens@ =~= pair.replay.tokens@);
        pair
    }

    /// What the next row runs on; none is left once all rows have run.
    pub fn next(&self) -> (out: Option<PairStep>)
        requires
            self.wf(),
        ensures
            (out is Some) == (self.proposal.tokens@.len() < DRAFT_WIDTH),
            out matches Some(step) ==> {
                &&& step.row == self.proposal.tokens@.len()
                &&& step.token == self.proposal.input(step.row as int)
                &&& step.proposal_hidden@ == self.proposal.condition(step.row as int)
                &&& step.replay_hidden@ == self.replay.condition(step.row as int)
            },
    {
        match (self.proposal.next(), self.replay.next()) {
            (Some(proposed), Some(replayed)) => Some(
                PairStep {
                    row: proposed.row,
                    token: proposed.token,
                    proposal_hidden: proposed.hidden,
                    replay_hidden: replayed.hidden,
                },
            ),
            _ => None,
        }
    }

    /// Takes what a row gave: both routes go on from the token that the optimized route selected,
    /// each on its own hidden row. A token that is out of range changes nothing.
    pub fn record(&mut self, selected: u32, proposal_hidden: Vec<u16>, replay_hidden: Vec<u16>) -> (
    out: Result<(), String>)
        requires
            old(self).wf(),
            old(self).proposal.tokens@.len() < DRAFT_WIDTH,
        ensures
            final(self).wf(),
            if selected <= i32::MAX {
                &&& out is Ok
                &&& final(self).proposal.extends(
                    old(self).proposal,
                    selected as i32,
                    proposal_hidden@,
                )
                &&& final(self).replay.extends(old(self).replay, selected as i32, replay_hidden@)
            } else {
                &&& out is Err
                &&& out->Err_0@ == "draft token overflow"@
                &&& *final(self) == *old(self)
            },
    {
        if selected > i32::MAX as u32 {
            return Err("draft token overflow".to_owned());
        }
        self.proposal.push(selected as i32, proposal_hidden);
        self.replay.push(selected as i32, replay_hidden);
        Ok(())
    }
}

/// Both routes read the same token in every row.
pub proof fn routes_read_the_same_tokens(pair: DraftPair, row: int)
    requires
        pair.wf(),
        0 <= row <= pair.proposal.tokens@.len(),
    ensures
        pair.proposal.input(row) == pair.replay.input(row),
{
}

/// One catch-up of a state check: how many drafts it accepts, how many rows it takes, whether it
/// is made on the rewound proposal itself or on a request that replays it, and the rows to which
/// a batch of all rows is then cut.
#[derive(Debug)]
pub struct CatchUpStep {
    pub accepted: usize,
    pub rows: usize,
    pub on_the_proposal: bool,
    pub cuts: Vec<usize>,
}

impl CatchUpStep {
    /// The catch-up that accepts a number of drafts.
    pub open spec fn accepts(self, accepted: int) -> bool {
        &&& self.accepted == accepted
        &&& self.rows == accepted + 1
        &&& self.on_the_proposal == (accepted == 0)
        &&& self.cuts@ == if accepted == DRAFT_WIDTH {
            Seq::new(DRAFT_WIDTH as nat, |i: int| (i + 1) as usize)
        } else {
            Seq::empty()
        }
    }
}

/// The catch-ups of a state check, in order: one for each number of drafts, from none to all. The
/// one that accepts all is followed by the cuts to fewer rows.
pub fn catch_up_steps() -> (out: Vec<CatchUpStep>)
    ensures
        out@.len() == DRAFT_WIDTH + 1,
        forall|i: int| 0 <= i < out@.len() ==> (#[trigger] out@[i]).accepts(i),
{
    let mut steps: Vec<CatchUpStep> = Vec::new();
    for accepted in 0..DRAFT_WIDTH + 1
        invariant
            steps@.len() == accepted,
            forall|i: int| 0 <= i < accepted ==> (#[trigger] steps@[i]).accepts(i),
    {
        let mut cuts: Vec<usize> = Vec::new();
        if accepted == DRAFT_WIDTH {
            for i in 0..DRAFT_WIDTH
                invariant
                    cuts@ == Seq::new(i as nat, |j: int| (j + 1) as usize),
            {
                cuts.push(i + 1);
                assert(cuts@ =~= Seq::new((i + 1) as nat, |j: int| (j + 1) as usize));
            }
        }
        assert(accepted != DRAFT_WIDTH ==> cuts@ =~= Seq::empty());
        let step = CatchUpStep {
            accepted,
            rows: accepted + 1,
            on_the_proposal: accepted == 0,
            cuts,
        };
        steps.push(step);
    }
    steps
}

/// The rows of a catch-up one by one, each token on its own hidden row.
pub fn single_rows(plan: &CatchUpPlan, width: usize) -> (out: Vec<StateBatch>)
    requires
        width > 0,
        plan.hidden@.len() == plan.tokens@.len() * width,
    ensures
        batch_views(out@) == Seq::new(
            plan.tokens@.len(),
            |i: int| transition(plan.tokens@[i], row_of(plan.hidden@, width as int, i)),
        ),
{
    let mut rows: Vec<StateBatch> = Vec::new();
    for i in 0..plan.tokens.len()
        invariant
            plan.hidden@.len() == plan.tokens@.len() * width,
            batch_views(rows@) == Seq::new(
                i as nat,
                |j: int| transition(plan.tokens@[j], row_of(plan.hidden@, width as int, j)),
            ),
    {
        proof {
            let n: int = plan.tokens@.len() as int;
            assert(0 <= i * width && i * width + width == (i + 1) * width && (i + 1) * width <= n
                * width) by (nonlinear_arith)
                requires
                    0 <= i < n,
                    width >= 0,
            ;
        }
        let all = plan.hidden.as_slice();
        assert((i + 1) * width <= all.len());
        let start: usize = i * width;
        let hidden = slice_to_vec(slice_subrange(all, start, start + width));
        let ghost before = rows@;
        rows.push(single(plan.tokens[i], hidden));
        assert(batch_views(rows@) =~= Seq::new(
            (i + 1) as nat,
            |j: int| transition(plan.tokens@[j], row_of(plan.hidden@, width as int, j)),
        )) by {
            assert(batch_views(rows@) =~= batch_views(before).push(rows@.last()@));
        }
    }
    rows
}

/// A state check catches up on one, two and three rows in turn: the first time on the rewound proposal
/// itself, then on requests of its own. Behind the last it cuts three rows to one and to two.
pub proof fn every_number_of_drafts_is_caught_up(steps: Vec<CatchUpStep>, at: int)
    requires
        call_ensures(catch_up_steps, (), steps),
        0 <= at < steps@.len(),
    ensures
        steps@.len() == 3,
        steps@[at].rows == at + 1,
        steps@[at].accepted == at,
        steps@[at].on_the_proposal <==> at == 0,
        at < 2 ==> steps@[at].cuts@.len() == 0,
        at == 2 ==> steps@[at].cuts@ == seq![1usize, 2usize],
{
    assert(steps@[at].accepts(at));
    if at == 2 {
        assert(steps@[at].cuts@ =~= seq![1usize, 2usize]);
    }
}

/// Both routes of a case start on the target's token, then each row runs on the token that the
/// optimized route selected; either route stands on its own hidden rows.
pub proof fn routes_stand_on_their_own_rows(
    pair: &mut DraftPair,
    selected: u32,
    proposal_hidden: Vec<u16>,
    replay_hidden: Vec<u16>,
    out: Result<(), String>,
)
    requires
        old(pair).wf(),
        old(pair).proposal.tokens@.len() < 2,
        call_ensures(DraftPair::record, (pair, selected, proposal_hidden, replay_hidden), out),
    ensures
        out is Ok <==> selected < 0x8000_0000,
        out is Ok ==> {
            &&& final(pair).proposal.tokens@.last() == selected
            &&& final(pair).replay.tokens@.last() == selected
            &&& final(pair).proposal.hidden@.last()@ == proposal_hidden@
            &&& final(pair).replay.hidden@.last()@ == replay_hidden@
            &&& final(pair).proposal.tokens@.len() == old(pair).proposal.tokens@.len() + 1
        },
        out is Err ==> *final(pair) == *old(pair),
{
}

/// Rows taken one by one make up the batch that they come from.
pub proof fn single_rows_make_up_the_batch(
    plan: &CatchUpPlan,
    width: usize,
    rows: Vec<StateBatch>,
    row: int,
    column: int,
)
    requires
        width > 0,
        plan.hidden@.len() == plan.tokens@.len() * width,
        call_ensures(single_rows, (plan, width), rows),
        0 <= row < plan.tokens@.len(),
        0 <= column < width,
    ensures
        rows@.len() == plan.tokens@.len(),
        rows@[row].tokens@.len() == 1,
        rows@[row].tokens@[0] == plan.tokens@[row],
        rows@[row].hidden@.len() == width,
        rows@[row].hidden@[column] == plan.hidden@[row * width + column],
{
    let n = plan.tokens@.len() as int;
    assert(0 <= row * width && row * width + width <= n * width) by (nonlinear_arith)
        requires
            0 <= row < n,
            width > 0,
    ;
    assert(batch_views(rows@).len() == rows@.len());
    assert(batch_views(rows@)[row] == rows@[row]@);
}

/// A draft row is added exactly where it selects the draft that stands next and left a hidden row; a row
/// that is refused leaves the proposal as it was.
pub proof fn selected_drafts_are_added_in_order(
    run: &mut DraftRun,
    draft_tokens: &[u32],
    selected: Option<u32>,
    hidden: Option<&[u16]>,
    out: Result<(), String>,
)
    requires
        old(run).wf(),
        old(run).tokens@.len() < DRAFT_WIDTH,
        call_ensures(DraftRun::record_selected, (run, draft_tokens, selected, hidden), out),
    ensures
        ({
            let n = old(run).tokens@.len() as int;
            &&& out is Ok <==> n < draft_tokens@.len() && selected == Some(draft_tokens@[n])
                && draft_tokens@[n] < 0x8000_0000 && hidden is Some
            &&& out is Err ==> *final(run) == *old(run)
            &&& out is Ok ==> {
                &&& final(run).tokens@.len() == n + 1
                &&& final(run).tokens@[n] == draft_tokens@[n]
                &&& final(run).tokens@.take(n) == old(run).tokens@
                &&& final(run).hidden@.last()@ == hidden->Some_0@
                &&& final(run).first == old(run).first
            }
        }),
{
    let n = old(run).tokens@.len() as int;
    if out is Ok {
        assert(final(run).tokens@.take(n) =~= old(run).tokens@);
    }
}

} // verus!
