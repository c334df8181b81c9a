//! The Gemma slice run as a sequence of steps: what each one is given, and what it must give back.
use crate::audit::DispatchEvidence;
use crate::gemma_slice::{
    activation_words, check_dispatch, dispatch_message, is_exact_dispatch, make_activation,
    readback_message, readback_refusal, small_activation, small_words, unit_scale, unit_words,
    MatmulRequest, SliceOp, KEY_WORDS, QUERY_WORDS, ROWS, WIDTH,
};
use vstd::prelude::*;
use vstd::slice::slice_to_vec;

verus! {

broadcast use vstd::string::group_string_axioms;

/// The steps of the run, in the order in which it makes them.
#[derive(Clone, Copy, Debug, PartialEq, Eq, Structural)]
pub enum SliceStep {
    Embedding,
    Gate,
    Up,
    Activation,
    Down,
    Logits,
    QueryProjection,
    KeyProjection,
    ValueProjection,
    QueryNorm,
    KeyNorm,
    ValueNorm,
    Rotary,
    Attention,
    FinalNorm,
}

/// The number of steps.
pub const STEPS: usize = 15;

impl SliceStep {
    /// The step at a place of the run.
    pub open spec fn at(place: int) -> SliceStep {
        if place == 0 {
            SliceStep::Embedding
        } else if place == 1 {
            SliceStep::Gate
        } else if place == 2 {
            SliceStep::Up
        } else if place == 3 {
            SliceStep::Activation
        } else if place == 4 {
            SliceStep::Down
        } else if place == 5 {
            SliceStep::Logits
        } else if place == 6 {
            SliceStep::QueryProjection
        } else if place == 7 {
            SliceStep::KeyProjection
        } else if place == 8 {
            SliceStep::ValueProjection
        } else if place == 9 {
            SliceStep::QueryNorm
        } else if place == 10 {
            SliceStep::KeyNorm
        } else if place == 11 {
            SliceStep::ValueNorm
        } else if place == 12 {
            SliceStep::Rotary
        } else if place == 13 {
            SliceStep::Attention
        } else {
            SliceStep::FinalNorm
        }
    }

    fn step_at(place: usize) -> (out: SliceStep)
        ensures
            out == SliceStep::at(place as int),
    {
        if place == 0 {
            SliceStep::Embedding
        } else if place == 1 {
            SliceStep::Gate
        } else if place == 2 {
            SliceStep::Up
        } else if place == 3 {
            SliceStep::Activation
        } else if place == 4 {
            SliceStep::Down
        } else if place == 5 {
            SliceStep::Logits
        } else if place == 6 {
            SliceStep::QueryProjection
        } else if place == 7 {
            SliceStep::KeyProjection
        } else if place == 8 {
            SliceStep::ValueProjection
        } else if place == 9 {
            SliceStep::QueryNorm
        } else if place == 10 {
            SliceStep::KeyNorm
        } else if place == 11 {
            SliceStep::ValueNorm
        } else if place == 12 {
            SliceStep::Rotary
        } else if place == 13 {
            SliceStep::Attention
        } else {
            SliceStep::FinalNorm
        }
    }

    /// The operation of a step.
    pub open spec fn operation(self) -> SliceOp {
        match self {
            SliceStep::Embedding => SliceOp::Embedding,
            SliceStep::Activation => SliceOp::GeluTanhMul,
            SliceStep::QueryNorm => SliceOp::CompactRmsNorm,
            SliceStep::KeyNorm => SliceOp::CompactRmsNorm,
            SliceStep::ValueNorm => SliceOp::CompactRmsNorm,
            SliceStep::Rotary => SliceOp::Rotary,
            SliceStep::Attention => SliceOp::Attention,
            SliceStep::FinalNorm => SliceOp::FinalRmsNorm,
            _ => SliceOp::Matmul,
        }
    }

    /// The operation of a step.
    pub fn op(self) -> (out: SliceOp)
        ensures
            out == self.operation(),
    {
        match self {
            SliceStep::Embedding => SliceOp::Embedding,
            SliceStep::Activation => SliceOp::GeluTanhMul,
            SliceStep::QueryNorm => SliceOp::CompactRmsNorm,
            SliceStep::KeyNorm => SliceOp::CompactRmsNorm,
            SliceStep::ValueNorm => SliceOp::CompactRmsNorm,
            SliceStep::Rotary => SliceOp::Rotary,
            SliceStep::Attention => SliceOp::Attention,
            SliceStep::FinalNorm => SliceOp::FinalRmsNorm,
            _ => SliceOp::Matmul,
        }
    }

    /// How many words a step gives: in its first output, and in its second where it has one.
    pub open spec fn output_words(self) -> (nat, nat) {
        match self {
            SliceStep::Embedding => ((ROWS * WIDTH) as nat, 0),
            SliceStep::Gate => (9, 0),
            SliceStep::Up => (9, 0),
            SliceStep::Activation => (9, 0),
            SliceStep::Down => (9, 0),
            SliceStep::Logits => (9, 0),
            SliceStep::QueryProjection => (QUERY_WORDS as nat, 0),
            SliceStep::KeyProjection => (KEY_WORDS as nat, 0),
            SliceStep::ValueProjection => (KEY_WORDS as nat, 0),
            SliceStep::QueryNorm => (QUERY_WORDS as nat, 0),
            SliceStep::KeyNorm => (KEY_WORDS as nat, 0),
            SliceStep::ValueNorm => (KEY_WORDS as nat, 0),
            SliceStep::Rotary => (QUERY_WORDS as nat, KEY_WORDS as nat),
            SliceStep::Attention => (QUERY_WORDS as nat, 0),
            SliceStep::FinalNorm => ((ROWS * WIDTH) as nat, 0),
        }
    }

    fn output_lengths(self) -> (out: (usize, usize))
        ensures
            out.0 == self.output_words().0,
            out.1 == self.output_words().1,
    {
        match self {
            SliceStep::Embedding => (ROWS * WIDTH, 0),
            SliceStep::Gate => (9, 0),
            SliceStep::Up => (9, 0),
            SliceStep::Activation => (9, 0),
            SliceStep::Down => (9, 0),
            SliceStep::Logits => (9, 0),
            SliceStep::QueryProjection => (QUERY_WORDS, 0),
            SliceStep::KeyProjection => (KEY_WORDS, 0),
            SliceStep::ValueProjection => (KEY_WORDS, 0),
            SliceStep::QueryNorm => (QUERY_WORDS, 0),
            SliceStep::KeyNorm => (KEY_WORDS, 0),
            SliceStep::ValueNorm => (KEY_WORDS, 0),
            SliceStep::Rotary => (QUERY_WORDS, KEY_WORDS),
            SliceStep::Attention => (QUERY_WORDS, 0),
            SliceStep::FinalNorm => (ROWS * WIDTH, 0),
        }
    }

    /// The product of a step: its tensor, and its rows, depth and columns.
    pub open spec fn product(self) -> Option<(Seq<char>, nat, nat, nat)> {
        match self {
            SliceStep::Gate => Some(
                ("model.language_model.layers.0.mlp.gate_proj.weight"@, 3, 17, 3),
            ),
            SliceStep::Up => Some(("model.language_model.layers.0.mlp.up_proj.weight"@, 3, 17, 3)),
            SliceStep::Down => Some(
                ("model.language_model.layers.0.mlp.down_proj.weight"@, 3, 3, 3),
            ),
            SliceStep::Logits => Some(("model.language_model.embed_tokens.weight"@, 3, 3, 3)),
            SliceStep::QueryProjection => Some(
                ("model.language_model.layers.0.self_attn.q_proj.weight"@, 3, 17, 18),
            ),
            SliceStep::KeyProjection => Some(
                ("model.language_model.layers.0.self_attn.k_proj.weight"@, 3, 17, 6),
            ),
            SliceStep::ValueProjection => Some(
                ("model.language_model.layers.0.self_attn.v_proj.weight"@, 3, 17, 6),
            ),
            _ => None,
        }
    }

    /// The product of a step.
    pub fn matmul_request(self) -> (out: Option<MatmulRequest<'static>>)
        ensures
            match self.product() {
                Some((tensor, m, k, n)) => {
                    &&& out is Some
                    &&& out->Some_0.tensor_name@ == tensor
                    &&& out->Some_0.m == m
                    &&& out->Some_0.k == k
                    &&& out->Some_0.n == n
                },
                None => out is None,
            },
    {
        match self {
            SliceStep::Gate => Some(
                MatmulRequest {
                    tensor_name: "model.language_model.layers.0.mlp.gate_proj.weight",
                    m: 3,
                    k: 17,
                    n: 3,
                },
            ),
            SliceStep::Up => Some(
                MatmulRequest {
                    tensor_name: "model.language_model.layers.0.mlp.up_proj.weight",
                    m: 3,
                    k: 17,
                    n: 3,
                },
            ),
            SliceStep::Down => Some(
                MatmulRequest {
                    tensor_name: "model.language_model.layers.0.mlp.down_proj.weight",
                    m: 3,
                    k: 3,
                    n: 3,
                },
            ),
            SliceStep::Logits => Some(
                MatmulRequest {
                    tensor_name: "model.language_model.embed_tokens.weight",
                    m: 3,
                    k: 3,
                    n: 3,
                },
            ),
            SliceStep::QueryProjection => Some(
                MatmulRequest {
                    tensor_name: "model.language_model.layers.0.self_attn.q_proj.weight",
                    m: 3,
                    k: 17,
                    n: 18,
                },
            ),
            SliceStep::KeyProjection => Some(
                MatmulRequest {
                    tensor_name: "model.language_model.layers.0.self_attn.k_proj.weight",
                    m: 3,
                    k: 17,
                    n: 6,
                },
            ),
            SliceStep::ValueProjection => Some(
                MatmulRequest {
                    tensor_name: "model.language_model.layers.0.self_attn.v_proj.weight",
                    m: 3,
                    k: 17,
                    n: 6,
                },
            ),
            _ => None,
        }
    }

    /// The tensor that scales a norm; a norm without one is scaled by ones.
    pub open spec fn scale(self) -> Option<Seq<char>> {
        match self {
            SliceStep::QueryNorm => Some(
                "model.language_model.layers.0.self_attn.q_norm.weight"@,
            ),
            SliceStep::KeyNorm => Some("model.language_model.layers.0.self_attn.k_norm.weight"@),
            _ => None,
        }
    }

    /// The tensor that scales a norm.
    pub fn scale_tensor(self) -> (out: Option<&'static str>)
        ensures
            match self.scale() {
                Some(tensor) => out is Some && out->Some_0@ == tensor,
                None => out is None,
            },
    {
        match self {
            SliceStep::QueryNorm => Some("model.language_model.layers.0.self_attn.q_norm.weight"),
            SliceStep::KeyNorm => Some("model.language_model.layers.0.self_attn.k_norm.weight"),
            _ => None,
        }
    }
}

/// What a step gave back.
#[derive(Debug)]
pub struct StepOutput {
    pub first: Vec<u16>,
    pub second: Vec<u16>,
}

/// The words that a step is given: an activation, or what earlier steps gave. The scale of the
/// value normalization is made of ones; other weights come from the model.
pub open spec fn step_inputs(step: SliceStep, outputs: Seq<StepOutput>) -> Seq<Seq<u16>> {
    match step {
        SliceStep::Embedding => Seq::empty(),
        SliceStep::Gate => seq![small_words()],
        SliceStep::Up => seq![small_words()],
        SliceStep::Activation => seq![outputs[1].first@, outputs[2].first@],
        SliceStep::Down => seq![outputs[3].first@],
        SliceStep::Logits => seq![outputs[4].first@],
        SliceStep::QueryProjection => seq![small_words()],
        SliceStep::KeyProjection => seq![small_words()],
        SliceStep::ValueProjection => seq![small_words()],
        SliceStep::QueryNorm => seq![outputs[6].first@],
        SliceStep::KeyNorm => seq![outputs[7].first@],
        SliceStep::ValueNorm => seq![outputs[8].first@, unit_words()],
        SliceStep::Rotary => seq![outputs[9].first@, outputs[10].first@],
        SliceStep::Attention => seq![outputs[12].first@, outputs[12].second@, outputs[11].first@],
        SliceStep::FinalNorm => seq![activation_words()],
    }
}

/// Whether the inputs of a step have the shapes that its operation takes.
pub open spec fn inputs_fit(step: SliceStep, inputs: Seq<Seq<u16>>) -> bool {
    match step {
        SliceStep::Embedding => inputs.len() == 0,
        SliceStep::Activation => inputs.len() == 2 && inputs[0].len() == inputs[1].len()
            && inputs[0].len() > 0,
        SliceStep::QueryNorm => inputs.len() == 1 && inputs[0].len() == 9 * 6,
        SliceStep::KeyNorm => inputs.len() == 1 && inputs[0].len() == 3 * 6,
        SliceStep::ValueNorm => inputs.len() == 2 && inputs[0].len() == 3 * 6 && inputs[1].len()
            == 6,
        SliceStep::Rotary => inputs.len() == 2 && inputs[0].len() == QUERY_WORDS && inputs[1].len()
            == KEY_WORDS,
        SliceStep::Attention => inputs.len() == 3 && inputs[0].len() == QUERY_WORDS
            && inputs[1].len() == KEY_WORDS && inputs[2].len() == KEY_WORDS,
        SliceStep::FinalNorm => inputs.len() == 1 && inputs[0].len() == ROWS * WIDTH,
        _ => {
            &&& step.product() is Some
            &&& inputs.len() == 1
            &&& inputs[0].len() == step.product()->Some_0.1 * step.product()->Some_0.2
        },
    }
}

/// The contents of a list of rows.
pub open spec fn rows_of(rows: Seq<Vec<u16>>) -> Seq<Seq<u16>> {
    Seq::new(rows.len(), |i: int| rows[i]@)
}

/// A run so far.
#[derive(Debug)]
pub struct SliceRun {
    pub outputs: Vec<StepOutput>,
}

/// What the next step does.
#[derive(Debug)]
pub struct SliceAction {
    pub step: SliceStep,
    pub inputs: Vec<Vec<u16>>,
}

impl SliceRun {
    /// Every step so far gave as many words as it must.
    pub open spec fn wf(self) -> bool {
        &&& self.outputs@.len() <= STEPS
        &&& forall|i: int|
            0 <= i < self.outputs@.len() ==> {
                &&& (#[trigger] self.outputs@[i]).first@.len() == SliceStep::at(i).output_words().0
                &&& self.outputs@[i].second@.len() == SliceStep::at(i).output_words().1
            }
    }

    /// Begins a run.
    pub fn start() -> (out: SliceRun)
        ensures
            out.wf(),
            out.outputs@.len() == 0,
    {
        SliceRun { outputs: Vec::new() }
    }

    fn first_of(&self, place: usize) -> (out: Vec<u16>)
        requires
            place < self.outputs@.len(),
        ensures
            out@ == self.outputs@[place as int].first@,
    {
        slice_to_vec(self.outputs[place].first.as_slice())
    }

    /// What the next step does, until all have been made. Its inputs have the shapes that its
    /// operation takes.
    pub fn next(&self) -> (out: Option<SliceAction>)
        requires
            self.wf(),
        ensures
            match out {
                Some(action) => {
                    let step = SliceStep::at(self.outputs@.len() as int);
                    &&& self.outputs@.len() < STEPS
                    &&& action.step == step
                    &&& rows_of(action.inputs@) == step_inputs(step, self.outputs@)
                    &&& inputs_fit(step, rows_of(action.inputs@))
                },
                None => self.outputs@.len() == STEPS,
            },
    {
        let place: usize = self.outputs.len();
        if place >= STEPS {
            return None;
        }
        let step = SliceStep::step_at(place);
        let mut inputs: Vec<Vec<u16>> = Vec::new();
        match step {
            SliceStep::Embedding => {},
            SliceStep::Activation => {
                inputs.push(self.first_of(1));
                inputs.push(self.first_of(2));
                assert(self.outputs@[1].first@.len() == 9 && self.outputs@[2].first@.len() == 9);
            },
            SliceStep::Down => {
                inputs.push(self.first_of(3));
                assert(self.outputs@[3].first@.len() == 9);
            },
            SliceStep::Logits => {
                inputs.push(self.first_of(4));
                assert(self.outputs@[4].first@.len() == 9);
            },
            SliceStep::QueryNorm => {
                inputs.push(self.first_of(6));
                assert(self.outputs@[6].first@.len() == QUERY_WORDS);
            },
            SliceStep::KeyNorm => {
                inputs.push(self.first_of(7));
                assert(self.outputs@[7].first@.len() == KEY_WORDS);
            },
            SliceStep::ValueNorm => {
                inputs.push(self.first_of(8));
                inputs.push(unit_scale());
                assert(self.outputs@[8].first@.len() == KEY_WORDS);
            },
            SliceStep::Rotary => {
                inputs.push(self.first_of(9));
                inputs.push(self.first_of(10));
                assert(self.outputs@[9].first@.len() == QUERY_WORDS);
                assert(self.outputs@[10].first@.len() == KEY_WORDS);
            },
            SliceStep::Attention => {
                inputs.push(self.first_of(12));
                inputs.push(slice_to_vec(self.outputs[12].second.as_slice()));
                inputs.push(self.first_of(11));
                assert(self.outputs@[12].first@.len() == QUERY_WORDS);
                assert(self.outputs@[12].second@.len() == KEY_WORDS);
                assert(self.outputs@[11].first@.len() == KEY_WORDS);
            },
            SliceStep::FinalNorm => {
                inputs.push(make_activation());
            },
            _ => {
                inputs.push(small_activation());
            },
        }
        assert(rows_of(inputs@) =~= step_inputs(step, self.outputs@));
        proof {
            if step.product() is Some {
                let (_, m, k, _) = step.product()->Some_0;
                assert(m * k == 3 * k) by (nonlinear_arith)
                    requires
                        m == 3,
                ;
            }
        }
        Some(SliceAction { step, inputs })
    }

    /// Records what the next step gave: its dispatch must be exactly that of its operation, and its
    /// output as long as it must be. A refused step leaves the run as it was.
    pub fn record(&mut self, dispatch: &DispatchEvidence, target: &str, output: StepOutput) -> (out:
        Result<(), String>)
        requires
            old(self).wf(),
            old(self).outputs@.len() < STEPS,
        ensures
            final(self).wf(),
            ({
                let step = SliceStep::at(old(self).outputs@.len() as int);
                if !is_exact_dispatch(step.operation(), *dispatch, target@) {
                    &&& out is Err
                    &&& out->Err_0@ == dispatch_message(step.operation())
                    &&& final(self).outputs@ == old(self).outputs@
                } else if output.first@.len() != step.output_words().0 || output.second@.len()
                    != step.output_words().1 {
                    &&& out is Err
                    &&& out->Err_0@ == readback_message(step.operation())
                    &&& final(self).outputs@ == old(self).outputs@
                } else {
                    &&& out is Ok
                    &&& final(self).outputs@ == old(self).outputs@.push(output)
                }
            }),
    {
        let step = SliceStep::step_at(self.outputs.len());
        match check_dispatch(step.op(), dispatch, target) {
            Ok(()) => {},
            Err(message) => {
                return Err(message);
            },
        }
        let (first, second) = step.output_lengths();
        if output.first.len() != first || output.second.len() != second {
            return Err(readback_refusal(step.op()));
        }
        self.outputs.push(output);
        Ok(())
    }
}

/// A step is given only what earlier steps gave: later outputs do not change its inputs.
pub proof fn steps_use_earlier_outputs(outputs: Seq<StepOutput>, later: Seq<StepOutput>)
    requires
        outputs.len() < STEPS,
        later.len() >= outputs.len(),
        later.take(outputs.len() as int) == outputs,
    ensures
        step_inputs(SliceStep::at(outputs.len() as int), later) == step_inputs(
            SliceStep::at(outputs.len() as int),
            outputs,
        ),
{
    assert forall|i: int| 0 <= i < outputs.len() implies #[trigger] later[i] == outputs[i] by {
        assert(later.take(outputs.len() as int)[i] == later[i]);
    }
}

/// Every step builds on what was recorded for the steps before it: each normalization on its own
/// projection, the rotation on the query and the key normalization, the attention on both parts of
/// the rotation and on the value normalization. `earlier` is a run whose next step is the source,
/// `run` one whose next step is the reader.
pub proof fn steps_read_what_their_source_gave(
    earlier: &SliceRun,
    run: &SliceRun,
    source: SliceAction,
    reader: SliceAction,
)
    requires
        earlier.wf(),
        run.wf(),
        call_ensures(SliceRun::next, (earlier,), Some(source)),
        call_ensures(SliceRun::next, (run,), Some(reader)),
    ensures
        ({
            let place = earlier.outputs@.len() as int;
            let given = |slot: int|
                place < run.outputs@.len() && slot < reader.inputs@.len()
                    && reader.inputs@[slot]@ == run.outputs@[place].first@;
            let pair = (source.step, reader.step);
            &&& pair == (SliceStep::Gate, SliceStep::Activation) ==> given(0)
            &&& pair == (SliceStep::Up, SliceStep::Activation) ==> given(1)
            &&& pair == (SliceStep::Activation, SliceStep::Down) ==> given(0)
            &&& pair == (SliceStep::Down, SliceStep::Logits) ==> given(0)
            &&& pair == (SliceStep::QueryProjection, SliceStep::QueryNorm) ==> given(0)
            &&& pair == (SliceStep::KeyProjection, SliceStep::KeyNorm) ==> given(0)
            &&& pair == (SliceStep::ValueProjection, SliceStep::ValueNorm) ==> given(0)
            &&& pair == (SliceStep::QueryNorm, SliceStep::Rotary) ==> given(0)
            &&& pair == (SliceStep::KeyNorm, SliceStep::Rotary) ==> given(1)
            &&& pair == (SliceStep::Rotary, SliceStep::Attention) ==> given(0)
                && reader.inputs@.len() == 3 && reader.inputs@[1]@ == run.outputs@[place].second@
            &&& pair == (SliceStep::ValueNorm, SliceStep::Attention) ==> given(2)
        }),
{
    let inputs = rows_of(reader.inputs@);
    assert(inputs.len() == reader.inputs@.len());
    assert forall|i: int| 0 <= i < inputs.len() implies #[trigger] reader.inputs@[i]@
        == inputs[i] by {}
}

/// What a step gave is read by its own reader and by no other step: two runs that differ in one
/// output go on with the same inputs everywhere else.
pub proof fn outputs_are_read_by_their_reader_alone(
    earlier: &SliceRun,
    a: &SliceRun,
    b: &SliceRun,
    source: SliceAction,
    x: SliceAction,
    y: SliceAction,
)
    requires
        earlier.wf(),
        a.wf(),
        b.wf(),
        a.outputs@.len() == b.outputs@.len(),
        forall|i: int|
            0 <= i < a.outputs@.len() && i != earlier.outputs@.len() ==> #[trigger] a.outputs@[i]
                == b.outputs@[i],
        call_ensures(SliceRun::next, (earlier,), Some(source)),
        call_ensures(SliceRun::next, (a,), Some(x)),
        call_ensures(SliceRun::next, (b,), Some(y)),
        !(source.step == SliceStep::Gate && x.step == SliceStep::Activation),
        !(source.step == SliceStep::Up && x.step == SliceStep::Activation),
        !(source.step == SliceStep::Activation && x.step == SliceStep::Down),
        !(source.step == SliceStep::Down && x.step == SliceStep::Logits),
        !(source.step == SliceStep::QueryProjection && x.step == SliceStep::QueryNorm),
        !(source.step == SliceStep::KeyProjection && x.step == SliceStep::KeyNorm),
        !(source.step == SliceStep::ValueProjection && x.step == SliceStep::ValueNorm),
        !(source.step == SliceStep::QueryNorm && x.step == SliceStep::Rotary),
        !(source.step == SliceStep::KeyNorm && x.step == SliceStep::Rotary),
        !(source.step == SliceStep::Rotary && x.step == SliceStep::Attention),
        !(source.step == SliceStep::ValueNorm && x.step == SliceStep::Attention),
    ensures
        x.step == y.step,
        rows_of(x.inputs@) == rows_of(y.inputs@),
{
    assert(rows_of(x.inputs@) =~= rows_of(y.inputs@));
}

/// Fifteen steps are made, each of them once.
pub proof fn every_step_is_made_once(a: &SliceRun, b: &SliceRun, x: SliceAction, y: SliceAction)
    requires
        a.wf(),
        b.wf(),
        call_ensures(SliceRun::next, (a,), Some(x)),
        call_ensures(SliceRun::next, (b,), Some(y)),
    ensures
        a.outputs@.len() < 15,
        x.step == y.step <==> a.outputs@.len() == b.outputs@.len(),
{
}

/// A run ends when fifteen steps were recorded.
pub proof fn a_run_ends_behind_its_last_step(run: &SliceRun, out: Option<SliceAction>)
    requires
        run.wf(),
        call_ensures(SliceRun::next, (run,), out),
    ensures
        out is None <==> run.outputs@.len() == 15,
{
}

/// A product gives one word for each of its rows and columns, and is given as many words as it has
/// rows and depth.
pub proof fn products_fit_their_words(run: &SliceRun, action: SliceAction, request: MatmulRequest)
    requires
        run.wf(),
        call_ensures(SliceRun::next, (run,), Some(action)),
        call_ensures(SliceStep::matmul_request, (action.step,), Some(request)),
    ensures
        action.inputs@.len() == 1,
        action.inputs@[0]@.len() == request.m * request.k,
        action.step.output_words().0 == request.m * request.n,
        action.step.output_words().1 == 0,
        request.m == 3,
{
    assert(rows_of(action.inputs@)[0] == action.inputs@[0]@);
    assert(request.m * request.n == 3 * request.n && request.m * request.k == 3 * request.k)
        by (nonlinear_arith)
        requires
            request.m == 3,
    ;
}

/// A step is recorded just where its dispatch is exactly that of its operation and its output has the
/// length of its operation; then the run stands at the next step, with that output last.
pub proof fn exact_steps_advance_the_run(
    run: &mut SliceRun,
    action: SliceAction,
    op: SliceOp,
    dispatch: &DispatchEvidence,
    target: &str,
    output: StepOutput,
    checked: Result<(), String>,
    out: Result<(), String>,
)
    requires
        old(run).wf(),
        call_ensures(SliceRun::next, (old(run),), Some(action)),
        call_ensures(SliceStep::op, (action.step,), op),
        call_ensures(check_dispatch, (op, dispatch, target), checked),
        call_ensures(SliceRun::record, (run, dispatch, target, output), out),
    ensures
        out is Ok <==> checked is Ok && output.first@.len() == action.step.output_words().0
            && output.second@.len() == action.step.output_words().1,
        out is Ok ==> final(run).outputs@ == old(run).outputs@.push(output),
        out is Err ==> final(run).outputs@ == old(run).outputs@,
{
}

/// Each step is of the operation that its name says, and only the rotation has a second output. A
/// normalization and the attention keep the length of what they are given.
pub proof fn outputs_have_the_shape_of_their_inputs(run: &SliceRun, action: SliceAction, op: SliceOp)
    requires
        run.wf(),
        call_ensures(SliceRun::next, (run,), Some(action)),
        call_ensures(SliceStep::op, (action.step,), op),
    ensures
        op == SliceOp::Embedding <==> action.step == SliceStep::Embedding,
        op == SliceOp::GeluTanhMul <==> action.step == SliceStep::Activation,
        op == SliceOp::Rotary <==> action.step == SliceStep::Rotary,
        op == SliceOp::Attention <==> action.step == SliceStep::Attention,
        op == SliceOp::FinalRmsNorm <==> action.step == SliceStep::FinalNorm,
        op == SliceOp::CompactRmsNorm <==> action.step == SliceStep::QueryNorm || action.step
            == SliceStep::KeyNorm || action.step == SliceStep::ValueNorm,
        op == SliceOp::CompactRmsNorm || op == SliceOp::FinalRmsNorm || op == SliceOp::GeluTanhMul
            || op == SliceOp::Attention || op == SliceOp::Rotary ==> action.inputs@.len() >= 1
            && action.step.output_words().0 == action.inputs@[0]@.len(),
        action.step.output_words().1 > 0 <==> op == SliceOp::Rotary,
        op == SliceOp::Rotary ==> action.inputs@.len() == 2 && action.step.output_words().1
            == action.inputs@[1]@.len(),
        action.step == SliceStep::ValueNorm ==> action.inputs@.len() == 2
            && action.inputs@[1]@.len() == 6,
{
    let inputs = rows_of(action.inputs@);
    assert(inputs.len() == action.inputs@.len());
    assert forall|i: int| 0 <= i < inputs.len() implies #[trigger] action.inputs@[i]@
        == inputs[i] by {}
    if action.step == SliceStep::Activation {
        assert(run.outputs@[1].first@.len() == 9);
    }
}

/// The products and normalizations read the tensors of their own layer part: no two steps share one
/// but for the embedding table, which the logits read too.
pub proof fn steps_read_their_own_tensors(
    a: SliceStep,
    b: SliceStep,
    x: Option<MatmulRequest<'static>>,
    y: Option<MatmulRequest<'static>>,
    scale: Option<&'static str>,
)
    requires
        call_ensures(SliceStep::matmul_request, (a,), x),
        call_ensures(SliceStep::matmul_request, (b,), y),
        call_ensures(SliceStep::scale_tensor, (a,), scale),
    ensures
        x is Some && y is Some && x->Some_0.tensor_name@ == y->Some_0.tensor_name@ ==> a == b,
        scale is Some <==> a == SliceStep::QueryNorm || a == SliceStep::KeyNorm,
        a == SliceStep::Gate ==> x is Some && x->Some_0.tensor_name@
            == "model.language_model.layers.0.mlp.gate_proj.weight"@ && x->Some_0.k == 17,
        a == SliceStep::Up ==> x is Some && x->Some_0.tensor_name@
            == "model.language_model.layers.0.mlp.up_proj.weight"@ && x->Some_0.k == 17,
        a == SliceStep::Down ==> x is Some && x->Some_0.tensor_name@
            == "model.language_model.layers.0.mlp.down_proj.weight"@ && x->Some_0.k == 3,
        a == SliceStep::Logits ==> x is Some && x->Some_0.tensor_name@
            == "model.language_model.embed_tokens.weight"@ && x->Some_0.k == 3,
        a == SliceStep::QueryProjection ==> x is Some && x->Some_0.tensor_name@
            == "model.language_model.layers.0.self_attn.q_proj.weight"@ && x->Some_0.n == 3 * 6,
        a == SliceStep::KeyProjection ==> x is Some && x->Some_0.tensor_name@
            == "model.language_model.layers.0.self_attn.k_proj.weight"@ && x->Some_0.n == 6,
        a == SliceStep::ValueProjection ==> x is Some && x->Some_0.tensor_name@
            == "model.language_model.layers.0.self_attn.v_proj.weight"@ && x->Some_0.n == 6,
        a == SliceStep::QueryNorm ==> scale->Some_0@
            == "model.language_model.layers.0.self_attn.q_norm.weight"@,
        a == SliceStep::KeyNorm ==> scale->Some_0@
            == "model.language_model.layers.0.self_attn.k_norm.weight"@,
{
    reveal_strlit("model.language_model.layers.0.mlp.gate_proj.weight");
    reveal_strlit("model.language_model.layers.0.mlp.up_proj.weight");
    reveal_strlit("model.language_model.layers.0.mlp.down_proj.weight");
    reveal_strlit("model.language_model.embed_tokens.weight");
    reveal_strlit("model.language_model.layers.0.self_attn.q_proj.weight");
    reveal_strlit("model.language_model.layers.0.self_attn.k_proj.weight");
    reveal_strlit("model.language_model.layers.0.self_attn.v_proj.weight");
    if x is Some && y is Some {
        let (s, t) = (x->Some_0.tensor_name@, y->Some_0.tensor_name@);
        assert(s == t ==> s.len() == t.len() && s[31] == t[31] && s[35] == t[35] && s[40] == t[40]);
    }
}

} // verus!
