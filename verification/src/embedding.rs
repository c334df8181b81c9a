//! The embedding run: its cases, the dispatches they must come from, and the rows they must give.
use crate::attention_inputs::code_is_the_rest;
use crate::audit::DispatchEvidence;
use crate::bytes::{i32_image, i32_to_bytes, le_u16, same_items};
use crate::elementwise::covering_groups;
use crate::gemma_slice::{gather_rows, gathered, gathered_rows_stand_in_order, ids_in_table};
use crate::text::{append_decimal, decimal, joined, same_text};
use vstd::prelude::*;

verus! {

broadcast use vstd::string::group_string_axioms;

/// A case of the run. The table of a synthetic case is made, the other one is read from the model.
#[derive(Debug)]
pub struct EmbeddingCase {
    pub synthetic: bool,
    pub vocab: usize,
    pub hidden: usize,
    pub ids: Vec<i32>,
}

/// What a case says.
pub struct EmbeddingShape {
    pub synthetic: bool,
    pub vocab: usize,
    pub hidden: usize,
    pub ids: Seq<i32>,
}

impl View for EmbeddingCase {
    type V = EmbeddingShape;

    open spec fn view(&self) -> EmbeddingShape {
        EmbeddingShape {
            synthetic: self.synthetic,
            vocab: self.vocab,
            hidden: self.hidden,
            ids: self.ids@,
        }
    }
}

/// What a list of cases says.
pub open spec fn shapes_of(cases: Seq<EmbeddingCase>) -> Seq<EmbeddingShape> {
    Seq::new(cases.len(), |i: int| cases[i]@)
}

/// The widths of the synthetic cases.
pub open spec fn hidden_sizes() -> Seq<usize> {
    seq![1usize, 3, 17, 255, 256, 257, 2_560]
}

/// The cases of the run: a synthetic one for each width, and three rows of the model.
pub open spec fn embedding_cases() -> Seq<EmbeddingShape> {
    Seq::new(
        7,
        |i: int|
            EmbeddingShape {
                synthetic: true,
                vocab: 5,
                hidden: hidden_sizes()[i],
                ids: seq![4i32, 0, 4],
            },
    ).push(
        EmbeddingShape { synthetic: false, vocab: 3, hidden: 2_560, ids: seq![2i32, 0, 2] },
    )
}

/// The cases of the run.
pub fn planned_cases() -> (out: Vec<EmbeddingCase>)
    ensures
        shapes_of(out@) == embedding_cases(),
{
    let sizes: Vec<usize> = vec![1, 3, 17, 255, 256, 257, 2_560];
    assert(sizes@ =~= hidden_sizes());
    let ghost all = embedding_cases();
    let mut cases: Vec<EmbeddingCase> = Vec::new();
    assert(shapes_of(cases@) =~= all.take(0));
    for i in 0..7
        invariant
            sizes@ == hidden_sizes(),
            all == embedding_cases(),
            shapes_of(cases@) == all.take(i as int),
    {
        let ids: Vec<i32> = vec![4, 0, 4];
        assert(ids@ =~= seq![4i32, 0, 4]);
        let ghost before = cases@;
        cases.push(EmbeddingCase { synthetic: true, vocab: 5, hidden: sizes[i], ids });
        assert(shapes_of(cases@) =~= shapes_of(before).push(cases@.last()@));
        assert(all.take(i + 1) =~= all.take(i as int).push(all[i as int]));
    }
    let ids: Vec<i32> = vec![2, 0, 2];
    assert(ids@ =~= seq![2i32, 0, 2]);
    let ghost before = cases@;
    cases.push(EmbeddingCase { synthetic: false, vocab: 3, hidden: 2_560, ids });
    assert(shapes_of(cases@) =~= shapes_of(before).push(cases@.last()@));
    assert(all.take(7).push(all[7]) =~= all);
    cases
}

/// Every identifier of a case names a row of its table.
pub proof fn case_ids_name_rows(i: int, j: int)
    requires
        0 <= i < embedding_cases().len(),
        0 <= j < embedding_cases()[i].ids.len(),
    ensures
        0 <= embedding_cases()[i].ids[j] < embedding_cases()[i].vocab,
{
}

/// The bytes of a list of identifiers.
pub fn i32_bytes(values: &[i32]) -> (out: Vec<u8>)
    ensures
        out@ == i32_image(values@),
{
    i32_to_bytes(values)
}

/// The word at a place of a synthetic table.
pub open spec fn table_word(index: int) -> u16 {
    ((index * 37 + 11) % 0x1_0000) as u16
}

/// The bytes of a synthetic table.
pub open spec fn synthetic_bytes(count: nat) -> Seq<u8> {
    Seq::new(2 * count, |i: int| le_u16(table_word(i / 2))[i % 2])
}

/// The bytes of a synthetic table.
pub fn synthetic_weight(vocab: usize, hidden: usize) -> (out: Vec<u8>)
    requires
        vocab * hidden * 37 + 11 <= usize::MAX,
    ensures
        out@ == synthetic_bytes((vocab * hidden) as nat),
{
    proof {
        assert(0 <= vocab * hidden) by (nonlinear_arith)
            requires
                vocab >= 0,
                hidden >= 0,
        ;
    }
    let count: usize = vocab * hidden;
    let mut out: Vec<u8> = Vec::new();
    for index in 0..count
        invariant
            count * 37 + 11 <= usize::MAX,
            out@ == synthetic_bytes(index as nat),
    {
        let word: u16 = ((index * 37 + 11) % 0x1_0000) as u16;
        out.push((word % 256) as u8);
        out.push((word / 256) as u8);
        assert(out@ =~= synthetic_bytes((index + 1) as nat));
    }
    out
}

/// Whether a dispatch is exactly the one that a gather must come from.
pub open spec fn is_exact_embedding(
    dispatch: DispatchEvidence,
    tokens: nat,
    hidden: nat,
    target: Seq<char>,
) -> bool {
    &&& dispatch.abi_version == 1
    &&& dispatch.info_version == 1
    &&& dispatch.dispatch_id != 0
    &&& dispatch.dispatch_count == 1
    &&& dispatch.kernel_id == 1
    &&& dispatch.workgroup_size_x == 256
    &&& dispatch.grid_size_x == covering_groups(tokens * hidden)
    &&& dispatch.row_count == tokens
    &&& dispatch.normalized_size == hidden
    &&& dispatch.backend == 1
    &&& !dispatch.fallback_allowed
    &&& !dispatch.fallback_used
    &&& dispatch.kernel_symbol@ == "embedding.gather.bf16_i32.v1"@
    &&& dispatch.device_symbol@ == "sllm_embedding_gather_bf16_i32_v1"@
    &&& dispatch.target@ == target
}

/// Refuses a dispatch that is not the one that a gather must come from.
pub fn validate_dispatch(
    dispatch: &DispatchEvidence,
    tokens: usize,
    hidden: usize,
    target: &str,
) -> (out: Result<(), String>)
    requires
        tokens * hidden <= usize::MAX,
    ensures
        if covering_groups(tokens as nat * hidden as nat) > u32::MAX {
            out is Err && out->Err_0@ == "embedding grid does not fit u32"@
        } else if !is_exact_embedding(*dispatch, tokens as nat, hidden as nat, target@) {
            &&& out is Err
            &&& out->Err_0@ == "embedding dispatch metadata violated the exact contract"@
        } else {
            out is Ok
        },
{
    proof {
        assert(0 <= tokens * hidden) by (nonlinear_arith)
            requires
                tokens >= 0,
                hidden >= 0,
        ;
    }
    let elements: usize = tokens * hidden;
    let rest: usize = if elements % 256 != 0 {
        1
    } else {
        0
    };
    let grid: usize = elements / 256 + rest;
    if grid as u64 > u32::MAX as u64 {
        return Err("embedding grid does not fit u32".to_owned());
    }
    if dispatch.abi_version != 1 || dispatch.info_version != 1 || dispatch.dispatch_id == 0
        || dispatch.dispatch_count != 1 || dispatch.kernel_id != 1 || dispatch.workgroup_size_x
        != 256 || dispatch.grid_size_x as u64 != grid as u64 || dispatch.row_count != tokens as u64
        || dispatch.normalized_size != hidden as u64 || dispatch.backend != 1
        || dispatch.fallback_allowed || dispatch.fallback_used || !same_text(
        dispatch.kernel_symbol.as_str(),
        "embedding.gather.bf16_i32.v1",
    ) || !same_text(dispatch.device_symbol.as_str(), "sllm_embedding_gather_bf16_i32_v1")
        || !same_text(dispatch.target.as_str(), target) {
        return Err("embedding dispatch metadata violated the exact contract".to_owned());
    }
    Ok(())
}

/// Refuses a table whose bytes do not match its shape.
pub fn check_table(vocab: usize, hidden: usize, weight_bytes: usize) -> (out: Result<(), String>)
    ensures
        if vocab * hidden * 2 > usize::MAX {
            out is Err && out->Err_0@ == "embedding weight size overflow"@
        } else if weight_bytes != vocab * hidden * 2 {
            out is Err && out->Err_0@ == "embedding weight bytes do not match shape"@
        } else {
            out is Ok
        },
{
    proof {
        assert(0 <= vocab * hidden) by (nonlinear_arith)
            requires
                vocab >= 0,
                hidden >= 0,
        ;
    }
    let count: usize = match vocab.checked_mul(hidden) {
        Some(count) => count,
        None => {
            return Err("embedding weight size overflow".to_owned());
        },
    };
    let bytes: usize = match count.checked_mul(2) {
        Some(bytes) => bytes,
        None => {
            return Err("embedding weight size overflow".to_owned());
        },
    };
    if weight_bytes != bytes {
        return Err("embedding weight bytes do not match shape".to_owned());
    }
    Ok(())
}

/// Whether a list of identifiers has a negative one.
pub open spec fn has_negative(ids: Seq<i32>) -> bool {
    exists|i: int| 0 <= i < ids.len() && ids[i] < 0
}

/// The rows that a gather must give.
pub fn expected_rows(table: &[u8], ids: &[i32], hidden: usize) -> (out: Result<Vec<u8>, String>)
    requires
        hidden * 2 <= usize::MAX,
        !has_negative(ids@) ==> ids_in_table(table@, ids@, hidden * 2),
    ensures
        if has_negative(ids@) {
            out is Err && out->Err_0@ == "negative oracle ID"@
        } else {
            out is Ok && out->Ok_0@ == gathered(table@, ids@, hidden * 2)
        },
{
    for i in 0..ids.len()
        invariant
            forall|j: int| 0 <= j < i ==> ids@[j] >= 0,
    {
        if ids[i] < 0 {
            assert(ids@[i as int] < 0);
            return Err("negative oracle ID".to_owned());
        }
    }
    Ok(gather_rows(table, ids, hidden * 2))
}

/// Refuses rows that are not those of the table, byte for byte.
pub fn check_rows(expected: &[u8], actual: &[u8], written: u64, hidden: usize) -> (out: Result<
    (),
    String,
>)
    ensures
        if written != expected@.len() {
            out is Err && out->Err_0@ == "embedding output byte count mismatch"@
        } else if actual@ != expected@ {
            &&& out is Err
            &&& out->Err_0@ == "embedding byte oracle mismatch for hidden="@ + decimal(
                hidden as nat,
            )
        } else {
            out is Ok
        },
{
    if written != expected.len() as u64 {
        return Err("embedding output byte count mismatch".to_owned());
    }
    if !same_items(actual, expected) {
        let mut message = "embedding byte oracle mismatch for hidden=".to_owned();
        append_decimal(&mut message, hidden as u64);
        return Err(message);
    }
    Ok(())
}

/// What became of a submission with a negative identifier.
#[derive(Clone, Copy, Debug, PartialEq, Eq, Structural)]
pub enum NegativeSubmission {
    Accepted,
    BackendStatus(u32),
    OtherError,
}

/// The status with which the backend refuses an identifier that names no row.
pub const TOKEN_RANGE_STATUS: u32 = 0x117;

/// A negative identifier must be refused before it is dispatched, with the status made for it;
/// `described` tells an error in words.
pub fn negative_token_rejected(submission: NegativeSubmission, described: &str) -> (out: Result<
    bool,
    String,
>)
    ensures
        match submission {
            NegativeSubmission::Accepted => {
                &&& out is Err
                &&& out->Err_0@ == "negative token unexpectedly dispatched"@
            },
            NegativeSubmission::BackendStatus(status) => if status == TOKEN_RANGE_STATUS {
                out == Ok::<bool, String>(true)
            } else {
                &&& out is Err
                &&& out->Err_0@ == "negative token returned the wrong error: "@ + described@
            },
            NegativeSubmission::OtherError => {
                &&& out is Err
                &&& out->Err_0@ == "negative token returned the wrong error: "@ + described@
            },
        },
{
    match submission {
        NegativeSubmission::Accepted => Err("negative token unexpectedly dispatched".to_owned()),
        NegativeSubmission::BackendStatus(status) => {
            if status == TOKEN_RANGE_STATUS {
                Ok(true)
            } else {
                Err(joined("negative token returned the wrong error: ", described))
            }
        },
        NegativeSubmission::OtherError => Err(
            joined("negative token returned the wrong error: ", described),
        ),
    }
}

/// A dispatch is accepted just where it is a fresh single one of the gather, on the HIP backend of the
/// target without fallback, with a row for each token, and just as many groups of 256 as cover all
/// words.
pub proof fn gathers_cover_every_word(
    dispatch: &DispatchEvidence,
    tokens: usize,
    hidden: usize,
    target: &str,
    groups: int,
    out: Result<(), String>,
)
    requires
        tokens * hidden <= usize::MAX,
        call_ensures(validate_dispatch, (dispatch, tokens, hidden, target), out),
        256 * (groups - 1) < tokens * hidden <= 256 * groups,
    ensures
        out is Ok <==> {
            &&& dispatch.grid_size_x == groups
            &&& dispatch.workgroup_size_x == 256
            &&& dispatch.row_count == tokens
            &&& dispatch.normalized_size == hidden
            &&& dispatch.dispatch_id != 0
            &&& dispatch.dispatch_count == 1
            &&& dispatch.kernel_id == 1
            &&& dispatch.abi_version == 1
            &&& dispatch.info_version == 1
            &&& dispatch.backend == 1
            &&& !dispatch.fallback_allowed
            &&& !dispatch.fallback_used
            &&& dispatch.kernel_symbol@ == "embedding.gather.bf16_i32.v1"@
            &&& dispatch.device_symbol@ == "sllm_embedding_gather_bf16_i32_v1"@
            &&& dispatch.target@ == target@
        },
{
    assert((tokens * hidden + 255) / 256 == groups);
    assert(covering_groups(tokens as nat * hidden as nat) == groups);
}

/// An expected row is the row of the table that its identifier names, two bytes for each word; a
/// negative identifier names none.
pub proof fn expected_rows_are_those_named(
    table: &[u8],
    ids: &[i32],
    hidden: usize,
    out: Result<Vec<u8>, String>,
    row: int,
    column: int,
)
    requires
        hidden * 2 <= usize::MAX,
        !has_negative(ids@) ==> ids_in_table(table@, ids@, hidden * 2),
        call_ensures(expected_rows, (table, ids, hidden), out),
        0 <= row < ids@.len(),
        0 <= column < hidden * 2,
    ensures
        ids@[row] < 0 ==> out is Err,
        out matches Ok(rows) ==> rows@.len() == ids@.len() * (hidden * 2) && rows@[row * (hidden * 2)
            + column] == table@[ids@[row] * (hidden * 2) + column],
{
    if !has_negative(ids@) {
        gathered_rows_stand_in_order(table@, ids@, hidden * 2, row, column);
    }
}

/// The words of a synthetic table go up by 37 from one to the next, starting at eleven, and wrap around
/// at the end of their range; the low byte stands first.
pub proof fn synthetic_words_go_up_evenly(
    vocab: usize,
    hidden: usize,
    bytes: Vec<u8>,
    at: int,
    word: int,
)
    requires
        call_ensures(synthetic_weight, (vocab, hidden), bytes),
        0 <= at < vocab * hidden,
        0 <= word < 0x1_0000,
        (37 * at + 11 - word) % 0x1_0000 == 0,
    ensures
        bytes@.len() == 2 * (vocab * hidden),
        bytes@[2 * at] == word % 256,
        bytes@[2 * at + 1] == word / 256,
{
    code_is_the_rest(37 * at + 11, word, 0x1_0000);
    assert(2 * at / 2 == at && 2 * at % 2 == 0);
    assert((2 * at + 1) / 2 == at && (2 * at + 1) % 2 == 1);
    assert(table_word(at) == word);
}

/// Rows are accepted just where all of them were written and are the expected ones.
pub proof fn rows_are_exact(
    expected: &[u8],
    actual: &[u8],
    written: u64,
    hidden: usize,
    out: Result<(), String>,
)
    requires
        call_ensures(check_rows, (expected, actual, written, hidden), out),
    ensures
        out is Ok <==> expected@ == actual@ && written == actual@.len(),
{
}

/// A table is accepted just where it holds two bytes for each word of each row.
pub proof fn tables_hold_whole_rows(
    vocab: usize,
    hidden: usize,
    bytes: usize,
    out: Result<(), String>,
)
    requires
        call_ensures(check_table, (vocab, hidden, bytes), out),
    ensures
        out is Ok <==> bytes == vocab * hidden * 2,
{
}

/// A negative token counts as rejected only by the status that names it; a run that takes it, or that
/// fails in another way, is refused.
pub proof fn negative_tokens_are_rejected_by_name(
    submission: NegativeSubmission,
    described: &str,
    out: Result<bool, String>,
)
    requires
        call_ensures(negative_token_rejected, (submission, described), out),
    ensures
        out is Ok <==> submission == NegativeSubmission::BackendStatus(0x117),
        out is Ok ==> out->Ok_0,
{
}

} // verus!
