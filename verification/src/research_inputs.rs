//! The inputs of the cache research run, and the row permutation that some candidates apply.
use crate::attention_inputs::{
    bf16_quotient, bf16_quotient_word, code_is_the_rest, f32_integer, round_to_f32,
    small_integers_are_exact,
};
use crate::number::{bf16_is_finite, f32_rank, rank_f32};
use crate::research_args::PhysicalVariant;
use vstd::arithmetic::div_mod::lemma_fundamental_div_mod_converse;
use vstd::prelude::*;
use vstd::slice::slice_to_vec;

verus! {

broadcast use vstd::string::group_string_axioms;

/// The cache heads of the run.
pub const HEADS: usize = 4;

/// The query heads of the run.
pub const Q_HEADS: usize = 16;

/// The head width of the attention case.
pub const ATTENTION_DIM: usize = 256;

/// What the words of a case are about.
#[derive(Clone, Copy, Debug, PartialEq, Eq, Structural)]
pub enum ValuesKind {
    Boundary,
    SignedZero,
    RecipeDistinguishing,
    Attention,
}

/// The largest value that a form can hold.
pub open spec fn largest(variant: PhysicalVariant) -> int {
    match variant {
        PhysicalVariant::E4M3FnuZ => 240,
        PhysicalVariant::OcpE4M3Fn => 448,
        PhysicalVariant::OcpE5M2 => 57344,
    }
}

/// A value just beyond the largest that a form can hold.
pub open spec fn beyond(variant: PhysicalVariant) -> int {
    match variant {
        PhysicalVariant::OcpE5M2 => 65535,
        _ => 511,
    }
}

/// A boundary word. The value plane holds the values of the key plane over 64, and ordinary values
/// in place of those that are not finite.
pub open spec fn boundary_word(
    token: int,
    head: int,
    column: int,
    value_plane: bool,
    variant: PhysicalVariant,
) -> u16 {
    let scale: nat = if value_plane {
        64
    } else {
        1
    };
    if column == 0 {
        0
    } else if column == 1 {
        0x8000
    } else if column == 2 {
        if value_plane {
            0x0080
        } else {
            0x0380
        }
    } else if column == 3 {
        bf16_quotient(largest(variant), scale)
    } else if column == 4 && !value_plane {
        0x7fc0
    } else if column == 5 && !value_plane {
        0x7f80
    } else if column == 6 && !value_plane {
        0xff80
    } else if column == 7 {
        bf16_quotient(beyond(variant), scale)
    } else {
        bf16_quotient((column * 13 + head * 7 + token * 5) % 61 - 30, 8 * scale)
    }
}

/// A word of a case, by its token, head and column.
pub open spec fn source_word(
    token: int,
    head: int,
    column: int,
    value_plane: bool,
    variant: PhysicalVariant,
    kind: ValuesKind,
) -> u16 {
    match kind {
        ValuesKind::SignedZero => if (token + head + column) % 2 == 0 {
            0
        } else {
            0x8000
        },
        ValuesKind::RecipeDistinguishing => bf16_quotient(
            (if column == 0 {
                104int
            } else {
                24
            }) + f32_integer((token * 3 + head) as nat),
            32,
        ),
        ValuesKind::Attention => bf16_quotient(
            (column * 13 + head * 7 + token * 11) % 61 - 30,
            if value_plane {
                256
            } else {
                32
            },
        ),
        ValuesKind::Boundary => boundary_word(token, head, column, value_plane, variant),
    }
}

fn make_word(
    token: u64,
    head: u64,
    column: u64,
    value_plane: bool,
    variant: PhysicalVariant,
    kind: ValuesKind,
) -> (out: u16)
    requires
        token <= 0x8_0000_0000,
        head <= HEADS,
        column <= 0x8_0000_0000,
    ensures
        out == source_word(
            token as int,
            head as int,
            column as int,
            value_plane,
            variant,
            kind,
        ),
{
    match kind {
        ValuesKind::SignedZero => if (token + head + column) % 2 == 0 {
            0
        } else {
            0x8000
        },
        ValuesKind::RecipeDistinguishing => {
            let base: u64 = if column == 0 {
                104
            } else {
                24
            };
            let step: u64 = round_to_f32(token * 3 + head);
            bf16_quotient_word((base + step) as i64, 32)
        },
        ValuesKind::Attention => {
            let code: i64 = ((column * 13 + head * 7 + token * 11) % 61) as i64 - 30;
            bf16_quotient_word(
                code,
                if value_plane {
                    256
                } else {
                    32
                },
            )
        },
        ValuesKind::Boundary => {
            let scale: u64 = if value_plane {
                64
            } else {
                1
            };
            let top: i64 = match variant {
                PhysicalVariant::E4M3FnuZ => 240,
                PhysicalVariant::OcpE4M3Fn => 448,
                PhysicalVariant::OcpE5M2 => 57344,
            };
            let over: i64 = match variant {
                PhysicalVariant::OcpE5M2 => 65535,
                _ => 511,
            };
            if column == 0 {
                0
            } else if column == 1 {
                0x8000
            } else if column == 2 {
                if value_plane {
                    0x0080
                } else {
                    0x0380
                }
            } else if column == 3 {
                bf16_quotient_word(top, scale)
            } else if column == 4 && !value_plane {
                0x7fc0
            } else if column == 5 && !value_plane {
                0x7f80
            } else if column == 6 && !value_plane {
                0xff80
            } else if column == 7 {
                bf16_quotient_word(over, scale)
            } else {
                let code: i64 = ((column * 13 + head * 7 + token * 5) % 61) as i64 - 30;
                bf16_quotient_word(code, 8 * scale)
            }
        },
    }
}

/// The word at a place of a plane whose rows are `head_dim` wide.
pub open spec fn plane_word(
    i: int,
    head_dim: int,
    value_plane: bool,
    variant: PhysicalVariant,
    kind: ValuesKind,
) -> u16 {
    source_word(
        i / head_dim / HEADS as int,
        i / head_dim % HEADS as int,
        i % head_dim,
        value_plane,
        variant,
        kind,
    )
}

/// The words of a plane of a case. The bounds are far beyond any memory.
pub fn source_words(
    token_count: usize,
    head_dim: usize,
    value_plane: bool,
    variant: PhysicalVariant,
    kind: ValuesKind,
) -> (out: Vec<u16>)
    requires
        token_count * HEADS * head_dim <= usize::MAX,
        token_count * HEADS <= usize::MAX,
        token_count <= 0x8_0000_0000,
        head_dim <= 0x8_0000_0000,
    ensures
        out@ == Seq::new(
            (token_count * HEADS * head_dim) as nat,
            |i: int| plane_word(i, head_dim as int, value_plane, variant, kind),
        ),
{
    let count: usize = token_count * HEADS * head_dim;
    let ghost word_at = |i: int| plane_word(i, head_dim as int, value_plane, variant, kind);
    let ghost all = Seq::new(count as nat, word_at);
    let mut words: Vec<u16> = Vec::new();
    for i in 0..count
        invariant
            count == token_count * HEADS * head_dim,
            token_count <= 0x8_0000_0000,
            head_dim <= 0x8_0000_0000,
            all == Seq::new(count as nat, word_at),
            forall|k: int|
                #[trigger] word_at(k) == plane_word(
                    k,
                    head_dim as int,
                    value_plane,
                    variant,
                    kind,
                ),
            words@ == all.take(i as int),
    {
        proof {
            assert(head_dim > 0) by (nonlinear_arith)
                requires
                    i < token_count * HEADS * head_dim,
                    i >= 0,
                    head_dim >= 0,
            ;
            assert((i as int) / (head_dim as int) < token_count * HEADS) by (nonlinear_arith)
                requires
                    0 <= i < token_count * HEADS * head_dim,
                    head_dim > 0,
            ;
            assert((i as int) % (head_dim as int) < head_dim) by (nonlinear_arith)
                requires
                    head_dim > 0,
            ;
        }
        let row: usize = i / head_dim;
        let word: u16 = make_word(
            (row / HEADS) as u64,
            (row % HEADS) as u64,
            (i % head_dim) as u64,
            value_plane,
            variant,
            kind,
        );
        words.push(word);
        assert(word == word_at(i as int));
        assert(all.take(i + 1) =~= all.take(i as int).push(all[i as int]));
    }
    assert(all.take(count as int) =~= all);
    words
}

/// A query word of the attention case.
pub open spec fn attention_query_word(i: int) -> u16 {
    bf16_quotient((i % 256 * 7 + i / 256 * 5) % 37 - 16, 16)
}

/// The query of the attention case.
pub fn attention_query() -> (out: Vec<u16>)
    ensures
        out@ == Seq::new((Q_HEADS * ATTENTION_DIM) as nat, |i: int| attention_query_word(i)),
{
    let count: usize = Q_HEADS * ATTENTION_DIM;
    let ghost all = Seq::new(count as nat, |i: int| attention_query_word(i));
    let mut words: Vec<u16> = Vec::new();
    for i in 0..count
        invariant
            count == 4096,
            all == Seq::new(count as nat, |i: int| attention_query_word(i)),
            words@ == all.take(i as int),
    {
        let code: i64 = ((i % 256 * 7 + i / 256 * 5) % 37) as i64 - 16;
        words.push(bf16_quotient_word(code, 16));
        assert(all.take(i + 1) =~= all.take(i as int).push(all[i as int]));
    }
    assert(all.take(count as int) =~= all);
    words
}

/// The column that a column of 256 changes places with: a row of 256 is read as 16 rows of 16 and
/// transposed.
pub open spec fn transposed_index(column: int) -> int {
    column % 16 * 16 + column / 16
}

/// The column that a column of 256 changes places with.
pub fn transpose16x16_index(column: usize) -> (out: usize)
    requires
        column < ATTENTION_DIM,
    ensures
        out == transposed_index(column as int),
        out < ATTENTION_DIM,
{
    column % 16 * 16 + column / 16
}

/// Rows of 256 with the columns of each transposed.
pub open spec fn transposed<T>(values: Seq<T>) -> Seq<T> {
    Seq::new(values.len(), |i: int| values[i / 256 * 256 + transposed_index(i % 256)])
}

/// Transposing columns twice leads back, so each column has a place of its own.
pub proof fn transposition_is_self_inverse(column: int)
    requires
        0 <= column < ATTENTION_DIM,
    ensures
        0 <= transposed_index(column) < ATTENTION_DIM,
        transposed_index(transposed_index(column)) == column,
{
}

/// Rows that are transposed twice are as they were.
pub proof fn transposing_twice_restores_the_rows<T>(values: Seq<T>)
    requires
        values.len() % 256 == 0,
    ensures
        transposed(transposed(values)) == values,
{
    let twice = transposed(transposed(values));
    assert forall|i: int| 0 <= i < values.len() implies twice[i] == values[i] by {
        let column = i % 256;
        let base = i / 256 * 256;
        transposition_is_self_inverse(column);
        let j = base + transposed_index(column);
        assert(0 <= j < values.len());
        assert(j / 256 * 256 == base && j % 256 == transposed_index(column));
    }
    assert(twice =~= values);
}

/// Keys and queries that are transposed together meet in the same pairs.
pub proof fn transposed_rows_meet_in_the_same_pairs<T>(a: Seq<T>, b: Seq<T>, i: int)
    requires
        a.len() == b.len(),
        a.len() % 256 == 0,
        0 <= i < a.len(),
    ensures
        ({
            let j = i / 256 * 256 + transposed_index(i % 256);
            &&& 0 <= j < a.len()
            &&& j / 256 == i / 256
            &&& transposed(a)[i] == a[j]
            &&& transposed(b)[i] == b[j]
        }),
{
    transposition_is_self_inverse(i % 256);
}

proof fn row_end_is_inside(len: int, i: int, column: int)
    requires
        len % 256 == 0,
        0 <= i < len,
        0 <= column < 256,
    ensures
        0 <= i / 256 * 256 + column < len,
{
}

fn transpose_rows<T: Copy>(words: &[T]) -> (out: Vec<T>)
    requires
        words@.len() % 256 == 0,
    ensures
        out@ == transposed(words@),
{
    let ghost all = transposed(words@);
    let mut out: Vec<T> = Vec::new();
    for i in 0..words.len()
        invariant
            words@.len() % 256 == 0,
            all == transposed(words@),
            out@ == all.take(i as int),
    {
        let column: usize = transpose16x16_index(i % 256);
        let source: usize = i / 256 * 256 + column;
        proof {
            row_end_is_inside(words@.len() as int, i as int, column as int);
            transposition_is_self_inverse(i as int % 256);
            assert(all[i as int] == words@[source as int]);
        }
        out.push(words[source]);
        assert(all.take(i + 1) =~= all.take(i as int).push(all[i as int]));
    }
    assert(all.take(words.len() as int) =~= all);
    out
}

/// The rows of a plane, transposed where that is asked for. Rows of another width than 256 cannot
/// be.
pub fn transform_key_rows(words: &[u16], token_count: usize, head_dim: usize, enabled: bool) -> (out:
    Result<Vec<u16>, String>)
    requires
        enabled && token_count * HEADS <= usize::MAX ==> head_dim == ATTENTION_DIM && words@.len()
            == token_count * HEADS * head_dim,
    ensures
        if !enabled {
            out is Ok && out->Ok_0@ == words@
        } else if token_count * HEADS > usize::MAX {
            out is Err && out->Err_0@ == "K/Q transform row count overflow"@
        } else {
            out is Ok && out->Ok_0@ == transposed(words@)
        },
{
    if !enabled {
        return Ok(slice_to_vec(words));
    }
    match token_count.checked_mul(HEADS) {
        None => Err("K/Q transform row count overflow".to_owned()),
        Some(rows) => {
            assert(words@.len() == rows * 256);
            Ok(transpose_rows(words))
        },
    }
}

/// The query of the attention case with its rows transposed.
pub fn transform_query_rows(words: &[u16]) -> (out: Vec<u16>)
    requires
        words@.len() == Q_HEADS * ATTENTION_DIM,
    ensures
        out@ == transposed(words@),
{
    transpose_rows(words)
}

/// The message that refuses to transpose rows of values, if there is one.
pub open spec fn rows_refusal(len: nat, rows: nat) -> Option<Seq<char>> {
    if rows * 256 > usize::MAX {
        Some("V/O f32 transform shape overflow"@)
    } else if len != rows * 256 {
        Some("V/O f32 transform shape differs"@)
    } else {
        None
    }
}

/// Rows of binary32 values with the columns of each transposed.
pub fn transpose_f32_rows(values: &[u32], rows: usize) -> (out: Result<Vec<u32>, String>)
    ensures
        match rows_refusal(values@.len(), rows as nat) {
            Some(message) => out is Err && out->Err_0@ == message,
            None => out is Ok && out->Ok_0@ == transposed(values@),
        },
{
    let count: usize = values.len();
    match rows.checked_mul(ATTENTION_DIM) {
        None => Err("V/O f32 transform shape overflow".to_owned()),
        Some(expected) => {
            if count != expected {
                return Err("V/O f32 transform shape differs".to_owned());
            }
            Ok(transpose_rows(values))
        },
    }
}

/// Whether every block row of a plane ends in zeros behind its last value.
pub open spec fn is_padded_with_zeros(values: Seq<u8>, rows: int, head_dim: int) -> bool {
    let stride = (head_dim + 15) / 16 * 16;
    forall|row: int, column: int|
        0 <= row < rows && head_dim <= column < stride ==> #[trigger] values[row * stride + column]
            == 0
}

/// Whether every block row of a plane ends in zeros behind its last value.
pub fn padding_zero(values: &[u8], rows: usize, head_dim: usize) -> (out: bool)
    requires
        head_dim <= usize::MAX - 15,
        values@.len() == rows * ((head_dim + 15) / 16 * 16),
    ensures
        out == is_padded_with_zeros(values@, rows as int, head_dim as int),
{
    let stride: usize = (head_dim + 15) / 16 * 16;
    let total: usize = values.len();
    for row in 0..rows
        invariant
            total == values@.len(),
            stride == (head_dim + 15) / 16 * 16,
            head_dim <= stride,
            values@.len() == rows * stride,
            forall|r: int, column: int|
                0 <= r < row && head_dim <= column < stride ==> #[trigger] values@[r * stride
                    + column] == 0,
    {
        proof {
            assert(row * stride + stride <= rows * stride) by (nonlinear_arith)
                requires
                    row < rows,
                    stride >= 0,
            ;
            assert(0 <= row * stride) by (nonlinear_arith)
                requires
                    row >= 0,
                    stride >= 0,
            ;
        }
        let base: usize = row * stride;
        for column in head_dim..stride
            invariant
                base == row * stride,
                base + stride <= total,
                total == values@.len(),
                row < rows,
                stride == (head_dim + 15) / 16 * 16,
                head_dim <= stride,
                forall|c: int| head_dim <= c < column ==> #[trigger] values@[row * stride + c] == 0,
        {
            if values[base + column] != 0 {
                assert(values@[row as int * stride as int + column as int] != 0);
                return false;
            }
        }
    }
    true
}

/// Whether every word of a plane is finite.
pub open spec fn all_words_finite(words: Seq<u16>) -> bool {
    forall|i: int| 0 <= i < words.len() ==> bf16_is_finite(#[trigger] words[i])
}

/// Whether every word of a plane is finite.
pub fn words_are_finite(words: &[u16]) -> (out: bool)
    ensures
        out == all_words_finite(words@),
{
    for i in 0..words.len()
        invariant
            forall|j: int| 0 <= j < i ==> bf16_is_finite(#[trigger] words@[j]),
    {
        if words[i] % 0x8000 >= 0x7f80 {
            assert(!bf16_is_finite(words@[i as int]));
            return false;
        }
    }
    true
}

/// Whether a quantized plane is that of zeros alone: unit scales, zero bytes and zero values.
pub open spec fn is_zero_plane(scales: Seq<u8>, values: Seq<u8>, dequantized: Seq<u32>) -> bool {
    &&& forall|i: int| 0 <= i < scales.len() ==> #[trigger] scales[i] == 127
    &&& forall|i: int| 0 <= i < values.len() ==> #[trigger] values[i] == 0
    &&& forall|i: int| 0 <= i < dequantized.len() ==> f32_rank(#[trigger] dequantized[i]) == 0
}

/// Whether a quantized plane is that of zeros alone.
pub fn zero_plane(scales: &[u8], values: &[u8], dequantized: &[u32]) -> (out: bool)
    ensures
        out == is_zero_plane(scales@, values@, dequantized@),
{
    for i in 0..scales.len()
        invariant
            forall|j: int| 0 <= j < i ==> #[trigger] scales@[j] == 127,
    {
        if scales[i] != 127 {
            assert(scales@[i as int] != 127);
            return false;
        }
    }
    for i in 0..values.len()
        invariant
            forall|j: int| 0 <= j < i ==> #[trigger] values@[j] == 0,
    {
        if values[i] != 0 {
            assert(values@[i as int] != 0);
            return false;
        }
    }
    for i in 0..dequantized.len()
        invariant
            forall|j: int| 0 <= j < i ==> f32_rank(#[trigger] dequantized@[j]) == 0,
    {
        if rank_f32(dequantized[i]) != 0 {
            assert(f32_rank(dequantized@[i as int]) != 0);
            return false;
        }
    }
    true
}

/// A word of a plane depends on its token, head and column: zeros alternate in sign with all three, the
/// values that part the recipes are larger in the first column, and the others go through thirty
/// numerators of either sign.
pub proof fn planes_follow_their_place(
    token_count: usize,
    head_dim: usize,
    value_plane: bool,
    variant: PhysicalVariant,
    kind: ValuesKind,
    words: Vec<u16>,
    token: int,
    head: int,
    column: int,
    code: int,
)
    requires
        token_count <= 0x8_0000_0000,
        head_dim <= 0x8_0000_0000,
        call_ensures(source_words, (token_count, head_dim, value_plane, variant, kind), words),
        0 <= token < token_count,
        token < 0x10_0000,
        0 <= head < 4,
        0 <= column < head_dim,
        0 <= code < 61,
        kind == ValuesKind::Attention ==> (13 * column + 7 * head + 11 * token - code) % 61 == 0,
        kind == ValuesKind::Boundary ==> (13 * column + 7 * head + 5 * token - code) % 61 == 0,
    ensures
        ({
            let word = words@[(token * 4 + head) * head_dim + column];
            let ordinary = column >= 8 || value_plane && 4 <= column <= 6;
            &&& kind == ValuesKind::SignedZero ==> word == if (token + head + column) % 2 == 0 {
                0u16
            } else {
                0x8000
            }
            &&& kind == ValuesKind::RecipeDistinguishing ==> word == bf16_quotient(
                (if column == 0 {
                    104int
                } else {
                    24
                }) + 3 * token + head,
                32,
            )
            &&& kind == ValuesKind::Attention ==> word == bf16_quotient(
                code - 30,
                if value_plane {
                    256
                } else {
                    32
                },
            )
            &&& kind == ValuesKind::Boundary && ordinary ==> word == bf16_quotient(
                code - 30,
                if value_plane {
                    512
                } else {
                    8
                },
            )
            &&& kind == ValuesKind::Boundary && column == 0 ==> word == 0
            &&& kind == ValuesKind::Boundary && column == 1 ==> word == 0x8000
            &&& kind == ValuesKind::Boundary && !value_plane && column == 4 ==> word == 0x7fc0
            &&& kind == ValuesKind::Boundary && !value_plane && column == 5 ==> word == 0x7f80
            &&& kind == ValuesKind::Boundary && !value_plane && column == 6 ==> word == 0xff80
            &&& kind == ValuesKind::Boundary && column == 3 && !value_plane ==> word
                == bf16_quotient(
                match variant {
                    PhysicalVariant::E4M3FnuZ => 240,
                    PhysicalVariant::OcpE4M3Fn => 448,
                    PhysicalVariant::OcpE5M2 => 57344int,
                },
                1,
            )
        }),
{
    let i = (token * 4 + head) * head_dim + column;
    let line = token * 4 + head;
    lemma_fundamental_div_mod_converse(i, head_dim as int, line, column);
    lemma_fundamental_div_mod_converse(line, 4, token, head);
    assert(0 <= i < token_count * 4 * head_dim) by (nonlinear_arith)
        requires
            i == (token * 4 + head) * head_dim + column,
            0 <= token < token_count,
            0 <= head < 4,
            0 <= column < head_dim,
    ;
    if kind == ValuesKind::Attention {
        code_is_the_rest(13 * column + 7 * head + 11 * token, code, 61);
    }
    if kind == ValuesKind::Boundary {
        code_is_the_rest(13 * column + 7 * head + 5 * token, code, 61);
    }
    small_integers_are_exact((token * 3 + head) as nat);
}

/// A query word of the attention case goes up by seven from column to column and by five from head to
/// head, modulo thirty-seven.
pub proof fn attention_queries_follow_their_pattern(
    words: Vec<u16>,
    head: int,
    column: int,
    code: int,
)
    requires
        call_ensures(attention_query, (), words),
        0 <= head < 16,
        0 <= column < 256,
        0 <= code < 37,
        (7 * column + 5 * head - code) % 37 == 0,
    ensures
        words@.len() == 4096,
        words@[head * 256 + column] == bf16_quotient(code - 16, 16),
{
    assert((head * 256 + column) / 256 == head && (head * 256 + column) % 256 == column);
    code_is_the_rest(7 * column + 5 * head, code, 37);
}

/// A row of 256 is read as sixteen rows of sixteen: what stands in row `a` and column `b` goes to row
/// `b` and column `a`, and rows of 256 stay apart.
pub proof fn rows_and_columns_change_places(
    words: &[u16],
    out: Vec<u16>,
    head: int,
    a: int,
    b: int,
    place: usize,
)
    requires
        words@.len() == 4096,
        call_ensures(transform_query_rows, (words,), out),
        0 <= head < 16,
        0 <= a < 16,
        0 <= b < 16,
        call_ensures(transpose16x16_index, ((16 * a + b) as usize,), place),
    ensures
        out@.len() == 4096,
        place == 16 * b + a,
        out@[head * 256 + 16 * a + b] == words@[head * 256 + 16 * b + a],
{
    let i = head * 256 + 16 * a + b;
    assert(i / 256 == head && i % 256 == 16 * a + b);
    assert((16 * a + b) % 16 == b && (16 * a + b) / 16 == a);
}

/// Planes and binary32 rows are transposed in the same way, each row of 256 on its own; rows that are
/// not asked for stay.
pub proof fn planes_are_transposed_row_by_row(
    words: &[u16],
    token_count: usize,
    enabled: bool,
    plane: Vec<u16>,
    values: &[u32],
    rows: usize,
    turned: Vec<u32>,
    row: int,
    a: int,
    b: int,
)
    requires
        token_count * 4 <= usize::MAX,
        words@.len() == token_count * 4 * 256,
        call_ensures(transform_key_rows, (words, token_count, 256, enabled), Ok(plane)),
        call_ensures(transpose_f32_rows, (values, rows), Ok(turned)),
        0 <= row,
        0 <= a < 16,
        0 <= b < 16,
    ensures
        !enabled ==> plane@ == words@,
        enabled && row < token_count * 4 ==> plane@[row * 256 + 16 * a + b] == words@[row * 256 + 16
            * b + a],
        values@.len() == rows * 256 && turned@.len() == values@.len(),
        row < rows ==> turned@[row * 256 + 16 * a + b] == values@[row * 256 + 16 * b + a],
{
    let i = row * 256 + 16 * a + b;
    assert(i / 256 == row && i % 256 == 16 * a + b);
    assert((16 * a + b) % 16 == b && (16 * a + b) / 16 == a);
}

/// Padding reaches from the last value of a row to the end of its last block of sixteen, and every byte
/// of it must be zero.
pub proof fn padding_ends_with_the_block(
    values: &[u8],
    rows: usize,
    head_dim: usize,
    blocks: int,
    zero: bool,
    row: int,
    column: int,
)
    requires
        head_dim <= usize::MAX - 15,
        16 * (blocks - 1) < head_dim <= 16 * blocks,
        values@.len() == rows * (16 * blocks),
        call_ensures(padding_zero, (values, rows, head_dim), zero),
        0 <= row < rows,
        head_dim <= column < 16 * blocks,
    ensures
        zero ==> values@[row * (16 * blocks) + column] == 0,
        !zero ==> exists|r: int, c: int|
            0 <= r < rows && head_dim <= c < 16 * blocks && #[trigger] values@[r * (16 * blocks)
                + c] != 0,
{
    let stride = (head_dim + 15) / 16 * 16;
    assert((head_dim + 15) / 16 == blocks);
    assert(stride == 16 * blocks);
    assert(zero ==> values@[row * stride + column] == 0);
    if !zero {
        let (r, c) = choose|r: int, c: int|
            0 <= r < rows && head_dim <= c < stride && #[trigger] values@[r * stride + c] != 0;
        assert(values@[r * (16 * blocks) + c] != 0);
    }
}

/// A plane of zeros has unit scales, zero bytes, and zeros of either sign as its values; one other byte
/// tells it apart.
pub proof fn zero_planes_hold_zeros_alone(
    scales: &[u8],
    values: &[u8],
    dequantized: &[u32],
    zero: bool,
    words: &[u16],
    finite: bool,
)
    requires
        call_ensures(zero_plane, (scales, values, dequantized), zero),
        call_ensures(words_are_finite, (words,), finite),
    ensures
        zero <==> {
            &&& forall|i: int| 0 <= i < scales@.len() ==> #[trigger] scales@[i] == 127
            &&& forall|i: int| 0 <= i < values@.len() ==> #[trigger] values@[i] == 0
            &&& forall|i: int|
                0 <= i < dequantized@.len() ==> #[trigger] dequantized@[i] == 0 || dequantized@[i]
                    == 0x8000_0000
        },
        finite <==> forall|i: int| 0 <= i < words@.len() ==> (#[trigger] words@[i]) % 0x8000 < 0x7f80,
{
    if zero {
        assert forall|i: int| 0 <= i < dequantized@.len() implies #[trigger] dequantized@[i] == 0
            || dequantized@[i] == 0x8000_0000 by {
            assert(f32_rank(dequantized@[i]) == 0);
        }
    }
    if finite {
        assert forall|i: int| 0 <= i < words@.len() implies (#[trigger] words@[i]) % 0x8000
            < 0x7f80 by {
            assert(bf16_is_finite(words@[i]));
        }
    }
}

} // verus!
