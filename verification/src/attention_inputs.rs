//! The inputs of the causal attention evidence run: queries, keys and values that are made from
//! their place alone.
use crate::attention_provider::{HEAD_DIM, KV_HEADS, Q_HEADS};
use crate::number::{
    bf16_rne, f32_quotient, f32_quotient_bits, float_to_bf16_rne, half_is_the_same_quotient,
    nearest_even,
};
use vstd::arithmetic::div_mod::{lemma_fundamental_div_mod, lemma_fundamental_div_mod_converse};
use vstd::prelude::*;

verus! {

/// The BF16 word nearest to an integer over a positive integer, by way of binary32.
pub open spec fn bf16_quotient(num: int, den: nat) -> u16 {
    bf16_rne(f32_quotient(num, den))
}

/// The BF16 word nearest to an integer over a positive integer, by way of binary32.
pub fn bf16_quotient_word(num: i64, den: u64) -> (out: u16)
    requires
        0 < den <= 0x100_0000_0000,
        -0x100_0000_0000 <= num <= 0x100_0000_0000,
    ensures
        out == bf16_quotient(num as int, den as nat),
{
    float_to_bf16_rne(f32_quotient_bits(num, den))
}

/// The place of a word in rows of heads: its row, its head and its dimension.
pub open spec fn row_at(i: int, heads: int) -> int {
    i / HEAD_DIM as int / heads
}

/// The head of a word.
pub open spec fn head_at(i: int, heads: int) -> int {
    i / HEAD_DIM as int % heads
}

/// The dimension of a word.
pub open spec fn dimension_at(i: int) -> int {
    i % HEAD_DIM as int
}

/// A query word: three live dimensions, the second one by head.
pub open spec fn q_word(i: int) -> u16 {
    if dimension_at(i) == 0 {
        bf16_quotient(16, 1)
    } else if dimension_at(i) == 1 {
        bf16_quotient(1 + head_at(i, Q_HEADS as int) % 4, 1)
    } else if dimension_at(i) == 2 {
        bf16_quotient(1048576, 1)
    } else {
        0
    }
}

/// The queries of `m` rows. The third dimension is large enough for the tiny keys to matter.
pub fn input_q_words(m: usize) -> (out: Vec<u16>)
    requires
        m * (Q_HEADS * HEAD_DIM) <= usize::MAX,
    ensures
        out@ == Seq::new((m * (Q_HEADS * HEAD_DIM)) as nat, |i: int| q_word(i)),
{
    let count: usize = m * (Q_HEADS * HEAD_DIM);
    let ghost all = Seq::new(count as nat, |i: int| q_word(i));
    let mut words: Vec<u16> = Vec::new();
    for i in 0..count
        invariant
            all == Seq::new(count as nat, |i: int| q_word(i)),
            words@ == all.take(i as int),
    {
        let head: usize = i / HEAD_DIM % Q_HEADS;
        let dimension: usize = i % HEAD_DIM;
        let word: u16 = if dimension == 0 {
            bf16_quotient_word(16, 1)
        } else if dimension == 1 {
            bf16_quotient_word(1 + (head % 4) as i64, 1)
        } else if dimension == 2 {
            bf16_quotient_word(1_048_576, 1)
        } else {
            0
        };
        words.push(word);
        assert(all.take(i + 1) =~= all.take(i as int).push(all[i as int]));
    }
    assert(all.take(count as int) =~= all);
    words
}

/// A key word: one dimension by position, one by head, and one that holds the smallest binary16
/// value with an alternating sign.
pub open spec fn k_word(start_position: int, i: int) -> u16 {
    let absolute = start_position + row_at(i, KV_HEADS as int);
    let head = head_at(i, KV_HEADS as int);
    if dimension_at(i) == 0 {
        bf16_quotient(absolute % 5 - 2, 1)
    } else if dimension_at(i) == 1 {
        bf16_quotient(head, 4)
    } else if dimension_at(i) == 2 {
        if (absolute + head) % 2 == 0 {
            0x3380
        } else {
            0xb380
        }
    } else {
        0
    }
}

/// The keys of some tokens from a position on.
pub open spec fn key_words(token_count: nat, start_position: int) -> Seq<u16> {
    Seq::new(
        token_count * (KV_HEADS * HEAD_DIM) as nat,
        |i: int| k_word(start_position, i),
    )
}

/// The keys of some tokens from a position on.
pub fn input_k_words(token_count: usize, start_position: u64) -> (out: Vec<u16>)
    requires
        token_count * (KV_HEADS * HEAD_DIM) <= usize::MAX,
        start_position + token_count <= u64::MAX + 1,
    ensures
        out@ == key_words(token_count as nat, start_position as int),
{
    let count: usize = token_count * (KV_HEADS * HEAD_DIM);
    let ghost all = Seq::new(count as nat, |i: int| k_word(start_position as int, i));
    let mut words: Vec<u16> = Vec::new();
    for i in 0..count
        invariant
            count == token_count * (KV_HEADS * HEAD_DIM),
            start_position + token_count <= u64::MAX + 1,
            all == Seq::new(count as nat, |i: int| k_word(start_position as int, i)),
            words@ == all.take(i as int),
    {
        let token: usize = i / HEAD_DIM / KV_HEADS;
        assert(count == token_count * 1024) by (nonlinear_arith)
            requires
                count == token_count * (KV_HEADS * HEAD_DIM),
                KV_HEADS * HEAD_DIM == 1024,
        ;
        assert(token < token_count);
        let absolute: u64 = start_position + token as u64;
        let head: u64 = (i / HEAD_DIM % KV_HEADS) as u64;
        let dimension: usize = i % HEAD_DIM;
        let word: u16 = if dimension == 0 {
            bf16_quotient_word((absolute % 5) as i64 - 2, 1)
        } else if dimension == 1 {
            bf16_quotient_word(head as i64, 4)
        } else if dimension == 2 {
            if (absolute % 2 + head) % 2 == 0 {
                0x3380
            } else {
                0xb380
            }
        } else {
            0
        };
        words.push(word);
        assert(all.take(i + 1) =~= all.take(i as int).push(all[i as int]));
    }
    assert(all.take(count as int) =~= all);
    words
}

/// The keys of a stretch of tokens, followed by those of the stretch behind it, are the keys of
/// both: a token's keys depend on its own position alone.
pub proof fn adjoining_keys_are_one_stretch(a: nat, b: nat, start_position: int)
    ensures
        key_words(a, start_position) + key_words(b, start_position + a) == key_words(
            a + b,
            start_position,
        ),
{
    let first = key_words(a, start_position);
    let second = key_words(b, start_position + a);
    let both = key_words(a + b, start_position);
    let row = (KV_HEADS * HEAD_DIM) as nat;
    assert(row == 1024);
    assert(a * row == a * 1024 && b * row == b * 1024 && (a + b) * row == (a + b) * 1024)
        by (nonlinear_arith)
        requires
            row == 1024,
    ;
    assert forall|i: int| 0 <= i < both.len() implies (first + second)[i] == both[i] by {
        if i >= first.len() {
            let j = i - a * 1024;
            assert(row_at(i, 4) == a + row_at(j, 4));
            assert(head_at(i, 4) == head_at(j, 4));
            assert(dimension_at(i) == dimension_at(j));
        }
    }
    assert(first + second =~= both);
}

/// The distance between the integers around `n` that binary32 can hold.
pub open spec fn f32_spacing(n: nat) -> nat
    decreases n,
{
    if n < 0x100_0000 {
        1
    } else {
        2 * f32_spacing(n / 2)
    }
}

/// An integer rounded to one that binary32 can hold.
pub open spec fn f32_integer(n: nat) -> nat {
    nearest_even(n, f32_spacing(n)) * f32_spacing(n)
}

fn spacing(n: u64) -> (out: u64)
    ensures
        out == f32_spacing(n as nat),
        1 <= out,
        n >= 0x100_0000 ==> out * 0x80_0000 <= n,
    decreases n,
{
    if n < 0x100_0000 {
        1
    } else {
        let half: u64 = spacing(n / 2);
        assert(f32_spacing((n / 2) as nat) == half);
        2 * half
    }
}

/// An integer rounded to one that binary32 can hold.
pub fn round_to_f32(n: u64) -> (out: u64)
    requires
        n <= 0x1_0000_0000_0000,
    ensures
        out == f32_integer(n as nat),
        out <= 2 * n,
{
    let step: u64 = spacing(n);
    let quotient: u64 = n / step;
    let rest: u64 = n % step;
    proof {
        assert(quotient * step + rest == n && rest < step) by (nonlinear_arith)
            requires
                step >= 1,
                quotient == n / step,
                rest == n % step,
        ;
        assert((quotient + 1) * step == quotient * step + step) by (nonlinear_arith);
        if n < 0x100_0000 {
            assert(step == 1);
            assert(rest == 0);
        }
        assert(quotient <= n) by (nonlinear_arith)
            requires
                quotient * step + rest == n,
                step >= 1,
                rest >= 0,
        ;
    }
    if 2 * rest > step || (2 * rest == step && quotient % 2 == 1) {
        assert(n >= 0x100_0000);
        (quotient + 1) * step
    } else {
        quotient * step
    }
}

/// The sum that a value word holds, each step of it rounded to binary32.
pub open spec fn v_sum(token: nat, head: nat, seed: nat) -> nat {
    f32_integer(f32_integer(f32_integer(1 + f32_integer(token)) + head * 32) + seed % 2)
}

/// A value word: the same in every dimension, and apart from its neighbours in the other heads.
pub open spec fn v_word(seed: nat, i: int) -> u16 {
    bf16_quotient(
        v_sum(
            row_at(i, KV_HEADS as int) as nat,
            head_at(i, KV_HEADS as int) as nat,
            seed,
        ) as int,
        1,
    )
}

/// The values of some tokens. The bound on the tokens is far beyond any memory.
pub fn input_v_words(token_count: usize, seed: u64) -> (out: Vec<u16>)
    requires
        token_count * (KV_HEADS * HEAD_DIM) <= usize::MAX,
        token_count <= 0x8_0000_0000,
    ensures
        out@ == Seq::new(
            (token_count * (KV_HEADS * HEAD_DIM)) as nat,
            |i: int| v_word(seed as nat, i),
        ),
{
    let count: usize = token_count * (KV_HEADS * HEAD_DIM);
    let ghost all = Seq::new(count as nat, |i: int| v_word(seed as nat, i));
    let mut words: Vec<u16> = Vec::new();
    for i in 0..count
        invariant
            count == token_count * (KV_HEADS * HEAD_DIM),
            token_count <= 0x8_0000_0000,
            all == Seq::new(count as nat, |i: int| v_word(seed as nat, i)),
            words@ == all.take(i as int),
    {
        let token: usize = i / HEAD_DIM / KV_HEADS;
        assert(count == token_count * 1024) by (nonlinear_arith)
            requires
                count == token_count * (KV_HEADS * HEAD_DIM),
                KV_HEADS * HEAD_DIM == 1024,
        ;
        assert(token < token_count);
        let head: u64 = (i / HEAD_DIM % KV_HEADS) as u64;
        let first: u64 = round_to_f32(1 + round_to_f32(token as u64));
        let second: u64 = round_to_f32(first + head * 32);
        let sum: u64 = round_to_f32(second + seed % 2);
        words.push(bf16_quotient_word(sum as i64, 1));
        assert(all.take(i + 1) =~= all.take(i as int).push(all[i as int]));
    }
    assert(all.take(count as int) =~= all);
    words
}

/// A word of the mixed queries: live in every dimension.
pub open spec fn mixed_q_word(i: int) -> u16 {
    bf16_quotient(
        (row_at(i, Q_HEADS as int) * 19 + head_at(i, Q_HEADS as int) * 11 + dimension_at(i) * 7)
            % 31 - 15,
        16,
    )
}

/// The mixed queries of `m` rows.
pub fn input_mixed_q_words(m: usize) -> (out: Vec<u16>)
    requires
        m * (Q_HEADS * HEAD_DIM) <= usize::MAX,
    ensures
        out@ == Seq::new((m * (Q_HEADS * HEAD_DIM)) as nat, |i: int| mixed_q_word(i)),
{
    let count: usize = m * (Q_HEADS * HEAD_DIM);
    let ghost all = Seq::new(count as nat, |i: int| mixed_q_word(i));
    let mut words: Vec<u16> = Vec::new();
    for i in 0..count
        invariant
            all == Seq::new(count as nat, |i: int| mixed_q_word(i)),
            words@ == all.take(i as int),
    {
        let row: usize = i / HEAD_DIM / Q_HEADS;
        let head: usize = i / HEAD_DIM % Q_HEADS;
        let dimension: usize = i % HEAD_DIM;
        assert(row * 4096 <= i);
        let code: i64 = ((row * 19 + head * 11 + dimension * 7) % 31) as i64 - 15;
        words.push(bf16_quotient_word(code, 16));
        assert(all.take(i + 1) =~= all.take(i as int).push(all[i as int]));
    }
    assert(all.take(count as int) =~= all);
    words
}

/// A word of the mixed keys or values, by its position and the four numbers of its pattern.
pub open spec fn mixed_kv_word(
    start_position: int,
    i: int,
    by_position: int,
    by_head: int,
    by_dimension: int,
    period: int,
) -> u16 {
    bf16_quotient(
        ((start_position + row_at(i, KV_HEADS as int)) * by_position + head_at(i, KV_HEADS as int)
            * by_head + dimension_at(i) * by_dimension) % period - period / 2,
        32,
    )
}

/// Whether the sum behind the pattern of every token fits a `u64`.
pub open spec fn pattern_fits(
    token_count: int,
    start_position: int,
    by_position: int,
    by_head: int,
    by_dimension: int,
) -> bool {
    token_count > 0 ==> (start_position + token_count - 1) * by_position + 3 * by_head + 255
        * by_dimension <= u64::MAX
}

fn mixed_kv_words(
    token_count: usize,
    start_position: u64,
    by_position: u64,
    by_head: u64,
    by_dimension: u64,
    period: u64,
) -> (out: Vec<u16>)
    requires
        token_count * (KV_HEADS * HEAD_DIM) <= usize::MAX,
        pattern_fits(
            token_count as int,
            start_position as int,
            by_position as int,
            by_head as int,
            by_dimension as int,
        ),
        1 <= by_position <= 29,
        by_head <= 29,
        by_dimension <= 29,
        1 <= period <= 127,
    ensures
        out@ == Seq::new(
            (token_count * (KV_HEADS * HEAD_DIM)) as nat,
            |i: int|
                mixed_kv_word(
                    start_position as int,
                    i,
                    by_position as int,
                    by_head as int,
                    by_dimension as int,
                    period as int,
                ),
        ),
{
    let count: usize = token_count * (KV_HEADS * HEAD_DIM);
    let ghost all = Seq::new(
        count as nat,
        |i: int|
            mixed_kv_word(
                start_position as int,
                i,
                by_position as int,
                by_head as int,
                by_dimension as int,
                period as int,
            ),
    );
    let mut words: Vec<u16> = Vec::new();
    for i in 0..count
        invariant
            count == token_count * (KV_HEADS * HEAD_DIM),
            pattern_fits(
                token_count as int,
                start_position as int,
                by_position as int,
                by_head as int,
                by_dimension as int,
            ),
            1 <= by_position <= 29,
            by_head <= 29,
            by_dimension <= 29,
            1 <= period <= 127,
            all == Seq::new(
                count as nat,
                |i: int|
                    mixed_kv_word(
                        start_position as int,
                        i,
                        by_position as int,
                        by_head as int,
                        by_dimension as int,
                        period as int,
                    ),
            ),
            words@ == all.take(i as int),
    {
        let token: usize = i / HEAD_DIM / KV_HEADS;
        assert(count == token_count * 1024) by (nonlinear_arith)
            requires
                count == token_count * (KV_HEADS * HEAD_DIM),
                KV_HEADS * HEAD_DIM == 1024,
        ;
        assert(token < token_count);
        let ghost last = start_position + token_count - 1;
        assert(last <= last * by_position) by (nonlinear_arith)
            requires
                last >= 0,
                by_position >= 1,
        ;
        let absolute: u64 = start_position + token as u64;
        let head: u64 = (i / HEAD_DIM % KV_HEADS) as u64;
        let dimension: u64 = (i % HEAD_DIM) as u64;
        assert(0 <= absolute * by_position <= last * by_position && 0 <= head * by_head <= 3
            * by_head && 0 <= dimension * by_dimension <= 255 * by_dimension)
            by (nonlinear_arith)
            requires
                0 <= absolute <= last,
                0 <= head <= 3,
                0 <= dimension <= 255,
                by_position >= 0,
                by_head >= 0,
                by_dimension >= 0,
        ;
        let code: u64 = (absolute * by_position + head * by_head + dimension * by_dimension)
            % period;
        words.push(bf16_quotient_word(code as i64 - (period / 2) as i64, 32));
        assert(all.take(i + 1) =~= all.take(i as int).push(all[i as int]));
    }
    assert(all.take(count as int) =~= all);
    words
}

/// A word of the mixed keys.
pub open spec fn mixed_k_word(start_position: int, i: int) -> u16 {
    mixed_kv_word(start_position, i, 13, 17, 5, 37)
}

/// The mixed keys of some tokens from a position on.
pub fn input_mixed_k_words(token_count: usize, start_position: u64) -> (out: Vec<u16>)
    requires
        token_count * (KV_HEADS * HEAD_DIM) <= usize::MAX,
        pattern_fits(token_count as int, start_position as int, 13, 17, 5),
    ensures
        out@ == Seq::new(
            (token_count * (KV_HEADS * HEAD_DIM)) as nat,
            |i: int| mixed_k_word(start_position as int, i),
        ),
{
    let words = mixed_kv_words(token_count, start_position, 13, 17, 5, 37);
    assert(words@ =~= Seq::new(
        (token_count * (KV_HEADS * HEAD_DIM)) as nat,
        |i: int| mixed_k_word(start_position as int, i),
    ));
    words
}

/// A word of the mixed values.
pub open spec fn mixed_v_word(start_position: int, i: int) -> u16 {
    mixed_kv_word(start_position, i, 29, 23, 3, 127)
}

/// The mixed values of some tokens from a position on.
pub fn input_mixed_v_words(token_count: usize, start_position: u64) -> (out: Vec<u16>)
    requires
        token_count * (KV_HEADS * HEAD_DIM) <= usize::MAX,
        pattern_fits(token_count as int, start_position as int, 29, 23, 3),
    ensures
        out@ == Seq::new(
            (token_count * (KV_HEADS * HEAD_DIM)) as nat,
            |i: int| mixed_v_word(start_position as int, i),
        ),
{
    let words = mixed_kv_words(token_count, start_position, 29, 23, 3, 127);
    assert(words@ =~= Seq::new(
        (token_count * (KV_HEADS * HEAD_DIM)) as nat,
        |i: int| mixed_v_word(start_position as int, i),
    ));
    words
}

/// The word of a row, a head and a dimension stands where its row, head and dimension say.
pub(crate) proof fn place_parts(row: int, head: int, dimension: int, heads: int)
    requires
        0 <= row,
        0 <= head < heads,
        0 <= dimension < 256,
    ensures
        ({
            let i = (row * heads + head) * 256 + dimension;
            &&& i >= 0
            &&& i / 256 / heads == row
            &&& i / 256 % heads == head
            &&& i % 256 == dimension
        }),
{
    let i = (row * heads + head) * 256 + dimension;
    let line = row * heads + head;
    lemma_fundamental_div_mod_converse(i, 256, line, dimension);
    lemma_fundamental_div_mod_converse(line, heads, row, head);
    assert(line >= 0) by (nonlinear_arith)
        requires
            line == row * heads + head,
            row >= 0,
            heads > 0,
            head >= 0,
    ;
}

proof fn place_inside(row: int, head: int, dimension: int, heads: int, rows: int)
    requires
        0 <= row < rows,
        0 <= head < heads,
        0 <= dimension < 256,
    ensures
        0 <= (row * heads + head) * 256 + dimension < rows * (heads * 256),
{
    assert(0 <= (row * heads + head) * 256 + dimension < rows * (heads * 256)) by (nonlinear_arith)
        requires
            0 <= row < rows,
            0 <= head < heads,
            0 <= dimension < 256,
    ;
}

/// A query is live in three dimensions: sixteen in the first, one to four in the second as its head
/// is one of a group of four, and two to the twentieth in the third. It is the same in every row.
pub proof fn queries_are_live_in_three_dimensions(
    m: usize,
    words: Vec<u16>,
    row: int,
    head: int,
    dimension: int,
)
    requires
        call_ensures(input_q_words, (m,), words),
        0 <= row < m,
        0 <= head < 16,
        0 <= dimension < 256,
    ensures
        ({
            let word = words@[(row * 16 + head) * 256 + dimension];
            &&& words@.len() == m * 4096
            &&& dimension == 0 ==> word == bf16_quotient(16, 1)
            &&& dimension == 1 ==> word == bf16_quotient(head % 4 + 1, 1)
            &&& dimension == 2 ==> word == bf16_quotient(0x10_0000, 1)
            &&& dimension >= 3 ==> word == 0
        }),
{
    place_parts(row, head, dimension, 16);
    place_inside(row, head, dimension, 16, m as int);
}

/// A key is live in three dimensions: the first goes through minus two to two with its position, the
/// second is a quarter of its head, and the third is two to the minus twenty-fourth with a sign that
/// changes from position to position and from head to head.
pub proof fn keys_are_live_in_three_dimensions(
    token_count: usize,
    start_position: u64,
    words: Vec<u16>,
    token: int,
    head: int,
    dimension: int,
)
    requires
        call_ensures(input_k_words, (token_count, start_position), words),
        0 <= token < token_count,
        0 <= head < 4,
        0 <= dimension < 256,
    ensures
        ({
            let word = words@[(token * 4 + head) * 256 + dimension];
            let position = start_position + token;
            &&& words@.len() == token_count * 1024
            &&& dimension == 0 ==> word == bf16_quotient(position % 5 - 2, 1)
            &&& dimension == 1 ==> word == bf16_quotient(head, 4)
            &&& dimension == 2 ==> word == if position % 2 == head % 2 {
                0x3380u16
            } else {
                0xb380
            }
            &&& dimension >= 3 ==> word == 0
        }),
{
    place_parts(token, head, dimension, 4);
    place_inside(token, head, dimension, 4, token_count as int);
}

pub(crate) proof fn small_integers_are_exact(n: nat)
    requires
        n < 0x100_0000,
    ensures
        f32_integer(n) == n,
{
    assert(f32_spacing(n) == 1);
    assert(nearest_even(n, 1) == n);
}

/// A value is the same in every dimension: one more than its token, with thirty-two for each head
/// before its own and one more for an odd seed, as long as binary32 holds such numbers exactly.
pub proof fn values_count_their_tokens(
    token_count: usize,
    seed: u64,
    words: Vec<u16>,
    token: int,
    head: int,
    dimension: int,
)
    requires
        call_ensures(input_v_words, (token_count, seed), words),
        0 <= token < token_count,
        token < 0xff_ff00,
        0 <= head < 4,
        0 <= dimension < 256,
    ensures
        words@.len() == token_count * 1024,
        words@[(token * 4 + head) * 256 + dimension] == bf16_quotient(
            1 + token + 32 * head + seed % 2,
            1,
        ),
{
    place_parts(token, head, dimension, 4);
    place_inside(token, head, dimension, 4, token_count as int);
    small_integers_are_exact(token as nat);
    small_integers_are_exact((1 + token) as nat);
    small_integers_are_exact((1 + token + head * 32) as nat);
    small_integers_are_exact((1 + token + head * 32 + seed % 2) as nat);
}

/// A number below a period that lies a multiple of it below another is what is left of that one.
pub(crate) proof fn code_is_the_rest(sum: int, code: int, period: int)
    requires
        0 <= code < period,
        (sum - code) % period == 0,
    ensures
        sum % period == code,
{
    lemma_fundamental_div_mod(sum - code, period);
    lemma_fundamental_div_mod_converse(sum, period, (sum - code) / period, code);
}

/// A mixed query is a sixteenth of a whole number from minus fifteen to fifteen. Going on by one
/// dimension adds seven, by one head eleven and by one row nineteen, all of it modulo thirty-one.
pub proof fn mixed_queries_follow_their_pattern(
    m: usize,
    words: Vec<u16>,
    row: int,
    head: int,
    dimension: int,
    code: int,
)
    requires
        call_ensures(input_mixed_q_words, (m,), words),
        0 <= row < m,
        0 <= head < 16,
        0 <= dimension < 256,
        0 <= code < 31,
        (19 * row + 11 * head + 7 * dimension - code) % 31 == 0,
    ensures
        words@.len() == m * 4096,
        words@[(row * 16 + head) * 256 + dimension] == bf16_quotient(code - 15, 16),
{
    code_is_the_rest(19 * row + 11 * head + 7 * dimension, code, 31);
    place_parts(row, head, dimension, 16);
    place_inside(row, head, dimension, 16, m as int);
}

/// A mixed key is a thirty-second of a whole number from minus eighteen to eighteen. Going on by one
/// dimension adds five, by one head seventeen and by one position thirteen, all of it modulo
/// thirty-seven.
pub proof fn mixed_keys_follow_their_pattern(
    token_count: usize,
    start_position: u64,
    words: Vec<u16>,
    token: int,
    head: int,
    dimension: int,
    code: int,
)
    requires
        call_ensures(input_mixed_k_words, (token_count, start_position), words),
        0 <= token < token_count,
        0 <= head < 4,
        0 <= dimension < 256,
        0 <= code < 37,
        (13 * (start_position + token) + 17 * head + 5 * dimension - code) % 37 == 0,
    ensures
        words@.len() == token_count * 1024,
        words@[(token * 4 + head) * 256 + dimension] == bf16_quotient(code - 18, 32),
{
    code_is_the_rest(13 * (start_position + token) + 17 * head + 5 * dimension, code, 37);
    place_parts(token, head, dimension, 4);
    place_inside(token, head, dimension, 4, token_count as int);
}

/// A mixed value is a thirty-second of a whole number from minus sixty-three to sixty-three. Going
/// on by one dimension adds three, by one head twenty-three and by one position twenty-nine, all of
/// it modulo 127.
pub proof fn mixed_values_follow_their_pattern(
    token_count: usize,
    start_position: u64,
    words: Vec<u16>,
    token: int,
    head: int,
    dimension: int,
    code: int,
)
    requires
        call_ensures(input_mixed_v_words, (token_count, start_position), words),
        0 <= token < token_count,
        0 <= head < 4,
        0 <= dimension < 256,
        0 <= code < 127,
        (29 * (start_position + token) + 23 * head + 3 * dimension - code) % 127 == 0,
    ensures
        words@.len() == token_count * 1024,
        words@[(token * 4 + head) * 256 + dimension] == bf16_quotient(code - 63, 32),
{
    code_is_the_rest(29 * (start_position + token) + 23 * head + 3 * dimension, code, 127);
    place_parts(token, head, dimension, 4);
    place_inside(token, head, dimension, 4, token_count as int);
}

/// Binary32 holds whole numbers below 2^24 exactly, from there to 2^25 the even ones, and twice a number
/// as exactly as the number.
pub proof fn large_numbers_are_rounded_to_their_spacing(n: u64, rounded: u64, doubled: u64)
    requires
        2 * n <= 0x1_0000_0000_0000,
        call_ensures(round_to_f32, (n,), rounded),
        call_ensures(round_to_f32, ((2 * n) as u64,), doubled),
    ensures
        n <= 0x100_0000 ==> rounded == n,
        0x100_0000 <= n < 0x200_0000 ==> rounded % 2 == 0 && n - 1 <= rounded <= n + 1,
        n >= 0x80_0000 ==> doubled == 2 * rounded,
{
    if n < 0x100_0000 {
        small_integers_are_exact(n as nat);
    } else if n < 0x200_0000 {
        assert(f32_spacing((n / 2) as nat) == 1);
        assert(f32_spacing(n as nat) == 2);
    }
    if n >= 0x80_0000 {
        let spacing = f32_spacing(n as nat);
        assert((2 * n) / 2 == n);
        assert(f32_spacing((2 * n) as nat) == 2 * spacing);
        spacing_is_positive(n as nat);
        half_is_the_same_quotient(n as nat, spacing);
        let steps = nearest_even(n as nat, spacing);
        assert(steps * (2 * spacing) == 2 * (steps * spacing)) by (nonlinear_arith);
    }
}

proof fn spacing_is_positive(n: nat)
    ensures
        f32_spacing(n) > 0,
    decreases n,
{
    if n >= 0x100_0000 {
        spacing_is_positive(n / 2);
    }
}

} // verus!
