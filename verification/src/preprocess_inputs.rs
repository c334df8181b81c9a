//! The inputs of the attention preprocessing run, and the parts of its results that are copies.
use crate::attention_inputs::{bf16_quotient, bf16_quotient_word, code_is_the_rest};
use vstd::prelude::*;
use vstd::slice::{slice_subrange, slice_to_vec};

verus! {

/// The number of query heads.
pub const Q_HEADS: usize = 16;

/// The number of key heads.
pub const K_HEADS: usize = 4;

/// The width of a head.
pub const HEAD_DIM: usize = 256;

/// The width of a packed head: a query and its gate.
pub const QGATE_HEAD_WIDTH: usize = 512;

/// The width of a packed row.
pub const QGATE_ROW_WIDTH: usize = 8_192;

/// The width of a row of key heads.
pub const K_ROW_WIDTH: usize = 1_024;

/// The number of special words.
pub const SPECIALS: usize = 7;

/// The words that every input starts with: both zeros, the smallest subnormal, a large value, a
/// NaN and both infinities.
pub open spec fn special_words() -> Seq<u16> {
    seq![0x0000u16, 0x8000, 0x0001, 0x7f00, 0x7fc1, 0x7f80, 0xff80]
}

/// The words that every input starts with.
pub fn special_values() -> (out: Vec<u16>)
    ensures
        out@ == special_words(),
{
    let words: Vec<u16> = vec![0x0000, 0x8000, 0x0001, 0x7f00, 0x7fc1, 0x7f80, 0xff80];
    assert(words@ =~= special_words());
    words
}

/// The word that a place and a seed give: a multiple of a thirty-second. Places and seeds wrap.
pub open spec fn generated(index: int, seed: int) -> u16 {
    bf16_quotient((index * 37 + seed * 13) % (usize::MAX + 1) % 251 - 125, 32)
}

/// The word that a place and a seed give.
pub fn generated_word(index: usize, seed: usize) -> (out: u16)
    ensures
        out == generated(index as int, seed as int),
{
    let sum: u128 = index as u128 * 37 + seed as u128 * 13;
    let wrapped: u128 = sum % (usize::MAX as u128 + 1);
    bf16_quotient_word((wrapped % 251) as i64 - 125, 32)
}

/// Puts the special words at the front of an input. Which seed made the input does not matter.
pub fn inject_specials(values: &mut Vec<u16>, seed: usize)
    requires
        old(values)@.len() >= SPECIALS,
    ensures
        final(values)@ == special_words() + old(values)@.skip(SPECIALS as int),
{
    let specials = special_values();
    for index in 0..SPECIALS
        invariant
            specials@ == special_words(),
            values@.len() == old(values)@.len(),
            values@.len() >= SPECIALS,
            forall|j: int| 0 <= j < index ==> values@[j] == special_words()[j],
            forall|j: int| index <= j < values@.len() ==> values@[j] == old(values)@[j],
    {
        let word: u16 = if index == 6 && seed % 2 == 1 {
            0xff80
        } else {
            specials[index]
        };
        values.set(index, word);
    }
    assert(values@ =~= special_words() + old(values)@.skip(SPECIALS as int));
}

/// An input with the special words at its front.
pub open spec fn with_specials(words: Seq<u16>) -> Seq<u16> {
    special_words() + words.skip(SPECIALS as int)
}

/// The word at a place of the packed queries and gates: the first half of each packed head is the
/// query, the second its gate, and both count their places as if heads stood side by side.
pub open spec fn packed_word(place: int, case_index: int) -> u16 {
    let head = place / QGATE_HEAD_WIDTH as int;
    let dim = place % QGATE_HEAD_WIDTH as int;
    if dim < HEAD_DIM {
        generated(head * HEAD_DIM + dim, case_index + 1)
    } else {
        generated(head * HEAD_DIM + dim - HEAD_DIM, case_index + 101)
    }
}

/// The packed queries and gates of a case.
pub open spec fn packed_words(m: nat, case_index: int) -> Seq<u16> {
    with_specials(Seq::new(m * QGATE_ROW_WIDTH as nat, |i: int| packed_word(i, case_index)))
}

/// The packed queries and gates of a case.
pub fn make_packed_q_gate(m: usize, case_index: usize) -> (out: Vec<u16>)
    requires
        1 <= m,
        m * QGATE_ROW_WIDTH <= usize::MAX,
        case_index + 101 <= usize::MAX,
    ensures
        out@ == packed_words(m as nat, case_index as int),
{
    let total: usize = m * QGATE_ROW_WIDTH;
    let ghost all = Seq::new(m as nat * QGATE_ROW_WIDTH as nat, |i: int|
        packed_word(i, case_index as int));
    let mut packed: Vec<u16> = Vec::new();
    for i in 0..total
        invariant
            total == m * QGATE_ROW_WIDTH,
            case_index + 101 <= usize::MAX,
            all == Seq::new(m as nat * QGATE_ROW_WIDTH as nat, |i: int|
                packed_word(i, case_index as int)),
            packed@ == all.take(i as int),
    {
        let head: usize = i / QGATE_HEAD_WIDTH;
        let dim: usize = i % QGATE_HEAD_WIDTH;
        let word: u16 = if dim < HEAD_DIM {
            generated_word(head * HEAD_DIM + dim, case_index + 1)
        } else {
            generated_word(head * HEAD_DIM + dim - HEAD_DIM, case_index + 101)
        };
        packed.push(word);
        assert(all.take(i + 1) =~= all.take(i as int).push(all[i as int]));
    }
    assert(all.take(total as int) =~= all);
    inject_specials(&mut packed, case_index);
    packed
}

/// Words that are made from their places, with the special words at their front.
pub open spec fn plain_words(count: nat, seed: int) -> Seq<u16> {
    with_specials(Seq::new(count, |i: int| generated(i, seed)))
}

fn make_plain(count: usize, seed: usize, special_seed: usize) -> (out: Vec<u16>)
    requires
        count >= SPECIALS,
    ensures
        out@ == plain_words(count as nat, seed as int),
{
    let ghost all = Seq::new(count as nat, |i: int| generated(i, seed as int));
    let mut words: Vec<u16> = Vec::new();
    for i in 0..count
        invariant
            all == Seq::new(count as nat, |i: int| generated(i, seed as int)),
            words@ == all.take(i as int),
    {
        words.push(generated_word(i, seed));
        assert(all.take(i + 1) =~= all.take(i as int).push(all[i as int]));
    }
    assert(all.take(count as int) =~= all);
    inject_specials(&mut words, special_seed);
    words
}

/// The keys of a case.
pub fn make_k(m: usize, case_index: usize) -> (out: Vec<u16>)
    requires
        1 <= m,
        m * K_ROW_WIDTH <= usize::MAX,
        case_index + 211 <= usize::MAX,
    ensures
        out@ == plain_words((m * K_ROW_WIDTH) as nat, case_index + 211),
{
    make_plain(m * K_ROW_WIDTH, case_index + 211, case_index + 2)
}

/// The raw scales of a number of heads.
pub fn make_scale(heads: usize, case_index: usize) -> (out: Vec<u16>)
    requires
        1 <= heads,
        heads * HEAD_DIM <= usize::MAX,
        case_index + 307 <= usize::MAX,
    ensures
        out@ == plain_words((heads * HEAD_DIM) as nat, case_index + 307),
{
    make_plain(heads * HEAD_DIM, case_index + 307, case_index + 3)
}

/// The query of a packed head.
pub fn query_head(packed: &[u16], head: usize) -> (out: Vec<u16>)
    requires
        head * QGATE_HEAD_WIDTH + QGATE_HEAD_WIDTH <= packed@.len(),
    ensures
        out@ == packed@.subrange(
            head * QGATE_HEAD_WIDTH as int,
            head * QGATE_HEAD_WIDTH + HEAD_DIM as int,
        ),
{
    let size: usize = packed.len();
    let start: usize = head * QGATE_HEAD_WIDTH;
    slice_to_vec(slice_subrange(packed, start, start + HEAD_DIM))
}

/// A head of a plain input.
pub fn plain_head(words: &[u16], head: usize) -> (out: Vec<u16>)
    requires
        head * HEAD_DIM + HEAD_DIM <= words@.len(),
    ensures
        out@ == words@.subrange(head * HEAD_DIM as int, head * HEAD_DIM + HEAD_DIM as int),
{
    let size: usize = words.len();
    let start: usize = head * HEAD_DIM;
    slice_to_vec(slice_subrange(words, start, start + HEAD_DIM))
}

/// The gates of packed heads, side by side.
pub open spec fn gate_words(packed: Seq<u16>, heads: nat) -> Seq<u16> {
    Seq::new(
        heads * HEAD_DIM as nat,
        |i: int|
            packed[i / HEAD_DIM as int * QGATE_HEAD_WIDTH as int + HEAD_DIM as int + i
                % HEAD_DIM as int],
    )
}

/// The gates that a case must give back: the preprocessing copies them.
pub fn expected_gate(packed: &[u16], heads: usize) -> (out: Vec<u16>)
    requires
        heads * QGATE_HEAD_WIDTH == packed@.len(),
    ensures
        out@ == gate_words(packed@, heads as nat),
{
    let size: usize = packed.len();
    let ghost all = gate_words(packed@, heads as nat);
    let total: usize = heads * HEAD_DIM;
    let mut gate: Vec<u16> = Vec::new();
    for i in 0..total
        invariant
            size == packed@.len(),
            heads * QGATE_HEAD_WIDTH == size,
            total == heads * HEAD_DIM,
            all == gate_words(packed@, heads as nat),
            gate@ == all.take(i as int),
    {
        gate.push(packed[i / HEAD_DIM * QGATE_HEAD_WIDTH + HEAD_DIM + i % HEAD_DIM]);
        assert(all.take(i + 1) =~= all.take(i as int).push(all[i as int]));
    }
    assert(all.take(total as int) =~= all);
    gate
}

/// The gates of a packed input are the words of its second halves, and no query word is among
/// their places.
pub proof fn gates_are_second_halves(packed: Seq<u16>, heads: nat, head: int, dim: int)
    requires
        packed.len() == heads * QGATE_HEAD_WIDTH,
        0 <= head < heads,
        0 <= dim < HEAD_DIM,
    ensures
        gate_words(packed, heads)[head * HEAD_DIM + dim] == packed[head * QGATE_HEAD_WIDTH
            + HEAD_DIM + dim],
{
    let place = head * HEAD_DIM + dim;
    assert(place / HEAD_DIM as int == head && place % HEAD_DIM as int == dim);
    assert(place < heads * HEAD_DIM);
}

/// A generated word is a thirty-second of a whole number from minus 125 to 125 that goes up by 37 from
/// place to place and by 13 from seed to seed, modulo 251, as long as the sum does not wrap.
pub proof fn generated_words_follow_their_pattern(index: usize, seed: usize, word: u16, code: int)
    requires
        call_ensures(generated_word, (index, seed), word),
        index * 37 + seed * 13 <= usize::MAX,
        0 <= code < 251,
        (37 * index + 13 * seed - code) % 251 == 0,
    ensures
        word == bf16_quotient(code - 125, 32),
{
    code_is_the_rest(37 * index + 13 * seed, code, 251);
    assert((index * 37 + seed * 13) % (usize::MAX + 1) == index * 37 + seed * 13) by (nonlinear_arith)
        requires
            0 <= index * 37 + seed * 13 <= usize::MAX,
    ;
}

/// Every packed head holds its query and behind it its gate. Both count their places over all heads,
/// each on its own; the seed of a query is one above the case, that of a gate 101. The
/// special words stand in front of the first query.
pub proof fn packed_heads_hold_query_and_gate(
    m: usize,
    case_index: usize,
    packed: Vec<u16>,
    head: int,
    dim: int,
    query: u16,
    gate: u16,
)
    requires
        1 <= m,
        m * 8192 <= usize::MAX,
        case_index + 101 <= usize::MAX,
        call_ensures(make_packed_q_gate, (m, case_index), packed),
        0 <= head < m * 16,
        0 <= dim < 256,
        call_ensures(
            generated_word,
            ((head * 256 + dim) as usize, (case_index + 1) as usize),
            query,
        ),
        call_ensures(
            generated_word,
            ((head * 256 + dim) as usize, (case_index + 101) as usize),
            gate,
        ),
    ensures
        packed@.len() == m * 8192,
        head > 0 || dim >= 7 ==> packed@[head * 512 + dim] == query,
        packed@[head * 512 + 256 + dim] == gate,
        packed@[0] == 0 && packed@[1] == 0x8000 && packed@[2] == 1 && packed@[3] == 0x7f00
            && packed@[4] == 0x7fc1 && packed@[5] == 0x7f80 && packed@[6] == 0xff80,
{
    assert((head * 512 + dim) / 512 == head && (head * 512 + dim) % 512 == dim);
    assert((head * 512 + 256 + dim) / 512 == head && (head * 512 + 256 + dim) % 512 == 256 + dim);
}

/// Keys and scales are generated in their own order behind the special words, with seeds 211 and 307
/// above the case.
pub proof fn keys_and_scales_have_their_seeds(
    m: usize,
    case_index: usize,
    keys: Vec<u16>,
    heads: usize,
    scales: Vec<u16>,
    at: int,
    key: u16,
    scale: u16,
)
    requires
        1 <= m,
        m * 1024 <= usize::MAX,
        1 <= heads,
        heads * 256 <= usize::MAX,
        case_index + 307 <= usize::MAX,
        call_ensures(make_k, (m, case_index), keys),
        call_ensures(make_scale, (heads, case_index), scales),
        7 <= at <= usize::MAX,
        call_ensures(generated_word, (at as usize, (case_index + 211) as usize), key),
        call_ensures(generated_word, (at as usize, (case_index + 307) as usize), scale),
    ensures
        keys@.len() == m * 1024,
        scales@.len() == heads * 256,
        at < m * 1024 ==> keys@[at] == key,
        at < heads * 256 ==> scales@[at] == scale,
        keys@.take(7) == scales@.take(7),
        keys@[0] == 0 && keys@[1] == 0x8000 && keys@[2] == 1 && keys@[3] == 0x7f00 && keys@[4]
            == 0x7fc1 && keys@[5] == 0x7f80 && keys@[6] == 0xff80,
{
    assert(keys@.take(7) =~= special_words());
    assert(scales@.take(7) =~= special_words());
}

/// Queries and gates taken apart make up the packed words again.
pub proof fn queries_and_gates_make_up_the_heads(
    packed: &[u16],
    heads: usize,
    head: usize,
    query: Vec<u16>,
    gates: Vec<u16>,
    dim: int,
)
    requires
        heads * 512 == packed@.len(),
        head < heads,
        call_ensures(query_head, (packed, head), query),
        call_ensures(expected_gate, (packed, heads), gates),
        0 <= dim < 256,
    ensures
        query@.len() == 256,
        gates@.len() == heads * 256,
        query@[dim] == packed@[head * 512 + dim],
        gates@[head * 256 + dim] == packed@[head * 512 + 256 + dim],
{
    assert((head * 256 + dim) / 256 == head && (head * 256 + dim) % 256 == dim);
}

/// Special words take the first seven places and leave every other word where it was: both zeros, the
/// least positive word, a large one, a NaN and both infinities.
pub proof fn special_words_take_the_front(values: &mut Vec<u16>, seed: usize, specials: Vec<u16>, at: int)
    requires
        old(values)@.len() >= 7,
        call_ensures(inject_specials, (values, seed), ()),
        call_ensures(special_values, (), specials),
        0 <= at < old(values)@.len(),
    ensures
        specials@.len() == 7,
        final(values)@.len() == old(values)@.len(),
        at < 7 ==> final(values)@[at] == specials@[at],
        at >= 7 ==> final(values)@[at] == old(values)@[at],
        specials@[0] == 0 && specials@[1] == 0x8000 && specials@[2] == 1,
        specials@[3] % 0x8000 < 0x7f80,
        specials@[4] % 0x8000 > 0x7f80,
        specials@[5] == 0x7f80 && specials@[6] == specials@[5] + 0x8000,
{
}

/// A head is the run of 256 words that stands in its place.
pub proof fn heads_stand_side_by_side(words: &[u16], head: usize, out: Vec<u16>, at: int)
    requires
        head * 256 + 256 <= words@.len(),
        call_ensures(plain_head, (words, head), out),
        0 <= at < 256,
    ensures
        out@.len() == 256,
        out@[at] == words@[head * 256 + at],
{
}

} // verus!
