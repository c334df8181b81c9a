//! Little-endian byte images of words and integers.
use vstd::prelude::*;
use vstd::std_specs::cmp::PartialEqSpec;

verus! {

/// The two bytes of a 16-bit word, low byte first.
pub open spec fn le_u16(w: u16) -> Seq<u8> {
    seq![(w % 256) as u8, (w / 256) as u8]
}

/// The four bytes of a 32-bit word, low byte first.
pub open spec fn le_u32(w: u32) -> Seq<u8> {
    seq![
        (w % 256) as u8,
        (w / 0x100 % 256) as u8,
        (w / 0x1_0000 % 256) as u8,
        (w / 0x100_0000) as u8,
    ]
}

/// The eight bytes of a 64-bit word, low byte first.
pub open spec fn le_u64(w: u64) -> Seq<u8> {
    le_u32((w % 0x1_0000_0000) as u32) + le_u32((w / 0x1_0000_0000) as u32)
}

/// The two's complement of an `i32`.
pub open spec fn twos_complement(v: i32) -> u32 {
    if v < 0 {
        (v + 0x1_0000_0000) as u32
    } else {
        v as u32
    }
}

/// The byte image of a sequence of 16-bit words.
pub open spec fn words_image(words: Seq<u16>) -> Seq<u8> {
    Seq::new(
        2 * words.len(),
        |i: int| if i % 2 == 0 { (words[i / 2] % 256) as u8 } else { (words[i / 2] / 256) as u8 },
    )
}

/// The 16-bit words of a byte image of even length.
pub open spec fn image_words(bytes: Seq<u8>) -> Seq<u16> {
    Seq::new(
        bytes.len() / 2,
        |i: int| (bytes[2 * i] as int + 256 * bytes[2 * i + 1] as int) as u16,
    )
}

/// The byte image of a sequence of signed 32-bit integers.
pub open spec fn i32_image(values: Seq<i32>) -> Seq<u8>
    decreases values.len(),
{
    if values.len() == 0 {
        Seq::empty()
    } else {
        i32_image(values.drop_last()) + le_u32(twos_complement(values.last()))
    }
}

/// The words are recovered from their byte image.
pub proof fn words_round_trip(words: Seq<u16>)
    ensures
        words_image(words).len() == 2 * words.len(),
        image_words(words_image(words)) == words,
{
    let back = image_words(words_image(words));
    assert forall|i: int| 0 <= i < words.len() implies #[trigger] back[i] == words[i] by {
        assert((2 * i) % 2 == 0 && (2 * i) / 2 == i);
        assert((2 * i + 1) % 2 == 1 && (2 * i + 1) / 2 == i);
    }
    assert(back =~= words);
}

/// The byte image is recovered from its words.
pub proof fn image_round_trip(bytes: Seq<u8>)
    requires
        bytes.len() % 2 == 0,
    ensures
        words_image(image_words(bytes)) == bytes,
{
    assert(words_image(image_words(bytes)) =~= bytes);
}

/// Two sequences of integers with the same image are the same sequence.
pub proof fn i32_image_injective(a: Seq<i32>, b: Seq<i32>)
    requires
        i32_image(a) == i32_image(b),
    ensures
        a == b,
    decreases a.len(),
{
    i32_image_len(a);
    i32_image_len(b);
    if a.len() > 0 {
        let x = i32_image(a);
        let n = x.len() as int;
        assert(x.subrange(n - 4, n) =~= le_u32(twos_complement(a.last())));
        assert(x.subrange(n - 4, n) =~= le_u32(twos_complement(b.last())));
        assert(x.take(n - 4) =~= i32_image(a.drop_last()));
        assert(x.take(n - 4) =~= i32_image(b.drop_last()));
        le_u32_injective(twos_complement(a.last()), twos_complement(b.last()));
        i32_image_injective(a.drop_last(), b.drop_last());
        assert(a =~= a.drop_last().push(a.last()));
        assert(b =~= b.drop_last().push(b.last()));
    } else {
        assert(a =~= b);
    }
}

proof fn i32_image_len(values: Seq<i32>)
    ensures
        i32_image(values).len() == 4 * values.len(),
    decreases values.len(),
{
    if values.len() > 0 {
        i32_image_len(values.drop_last());
    }
}

/// Two 32-bit words with the same bytes are the same word.
pub proof fn le_u32_injective(a: u32, b: u32)
    requires
        le_u32(a) == le_u32(b),
    ensures
        a == b,
{
    let x = le_u32(a);
    assert(x[0] == (a % 256) as u8 && x[0] == (b % 256) as u8);
    assert(x[1] == (a / 0x100 % 256) as u8 && x[1] == (b / 0x100 % 256) as u8);
    assert(x[2] == (a / 0x1_0000 % 256) as u8 && x[2] == (b / 0x1_0000 % 256) as u8);
    assert(x[3] == (a / 0x100_0000) as u8 && x[3] == (b / 0x100_0000) as u8);
}

/// Two 64-bit words with the same bytes are the same word.
pub proof fn le_u64_injective(a: u64, b: u64)
    requires
        le_u64(a) == le_u64(b),
    ensures
        a == b,
{
    assert(le_u64(a).take(4) =~= le_u32((a % 0x1_0000_0000) as u32));
    assert(le_u64(b).take(4) =~= le_u32((b % 0x1_0000_0000) as u32));
    assert(le_u64(a).skip(4) =~= le_u32((a / 0x1_0000_0000) as u32));
    assert(le_u64(b).skip(4) =~= le_u32((b / 0x1_0000_0000) as u32));
    le_u32_injective((a % 0x1_0000_0000) as u32, (b % 0x1_0000_0000) as u32);
    le_u32_injective((a / 0x1_0000_0000) as u32, (b / 0x1_0000_0000) as u32);
}

/// Appends the bytes of a 32-bit word.
pub fn push_le_u32(out: &mut Vec<u8>, w: u32)
    ensures
        final(out)@ == old(out)@ + le_u32(w),
{
    out.push((w % 256) as u8);
    out.push((w / 0x100 % 256) as u8);
    out.push((w / 0x1_0000 % 256) as u8);
    out.push((w / 0x100_0000) as u8);
    assert(out@ =~= old(out)@ + le_u32(w));
}

/// Appends the bytes of a 64-bit word.
pub fn push_le_u64(out: &mut Vec<u8>, w: u64)
    ensures
        final(out)@ == old(out)@ + le_u64(w),
{
    push_le_u32(out, (w % 0x1_0000_0000) as u32);
    push_le_u32(out, (w / 0x1_0000_0000) as u32);
    assert(out@ =~= old(out)@ + le_u64(w));
}

/// Appends a slice of bytes.
pub fn push_bytes(out: &mut Vec<u8>, bytes: &[u8])
    ensures
        final(out)@ == old(out)@ + bytes@,
{
    for i in 0..bytes.len()
        invariant
            out@ == old(out)@ + bytes@.take(i as int),
    {
        out.push(bytes[i]);
        assert(bytes@.take(i + 1) =~= bytes@.take(i as int).push(bytes@[i as int]));
        assert(out@ =~= old(out)@ + bytes@.take(i + 1));
    }
    assert(bytes@.take(bytes.len() as int) =~= bytes@);
}

/// Appends a slice of words.
pub fn push_words(out: &mut Vec<u16>, words: &[u16])
    ensures
        final(out)@ == old(out)@ + words@,
{
    for i in 0..words.len()
        invariant
            out@ == old(out)@ + words@.take(i as int),
    {
        out.push(words[i]);
        assert(words@.take(i + 1) =~= words@.take(i as int).push(words@[i as int]));
        assert(out@ =~= old(out)@ + words@.take(i + 1));
    }
    assert(words@.take(words.len() as int) =~= words@);
}

/// Whether two slices hold the same items.
pub fn same_items<T: PartialEq>(a: &[T], b: &[T]) -> (out: bool)
    requires
        T::obeys_eq_spec(),
        forall|x: T, y: T| #[trigger] x.eq_spec(&y) == (x == y),
    ensures
        out == (a@ == b@),
{
    if a.len() != b.len() {
        return false;
    }
    for i in 0..a.len()
        invariant
            T::obeys_eq_spec(),
            forall|x: T, y: T| #[trigger] x.eq_spec(&y) == (x == y),
            a@.len() == b@.len(),
            forall|j: int| 0 <= j < i ==> a@[j] == b@[j],
    {
        if a[i] != b[i] {
            assert(a@[i as int] != b@[i as int]);
            return false;
        }
    }
    assert(a@ =~= b@);
    true
}

/// The little-endian byte image of a slice of 16-bit words.
pub fn words_to_bytes(words: &[u16]) -> (out: Vec<u8>)
    ensures
        out@ == words_image(words@),
{
    let mut out: Vec<u8> = Vec::new();
    for i in 0..words.len()
        invariant
            out@ == words_image(words@).take(2 * i as int),
    {
        out.push((words[i] % 256) as u8);
        out.push((words[i] / 256) as u8);
        proof {
            let image = words_image(words@);
            assert((2 * i) % 2 == 0 && (2 * i) / 2 == i as int);
            assert((2 * i + 1) % 2 == 1 && (2 * i + 1) / 2 == i as int);
            assert(image.take(2 * (i + 1)) =~= image.take(2 * i as int).push(image[2 * i as int])
                .push(image[2 * i + 1]));
        }
    }
    assert(words_image(words@).take(2 * words.len() as int) =~= words_image(words@));
    out
}

/// The 16-bit words of a little-endian byte image; `None` where the length is odd.
pub fn decode_words(bytes: &[u8]) -> (out: Option<Vec<u16>>)
    ensures
        match out {
            Some(words) => bytes@.len() % 2 == 0 && words@ == image_words(bytes@),
            None => bytes@.len() % 2 == 1,
        },
{
    if bytes.len() % 2 != 0 {
        return None;
    }
    let count: usize = bytes.len() / 2;
    let mut out: Vec<u16> = Vec::new();
    for i in 0..count
        invariant
            bytes@.len() == 2 * count <= usize::MAX,
            out@ == image_words(bytes@).take(i as int),
    {
        let low: u16 = bytes[2 * i] as u16;
        let high: u16 = bytes[2 * i + 1] as u16;
        out.push(low + 256 * high);
        assert(image_words(bytes@).take(i + 1) =~= image_words(bytes@).take(i as int).push(
            image_words(bytes@)[i as int],
        ));
    }
    assert(image_words(bytes@).take(count as int) =~= image_words(bytes@));
    Some(out)
}

fn twos_complement_bits(v: i32) -> (out: u32)
    ensures
        out == twos_complement(v),
{
    if v < 0 {
        (v as i64 + 0x1_0000_0000) as u32
    } else {
        v as u32
    }
}

/// The little-endian byte image of a slice of signed 32-bit integers.
pub fn i32_to_bytes(values: &[i32]) -> (out: Vec<u8>)
    ensures
        out@ == i32_image(values@),
{
    let mut out: Vec<u8> = Vec::new();
    for i in 0..values.len()
        invariant
            out@ == i32_image(values@.take(i as int)),
    {
        push_le_u32(&mut out, twos_complement_bits(values[i]));
        assert(values@.take(i + 1).drop_last() =~= values@.take(i as int));
    }
    assert(values@.take(values.len() as int) =~= values@);
    out
}

/// A word is two bytes, the lower first, and is read back from them; an odd byte is never read.
pub proof fn words_are_two_bytes(
    words: &[u16],
    bytes: Vec<u8>,
    other: &[u8],
    back: Option<Vec<u16>>,
    at: int,
)
    requires
        call_ensures(words_to_bytes, (words,), bytes),
        call_ensures(decode_words, (other,), back),
        0 <= at,
    ensures
        bytes@.len() == 2 * words@.len(),
        at < words@.len() ==> words@[at] == bytes@[2 * at] + 256 * bytes@[2 * at + 1],
        back is Some <==> other@.len() % 2 == 0,
        back is Some ==> 2 * back->Some_0@.len() == other@.len(),
        back is Some && at < back->Some_0@.len() ==> back->Some_0@[at] == other@[2 * at] + 256
            * other@[2 * at + 1],
        other@ == bytes@ ==> back is Some && back->Some_0@ == words@,
{
    if other@ == bytes@ {
        words_round_trip(words@);
    }
}

/// What four bytes stand for, the lowest first.
pub open spec fn number_at(bytes: Seq<u8>, at: int) -> int {
    bytes[at] + 0x100 * bytes[at + 1] + 0x1_0000 * bytes[at + 2] + 0x100_0000 * bytes[at + 3]
}

pub(crate) proof fn bytes_stand_for_their_number(w: u32)
    ensures
        le_u32(w).len() == 4,
        number_at(le_u32(w), 0) == w,
{
}

pub(crate) proof fn number_of_a_part(bytes: Seq<u8>, at: int, w: u32)
    requires
        0 <= at,
        at + 4 <= bytes.len(),
        bytes.subrange(at, at + 4) == le_u32(w),
    ensures
        number_at(bytes, at) == w,
{
    bytes_stand_for_their_number(w);
    let part = bytes.subrange(at, at + 4);
    assert(part[0] == bytes[at] && part[1] == bytes[at + 1] && part[2] == bytes[at + 2] && part[3]
        == bytes[at + 3]);
}

/// A number of four bytes goes behind what stands there, its lowest byte first.
pub proof fn short_numbers_go_lowest_byte_first(out: &mut Vec<u8>, w: u32)
    requires
        call_ensures(push_le_u32, (out, w), ()),
    ensures
        final(out)@.len() == old(out)@.len() + 4,
        final(out)@.take(old(out)@.len() as int) == old(out)@,
        number_at(final(out)@, old(out)@.len() as int) == w,
{
    let n = old(out)@.len() as int;
    bytes_stand_for_their_number(w);
    assert(final(out)@.take(n) =~= old(out)@);
    assert(final(out)@.subrange(n, n + 4) =~= le_u32(w));
    number_of_a_part(final(out)@, n, w);
}

/// A number of eight bytes goes behind what stands there, its lower half first.
pub proof fn long_numbers_go_lower_half_first(out: &mut Vec<u8>, w: u64)
    requires
        call_ensures(push_le_u64, (out, w), ()),
    ensures
        final(out)@.len() == old(out)@.len() + 8,
        final(out)@.take(old(out)@.len() as int) == old(out)@,
        number_at(final(out)@, old(out)@.len() as int) == w % 0x1_0000_0000,
        number_at(final(out)@, old(out)@.len() as int + 4) == w / 0x1_0000_0000,
{
    let n = old(out)@.len() as int;
    let low = (w % 0x1_0000_0000) as u32;
    let high = (w / 0x1_0000_0000) as u32;
    bytes_stand_for_their_number(low);
    bytes_stand_for_their_number(high);
    assert(final(out)@.take(n) =~= old(out)@);
    assert(final(out)@.subrange(n, n + 4) =~= le_u32(low));
    assert(final(out)@.subrange(n + 4, n + 4 + 4) =~= le_u32(high));
    number_of_a_part(final(out)@, n, low);
    number_of_a_part(final(out)@, n + 4, high);
}

proof fn numbers_stand_four_bytes_apart(values: Seq<i32>, at: int)
    requires
        0 <= at < values.len(),
    ensures
        i32_image(values).len() == 4 * values.len(),
        i32_image(values).subrange(4 * at, 4 * at + 4) == le_u32(twos_complement(values[at])),
    decreases values.len(),
{
    let front = values.drop_last();
    i32_image_len(values);
    i32_image_len(front);
    let all = i32_image(values);
    if at < front.len() {
        numbers_stand_four_bytes_apart(front, at);
        assert(all.subrange(4 * at, 4 * at + 4) =~= i32_image(front).subrange(4 * at, 4 * at + 4));
    } else {
        assert(all.subrange(4 * at, 4 * at + 4) =~= le_u32(twos_complement(values[at])));
    }
}

/// A signed number is four bytes, the lowest first; below zero it stands for itself and 2^32 together.
pub proof fn signed_numbers_are_four_bytes(values: &[i32], bytes: Vec<u8>, at: int)
    requires
        call_ensures(i32_to_bytes, (values,), bytes),
        0 <= at < values@.len(),
    ensures
        bytes@.len() == 4 * values@.len(),
        values@[at] >= 0 ==> number_at(bytes@, 4 * at) == values@[at],
        values@[at] < 0 ==> number_at(bytes@, 4 * at) == values@[at] + 0x1_0000_0000,
{
    numbers_stand_four_bytes_apart(values@, at);
    number_of_a_part(bytes@, 4 * at, twos_complement(values@[at]));
}

} // verus!
