//! How rows of a multi-token prediction run are compared and hashed.
use crate::bytes::{
    le_u32, number_at, number_of_a_part, push_le_u32, words_image, words_to_bytes,
};
use crate::digest::{digest, digest_of};
use crate::number::{bf16_is_finite, distance, ordered_bf16_bits, zero_merged_rank};
use crate::text::{chars_of, decimal, decimal_string, hex_word, hex_word_string, joined3, string_of};
use vstd::prelude::*;
use vstd::string::StringExecFns;

verus! {

broadcast use vstd::string::group_string_axioms;

/// The most BF16 steps by which two rows may differ and still count as equal.
pub const NUMERIC_MAX_BF16_ULP: u64 = 3;

/// The BF16 steps between two words, the two zeros taken as one.
pub open spec fn steps(a: u16, b: u16) -> nat {
    distance(zero_merged_rank(a) as int, zero_merged_rank(b) as int)
}

/// The largest number of steps between words of the same place.
pub open spec fn max_steps(left: Seq<u16>, right: Seq<u16>) -> nat
    decreases left.len(),
{
    if left.len() == 0 {
        0
    } else {
        let front = max_steps(left.drop_last(), right.drop_last());
        let last = steps(left.last(), right.last());
        if last > front {
            last
        } else {
            front
        }
    }
}

/// The first place from `from` on that holds a value which is not finite, or the length.
pub open spec fn first_nonfinite(left: Seq<u16>, right: Seq<u16>, from: int) -> int
    decreases left.len() - from,
{
    if from >= left.len() {
        left.len() as int
    } else if !bf16_is_finite(left[from]) || !bf16_is_finite(right[from]) {
        from
    } else {
        first_nonfinite(left, right, from + 1)
    }
}

/// The first place from `from` on where the words differ, or the length.
pub open spec fn first_difference(left: Seq<u16>, right: Seq<u16>, from: int) -> int
    decreases left.len() - from,
{
    if from >= left.len() {
        left.len() as int
    } else if left[from] != right[from] {
        from
    } else {
        first_difference(left, right, from + 1)
    }
}

/// Two words of the same place that differ.
#[derive(Clone, Copy, Debug, PartialEq, Eq, Structural)]
pub struct DiffSample {
    pub index: usize,
    pub left_bf16: u16,
    pub right_bf16: u16,
    pub ulp: u64,
}

/// How two rows differ.
#[derive(Clone, Copy, Debug, PartialEq, Eq)]
pub struct NumericDiff {
    pub max_ulp: u64,
    pub first_mismatch: Option<DiffSample>,
}

impl NumericDiff {
    /// The difference of two rows of the same length.
    pub open spec fn compares(self, left: Seq<u16>, right: Seq<u16>) -> bool {
        let at = first_difference(left, right, 0);
        &&& self.max_ulp == max_steps(left, right)
        &&& match self.first_mismatch {
            Some(sample) => {
                &&& at < left.len()
                &&& sample.index == at
                &&& sample.left_bf16 == left[at]
                &&& sample.right_bf16 == right[at]
                &&& sample.ulp == steps(left[at], right[at])
            },
            None => at == left.len(),
        }
    }

    /// Whether the rows count as equal.
    pub open spec fn is_within(self) -> bool {
        self.max_ulp <= NUMERIC_MAX_BF16_ULP
    }

    /// Whether the rows count as equal.
    pub fn within_threshold(&self) -> (out: bool)
        ensures
            out == self.is_within(),
    {
        self.max_ulp <= NUMERIC_MAX_BF16_ULP
    }
}

/// The message that refuses to compare two rows, if there is one.
pub open spec fn diff_refusal(left: Seq<u16>, right: Seq<u16>) -> Option<Seq<char>> {
    let at = first_nonfinite(left, right, 0);
    if left.len() != right.len() {
        Some(
            "numeric row length differs: "@ + decimal(left.len()) + " vs "@ + decimal(right.len()),
        )
    } else if at < left.len() {
        Some(
            "non-finite BF16 value observed at index "@ + decimal(at as nat) + ": left=0x"@
                + hex_word(left[at]) + " right=0x"@ + hex_word(right[at]),
        )
    } else {
        None
    }
}

fn nonfinite_message(index: usize, a: u16, b: u16) -> (out: String)
    ensures
        out@ == "non-finite BF16 value observed at index "@ + decimal(index as nat) + ": left=0x"@
            + hex_word(a) + " right=0x"@ + hex_word(b),
{
    let number = decimal_string(index as u64);
    let mut out = joined3(
        "non-finite BF16 value observed at index ",
        number.as_str(),
        ": left=0x",
    );
    let left = hex_word_string(a);
    let right = hex_word_string(b);
    out.append(left.as_str());
    out.append(" right=0x");
    out.append(right.as_str());
    out
}

/// Compares two rows of finite BF16 words place by place.
pub fn numeric_diff(left: &[u16], right: &[u16]) -> (out: Result<NumericDiff, String>)
    ensures
        match diff_refusal(left@, right@) {
            Some(message) => out is Err && out->Err_0@ == message,
            None => out is Ok && left@.len() == right@.len() && out->Ok_0.compares(left@, right@),
        },
{
    if left.len() != right.len() {
        let a = decimal_string(left.len() as u64);
        let b = decimal_string(right.len() as u64);
        let mut message = joined3("numeric row length differs: ", a.as_str(), " vs ");
        message.append(b.as_str());
        return Err(message);
    }
    let mut max_ulp: u64 = 0;
    let mut first_mismatch: Option<DiffSample> = None;
    for i in 0..left.len()
        invariant
            left@.len() == right@.len(),
            first_nonfinite(left@, right@, 0) == first_nonfinite(left@, right@, i as int),
            max_ulp == max_steps(left@.take(i as int), right@.take(i as int)),
            match first_mismatch {
                Some(sample) => {
                    let at = first_difference(left@, right@, 0);
                    &&& at < i
                    &&& sample.index == at
                    &&& sample.left_bf16 == left@[at]
                    &&& sample.right_bf16 == right@[at]
                    &&& sample.ulp == steps(left@[at], right@[at])
                },
                None => first_difference(left@, right@, 0) == first_difference(
                    left@,
                    right@,
                    i as int,
                ),
            },
    {
        let a: u16 = left[i];
        let b: u16 = right[i];
        if a % 0x8000 >= 0x7f80 || b % 0x8000 >= 0x7f80 {
            return Err(nonfinite_message(i, a, b));
        }
        let x: u16 = ordered_bf16_bits(a);
        let y: u16 = ordered_bf16_bits(b);
        let ulp: u64 = if x >= y { (x - y) as u64 } else { (y - x) as u64 };
        if a != b && first_mismatch.is_none() {
            first_mismatch = Some(DiffSample { index: i, left_bf16: a, right_bf16: b, ulp });
        }
        if ulp > max_ulp {
            max_ulp = ulp;
        }
        assert(left@.take(i + 1).drop_last() =~= left@.take(i as int));
        assert(right@.take(i + 1).drop_last() =~= right@.take(i as int));
    }
    assert(left@.take(left.len() as int) =~= left@);
    assert(right@.take(right.len() as int) =~= right@);
    Ok(NumericDiff { max_ulp, first_mismatch })
}

/// Rows compare the same both ways round.
pub proof fn comparison_is_symmetric(left: Seq<u16>, right: Seq<u16>)
    requires
        left.len() == right.len(),
    ensures
        max_steps(left, right) == max_steps(right, left),
    decreases left.len(),
{
    if left.len() > 0 {
        comparison_is_symmetric(left.drop_last(), right.drop_last());
    }
}

/// A row is no step away from itself.
pub proof fn equal_rows_have_no_steps(row: Seq<u16>)
    ensures
        max_steps(row, row) == 0,
    decreases row.len(),
{
    if row.len() > 0 {
        equal_rows_have_no_steps(row.drop_last());
    }
}

proof fn max_steps_bounds(left: Seq<u16>, right: Seq<u16>, at: int)
    requires
        left.len() == right.len(),
        0 <= at < left.len(),
    ensures
        steps(left[at], right[at]) <= max_steps(left, right),
        exists|i: int|
            0 <= i < left.len() && #[trigger] steps(left[i], right[i]) == max_steps(left, right),
    decreases left.len(),
{
    let n = left.len() - 1;
    let front = max_steps(left.drop_last(), right.drop_last());
    if n > 0 {
        max_steps_bounds(
            left.drop_last(),
            right.drop_last(),
            if at < n {
                at
            } else {
                0
            },
        );
        if steps(left.last(), right.last()) > front {
            assert(steps(left[n], right[n]) == max_steps(left, right));
        } else {
            let i = choose|i: int|
                0 <= i < n && #[trigger] steps(left.drop_last()[i], right.drop_last()[i]) == front;
            assert(steps(left[i], right[i]) == max_steps(left, right));
        }
    } else {
        assert(front == 0);
        assert(steps(left[0], right[0]) == max_steps(left, right));
    }
}

pub(crate) proof fn first_difference_is_first(left: Seq<u16>, right: Seq<u16>, from: int)
    requires
        left.len() == right.len(),
        0 <= from <= left.len(),
    ensures
        ({
            let at = first_difference(left, right, from);
            &&& from <= at <= left.len()
            &&& at < left.len() ==> left[at] != right[at]
            &&& forall|i: int| from <= i < at ==> #[trigger] left[i] == right[i]
        }),
    decreases left.len() - from,
{
    if from < left.len() && left[from] == right[from] {
        first_difference_is_first(left, right, from + 1);
    }
}

proof fn first_nonfinite_is_first(left: Seq<u16>, right: Seq<u16>, from: int)
    requires
        left.len() == right.len(),
        0 <= from <= left.len(),
    ensures
        ({
            let at = first_nonfinite(left, right, from);
            &&& from <= at <= left.len()
            &&& at < left.len() ==> !bf16_is_finite(left[at]) || !bf16_is_finite(right[at])
            &&& forall|i: int|
                from <= i < at ==> bf16_is_finite(#[trigger] left[i]) && bf16_is_finite(right[i])
        }),
    decreases left.len() - from,
{
    if from < left.len() && bf16_is_finite(left[from]) && bf16_is_finite(right[from]) {
        first_nonfinite_is_first(left, right, from + 1);
    }
}

/// Two rows are compared just where they are of one length and finite throughout.
pub proof fn finite_rows_of_one_length_are_compared(
    left: &[u16],
    right: &[u16],
    out: Result<NumericDiff, String>,
)
    requires
        call_ensures(numeric_diff, (left, right), out),
    ensures
        out is Ok <==> left@.len() == right@.len() && forall|i: int|
            0 <= i < left@.len() ==> (#[trigger] left@[i]) % 0x8000 < 0x7f80 && right@[i] % 0x8000
                < 0x7f80,
{
    if left@.len() == right@.len() {
        first_nonfinite_is_first(left@, right@, 0);
        let at = first_nonfinite(left@, right@, 0);
        if at < left@.len() {
            assert(!(left@[at] % 0x8000 < 0x7f80 && right@[at] % 0x8000 < 0x7f80));
        } else {
            assert forall|i: int| 0 <= i < left@.len() implies (#[trigger] left@[i]) % 0x8000 < 0x7f80
                && right@[i] % 0x8000 < 0x7f80 by {
                assert(bf16_is_finite(left@[i]));
            }
        }
    }
}

/// A comparison counts the steps of the place that lies farthest apart: no place has more, and some
/// place has as many. Its sample is the first place that differs at all.
pub proof fn the_farthest_place_counts(
    left: &[u16],
    right: &[u16],
    diff: NumericDiff,
    at: int,
    a: u16,
    b: u16,
)
    requires
        call_ensures(numeric_diff, (left, right), Ok(diff)),
        0 <= at < left@.len(),
        call_ensures(ordered_bf16_bits, (left@[at],), a),
        call_ensures(ordered_bf16_bits, (right@[at],), b),
    ensures
        diff.max_ulp >= a - b && diff.max_ulp >= b - a,
        diff.max_ulp == 0 ==> a == b,
        exists|i: int|
            0 <= i < left@.len() && #[trigger] steps(left@[i], right@[i]) == diff.max_ulp,
        diff.first_mismatch is None ==> left@[at] == right@[at],
        diff.first_mismatch matches Some(sample) ==> {
            &&& sample.index < left@.len()
            &&& sample.left_bf16 == left@[sample.index as int]
            &&& sample.right_bf16 == right@[sample.index as int]
            &&& sample.left_bf16 != sample.right_bf16
            &&& at < sample.index ==> left@[at] == right@[at]
            &&& at == sample.index ==> sample.ulp == a - b || sample.ulp == b - a
        },
{
    max_steps_bounds(left@, right@, at);
    first_difference_is_first(left@, right@, 0);
}

/// Rows count as equal just where no place is more than three steps apart.
pub proof fn three_steps_are_within(diff: &NumericDiff, within: bool)
    requires
        call_ensures(NumericDiff::within_threshold, (diff,), within),
    ensures
        within <==> diff.max_ulp <= 3,
{
}

/// The digest of a row of words.
pub fn hash_words(words: &[u16]) -> (out: String)
    ensures
        out@ == digest_of(words_image(words@)),
{
    let image = words_to_bytes(words);
    digest(image.as_slice())
}

/// The byte image of a row of binary32 values.
pub open spec fn f32_image(values: Seq<u32>) -> Seq<u8>
    decreases values.len(),
{
    if values.len() == 0 {
        Seq::empty()
    } else {
        f32_image(values.drop_last()) + le_u32(values.last())
    }
}

/// The digest of a row of binary32 values.
pub fn hash_f32(values: &[u32]) -> (out: String)
    ensures
        out@ == digest_of(f32_image(values@)),
{
    let mut image: Vec<u8> = Vec::new();
    for i in 0..values.len()
        invariant
            image@ == f32_image(values@.take(i as int)),
    {
        push_le_u32(&mut image, values[i]);
        assert(values@.take(i + 1).drop_last() =~= values@.take(i as int));
    }
    assert(values@.take(values.len() as int) =~= values@);
    digest(image.as_slice())
}

/// Whether a character is an ASCII letter or digit.
pub open spec fn is_ascii_alphanumeric(c: char) -> bool {
    ||| '0' as int <= c as int <= '9' as int
    ||| 'A' as int <= c as int <= 'Z' as int
    ||| 'a' as int <= c as int <= 'z' as int
}

/// A name in which everything but ASCII letters and digits is an underscore.
pub open spec fn file_stem(name: Seq<char>) -> Seq<char> {
    Seq::new(
        name.len(),
        |i: int|
            if is_ascii_alphanumeric(name[i]) {
                name[i]
            } else {
                '_'
            },
    )
}

fn stem_of(name: &str) -> (out: String)
    ensures
        out@ == file_stem(name@),
{
    let text = chars_of(name);
    let mut out: Vec<char> = Vec::new();
    for i in 0..text.len()
        invariant
            text@ == name@,
            out@ == file_stem(name@).take(i as int),
    {
        let c = text[i];
        let kept = ('0' <= c && c <= '9') || ('A' <= c && c <= 'Z') || ('a' <= c && c <= 'z');
        out.push(if kept { c } else { '_' });
        assert(file_stem(name@).take(i + 1) =~= file_stem(name@).take(i as int).push(
            file_stem(name@)[i as int],
        ));
    }
    assert(file_stem(name@).take(text.len() as int) =~= file_stem(name@));
    string_of(out.as_slice())
}

/// The name of a dump file of a case: one of its word rows or its manifest.
pub fn dump_file_name(case_name: &str, part: &str) -> (out: String)
    ensures
        out@ == "phase84_5_"@ + file_stem(case_name@) + "_"@ + part@,
{
    let stem = stem_of(case_name);
    let mut out = joined3("phase84_5_", stem.as_str(), "_");
    out.append(part);
    out
}

proof fn values_stand_four_bytes_apart(values: Seq<u32>, at: int)
    requires
        0 <= at < values.len(),
    ensures
        f32_image(values).len() == 4 * values.len(),
        f32_image(values).subrange(4 * at, 4 * at + 4) == le_u32(values[at]),
    decreases values.len(),
{
    let front = values.drop_last();
    if front.len() > 0 {
        values_stand_four_bytes_apart(
            front,
            if at < front.len() {
                at
            } else {
                0
            },
        );
    } else {
        assert(f32_image(front) =~= Seq::<u8>::empty());
    }
    let all = f32_image(values);
    if at < front.len() {
        assert(all.subrange(4 * at, 4 * at + 4) =~= f32_image(front).subrange(4 * at, 4 * at + 4));
    } else {
        assert(all.subrange(4 * at, 4 * at + 4) =~= le_u32(values[at]));
    }
}

/// What is digested of a row are its values in their order, four bytes for each and the lowest first.
pub proof fn rows_are_digested_value_by_value(values: &[u32], digested: String)
    requires
        values@.len() > 0,
        call_ensures(hash_f32, (values,), digested),
    ensures
        exists|bytes: Seq<u8>|
            {
                &&& digested@ == #[trigger] digest_of(bytes)
                &&& bytes.len() == 4 * values@.len()
                &&& forall|i: int|
                    0 <= i < values@.len() ==> #[trigger] values@[i] == number_at(bytes, 4 * i)
            },
{
    let bytes = f32_image(values@);
    values_stand_four_bytes_apart(values@, 0);
    assert forall|i: int| 0 <= i < values@.len() implies #[trigger] values@[i] == number_at(
        bytes,
        4 * i,
    ) by {
        values_stand_four_bytes_apart(values@, i);
        number_of_a_part(bytes, 4 * i, values@[i]);
    }
    assert(digested@ == digest_of(bytes));
}

} // verus!
