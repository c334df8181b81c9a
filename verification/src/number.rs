//! Floating-point formats as bit patterns: rounding, widening and order.
//!
//! A binary32 value is carried as its `u32` bits, a binary64 value as its `u64` bits, a BF16 or
//! binary16 value as its `u16` word.
use vstd::arithmetic::power2::{
    lemma2_to64, lemma2_to64_rest, lemma_pow2_strictly_increases, lemma_pow2_unfold, pow2,
};
use vstd::prelude::*;

verus! {

/// The quotient rounded to the nearest integer, a tie to the even one.
pub open spec fn nearest_even(num: nat, den: nat) -> nat {
    let quotient = num / den;
    let rest = num % den;
    if 2 * rest > den || (2 * rest == den && quotient % 2 == 1) {
        quotient + 1
    } else {
        quotient
    }
}

fn nearest_even_u128(num: u128, den: u128) -> (out: u128)
    requires
        0 < den < 0x8000_0000_0000_0000_0000_0000_0000_0000,
        num < 0x8000_0000_0000_0000_0000_0000_0000_0000,
    ensures
        out == nearest_even(num as nat, den as nat),
{
    let quotient: u128 = num / den;
    let rest: u128 = num % den;
    assert(quotient <= num) by (nonlinear_arith)
        requires
            quotient == num / den,
            den > 0,
    ;
    if 2 * rest > den || (2 * rest == den && quotient % 2 == 1) {
        quotient + 1
    } else {
        quotient
    }
}

/// The exponent field of a binary32 value.
pub open spec fn f32_exponent(bits: u32) -> nat {
    (bits / 0x80_0000 % 256) as nat
}

/// The fraction field of a binary32 value.
pub open spec fn f32_fraction(bits: u32) -> nat {
    (bits % 0x80_0000) as nat
}

/// Whether a binary32 value is neither infinite nor NaN.
pub open spec fn f32_is_finite(bits: u32) -> bool {
    f32_exponent(bits) != 255
}

/// The rank of a finite binary32 value: it orders bit patterns as the values they denote are
/// ordered, and gives both zeros the same rank.
pub open spec fn f32_rank(bits: u32) -> int {
    if bits >= 0x8000_0000 {
        0x8000_0000 - bits
    } else {
        bits as int
    }
}

/// Whether a binary32 value is neither infinite nor NaN.
pub fn is_finite_f32(bits: u32) -> (out: bool)
    ensures
        out == f32_is_finite(bits),
{
    bits / 0x80_0000 % 256 != 255
}

/// The rank of a binary32 value.
pub fn rank_f32(bits: u32) -> (out: i64)
    ensures
        out == f32_rank(bits),
{
    if bits >= 0x8000_0000 {
        0x8000_0000 - bits as i64
    } else {
        bits as i64
    }
}

/// The binary32 bits of a BF16 word.
pub open spec fn widened(word: u16) -> u32 {
    (word * 0x1_0000) as u32
}

/// The binary32 bits of a BF16 word.
pub fn bf16_to_f32(word: u16) -> (out: u32)
    ensures
        out == widened(word),
{
    word as u32 * 0x1_0000
}

/// Whether a BF16 word is a NaN.
pub open spec fn bf16_is_nan(word: u16) -> bool {
    word % 0x8000 > 0x7f80
}

/// Whether a BF16 word is an infinity.
pub open spec fn bf16_is_infinite(word: u16) -> bool {
    word % 0x8000 == 0x7f80
}

/// Whether a BF16 word is neither infinite nor NaN.
pub open spec fn bf16_is_finite(word: u16) -> bool {
    word % 0x8000 < 0x7f80
}

/// The BF16 word of binary32 bits: a NaN is quieted and keeps its sign and the low bits of its
/// payload, every other value is rounded to the nearest word, a tie to the even one.
pub open spec fn bf16_rne(bits: u32) -> u16 {
    let upper = bits / 0x1_0000;
    if f32_exponent(bits) == 255 && f32_fraction(bits) != 0 {
        (upper / 0x8000 * 0x8000 + 0x7fc0 + upper % 64) as u16
    } else {
        nearest_even(bits as nat, 0x1_0000) as u16
    }
}

/// Rounds binary32 bits to a BF16 word.
pub fn float_to_bf16_rne(bits: u32) -> (out: u16)
    ensures
        out == bf16_rne(bits),
{
    let upper: u32 = bits / 0x1_0000;
    let lower: u32 = bits % 0x1_0000;
    if bits / 0x80_0000 % 256 == 255 {
        if bits % 0x80_0000 != 0 {
            return (upper / 0x8000 * 0x8000 + 0x7fc0 + upper % 64) as u16;
        }
        return upper as u16;
    }
    let carry: u32 = if lower > 0x8000 || (lower == 0x8000 && upper % 2 != 0) { 1 } else { 0 };
    (upper + carry) as u16
}

/// Rounding a BF16 value gives the value back, NaNs that are not quiet excepted.
pub proof fn bf16_round_trip(word: u16)
    requires
        !bf16_is_nan(word) || word % 0x80 >= 0x40,
    ensures
        bf16_rne(widened(word)) == word,
{
}

/// A finite value is rounded to one of the two BF16 words next to it, never to the farther one,
/// and half way between them to the even one. Between neighbouring words the bits grow in step
/// with the value, so the distance of the bits decides.
pub proof fn bf16_rne_is_nearest(bits: u32)
    requires
        f32_is_finite(bits),
    ensures
        ({
            let rounded = bf16_rne(bits) * 0x1_0000;
            &&& -0x8000 <= rounded - bits <= 0x8000
            &&& (rounded - bits == 0x8000 || rounded - bits == -0x8000) ==> bf16_rne(bits) % 2
                == 0
        }),
{
}

/// Rounding keeps the order of values of one sign.
pub proof fn bf16_rne_is_monotonic(a: u32, b: u32)
    requires
        f32_is_finite(a),
        f32_is_finite(b),
        a <= b,
        a / 0x8000_0000 == b / 0x8000_0000,
    ensures
        bf16_rne(a) <= bf16_rne(b),
{
}

/// The rank of a BF16 word in which the two zeros coincide.
pub open spec fn zero_merged_rank(word: u16) -> nat {
    if word % 0x8000 == 0 {
        0x8000
    } else if word >= 0x8000 {
        (0xffff - word) as nat
    } else {
        (word + 0x8000) as nat
    }
}

/// The rank of a BF16 word in which the two zeros are neighbours.
pub open spec fn signed_zero_rank(word: u16) -> nat {
    if word >= 0x8000 {
        (0xffff - word) as nat
    } else {
        (word + 0x8000) as nat
    }
}

/// The distance of two numbers.
pub open spec fn distance(a: int, b: int) -> nat {
    if a >= b {
        (a - b) as nat
    } else {
        (b - a) as nat
    }
}

/// The rank of a BF16 word with both zeros at the middle.
pub fn ordered_bf16_bits(value: u16) -> (out: u16)
    ensures
        out == zero_merged_rank(value),
{
    if value % 0x8000 == 0 {
        0x8000
    } else if value >= 0x8000 {
        0xffff - value
    } else {
        value + 0x8000
    }
}

/// The rank of a BF16 word with the zeros side by side.
pub fn ordered_bf16(bits: u16) -> (out: i32)
    ensures
        out == signed_zero_rank(bits),
{
    if bits >= 0x8000 {
        (0xffff - bits) as i32
    } else {
        bits as i32 + 0x8000
    }
}

/// The number of BF16 steps between two finite words.
pub fn finite_bf16_ulp_distance(expected: u16, actual: u16) -> (out: u16)
    ensures
        out == distance(signed_zero_rank(expected) as int, signed_zero_rank(actual) as int),
{
    let a: i32 = ordered_bf16(expected);
    let b: i32 = ordered_bf16(actual);
    if a >= b {
        (a - b) as u16
    } else {
        (b - a) as u16
    }
}

/// The number of BF16 steps between two words.
pub fn bf16_ulp_distance(observed: u16, expected: u16) -> (out: u32)
    ensures
        out == distance(signed_zero_rank(observed) as int, signed_zero_rank(expected) as int),
{
    finite_bf16_ulp_distance(observed, expected) as u32
}

/// The step count between words is a metric: zero for equal words only, the same both ways, and
/// no longer than a detour.
pub proof fn ulp_distance_is_a_metric(a: u16, b: u16, c: u16)
    ensures
        ({
            let d = |x: u16, y: u16|
                distance(signed_zero_rank(x) as int, signed_zero_rank(y) as int);
            &&& (d(a, b) == 0 <==> a == b)
            &&& d(a, b) == d(b, a)
            &&& d(a, c) <= d(a, b) + d(b, c)
        }),
{
}

/// Ranks count the words in the order of their values: among words that are not negative the next
/// one ranks one higher, among negative ones one lower, and every negative word ranks below every
/// other. Where the two zeros are told apart they are neighbours, else they rank the same.
pub proof fn ranks_count_the_words(word: u16, apart: i32, merged: u16, next: i32, next_merged: u16)
    requires
        word % 0x8000 != 0x7fff,
        call_ensures(ordered_bf16, (word,), apart),
        call_ensures(ordered_bf16_bits, (word,), merged),
        call_ensures(ordered_bf16, ((word + 1) as u16,), next),
        call_ensures(ordered_bf16_bits, ((word + 1) as u16,), next_merged),
    ensures
        word < 0x8000 ==> next == apart + 1 && next_merged == merged + 1,
        word >= 0x8000 ==> next == apart - 1,
        word > 0x8000 ==> next_merged == merged - 1,
        word == 0x8000 ==> apart == 0x7fff && merged == 0x8000 && next_merged == 0x7ffe,
        word == 0 ==> apart == 0x8000 && merged == 0x8000,
        word < 0x8000 <==> apart >= 0x8000,
{
}

/// The steps between two words are those of their ranks, in both of its forms.
pub proof fn steps_are_those_of_the_ranks(
    a: u16,
    b: u16,
    rank_a: i32,
    rank_b: i32,
    finite: u16,
    any: u32,
)
    requires
        call_ensures(ordered_bf16, (a,), rank_a),
        call_ensures(ordered_bf16, (b,), rank_b),
        call_ensures(finite_bf16_ulp_distance, (a, b), finite),
        call_ensures(bf16_ulp_distance, (a, b), any),
    ensures
        any == finite,
        any == rank_a - rank_b || any == rank_b - rank_a,
{
}

/// Widening keeps a word in the upper half, so that the rank of the bits orders BF16 words too; the
/// rank of binary32 bits is odd about zero and grows with the magnitude.
pub proof fn binary32_ranks_are_odd(bits: u32, rank: i64, negated: i64)
    requires
        bits < 0x8000_0000,
        call_ensures(rank_f32, (bits,), rank),
        call_ensures(rank_f32, ((bits + 0x8000_0000) as u32,), negated),
    ensures
        rank == bits,
        negated == -rank,
{
}

/// A BF16 word is widened by sixteen zero bits, and a binary32 value is finite unless all bits of its
/// exponent are set.
pub proof fn words_are_widened_by_zeros(word: u16, bits: u32, finite: bool)
    requires
        call_ensures(bf16_to_f32, (word,), bits),
        call_ensures(is_finite_f32, (bits,), finite),
    ensures
        bits % 0x1_0000 == 0,
        bits / 0x1_0000 == word,
        finite <==> word % 0x8000 < 0x7f80,
{
}

/// Rounding a binary32 value to a BF16 word gives the nearest word, a tie to the even one; an
/// infinity stays, and a NaN stays a NaN of its sign.
pub proof fn rounding_goes_to_the_nearest_word(bits: u32, word: u16)
    requires
        call_ensures(float_to_bf16_rne, (bits,), word),
    ensures
        ({
            let below = bits / 0x1_0000;
            let rest = bits % 0x1_0000;
            let nan = bits % 0x8000_0000 > 0x7f80_0000;
            &&& !nan && rest < 0x8000 ==> word == below
            &&& !nan && rest > 0x8000 ==> word == below + 1
            &&& !nan && rest == 0x8000 ==> word % 2 == 0 && (word == below || word == below + 1)
            &&& nan ==> word % 0x8000 > 0x7f80 && word / 0x8000 == bits / 0x8000_0000 && word % 0x80
                >= 0x40 && word % 0x40 == below % 0x40
        }),
{
}

/// The bits of the positive binary32 value nearest to `n / d`, for values in the normal range:
/// doubling a value raises its exponent field by one.
pub open spec fn f32_magnitude(n: nat, d: nat) -> int
    decreases
            if n < d {
                d - n
            } else if n >= 2 * d {
                n - d
            } else {
                0
            },
{
    if n == 0 || d == 0 {
        0
    } else if n < d {
        f32_magnitude(2 * n, d) - 0x80_0000
    } else if n >= 2 * d {
        f32_magnitude(n, 2 * d) + 0x80_0000
    } else {
        126 * 0x80_0000 + nearest_even(n * 0x80_0000, d) as int
    }
}

/// The binary32 bits of `num / den`, with the sign given.
pub open spec fn f32_ratio(negative: bool, num: nat, den: nat) -> u32 {
    if num == 0 {
        0
    } else {
        (f32_magnitude(num, den) + if negative { 0x8000_0000int } else { 0 }) as u32
    }
}

/// The binary32 bits of an integer over a positive integer.
pub open spec fn f32_quotient(num: int, den: nat) -> u32 {
    f32_ratio(num < 0, (if num < 0 { -num } else { num }) as nat, den)
}

/// The binary32 bits of `num / den`, rounded to the nearest value.
pub fn f32_ratio_bits(negative: bool, num: u64, den: u64) -> (out: u32)
    requires
        0 < den <= 0x100_0000_0000,
        num <= 0x100_0000_0000,
    ensures
        out == f32_ratio(negative, num as nat, den as nat),
        num > 0 ==> 86 * 0x80_0000 <= f32_magnitude(num as nat, den as nat) <= 169 * 0x80_0000,
{
    if num == 0 {
        return 0;
    }
    let mut n: u128 = num as u128;
    let mut d: u128 = den as u128;
    let mut down: u32 = 0;
    proof {
        lemma2_to64();
        lemma2_to64_rest();
    }
    while n < d
        invariant
            n > 0,
            0 < d == den <= 0x100_0000_0000,
            n == num * pow2(down as nat),
            num >= 1,
            n < 2 * d || down == 0,
            n <= 0x200_0000_0000,
            down <= 40,
            pow2(40) == 0x100_0000_0000,
            f32_magnitude(num as nat, den as nat) == f32_magnitude(n as nat, d as nat) - down
                * 0x80_0000,
        decreases 2 * d - n,
    {
        proof {
            if down == 40 {
                assert(n >= pow2(40)) by (nonlinear_arith)
                    requires
                        n == num * pow2(40),
                        num >= 1,
                ;
            }
            lemma_pow2_unfold((down + 1) as nat);
            assert(num * pow2((down + 1) as nat) == 2 * n) by (nonlinear_arith)
                requires
                    n == num * pow2(down as nat),
                    pow2((down + 1) as nat) == 2 * pow2(down as nat),
            ;
        }
        n = 2 * n;
        down = down + 1;
    }
    let mut up: u32 = 0;
    while n >= 2 * d
        invariant
            n > 0,
            n <= 0x200_0000_0000,
            d == den * pow2(up as nat),
            den >= 1,
            d > 0,
            d <= n,
            up <= 41,
            down <= 40,
            up > 0 ==> down == 0,
            n >= 2 * d ==> down == 0,
            pow2(40) == 0x100_0000_0000,
            f32_magnitude(num as nat, den as nat) == f32_magnitude(n as nat, d as nat) - down
                * 0x80_0000 + up * 0x80_0000,
        decreases n - d,
    {
        proof {
            if up >= 41 {
                lemma_pow2_unfold(41);
                assert(d >= pow2(41)) by (nonlinear_arith)
                    requires
                        d == den * pow2(up as nat),
                        den >= 1,
                        up == 41,
                ;
            }
            lemma_pow2_unfold((up + 1) as nat);
            assert(den * pow2((up + 1) as nat) == 2 * d) by (nonlinear_arith)
                requires
                    d == den * pow2(up as nat),
                    pow2((up + 1) as nat) == 2 * pow2(up as nat),
            ;
        }
        d = 2 * d;
        up = up + 1;
    }
    let significand: u128 = nearest_even_u128(n * 0x80_0000, d);
    proof {
        let product: nat = (n * 0x80_0000) as nat;
        let dn: nat = d as nat;
        assert(0x80_0000 <= product / dn <= 0x100_0000) by (nonlinear_arith)
            requires
                product == n * 0x80_0000,
                dn == d,
                d <= n < 2 * d,
                d > 0,
        ;
        assert(product / dn < 0x100_0000) by (nonlinear_arith)
            requires
                product == n * 0x80_0000,
                dn == d,
                d <= n < 2 * d,
                d > 0,
        ;
    }
    let base: u32 = (126 + up - down) * 0x80_0000 + significand as u32;
    if negative {
        base + 0x8000_0000
    } else {
        base
    }
}

/// The binary32 bits of an integer over a positive integer, rounded to the nearest value.
pub fn f32_quotient_bits(num: i64, den: u64) -> (out: u32)
    requires
        0 < den <= 0x100_0000_0000,
        -0x100_0000_0000 <= num <= 0x100_0000_0000,
    ensures
        out == f32_quotient(num as int, den as nat),
{
    if num < 0 {
        f32_ratio_bits(true, (-num) as u64, den)
    } else {
        f32_ratio_bits(false, num as u64, den)
    }
}

/// The binary32 bits of a binary16 word.
pub open spec fn f16_widened(word: u16) -> u32 {
    let sign = (word / 0x8000) * 0x8000_0000;
    let exponent = word / 0x400 % 32;
    let fraction = word % 0x400;
    let magnitude = if exponent == 0 {
        f32_magnitude(fraction as nat, 0x100_0000)
    } else if exponent == 31 {
        0x7f80_0000 + fraction * 0x2000
    } else {
        (exponent + 112) * 0x80_0000 + fraction * 0x2000
    };
    (sign + magnitude) as u32
}

/// Widens a binary16 word to binary32 bits, subnormal words exactly.
pub fn f16_to_f32(value: u16) -> (out: u32)
    ensures
        out == f16_widened(value),
{
    let sign: u32 = (value / 0x8000) as u32 * 0x8000_0000;
    let exponent: u32 = (value / 0x400 % 32) as u32;
    let fraction: u32 = (value % 0x400) as u32;
    let magnitude: u32 = if exponent == 0 {
        if fraction == 0 {
            0
        } else {
            f32_ratio_bits(false, fraction as u64, 0x100_0000)
        }
    } else if exponent == 31 {
        0x7f80_0000 + fraction * 0x2000
    } else {
        (exponent + 112) * 0x80_0000 + fraction * 0x2000
    };
    sign + magnitude
}

/// The exponent field of a binary64 value.
pub open spec fn f64_exponent(bits: u64) -> nat {
    (bits / 0x10_0000_0000_0000 % 2048) as nat
}

/// The fraction field of a binary64 value.
pub open spec fn f64_fraction(bits: u64) -> nat {
    (bits % 0x10_0000_0000_0000) as nat
}

/// The significand of a finite binary64 value: the value is this times two to the power of the
/// exponent field (at least one) less 1075.
pub open spec fn f64_significand(bits: u64) -> nat {
    if f64_exponent(bits) == 0 {
        f64_fraction(bits)
    } else {
        f64_fraction(bits) + 0x10_0000_0000_0000
    }
}

/// A finite binary64 value rounded directly to a format with the exponents of binary32 and
/// `keep` significand bits behind the leading one. Subnormal results are multiples of the least
/// positive one, results past the largest finite one are the infinity. The sign is left off.
pub open spec fn narrowed(bits: u64, keep: nat) -> nat {
    let exponent = if f64_exponent(bits) == 0 {
        1
    } else {
        f64_exponent(bits)
    };
    let unit = pow2(keep);
    let rounded = if exponent < 897 {
        nearest_even(f64_significand(bits), pow2((949 - keep - exponent) as nat))
    } else {
        ((exponent - 897) * unit + nearest_even(f64_significand(bits), pow2((52 - keep) as nat)))
            as nat
    };
    if rounded > 255 * unit {
        255 * unit
    } else {
        rounded
    }
}

/// A quotient below one half is rounded to zero.
proof fn nearest_even_of_small(num: nat, den: nat)
    requires
        2 * num < den,
    ensures
        nearest_even(num, den) == 0,
{
    assert(num / den == 0 && num % den == num) by (nonlinear_arith)
        requires
            num < den,
    ;
}

fn narrow(bits: u64, keep: u32) -> (out: u32)
    requires
        keep == 7 || keep == 23,
    ensures
        out == narrowed(bits, keep as nat),
        keep == 7 ==> out <= 0x7f80,
        keep == 23 ==> out <= 0x7f80_0000,
{
    proof {
        lemma2_to64();
        lemma2_to64_rest();
    }
    let field: u64 = bits / 0x10_0000_0000_0000 % 2048;
    let fraction: u64 = bits % 0x10_0000_0000_0000;
    let exponent: u64 = if field == 0 { 1 } else { field };
    let significand: u64 = if field == 0 { fraction } else { fraction + 0x10_0000_0000_0000 };
    let unit: u64 = if keep == 7 { 0x80 } else { 0x80_0000 };
    let rounded: u64 = if exponent < 897 {
        let drop: u64 = 949 - keep as u64 - exponent;
        if drop > 54 {
            proof {
                lemma_pow2_strictly_increases(54, drop as nat);
                nearest_even_of_small(significand as nat, pow2(drop as nat));
            }
            0
        } else {
            let unit_below: u64 = power_of_two(drop);
            nearest_even_u128(significand as u128, unit_below as u128) as u64
        }
    } else {
        let unit_below: u64 = if keep == 7 { 0x2000_0000_0000 } else { 0x2000_0000 };
        (exponent - 897) * unit + nearest_even_u128(
            significand as u128,
            unit_below as u128,
        ) as u64
    };
    if rounded > 255 * unit {
        (255 * unit) as u32
    } else {
        rounded as u32
    }
}

fn power_of_two(exponent: u64) -> (out: u64)
    requires
        exponent <= 54,
    ensures
        out == pow2(exponent as nat),
        0 < out <= 0x40_0000_0000_0000,
    decreases exponent,
{
    proof {
        lemma2_to64();
        lemma2_to64_rest();
    }
    if exponent == 0 {
        1
    } else {
        proof {
            lemma_pow2_unfold(exponent as nat);
            if exponent < 54 {
                lemma_pow2_strictly_increases(exponent as nat, 54);
            }
        }
        2 * power_of_two(exponent - 1)
    }
}

/// The BF16 word of a binary64 value rounded once, directly. A NaN becomes the quiet NaN of its
/// sign.
pub open spec fn bf16_of_f64(bits: u64) -> u16 {
    let sign = bits / 0x8000_0000_0000_0000 * 0x8000;
    if f64_exponent(bits) == 2047 {
        (sign + if f64_fraction(bits) != 0 { 0x7fc0int } else { 0x7f80 }) as u16
    } else {
        (sign + narrowed(bits, 7)) as u16
    }
}

/// Rounds binary64 bits directly to a BF16 word.
pub fn f64_to_bf16_rne(bits: u64) -> (out: u16)
    ensures
        out == bf16_of_f64(bits),
{
    let sign: u16 = (bits / 0x8000_0000_0000_0000) as u16 * 0x8000;
    if bits / 0x10_0000_0000_0000 % 2048 == 2047 {
        if bits % 0x10_0000_0000_0000 != 0 {
            sign + 0x7fc0
        } else {
            sign + 0x7f80
        }
    } else {
        sign + narrow(bits, 7) as u16
    }
}

/// The BF16 word of a binary64 value rounded first to binary32 and then to BF16. A NaN becomes
/// the quiet NaN of its sign.
pub open spec fn bf16_of_f64_by_way_of_f32(bits: u64) -> u16 {
    let sign = bits / 0x8000_0000_0000_0000;
    if f64_exponent(bits) == 2047 {
        (sign * 0x8000 + if f64_fraction(bits) != 0 { 0x7fc0int } else { 0x7f80 }) as u16
    } else {
        bf16_rne((sign * 0x8000_0000 + narrowed(bits, 23)) as u32)
    }
}

/// Rounds binary64 bits to binary32 and the result to a BF16 word.
pub fn f64_to_bf16_by_way_of_f32(bits: u64) -> (out: u16)
    ensures
        out == bf16_of_f64_by_way_of_f32(bits),
{
    let sign: u32 = (bits / 0x8000_0000_0000_0000) as u32;
    if bits / 0x10_0000_0000_0000 % 2048 == 2047 {
        if bits % 0x10_0000_0000_0000 != 0 {
            sign as u16 * 0x8000 + 0x7fc0
        } else {
            sign as u16 * 0x8000 + 0x7f80
        }
    } else {
        float_to_bf16_rne(sign * 0x8000_0000 + narrow(bits, 23))
    }
}

pub(crate) proof fn half_is_the_same_quotient(num: nat, den: nat)
    requires
        den > 0,
    ensures
        nearest_even(2 * num, 2 * den) == nearest_even(num, den),
{
    let quotient = num as int / den as int;
    let rest = num as int % den as int;
    vstd::arithmetic::div_mod::lemma_fundamental_div_mod(num as int, den as int);
    assert(2 * num == quotient * (2 * den) + 2 * rest) by (nonlinear_arith)
        requires
            num == den * quotient + rest,
    ;
    vstd::arithmetic::div_mod::lemma_fundamental_div_mod_converse(
        2 * num as int,
        2 * den as int,
        quotient,
        2 * rest,
    );
}

proof fn scaled_ratios_are_equal(n: nat, d: nat)
    requires
        d > 0,
    ensures
        f32_magnitude(2 * n, 2 * d) == f32_magnitude(n, d),
    decreases
            if n < d {
                d - n
            } else if n >= 2 * d {
                n - d
            } else {
                0
            },
{
    if n > 0 {
        if n < d {
            scaled_ratios_are_equal(2 * n, d);
        } else if n >= 2 * d {
            scaled_ratios_are_equal(n, 2 * d);
        } else {
            half_is_the_same_quotient(n * 0x80_0000, d);
            assert((2 * n) * 0x80_0000 == 2 * (n * 0x80_0000));
        }
    }
}

/// Twice a ratio has the next exponent and the same fraction, and a ratio of equal numbers is one; a sign
/// adds the topmost bit and nothing else.
pub proof fn doubled_ratios_have_the_next_exponent(
    num: u64,
    den: u64,
    bits: u32,
    doubled: u32,
    negated: u32,
)
    requires
        0 < num,
        2 * num <= 0x100_0000_0000,
        0 < den <= 0x100_0000_0000,
        call_ensures(f32_ratio_bits, (false, num, den), bits),
        call_ensures(f32_ratio_bits, (false, (2 * num) as u64, den), doubled),
        call_ensures(f32_ratio_bits, (true, num, den), negated),
    ensures
        doubled == bits + 0x80_0000,
        negated == bits + 0x8000_0000,
        num == den ==> bits == 0x3f80_0000,
{
    scaled_ratios_are_equal(num as nat, den as nat);
    if num == den {
        vstd::arithmetic::div_mod::lemma_div_multiples_vanish(0x80_0000, den as int);
        vstd::arithmetic::div_mod::lemma_mod_multiples_basic(0x80_0000, den as int);
        assert(num * 0x80_0000 == den * 0x80_0000 && num * 0x80_0000 == 0x80_0000 * den);
        assert(nearest_even((num * 0x80_0000) as nat, den as nat) == 0x80_0000);
    }
}

proof fn nearest_is_half_a_step_away(num: nat, den: nat)
    requires
        den > 0,
    ensures
        2 * num - den <= 2 * (nearest_even(num, den) * den) <= 2 * num + den,
        2 * (nearest_even(num, den) * den) != 2 * num && (2 * (nearest_even(num, den) * den) == 2 * num - den
            || 2 * (nearest_even(num, den) * den) == 2 * num + den) ==> nearest_even(num, den) % 2 == 0,
{
    vstd::arithmetic::div_mod::lemma_fundamental_div_mod(num as int, den as int);
    let quotient = num as int / den as int;
    vstd::arithmetic::mul::lemma_mul_is_commutative(quotient, den as int);
    vstd::arithmetic::mul::lemma_mul_is_distributive_add_other_way(den as int, quotient, 1);
}

/// A ratio between one and two is rounded to the nearest of the values that lie 2^-23 apart, and to the
/// even one of two that are equally near.
pub proof fn ratios_go_to_the_nearest_value(num: u64, den: u64, bits: u32)
    requires
        0 < den <= num < 2 * den,
        num <= 0x100_0000_0000,
        call_ensures(f32_ratio_bits, (false, num, den), bits),
    ensures
        2 * (num * 0x80_0000) - den <= 2 * ((bits - 0x3f00_0000) * den) <= 2 * (num * 0x80_0000) + den,
{
    nearest_is_half_a_step_away((num * 0x80_0000) as nat, den as nat);
    let rounded = nearest_even((num * 0x80_0000) as nat, den as nat);
    assert(bits - 0x3f00_0000 == rounded);
}

proof fn ratios_stay_in_their_range(n: nat, d: nat, steps: nat)
    requires
        0 < n < 2 * d,
        d <= n * pow2(steps),
        steps <= 24,
    ensures
        (127 - steps) * 0x80_0000 <= f32_magnitude(n, d) <= 128 * 0x80_0000,
    decreases steps,
{
    if n < d {
        lemma2_to64();
        if steps > 0 {
            lemma_pow2_unfold(steps);
            let below = pow2((steps - 1) as nat);
            assert(n * (2 * below) == (2 * n) * below) by (nonlinear_arith);
            ratios_stay_in_their_range(2 * n, d, (steps - 1) as nat);
        } else {
            assert(pow2(0) == 1);
            assert(n * 1 == n);
        }
    } else {
        nearest_is_half_a_step_away(n * 0x80_0000, d);
        let rounded = nearest_even(n * 0x80_0000, d);
        assert(0x80_0000 <= rounded <= 0x100_0000) by (nonlinear_arith)
            requires
                2 * (n * 0x80_0000) - d <= 2 * (rounded * d) <= 2 * (n * 0x80_0000) + d,
                d <= n < 2 * d,
        ;
    }
}

proof fn subnormal_halves_stay_in_their_range(n: nat)
    requires
        0 < n < 0x400,
    ensures
        0 <= f32_magnitude(n, 0x100_0000) <= 0x4000_0000,
{
    lemma2_to64();
    ratios_stay_in_their_range(n, 0x100_0000, 24);
}

/// Widening keeps a value: twice a word is twice its value whether its exponent can be raised or not,
/// one is one, and a sign stays where it is.
pub proof fn widened_halves_keep_their_value(word: u16, bits: u32)
    requires
        word < 0x8000,
        call_ensures(f16_to_f32, (word,), bits),
    ensures
        word == 0x3c00 ==> bits == 0x3f80_0000,
        word == 0 ==> bits == 0,
        0x400 <= word < 0x7800 ==> forall|other: u32| #[trigger]
            call_ensures(f16_to_f32, ((word + 0x400) as u16,), other) ==> other == bits + 0x80_0000,
        0x400 <= word < 0x7bff && word % 0x400 != 0x3ff ==> forall|other: u32| #[trigger]
            call_ensures(f16_to_f32, ((word + 1) as u16,), other) ==> other == bits + 0x2000,
        0 < word < 0x200 ==> forall|other: u32| #[trigger]
            call_ensures(f16_to_f32, ((2 * word) as u16,), other) ==> other == bits + 0x80_0000,
        forall|other: u32| #[trigger]
            call_ensures(f16_to_f32, ((word + 0x8000) as u16,), other) ==> other == bits + 0x8000_0000,
        word >= 0x7c00 ==> bits >= 0x7f80_0000 && (bits == 0x7f80_0000 <==> word == 0x7c00),
{
    if 0 < word < 0x400 {
        subnormal_halves_stay_in_their_range(word as nat);
    }
    if 0 < word < 0x200 {
        assert(f32_magnitude(word as nat, 0x100_0000) == f32_magnitude(
            (2 * word) as nat,
            0x100_0000,
        ) - 0x80_0000);
        subnormal_halves_stay_in_their_range((2 * word) as nat);
    }
}

/// A binary64 value in the range of BF16 is rounded once: the word stands as near to it as any, the even
/// one of two that are equally near. Past that range it is the infinity, and a sign stays where it is.
pub proof fn direct_rounding_goes_to_the_nearest_word(bits: u64, word: u16, negated: u16)
    requires
        0x3810_0000_0000_0000 <= bits < 0x7ff0_0000_0000_0000,
        call_ensures(f64_to_bf16_rne, (bits,), word),
        call_ensures(f64_to_bf16_rne, ((bits + 0x8000_0000_0000_0000) as u64,), negated),
    ensures
        negated == word + 0x8000,
        bits >= 0x47f0_0000_0000_0000 ==> word == 0x7f80,
        bits < 0x47f0_0000_0000_0000 ==> {
            let at = bits - 0x3800_0000_0000_0000;
            &&& 2 * at - 0x2000_0000_0000 <= 2 * (word * 0x2000_0000_0000) <= 2 * at + 0x2000_0000_0000
            &&& at % 0x2000_0000_0000 == 0x1000_0000_0000 ==> word % 2 == 0
        },
{
    lemma2_to64();
    lemma2_to64_rest();
    let exponent = f64_exponent(bits);
    let significand = f64_significand(bits);
    nearest_is_half_a_step_away(significand, 0x2000_0000_0000);
    let other = (bits + 0x8000_0000_0000_0000) as u64;
    assert(other == bits + 0x8000_0000_0000_0000);
    assert(f64_exponent(other) == exponent);
    assert(f64_fraction(other) == f64_fraction(bits));
    assert(bits == exponent * 0x10_0000_0000_0000 + f64_fraction(bits));
    assert(exponent >= 897);
}

proof fn parts_of_a_value_in_range(bits: u64)
    requires
        0x3810_0000_0000_0000 <= bits < 0x47e0_0000_0000_0000,
    ensures
        897 <= f64_exponent(bits) <= 1149,
        f64_significand(bits) == bits - (f64_exponent(bits) - 1) * 0x10_0000_0000_0000,
        0x10_0000_0000_0000 <= f64_significand(bits) < 0x20_0000_0000_0000,
{
    assert(bits == f64_exponent(bits) * 0x10_0000_0000_0000 + f64_fraction(bits));
}

proof fn single_of_a_value_in_range(bits: u64) -> (single: u32)
    requires
        0x3810_0000_0000_0000 <= bits < 0x47e0_0000_0000_0000,
    ensures
        bf16_of_f64_by_way_of_f32(bits) == bf16_rne(single),
        single < 0x7f80_0000,
        2 * (bits - 0x3800_0000_0000_0000) - 0x2000_0000 <= 2 * (single * 0x2000_0000) <= 2 * (bits
            - 0x3800_0000_0000_0000) + 0x2000_0000,
        bits % 0x2000_0000 == 0 ==> single * 0x2000_0000 == bits - 0x3800_0000_0000_0000,
{
    lemma2_to64();
    lemma2_to64_rest();
    parts_of_a_value_in_range(bits);
    let exponent = f64_exponent(bits);
    let significand = f64_significand(bits);
    nearest_is_half_a_step_away(significand, 0x2000_0000);
    let rounded = nearest_even(significand, 0x2000_0000);
    assert(0x80_0000 <= rounded <= 0x100_0000);
    assert(narrowed(bits, 23) == (exponent - 897) * 0x80_0000 + rounded);
    if bits % 0x2000_0000 == 0 {
        assert(significand % 0x2000_0000 == 0);
        assert(rounded == significand / 0x2000_0000);
    }
    ((exponent - 897) * 0x80_0000 + rounded) as u32
}

/// Rounding by way of binary32 errs by at most half a step of each format, and gives the word of direct
/// rounding where binary32 holds the value.
pub proof fn rounding_twice_errs_by_both_halves(bits: u64, word: u16, direct: u16)
    requires
        0x3810_0000_0000_0000 <= bits < 0x47e0_0000_0000_0000,
        call_ensures(f64_to_bf16_by_way_of_f32, (bits,), word),
        call_ensures(f64_to_bf16_rne, (bits,), direct),
    ensures
        2 * (bits - 0x3800_0000_0000_0000) - 0x2000_2000_0000 <= 2 * (word * 0x2000_0000_0000) <= 2 * (
        bits - 0x3800_0000_0000_0000) + 0x2000_2000_0000,
        bits % 0x2000_0000 == 0 ==> word == direct,
{
    let single = single_of_a_value_in_range(bits);
    bf16_rne_is_nearest(single);
    if bits % 0x2000_0000 == 0 {
        direct_word_of_a_value_in_range(bits);
    }
}

proof fn direct_word_of_a_value_in_range(bits: u64)
    requires
        0x3810_0000_0000_0000 <= bits < 0x47e0_0000_0000_0000,
    ensures
        ({
            let at = bits - 0x3800_0000_0000_0000;
            let word = bf16_of_f64(bits);
            &&& 2 * at - 0x2000_0000_0000 <= 2 * (word * 0x2000_0000_0000) <= 2 * at + 0x2000_0000_0000
            &&& at % 0x2000_0000_0000 == 0x1000_0000_0000 ==> word % 2 == 0
        }),
{
    lemma2_to64();
    lemma2_to64_rest();
    parts_of_a_value_in_range(bits);
    let significand = f64_significand(bits);
    nearest_is_half_a_step_away(significand, 0x2000_0000_0000);
}

} // verus!
