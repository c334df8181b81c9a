//! Text as sequences of characters: comparison, searching, number formatting and parsing.
use vstd::prelude::*;
use vstd::std_specs::iter::IteratorSpec;
use vstd::string::StringExecFns;

verus! {

broadcast use vstd::string::group_string_axioms;

/// `String::push` appends the character at the end of the string and changes nothing else.
pub assume_specification[ String::push ](s: &mut String, c: char)
    ensures
        final(s)@ == old(s)@.push(c),
;

/// The texts of a sequence of strings.
pub open spec fn texts(strings: Seq<String>) -> Seq<Seq<char>> {
    Seq::new(strings.len(), |i: int| strings[i]@)
}

/// The text of an optional string.
pub open spec fn text_opt(value: Option<String>) -> Option<Seq<char>> {
    match value {
        Some(s) => Some(s@),
        None => None,
    }
}

/// The text of an optional string slice.
pub open spec fn str_opt(value: Option<&str>) -> Option<Seq<char>> {
    match value {
        Some(text) => Some(text@),
        None => None,
    }
}

/// The characters of a string, in order.
pub fn chars_of(s: &str) -> (out: Vec<char>)
    ensures
        out@ == s@,
{
    let mut out: Vec<char> = Vec::new();
    let mut iter = s.chars();
    loop
        invariant
            iter.obeys_prophetic_iter_laws(),
            iter.decrease() is Some,
            out@ + iter.remaining() == s@,
        ensures
            out@ == s@,
        decreases iter.decrease()->0,
    {
        let ghost before = iter.remaining();
        match iter.next() {
            Some(c) => {
                out.push(c);
                proof {
                    assert(before == seq![before[0]] + before.drop_first());
                }
            },
            None => {
                break;
            },
        }
    }
    out
}

/// The string made of the given characters.
pub fn string_of(chars: &[char]) -> (out: String)
    ensures
        out@ == chars@,
{
    let mut out = String::new();
    for i in 0..chars.len()
        invariant
            out@ == chars@.take(i as int),
    {
        out.push(chars[i]);
        assert(chars@.take(i + 1) == chars@.take(i as int).push(chars@[i as int]));
    }
    assert(chars@.take(chars.len() as int) == chars@);
    out
}

/// Whether two strings hold the same characters.
pub fn same_text(a: &str, b: &str) -> (out: bool)
    ensures
        out == (a@ == b@),
{
    a.to_owned() == b.to_owned()
}

/// Whether two vectors hold the same characters.
pub fn same_chars(a: &Vec<char>, b: &Vec<char>) -> (out: bool)
    ensures
        out == (a@ == b@),
{
    if a.len() != b.len() {
        return false;
    }
    for i in 0..a.len()
        invariant
            a.len() == b.len(),
            forall|j: int| 0 <= j < i ==> a@[j] == b@[j],
    {
        if a[i] != b[i] {
            return false;
        }
    }
    assert(a@ =~= b@);
    true
}

/// The concatenation of two strings.
pub fn joined(a: &str, b: &str) -> (out: String)
    ensures
        out@ == a@ + b@,
{
    let mut out = a.to_owned();
    out.append(b);
    out
}

/// The concatenation of three strings.
pub fn joined3(a: &str, b: &str, c: &str) -> (out: String)
    ensures
        out@ == a@ + b@ + c@,
{
    let mut out = a.to_owned();
    out.append(b);
    out.append(c);
    out
}

/// Whether `prefix` stands at the front of `s`.
pub open spec fn begins_with(s: Seq<char>, prefix: Seq<char>) -> bool {
    prefix.len() <= s.len() && s.take(prefix.len() as int) == prefix
}

/// Whether `part` occurs in `s`.
pub open spec fn contains_text(s: Seq<char>, part: Seq<char>) -> bool {
    exists|at: int|
        0 <= at && at + part.len() <= s.len() && #[trigger] s.subrange(at, at + part.len()) == part
}

fn occurs_at(s: &Vec<char>, part: &Vec<char>, at: usize) -> (out: bool)
    requires
        at + part.len() <= s.len(),
    ensures
        out == (s@.subrange(at as int, at + part.len()) == part@),
{
    for i in 0..part.len()
        invariant
            at + part.len() <= s.len(),
            forall|j: int| 0 <= j < i ==> s@[at + j] == part@[j],
    {
        if s[at + i] != part[i] {
            assert(s@.subrange(at as int, at + part.len())[i as int] != part@[i as int]);
            return false;
        }
    }
    assert(s@.subrange(at as int, at + part.len()) =~= part@);
    true
}

/// Whether `s` begins with `prefix`.
pub fn starts_with(s: &str, prefix: &str) -> (out: bool)
    ensures
        out == begins_with(s@, prefix@),
{
    let text = chars_of(s);
    let part = chars_of(prefix);
    if part.len() > text.len() {
        return false;
    }
    assert(text@.subrange(0, part.len() as int) == s@.take(prefix@.len() as int));
    occurs_at(&text, &part, 0)
}

/// Whether `part` occurs anywhere in `s`.
pub fn contains(s: &str, part: &str) -> (out: bool)
    ensures
        out == contains_text(s@, part@),
{
    let text = chars_of(s);
    let wanted = chars_of(part);
    if wanted.len() > text.len() {
        return false;
    }
    let last: usize = text.len() - wanted.len();
    let mut at: usize = 0;
    loop
        invariant
            text@ == s@,
            wanted@ == part@,
            last == text.len() - wanted.len(),
            at <= last,
            forall|j: int| 0 <= j < at ==> #[trigger] s@.subrange(j, j + part@.len()) != part@,
        decreases last - at,
    {
        if occurs_at(&text, &wanted, at) {
            return true;
        }
        if at == last {
            return false;
        }
        at = at + 1;
    }
}

/// The pieces of `s` between its separators: one more than there are separators.
pub open spec fn pieces_between(s: Seq<char>, separator: char) -> Seq<Seq<char>>
    decreases s.len(),
{
    if s.len() == 0 {
        seq![Seq::empty()]
    } else {
        let front = pieces_between(s.drop_last(), separator);
        if s.last() == separator {
            front.push(Seq::empty())
        } else {
            front.drop_last().push(front.last().push(s.last()))
        }
    }
}

/// The pieces of `s` between its commas.
pub open spec fn comma_pieces(s: Seq<char>) -> Seq<Seq<char>> {
    pieces_between(s, ',')
}

/// The pieces always number at least one.
proof fn pieces_are_not_empty(s: Seq<char>, separator: char)
    ensures
        pieces_between(s, separator).len() > 0,
    decreases s.len(),
{
    if s.len() > 0 {
        pieces_are_not_empty(s.drop_last(), separator);
    }
}

/// Splits a text at a separator.
pub fn split_at(s: &str, separator: char) -> (out: Vec<String>)
    ensures
        texts(out@) == pieces_between(s@, separator),
{
    let text = chars_of(s);
    let mut out: Vec<String> = Vec::new();
    let mut current: Vec<char> = Vec::new();
    proof {
        assert(texts(out@) =~= pieces_between(text@.take(0), separator).drop_last());
    }
    for i in 0..text.len()
        invariant
            texts(out@) == pieces_between(text@.take(i as int), separator).drop_last(),
            current@ == pieces_between(text@.take(i as int), separator).last(),
    {
        let ghost pieces = pieces_between(text@.take(i as int), separator);
        proof {
            pieces_are_not_empty(text@.take(i as int), separator);
            assert(text@.take(i + 1).drop_last() == text@.take(i as int));
        }
        if text[i] == separator {
            let ghost before = out@;
            out.push(string_of(current.as_slice()));
            proof {
                assert(texts(out@) =~= texts(before).push(current@));
                assert(pieces.push(Seq::<char>::empty()).drop_last() == pieces);
                assert(pieces == pieces.drop_last().push(pieces.last()));
            }
            current = Vec::new();
        } else {
            current.push(text[i]);
            proof {
                let grown = pieces.drop_last().push(pieces.last().push(text@[i as int]));
                assert(grown.drop_last() == pieces.drop_last());
            }
        }
    }
    proof {
        pieces_are_not_empty(text@, separator);
        assert(text@.take(text.len() as int) == text@);
    }
    let ghost before = out@;
    out.push(string_of(current.as_slice()));
    proof {
        assert(texts(out@) =~= texts(before).push(current@));
        let pieces = pieces_between(text@, separator);
        assert(pieces == pieces.drop_last().push(pieces.last()));
    }
    out
}

/// Whether a character has the Unicode property `White_Space`.
pub open spec fn is_white_space(c: char) -> bool {
    let n = c as u32;
    ||| 0x9 <= n <= 0xd
    ||| n == 0x20
    ||| n == 0x85
    ||| n == 0xa0
    ||| n == 0x1680
    ||| 0x2000 <= n <= 0x200a
    ||| n == 0x2028
    ||| n == 0x2029
    ||| n == 0x202f
    ||| n == 0x205f
    ||| n == 0x3000
}

/// `s` without the white space at its end.
pub open spec fn trimmed_end(s: Seq<char>) -> Seq<char>
    decreases s.len(),
{
    if s.len() > 0 && is_white_space(s.last()) {
        trimmed_end(s.drop_last())
    } else {
        s
    }
}

/// `s` without the white space at its front.
pub open spec fn trimmed_start(s: Seq<char>) -> Seq<char>
    decreases s.len(),
{
    if s.len() > 0 && is_white_space(s[0]) {
        trimmed_start(s.drop_first())
    } else {
        s
    }
}

/// `s` without the white space at both ends.
pub open spec fn trimmed(s: Seq<char>) -> Seq<char> {
    trimmed_end(trimmed_start(s))
}

/// The trimmed pieces that are not empty, in order.
pub open spec fn named_pieces(pieces: Seq<Seq<char>>) -> Seq<Seq<char>>
    decreases pieces.len(),
{
    if pieces.len() == 0 {
        Seq::empty()
    } else {
        let front = named_pieces(pieces.drop_last());
        let piece = trimmed(pieces.last());
        if piece.len() == 0 {
            front
        } else {
            front.push(piece)
        }
    }
}

/// The identifiers that a comma-separated list names, in order, repetitions kept.
pub open spec fn listed_ids(s: Seq<char>) -> Seq<Seq<char>> {
    named_pieces(comma_pieces(s))
}

fn is_white_space_char(c: char) -> (out: bool)
    ensures
        out == is_white_space(c),
{
    let n: u32 = c as u32;
    (0x9 <= n && n <= 0xd) || n == 0x20 || n == 0x85 || n == 0xa0 || n == 0x1680 || (0x2000 <= n
        && n <= 0x200a) || n == 0x2028 || n == 0x2029 || n == 0x202f || n == 0x205f || n == 0x3000
}

fn trim_chars(s: &Vec<char>) -> (out: Vec<char>)
    ensures
        out@ == trimmed(s@),
{
    let mut from: usize = 0;
    assert(s@.skip(0) == s@);
    while from < s.len() && is_white_space_char(s[from])
        invariant
            from <= s.len(),
            trimmed_start(s@) == trimmed_start(s@.skip(from as int)),
        decreases s.len() - from,
    {
        assert(s@.skip(from as int).drop_first() == s@.skip(from + 1));
        from = from + 1;
    }
    let ghost rest = s@.skip(from as int);
    assert(trimmed_start(s@) == rest);
    let mut to: usize = s.len();
    assert(s@.subrange(from as int, to as int) == rest);
    while from < to && is_white_space_char(s[to - 1])
        invariant
            from <= to <= s.len(),
            rest == s@.skip(from as int),
            trimmed_end(rest) == trimmed_end(s@.subrange(from as int, to as int)),
        decreases to - from,
    {
        assert(s@.subrange(from as int, to as int).drop_last() == s@.subrange(
            from as int,
            to - 1,
        ));
        to = to - 1;
    }
    let mut out: Vec<char> = Vec::new();
    for i in from..to
        invariant
            from <= to <= s.len(),
            out@ == s@.subrange(from as int, i as int),
    {
        out.push(s[i]);
        assert(s@.subrange(from as int, i + 1) == s@.subrange(from as int, i as int).push(
            s@[i as int],
        ));
    }
    out
}

/// Splits a comma-separated list into its trimmed, non-empty identifiers.
pub fn split_ids(s: &str) -> (out: Vec<String>)
    ensures
        texts(out@) == listed_ids(s@),
{
    let text = chars_of(s);
    let mut out: Vec<String> = Vec::new();
    let mut current: Vec<char> = Vec::new();
    proof {
        assert(texts(out@) =~= named_pieces(comma_pieces(text@.take(0)).drop_last()));
    }
    for i in 0..text.len()
        invariant
            texts(out@) == named_pieces(comma_pieces(text@.take(i as int)).drop_last()),
            current@ == comma_pieces(text@.take(i as int)).last(),
    {
        let ghost pieces = comma_pieces(text@.take(i as int));
        proof {
            pieces_are_not_empty(text@.take(i as int), ',');
            assert(text@.take(i + 1).drop_last() == text@.take(i as int));
        }
        if text[i] == ',' {
            let piece = trim_chars(&current);
            let ghost before = out@;
            if piece.len() > 0 {
                out.push(string_of(piece.as_slice()));
                proof {
                    assert(texts(out@) =~= texts(before).push(piece@));
                }
            }
            current = Vec::new();
            proof {
                assert(pieces.push(Seq::<char>::empty()).drop_last() == pieces);
            }
        } else {
            current.push(text[i]);
            proof {
                let grown = pieces.drop_last().push(pieces.last().push(text@[i as int]));
                assert(grown.drop_last() == pieces.drop_last());
            }
        }
    }
    proof {
        pieces_are_not_empty(text@, ',');
        assert(text@.take(text.len() as int) == text@);
    }
    let piece = trim_chars(&current);
    let ghost before = out@;
    if piece.len() > 0 {
        out.push(string_of(piece.as_slice()));
        proof {
            assert(texts(out@) =~= texts(before).push(piece@));
        }
    }
    out
}

/// The decimal digit of a number below ten.
pub open spec fn digit_char(d: nat) -> char {
    (('0' as nat) + d) as char
}

/// The decimal form of a number, without leading zeros.
pub open spec fn decimal(n: nat) -> Seq<char>
    decreases n,
{
    if n < 10 {
        seq![digit_char(n)]
    } else {
        decimal(n / 10).push(digit_char(n % 10))
    }
}

/// The number that a sequence of decimal digits denotes.
pub open spec fn digits_value(s: Seq<char>) -> nat
    decreases s.len(),
{
    if s.len() == 0 {
        0
    } else {
        (digits_value(s.drop_last()) * 10 + (s.last() as int - '0' as int)) as nat
    }
}

/// Whether a character is an ASCII decimal digit.
pub open spec fn is_digit(c: char) -> bool {
    '0' as int <= c as int <= '9' as int
}

/// Whether every character is a decimal digit.
pub open spec fn all_digits(s: Seq<char>) -> bool {
    forall|i: int| 0 <= i < s.len() ==> is_digit(#[trigger] s[i])
}

/// The text behind one leading plus sign, or the whole text where there is none.
pub open spec fn unsigned_body(s: Seq<char>) -> Seq<char> {
    if s.len() > 0 && s[0] == '+' {
        s.drop_first()
    } else {
        s
    }
}

/// The unsigned number that a text denotes: at least one decimal digit behind an optional
/// plus sign, and a value of at most `max`.
pub open spec fn unsigned_number(s: Seq<char>, max: nat) -> Option<nat> {
    let body = unsigned_body(s);
    if body.len() > 0 && all_digits(body) && digits_value(body) <= max {
        Some(digits_value(body))
    } else {
        None
    }
}

/// The `i32` that a text denotes: an optional sign and at least one decimal digit.
pub open spec fn signed_number(s: Seq<char>) -> Option<int> {
    if s.len() > 0 && s[0] == '-' {
        let body = s.drop_first();
        if body.len() > 0 && all_digits(body) && -digits_value(body) >= i32::MIN {
            Some(-digits_value(body))
        } else {
            None
        }
    } else {
        match unsigned_number(s, i32::MAX as nat) {
            Some(n) => Some(n as int),
            None => None,
        }
    }
}

/// Reading back the decimal form of a number gives the number.
pub proof fn decimal_round_trip(n: nat)
    ensures
        all_digits(decimal(n)),
        decimal(n).len() > 0,
        digits_value(decimal(n)) == n,
        unsigned_number(decimal(n), n) == Some(n),
    decreases n,
{
    if n < 10 {
        assert(decimal(n).drop_last() =~= Seq::<char>::empty());
        assert(digits_value(Seq::<char>::empty()) == 0);
    } else {
        decimal_round_trip(n / 10);
        assert(decimal(n).drop_last() =~= decimal(n / 10));
    }
}

/// A longer run of digits denotes no smaller a number than its front.
proof fn digits_value_grows(s: Seq<char>, upto: int)
    requires
        all_digits(s),
        0 <= upto <= s.len(),
    ensures
        digits_value(s.take(upto)) <= digits_value(s),
    decreases s.len() - upto,
{
    if upto < s.len() {
        let longer = s.take(upto + 1);
        assert(longer.drop_last() == s.take(upto));
        assert(is_digit(s[upto]));
        digits_value_grows(s, upto + 1);
    } else {
        assert(s.take(upto) == s);
    }
}

/// The value of the digits of `text` from `from` on, when they are one or more, all decimal
/// and at most `max`.
fn digits_from(text: &Vec<char>, from: usize, max: u64) -> (out: Option<u64>)
    requires
        from <= text.len(),
    ensures
        ({
            let body = text@.skip(from as int);
            if body.len() > 0 && all_digits(body) && digits_value(body) <= max {
                out == Some(digits_value(body) as u64)
            } else {
                out is None
            }
        }),
{
    let ghost body = text@.skip(from as int);
    if from == text.len() {
        return None;
    }
    let mut value: u64 = 0;
    let mut at: usize = from;
    proof {
        assert(body.take(0) =~= Seq::<char>::empty());
    }
    while at < text.len()
        invariant
            from <= at <= text.len(),
            body == text@.skip(from as int),
            value == digits_value(body.take(at - from)),
            value <= max,
            forall|j: int| 0 <= j < at - from ==> is_digit(#[trigger] body[j]),
        decreases text.len() - at,
    {
        let c = text[at];
        assert(body[at - from] == c);
        if c < '0' || c > '9' {
            assert(!is_digit(body[at - from]));
            return None;
        }
        let digit: u64 = (c as u32 - '0' as u32) as u64;
        assert(body.take(at - from + 1).drop_last() == body.take(at - from));
        let wide: u128 = value as u128 * 10 + digit as u128;
        if wide > max as u128 {
            proof {
                if all_digits(body) {
                    digits_value_grows(body, at - from + 1);
                }
            }
            return None;
        }
        value = wide as u64;
        at = at + 1;
    }
    assert(body.take(at - from) == body);
    Some(value)
}

/// Reads an unsigned number of at most `max`.
pub fn parse_unsigned(s: &str, max: u64) -> (out: Option<u64>)
    ensures
        match unsigned_number(s@, max as nat) {
            Some(n) => out == Some(n as u64) && n <= max,
            None => out is None,
        },
{
    let text = chars_of(s);
    assert(text@.skip(0) == text@);
    assert(text.len() > 0 ==> text@.skip(1) == text@.drop_first());
    if text.len() > 0 && text[0] == '+' {
        digits_from(&text, 1, max)
    } else {
        digits_from(&text, 0, max)
    }
}

/// Reads a `u32`.
pub fn parse_u32(s: &str) -> (out: Option<u32>)
    ensures
        match unsigned_number(s@, u32::MAX as nat) {
            Some(n) => out == Some(n as u32) && n <= u32::MAX,
            None => out is None,
        },
{
    match parse_unsigned(s, u32::MAX as u64) {
        Some(n) => Some(n as u32),
        None => None,
    }
}

/// Reads an `i32`.
pub fn parse_i32(s: &str) -> (out: Option<i32>)
    ensures
        match signed_number(s@) {
            Some(n) => out == Some(n as i32) && i32::MIN <= n <= i32::MAX,
            None => out is None,
        },
{
    let text = chars_of(s);
    if text.len() > 0 && text[0] == '-' {
        assert(text@.skip(1) == text@.drop_first());
        match digits_from(&text, 1, 0x8000_0000) {
            Some(n) => Some((-(n as i64)) as i32),
            None => None,
        }
    } else {
        match parse_unsigned(s, i32::MAX as u64) {
            Some(n) => Some(n as i32),
            None => None,
        }
    }
}

fn digit(d: u64) -> (c: char)
    requires
        d < 10,
    ensures
        c == digit_char(d as nat),
{
    (48 + d as u8) as char
}

fn push_decimal(out: &mut String, n: u64)
    ensures
        final(out)@ == old(out)@ + decimal(n as nat),
    decreases n,
{
    if n < 10 {
        out.push(digit(n));
        assert(out@ =~= old(out)@ + decimal(n as nat));
    } else {
        push_decimal(out, n / 10);
        out.push(digit(n % 10));
        assert(out@ =~= old(out)@ + decimal(n as nat));
    }
}

/// The decimal form of a number.
pub fn decimal_string(n: u64) -> (out: String)
    ensures
        out@ == decimal(n as nat),
{
    let mut out = String::new();
    push_decimal(&mut out, n);
    assert(out@ =~= decimal(n as nat));
    out
}

/// The decimal form of an integer, with a minus sign where it is negative.
pub open spec fn signed_decimal(n: int) -> Seq<char> {
    if n < 0 {
        seq!['-'] + decimal((-n) as nat)
    } else {
        decimal(n as nat)
    }
}

/// The decimal form of an `i32`.
pub fn signed_decimal_string(n: i32) -> (out: String)
    ensures
        out@ == signed_decimal(n as int),
{
    let mut out = String::new();
    if n < 0 {
        out.push('-');
        push_decimal(&mut out, (-(n as i64)) as u64);
        assert(out@ =~= signed_decimal(n as int));
    } else {
        push_decimal(&mut out, n as u64);
        assert(out@ =~= signed_decimal(n as int));
    }
    out
}

/// The lower-case hexadecimal digit of a number below sixteen.
pub open spec fn hex_char(d: nat) -> char {
    if d < 10 {
        (('0' as nat) + d) as char
    } else {
        (('a' as nat) + d - 10) as char
    }
}

/// The two hexadecimal digits of a byte.
pub open spec fn hex_byte(b: u8) -> Seq<char> {
    seq![hex_char((b / 16) as nat), hex_char((b % 16) as nat)]
}

/// The hexadecimal form of a sequence of bytes.
pub open spec fn hex(bytes: Seq<u8>) -> Seq<char>
    decreases bytes.len(),
{
    if bytes.len() == 0 {
        Seq::empty()
    } else {
        hex(bytes.drop_last()) + hex_byte(bytes.last())
    }
}

/// The four hexadecimal digits of a 16-bit word.
pub open spec fn hex_word(w: u16) -> Seq<char> {
    hex_byte((w / 256) as u8) + hex_byte((w % 256) as u8)
}

fn hex_digit(d: u8) -> (c: char)
    requires
        d < 16,
    ensures
        c == hex_char(d as nat),
{
    if d < 10 {
        (48 + d) as char
    } else {
        (97 + (d - 10)) as char
    }
}

fn push_hex_byte(out: &mut String, b: u8)
    ensures
        final(out)@ == old(out)@ + hex_byte(b),
{
    out.push(hex_digit(b / 16));
    out.push(hex_digit(b % 16));
    assert(out@ =~= old(out)@ + hex_byte(b));
}

/// The hexadecimal form of a slice of bytes.
pub fn hex_string(bytes: &[u8]) -> (out: String)
    ensures
        out@ == hex(bytes@),
{
    let mut out = String::new();
    for i in 0..bytes.len()
        invariant
            out@ == hex(bytes@.take(i as int)),
    {
        push_hex_byte(&mut out, bytes[i]);
        assert(bytes@.take(i + 1).drop_last() == bytes@.take(i as int));
    }
    assert(bytes@.take(bytes.len() as int) == bytes@);
    out
}

/// The four hexadecimal digits of a 16-bit word.
pub fn hex_word_string(w: u16) -> (out: String)
    ensures
        out@ == hex_word(w),
{
    let mut out = String::new();
    push_hex_byte(&mut out, (w / 256) as u8);
    push_hex_byte(&mut out, (w % 256) as u8);
    assert(out@ =~= hex_word(w));
    out
}

/// The lower-case form of an ASCII letter; any other character unchanged.
pub open spec fn ascii_lower(c: char) -> char {
    if 'A' as int <= c as int <= 'Z' as int {
        (c as int + 32) as char
    } else {
        c
    }
}

/// A text with its ASCII letters in lower case.
pub open spec fn ascii_lowered(s: Seq<char>) -> Seq<char> {
    Seq::new(s.len(), |i: int| ascii_lower(s[i]))
}

fn lower_char(c: char) -> (out: char)
    ensures
        out == ascii_lower(c),
{
    if 'A' <= c && c <= 'Z' {
        ((c as u32 + 32) as u8) as char
    } else {
        c
    }
}

/// The characters with ASCII letters in lower case.
pub fn lowered_chars(s: &Vec<char>) -> (out: Vec<char>)
    ensures
        out@ == ascii_lowered(s@),
{
    let mut out: Vec<char> = Vec::new();
    for i in 0..s.len()
        invariant
            out@ == ascii_lowered(s@).take(i as int),
    {
        out.push(lower_char(s[i]));
        assert(ascii_lowered(s@).take(i + 1) =~= ascii_lowered(s@).take(i as int).push(
            ascii_lower(s@[i as int]),
        ));
    }
    assert(ascii_lowered(s@).take(s.len() as int) =~= ascii_lowered(s@));
    out
}

/// Whether `a` stands before `b` in the order of strings: at the first difference the smaller
/// character decides, and a proper front stands before what continues it.
pub open spec fn text_before(a: Seq<char>, b: Seq<char>) -> bool
    decreases a.len(),
{
    if b.len() == 0 {
        false
    } else if a.len() == 0 {
        true
    } else if a[0] != b[0] {
        (a[0] as int) < b[0] as int
    } else {
        text_before(a.drop_first(), b.drop_first())
    }
}

/// Of two different texts exactly one stands before the other, and none before itself.
pub proof fn text_order_is_total(a: Seq<char>, b: Seq<char>)
    ensures
        text_before(a, b) || a == b || text_before(b, a),
        !(text_before(a, b) && text_before(b, a)),
        a == b ==> !text_before(a, b),
    decreases a.len(),
{
    if a.len() > 0 && b.len() > 0 {
        text_order_is_total(a.drop_first(), b.drop_first());
        if a[0] == b[0] && a.drop_first() == b.drop_first() {
            assert(a =~= seq![a[0]] + a.drop_first());
            assert(b =~= seq![b[0]] + b.drop_first());
        }
    } else if a.len() == 0 && b.len() == 0 {
        assert(a =~= b);
    }
}

/// The order of texts is transitive.
pub proof fn text_order_is_transitive(a: Seq<char>, b: Seq<char>, c: Seq<char>)
    requires
        text_before(a, b),
        text_before(b, c),
    ensures
        text_before(a, c),
    decreases a.len(),
{
    if a.len() > 0 && a[0] == b[0] && b[0] == c[0] {
        text_order_is_transitive(a.drop_first(), b.drop_first(), c.drop_first());
    }
}

/// Whether one string stands before another.
pub fn is_before(a: &str, b: &str) -> (out: bool)
    ensures
        out == text_before(a@, b@),
{
    let x = chars_of(a);
    let y = chars_of(b);
    let mut i: usize = 0;
    assert(x@.skip(0) =~= x@ && y@.skip(0) =~= y@);
    loop
        invariant
            i <= x@.len(),
            i <= y@.len(),
            x@ == a@,
            y@ == b@,
            text_before(a@, b@) == text_before(x@.skip(i as int), y@.skip(i as int)),
        decreases x@.len() - i,
    {
        if i == y.len() {
            return false;
        }
        if i == x.len() {
            return true;
        }
        assert(x@.skip(i as int)[0] == x@[i as int] && y@.skip(i as int)[0] == y@[i as int]);
        assert(x@.skip(i as int).drop_first() =~= x@.skip(i + 1));
        assert(y@.skip(i as int).drop_first() =~= y@.skip(i + 1));
        if x[i] != y[i] {
            return x[i] < y[i];
        }
        i = i + 1;
    }
}

/// Appends a string to a list of strings.
pub fn push_text(list: &mut Vec<String>, text: String)
    ensures
        texts(final(list)@) == texts(old(list)@).push(text@),
{
    list.push(text);
    assert(texts(list@) =~= texts(old(list)@).push(text@));
}

/// The name of a truth value.
pub open spec fn bool_text(value: bool) -> Seq<char> {
    if value {
        "true"@
    } else {
        "false"@
    }
}

/// The name of a truth value.
pub fn bool_str(value: bool) -> (out: &'static str)
    ensures
        out@ == bool_text(value),
{
    if value {
        "true"
    } else {
        "false"
    }
}

/// Appends a number in decimal.
pub fn append_decimal(out: &mut String, n: u64)
    ensures
        final(out)@ == old(out)@ + decimal(n as nat),
{
    push_decimal(out, n);
}

/// Numbers in decimal, each behind a comma and a space but the first.
pub open spec fn listed(values: Seq<u32>) -> Seq<char>
    decreases values.len(),
{
    if values.len() == 0 {
        Seq::empty()
    } else if values.len() == 1 {
        decimal(values[0] as nat)
    } else {
        listed(values.drop_last()) + ", "@ + decimal(values.last() as nat)
    }
}

/// A list of numbers in square brackets.
pub open spec fn bracketed(values: Seq<u32>) -> Seq<char> {
    "["@ + listed(values) + "]"@
}

/// A list of numbers in square brackets.
pub fn bracketed_string(values: &[u32]) -> (out: String)
    ensures
        out@ == bracketed(values@),
{
    let mut inner = String::new();
    for i in 0..values.len()
        invariant
            inner@ == listed(values@.take(i as int)),
    {
        assert(values@.take(i + 1).drop_last() =~= values@.take(i as int));
        if i > 0 {
            inner.append(", ");
        }
        append_decimal(&mut inner, values[i] as u64);
        assert(inner@ =~= listed(values@.take(i + 1)));
    }
    assert(values@.take(values.len() as int) =~= values@);
    joined3("[", inner.as_str(), "]")
}

/// Signed numbers in decimal, each behind a comma and a space but the first.
pub open spec fn signed_listed(values: Seq<i32>) -> Seq<char>
    decreases values.len(),
{
    if values.len() == 0 {
        Seq::empty()
    } else if values.len() == 1 {
        signed_decimal(values[0] as int)
    } else {
        signed_listed(values.drop_last()) + ", "@ + signed_decimal(values.last() as int)
    }
}

/// A list of signed numbers in square brackets.
pub open spec fn signed_bracketed(values: Seq<i32>) -> Seq<char> {
    "["@ + signed_listed(values) + "]"@
}

/// A list of signed numbers in square brackets.
pub fn signed_bracketed_string(values: &[i32]) -> (out: String)
    ensures
        out@ == signed_bracketed(values@),
{
    let mut inner = String::new();
    for i in 0..values.len()
        invariant
            inner@ == signed_listed(values@.take(i as int)),
    {
        assert(values@.take(i + 1).drop_last() =~= values@.take(i as int));
        if i > 0 {
            inner.append(", ");
        }
        let number = signed_decimal_string(values[i]);
        inner.append(number.as_str());
        assert(inner@ =~= signed_listed(values@.take(i + 1)));
    }
    assert(values@.take(values.len() as int) =~= values@);
    joined3("[", inner.as_str(), "]")
}

/// Whether a value stands in a command line right behind a name.
pub open spec fn stands_behind(arguments: Seq<Seq<char>>, name: Seq<char>, value: Seq<char>) -> bool {
    exists|i: int|
        0 <= i && i + 1 < arguments.len() && #[trigger] arguments[i] == name && arguments[i + 1]
            == value
}

/// Whether a number up to a bound stands in a command line right behind a name.
pub open spec fn number_behind(
    arguments: Seq<Seq<char>>,
    name: Seq<char>,
    max: nat,
    number: nat,
) -> bool {
    exists|i: int|
        0 <= i && i + 1 < arguments.len() && #[trigger] arguments[i] == name && unsigned_number(
            arguments[i + 1],
            max,
        ) == Some(number)
}

/// What stands behind a name in the rest of a command line does so in the whole.
pub(crate) proof fn later_arguments_stand_behind(arguments: Seq<Seq<char>>, front: int)
    requires
        0 <= front <= arguments.len(),
    ensures
        forall|name: Seq<char>, value: Seq<char>| #[trigger]
            stands_behind(arguments.skip(front), name, value) ==> stands_behind(
                arguments,
                name,
                value,
            ),
        forall|name: Seq<char>, max: nat, number: nat| #[trigger]
            number_behind(arguments.skip(front), name, max, number) ==> number_behind(
                arguments,
                name,
                max,
                number,
            ),
{
    let rest = arguments.skip(front);
    assert forall|name: Seq<char>, value: Seq<char>| #[trigger]
        stands_behind(rest, name, value) implies stands_behind(arguments, name, value) by {
        let i = choose|i: int|
            0 <= i && i + 1 < rest.len() && #[trigger] rest[i] == name && rest[i + 1] == value;
        assert(arguments[i + front] == rest[i] && arguments[i + front + 1] == rest[i + 1]);
    }
    assert forall|name: Seq<char>, max: nat, number: nat| #[trigger]
        number_behind(rest, name, max, number) implies number_behind(
        arguments,
        name,
        max,
        number,
    ) by {
        let i = choose|i: int|
            0 <= i && i + 1 < rest.len() && #[trigger] rest[i] == name && unsigned_number(
                rest[i + 1],
                max,
            ) == Some(number);
        assert(arguments[i + front] == rest[i] && arguments[i + front + 1] == rest[i + 1]);
    }
}

/// Pieces with a separator between every two of them.
pub open spec fn strung(pieces: Seq<Seq<char>>, separator: char) -> Seq<char>
    decreases pieces.len(),
{
    if pieces.len() == 0 {
        Seq::empty()
    } else if pieces.len() == 1 {
        pieces[0]
    } else {
        strung(pieces.drop_last(), separator).push(separator) + pieces.last()
    }
}

proof fn pieces_are_strung(s: Seq<char>, separator: char)
    ensures
        pieces_between(s, separator).len() >= 1,
        strung(pieces_between(s, separator), separator) == s,
        forall|i: int|
            0 <= i < pieces_between(s, separator).len() ==> !(#[trigger] pieces_between(
                s,
                separator,
            )[i]).contains(separator),
    decreases s.len(),
{
    let all = pieces_between(s, separator);
    if s.len() == 0 {
        assert(!all[0].contains(separator));
    } else {
        let front = pieces_between(s.drop_last(), separator);
        pieces_are_strung(s.drop_last(), separator);
        assert(s =~= s.drop_last().push(s.last()));
        if s.last() == separator {
            assert(all.drop_last() =~= front);
            assert(all.last() =~= Seq::<char>::empty());
            assert(strung(all, separator) =~= s);
            assert forall|i: int| 0 <= i < all.len() implies !(#[trigger] all[i]).contains(
                separator,
            ) by {
                if i < front.len() {
                    assert(all[i] == front[i]);
                }
            }
        } else {
            assert(all.drop_last() =~= front.drop_last());
            assert(all.last() == front.last().push(s.last()));
            if front.len() == 1 {
                assert(front.last() == front[0]);
                assert(strung(all, separator) =~= s);
            } else {
                assert(strung(front, separator) == strung(front.drop_last(), separator).push(
                    separator,
                ) + front.last());
                assert(strung(all, separator) =~= s);
            }
            assert forall|i: int| 0 <= i < all.len() implies !(#[trigger] all[i]).contains(
                separator,
            ) by {
                if i < all.len() - 1 {
                    assert(all[i] == front[i]);
                } else {
                    let last = front[front.len() - 1];
                    assert(!last.contains(separator));
                    assert forall|j: int| 0 <= j < all[i].len() implies all[i][j] != separator by {
                        if j < last.len() {
                            assert(last.contains(last[j]));
                        }
                    }
                }
            }
        }
    }
}

/// The pieces of a text hold no separator, and with one between every two of them they are the text.
pub proof fn pieces_make_up_the_text(s: &str, separator: char, pieces: Vec<String>)
    requires
        call_ensures(split_at, (s, separator), pieces),
    ensures
        pieces@.len() >= 1,
        strung(texts(pieces@), separator) == s@,
        forall|i: int|
            0 <= i < pieces@.len() ==> !(#[trigger] pieces@[i])@.contains(separator),
{
    pieces_are_strung(s@, separator);
    assert forall|i: int| 0 <= i < pieces@.len() implies !(#[trigger] pieces@[i])@.contains(
        separator,
    ) by {
        assert(texts(pieces@)[i] == pieces@[i]@);
        assert(!pieces_between(s@, separator)[i].contains(separator));
    }
}

pub(crate) proof fn pieces_are_added(a: Seq<char>, b: Seq<char>, separator: char)
    ensures
        pieces_between(a.push(separator) + b, separator) == pieces_between(a, separator)
            + pieces_between(b, separator),
        pieces_between(b, separator).len() >= 1,
    decreases b.len(),
{
    let all = a.push(separator) + b;
    if b.len() == 0 {
        assert(all =~= a.push(separator));
        assert(all.drop_last() =~= a);
        assert(pieces_between(all, separator) =~= pieces_between(a, separator) + pieces_between(
            b,
            separator,
        ));
    } else {
        pieces_are_added(a, b.drop_last(), separator);
        assert(all.drop_last() =~= a.push(separator) + b.drop_last());
        assert(all.last() == b.last());
        let front = pieces_between(a, separator);
        let back = pieces_between(b.drop_last(), separator);
        if b.last() == separator {
            assert((front + back).push(Seq::empty()) =~= front + back.push(Seq::empty()));
        } else {
            assert((front + back).last() == back.last());
            assert((front + back).drop_last().push(back.last().push(b.last())) =~= front
                + back.drop_last().push(back.last().push(b.last())));
        }
    }
}

proof fn names_are_added(a: Seq<Seq<char>>, b: Seq<Seq<char>>)
    ensures
        named_pieces(a + b) == named_pieces(a) + named_pieces(b),
    decreases b.len(),
{
    if b.len() == 0 {
        assert(a + b =~= a);
        assert(named_pieces(a) + named_pieces(b) =~= named_pieces(a));
    } else {
        names_are_added(a, b.drop_last());
        assert((a + b).drop_last() =~= a + b.drop_last());
        assert((a + b).last() == b.last());
        let piece = trimmed(b.last());
        if piece.len() > 0 {
            assert((named_pieces(a) + named_pieces(b.drop_last())).push(piece) =~= named_pieces(a)
                + named_pieces(b.drop_last()).push(piece));
        }
    }
}

/// A list of names is read part by part: behind a comma a new name begins, and what stands before the
/// comma is read as it would be alone.
pub proof fn lists_are_read_part_by_part(
    front: &str,
    back: &str,
    both: &str,
    before: Vec<String>,
    behind: Vec<String>,
    names: Vec<String>,
)
    requires
        both@ == front@.push(',') + back@,
        call_ensures(split_ids, (front,), before),
        call_ensures(split_ids, (back,), behind),
        call_ensures(split_ids, (both,), names),
    ensures
        texts(names@) == texts(before@) + texts(behind@),
{
    pieces_are_added(front@, back@, ',');
    names_are_added(pieces_between(front@, ','), pieces_between(back@, ','));
}

pub(crate) proof fn pieces_without_separator(s: Seq<char>, separator: char)
    requires
        !s.contains(separator),
    ensures
        pieces_between(s, separator) == seq![s],
    decreases s.len(),
{
    if s.len() == 0 {
        assert(s =~= Seq::<char>::empty());
    } else {
        let front = s.drop_last();
        assert(!front.contains(separator)) by {
            if front.contains(separator) {
                let i = choose|i: int| 0 <= i < front.len() && front[i] == separator;
                assert(s[i] == separator);
            }
        }
        assert(s[s.len() - 1] == s.last());
        pieces_without_separator(front, separator);
        assert(front.push(s.last()) =~= s);
        assert(pieces_between(s, separator) =~= seq![s]);
    }
}

proof fn start_is_white(s: Seq<char>)
    ensures
        ({
            let kept = trimmed_start(s);
            let cut = s.len() - kept.len();
            &&& kept.len() <= s.len()
            &&& kept == s.skip(cut as int)
            &&& forall|i: int| 0 <= i < cut ==> is_white_space(#[trigger] s[i])
            &&& kept.len() > 0 ==> !is_white_space(kept[0])
        }),
    decreases s.len(),
{
    if s.len() > 0 && is_white_space(s[0]) {
        let rest = s.drop_first();
        start_is_white(rest);
        let cut = s.len() - trimmed_start(s).len();
        assert(rest.skip(cut - 1) =~= s.skip(cut as int));
        assert forall|i: int| 0 <= i < cut implies is_white_space(#[trigger] s[i]) by {
            if i > 0 {
                assert(is_white_space(rest[i - 1]));
            }
        }
    } else {
        assert(s.skip(0) =~= s);
    }
}

proof fn end_is_white(s: Seq<char>)
    ensures
        ({
            let kept = trimmed_end(s);
            &&& kept.len() <= s.len()
            &&& kept == s.take(kept.len() as int)
            &&& forall|i: int| kept.len() <= i < s.len() ==> is_white_space(#[trigger] s[i])
            &&& kept.len() > 0 ==> !is_white_space(kept.last())
        }),
    decreases s.len(),
{
    if s.len() > 0 && is_white_space(s.last()) {
        let rest = s.drop_last();
        end_is_white(rest);
        let kept = trimmed_end(s);
        assert(rest.take(kept.len() as int) =~= s.take(kept.len() as int));
        assert forall|i: int| kept.len() <= i < s.len() implies is_white_space(#[trigger] s[i]) by {
            if i < s.len() - 1 {
                assert(is_white_space(rest[i]));
            }
        }
    } else {
        assert(s.take(s.len() as int) =~= s);
    }
}

/// A text without a comma names one thing, or nothing where it is white space alone: the white space
/// around the name is left out, and nothing else is.
pub proof fn a_name_is_read_without_its_white_space(
    s: &str,
    from: int,
    to: int,
    names: Vec<String>,
)
    requires
        !s@.contains(','),
        0 <= from <= to <= s@.len(),
        forall|i: int| 0 <= i < from ==> is_white_space(#[trigger] s@[i]),
        forall|i: int| to <= i < s@.len() ==> is_white_space(#[trigger] s@[i]),
        from < to ==> !is_white_space(s@[from]) && !is_white_space(s@[to - 1]),
        call_ensures(split_ids, (s,), names),
    ensures
        from == to ==> names@.len() == 0,
        from < to ==> names@.len() == 1 && names@[0]@ == s@.subrange(from, to),
{
    let text = s@;
    pieces_without_separator(text, ',');
    assert(seq![text].drop_last() =~= Seq::<Seq<char>>::empty());
    assert(named_pieces(seq![text].drop_last()) =~= Seq::<Seq<char>>::empty());
    start_is_white(text);
    let tail = trimmed_start(text);
    let cut = text.len() - tail.len();
    end_is_white(tail);
    let kept = trimmed(text);
    if from < to {
        assert(cut == from) by {
            if cut < from {
                assert(tail[0] == text[cut as int]);
            }
            if cut > from {
                assert(is_white_space(text[from]));
            }
        }
        assert(forall|i: int| 0 <= i < tail.len() ==> tail[i] == text[i + from]);
        assert(kept.len() == to - from) by {
            if kept.len() < to - from {
                assert(is_white_space(tail[to - from - 1]));
            }
            if kept.len() > to - from {
                assert(kept.last() == tail[kept.len() - 1]);
                assert(is_white_space(text[kept.len() - 1 + from]));
            }
        }
        assert(kept =~= text.subrange(from, to));
        assert(named_pieces(seq![text]) =~= seq![kept]);
        assert(texts(names@).len() == 1);
        assert(texts(names@)[0] == names@[0]@);
    } else {
        assert(kept.len() == 0) by {
            if tail.len() > 0 {
                assert(tail[0] == text[cut as int]);
                assert(is_white_space(text[cut as int]));
            }
        }
    }
    assert(texts(names@).len() == names@.len());
}

/// Lower case is that of the Latin letters alone: it moves a capital by 32 and keeps every other
/// character in its place.
pub proof fn only_capitals_are_lowered(s: &Vec<char>, lowered: Vec<char>)
    requires
        call_ensures(lowered_chars, (s,), lowered),
    ensures
        lowered@.len() == s@.len(),
        forall|i: int|
            0 <= i < s@.len() && 65 <= (#[trigger] s@[i]) as int <= 90 ==> lowered@[i] as int
                == s@[i] as int + 32,
        forall|i: int|
            0 <= i < s@.len() && !(65 <= (#[trigger] s@[i]) as int <= 90) ==> lowered@[i] == s@[i],
{
}

proof fn hex_pairs(bytes: Seq<u8>)
    ensures
        hex(bytes).len() == 2 * bytes.len(),
        forall|i: int|
            0 <= i < bytes.len() ==> hex(bytes)[2 * i] == hex_char((#[trigger] bytes[i] / 16) as nat)
                && hex(bytes)[2 * i + 1] == hex_char((bytes[i] % 16) as nat),
    decreases bytes.len(),
{
    if bytes.len() > 0 {
        let front = bytes.drop_last();
        hex_pairs(front);
        assert forall|i: int| 0 <= i < bytes.len() implies hex(bytes)[2 * i] == hex_char(
            (#[trigger] bytes[i] / 16) as nat,
        ) && hex(bytes)[2 * i + 1] == hex_char((bytes[i] % 16) as nat) by {
            if i < bytes.len() - 1 {
                assert(front[i] == bytes[i]);
            }
        }
    }
}

/// A byte is written as two of the sixteen digits, the upper half first.
pub proof fn bytes_are_two_digits(bytes: &[u8], text: String, at: int)
    requires
        call_ensures(hex_string, (bytes,), text),
        0 <= at < bytes@.len(),
    ensures
        text@.len() == 2 * bytes@.len(),
        text@[2 * at] == "0123456789abcdef"@[(bytes@[at] / 16) as int],
        text@[2 * at + 1] == "0123456789abcdef"@[(bytes@[at] % 16) as int],
{
    hex_pairs(bytes@);
    reveal_strlit("0123456789abcdef");
    let high = bytes@[at] / 16;
    let low = bytes@[at] % 16;
    assert(forall|d: nat| d < 16 ==> #[trigger] hex_char(d) == "0123456789abcdef"@[d as int]);
    assert(hex_char(high as nat) == "0123456789abcdef"@[high as int]);
    assert(hex_char(low as nat) == "0123456789abcdef"@[low as int]);
}

/// The last digit of a number is its rest by ten, and what stands before it is the tenth of the number;
/// below zero a minus sign stands in front.
pub proof fn digits_stand_in_their_order(n: u64, tenth: u64, text: String, front: String, m: i32, signed: String)
    requires
        n >= 10,
        tenth == n / 10,
        call_ensures(decimal_string, (n,), text),
        call_ensures(decimal_string, (tenth,), front),
        call_ensures(signed_decimal_string, (m,), signed),
    ensures
        text@ == front@.push("0123456789"@[(n % 10) as int]),
        m < 0 <==> signed@[0] == '-',
        m == -(n as int) ==> signed@ == seq!['-'] + text@,
        m == n ==> signed@ == text@,
{
    reveal_strlit("0123456789");
    if m >= 0 {
        decimal_round_trip(m as nat);
        assert(is_digit(decimal(m as nat)[0]));
    }
}

/// A signed number is read back from its decimal text.
pub proof fn signed_numbers_are_read_back(n: i32, s: &str, out: Option<i32>)
    requires
        s@ == signed_decimal(n as int),
        call_ensures(parse_i32, (s,), out),
    ensures
        out == Some(n),
{
    if n < 0 {
        decimal_round_trip(-n as nat);
        assert(s@.drop_first() =~= decimal(-n as nat));
    } else {
        decimal_round_trip(n as nat);
    }
}

/// A number is read digit by digit: one more digit behind it makes it ten times as large and adds the
/// digit, unless that passes the bound; a plus sign in front changes nothing.
pub proof fn numbers_are_read_digit_by_digit(
    s: &str,
    longer: &str,
    signed: &str,
    digit: u8,
    max: u64,
    n: u64,
    more: Option<u64>,
    same: Option<u64>,
)
    requires
        digit < 10,
        s@[0] != '+',
        longer@ == s@.push("0123456789"@[digit as int]),
        signed@ == seq!['+'] + s@,
        call_ensures(parse_unsigned, (s, max), Some(n)),
        call_ensures(parse_unsigned, (longer, max), more),
        call_ensures(parse_unsigned, (signed, max), same),
    ensures
        n <= max,
        same == Some(n),
        10 * n + digit <= max ==> more == Some((10 * n + digit) as u64),
        10 * n + digit > max ==> more is None,
{
    reveal_strlit("0123456789");
    assert(s@.len() > 0);
    assert(longer@[0] == s@[0]);
    assert(longer@.drop_last() =~= s@);
    assert(all_digits(longer@)) by {
        assert forall|i: int| 0 <= i < longer@.len() implies is_digit(#[trigger] longer@[i]) by {
            if i < s@.len() {
                assert(longer@[i] == s@[i]);
            }
        }
    }
    assert(digits_value(longer@) == 10 * n + digit);
    assert(signed@.drop_first() =~= s@);
}

proof fn common_fronts_are_skipped(front: Seq<char>, a: Seq<char>, b: Seq<char>)
    ensures
        text_before(front + a, front + b) == text_before(a, b),
    decreases front.len(),
{
    if front.len() == 0 {
        assert(front + a =~= a);
        assert(front + b =~= b);
    } else {
        common_fronts_are_skipped(front.drop_first(), a, b);
        assert((front + a).drop_first() =~= front.drop_first() + a);
        assert((front + b).drop_first() =~= front.drop_first() + b);
        assert((front + a)[0] == (front + b)[0]);
    }
}

/// Two texts are in order by the first character in which they differ, and a text comes before every
/// longer one that starts with it.
pub proof fn the_first_difference_decides(
    front: Seq<char>,
    a: &str,
    b: &str,
    before: bool,
)
    requires
        front.len() < b@.len(),
        front.len() <= a@.len(),
        a@.take(front.len() as int) == front,
        b@.take(front.len() as int) == front,
        front.len() < a@.len() ==> a@[front.len() as int] != b@[front.len() as int],
        call_ensures(is_before, (a, b), before),
    ensures
        front.len() == a@.len() ==> before,
        front.len() < a@.len() ==> (before <==> (a@[front.len() as int] as int)
            < b@[front.len() as int] as int),
{
    let n = front.len() as int;
    assert(a@ =~= front + a@.skip(n));
    assert(b@ =~= front + b@.skip(n));
    common_fronts_are_skipped(front, a@.skip(n), b@.skip(n));
}

/// A list is written in brackets, with a comma and a space before every value but the first.
pub proof fn lists_are_written_value_by_value(
    values: &[i32],
    longer: &[i32],
    text: String,
    more: String,
    last: String,
)
    requires
        values@.len() > 0,
        longer@.len() == values@.len() + 1,
        longer@.drop_last() == values@,
        call_ensures(signed_bracketed_string, (values,), text),
        call_ensures(signed_bracketed_string, (longer,), more),
        call_ensures(signed_decimal_string, (longer@.last(),), last),
    ensures
        text@[0] == '[' && text@.last() == ']',
        more@ == text@.drop_last() + seq![',', ' '] + last@ + seq![']'],
        values@.len() == 1 ==> text@ == seq!['['] + signed_decimal(values@[0] as int) + seq![']'],
{
    reveal_strlit("[");
    reveal_strlit("]");
    reveal_strlit(", ");
    assert("["@ =~= seq!['[']);
    assert("]"@ =~= seq![']']);
    assert(", "@ =~= seq![',', ' ']);
    assert(more@ =~= text@.drop_last() + seq![',', ' '] + last@ + seq![']']);
}

} // verus!
