//! Coordinates as text: decimal numbers of page units, read into whole
//! multiples of a millionth of a unit.

use crate::geometry::{in_range, COORD_LIMIT};
use vstd::prelude::*;
use vstd::string::is_ascii_spec_bytes;

verus! {

/// How many of the units in which coordinates are held make one page unit.
pub const UNITS_PER_POINT: i64 = 1_000_000;

/// How many digits after the decimal point are kept; further ones are
/// dropped.
pub const FRACTION_DIGITS: usize = 6;

pub open spec fn is_digit(c: char) -> bool {
    '0' <= c <= '9'
}

/// The value of a decimal digit.
pub open spec fn digit_of(c: char) -> int {
    c as int - '0' as int
}

pub open spec fn all_digits(s: Seq<char>) -> bool {
    forall|i: int| 0 <= i < s.len() ==> is_digit(#[trigger] s[i])
}

/// The number that a string of decimal digits writes; 0 for none.
pub open spec fn digits_value(s: Seq<char>) -> int
    decreases s.len(),
{
    if s.len() == 0 {
        0
    } else {
        10 * digits_value(s.drop_last()) + digit_of(s.last())
    }
}

/// Ten to the power `n`.
pub open spec fn pow10(n: nat) -> int
    decreases n,
{
    if n == 0 {
        1
    } else {
        10 * pow10((n - 1) as nat)
    }
}

/// The text starts with a sign.
pub open spec fn has_sign(s: Seq<char>) -> bool {
    s.len() > 0 && (s[0] == '+' || s[0] == '-')
}

/// The text after its sign, if it has one.
pub open spec fn unsigned_part(s: Seq<char>) -> Seq<char> {
    if has_sign(s) {
        s.skip(1)
    } else {
        s
    }
}

/// Where the first decimal point stands, or the length where there is none.
pub open spec fn point_at(s: Seq<char>) -> int
    decreases s.len(),
{
    if s.len() == 0 || s.first() == '.' {
        0
    } else {
        1 + point_at(s.drop_first())
    }
}

/// What stands before the first decimal point.
pub open spec fn whole_part(body: Seq<char>) -> Seq<char> {
    body.take(point_at(body))
}

/// What stands after the first decimal point.
pub open spec fn fraction_part(body: Seq<char>) -> Seq<char> {
    if point_at(body) < body.len() {
        body.skip(point_at(body) + 1)
    } else {
        Seq::empty()
    }
}

/// The fraction in millionths: its first six digits, with zeros for the
/// digits that are missing. Further digits do not count.
pub open spec fn fraction_units(fraction: Seq<char>) -> int {
    if fraction.len() >= FRACTION_DIGITS {
        digits_value(fraction.take(FRACTION_DIGITS as int))
    } else {
        digits_value(fraction) * pow10((FRACTION_DIGITS - fraction.len()) as nat)
    }
}

/// The text is a decimal number: an optional sign, digits, and optionally a
/// point and more digits, with at least one digit in all. There is no
/// exponent and no white space.
pub open spec fn is_decimal(s: Seq<char>) -> bool {
    let body = unsigned_part(s);
    &&& all_digits(whole_part(body))
    &&& all_digits(fraction_part(body))
    &&& whole_part(body).len() + fraction_part(body).len() > 0
}

/// The size of the number in millionths, without its sign.
pub open spec fn magnitude(s: Seq<char>) -> int {
    let body = unsigned_part(s);
    digits_value(whole_part(body)) * UNITS_PER_POINT + fraction_units(fraction_part(body))
}

/// The coordinate that the text writes, in millionths of a page unit:
/// defined for a decimal number whose size is within the coordinate limit.
pub open spec fn coordinate_value(s: Seq<char>) -> Option<i64> {
    if is_decimal(s) && magnitude(s) <= COORD_LIMIT {
        if s[0] == '-' {
            Some((-magnitude(s)) as i64)
        } else {
            Some(magnitude(s) as i64)
        }
    } else {
        None
    }
}

/// The bytes are the characters, one for one, and all of them are ASCII.
pub open spec fn spells(bytes: Seq<u8>, chars: Seq<char>) -> bool {
    &&& bytes.len() == chars.len()
    &&& forall|i: int|
        0 <= i < chars.len() ==> '\0' <= (#[trigger] chars[i]) <= '\u{7f}' && bytes[i]
            == chars[i] as u8
}

fn is_digit_byte(b: u8) -> (r: bool)
    ensures
        r == (48 <= b <= 57),
{
    48 <= b && b <= 57
}

/// The first position from `from` on that holds no digit.
fn digits_end(bytes: &[u8], from: usize) -> (end: usize)
    requires
        from <= bytes@.len(),
    ensures
        from <= end <= bytes@.len(),
        forall|i: int| from <= i < end ==> 48 <= #[trigger] bytes@[i] <= 57,
        end < bytes@.len() ==> !(48 <= bytes@[end as int] <= 57),
{
    let mut end: usize = from;
    while end < bytes.len() && is_digit_byte(bytes[end])
        invariant
            from <= end <= bytes@.len(),
            forall|i: int| from <= i < end ==> 48 <= #[trigger] bytes@[i] <= 57,
        decreases bytes@.len() - end,
    {
        end += 1;
    }
    end
}

/// The number that the digits in `from..to` write, if it is at most `cap`.
fn digits_number(bytes: &[u8], from: usize, to: usize, cap: i64, Ghost(chars): Ghost<Seq<char>>) -> (r:
    Option<i64>)
    requires
        from <= to <= bytes@.len(),
        spells(bytes@, chars),
        all_digits(chars.subrange(from as int, to as int)),
        0 <= cap <= 1_000_000_000_000,
    ensures
        r is Some <==> digits_value(chars.subrange(from as int, to as int)) <= cap,
        r is Some ==> r->0 == digits_value(chars.subrange(from as int, to as int)),
        r is Some ==> 0 <= r->0 <= cap,
{
    let ghost digits = chars.subrange(from as int, to as int);
    let mut value: i64 = 0;
    let mut i: usize = from;
    while i < to
        invariant
            from <= i <= to <= bytes@.len(),
            spells(bytes@, chars),
            digits == chars.subrange(from as int, to as int),
            all_digits(digits),
            0 <= cap <= 1_000_000_000_000,
            value == digits_value(digits.take(i - from)),
            0 <= value <= cap,
        decreases to - i,
    {
        proof {
            assert(digits.take(i - from + 1).drop_last() =~= digits.take(i - from));
            assert(digits.take(i - from + 1).last() == chars[i as int]);
            assert(is_digit(digits[i - from]));
        }
        let digit: i64 = (bytes[i] - 48) as i64;
        value = value * 10 + digit;
        if value > cap {
            proof {
                lemma_digits_value_grows(digits, i - from + 1);
            }
            return None;
        }
        i += 1;
    }
    proof {
        assert(digits.take(to - from) =~= digits);
    }
    Some(value)
}

/// Ten to the power `n`, for at most six.
fn power_of_ten(n: usize) -> (r: i64)
    requires
        n <= FRACTION_DIGITS,
    ensures
        r == pow10(n as nat),
        1 <= r <= 1_000_000,
{
    let mut r: i64 = 1;
    let mut i: usize = 0;
    while i < n
        invariant
            i <= n <= FRACTION_DIGITS,
            r == pow10(i as nat),
            1 <= r,
            i == 0 ==> r == 1,
            i == 1 ==> r == 10,
            i == 2 ==> r == 100,
            i == 3 ==> r == 1_000,
            i == 4 ==> r == 10_000,
            i == 5 ==> r == 100_000,
            i == 6 ==> r == 1_000_000,
        decreases n - i,
    {
        r = r * 10;
        i += 1;
    }
    r
}

/// Where the sign ends, where the digits before the point end, and where
/// the digits after the point start.
struct Spans {
    start: usize,
    whole_end: usize,
    fraction_start: usize,
}

/// Finds the parts of a decimal number; `None` where the text is none.
fn find_spans(bytes: &[u8], Ghost(chars): Ghost<Seq<char>>) -> (r: Option<Spans>)
    requires
        spells(bytes@, chars),
    ensures
        r is Some <==> is_decimal(chars),
        r is Some ==> {
            let spans = r->0;
            let body = unsigned_part(chars);
            &&& spans.start <= spans.whole_end <= spans.fraction_start <= chars.len()
            &&& spans.start == if has_sign(chars) { 1int } else { 0int }
            &&& whole_part(body) == chars.subrange(spans.start as int, spans.whole_end as int)
            &&& fraction_part(body) == chars.subrange(
                spans.fraction_start as int,
                chars.len() as int,
            )
        },
{
    let n: usize = bytes.len();
    let mut start: usize = 0;
    if n > 0 && (bytes[0] == 43 || bytes[0] == 45) {
        start = 1;
    }
    let ghost body = unsigned_part(chars);
    proof {
        assert(n > 0 ==> (chars[0] == '-' <==> bytes@[0] == 45));
        assert(n > 0 ==> (chars[0] == '+' <==> bytes@[0] == 43));
        assert(body =~= chars.skip(start as int));
    }
    let whole_end: usize = digits_end(bytes, start);
    proof {
        assert forall|j: int| 0 <= j < whole_end - start implies body[j] != '.' by {
            assert(48 <= bytes@[start + j] <= 57);
            assert(body[j] == chars[start + j]);
        }
    }
    if whole_end < n && bytes[whole_end] != 46 {
        proof {
            assert(body[whole_end - start] == chars[whole_end as int]);
            lemma_point_at_after(body, whole_end - start + 1);
            assert(whole_part(body)[whole_end - start] == body[whole_end - start]);
            assert(!is_digit(whole_part(body)[whole_end - start]));
        }
        return None;
    }
    proof {
        if whole_end < n {
            assert(body[whole_end - start] == chars[whole_end as int]);
        }
        lemma_point_at_is(body, whole_end - start);
        assert(whole_part(body) =~= chars.subrange(start as int, whole_end as int));
        assert forall|j: int| 0 <= j < whole_part(body).len() implies is_digit(
            #[trigger] whole_part(body)[j],
        ) by {
            assert(48 <= bytes@[start + j] <= 57);
        }
    }
    let fraction_start: usize = if whole_end < n {
        whole_end + 1
    } else {
        n
    };
    let fraction_end: usize = digits_end(bytes, fraction_start);
    proof {
        assert(fraction_part(body) =~= chars.subrange(fraction_start as int, n as int));
    }
    if fraction_end < n {
        proof {
            assert(fraction_part(body)[fraction_end - fraction_start] == chars[fraction_end as int]);
            assert(!is_digit(fraction_part(body)[fraction_end - fraction_start]));
        }
        return None;
    }
    proof {
        assert forall|j: int| 0 <= j < fraction_part(body).len() implies is_digit(
            #[trigger] fraction_part(body)[j],
        ) by {
            assert(48 <= bytes@[fraction_start + j] <= 57);
        }
    }
    if whole_end == start && fraction_end == fraction_start {
        return None;
    }
    Some(Spans { start, whole_end, fraction_start })
}

/// The fraction in millionths, from the digits in `from..`.
fn fraction_number(bytes: &[u8], from: usize, Ghost(chars): Ghost<Seq<char>>) -> (r: i64)
    requires
        from <= bytes@.len(),
        spells(bytes@, chars),
        all_digits(chars.subrange(from as int, chars.len() as int)),
    ensures
        r == fraction_units(chars.subrange(from as int, chars.len() as int)),
        0 <= r < UNITS_PER_POINT,
{
    let ghost fraction = chars.subrange(from as int, chars.len() as int);
    let kept: usize = if bytes.len() - from > FRACTION_DIGITS {
        FRACTION_DIGITS
    } else {
        bytes.len() - from
    };
    let ghost kept_digits = chars.subrange(from as int, from + kept);
    proof {
        assert(kept_digits =~= fraction.take(kept as int));
        assert forall|j: int| 0 <= j < kept_digits.len() implies is_digit(
            #[trigger] kept_digits[j],
        ) by {
            assert(kept_digits[j] == fraction[j]);
        }
        lemma_digits_value_bound(kept_digits);
        lemma_pow10_six();
        lemma_pow10_monotone(kept as nat, FRACTION_DIGITS as nat);
        if kept < FRACTION_DIGITS {
            assert(fraction.take(kept as int) =~= fraction);
        }
        lemma_fraction_units_bound(fraction);
    }
    match digits_number(bytes, from, from + kept, 999_999, Ghost(chars)) {
        Some(v) => {
            let scale: i64 = power_of_ten(FRACTION_DIGITS - kept);
            v * scale
        },
        None => 0,
    }
}

/// Reads a coordinate written as a decimal number of page units, such as
/// `56.800000`, into millionths of a unit.
///
/// The text is an optional sign, digits, and optionally a point and more
/// digits; of the digits after the point the first six count. `None` for
/// any other text, and for a number beyond the coordinate limit.
pub fn parse_coordinate(text: &str) -> (r: Option<i64>)
    ensures
        r == coordinate_value(text@),
        r is Some ==> in_range(r->0 as int),
{
    let ghost chars = text@;
    if !text.is_ascii() {
        proof {
            if is_decimal(chars) {
                lemma_decimal_is_ascii(chars);
            }
        }
        return None;
    }
    let bytes: &[u8] = text.as_bytes();
    proof {
        is_ascii_spec_bytes(text);
        assert(spells(bytes@, chars));
    }
    let spans: Spans = match find_spans(bytes, Ghost(chars)) {
        Some(spans) => spans,
        None => {
            return None;
        },
    };
    let ghost body = unsigned_part(chars);
    let whole: i64 = match digits_number(
        bytes,
        spans.start,
        spans.whole_end,
        UNITS_PER_POINT,
        Ghost(chars),
    ) {
        Some(v) => v,
        None => {
            proof {
                lemma_fraction_units_bound(fraction_part(body));
            }
            return None;
        },
    };
    let fraction: i64 = fraction_number(bytes, spans.fraction_start, Ghost(chars));
    proof {
        assert(0 <= whole * UNITS_PER_POINT <= 1_000_000 * 1_000_000) by (nonlinear_arith)
            requires
                0 <= whole <= 1_000_000,
                UNITS_PER_POINT == 1_000_000,
        ;
    }
    let size: i64 = whole * UNITS_PER_POINT + fraction;
    if size > COORD_LIMIT {
        return None;
    }
    let negative: bool = bytes[0] == 45;
    if negative {
        Some(-size)
    } else {
        Some(size)
    }
}

/// A string of digits writes a number no smaller than any of its prefixes
/// does.
pub proof fn lemma_digits_value_grows(s: Seq<char>, k: int)
    requires
        all_digits(s),
        0 <= k <= s.len(),
    ensures
        digits_value(s.take(k)) <= digits_value(s),
        0 <= digits_value(s.take(k)),
    decreases s.len(),
{
    if k == s.len() {
        assert(s.take(k) =~= s);
        lemma_digits_value_bound(s);
    } else {
        let front = s.drop_last();
        assert(all_digits(front)) by {
            assert forall|i: int| 0 <= i < front.len() implies is_digit(#[trigger] front[i]) by {
                assert(front[i] == s[i]);
            }
        }
        lemma_digits_value_grows(front, k);
        assert(front.take(k) =~= s.take(k));
        assert(is_digit(s[s.len() - 1]));
        lemma_digits_value_bound(front);
    }
}

/// A string of `n` digits writes a number from 0 to below ten to the `n`.
pub proof fn lemma_digits_value_bound(s: Seq<char>)
    requires
        all_digits(s),
    ensures
        0 <= digits_value(s) < pow10(s.len()),
    decreases s.len(),
{
    if s.len() > 0 {
        let front = s.drop_last();
        assert(all_digits(front)) by {
            assert forall|i: int| 0 <= i < front.len() implies is_digit(#[trigger] front[i]) by {
                assert(front[i] == s[i]);
            }
        }
        lemma_digits_value_bound(front);
        assert(is_digit(s[s.len() - 1]));
    }
}

/// Ten to the power six is a million.
pub proof fn lemma_pow10_six()
    ensures
        pow10(0) == 1,
        pow10(1) == 10,
        pow10(2) == 100,
        pow10(3) == 1_000,
        pow10(4) == 10_000,
        pow10(5) == 100_000,
        pow10(6) == 1_000_000,
{
    reveal_with_fuel(pow10, 8);
}

/// Powers of ten are positive and multiply.
pub proof fn lemma_pow10_monotone(a: nat, b: nat)
    requires
        a <= b,
    ensures
        pow10(a) * pow10((b - a) as nat) == pow10(b),
        pow10(a) >= 1,
    decreases a,
{
    if a > 0 {
        lemma_pow10_monotone((a - 1) as nat, (b - 1) as nat);
        assert(10 * pow10((a - 1) as nat) * pow10((b - a) as nat) == 10 * (pow10((a - 1) as nat)
            * pow10((b - a) as nat))) by (nonlinear_arith);
    } else {
        assert(1 * pow10(b) == pow10(b));
    }
}

/// The fraction of a number is worth less than one page unit.
pub proof fn lemma_fraction_units_bound(fraction: Seq<char>)
    requires
        all_digits(fraction),
    ensures
        0 <= fraction_units(fraction) < UNITS_PER_POINT,
{
    lemma_pow10_six();
    if fraction.len() >= FRACTION_DIGITS {
        let kept = fraction.take(FRACTION_DIGITS as int);
        assert(all_digits(kept)) by {
            assert forall|i: int| 0 <= i < kept.len() implies is_digit(#[trigger] kept[i]) by {
                assert(kept[i] == fraction[i]);
            }
        }
        lemma_digits_value_bound(kept);
    } else {
        lemma_digits_value_bound(fraction);
        let missing = (FRACTION_DIGITS - fraction.len()) as nat;
        lemma_pow10_monotone(fraction.len(), FRACTION_DIGITS as nat);
        lemma_pow10_monotone(missing, missing);
        assert(0 <= digits_value(fraction) * pow10(missing) < pow10(fraction.len()) * pow10(
            missing,
        )) by (nonlinear_arith)
            requires
                0 <= digits_value(fraction) < pow10(fraction.len()),
                pow10(missing) >= 1,
        ;
    }
}

/// Where no point stands before position `k`, and one stands at `k` or the
/// text ends there, the first point is at `k`.
pub proof fn lemma_point_at_is(s: Seq<char>, k: int)
    requires
        0 <= k <= s.len(),
        forall|j: int| 0 <= j < k ==> s[j] != '.',
        k < s.len() ==> s[k] == '.',
    ensures
        point_at(s) == k,
    decreases k,
{
    if k > 0 {
        let rest = s.drop_first();
        assert forall|j: int| 0 <= j < k - 1 implies rest[j] != '.' by {
            assert(rest[j] == s[j + 1]);
        }
        lemma_point_at_is(rest, k - 1);
    }
}

/// Where no point stands before position `k`, the first point is at `k` or
/// later.
pub proof fn lemma_point_at_after(s: Seq<char>, k: int)
    requires
        0 <= k <= s.len(),
        forall|j: int| 0 <= j < k ==> s[j] != '.',
    ensures
        k <= point_at(s) <= s.len(),
    decreases s.len(),
{
    if s.len() == 0 || s.first() == '.' {
    } else {
        let rest = s.drop_first();
        if k > 0 {
            assert forall|j: int| 0 <= j < k - 1 implies rest[j] != '.' by {
                assert(rest[j] == s[j + 1]);
            }
            lemma_point_at_after(rest, k - 1);
        } else {
            lemma_point_at_after(rest, 0);
        }
    }
}

/// A decimal number consists of ASCII characters only.
pub proof fn lemma_decimal_is_ascii(s: Seq<char>)
    requires
        is_decimal(s),
    ensures
        vstd::utf8::is_ascii_chars(s),
{
    let body = unsigned_part(s);
    let p = point_at(body);
    lemma_point_at_after(body, 0);
    assert forall|i: int| 0 <= i < s.len() implies '\0' <= #[trigger] s[i] <= '\u{7f}' by {
        let shift: int = if has_sign(s) { 1 } else { 0 };
        if i >= shift {
            let j = i - shift;
            assert(body[j] == s[i]);
            if j < p {
                assert(whole_part(body)[j] == body[j]);
                assert(is_digit(whole_part(body)[j]));
            } else if j == p {
                lemma_point_at_stands(body);
            } else {
                assert(fraction_part(body)[j - p - 1] == body[j]);
                assert(is_digit(fraction_part(body)[j - p - 1]));
            }
        }
    }
}

/// Where the first point lies inside the text, a point stands there.
pub proof fn lemma_point_at_stands(s: Seq<char>)
    ensures
        0 <= point_at(s) <= s.len(),
        point_at(s) < s.len() ==> s[point_at(s)] == '.',
    decreases s.len(),
{
    if s.len() == 0 || s.first() == '.' {
    } else {
        lemma_point_at_stands(s.drop_first());
        let rest = s.drop_first();
        if point_at(rest) < rest.len() {
            assert(rest[point_at(rest)] == s[point_at(rest) + 1]);
        }
    }
}

} // verus!
