//! Durations written as a chain of counted units, such as `1h30m10s`.

use crate::clock_face::{decimal, digit_char};
use vstd::prelude::*;

verus! {

/// Why a text is not a duration.
#[derive(Clone, Copy, Debug, PartialEq, Eq, Structural)]
pub enum DurationError {
    /// A unit letter with no digits before it.
    MissingNumber,
    /// A run of digits that stands for more than a `u64` holds.
    NumberTooLarge,
    /// A character that is neither a decimal digit nor a unit letter.
    UnexpectedCharacter,
    /// The duration as a whole is more seconds than a `u64` holds.
    TooLong,
}

/// One of the ten decimal digits.
pub open spec fn is_digit(c: char) -> bool {
    '0' <= c <= '9'
}

/// The number that a decimal digit stands for.
pub open spec fn digit_value(c: char) -> nat {
    (c as int - '0' as int) as nat
}

/// The number written by a run of decimal digits, most significant first.
pub open spec fn decimal_value(digits: Seq<char>) -> nat
    decreases digits.len(),
{
    if digits.len() == 0 {
        0
    } else {
        decimal_value(digits.drop_last()) * 10 + digit_value(digits.last())
    }
}

/// How many seconds a unit letter stands for: `h`, `m` or `s`.
pub open spec fn unit_seconds(c: char) -> Option<u64> {
    if c == 'h' {
        Some(3600)
    } else if c == 'm' {
        Some(60)
    } else if c == 's' {
        Some(1)
    } else {
        None
    }
}

/// `total` seconds and, on top, the number written by `digits` counted in
/// units of `unit` seconds each.
pub open spec fn with_segment(total: u64, digits: Seq<char>, unit: u64) -> Result<
    u64,
    DurationError,
> {
    if digits.len() == 0 {
        Err(DurationError::MissingNumber)
    } else if decimal_value(digits) > u64::MAX {
        Err(DurationError::NumberTooLarge)
    } else if total + decimal_value(digits) * unit > u64::MAX {
        Err(DurationError::TooLong)
    } else {
        Ok((total + decimal_value(digits) * unit) as u64)
    }
}

/// What is left to read: `rest`, after segments worth `total` seconds and
/// the digits `digits` of a segment whose unit letter is still to come.
///
/// A digit joins the pending digits. A unit letter closes the segment; it
/// needs a number before it. Digits that the text ends on count as seconds.
/// Any other character is an error, as is a number or a sum beyond `u64`;
/// the first error from the left is the one reported.
pub open spec fn read_from(rest: Seq<char>, total: u64, digits: Seq<char>) -> Result<
    u64,
    DurationError,
>
    decreases rest.len(),
{
    if rest.len() == 0 {
        if digits.len() == 0 {
            Ok(total)
        } else {
            with_segment(total, digits, 1)
        }
    } else if is_digit(rest[0]) {
        read_from(rest.drop_first(), total, digits.push(rest[0]))
    } else {
        match unit_seconds(rest[0]) {
            Some(unit) => match with_segment(total, digits, unit) {
                Ok(sum) => read_from(rest.drop_first(), sum, Seq::empty()),
                Err(error) => Err(error),
            },
            None => Err(DurationError::UnexpectedCharacter),
        }
    }
}

/// The number of seconds that `text` stands for as a duration: the sum of
/// its segments, each a decimal number followed by `h`, `m` or `s`, in any
/// order and any number of times, and of a last number without a letter,
/// taken as seconds. The empty text is zero seconds.
pub open spec fn duration_of(text: Seq<char>) -> Result<u64, DurationError> {
    read_from(text, 0, Seq::empty())
}

/// Appending a digit never makes the number written smaller.
proof fn lemma_decimal_value_grows(digits: Seq<char>, c: char)
    requires
        is_digit(c),
    ensures
        decimal_value(digits.push(c)) == decimal_value(digits) * 10 + digit_value(c),
        decimal_value(digits.push(c)) >= decimal_value(digits),
{
    assert(digits.push(c).drop_last() =~= digits);
}

/// The digits read since the last unit letter: whether there are any, and
/// the number they write as long as it fits.
struct Pending {
    any: bool,
    value: Option<u64>,
}

impl Pending {
    spec fn holds(self, digits: Seq<char>) -> bool {
        &&& self.any == (digits.len() > 0)
        &&& self.value == if decimal_value(digits) <= u64::MAX {
            Some(decimal_value(digits) as u64)
        } else {
            None
        }
    }

    fn empty() -> (pending: Self)
        ensures
            pending.holds(Seq::empty()),
    {
        Pending { any: false, value: Some(0) }
    }

    fn push(self, c: char, Ghost(digits): Ghost<Seq<char>>) -> (pending: Self)
        requires
            self.holds(digits),
            is_digit(c),
        ensures
            pending.holds(digits.push(c)),
    {
        proof {
            lemma_decimal_value_grows(digits, c);
        }
        let digit = (c as u32 - '0' as u32) as u64;
        let value = match self.value {
            Some(value) => match value.checked_mul(10) {
                Some(shifted) => shifted.checked_add(digit),
                None => None,
            },
            None => None,
        };
        Pending { any: true, value }
    }

    /// Closes the segment: adds the pending number, in units of `unit`
    /// seconds, to `total`.
    fn close(self, total: u64, unit: u64, Ghost(digits): Ghost<Seq<char>>) -> (sum: Result<
        u64,
        DurationError,
    >)
        requires
            self.holds(digits),
        ensures
            sum == with_segment(total, digits, unit),
    {
        if !self.any {
            return Err(DurationError::MissingNumber);
        }
        match self.value {
            None => Err(DurationError::NumberTooLarge),
            Some(value) => match value.checked_mul(unit) {
                None => Err(DurationError::TooLong),
                Some(seconds) => match total.checked_add(seconds) {
                    None => Err(DurationError::TooLong),
                    Some(sum) => Ok(sum),
                },
            },
        }
    }
}

/// The seconds in one unit, for a unit letter.
fn unit_for(c: char) -> (unit: Option<u64>)
    ensures
        unit == unit_seconds(c),
{
    if c == 'h' {
        Some(3600)
    } else if c == 'm' {
        Some(60)
    } else if c == 's' {
        Some(1)
    } else {
        None
    }
}

/// Reads a duration such as `1h30m` or `1h30m10s` as a number of seconds.
pub fn parse_duration(duration_str: &str) -> (result: Result<u64, DurationError>)
    ensures
        result == duration_of(duration_str@),
{
    let mut total_seconds: u64 = 0;
    let mut pending = Pending::empty();
    let ghost mut digits: Seq<char> = Seq::empty();
    assert(duration_str@.skip(0) =~= duration_str@);
    for c in it: duration_str.chars()
        invariant
            it.seq() == duration_str@,
            pending.holds(digits),
            duration_of(duration_str@) == read_from(
                duration_str@.skip(it.index() as int),
                total_seconds,
                digits,
            ),
    {
        let ghost rest = duration_str@.skip(it.index() as int);
        assert(rest[0] == c);
        assert(rest.drop_first() =~= duration_str@.skip(it.index() + 1));
        if c >= '0' && c <= '9' {
            pending = pending.push(c, Ghost(digits));
            proof {
                digits = digits.push(c);
            }
        } else {
            match unit_for(c) {
                Some(unit) => match pending.close(total_seconds, unit, Ghost(digits)) {
                    Ok(sum) => {
                        total_seconds = sum;
                        pending = Pending::empty();
                        proof {
                            digits = Seq::empty();
                        }
                    },
                    Err(error) => {
                        return Err(error);
                    },
                },
                None => {
                    return Err(DurationError::UnexpectedCharacter);
                },
            }
        }
    }
    assert(duration_str@.skip(duration_str@.len() as int).len() == 0);
    // The text may end on a number without a unit letter: seconds.
    if pending.any {
        pending.close(total_seconds, 1, Ghost(digits))
    } else {
        Ok(total_seconds)
    }
}

/// A text made of digits only.
pub open spec fn all_digits(text: Seq<char>) -> bool {
    forall|i: int| 0 <= i < text.len() ==> is_digit(#[trigger] text[i])
}

/// A text that does not break off inside a number: it is empty or ends on a
/// unit letter.
pub open spec fn ends_on_unit(text: Seq<char>) -> bool {
    text.len() == 0 || unit_seconds(text.last()) is Some
}

/// Digits that follow pending digits are read as one number with them.
proof fn lemma_digits_join(rest: Seq<char>, total: u64, digits: Seq<char>)
    requires
        all_digits(rest),
    ensures
        read_from(rest, total, digits) == read_from(Seq::empty(), total, digits + rest),
    decreases rest.len(),
{
    if rest.len() == 0 {
        assert(digits + rest =~= digits);
    } else {
        assert(all_digits(rest.drop_first())) by {
            assert forall|i: int| 0 <= i < rest.drop_first().len() implies is_digit(
                #[trigger] rest.drop_first()[i],
            ) by {
                assert(rest.drop_first()[i] == rest[i + 1]);
            }
        }
        lemma_digits_join(rest.drop_first(), total, digits.push(rest[0]));
        assert(digits.push(rest[0]) + rest.drop_first() =~= digits + rest);
    }
}

/// A number alone is that many seconds.
pub proof fn lemma_number_alone_is_seconds(digits: Seq<char>)
    requires
        digits.len() > 0,
        all_digits(digits),
    ensures
        duration_of(digits) == with_segment(0, digits, 1),
{
    lemma_digits_join(digits, 0, Seq::empty());
    assert(Seq::<char>::empty() + digits =~= digits);
}

/// A number with a unit letter after it is that many units.
pub proof fn lemma_one_segment(digits: Seq<char>, letter: char)
    requires
        all_digits(digits),
        unit_seconds(letter) is Some,
    ensures
        duration_of(digits.push(letter)) == with_segment(0, digits, unit_seconds(letter)->0),
{
    lemma_segment_then_rest(digits, letter, Seq::empty(), 0, Seq::empty());
    assert(Seq::<char>::empty() + digits =~= digits);
    assert(digits.push(letter) + Seq::<char>::empty() =~= digits.push(letter));
}

/// Reading a number, its unit letter and then more text closes the segment
/// and goes on with the rest.
proof fn lemma_segment_then_rest(
    digits: Seq<char>,
    letter: char,
    rest: Seq<char>,
    total: u64,
    pending: Seq<char>,
)
    requires
        all_digits(digits),
        unit_seconds(letter) is Some,
    ensures
        read_from(digits.push(letter) + rest, total, pending) == match with_segment(
            total,
            pending + digits,
            unit_seconds(letter)->0,
        ) {
            Ok(sum) => read_from(rest, sum, Seq::empty()),
            Err(error) => Err(error),
        },
    decreases digits.len(),
{
    let text = digits.push(letter) + rest;
    if digits.len() == 0 {
        assert(text[0] == letter);
        assert(text.drop_first() =~= rest);
        assert(pending + digits =~= pending);
    } else {
        assert(text[0] == digits[0]);
        assert(text.drop_first() =~= digits.drop_first().push(letter) + rest);
        assert(all_digits(digits.drop_first())) by {
            assert forall|i: int| 0 <= i < digits.drop_first().len() implies is_digit(
                #[trigger] digits.drop_first()[i],
            ) by {
                assert(digits.drop_first()[i] == digits[i + 1]);
            }
        }
        lemma_segment_then_rest(digits.drop_first(), letter, rest, total, pending.push(digits[0]));
        assert(pending.push(digits[0]) + digits.drop_first() =~= pending + digits);
    }
}

/// A duration is never less than what was summed up before its last part
/// was read.
proof fn lemma_total_only_grows(rest: Seq<char>, total: u64, digits: Seq<char>)
    requires
        read_from(rest, total, digits) is Ok,
    ensures
        total <= read_from(rest, total, digits)->Ok_0,
    decreases rest.len(),
{
    if rest.len() > 0 {
        if is_digit(rest[0]) {
            lemma_total_only_grows(rest.drop_first(), total, digits.push(rest[0]));
        } else {
            let sum = with_segment(total, digits, unit_seconds(rest[0])->0)->Ok_0;
            lemma_total_only_grows(rest.drop_first(), sum, Seq::empty());
        }
    }
}

/// Text read on top of `more` seconds more comes to `more` seconds more.
proof fn lemma_head_start(rest: Seq<char>, total: u64, digits: Seq<char>, more: u64)
    requires
        read_from(rest, total, digits) is Ok,
        read_from(rest, total, digits)->Ok_0 + more <= u64::MAX,
    ensures
        total + more <= u64::MAX,
        read_from(rest, (total + more) as u64, digits) == Ok::<u64, DurationError>(
            (read_from(rest, total, digits)->Ok_0 + more) as u64,
        ),
    decreases rest.len(),
{
    lemma_total_only_grows(rest, total, digits);
    if rest.len() > 0 {
        if is_digit(rest[0]) {
            lemma_head_start(rest.drop_first(), total, digits.push(rest[0]), more);
        } else {
            let sum = with_segment(total, digits, unit_seconds(rest[0])->0)->Ok_0;
            lemma_total_only_grows(rest.drop_first(), sum, Seq::empty());
            lemma_head_start(rest.drop_first(), sum, Seq::empty(), more);
        }
    }
}

/// Once a text that ends on a unit letter is read, what follows is read
/// from the sum so far, with no digits pending.
proof fn lemma_read_on(first: Seq<char>, second: Seq<char>, total: u64, digits: Seq<char>)
    requires
        read_from(first, total, digits) is Ok,
        first.len() == 0 ==> digits.len() == 0,
        ends_on_unit(first),
    ensures
        read_from(first + second, total, digits) == read_from(
            second,
            read_from(first, total, digits)->Ok_0,
            Seq::empty(),
        ),
    decreases first.len(),
{
    if first.len() == 0 {
        assert(first + second =~= second);
        assert(digits =~= Seq::empty());
    } else {
        let tail = first.drop_first();
        assert((first + second)[0] == first[0]);
        assert((first + second).drop_first() =~= tail + second);
        if tail.len() > 0 {
            assert(tail.last() == first.last());
        }
        if is_digit(first[0]) {
            lemma_read_on(tail, second, total, digits.push(first[0]));
        } else {
            let sum = with_segment(total, digits, unit_seconds(first[0])->0)->Ok_0;
            lemma_read_on(tail, second, sum, Seq::empty());
        }
    }
}

/// A number written out in decimal is made of digits and stands for itself.
pub proof fn lemma_decimal_reads_back(n: nat)
    ensures
        decimal(n).len() > 0,
        all_digits(decimal(n)),
        decimal_value(decimal(n)) == n,
    decreases n,
{
    if n >= 10 {
        lemma_decimal_reads_back(n / 10);
        lemma_decimal_value_grows(decimal(n / 10), digit_char(n % 10));
    } else {
        assert(decimal(n).drop_last() =~= Seq::<char>::empty());
        assert(decimal_value(Seq::<char>::empty()) == 0);
    }
}

/// A number of seconds written out in decimal is read as that duration.
pub proof fn lemma_written_seconds_read_back(seconds: u64)
    ensures
        duration_of(decimal(seconds as nat)) == Ok::<u64, DurationError>(seconds),
{
    lemma_decimal_reads_back(seconds as nat);
    lemma_number_alone_is_seconds(decimal(seconds as nat));
}

/// Durations add up: where one text ends on a unit letter and another
/// follows it, the two together stand for the sum of what each stands for,
/// as long as that sum fits.
pub proof fn lemma_durations_add_up(first: Seq<char>, second: Seq<char>)
    requires
        ends_on_unit(first),
        duration_of(first) is Ok,
        duration_of(second) is Ok,
        duration_of(first)->Ok_0 + duration_of(second)->Ok_0 <= u64::MAX,
    ensures
        duration_of(first + second) == Ok::<u64, DurationError>(
            (duration_of(first)->Ok_0 + duration_of(second)->Ok_0) as u64,
        ),
{
    lemma_read_on(first, second, 0, Seq::empty());
    lemma_head_start(second, 0, Seq::empty(), duration_of(first)->Ok_0);
}

} // verus!
