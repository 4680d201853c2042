//! The digits on the clock face: how a number of seconds is written.

use vstd::prelude::*;

verus! {

pub const SECONDS_IN_MINUTE: usize = 60;

pub const SECONDS_IN_HOUR: usize = 3600;

/// `String::push` appends one character to the end of the string and leaves
/// what was there before in place.
pub assume_specification[ String::push ](text: &mut String, c: char)
    ensures
        final(text)@ == old(text)@.push(c),
;

/// The character for a digit between 0 and 9.
pub open spec fn digit_char(d: nat) -> char
    recommends
        d < 10,
{
    ('0' as int + d) as char
}

/// A number in decimal, without padding: one digit for numbers below ten,
/// no leading zero for any other.
pub open spec fn decimal(n: nat) -> Seq<char>
    decreases n,
{
    if n < 10 {
        seq![digit_char(n)]
    } else {
        decimal(n / 10).push(digit_char(n % 10))
    }
}

/// A number below a hundred in two digits, with a leading zero where needed.
pub open spec fn two_digits(n: nat) -> Seq<char>
    recommends
        n < 100,
{
    seq![digit_char(n / 10), digit_char(n % 10)]
}

/// The clock face for a number of seconds: `MM:SS` below an hour, `H:MM:SS`
/// from an hour on, with the hours unpadded and the minutes and seconds
/// always in two digits.
pub open spec fn clock_text(seconds: nat) -> Seq<char> {
    let hours = seconds / 3600;
    let minutes = seconds % 3600 / 60;
    let rest = seconds % 60;
    if hours > 0 {
        decimal(hours) + seq![':'] + two_digits(minutes) + seq![':'] + two_digits(rest)
    } else {
        two_digits(minutes) + seq![':'] + two_digits(rest)
    }
}

/// Ten to the power of `exponent`.
pub open spec fn power_of_ten(exponent: nat) -> nat
    decreases exponent,
{
    if exponent == 0 {
        1
    } else {
        10 * power_of_ten((exponent - 1) as nat)
    }
}

/// An unpadded number is written in digits only, and in no more of them
/// than its size calls for.
pub proof fn lemma_decimal_shape(n: nat, digits: nat)
    requires
        digits >= 1,
        n < power_of_ten(digits),
    ensures
        1 <= decimal(n).len() <= digits,
        forall|i: int| 0 <= i < decimal(n).len() ==> '0' <= #[trigger] decimal(n)[i] <= '9',
    decreases n,
{
    if n >= 10 {
        if digits == 1 {
            assert(power_of_ten(1) == 10) by {
                reveal_with_fuel(power_of_ten, 2);
            }
        } else {
            lemma_decimal_shape(n / 10, (digits - 1) as nat);
        }
    }
}

/// An unpadded number starts with a zero only if it is zero.
pub proof fn lemma_decimal_unpadded(n: nat)
    ensures
        decimal(n).len() >= 1,
        decimal(n)[0] == '0' <==> n == 0,
    decreases n,
{
    if n >= 10 {
        lemma_decimal_unpadded(n / 10);
    }
}

/// Below an hour the clock face is exactly five characters: two digits of
/// minutes, a colon, two digits of seconds.
pub proof fn lemma_clock_text_below_an_hour(seconds: nat)
    requires
        seconds < 3600,
    ensures
        clock_text(seconds) == seq![
            digit_char(seconds / 60 / 10),
            digit_char(seconds / 60 % 10),
            ':',
            digit_char(seconds % 60 / 10),
            digit_char(seconds % 60 % 10),
        ],
{
    assert(clock_text(seconds) =~= seq![
        digit_char(seconds / 60 / 10),
        digit_char(seconds / 60 % 10),
        ':',
        digit_char(seconds % 60 / 10),
        digit_char(seconds % 60 % 10),
    ]);
}

/// From an hour on the clock face is the hours, written without a leading
/// zero, and after them a colon, two digits of minutes, a colon and two
/// digits of seconds.
pub proof fn lemma_clock_text_from_an_hour(seconds: nat)
    requires
        seconds >= 3600,
    ensures
        clock_text(seconds).len() == decimal(seconds / 3600).len() + 6,
        clock_text(seconds).subrange(0, decimal(seconds / 3600).len() as int) == decimal(
            seconds / 3600,
        ),
        clock_text(seconds).subrange(
            decimal(seconds / 3600).len() as int,
            clock_text(seconds).len() as int,
        ) == seq![
            ':',
            digit_char(seconds % 3600 / 60 / 10),
            digit_char(seconds % 3600 / 60 % 10),
            ':',
            digit_char(seconds % 60 / 10),
            digit_char(seconds % 60 % 10),
        ],
        clock_text(seconds)[0] != '0',
{
    let hours = decimal(seconds / 3600);
    let text = clock_text(seconds);
    assert(text.subrange(0, hours.len() as int) =~= hours);
    assert(text.subrange(hours.len() as int, text.len() as int) =~= seq![
        ':',
        digit_char(seconds % 3600 / 60 / 10),
        digit_char(seconds % 3600 / 60 % 10),
        ':',
        digit_char(seconds % 60 / 10),
        digit_char(seconds % 60 % 10),
    ]);
    lemma_decimal_unpadded(seconds / 3600);
}

/// The clock face for a number of seconds that fits in 64 bits is at most
/// 26 characters long.
pub proof fn lemma_clock_text_is_short(seconds: nat)
    requires
        seconds <= u64::MAX,
    ensures
        5 <= clock_text(seconds).len() <= 26,
{
    assert(power_of_ten(20) == 100_000_000_000_000_000_000) by {
        reveal_with_fuel(power_of_ten, 21);
    }
    lemma_decimal_shape(seconds / 3600, 20);
}

/// The character for a digit.
fn digit(d: usize) -> (c: char)
    requires
        d < 10,
    ensures
        c == digit_char(d as nat),
{
    ('0' as u8 + d as u8) as char
}

/// Appends a number in decimal, unpadded.
fn push_decimal(out: &mut String, n: usize)
    ensures
        final(out)@ == old(out)@ + decimal(n as nat),
    decreases n,
{
    if n >= 10 {
        push_decimal(out, n / 10);
    }
    out.push(digit(n % 10));
    assert(out@ =~= old(out)@ + decimal(n as nat));
}

/// Appends a number below a hundred in two digits.
fn push_two_digits(out: &mut String, n: usize)
    requires
        n < 100,
    ensures
        final(out)@ == old(out)@ + two_digits(n as nat),
{
    out.push(digit(n / 10));
    out.push(digit(n % 10));
    assert(out@ =~= old(out)@ + two_digits(n as nat));
}

/// Writes a number of seconds as it stands on the clock face.
pub fn format(s: usize) -> (text: String)
    ensures
        text@ == clock_text(s as nat),
{
    let hours = s / SECONDS_IN_HOUR;
    let minutes = s % SECONDS_IN_HOUR / SECONDS_IN_MINUTE;
    let seconds = s % SECONDS_IN_MINUTE;
    let mut text = String::new();
    if hours > 0 {
        push_decimal(&mut text, hours);
        text.push(':');
    }
    push_two_digits(&mut text, minutes);
    text.push(':');
    push_two_digits(&mut text, seconds);
    assert(text@ =~= clock_text(s as nat));
    text
}

} // verus!
