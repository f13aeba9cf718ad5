//! Whole numbers as decimal text.

use vstd::prelude::*;

verus! {

pub open spec fn is_digit(c: char) -> bool {
    '0' <= c <= '9'
}

/// What a digit counts for.
pub open spec fn digit_value(c: char) -> nat {
    (c as int - '0' as int) as nat
}

/// A text without its leading sign, if it has one.
pub open spec fn unsigned(text: Seq<char>) -> Seq<char> {
    if text.len() > 0 && (text[0] == '+' || text[0] == '-') {
        text.skip(1)
    } else {
        text
    }
}

pub open spec fn all_digits(text: Seq<char>) -> bool {
    forall|i: int| 0 <= i < text.len() ==> is_digit(#[trigger] text[i])
}

/// The number that a row of digits writes, the first digit counting most.
pub open spec fn digits_value(digits: Seq<char>) -> nat
    decreases digits.len(),
{
    if digits.len() == 0 {
        0
    } else {
        digits_value(digits.drop_last()) * 10 + digit_value(digits.last())
    }
}

/// The whole number that a text writes: an optional sign and then digits,
/// at least one and nothing else, whose value fits in 64 bits.
pub open spec fn number(text: Seq<char>) -> Option<i64> {
    let digits = unsigned(text);
    let value = if text.len() > 0 && text[0] == '-' {
        -(digits_value(digits) as int)
    } else {
        digits_value(digits) as int
    };
    if digits.len() > 0 && all_digits(digits) && i64::MIN <= value <= i64::MAX {
        Some(value as i64)
    } else {
        None
    }
}

fn digit_of(c: char) -> (value: Option<u64>)
    ensures
        match value {
            Some(value) => is_digit(c) && value == digit_value(c),
            None => !is_digit(c),
        },
{
    if '0' <= c && c <= '9' {
        Some((c as u32 - '0' as u32) as u64)
    } else {
        None
    }
}

/// Reads a whole number from its decimal text.
pub fn parse_i64(text: &str) -> (parsed: Option<i64>)
    ensures
        parsed == number(text@),
{
    let mut negative = false;
    let mut at_start = true;
    let mut any_digit = false;
    let mut overflow = false;
    let mut magnitude: u64 = 0;
    for c in it: text.chars()
        invariant
            it.seq() == text@,
            at_start == (it.index() == 0),
            negative == (it.index() > 0 && text@[0] == '-'),
            unsigned(text@.take(it.index() as int)) == unsigned(text@).take(
                unsigned(text@.take(it.index() as int)).len() as int,
            ),
            all_digits(unsigned(text@.take(it.index() as int))),
            any_digit == (unsigned(text@.take(it.index() as int)).len() > 0),
            magnitude <= 0x8000_0000_0000_0000,
            !overflow ==> magnitude == digits_value(unsigned(text@.take(it.index() as int))),
            overflow ==> digits_value(unsigned(text@.take(it.index() as int)))
                > 0x8000_0000_0000_0000,
    {
        let ghost seen = text@.take(it.index() as int);
        let ghost next = text@.take(it.index() + 1);
        if at_start && (c == '-' || c == '+') {
            negative = c == '-';
        } else {
            assert(unsigned(next).drop_last() =~= unsigned(seen));
            assert(unsigned(text@)[unsigned(seen).len() as int] == c);
            assert(unsigned(next) =~= unsigned(text@).take(unsigned(next).len() as int));
            match digit_of(c) {
                Some(digit) => {
                    if !overflow {
                        if magnitude > (0x8000_0000_0000_0000 - digit) / 10 {
                            overflow = true;
                        } else {
                            magnitude = magnitude * 10 + digit;
                        }
                    }
                    any_digit = true;
                },
                None => {
                    return None;
                },
            }
        }
        at_start = false;
    }
    assert(unsigned(text@).take(unsigned(text@).len() as int) =~= unsigned(text@));
    if !any_digit || overflow {
        None
    } else if negative {
        if magnitude == 0x8000_0000_0000_0000 {
            Some(i64::MIN)
        } else {
            Some(-(magnitude as i64))
        }
    } else if magnitude > 0x7fff_ffff_ffff_ffff {
        None
    } else {
        Some(magnitude as i64)
    }
}

/// `String::push`: the character is appended.
#[verifier::external_body]
pub(crate) fn push_char(text: &mut String, c: char)
    ensures
        final(text)@ == old(text)@.push(c),
{
    text.push(c)
}

/// The digit that counts for `value`.
pub open spec fn digit_char(value: nat) -> char {
    ('0' as int + value) as char
}

/// The digits that write a number, without leading zeros; zero is `0`.
pub open spec fn digits_of(n: nat) -> Seq<char>
    decreases n,
{
    if n < 10 {
        seq![digit_char(n)]
    } else {
        digits_of(n / 10).push(digit_char(n % 10))
    }
}

/// The text that writes a whole number: its digits, after a minus sign if
/// it is negative.
pub open spec fn text_of(n: int) -> Seq<char> {
    if n < 0 {
        seq!['-'] + digits_of((-n) as nat)
    } else {
        digits_of(n as nat)
    }
}

/// The digits of a number are digits, at least one, and write that number.
pub proof fn lemma_digits_of(n: nat)
    ensures
        digits_of(n).len() > 0,
        all_digits(digits_of(n)),
        digits_value(digits_of(n)) == n,
    decreases n,
{
    if n < 10 {
        assert(digits_value(digits_of(n).drop_last()) == 0);
    } else {
        lemma_digits_of(n / 10);
        assert(digits_of(n).drop_last() =~= digits_of(n / 10));
    }
}

/// A whole number that is written and read again is the same number.
pub proof fn lemma_written_number_reads_back(n: i64)
    ensures
        number(text_of(n as int)) == Some(n),
{
    let text = text_of(n as int);
    if n < 0 {
        let digits = digits_of((-n) as nat);
        lemma_digits_of((-n) as nat);
        assert(unsigned(text) =~= digits);
    } else {
        lemma_digits_of(n as nat);
    }
}

fn char_of(value: u64) -> (c: char)
    requires
        value < 10,
    ensures
        c == digit_char(value as nat),
{
    (value as u8 + 48) as char
}

/// Appends the digits of a number to a text.
pub(crate) fn push_digits(text: &mut String, n: u64)
    ensures
        final(text)@ == old(text)@ + digits_of(n as nat),
    decreases n,
{
    if n >= 10 {
        push_digits(text, n / 10);
    }
    push_char(text, char_of(n % 10));
}

/// Writes a whole number as decimal text.
pub fn format_i64(n: i64) -> (text: String)
    ensures
        text@ == text_of(n as int),
        number(text@) == Some(n),
{
    let mut text = String::new();
    let magnitude: u64 = if n < 0 {
        push_char(&mut text, '-');
        if n == i64::MIN {
            0x8000_0000_0000_0000
        } else {
            (-n) as u64
        }
    } else {
        n as u64
    };
    push_digits(&mut text, magnitude);
    proof {
        lemma_written_number_reads_back(n);
    }
    text
}

} // verus!
