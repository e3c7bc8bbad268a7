//! Numbers in decimal notation.
use vstd::prelude::*;

verus! {

/// The character of a digit below ten.
pub open spec fn digit_char(digit: nat) -> char {
    ((0x30 + digit) as u32) as char
}

/// Whether `c` is an ASCII digit.
pub open spec fn is_digit(c: char) -> bool {
    '0' <= c <= '9'
}

/// The digit that `c` stands for.
pub open spec fn digit_of(c: char) -> nat {
    ((c as u32) - 0x30) as nat
}

/// `number` in decimal notation, without leading zeros.
pub open spec fn decimal(number: nat) -> Seq<char>
    decreases number,
{
    if number < 10 {
        seq![digit_char(number)]
    } else {
        decimal(number / 10).push(digit_char(number % 10))
    }
}

/// `number` in decimal notation, with a minus sign where it is below zero.
pub open spec fn signed_decimal(number: int) -> Seq<char> {
    if number < 0 {
        seq!['-'] + decimal((-number) as nat)
    } else {
        decimal(number as nat)
    }
}

/// The number that a row of digits stands for.
pub open spec fn digits_value(digits: Seq<char>) -> nat
    decreases digits.len(),
{
    if digits.len() == 0 {
        0
    } else {
        digits_value(digits.drop_last()) * 10 + digit_of(digits.last())
    }
}

/// Whether `text` is one digit or more, and nothing else.
pub open spec fn all_digits(text: Seq<char>) -> bool {
    text.len() > 0 && forall|i: int| 0 <= i < text.len() ==> is_digit(#[trigger] text[i])
}

/// The number that `text` spells: digits, with a plus sign before them or none.
pub open spec fn unsigned_value(text: Seq<char>) -> Option<nat> {
    let digits = if text.len() > 0 && text[0] == '+' {
        text.skip(1)
    } else {
        text
    };
    if all_digits(digits) {
        Some(digits_value(digits))
    } else {
        None
    }
}

/// Decimal notation is read back as the number that it was made from.
pub proof fn lemma_decimal_value(number: nat)
    ensures
        all_digits(decimal(number)),
        digits_value(decimal(number)) == number,
        unsigned_value(decimal(number)) == Some(number),
    decreases number,
{
    if number >= 10 {
        lemma_decimal_value(number / 10);
        let text = decimal(number);
        assert(text.drop_last() =~= decimal(number / 10));
        assert forall|i: int| 0 <= i < text.len() implies is_digit(#[trigger] text[i]) by {
            if i < text.len() - 1 {
                assert(text[i] == decimal(number / 10)[i]);
            }
        }
    } else {
        assert(decimal(number).drop_last() =~= Seq::empty());
        assert(digits_value(Seq::empty()) == 0);
    }
    assert(is_digit(decimal(number)[0]));
}

fn digit_char_exec(digit: u64) -> (c: char)
    requires
        digit < 10,
    ensures
        c == digit_char(digit as nat),
{
    let code: u8 = 0x30 + digit as u8;
    code as char
}

/// `number` in decimal notation.
pub fn decimal_exec(number: u64) -> (text: String)
    ensures
        text@ == decimal(number as nat),
    decreases number,
{
    if number < 10 {
        let mut text = String::new();
        text.push(digit_char_exec(number));
        assert(text@ =~= decimal(number as nat));
        text
    } else {
        let mut text = decimal_exec(number / 10);
        text.push(digit_char_exec(number % 10));
        text
    }
}

/// `number` in decimal notation, with its sign where it is below zero.
pub fn signed_decimal_exec(number: i64) -> (text: String)
    ensures
        text@ == signed_decimal(number as int),
{
    if number >= 0 {
        decimal_exec(number as u64)
    } else {
        let magnitude: u64 = if number == i64::MIN {
            0x8000_0000_0000_0000
        } else {
            (-number) as u64
        };
        let mut text = String::new();
        text.push('-');
        text.append(decimal_exec(magnitude).as_str());
        assert(text@ =~= signed_decimal(number as int));
        text
    }
}

/// The text of the error with which `str::parse::<u16>` refuses a text.
pub uninterp spec fn u16_error(text: Seq<char>) -> Seq<char>;

/// Calls `str::parse::<u16>`, which reads digits with an optional plus sign before them, and
/// refuses any other text and any number that does not fit. An error is given as the text that
/// it prints.
#[verifier::external_body]
pub(crate) fn parse_u16(text: &str) -> (number: Result<u16, String>)
    ensures
        match number {
            Ok(number) => unsigned_value(text@) == Some(number as nat),
            Err(message) => {
                &&& message@ == u16_error(text@)
                &&& unsigned_value(text@) matches Some(value) ==> value > u16::MAX
            },
        },
{
    text.parse::<u16>().map_err(|error| error.to_string())
}

/// The text of the error with which `str::parse::<usize>` refuses a text, where a `usize` has
/// `bits` bits.
pub uninterp spec fn usize_error(text: Seq<char>, bits: nat) -> Seq<char>;

/// Calls `str::parse::<usize>`, which reads digits with an optional plus sign before them, and
/// refuses any other text and any number that does not fit. An error is given as the text that
/// it prints, which depends on the text and on how many bits a `usize` has.
#[verifier::external_body]
pub(crate) fn parse_usize(text: &str) -> (number: Result<usize, String>)
    ensures
        match number {
            Ok(number) => unsigned_value(text@) == Some(number as nat),
            Err(message) => {
                &&& message@ == usize_error(text@, usize::BITS as nat)
                &&& unsigned_value(text@) matches Some(value) ==> value > usize::MAX
            },
        },
{
    text.parse::<usize>().map_err(|error| error.to_string())
}

// Laws.

/// A digit more to the right counts ten times what stands before it and its own value.
pub proof fn digits_count_by_their_place(digits: Seq<char>, digit: char)
    requires
        all_digits(digits),
        '0' <= digit <= '9',
    ensures
        digits_value(seq![digit]) == digit as u32 - '0' as u32,
        digits_value(digits.push(digit)) == 10 * digits_value(digits) + digits_value(seq![digit]),
{
    assert('0' as u32 == 48);
    assert(seq![digit].drop_last() =~= Seq::empty());
    assert(digits_value(Seq::empty()) == 0);
    assert(digits.push(digit).drop_last() =~= digits);
}

/// A text spells a number exactly where it is made of digits, after a plus sign or without one.
pub proof fn numbers_are_spelled_by_digits(text: Seq<char>)
    ensures
        unsigned_value(text) is Some <==> all_digits(text) || (text.len() > 0 && text[0] == '+'
            && all_digits(text.skip(1))),
        all_digits(text) ==> unsigned_value(text) == Some(digits_value(text)),
        text.len() > 0 && text[0] == '+' && all_digits(text.skip(1)) ==> unsigned_value(text)
            == Some(digits_value(text.skip(1))),
        all_digits(text) <==> text.len() > 0 && forall|i: int|
            0 <= i < text.len() ==> '0' <= #[trigger] text[i] <= '9',
{
    if all_digits(text) {
        assert(is_digit(text[0]));
    }
}

/// A number is written in one way: without zeros before it, and with a minus sign where it is
/// below zero.
pub proof fn numbers_are_written_in_one_way(number: nat, negative: int)
    requires
        negative < 0,
    ensures
        number > 0 ==> decimal(number)[0] != '0',
        number == 0 ==> decimal(number) == seq!['0'],
        signed_decimal(number as int) == decimal(number),
        signed_decimal(negative) == seq!['-'] + decimal((-negative) as nat),
    decreases number,
{
    if number >= 10 {
        numbers_are_written_in_one_way(number / 10, negative);
        lemma_decimal_value(number / 10);
        assert(decimal(number)[0] == decimal(number / 10)[0]);
    } else {
        assert('0' as u32 == 48);
        if number > 0 {
            assert(digit_char(number) as u32 == 48 + number);
        }
    }
}

} // verus!
