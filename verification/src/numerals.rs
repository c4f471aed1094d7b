//! Numbers in text: how ids and colors are read.

use vstd::prelude::*;
use crate::text::decimal_chars;

verus! {

/// The characters of a text, one by one.
pub fn characters(text: &str) -> (characters: Vec<char>)
    ensures
        characters@ == text@,
{
    let mut characters: Vec<char> = Vec::new();
    for character in it: text.chars()
        invariant
            it.seq() == text@,
            characters@ == text@.take(it.index() as int),
    {
        let ghost index = it.index() as int;
        characters.push(character);
        assert(characters@ =~= text@.take(index + 1));
    }
    assert(text@.take(text@.len() as int) =~= text@);
    characters
}

/// The value of a digit, in bases up to sixteen; letters of either case count on from ten.
pub open spec fn digit_value(character: char) -> Option<nat> {
    if '0' <= character <= '9' {
        Some((character as u32 - 48) as nat)
    } else if 'a' <= character <= 'f' {
        Some((character as u32 - 87) as nat)
    } else if 'A' <= character <= 'F' {
        Some((character as u32 - 55) as nat)
    } else {
        None
    }
}

/// Whether every character is a digit in this base.
pub open spec fn are_digits(characters: Seq<char>, base: nat) -> bool {
    forall|i: int|
        0 <= i < characters.len() ==> (digit_value(#[trigger] characters[i]) matches Some(value)
            && value < base)
}

/// The number some digits make in this base.
pub open spec fn digits_value(digits: Seq<char>, base: nat) -> nat
    decreases digits.len(),
{
    if digits.len() == 0 {
        0
    } else {
        digits_value(digits.drop_last(), base) * base + digit_value(digits.last())->0
    }
}

/// What a text says in this base: an optional plus sign, then at least one digit and
/// nothing else.
pub open spec fn number_in(text: Seq<char>, base: nat) -> Option<nat> {
    let digits = if text.len() > 0 && text[0] == '+' {
        text.drop_first()
    } else {
        text
    };
    if digits.len() > 0 && are_digits(digits, base) {
        Some(digits_value(digits, base))
    } else {
        None
    }
}

fn value_of_digit(character: char) -> (value: Option<u64>)
    ensures
        match value {
            Some(value) => digit_value(character) == Some(value as nat) && value < 16,
            None => digit_value(character) is None,
        },
{
    if '0' <= character && character <= '9' {
        Some((character as u32 - 48) as u64)
    } else if 'a' <= character && character <= 'f' {
        Some((character as u32 - 87) as u64)
    } else if 'A' <= character && character <= 'F' {
        Some((character as u32 - 55) as u64)
    } else {
        None
    }
}

proof fn lemma_more_digits_more_value(digits: Seq<char>, base: nat, n: int)
    requires
        0 <= n <= digits.len(),
        base >= 1,
    ensures
        digits_value(digits.take(n), base) <= digits_value(digits, base),
    decreases digits.len() - n,
{
    if n < digits.len() {
        lemma_more_digits_more_value(digits, base, n + 1);
        let longer = digits.take(n + 1);
        assert(longer.drop_last() =~= digits.take(n));
        let shorter = digits_value(digits.take(n), base);
        assert(shorter <= shorter * base) by (nonlinear_arith)
            requires
                base >= 1,
                shorter >= 0,
        ;
        assert(digits_value(longer, base) >= shorter * base);
    } else {
        assert(digits.take(n) =~= digits);
    }
}

/// The number a text says from `start` on, in this base, as long as it is at most
/// `limit`.
pub fn parse_number(text: &Vec<char>, start: usize, base: u64, limit: u64) -> (number: Option<u64>)
    requires
        start <= text@.len(),
        2 <= base <= 16,
    ensures
        match number_in(text@.skip(start as int), base as nat) {
            Some(value) => number == (if value <= limit {
                Some(value as u64)
            } else {
                None
            }),
            None => number is None,
        },
{
    let ghost said = text@.skip(start as int);
    let mut first: usize = start;
    if start < text.len() && text[start] == '+' {
        first = start + 1;
        assert(said.drop_first() =~= text@.skip(first as int));
    }
    let ghost digits = text@.skip(first as int);
    if first == text.len() {
        return None;
    }
    let mut value: u64 = 0;
    let mut i: usize = first;
    assert(digits.take(0) =~= Seq::<char>::empty());
    while i < text.len()
        invariant
            first <= i <= text.len(),
            first < text.len(),
            2 <= base <= 16,
            digits == text@.skip(first as int),
            said == text@.skip(start as int),
            digits == (if said.len() > 0 && said[0] == '+' {
                said.drop_first()
            } else {
                said
            }),
            are_digits(digits.take(i - first), base as nat),
            value == digits_value(digits.take(i - first), base as nat),
            value <= limit,
        decreases text.len() - i,
    {
        let ghost n = i - first;
        assert(text@[i as int] == digits[n]);
        let digit: u64 = match value_of_digit(text[i]) {
            Some(digit) => {
                if digit >= base {
                    assert(!are_digits(digits, base as nat));
                    return None;
                }
                digit
            },
            None => {
                assert(!are_digits(digits, base as nat));
                return None;
            },
        };
        proof {
            assert(digits.take(n + 1).drop_last() =~= digits.take(n));
            lemma_more_digits_more_value(digits, base as nat, n + 1);
            assert(value * base <= u64::MAX * 16) by (nonlinear_arith)
                requires
                    0 <= value <= u64::MAX,
                    0 <= base <= 16,
            ;
        }
        let next: u128 = value as u128 * base as u128 + digit as u128;
        assert(next == digits_value(digits.take(n + 1), base as nat));
        if next > limit as u128 {
            return None;
        }
        value = next as u64;
        i += 1;
        assert forall|j: int| 0 <= j < digits.take(n + 1).len() implies (digit_value(
            #[trigger] digits.take(n + 1)[j],
        ) matches Some(value) && value < base as nat) by {
            if j < n {
                assert(digits.take(n)[j] == digits.take(n + 1)[j]);
            }
        }
    }
    assert(digits.take(i - first) =~= digits);
    Some(value)
}

/// A digit counts what it is written as: the ten figures from nought up, then the letters
/// from ten up, small or capital. Nothing else is a digit.
pub proof fn digits_count_as_written(character: char)
    ensures
        '0' <= character <= '9' ==> digit_value(character) == Some(
            (character as int - '0' as int) as nat,
        ),
        'a' <= character <= 'f' ==> digit_value(character) == Some(
            (character as int - 'a' as int + 10) as nat,
        ),
        'A' <= character <= 'F' ==> digit_value(character) == Some(
            (character as int - 'A' as int + 10) as nat,
        ),
        digit_value(character) is Some ==> '0' <= character <= '9' || 'a' <= character <= 'f' || 'A'
            <= character <= 'F',
{
}

/// A number is read from its most significant digit: one more digit behind makes it the base
/// times as much, and the digit's own value more.
pub proof fn numbers_are_read_from_the_left(text: Seq<char>, digit: char, value: nat, base: nat)
    requires
        number_in(text, base) == Some(value),
        '0' <= digit <= '9',
        (digit as int) - ('0' as int) < base,
    ensures
        number_in(text.push(digit), base) == Some(
            value * base + (digit as int - '0' as int) as nat,
        ),
{
    let longer = text.push(digit);
    let digits = if text[0] == '+' {
        text.drop_first()
    } else {
        text
    };
    let more = if longer[0] == '+' {
        longer.drop_first()
    } else {
        longer
    };
    assert(more =~= digits.push(digit));
    assert(more.drop_last() =~= digits);
    assert forall|i: int| 0 <= i < more.len() implies (digit_value(#[trigger] more[i]) matches Some(
        worth,
    ) && worth < base) by {
        if i < digits.len() {
            assert(more[i] == digits[i]);
        }
    }
}

/// A text is a number just where, behind a plus sign it may start with, stands at least one
/// digit of the base and nothing else.
pub proof fn numbers_are_digits_alone(text: Seq<char>, base: nat)
    ensures
        text.len() == 0 ==> number_in(text, base) is None,
        text == seq!['+'] ==> number_in(text, base) is None,
        text.len() > 0 && text[0] != '+' ==> (number_in(text, base) is Some <==> (forall|i: int|
            0 <= i < text.len() ==> (digit_value(#[trigger] text[i]) matches Some(worth) && worth
                < base))),
        text.len() > 0 && text[0] != '+' ==> number_in(seq!['+'] + text, base) == number_in(
            text,
            base,
        ),
        text.len() > 0 && text[0] == '+' ==> number_in(seq!['+'] + text, base) is None,
{
    assert((seq!['+'] + text).drop_first() =~= text);
    if text == seq!['+'] {
        assert(text.drop_first().len() == 0);
    }
    if text.len() > 0 && text[0] == '+' {
        assert(digit_value(text[0]) is None);
        assert(!are_digits(text, base));
    }
}

/// A single digit is read as its value.
pub proof fn a_digit_is_a_number(digit: char, base: nat)
    requires
        digit_value(digit) matches Some(worth) && worth < base,
    ensures
        number_in(seq![digit], base) == digit_value(digit),
{
    let digits = seq![digit];
    assert(digits.drop_last() =~= Seq::<char>::empty());
    assert(digits_value(digits.drop_last(), base) == 0);
    assert(0 * base == 0) by (nonlinear_arith);
}

/// A number in decimal notation is read back as itself, and starts with nought only where it
/// is nought.
pub proof fn decimals_read_back(number: nat)
    ensures
        number_in(decimal_chars(number), 10) == Some(number),
        decimal_chars(number).len() > 0,
        decimal_chars(number)[0] == '0' <==> number == 0,
        decimal_chars(number)[0] != '+',
    decreases number,
{
    let last = ('0' as int + number % 10) as char;
    if number < 10 {
        a_digit_is_a_number(last, 10);
    } else {
        decimals_read_back(number / 10);
        numbers_are_read_from_the_left(decimal_chars(number / 10), last, number / 10, 10);
        assert(decimal_chars(number) =~= decimal_chars(number / 10).push(last));
    }
}

} // verus!
