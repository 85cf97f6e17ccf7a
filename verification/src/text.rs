//! Whole numbers as clients write them.

use vstd::prelude::*;
use vstd::string::StrSliceExecFns;

verus! {

/// Whether all of the letters are decimal digits.
pub open spec fn all_digits(letters: Seq<char>) -> bool {
    forall|i: int| 0 <= i < letters.len() ==> '0' <= #[trigger] letters[i] <= '9'
}

/// The number that decimal digits stand for.
pub open spec fn digits_value(digits: Seq<char>) -> int
    decreases digits.len(),
{
    if digits.len() == 0 {
        0
    } else {
        10 * digits_value(digits.drop_last()) + (digits.last() as int - '0' as int)
    }
}

/// The letters behind the sign, if there is one.
pub open spec fn unsigned_part(letters: Seq<char>) -> Seq<char> {
    if letters.len() > 0 && (letters[0] == '-' || letters[0] == '+') {
        letters.skip(1)
    } else {
        letters
    }
}

/// The number that letters stand for: an optional sign, then digits and
/// nothing else.
pub open spec fn number_of(letters: Seq<char>) -> Option<int> {
    let digits = unsigned_part(letters);
    if digits.len() == 0 || !all_digits(digits) {
        None
    } else if letters[0] == '-' {
        Some(-digits_value(digits))
    } else {
        Some(digits_value(digits))
    }
}

/// The number that letters stand for, if it has 32 bits.
pub open spec fn i32_of(letters: Seq<char>) -> Option<i32> {
    match number_of(letters) {
        Some(number) => if i32::MIN <= number <= i32::MAX {
            Some(number as i32)
        } else {
            None
        },
        None => None,
    }
}

/// More digits do not make a number smaller.
proof fn lemma_value_grows(digits: Seq<char>, count: int)
    requires
        all_digits(digits),
        0 <= count <= digits.len(),
    ensures
        0 <= digits_value(digits.take(count)) <= digits_value(digits),
    decreases digits.len() - count, digits.len(),
{
    if digits.len() == 0 {
        assert(digits.take(count) == digits);
    } else if count == digits.len() {
        assert(digits.take(count) == digits);
        lemma_value_nonnegative(digits);
    } else {
        lemma_value_grows(digits, count + 1);
        let more = digits.take(count + 1);
        assert(more.drop_last() == digits.take(count));
        lemma_value_nonnegative(digits.take(count));
    }
}

/// Digits stand for no negative number.
proof fn lemma_value_nonnegative(digits: Seq<char>)
    requires
        all_digits(digits),
    ensures
        0 <= digits_value(digits),
    decreases digits.len(),
{
    if digits.len() > 0 {
        lemma_value_nonnegative(digits.drop_last());
    }
}

/// The number that a text stands for, if it is one and has 32 bits.
pub fn parse_i32(text: &str) -> (number: Option<i32>)
    ensures
        number == i32_of(text@),
{
    let length = text.unicode_len();
    if length == 0 {
        return None;
    }
    let first = text.get_char(0);
    let start: usize = if first == '-' || first == '+' {
        1
    } else {
        0
    };
    let ghost digits = unsigned_part(text@);
    assert(digits == text@.skip(start as int));
    if start == length {
        return None;
    }
    let mut value: i64 = 0;
    let mut i: usize = start;
    while i < length
        invariant
            start <= i <= length,
            length == text@.len(),
            start <= 1,
            digits == text@.skip(start as int),
            digits == unsigned_part(text@),
            forall|j: int| 0 <= j < i - start ==> '0' <= #[trigger] digits[j] <= '9',
            value == digits_value(digits.take(i - start)),
            0 <= value <= 0x8000_0000,
        decreases length - i,
    {
        let letter = text.get_char(i);
        assert(digits[i - start] == letter);
        if letter < '0' || letter > '9' {
            assert(!all_digits(digits));
            return None;
        }
        assert(digits.take(i - start + 1).drop_last() == digits.take(i - start));
        value = value * 10 + (letter as u32 - '0' as u32) as i64;
        if value > 0x8000_0000 {
            proof {
                if all_digits(digits) {
                    lemma_value_grows(digits, i - start + 1);
                }
            }
            return None;
        }
        i = i + 1;
    }
    assert(digits.take(i - start) == digits);
    if first == '-' {
        Some((-value) as i32)
    } else if value <= 0x7fff_ffff {
        Some(value as i32)
    } else {
        None
    }
}

/// Digits are the letters from 0 to 9, and each stands for its distance from 0.
pub proof fn lemma_one_digit(letter: char)
    ensures
        '0' <= letter <= '9' ==> number_of(seq![letter]) == Some(letter as int - '0' as int),
        !('0' <= letter <= '9') ==> number_of(seq![letter]) is None,
{
    let letters = seq![letter];
    assert(letters.drop_last() == Seq::<char>::empty());
    assert(digits_value(Seq::<char>::empty()) == 0);
    assert(letters[0] == letter && letters.last() == letter);
    if letter == '-' || letter == '+' {
        assert(letters.skip(1).len() == 0);
    } else if !('0' <= letter <= '9') {
        assert(!all_digits(letters));
    }
}

/// One more digit makes a number ten times as large, and adds the digit, away
/// from zero; any other letter behind a number makes it none.
pub proof fn lemma_one_more_digit(letters: Seq<char>, letter: char)
    requires
        number_of(letters) is Some,
    ensures
        !('0' <= letter <= '9') ==> number_of(letters.push(letter)) is None,
        '0' <= letter <= '9' ==> number_of(letters.push(letter)) == Some(
            if letters[0] == '-' {
                10 * number_of(letters)->0 - (letter as int - '0' as int)
            } else {
                10 * number_of(letters)->0 + (letter as int - '0' as int)
            },
        ),
{
    let more = letters.push(letter);
    let digits = unsigned_part(letters);
    assert(letters.len() > 0);
    assert(more[0] == letters[0]);
    assert(unsigned_part(more) == digits.push(letter)) by {
        assert(letters.push(letter).skip(1) =~= letters.skip(1).push(letter));
    }
    let longer = digits.push(letter);
    assert(longer.drop_last() == digits);
    assert(longer.last() == letter);
    if '0' <= letter <= '9' {
        assert(all_digits(longer));
    } else {
        assert(longer[digits.len() as int] == letter);
        assert(!all_digits(longer));
    }
}

/// A minus in front of digits turns their number round, and a plus leaves it
/// as it is. No letters, a sign alone and two signs are no number.
pub proof fn lemma_signs(digits: Seq<char>)
    requires
        digits.len() == 0 || (digits[0] != '-' && digits[0] != '+'),
    ensures
        digits.len() == 0 ==> number_of(digits) is None,
        number_of(seq!['+'] + digits) == number_of(digits),
        match number_of(digits) {
            Some(number) => number_of(seq!['-'] + digits) == Some(-number),
            None => number_of(seq!['-'] + digits) is None,
        },
        number_of(seq!['-', '-'] + digits) is None,
        number_of(seq!['-', '+'] + digits) is None,
        number_of(seq!['+', '-'] + digits) is None,
        number_of(seq!['+', '+'] + digits) is None,
{
    assert((seq!['+'] + digits).skip(1) =~= digits);
    assert((seq!['-'] + digits).skip(1) =~= digits);
    lemma_two_signs('-', '-', digits);
    lemma_two_signs('-', '+', digits);
    lemma_two_signs('+', '-', digits);
    lemma_two_signs('+', '+', digits);
}

proof fn lemma_two_signs(first: char, second: char, digits: Seq<char>)
    requires
        first == '-' || first == '+',
        second == '-' || second == '+',
    ensures
        number_of(seq![first, second] + digits) is None,
{
    let letters = seq![first, second] + digits;
    assert(letters[0] == first);
    assert(letters.skip(1)[0] == second);
    assert(!all_digits(letters.skip(1)));
}

/// A number is read just where it has 32 bits, and then as it is.
pub proof fn lemma_read_number(letters: Seq<char>)
    ensures
        i32_of(letters) is Some <==> number_of(letters) is Some && -0x8000_0000 <= number_of(
            letters,
        )->0 <= 0x7fff_ffff,
        i32_of(letters) matches Some(number) ==> number == number_of(letters)->0,
{
}

} // verus!
