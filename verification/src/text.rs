use vstd::prelude::*;
use vstd::string::{StrSliceExecFns, StringExecFns};

verus! {

/// The character of the decimal digit `digit`.
pub open spec fn digit_char(digit: int) -> char {
    if digit == 0 {
        '0'
    } else if digit == 1 {
        '1'
    } else if digit == 2 {
        '2'
    } else if digit == 3 {
        '3'
    } else if digit == 4 {
        '4'
    } else if digit == 5 {
        '5'
    } else if digit == 6 {
        '6'
    } else if digit == 7 {
        '7'
    } else if digit == 8 {
        '8'
    } else {
        '9'
    }
}

/// The decimal digits of a number that is not negative, without zeros in
/// front.
pub open spec fn decimal_text(number: int) -> Seq<char>
    decreases number,
{
    if number < 10 {
        seq![digit_char(number)]
    } else {
        decimal_text(number / 10).push(digit_char(number % 10))
    }
}

/// The decimal digits of a number, after a minus sign where it is negative.
pub open spec fn signed_text(number: int) -> Seq<char> {
    if number < 0 {
        seq!['-'] + decimal_text(-number)
    } else {
        decimal_text(number)
    }
}

/// One decimal digit as text.
pub(crate) fn digit_text(digit: u64) -> (text: &'static str)
    requires
        digit < 10,
    ensures
        text@ == seq![digit_char(digit as int)],
{
    proof {
        reveal_strlit("0");
        reveal_strlit("1");
        reveal_strlit("2");
        reveal_strlit("3");
        reveal_strlit("4");
        reveal_strlit("5");
        reveal_strlit("6");
        reveal_strlit("7");
        reveal_strlit("8");
        reveal_strlit("9");
    }
    let text = if digit == 0 {
        "0"
    } else if digit == 1 {
        "1"
    } else if digit == 2 {
        "2"
    } else if digit == 3 {
        "3"
    } else if digit == 4 {
        "4"
    } else if digit == 5 {
        "5"
    } else if digit == 6 {
        "6"
    } else if digit == 7 {
        "7"
    } else if digit == 8 {
        "8"
    } else {
        "9"
    };
    assert(text@ =~= seq![digit_char(digit as int)]);
    text
}

/// Writes a number in decimal.
pub fn decimal(number: u64) -> (text: String)
    ensures
        text@ == decimal_text(number as int),
    decreases number,
{
    if number < 10 {
        String::from_str(digit_text(number))
    } else {
        let mut text = decimal(number / 10);
        text.append(digit_text(number % 10));
        assert(text@ =~= decimal_text(number as int));
        text
    }
}

/// Writes a number in decimal, with a minus sign where it is negative.
pub fn signed(number: i64) -> (text: String)
    ensures
        text@ == signed_text(number as int),
{
    if number >= 0 {
        decimal(number as u64)
    } else {
        proof {
            reveal_strlit("-");
        }
        let magnitude: u64 = (0 - (number as i128)) as u64;
        let mut text = String::from_str("-");
        let digits = decimal(magnitude);
        text.append(digits.as_str());
        assert(text@ =~= signed_text(number as int));
        text
    }
}

/// Whether `c` is a decimal digit.
pub open spec fn is_digit(c: char) -> bool {
    0x30 <= c as u32 <= 0x39
}

/// The value of the decimal digit `c`.
pub open spec fn digit_value(c: char) -> int {
    (c as u32) as int - 0x30
}

/// Every character of `text` is a decimal digit.
pub open spec fn all_digits(text: Seq<char>) -> bool {
    forall|i: int| 0 <= i < text.len() ==> is_digit(#[trigger] text[i])
}

/// The number that the decimal digits `digits` write.
pub open spec fn digits_value(digits: Seq<char>) -> int
    decreases digits.len(),
{
    if digits.len() == 0 {
        0
    } else {
        digits_value(digits.drop_last()) * 10 + digit_value(digits.last())
    }
}

/// The digits of `text`: what follows its sign, where it has one.
pub open spec fn digits_of(text: Seq<char>) -> Seq<char> {
    if text.len() > 0 && (text[0] == '-' || text[0] == '+') {
        text.skip(1)
    } else {
        text
    }
}

/// The number that `text` writes in decimal: an optional `+` or `-` and
/// then at least one digit, with nothing before, between or after. `None`
/// for any other text.
pub open spec fn number_of(text: Seq<char>) -> Option<int> {
    let digits = digits_of(text);
    if digits.len() > 0 && all_digits(digits) {
        if text[0] == '-' {
            Some(-digits_value(digits))
        } else {
            Some(digits_value(digits))
        }
    } else {
        None
    }
}

/// The `i32` that `text` writes in decimal; `None` where `text` writes no
/// number or one that an `i32` cannot hold.
pub open spec fn parsed_i32(text: Seq<char>) -> Option<i32> {
    match number_of(text) {
        Some(value) => if i32::MIN <= value <= i32::MAX {
            Some(value as i32)
        } else {
            None
        },
        None => None,
    }
}

/// The digits written so far never write more than all the digits do.
pub proof fn lemma_digits_value_grows(digits: Seq<char>, n: int)
    requires
        all_digits(digits),
        0 <= n <= digits.len(),
    ensures
        0 <= digits_value(digits.take(n)) <= digits_value(digits),
    decreases digits.len(),
{
    if digits.len() == 0 {
        assert(digits.take(n) =~= digits);
    } else if n == digits.len() {
        assert(digits.take(n) =~= digits);
        assert(all_digits(digits.drop_last())) by {
            assert forall|i: int| 0 <= i < digits.drop_last().len() implies is_digit(
                #[trigger] digits.drop_last()[i],
            ) by {
                assert(is_digit(digits[i]));
            }
        }
        lemma_digits_value_grows(digits.drop_last(), n - 1);
        assert(is_digit(digits[digits.len() - 1]));
    } else {
        assert(all_digits(digits.drop_last())) by {
            assert forall|i: int| 0 <= i < digits.drop_last().len() implies is_digit(
                #[trigger] digits.drop_last()[i],
            ) by {
                assert(is_digit(digits[i]));
            }
        }
        assert(digits.drop_last().take(n) =~= digits.take(n));
        lemma_digits_value_grows(digits.drop_last(), n);
        assert(is_digit(digits[digits.len() - 1]));
    }
}

/// Reads an `i32` written in decimal, as `number_of` and the range of
/// `i32` allow it.
pub fn parse_i32(text: &str) -> (parsed: Option<i32>)
    ensures
        parsed == parsed_i32(text@),
{
    let len = text.unicode_len();
    if len == 0 {
        return None;
    }
    let first = text.get_char(0);
    let negative = first == '-';
    let start: usize = if first == '-' || first == '+' {
        1
    } else {
        0
    };
    let ghost digits = digits_of(text@);
    proof {
        assert(digits =~= text@.skip(start as int));
        assert(digits.take(0) =~= Seq::<char>::empty());
    }
    if start == len {
        return None;
    }
    let mut value: i64 = 0;
    let mut i: usize = start;
    while i < len
        invariant
            start <= i <= len,
            start < len,
            len == text@.len(),
            digits == text@.skip(start as int),
            digits == digits_of(text@),
            negative == (text@[0] == '-'),
            all_digits(digits.take(i - start)),
            value == digits_value(digits.take(i - start)),
            0 <= value <= 0x8000_0000,
        decreases len - i,
    {
        let c = text.get_char(i);
        let code = c as u32;
        let ghost seen = digits.take(i - start + 1);
        proof {
            assert(digits[i - start] == c);
            assert(seen.drop_last() =~= digits.take(i - start));
            assert(seen.last() == c);
        }
        if code < 0x30 || code > 0x39 {
            assert(!is_digit(digits[i - start]));
            return None;
        }
        value = value * 10 + (code - 0x30) as i64;
        proof {
            assert(all_digits(seen)) by {
                assert forall|k: int| 0 <= k < seen.len() implies is_digit(#[trigger] seen[k]) by {
                    if k < i - start {
                        assert(is_digit(digits.take(i - start)[k]));
                    }
                }
            }
            assert(value == digits_value(seen));
        }
        if value > 0x8000_0000 {
            proof {
                if all_digits(digits) {
                    lemma_digits_value_grows(digits, i - start + 1);
                }
            }
            return None;
        }
        i = i + 1;
    }
    proof {
        assert(digits.take(len - start) =~= digits);
    }
    if negative {
        Some((0 - value) as i32)
    } else if value > 0x7FFF_FFFF {
        None
    } else {
        Some(value as i32)
    }
}

/// The decimal digits of a number that is not negative are digits, at
/// least one of them, and write that number.
pub proof fn lemma_decimal_text_reads_back(number: int)
    requires
        number >= 0,
    ensures
        decimal_text(number).len() > 0,
        all_digits(decimal_text(number)),
        digits_value(decimal_text(number)) == number,
    decreases number,
{
    let text = decimal_text(number);
    if number < 10 {
        assert(text.drop_last() =~= Seq::<char>::empty());
        assert(text.last() == digit_char(number));
        assert(digits_value(text.drop_last()) == 0);
    } else {
        lemma_decimal_text_reads_back(number / 10);
        assert(text.drop_last() =~= decimal_text(number / 10));
        assert(text.last() == digit_char(number % 10));
        assert forall|i: int| 0 <= i < text.len() implies is_digit(#[trigger] text[i]) by {
            if i < text.len() - 1 {
                assert(text[i] == decimal_text(number / 10)[i]);
            }
        }
    }
}

/// What `signed` writes, `parse_i32` reads back.
pub proof fn law_written_numbers_read_back(number: i32)
    ensures
        parsed_i32(signed_text(number as int)) == Some(number),
{
    let text = signed_text(number as int);
    if number < 0 {
        lemma_decimal_text_reads_back(-(number as int));
        assert(text[0] == '-');
        assert(text.skip(1) =~= decimal_text(-(number as int)));
    } else {
        lemma_decimal_text_reads_back(number as int);
        assert(is_digit(text[0]));
    }
}

} // verus!
