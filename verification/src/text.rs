//! Texts: their comparison, and numbers in decimal digits.

use vstd::prelude::*;
use vstd::string::{StrSliceExecFns, StringExecFns};

verus! {

/// Tells whether two texts are the same.
pub fn str_eq(a: &str, b: &str) -> (same: bool)
    ensures
        same == (a@ == b@),
{
    let len = a.unicode_len();
    if len != b.unicode_len() {
        return false;
    }
    let mut i: usize = 0;
    while i < len
        invariant
            i <= len == a@.len() == b@.len(),
            forall|k: int| 0 <= k < i ==> a@[k] == b@[k],
        decreases len - i,
    {
        if a.get_char(i) != b.get_char(i) {
            return false;
        }
        i += 1;
    }
    assert(a@ =~= b@);
    true
}

/// Finds the first place of a character in a text.
pub fn find_char(text: &str, from: usize, len: usize, c: char) -> (found: Option<usize>)
    requires
        from <= len == text@.len(),
    ensures
        match found {
            Some(i) => from <= i < len && text@[i as int] == c && forall|k: int|
                from <= k < i ==> text@[k] != c,
            None => forall|k: int| from <= k < len ==> text@[k] != c,
        },
{
    let mut i: usize = from;
    while i < len
        invariant
            from <= i <= len == text@.len(),
            forall|k: int| from <= k < i ==> text@[k] != c,
        decreases len - i,
    {
        if text.get_char(i) == c {
            return Some(i);
        }
        i += 1;
    }
    None
}

/// The character of a decimal digit.
pub open spec fn digit_char(digit: nat) -> char {
    if digit == 0 {
        '0'
    } else if digit == 1 {
        '1'
    } else if digit == 2 {
        '2'
    } else if digit == 3 {
        '3'
    } else if digit == 4 {
        '4'
    } else if digit == 5 {
        '5'
    } else if digit == 6 {
        '6'
    } else if digit == 7 {
        '7'
    } else if digit == 8 {
        '8'
    } else {
        '9'
    }
}

/// The decimal digits of a number, without leading zeros.
pub open spec fn decimal(number: nat) -> Seq<char>
    decreases number,
{
    if number < 10 {
        seq![digit_char(number)]
    } else {
        decimal(number / 10).push(digit_char(number % 10))
    }
}

/// The text of a decimal digit.
fn digit_str(digit: u16) -> (text: &'static str)
    requires
        digit < 10,
    ensures
        text@ == seq![digit_char(digit as nat)],
{
    proof {
        reveal_strlit("0");
        reveal_strlit("1");
        reveal_strlit("2");
        reveal_strlit("3");
        reveal_strlit("4");
        reveal_strlit("5");
        reveal_strlit("6");
        reveal_strlit("7");
        reveal_strlit("8");
        reveal_strlit("9");
    }
    let text = match digit {
        0 => "0",
        1 => "1",
        2 => "2",
        3 => "3",
        4 => "4",
        5 => "5",
        6 => "6",
        7 => "7",
        8 => "8",
        _ => "9",
    };
    assert(text@ =~= seq![digit_char(digit as nat)]);
    text
}

/// Appends the decimal digits of a number to a text.
pub fn push_decimal(out: &mut String, number: u16)
    ensures
        final(out)@ == old(out)@ + decimal(number as nat),
    decreases number,
{
    if number >= 10 {
        push_decimal(out, number / 10);
    }
    out.append(digit_str(number % 10));
    assert(out@ =~= old(out)@ + decimal(number as nat));
}

/// The value of a decimal digit.
pub open spec fn digit_value(c: char) -> Option<nat> {
    if c == '0' {
        Some(0)
    } else if c == '1' {
        Some(1)
    } else if c == '2' {
        Some(2)
    } else if c == '3' {
        Some(3)
    } else if c == '4' {
        Some(4)
    } else if c == '5' {
        Some(5)
    } else if c == '6' {
        Some(6)
    } else if c == '7' {
        Some(7)
    } else if c == '8' {
        Some(8)
    } else if c == '9' {
        Some(9)
    } else {
        None
    }
}

/// The number which decimal digits stand for; nothing for an empty text and for a text with
/// anything but digits in it.
pub open spec fn decimal_value(text: Seq<char>) -> Option<nat>
    decreases text.len(),
{
    if text.len() == 0 {
        None
    } else if text.len() == 1 {
        digit_value(text[0])
    } else {
        match (decimal_value(text.drop_last()), digit_value(text.last())) {
            (Some(high), Some(digit)) => Some(10 * high + digit),
            _ => None,
        }
    }
}

/// The number of 16 bits which a text stands for in decimal digits, where it stands for one.
pub open spec fn decimal_u16(text: Seq<char>) -> Option<u16> {
    match decimal_value(text) {
        Some(value) => if value <= u16::MAX {
            Some(value as u16)
        } else {
            None
        },
        None => None,
    }
}

/// The decimal digits of a number stand for the number.
pub proof fn lemma_decimal_value(number: nat)
    ensures
        decimal_value(decimal(number)) == Some(number),
        decimal(number).len() > 0,
    decreases number,
{
    if number >= 10 {
        lemma_decimal_value(number / 10);
        let digits = decimal(number);
        assert(digits.drop_last() =~= decimal(number / 10));
        assert(digits.last() == digit_char(number % 10));
    }
}

/// The digits of a text which stands for a number stand, as far as they go, for a number which
/// is not larger.
pub proof fn lemma_decimal_value_prefix(text: Seq<char>, upto: int)
    requires
        0 < upto <= text.len(),
        decimal_value(text) is Some,
    ensures
        decimal_value(text.take(upto)) is Some,
        decimal_value(text.take(upto))->Some_0 <= decimal_value(text)->Some_0,
    decreases text.len(),
{
    if upto < text.len() {
        assert(text.drop_last().take(upto) =~= text.take(upto));
        lemma_decimal_value_prefix(text.drop_last(), upto);
    } else {
        assert(text.take(upto) =~= text);
    }
}

/// The value of a decimal digit.
fn digit_of(c: char) -> (digit: Option<u32>)
    ensures
        match digit {
            Some(d) => digit_value(c) == Some(d as nat) && d < 10,
            None => digit_value(c) is None,
        },
{
    if c == '0' {
        Some(0)
    } else if c == '1' {
        Some(1)
    } else if c == '2' {
        Some(2)
    } else if c == '3' {
        Some(3)
    } else if c == '4' {
        Some(4)
    } else if c == '5' {
        Some(5)
    } else if c == '6' {
        Some(6)
    } else if c == '7' {
        Some(7)
    } else if c == '8' {
        Some(8)
    } else if c == '9' {
        Some(9)
    } else {
        None
    }
}

/// Reads a number of 16 bits in decimal digits.
pub fn parse_u16(text: &str) -> (pos: Option<u16>)
    ensures
        pos == decimal_u16(text@),
{
    let len = text.unicode_len();
    if len == 0 {
        return None;
    }
    let mut value: u32 = 0;
    let mut i: usize = 0;
    while i < len
        invariant
            i <= len == text@.len(),
            value <= u16::MAX,
            i > 0 ==> decimal_value(text@.take(i as int)) == Some(value as nat),
            i == 0 ==> value == 0,
        decreases len - i,
    {
        let ghost before = text@.take(i as int);
        let ghost now = text@.take(i + 1);
        proof {
            assert(now.drop_last() =~= before);
            assert(now.last() == text@[i as int]);
        }
        let digit = match digit_of(text.get_char(i)) {
            Some(d) => d,
            None => {
                proof {
                    if decimal_value(text@) is Some {
                        lemma_decimal_value_prefix(text@, i + 1);
                    }
                }
                return None;
            },
        };
        value = 10 * value + digit;
        if value > 0xFFFF {
            proof {
                if decimal_value(text@) is Some {
                    lemma_decimal_value_prefix(text@, i + 1);
                }
            }
            return None;
        }
        i += 1;
    }
    assert(text@.take(len as int) =~= text@);
    Some(value as u16)
}

} // verus!
