use vstd::prelude::*;
use vstd::std_specs::iter::IteratorSpec;

verus! {

/// Whether `c` is one of the digits 0 to 9.
pub open spec fn is_digit(c: char) -> bool {
    '0' as u32 <= c as u32 <= '9' as u32
}

/// The number that the decimal digits `digits` spell, leading zeros
/// allowed. There is none where a character is no digit.
pub open spec fn digits_value(digits: Seq<char>) -> Option<nat>
    decreases digits.len(),
{
    if digits.len() == 0 {
        Some(0)
    } else {
        match digits_value(digits.drop_last()) {
            Some(value) if is_digit(digits.last()) => Some(
                (value * 10 + (digits.last() as u32 - '0' as u32)) as nat,
            ),
            _ => None,
        }
    }
}

/// `text` without a plus sign at its front.
pub open spec fn unsigned_part(text: Seq<char>) -> Seq<char> {
    if text.len() > 0 && text[0] == '+' {
        text.drop_first()
    } else {
        text
    }
}

/// The year that `text` spells: a number of at least one decimal digit, a
/// plus sign before it allowed, that is no larger than 65535. Any other text
/// spells none.
pub open spec fn year_of(text: Seq<char>) -> Option<u16> {
    let digits = unsigned_part(text);
    if digits.len() == 0 {
        None
    } else {
        match digits_value(digits) {
            Some(value) if value <= u16::MAX => Some(value as u16),
            _ => None,
        }
    }
}

/// Digits that spell a number spell one up to every place, and a number that
/// is no larger.
pub proof fn lemma_digits_value_grows(digits: Seq<char>, upto: int)
    requires
        0 <= upto <= digits.len(),
        digits_value(digits) is Some,
    ensures
        digits_value(digits.subrange(0, upto)) matches Some(part) && part <= digits_value(
            digits,
        ).unwrap(),
    decreases digits.len(),
{
    if upto == digits.len() {
        assert(digits.subrange(0, upto) =~= digits);
    } else {
        lemma_digits_value_grows(digits.drop_last(), upto);
        assert(digits.drop_last().subrange(0, upto) =~= digits.subrange(0, upto));
    }
}

/// The character for the digit `digit`, which is less than ten.
pub open spec fn digit_char(digit: nat) -> char {
    ('0' as u32 + digit) as char
}

/// `n` written in decimal digits, without leading zeros.
pub open spec fn decimal_text(n: nat) -> Seq<char>
    decreases n,
{
    if n < 10 {
        seq![digit_char(n)]
    } else {
        decimal_text(n / 10).push(digit_char(n % 10))
    }
}

/// The decimal digits of a number spell that number.
pub proof fn lemma_digits_of_decimal_text(n: nat)
    ensures
        decimal_text(n).len() > 0,
        decimal_text(n)[0] != '+',
        digits_value(decimal_text(n)) == Some(n),
    decreases n,
{
    let text = decimal_text(n);
    if n < 10 {
        assert(text.drop_last() =~= Seq::<char>::empty());
        assert(digits_value(text.drop_last()) == Some(0nat));
        assert(text.last() == digit_char(n));
    } else {
        lemma_digits_of_decimal_text(n / 10);
        assert(text.drop_last() =~= decimal_text(n / 10));
        assert(text.last() == digit_char(n % 10));
        assert(text[0] == decimal_text(n / 10)[0]);
    }
}

/// A year that is written and read again is the same year.
pub proof fn lemma_year_read_back(year: u16)
    ensures
        year_of(decimal_text(year as nat)) == Some(year),
{
    lemma_digits_of_decimal_text(year as nat);
}

/// The character for the digit `digit`.
fn digit_of(digit: u16) -> (c: char)
    requires
        digit < 10,
    ensures
        c == digit_char(digit as nat),
{
    if digit == 0 {
        '0'
    } else if digit == 1 {
        '1'
    } else if digit == 2 {
        '2'
    } else if digit == 3 {
        '3'
    } else if digit == 4 {
        '4'
    } else if digit == 5 {
        '5'
    } else if digit == 6 {
        '6'
    } else if digit == 7 {
        '7'
    } else if digit == 8 {
        '8'
    } else {
        '9'
    }
}

/// Writes a year in decimal digits.
pub fn year_text(year: u16) -> (text: String)
    ensures
        text@ == decimal_text(year as nat),
{
    let mut digits: Vec<char> = Vec::new();
    let mut rest = year;
    assert(decimal_text(year as nat) + digits@.reverse() =~= decimal_text(year as nat));
    loop
        invariant_except_break
            decimal_text(year as nat) == decimal_text(rest as nat) + digits@.reverse(),
        ensures
            decimal_text(year as nat) == digits@.reverse(),
        decreases rest,
    {
        let ghost before = digits@;
        digits.push(digit_of(rest % 10));
        proof {
            assert(digits@.reverse() =~= seq![digit_char((rest % 10) as nat)] + before.reverse());
            assert(decimal_text(rest as nat) + before.reverse() =~= if rest < 10 {
                digits@.reverse()
            } else {
                decimal_text((rest / 10) as nat) + digits@.reverse()
            });

        }
        if rest < 10 {
            break ;
        }
        rest = rest / 10;
    }
    let mut text = String::new();
    let mut i: usize = digits.len();
    while i > 0
        invariant
            i <= digits@.len(),
            text@ == digits@.reverse().subrange(0, digits@.len() - i),
        decreases i,
    {
        i -= 1;
        let ghost before = text@;
        text.push(digits[i]);
        assert(text@ =~= digits@.reverse().subrange(0, digits@.len() - i));
    }
    assert(text@ =~= digits@.reverse());
    text
}

/// Reads a year from `text`.
pub fn parse_year(text: &str) -> (year: Option<u16>)
    ensures
        year == year_of(text@),
{
    broadcast use vstd::string::group_string_axioms;

    let mut it = text.chars();
    let first = match it.next() {
        Some(c) => c,
        None => {
            return None;
        },
    };
    let ghost digits = unsigned_part(text@);
    let ghost mut done: int = 0;
    let mut value: u32 = 0;
    let mut any_digit = false;
    if first != '+' {
        if !('0' as u32 <= first as u32 && first as u32 <= '9' as u32) {
            proof {
                assert(digits.subrange(0, 1).last() == first);
                assert(digits.subrange(0, 1).drop_last() =~= Seq::<char>::empty());
                if digits_value(digits) is Some {
                    lemma_digits_value_grows(digits, 1);
                }
            }
            return None;
        }
        value = first as u32 - '0' as u32;
        any_digit = true;
        proof {
            done = 1;
            assert(digits.subrange(0, 1).last() == first);
            assert(digits.subrange(0, 1).drop_last() =~= Seq::<char>::empty());
            assert(digits_value(Seq::<char>::empty()) == Some(0nat));
            assert(it.remaining() =~= digits.subrange(1, digits.len() as int));
        }
    } else {
        proof {
            assert(digits.subrange(0, 0) =~= Seq::<char>::empty());
            assert(it.remaining() =~= digits.subrange(0, digits.len() as int));
        }
    }
    loop
        invariant
            0 <= done <= digits.len(),
            digits == unsigned_part(text@),
            it.remaining() == digits.subrange(done, digits.len() as int),
            digits_value(digits.subrange(0, done)) == Some(value as nat),
            value <= u16::MAX,
            any_digit == (done > 0),
            it.decrease() is Some,
        decreases it.decrease()->0,
    {
        let c = match it.next() {
            Some(c) => c,
            None => {
                assert(digits.subrange(0, done) =~= digits);
                if !any_digit {
                    return None;
                }
                return Some(value as u16);
            },
        };
        proof {
            assert(digits.subrange(0, done + 1).last() == c);
            assert(digits.subrange(0, done + 1).drop_last() =~= digits.subrange(0, done));
            assert(it.remaining() =~= digits.subrange(done + 1, digits.len() as int));
        }
        if !('0' as u32 <= c as u32 && c as u32 <= '9' as u32) {
            proof {
                if digits_value(digits) is Some {
                    lemma_digits_value_grows(digits, done + 1);
                }
            }
            return None;
        }
        let next = value * 10 + (c as u32 - '0' as u32);
        if next > 65535 {
            proof {
                if digits_value(digits) is Some {
                    lemma_digits_value_grows(digits, done + 1);
                }
            }
            return None;
        }
        value = next;
        any_digit = true;
        proof {
            done = done + 1;
        }
    }
}

} // verus!
