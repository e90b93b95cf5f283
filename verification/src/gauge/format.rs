//! Decimal text for gauge values.

use super::Digits;
use crate::scalar::{round_half_even, Scalar, UNIT};
use vstd::prelude::*;
use vstd::string::StringExecFns;

verus! {

/// The character for one decimal digit.
pub open spec fn digit_char(d: int) -> char {
    if d == 0 {
        '0'
    } else if d == 1 {
        '1'
    } else if d == 2 {
        '2'
    } else if d == 3 {
        '3'
    } else if d == 4 {
        '4'
    } else if d == 5 {
        '5'
    } else if d == 6 {
        '6'
    } else if d == 7 {
        '7'
    } else if d == 8 {
        '8'
    } else {
        '9'
    }
}

/// Whether `c` is one of the ten decimal digits.
pub open spec fn is_digit(c: char) -> bool {
    c == '0' || c == '1' || c == '2' || c == '3' || c == '4' || c == '5' || c == '6' || c == '7'
        || c == '8' || c == '9'
}

/// The decimal digits of `n`, without leading zeros.
pub open spec fn decimal(n: nat) -> Seq<char>
    decreases n,
{
    if n < 10 {
        seq![digit_char(n as int)]
    } else {
        decimal(n / 10).push(digit_char((n % 10) as int))
    }
}

/// The lowest `places` decimal digits of `n`, zeros included.
pub open spec fn fixed_digits(n: nat, places: nat) -> Seq<char>
    decreases places,
{
    if places == 0 {
        Seq::empty()
    } else {
        fixed_digits(n / 10, (places - 1) as nat).push(digit_char((n % 10) as int))
    }
}

/// Ten to the power of the number of decimal places.
pub open spec fn scale(digits: Digits) -> nat {
    match digits {
        Digits::Whole => 1,
        Digits::Single => 10,
        Digits::Two => 100,
    }
}

/// The absolute value of a finite scalar in units of the last shown decimal
/// place, rounded to the nearest.
pub open spec fn rounded(raw: i64, digits: Digits) -> nat {
    let magnitude: nat = if raw < 0 { (-raw) as nat } else { raw as nat };
    round_half_even(magnitude * scale(digits), UNIT as nat)
}

/// The text of a value: an optional minus sign, the whole part, and, where
/// decimal places are shown, a point and exactly that many digits. The sign
/// is that of the value before rounding. What is not finite reads `inf`,
/// `-inf` or `NaN`.
pub open spec fn spec_format(value: Scalar, digits: Digits) -> Seq<char> {
    match value {
        Scalar::NaN => seq!['N', 'a', 'N'],
        Scalar::PosInf => seq!['i', 'n', 'f'],
        Scalar::NegInf => seq!['-', 'i', 'n', 'f'],
        Scalar::Finite(raw) => {
            let shown = rounded(raw, digits);
            let sign = if raw < 0 { seq!['-'] } else { Seq::<char>::empty() };
            let whole = decimal(shown / scale(digits));
            let fraction = if digits.places() == 0 {
                Seq::<char>::empty()
            } else {
                seq!['.'] + fixed_digits(shown % scale(digits), digits.places())
            };
            sign + whole + fraction
        },
    }
}

/// One decimal digit as text.
fn digit_text(d: u8) -> (text: &'static str)
    requires
        d <= 9,
    ensures
        text@ == seq![digit_char(d as int)],
{
    proof {
        reveal_strlit("0");
        reveal_strlit("1");
        reveal_strlit("2");
        reveal_strlit("3");
        reveal_strlit("4");
        reveal_strlit("5");
        reveal_strlit("6");
        reveal_strlit("7");
        reveal_strlit("8");
        reveal_strlit("9");
    }
    let text = match d {
        0 => "0",
        1 => "1",
        2 => "2",
        3 => "3",
        4 => "4",
        5 => "5",
        6 => "6",
        7 => "7",
        8 => "8",
        _ => "9",
    };
    assert(text@ =~= seq![digit_char(d as int)]);
    text
}

/// Appends the decimal digits of `n`.
fn push_decimal(text: &mut String, n: u128)
    ensures
        final(text)@ == old(text)@ + decimal(n as nat),
    decreases n,
{
    if n >= 10 {
        push_decimal(text, n / 10);
    }
    text.append(digit_text((n % 10) as u8));
    assert(text@ =~= old(text)@ + decimal(n as nat));
}

/// Appends the lowest `places` decimal digits of `n`.
fn push_fixed(text: &mut String, n: u128, places: u8)
    ensures
        final(text)@ == old(text)@ + fixed_digits(n as nat, places as nat),
    decreases places,
{
    if places > 0 {
        push_fixed(text, n / 10, places - 1);
        text.append(digit_text((n % 10) as u8));
    }
    assert(text@ =~= old(text)@ + fixed_digits(n as nat, places as nat));
}

/// Formats a value with the given number of decimal places.
pub fn format_value(value: Scalar, digits: Digits) -> (text: String)
    ensures
        text@ == spec_format(value, digits),
{
    proof {
        reveal_strlit("NaN");
        reveal_strlit("inf");
        reveal_strlit("-inf");
        reveal_strlit("-");
        reveal_strlit(".");
    }
    match value {
        Scalar::NaN => {
            let text = String::from_str("NaN");
            assert(text@ =~= spec_format(value, digits));
            text
        },
        Scalar::PosInf => {
            let text = String::from_str("inf");
            assert(text@ =~= spec_format(value, digits));
            text
        },
        Scalar::NegInf => {
            let text = String::from_str("-inf");
            assert(text@ =~= spec_format(value, digits));
            text
        },
        Scalar::Finite(raw) => {
            let (scale_by, places): (u128, u8) = match digits {
                Digits::Whole => (1, 0),
                Digits::Single => (10, 1),
                Digits::Two => (100, 2),
            };
            let magnitude: u128 = if raw < 0 {
                (-(raw as i128)) as u128
            } else {
                raw as u128
            };
            let scaled: u128 = magnitude * scale_by;
            let unit: u128 = UNIT as u128;
            let q: u128 = scaled / unit;
            let r: u128 = scaled % unit;
            let shown: u128 = if 2 * r > unit || (2 * r == unit && q % 2 == 1) {
                q + 1
            } else {
                q
            };
            assert(shown == rounded(raw, digits));
            let mut text = String::new();
            if raw < 0 {
                text.append("-");
            }
            push_decimal(&mut text, shown / scale_by);
            if places > 0 {
                text.append(".");
                push_fixed(&mut text, shown % scale_by, places);
            }
            assert(text@ =~= spec_format(value, digits));
            text
        },
    }
}

/// The decimal digits of a number are digits, and there is at least one.
pub proof fn lemma_decimal_digits(n: nat)
    ensures
        decimal(n).len() >= 1,
        forall|i: int| 0 <= i < decimal(n).len() ==> is_digit(#[trigger] decimal(n)[i]),
    decreases n,
{
    if n >= 10 {
        lemma_decimal_digits(n / 10);
    }
}

/// The lowest `places` digits of a number are `places` digits.
pub proof fn lemma_fixed_digits(n: nat, places: nat)
    ensures
        fixed_digits(n, places).len() == places,
        forall|i: int|
            0 <= i < fixed_digits(n, places).len() ==> is_digit(
                #[trigger] fixed_digits(n, places)[i],
            ),
    decreases places,
{
    if places > 0 {
        lemma_fixed_digits(n / 10, (places - 1) as nat);
    }
}

/// The text of a finite value has exactly as many decimal places as were
/// asked for: with none it holds no decimal point; otherwise the point
/// stands once, before the last `places` characters, which are digits.
pub proof fn lemma_format_decimal_places(raw: i64, digits: Digits)
    ensures
        ({
            let text = spec_format(Scalar::Finite(raw), digits);
            let places = digits.places() as int;
            if places == 0 {
                forall|i: int| 0 <= i < text.len() ==> #[trigger] text[i] != '.'
            } else {
                &&& text.len() >= places + 2
                &&& text[text.len() - places - 1] == '.'
                &&& forall|i: int|
                    text.len() - places <= i < text.len() ==> is_digit(#[trigger] text[i])
                &&& forall|i: int| 0 <= i < text.len() - places - 1 ==> #[trigger] text[i] != '.'
            }
        }),
{
    let shown = rounded(raw, digits);
    let whole = decimal(shown / scale(digits));
    let tail = fixed_digits(shown % scale(digits), digits.places());
    lemma_decimal_digits(shown / scale(digits));
    lemma_fixed_digits(shown % scale(digits), digits.places());
    let text = spec_format(Scalar::Finite(raw), digits);
    let sign_len: int = if raw < 0 { 1 } else { 0 };
    assert forall|i: int| sign_len <= i < sign_len + whole.len() implies #[trigger] text[i]
        == whole[i - sign_len] by {}
    if digits.places() > 0 {
        assert forall|i: int| text.len() - digits.places() <= i < text.len() implies #[trigger] text[i]
            == tail[i - (text.len() - digits.places())] by {}
    }
}

} // verus!
