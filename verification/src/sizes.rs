//! Byte counts as text in decimal units, from bytes up to gigabytes.

use vstd::prelude::*;
use vstd::string::*;

verus! {

/// The largest order of magnitude with a unit of its own: the gigabyte.
pub const MAX_UNIT_ORDER: u32 = 3;

/// `floor(log10(n))`, with the magnitude of zero taken as zero.
pub open spec fn decimal_magnitude(n: nat) -> nat
    decreases n,
{
    if n < 10 {
        0
    } else {
        1 + decimal_magnitude(n / 10)
    }
}

/// Which unit a byte count is shown in: a third of its magnitude, capped at
/// the gigabyte.
pub open spec fn unit_order(bytes: nat) -> nat {
    let thirds = decimal_magnitude(bytes) / 3;
    if thirds > MAX_UNIT_ORDER {
        MAX_UNIT_ORDER as nat
    } else {
        thirds
    }
}

/// How many bytes make one unit of the given order: `1000^order`.
pub open spec fn unit_bytes(order: nat) -> nat
    decreases order,
{
    if order == 0 {
        1
    } else {
        1000 * unit_bytes((order - 1) as nat)
    }
}

/// The abbreviation of the unit of the given order.
pub open spec fn unit_name(order: nat) -> Seq<char> {
    if order == 0 {
        seq!['B']
    } else if order == 1 {
        seq!['k', 'B']
    } else if order == 2 {
        seq!['M', 'B']
    } else {
        seq!['G', 'B']
    }
}

/// `numerator / denominator` rounded to the nearest integer; a quotient that
/// lies exactly half way goes to the even neighbour.
pub open spec fn rounded_quotient(numerator: nat, denominator: nat) -> nat
    recommends
        denominator > 0,
{
    let quotient = numerator / denominator;
    let twice_rest = 2 * (numerator % denominator);
    if twice_rest > denominator || (twice_rest == denominator && quotient % 2 == 1) {
        quotient + 1
    } else {
        quotient
    }
}

/// The byte count in thousandths of its unit, rounded to the nearest.
pub open spec fn scaled_thousandths(bytes: nat) -> nat {
    rounded_quotient(bytes * 1000, unit_bytes(unit_order(bytes)))
}

/// The character of one decimal digit.
pub open spec fn digit_char(digit: nat) -> char
    recommends
        digit < 10,
{
    if digit == 0 {
        '0'
    } else if digit == 1 {
        '1'
    } else if digit == 2 {
        '2'
    } else if digit == 3 {
        '3'
    } else if digit == 4 {
        '4'
    } else if digit == 5 {
        '5'
    } else if digit == 6 {
        '6'
    } else if digit == 7 {
        '7'
    } else if digit == 8 {
        '8'
    } else {
        '9'
    }
}

/// Whether a character is one of `0` to `9`.
pub open spec fn is_digit(c: char) -> bool {
    c == '0' || c == '1' || c == '2' || c == '3' || c == '4' || c == '5' || c == '6' || c == '7'
        || c == '8' || c == '9'
}

/// A number in decimal, without sign or leading zeros.
pub open spec fn decimal_text(n: nat) -> Seq<char>
    decreases n,
{
    if n < 10 {
        seq![digit_char(n)]
    } else {
        decimal_text(n / 10).push(digit_char(n % 10))
    }
}

/// The three digits of a number below a thousand, zeros included.
pub open spec fn three_digits(n: nat) -> Seq<char>
    recommends
        n < 1000,
{
    seq![digit_char(n / 100), digit_char((n / 10) % 10), digit_char(n % 10)]
}

/// A byte count as shown to a reader: the scaled value with three digits
/// after the point, a space, and the unit.
pub open spec fn human_size_text(bytes: nat) -> Seq<char> {
    let thousandths = scaled_thousandths(bytes);
    decimal_text(thousandths / 1000) + seq!['.'] + three_digits(thousandths % 1000) + seq![' ']
        + unit_name(unit_order(bytes))
}

/// The unit of a byte count changes at a thousand, a million and a billion
/// bytes.
pub proof fn lemma_unit_order_thresholds(bytes: nat)
    ensures
        bytes < 1000 <==> unit_order(bytes) == 0,
        1000 <= bytes < 1_000_000 <==> unit_order(bytes) == 1,
        1_000_000 <= bytes < 1_000_000_000 <==> unit_order(bytes) == 2,
        1_000_000_000 <= bytes <==> unit_order(bytes) == 3,
        unit_order(bytes) <= 3,
{
    reveal_with_fuel(decimal_magnitude, 10);
}

/// A number in decimal is one digit or more, and digits only.
pub proof fn lemma_decimal_text_is_digits(n: nat)
    ensures
        decimal_text(n).len() >= 1,
        forall|i: int| 0 <= i < decimal_text(n).len() ==> is_digit(#[trigger] decimal_text(n)[i]),
    decreases n,
{
    if n >= 10 {
        lemma_decimal_text_is_digits(n / 10);
    }
}

/// Every formatted size reads: digits, a point, exactly three digits, a
/// space, and one unit. It ends in the unit of its order and in no other of
/// the four.
pub proof fn lemma_human_size_shape(bytes: nat)
    ensures
        ({
            let text = human_size_text(bytes);
            let unit = unit_name(unit_order(bytes));
            let point = text.len() - unit.len() - 5;
            &&& point >= 1
            &&& forall|i: int| 0 <= i < point ==> is_digit(#[trigger] text[i])
            &&& text[point] == '.'
            &&& is_digit(text[point + 1])
            &&& is_digit(text[point + 2])
            &&& is_digit(text[point + 3])
            &&& text[point + 4] == ' '
            &&& text.subrange(point + 5, text.len() as int) == unit
            &&& forall|order: nat|
                order <= 3 ==> ((seq![' '] + #[trigger] unit_name(order)).is_suffix_of(text) <==> order
                    == unit_order(bytes))
        }),
{
    let thousandths = scaled_thousandths(bytes);
    let whole = decimal_text(thousandths / 1000);
    let text = human_size_text(bytes);
    let unit = unit_name(unit_order(bytes));
    let point = text.len() - unit.len() - 5;
    lemma_decimal_text_is_digits(thousandths / 1000);
    lemma_unit_order_thresholds(bytes);
    assert(point == whole.len());
    assert forall|i: int| 0 <= i < point implies is_digit(#[trigger] text[i]) by {
        assert(text[i] == whole[i]);
    }
    assert(text.subrange(point + 5, text.len() as int) =~= unit);
    assert forall|order: nat| order <= 3 implies ((seq![' '] + #[trigger] unit_name(order)).is_suffix_of(
        text,
    ) <==> order == unit_order(bytes)) by {
        let suffix = seq![' '] + unit_name(order);
        let start = text.len() - suffix.len();
        if suffix.is_suffix_of(text) {
            assert(text.subrange(start, text.len() as int)[0] == suffix[0]);
            assert(text.subrange(start, text.len() as int)[1] == suffix[1]);
        }
        if order == unit_order(bytes) {
            assert(text.subrange(start, text.len() as int) =~= suffix);
        }
    }
}

/// One decimal digit as a string.
fn digit_str(digit: u64) -> (text: &'static str)
    requires
        digit < 10,
    ensures
        text@ == seq![digit_char(digit as nat)],
{
    proof {
        reveal_strlit("0");
        reveal_strlit("1");
        reveal_strlit("2");
        reveal_strlit("3");
        reveal_strlit("4");
        reveal_strlit("5");
        reveal_strlit("6");
        reveal_strlit("7");
        reveal_strlit("8");
        reveal_strlit("9");
    }
    let text = if digit == 0 {
        "0"
    } else if digit == 1 {
        "1"
    } else if digit == 2 {
        "2"
    } else if digit == 3 {
        "3"
    } else if digit == 4 {
        "4"
    } else if digit == 5 {
        "5"
    } else if digit == 6 {
        "6"
    } else if digit == 7 {
        "7"
    } else if digit == 8 {
        "8"
    } else {
        "9"
    };
    assert(text@ =~= seq![digit_char(digit as nat)]);
    text
}

/// The abbreviation of a unit as a string.
fn unit_str(order: u32) -> (text: &'static str)
    ensures
        text@ == unit_name(order as nat),
{
    proof {
        reveal_strlit("B");
        reveal_strlit("kB");
        reveal_strlit("MB");
        reveal_strlit("GB");
    }
    let text = if order == 0 {
        "B"
    } else if order == 1 {
        "kB"
    } else if order == 2 {
        "MB"
    } else {
        "GB"
    };
    assert(text@ =~= unit_name(order as nat));
    text
}

/// Divides and rounds to the nearest integer, half way to the even one.
fn rounded_division(numerator: u128, denominator: u128) -> (rounded: u128)
    requires
        denominator > 0,
        numerator < u128::MAX,
    ensures
        rounded == rounded_quotient(numerator as nat, denominator as nat),
{
    let quotient: u128 = numerator / denominator;
    let rest: u128 = numerator % denominator;
    let other: u128 = denominator - rest;
    if rest > other || (rest == other && quotient % 2 == 1) {
        quotient + 1
    } else {
        quotient
    }
}

/// Writes a number in decimal.
pub fn decimal_string(n: u64) -> (text: String)
    ensures
        text@ == decimal_text(n as nat),
    decreases n,
{
    if n < 10 {
        String::from_str(digit_str(n))
    } else {
        let mut text = decimal_string(n / 10);
        text.append(digit_str(n % 10));
        assert(text@ =~= decimal_text(n as nat));
        text
    }
}

/// Picks the unit of a byte count.
pub fn order_of(bytes: u64) -> (order: u32)
    ensures
        order == unit_order(bytes as nat),
        order <= MAX_UNIT_ORDER,
{
    proof {
        lemma_unit_order_thresholds(bytes as nat);
    }
    if bytes < 1000 {
        0
    } else if bytes < 1_000_000 {
        1
    } else if bytes < 1_000_000_000 {
        2
    } else {
        MAX_UNIT_ORDER
    }
}

/// Formats a byte count for a reader, in the largest decimal unit up to the
/// gigabyte that leaves at least one whole unit, with three digits after the
/// point: `1024` is `1.024 kB`.
pub fn bytes_to_human(bytes: u64) -> (text: String)
    ensures
        text@ == human_size_text(bytes as nat),
{
    let order: u32 = order_of(bytes);
    let denominator: u128 = if order == 0 {
        1
    } else if order == 1 {
        1000
    } else if order == 2 {
        1_000_000
    } else {
        1_000_000_000
    };
    proof {
        reveal_with_fuel(unit_bytes, 4);
        lemma_unit_order_thresholds(bytes as nat);
    }
    assert(denominator == unit_bytes(order as nat));
    let thousandths: u128 = rounded_division(bytes as u128 * 1000, denominator);
    assert(thousandths == scaled_thousandths(bytes as nat));
    assert(thousandths / 1000 <= bytes);
    let whole: u64 = (thousandths / 1000) as u64;
    let fraction: u64 = (thousandths % 1000) as u64;
    proof {
        reveal_strlit(".");
        reveal_strlit(" ");
    }
    let mut text = decimal_string(whole);
    text.append(".");
    text.append(digit_str(fraction / 100));
    text.append(digit_str((fraction / 10) % 10));
    text.append(digit_str(fraction % 10));
    text.append(" ");
    text.append(unit_str(order));
    assert(text@ =~= human_size_text(bytes as nat));
    text
}

} // verus!
