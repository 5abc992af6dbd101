//! Byte counts in a form for people: with a binary unit and, above the
//! plain byte, two decimals.
use vstd::prelude::*;

verus! {

/// The character of the decimal digit `d`.
pub open spec fn digit(d: nat) -> char
    recommends
        d < 10,
{
    if d == 0 {
        '0'
    } else if d == 1 {
        '1'
    } else if d == 2 {
        '2'
    } else if d == 3 {
        '3'
    } else if d == 4 {
        '4'
    } else if d == 5 {
        '5'
    } else if d == 6 {
        '6'
    } else if d == 7 {
        '7'
    } else if d == 8 {
        '8'
    } else {
        '9'
    }
}

/// The decimal digits of `n`, without leading zeros.
pub open spec fn decimal(n: nat) -> Seq<char>
    decreases n,
{
    if n < 10 {
        seq![digit(n)]
    } else {
        decimal(n / 10).push(digit(n % 10))
    }
}

/// The unit in which `bytes` is shown: 0 for bytes, then 1 to 4 for KB, MB,
/// GB and TB. It is the largest unit of which `bytes` holds at least one;
/// beyond TB there is none.
pub open spec fn unit_index(bytes: nat) -> nat {
    if bytes < 0x400 {
        0
    } else if bytes < 0x10_0000 {
        1
    } else if bytes < 0x4000_0000 {
        2
    } else if bytes < 0x100_0000_0000 {
        3
    } else {
        4
    }
}

/// The number of bytes in one of `unit`: 1024 to the power of `unit`.
pub open spec fn unit_size(unit: nat) -> nat
    recommends
        unit <= 4,
{
    if unit == 0 {
        1
    } else if unit == 1 {
        0x400
    } else if unit == 2 {
        0x10_0000
    } else if unit == 3 {
        0x4000_0000
    } else {
        0x100_0000_0000
    }
}

/// The name of `unit`.
pub open spec fn unit_name(unit: nat) -> Seq<char>
    recommends
        unit <= 4,
{
    if unit == 0 {
        seq!['B']
    } else if unit == 1 {
        seq!['K', 'B']
    } else if unit == 2 {
        seq!['M', 'B']
    } else if unit == 3 {
        seq!['G', 'B']
    } else {
        seq!['T', 'B']
    }
}

/// The whole number nearest to `n / d`; of two that are equally near, the
/// even one.
pub open spec fn round_half_even(n: nat, d: nat) -> nat
    recommends
        d > 0,
{
    let q = n / d;
    let r = n % d;
    if 2 * r > d || (2 * r == d && q % 2 == 1) {
        q + 1
    } else {
        q
    }
}

/// The distance between neighbouring double-precision numbers around
/// `bytes`: 1 below 2 to the power of 53, and doubling with each power of
/// two from there.
pub open spec fn double_step(bytes: nat) -> nat
    decreases bytes,
{
    if bytes < 0x20_0000_0000_0000 {
        1
    } else {
        2 * double_step(bytes / 2)
    }
}

/// `bytes` as a double-precision number holds it: rounded to 53 significant
/// bits, halfway cases to the even neighbour. Up to 2 to the power of 53
/// that is `bytes` itself.
pub open spec fn as_double(bytes: nat) -> nat {
    round_half_even(bytes, double_step(bytes)) * double_step(bytes)
}

/// How many hundredths of its unit `bytes` is shown as: the quotient of
/// `as_double(bytes)` by the size of the unit, rounded to two decimals,
/// halfway cases to the even neighbour.
pub open spec fn hundredths(bytes: nat) -> nat {
    round_half_even(as_double(bytes) * 100, unit_size(unit_index(bytes)))
}

/// The text for `bytes`: below 1024 the number and `B`; from there on the
/// number of units with two decimals and the name of the unit.
pub open spec fn formatted(bytes: u64) -> Seq<char> {
    let unit = unit_index(bytes as nat);
    if unit == 0 {
        decimal(bytes as nat) + seq![' '] + unit_name(0)
    } else {
        let shown = hundredths(bytes as nat);
        decimal(shown / 100) + seq!['.', digit(shown / 10 % 10), digit(shown % 10), ' ']
            + unit_name(unit)
    }
}

/// The text of one decimal digit.
fn digit_text(d: u64) -> (text: &'static str)
    requires
        d < 10,
    ensures
        text@ == seq![digit(d as nat)],
{
    proof {
        reveal_strlit("0");
        reveal_strlit("1");
        reveal_strlit("2");
        reveal_strlit("3");
        reveal_strlit("4");
        reveal_strlit("5");
        reveal_strlit("6");
        reveal_strlit("7");
        reveal_strlit("8");
        reveal_strlit("9");
    }
    let text = if d == 0 {
        "0"
    } else if d == 1 {
        "1"
    } else if d == 2 {
        "2"
    } else if d == 3 {
        "3"
    } else if d == 4 {
        "4"
    } else if d == 5 {
        "5"
    } else if d == 6 {
        "6"
    } else if d == 7 {
        "7"
    } else if d == 8 {
        "8"
    } else {
        "9"
    };
    text
}

/// The text of the name of a unit.
fn unit_text(unit: u64) -> (text: &'static str)
    requires
        unit <= 4,
    ensures
        text@ == unit_name(unit as nat),
{
    proof {
        reveal_strlit("B");
        reveal_strlit("KB");
        reveal_strlit("MB");
        reveal_strlit("GB");
        reveal_strlit("TB");
    }
    let text = if unit == 0 {
        "B"
    } else if unit == 1 {
        "KB"
    } else if unit == 2 {
        "MB"
    } else if unit == 3 {
        "GB"
    } else {
        "TB"
    };
    text
}

/// Appends the decimal digits of `n` to `text`.
fn push_decimal(text: &mut String, n: u64)
    ensures
        final(text)@ == old(text)@ + decimal(n as nat),
    decreases n,
{
    if n >= 10 {
        push_decimal(text, n / 10);
    }
    text.append(digit_text(n % 10));
}

/// `round_half_even` on machine numbers.
fn rounded_quotient(n: u128, d: u128) -> (q: u128)
    requires
        d > 0,
        n < 0x1_0000_0000_0000_0000_0000,
    ensures
        q == round_half_even(n as nat, d as nat),
        q * d <= n + d,
        q <= n + 1,
{
    let q = n / d;
    let r = n % d;
    proof {
        vstd::arithmetic::div_mod::lemma_fundamental_div_mod(n as int, d as int);
        assert(q * d == d * q) by (nonlinear_arith);
        assert((q + 1) * d == q * d + d) by (nonlinear_arith);
        assert(q <= q * d) by (nonlinear_arith)
            requires
                d >= 1,
                q >= 0,
        ;
    }
    if r > d - r || (r == d - r && q % 2 == 1) {
        q + 1
    } else {
        q
    }
}

/// `double_step` on machine numbers.
fn step_of(bytes: u64) -> (step: u64)
    ensures
        step == double_step(bytes as nat),
        1 <= step < 0x1000,
        step == 1 || 0x10_0000_0000_0000 * step <= bytes,
    decreases bytes,
{
    if bytes < 0x20_0000_0000_0000 {
        1
    } else {
        let half = step_of(bytes / 2);
        2 * half
    }
}

/// `hundredths` on machine numbers.
fn shown_hundredths(bytes: u64) -> (shown: u64)
    requires
        bytes >= 0x400,
    ensures
        shown == hundredths(bytes as nat),
{
    let size: u128 = if bytes < 0x10_0000 {
        0x400
    } else if bytes < 0x4000_0000 {
        0x10_0000
    } else if bytes < 0x100_0000_0000 {
        0x4000_0000
    } else {
        0x100_0000_0000
    };
    let step = step_of(bytes);
    let mantissa = rounded_quotient(bytes as u128, step as u128);
    let held: u128 = mantissa * (step as u128);
    let shown = rounded_quotient(held * 100, size);
    assert(shown <= u64::MAX) by (nonlinear_arith)
        requires
            shown * size <= held * 100 + size,
            held <= 0x1_0000_0000_0000_1000,
            size >= 0x400,
    ;
    shown as u64
}

/// Appends to `text` the number of which `shown` is the hundredths, with
/// two decimals.
fn push_hundredths(text: &mut String, shown: u64)
    ensures
        final(text)@ == old(text)@ + decimal(shown as nat / 100) + seq![
            '.',
            digit(shown as nat / 10 % 10),
            digit(shown as nat % 10),
        ],
{
    push_decimal(text, shown / 100);
    proof {
        reveal_strlit(".");
    }
    text.append(".");
    text.append(digit_text(shown / 10 % 10));
    text.append(digit_text(shown % 10));
}

/// The unit in which `bytes` is shown.
fn unit_of(bytes: u64) -> (unit: u64)
    ensures
        unit == unit_index(bytes as nat),
        unit <= 4,
{
    if bytes < 0x400 {
        0
    } else if bytes < 0x10_0000 {
        1
    } else if bytes < 0x4000_0000 {
        2
    } else if bytes < 0x100_0000_0000 {
        3
    } else {
        4
    }
}

/// Formats a byte count for people: `512 B`, `1.50 KB`, `3.25 GB`. The
/// units are binary and end with TB; from KB on, the count is shown in its
/// unit with two decimals, exactly as formatting with two decimals prints
/// the quotient computed in double precision.
pub fn format_bytes(bytes: u64) -> (text: String)
    ensures
        text@ == formatted(bytes),
{
    let unit = unit_of(bytes);
    let mut text = String::new();
    if unit == 0 {
        push_decimal(&mut text, bytes);
    } else {
        push_hundredths(&mut text, shown_hundredths(bytes));
    }
    proof {
        reveal_strlit(" ");
    }
    text.append(" ");
    text.append(unit_text(unit));
    text
}

} // verus!
