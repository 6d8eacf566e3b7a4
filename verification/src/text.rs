//! Display-string construction for the UI fields.
//!
//! All numbers the engine shows are unsigned integers or integer counts of
//! tenths; this module turns them into the exact strings the UI renders:
//! plain decimals, zero-padded clock fields, `HH:MM:SS` uptime, and
//! one-decimal-place labels such as `300.0`.

use vstd::prelude::*;
use vstd::string::StringExecFns;

verus! {

/// The character for one decimal digit.
pub open spec fn spec_digit_char(d: int) -> char {
    if d == 0 {
        '0'
    } else if d == 1 {
        '1'
    } else if d == 2 {
        '2'
    } else if d == 3 {
        '3'
    } else if d == 4 {
        '4'
    } else if d == 5 {
        '5'
    } else if d == 6 {
        '6'
    } else if d == 7 {
        '7'
    } else if d == 8 {
        '8'
    } else {
        '9'
    }
}

/// Decimal digits of `n`, most significant first, with no leading zero
/// except for `n == 0` itself.
pub open spec fn spec_decimal(n: int) -> Seq<char>
    recommends
        n >= 0,
    decreases n,
{
    if n <= 9 {
        seq![spec_digit_char(n)]
    } else {
        spec_decimal(n / 10).push(spec_digit_char(n % 10))
    }
}

/// Decimal digits of `n`, left-padded with `'0'` to at least two digits.
pub open spec fn spec_padded2(n: int) -> Seq<char>
    recommends
        n >= 0,
{
    if 0 <= n <= 9 {
        seq!['0'] + spec_decimal(n)
    } else {
        spec_decimal(n)
    }
}

/// `HH:MM:SS` with hours `t / 3600`, minutes `(t % 3600) / 60` and seconds
/// `t % 60`, each zero-padded to two digits (hours may take more).
pub open spec fn spec_clock(t: int) -> Seq<char>
    recommends
        t >= 0,
{
    spec_padded2(t / 3600) + seq![':'] + spec_padded2((t % 3600) / 60) + seq![':'] + spec_padded2(
        t % 60,
    )
}

/// A count of tenths shown with one decimal place: `tenths / 10`, a dot,
/// and the final digit.
pub open spec fn spec_tenths(tenths: int) -> Seq<char>
    recommends
        tenths >= 0,
{
    spec_decimal(tenths / 10) + seq!['.'] + seq![spec_digit_char(tenths % 10)]
}

/// The single-character string for one decimal digit.
pub fn digit_str(d: u64) -> (r: &'static str)
    requires
        d <= 9,
    ensures
        r@ == seq![spec_digit_char(d as int)],
{
    proof {
        reveal_strlit("0");
        reveal_strlit("1");
        reveal_strlit("2");
        reveal_strlit("3");
        reveal_strlit("4");
        reveal_strlit("5");
        reveal_strlit("6");
        reveal_strlit("7");
        reveal_strlit("8");
        reveal_strlit("9");
    }
    match d {
        0 => "0",
        1 => "1",
        2 => "2",
        3 => "3",
        4 => "4",
        5 => "5",
        6 => "6",
        7 => "7",
        8 => "8",
        _ => "9",
    }
}

/// `n` written in decimal.
pub fn decimal_string(n: u64) -> (r: String)
    ensures
        r@ == spec_decimal(n as int),
    decreases n,
{
    if n <= 9 {
        String::from_str(digit_str(n))
    } else {
        let mut s = decimal_string(n / 10);
        s.append(digit_str(n % 10));
        s
    }
}

/// `n` in decimal, zero-padded to at least two digits.
pub fn padded2_string(n: u64) -> (r: String)
    ensures
        r@ == spec_padded2(n as int),
{
    proof {
        reveal_strlit("0");
    }
    if n <= 9 {
        let mut s = String::from_str("0");
        let d = decimal_string(n);
        s.append(d.as_str());
        s
    } else {
        decimal_string(n)
    }
}

/// Uptime in seconds formatted as `HH:MM:SS`.
pub fn convert_time(time: u64) -> (r: String)
    ensures
        r@ == spec_clock(time as int),
{
    proof {
        reveal_strlit(":");
    }
    let hour = time / 3600;
    let min = (time % 3600) / 60;
    let sec = time % 60;
    let mut s = padded2_string(hour);
    s.append(":");
    let m = padded2_string(min);
    s.append(m.as_str());
    s.append(":");
    let c = padded2_string(sec);
    s.append(c.as_str());
    s
}

/// A count of tenths shown with one decimal place, e.g. `300.0`.
pub fn tenths_string(tenths: u64) -> (r: String)
    ensures
        r@ == spec_tenths(tenths as int),
{
    proof {
        reveal_strlit(".");
    }
    let mut s = decimal_string(tenths / 10);
    s.append(".");
    let d = digit_str(tenths % 10);
    s.append(d);
    s
}

} // verus!
