//! Human-readable formatting of record ages.
//!
//! An age in whole seconds becomes a short string such as `59s`, `5m`, `2h`,
//! `1d`, `10M` or `2y`: the age divided by the largest unit it reaches, then
//! the unit's letter.

use vstd::prelude::*;

verus! {

/// Seconds in one minute.
pub const MINUTE_SECONDS: u64 = 60;

/// Seconds in one hour.
pub const HOUR_SECONDS: u64 = 3600;

/// Seconds in one day.
pub const DAY_SECONDS: u64 = 86400;

/// Seconds in one thirty-day month.
pub const MONTH_SECONDS: u64 = 2592000;

/// Seconds in one 365-day year.
pub const YEAR_SECONDS: u64 = 31536000;

/// The character for a decimal digit value below ten.
pub open spec fn spec_digit_char(d: nat) -> char {
    if d == 0 {
        '0'
    } else if d == 1 {
        '1'
    } else if d == 2 {
        '2'
    } else if d == 3 {
        '3'
    } else if d == 4 {
        '4'
    } else if d == 5 {
        '5'
    } else if d == 6 {
        '6'
    } else if d == 7 {
        '7'
    } else if d == 8 {
        '8'
    } else {
        '9'
    }
}

/// The decimal representation of a natural number, most significant digit
/// first, with no leading zeros (and `0` written as "0").
pub open spec fn spec_decimal(n: nat) -> Seq<char>
    decreases n,
{
    if n < 10 {
        seq![spec_digit_char(n)]
    } else {
        spec_decimal(n / 10) + seq![spec_digit_char(n % 10)]
    }
}

/// A one-character string for a single decimal digit.
fn digit_str(d: u64) -> (r: &'static str)
    requires
        d < 10,
    ensures
        r@ == seq![spec_digit_char(d as nat)],
{
    proof {
        reveal_strlit("0");
        reveal_strlit("1");
        reveal_strlit("2");
        reveal_strlit("3");
        reveal_strlit("4");
        reveal_strlit("5");
        reveal_strlit("6");
        reveal_strlit("7");
        reveal_strlit("8");
        reveal_strlit("9");
    }
    match d {
        0 => "0",
        1 => "1",
        2 => "2",
        3 => "3",
        4 => "4",
        5 => "5",
        6 => "6",
        7 => "7",
        8 => "8",
        _ => "9",
    }
}

/// The decimal representation of `n`, most significant digit first.
pub fn u64_to_decimal(n: u64) -> (r: String)
    ensures
        r@ == spec_decimal(n as nat),
    decreases n,
{
    if n < 10 {
        let s = digit_str(n);
        s.to_owned()
    } else {
        let mut prefix = u64_to_decimal(n / 10);
        let last = digit_str(n % 10);
        prefix.append(last);
        prefix
    }
}

/// The age string for an age of `seconds` whole seconds: the age in the
/// largest unit it reaches (years, thirty-day months, days, hours, minutes,
/// else seconds), then that unit's letter.
pub open spec fn spec_age(seconds: nat) -> Seq<char> {
    if seconds >= 31536000 {
        spec_decimal(seconds / 31536000) + seq!['y']
    } else if seconds >= 2592000 {
        spec_decimal(seconds / 2592000) + seq!['M']
    } else if seconds >= 86400 {
        spec_decimal(seconds / 86400) + seq!['d']
    } else if seconds >= 3600 {
        spec_decimal(seconds / 3600) + seq!['h']
    } else if seconds >= 60 {
        spec_decimal(seconds / 60) + seq!['m']
    } else {
        spec_decimal(seconds) + seq!['s']
    }
}

/// Format the difference between the current time and a record's time, given
/// as whole seconds, as a short age string such as `50s`, `5m`, `2h`, `1d`,
/// `10M` or `2y`.
pub fn get_diff(seconds: u64) -> (r: String)
    ensures
        r@ == spec_age(seconds as nat),
{
    proof {
        reveal_strlit("y");
        reveal_strlit("M");
        reveal_strlit("d");
        reveal_strlit("h");
        reveal_strlit("m");
        reveal_strlit("s");
    }
    let (value, unit): (u64, &'static str) = if seconds >= YEAR_SECONDS {
        (seconds / YEAR_SECONDS, "y")
    } else if seconds >= MONTH_SECONDS {
        (seconds / MONTH_SECONDS, "M")
    } else if seconds >= DAY_SECONDS {
        (seconds / DAY_SECONDS, "d")
    } else if seconds >= HOUR_SECONDS {
        (seconds / HOUR_SECONDS, "h")
    } else if seconds >= MINUTE_SECONDS {
        (seconds / MINUTE_SECONDS, "m")
    } else {
        (seconds, "s")
    };
    let mut out = u64_to_decimal(value);
    out.append(unit);
    out
}

} // verus!
