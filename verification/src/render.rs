//! Verified rendering of diagnostic text: decimal numbers and the fixed
//! line shapes that the aggregator and the throttled sink hand to the
//! diagnostic output.

use vstd::prelude::*;
use vstd::string::StringExecFns;

verus! {

/// The decimal digit character for a value below ten.
pub open spec fn digit_char(d: int) -> char {
    if d == 0 {
        '0'
    } else if d == 1 {
        '1'
    } else if d == 2 {
        '2'
    } else if d == 3 {
        '3'
    } else if d == 4 {
        '4'
    } else if d == 5 {
        '5'
    } else if d == 6 {
        '6'
    } else if d == 7 {
        '7'
    } else if d == 8 {
        '8'
    } else {
        '9'
    }
}

/// The usual decimal rendering of a natural number, most significant
/// digit first, with no leading zeros except for zero itself.
pub open spec fn spec_decimal(n: nat) -> Seq<char>
    decreases n,
{
    if n < 10 {
        seq![digit_char(n as int)]
    } else {
        spec_decimal(n / 10) + seq![digit_char((n % 10) as int)]
    }
}

/// A one-character string slice for a digit value.
fn digit_str(d: u64) -> (s: &'static str)
    requires
        d < 10,
    ensures
        s@ == seq![digit_char(d as int)],
{
    proof {
        reveal_strlit("0");
        reveal_strlit("1");
        reveal_strlit("2");
        reveal_strlit("3");
        reveal_strlit("4");
        reveal_strlit("5");
        reveal_strlit("6");
        reveal_strlit("7");
        reveal_strlit("8");
        reveal_strlit("9");
    }
    match d {
        0 => "0",
        1 => "1",
        2 => "2",
        3 => "3",
        4 => "4",
        5 => "5",
        6 => "6",
        7 => "7",
        8 => "8",
        _ => "9",
    }
}

/// Decimal rendering of a `u64`, proved equal to `spec_decimal`.
pub fn u64_to_string(n: u64) -> (s: String)
    ensures
        s@ == spec_decimal(n as nat),
    decreases n,
{
    if n < 10 {
        String::from_str(digit_str(n))
    } else {
        let mut s = u64_to_string(n / 10);
        s.append(digit_str(n % 10));
        s
    }
}

/// The diagnostic line rendered for a driver-statistics report.
pub open spec fn spec_stats_line(received: u32, dropped: u32, if_dropped: u32) -> Seq<char> {
    "Stats: received "@ + spec_decimal(received as nat) + ", dropped "@ + spec_decimal(
        dropped as nat,
    ) + ", dropped by interface "@ + spec_decimal(if_dropped as nat)
}

/// Render the driver-statistics diagnostic line.
pub fn stats_line(received: u32, dropped: u32, if_dropped: u32) -> (s: String)
    ensures
        s@ == spec_stats_line(received, dropped, if_dropped),
{
    let mut s = String::from_str("Stats: received ");
    let r = u64_to_string(received as u64);
    s.append(r.as_str());
    s.append(", dropped ");
    let d = u64_to_string(dropped as u64);
    s.append(d.as_str());
    s.append(", dropped by interface ");
    let i = u64_to_string(if_dropped as u64);
    s.append(i.as_str());
    s
}

} // verus!
