//! Rendering numbers for the agents' display names: a verified decimal
//! numeral, so that a name is pinned down to the exact characters.

use vstd::prelude::*;

verus! {

/// The character for one decimal digit.
pub open spec fn digit_char(d: int) -> char {
    if d == 0 {
        '0'
    } else if d == 1 {
        '1'
    } else if d == 2 {
        '2'
    } else if d == 3 {
        '3'
    } else if d == 4 {
        '4'
    } else if d == 5 {
        '5'
    } else if d == 6 {
        '6'
    } else if d == 7 {
        '7'
    } else if d == 8 {
        '8'
    } else {
        '9'
    }
}

/// The decimal numeral of a nonnegative number, most significant digit
/// first, without leading zeros (the numeral of zero is the single digit
/// zero).
pub open spec fn decimal_digits(n: int) -> Seq<char>
    decreases n,
{
    if n <= 9 {
        seq![digit_char(n)]
    } else {
        decimal_digits(n / 10).push(digit_char(n % 10))
    }
}

/// The one-character string for a decimal digit.
fn digit_str(d: u32) -> (s: &'static str)
    requires
        d <= 9,
    ensures
        s@ == seq![digit_char(d as int)],
{
    let s: &'static str = match d {
        0 => "0",
        1 => "1",
        2 => "2",
        3 => "3",
        4 => "4",
        5 => "5",
        6 => "6",
        7 => "7",
        8 => "8",
        _ => "9",
    };
    proof {
        reveal_strlit("0");
        reveal_strlit("1");
        reveal_strlit("2");
        reveal_strlit("3");
        reveal_strlit("4");
        reveal_strlit("5");
        reveal_strlit("6");
        reveal_strlit("7");
        reveal_strlit("8");
        reveal_strlit("9");
        assert(s@ =~= seq![digit_char(d as int)]);
    }
    s
}

/// Renders `n` as its decimal numeral.
pub fn u32_decimal(n: u32) -> (s: String)
    ensures
        s@ == decimal_digits(n as int),
    decreases n,
{
    if n <= 9 {
        String::from_str(digit_str(n))
    } else {
        let mut s = u32_decimal(n / 10);
        s.append(digit_str(n % 10));
        proof {
            assert(decimal_digits((n / 10) as int).push(digit_char((n % 10) as int)) =~= s@);
        }
        s
    }
}

} // verus!
