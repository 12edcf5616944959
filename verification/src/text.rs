//! Decimal formatting of the integer quantities that the renderers print.

use vstd::prelude::*;

verus! {

/// The decimal digit character for a value below ten.
pub open spec fn digit_char(d: int) -> char {
    if d == 0 {
        '0'
    } else if d == 1 {
        '1'
    } else if d == 2 {
        '2'
    } else if d == 3 {
        '3'
    } else if d == 4 {
        '4'
    } else if d == 5 {
        '5'
    } else if d == 6 {
        '6'
    } else if d == 7 {
        '7'
    } else if d == 8 {
        '8'
    } else {
        '9'
    }
}

/// The usual decimal rendering of a non-negative integer, most
/// significant digit first, with no leading zeros (except for zero
/// itself).
pub open spec fn dec_nat(n: nat) -> Seq<char>
    decreases n,
{
    if n < 10 {
        seq![digit_char(n as int)]
    } else {
        dec_nat(n / 10).push(digit_char((n % 10) as int))
    }
}

/// The decimal rendering of a signed integer: a minus sign before the
/// digits when the value is negative.
pub open spec fn dec_int(v: int) -> Seq<char> {
    if v < 0 {
        seq!['-'].add(dec_nat((-v) as nat))
    } else {
        dec_nat(v as nat)
    }
}

/// Renders a single decimal digit.
pub fn digit_string(d: u64) -> (r: String)
    requires
        d < 10,
    ensures
        r@ == seq![digit_char(d as int)],
{
    proof {
        reveal_strlit("0");
        reveal_strlit("1");
        reveal_strlit("2");
        reveal_strlit("3");
        reveal_strlit("4");
        reveal_strlit("5");
        reveal_strlit("6");
        reveal_strlit("7");
        reveal_strlit("8");
        reveal_strlit("9");
    }
    let r: String = if d == 0 {
        String::from_str("0")
    } else if d == 1 {
        String::from_str("1")
    } else if d == 2 {
        String::from_str("2")
    } else if d == 3 {
        String::from_str("3")
    } else if d == 4 {
        String::from_str("4")
    } else if d == 5 {
        String::from_str("5")
    } else if d == 6 {
        String::from_str("6")
    } else if d == 7 {
        String::from_str("7")
    } else if d == 8 {
        String::from_str("8")
    } else {
        String::from_str("9")
    };
    assert(r@ =~= seq![digit_char(d as int)]);
    r
}

/// Renders a non-negative integer in decimal, as `format!("{}", n)` does.
pub fn u64_to_string(n: u64) -> (r: String)
    ensures
        r@ == dec_nat(n as nat),
    decreases n,
{
    if n < 10 {
        digit_string(n)
    } else {
        let mut s = u64_to_string(n / 10);
        let d = digit_string(n % 10);
        s.append(d.as_str());
        assert(s@ =~= dec_nat(n as nat));
        s
    }
}

/// Renders a signed integer in decimal, as `format!("{}", v)` does.
pub fn i64_to_string(v: i64) -> (r: String)
    ensures
        r@ == dec_int(v as int),
{
    if v >= 0 {
        u64_to_string(v as u64)
    } else {
        let mag: u64 = (-(v as i128)) as u64;
        let mut s = String::from_str("-");
        let d = u64_to_string(mag);
        s.append(d.as_str());
        proof {
            reveal_strlit("-");
            assert(s@ =~= dec_int(v as int));
        }
        s
    }
}

/// A proportion carried in hundredths of a percent, rendered with
/// exactly two decimal places, as `format!("{:.2}", p)` renders the
/// percentage itself.
pub open spec fn dec_two_places(p: nat) -> Seq<char> {
    dec_nat(p / 100).push('.').push(digit_char(((p % 100) / 10) as int)).push(
        digit_char((p % 10) as int),
    )
}

/// Renders a proportion held in hundredths of a percent, two decimal
/// places: 7500 becomes `75.00`.
pub fn proportion_to_string(p: u64) -> (r: String)
    ensures
        r@ == dec_two_places(p as nat),
{
    let mut s = u64_to_string(p / 100);
    let dot = String::from_str(".");
    let tens = digit_string((p % 100) / 10);
    let ones = digit_string(p % 10);
    s.append(dot.as_str());
    s.append(tens.as_str());
    s.append(ones.as_str());
    proof {
        reveal_strlit(".");
        assert(s@ =~= dec_two_places(p as nat));
    }
    s
}

} // verus!
