//! Decimal text of integers and samples, as the monitoring lines carry it.

use vstd::prelude::*;
use vstd::string::StringExecFns;

verus! {

/// The character of a decimal digit.
pub open spec fn digit(d: nat) -> char {
    if d == 0 { '0' }
    else if d == 1 { '1' }
    else if d == 2 { '2' }
    else if d == 3 { '3' }
    else if d == 4 { '4' }
    else if d == 5 { '5' }
    else if d == 6 { '6' }
    else if d == 7 { '7' }
    else if d == 8 { '8' }
    else { '9' }
}

/// The decimal digits of `n`, without leading zeros.
pub open spec fn decimal(n: nat) -> Seq<char>
    decreases n,
{
    if n < 10 {
        seq![digit(n)]
    } else {
        decimal(n / 10).push(digit(n % 10))
    }
}

/// Three digits for a fraction in thousandths, with leading zeros.
pub open spec fn three_digits(f: nat) -> Seq<char> {
    if f < 10 {
        seq!['0', '0'] + decimal(f)
    } else if f < 100 {
        seq!['0'] + decimal(f)
    } else {
        decimal(f)
    }
}

/// The text of a magnitude in thousandths: whole units, a point and three
/// decimals (`29.999`).
pub open spec fn magnitude_chars(a: nat) -> Seq<char> {
    decimal(a / 1000) + seq!['.'] + three_digits(a % 1000)
}

/// The text of a sample in thousandths: a sign when negative, then its
/// magnitude (`-29.999`).
pub open spec fn sample_chars(v: int) -> Seq<char> {
    if v < 0 {
        seq!['-'] + magnitude_chars((-v) as nat)
    } else {
        magnitude_chars(v as nat)
    }
}

/// The text of one decimal digit.
fn digit_text(d: u64) -> (r: &'static str)
    requires
        d < 10,
    ensures
        r@ == seq![digit(d as nat)],
{
    proof {
        reveal_strlit("0");
        reveal_strlit("1");
        reveal_strlit("2");
        reveal_strlit("3");
        reveal_strlit("4");
        reveal_strlit("5");
        reveal_strlit("6");
        reveal_strlit("7");
        reveal_strlit("8");
        reveal_strlit("9");
    }
    if d == 0 { "0" }
    else if d == 1 { "1" }
    else if d == 2 { "2" }
    else if d == 3 { "3" }
    else if d == 4 { "4" }
    else if d == 5 { "5" }
    else if d == 6 { "6" }
    else if d == 7 { "7" }
    else if d == 8 { "8" }
    else { "9" }
}

/// The decimal digits of `n`.
pub fn decimal_text(n: u64) -> (r: String)
    ensures
        r@ == decimal(n as nat),
{
    let mut acc = String::new();
    let mut m = n;
    loop
        invariant
            decimal(n as nat) == decimal(m as nat) + acc@,
        decreases m,
    {
        let d = digit_text(m % 10);
        let ghost before = acc@;
        acc = String::from_str(d).concat(acc.as_str());
        if m < 10 {
            proof {
                assert(acc@ =~= decimal(m as nat) + before);
            }
            return acc;
        }
        proof {
            assert(decimal(m as nat) + before =~= decimal((m / 10) as nat) + acc@);
        }
        m = m / 10;
    }
}

/// The two strings one after the other.
pub fn concat(a: &str, b: &str) -> (r: String)
    ensures
        r@ == a@ + b@,
{
    String::from_str(a).concat(b)
}

/// The text of a magnitude given in thousandths.
pub fn magnitude_text(a: u64) -> (r: String)
    ensures
        r@ == magnitude_chars(a as nat),
{
    let whole = decimal_text(a / 1000);
    let f = a % 1000;
    let frac = decimal_text(f);
    let padded = if f < 10 {
        proof {
            reveal_strlit("00");
        }
        concat("00", frac.as_str())
    } else if f < 100 {
        proof {
            reveal_strlit("0");
        }
        concat("0", frac.as_str())
    } else {
        frac
    };
    proof {
        reveal_strlit(".");
    }
    let with_point = concat(".", padded.as_str());
    let r = concat(whole.as_str(), with_point.as_str());
    proof {
        assert(r@ =~= magnitude_chars(a as nat));
    }
    r
}

/// The text of a sample given in thousandths.
pub fn sample_text(v: i64) -> (r: String)
    ensures
        r@ == sample_chars(v as int),
{
    if v < 0 {
        let m = magnitude_text((-(v as i128)) as u64);
        proof {
            reveal_strlit("-");
        }
        concat("-", m.as_str())
    } else {
        magnitude_text(v as u64)
    }
}

} // verus!
