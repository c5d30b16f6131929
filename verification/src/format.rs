use vstd::prelude::*;

verus! {

use crate::transfer::{GB, MB};
use vstd::string::{StrSliceExecFns, StringExecFns};

/// The decimal digit character for `d`.
pub open spec fn dec_digit(d: int) -> char
    recommends
        0 <= d <= 9,
{
    if d == 0 {
        '0'
    } else if d == 1 {
        '1'
    } else if d == 2 {
        '2'
    } else if d == 3 {
        '3'
    } else if d == 4 {
        '4'
    } else if d == 5 {
        '5'
    } else if d == 6 {
        '6'
    } else if d == 7 {
        '7'
    } else if d == 8 {
        '8'
    } else {
        '9'
    }
}

/// The decimal digits of `n`, most significant first, with no leading
/// zeros.
pub open spec fn dec_str(n: int) -> Seq<char>
    recommends
        n >= 0,
    decreases n,
{
    if n < 10 {
        seq![dec_digit(n)]
    } else {
        dec_str(n / 10).push(dec_digit(n % 10))
    }
}

/// Relies on std's `Display` for `u64`: it renders the value's decimal
/// digits, most significant first, without leading zeros.
#[verifier::external_body]
fn u64_to_string(n: u64) -> (r: String)
    ensures
        r@ == dec_str(n as int),
{
    format!("{}", n)
}

/// A hundredth count rendered as exactly two digits.
pub open spec fn frac_digits(frac: int) -> Seq<char>
    recommends
        0 <= frac <= 99,
{
    if frac < 10 {
        "0"@ + dec_str(frac)
    } else {
        dec_str(frac)
    }
}

/// A byte count in a human-readable unit: gigabytes above one gigabyte,
/// megabytes otherwise, with two fractional digits, truncated.
pub open spec fn size_text(size: int) -> Seq<char>
    recommends
        size >= 0,
{
    if size > GB {
        dec_str(size / (GB as int)) + "."@ + frac_digits(
            (size % (GB as int)) * 100 / (GB as int),
        ) + " GB"@
    } else {
        dec_str(size / (MB as int)) + "."@ + frac_digits(
            (size % (MB as int)) * 100 / (MB as int),
        ) + " MB"@
    }
}

/// Renders a byte count in a human-readable unit, as [`size_text`]
/// describes.
pub fn get_size_in_nice(size: u64) -> (r: String)
    ensures
        r@ == size_text(size as int),
{
    let unit: u64 = if size > GB {
        GB
    } else {
        MB
    };
    let whole = size / unit;
    let rem = size % unit;
    let frac = rem * 100 / unit;
    let mut s = u64_to_string(whole);
    s.append(".");
    if frac < 10 {
        s.append("0");
    }
    let f = u64_to_string(frac);
    s.append(f.as_str());
    if size > GB {
        s.append(" GB");
    } else {
        s.append(" MB");
    }
    proof {
        let a = dec_str(whole as int);
        let d = dec_str(frac as int);
        if frac < 10 {
            assert(((a + "."@) + "0"@) + d =~= (a + "."@) + ("0"@ + d));
        }
        assert(s@ =~= size_text(size as int));
    }
    s
}

} // verus!
