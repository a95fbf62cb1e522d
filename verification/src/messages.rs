//! The status texts the pipeline emits.
//!
//! Progress reporting needs only two sentences: a per-file status line
//! and the final summary.  Both are specified down to the exact
//! character sequence, so the numbers are rendered by a verified
//! decimal printer instead of an opaque formatter.  Elapsed time
//! arrives as a count of hundredths of a second and is printed with
//! two decimal places.

use vstd::prelude::*;
use vstd::string::*;

verus! {

/// The character for one decimal digit.
pub open spec fn spec_digit_char(d: int) -> char {
    if d == 0 {
        '0'
    } else if d == 1 {
        '1'
    } else if d == 2 {
        '2'
    } else if d == 3 {
        '3'
    } else if d == 4 {
        '4'
    } else if d == 5 {
        '5'
    } else if d == 6 {
        '6'
    } else if d == 7 {
        '7'
    } else if d == 8 {
        '8'
    } else {
        '9'
    }
}

/// Decimal digits of `n`, most significant first, without leading
/// zeros (`0` itself prints as one digit).
pub open spec fn spec_decimal(n: nat) -> Seq<char>
    decreases n,
{
    if n < 10 {
        seq![spec_digit_char(n as int)]
    } else {
        spec_decimal(n / 10).push(spec_digit_char((n % 10) as int))
    }
}

/// The one-character string for a decimal digit.
pub fn digit_str(d: u64) -> (s: &'static str)
    requires
        d < 10,
    ensures
        s@ == seq![spec_digit_char(d as int)],
{
    proof {
        reveal_strlit("0");
        reveal_strlit("1");
        reveal_strlit("2");
        reveal_strlit("3");
        reveal_strlit("4");
        reveal_strlit("5");
        reveal_strlit("6");
        reveal_strlit("7");
        reveal_strlit("8");
        reveal_strlit("9");
    }
    let s = match d {
        0 => "0",
        1 => "1",
        2 => "2",
        3 => "3",
        4 => "4",
        5 => "5",
        6 => "6",
        7 => "7",
        8 => "8",
        _ => "9",
    };
    proof {
        assert(s@ =~= seq![spec_digit_char(d as int)]);
    }
    s
}

/// Print `n` in decimal.
pub fn decimal_string(n: u64) -> (s: String)
    ensures
        s@ == spec_decimal(n as nat),
    decreases n,
{
    if n < 10 {
        String::from_str(digit_str(n))
    } else {
        let mut s = decimal_string(n / 10);
        s.append(digit_str(n % 10));
        proof {
            assert(s@ =~= spec_decimal(n as nat));
        }
        s
    }
}

/// The per-file status line.
pub open spec fn spec_status(file_name: Seq<char>) -> Seq<char> {
    "Processing: "@ + file_name
}

/// The status line announcing one file.
pub fn status_message(file_name: &str) -> (s: String)
    ensures
        s@ == spec_status(file_name@),
{
    let mut s = String::from_str("Processing: ");
    s.append(file_name);
    s
}

/// The final summary: how many files were processed and the elapsed
/// wall-clock seconds with two decimal places.
pub open spec fn spec_summary(total: nat, hundredths: nat) -> Seq<char> {
    "Done! Processed "@ + spec_decimal(total) + " files in "@ + spec_decimal(hundredths / 100)
        + seq!['.', spec_digit_char(((hundredths % 100) / 10) as int), spec_digit_char(
        (hundredths % 10) as int,
    ), 's']
}

/// The summary reported when a batch of `total` files finishes after
/// `hundredths` hundredths of a second.
pub fn summary_message(total: u64, hundredths: u64) -> (s: String)
    ensures
        s@ == spec_summary(total as nat, hundredths as nat),
{
    let mut s = String::from_str("Done! Processed ");
    s.append(decimal_string(total).as_str());
    s.append(" files in ");
    s.append(decimal_string(hundredths / 100).as_str());
    s.append(".");
    s.append(digit_str((hundredths % 100) / 10));
    s.append(digit_str(hundredths % 10));
    s.append("s");
    proof {
        reveal_strlit(".");
        reveal_strlit("s");
        assert("."@ =~= seq!['.']);
        assert("s"@ =~= seq!['s']);
        assert(s@ =~= spec_summary(total as nat, hundredths as nat));
    }
    s
}

} // verus!
