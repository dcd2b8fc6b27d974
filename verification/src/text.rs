//! Decimal text: the digits of a number, and the progress line the renderer
//! logs for each finished row.
//!
//! Everything the renderer writes — the image header, the pixel triples, the
//! per-row timing line — is plain ASCII text built from decimal numbers, so
//! the decimal formatter is shared here and carries the one spec,
//! [`decimal`], that the other modules' contracts speak of.

use vstd::prelude::*;
use vstd::string::StringExecFns;

verus! {

/// The character for one decimal digit.
pub open spec fn digit_char(d: nat) -> char {
    if d == 0 {
        '0'
    } else if d == 1 {
        '1'
    } else if d == 2 {
        '2'
    } else if d == 3 {
        '3'
    } else if d == 4 {
        '4'
    } else if d == 5 {
        '5'
    } else if d == 6 {
        '6'
    } else if d == 7 {
        '7'
    } else if d == 8 {
        '8'
    } else {
        '9'
    }
}

/// The decimal digits of `n`, most significant first, with no sign and no
/// leading zero (a single `'0'` for zero itself).
pub open spec fn decimal(n: nat) -> Seq<char>
    decreases n,
{
    if n < 10 {
        seq![digit_char(n)]
    } else {
        decimal(n / 10).push(digit_char(n % 10))
    }
}

/// The one-character string for one decimal digit.
fn digit_str(d: u128) -> (s: &'static str)
    requires
        d < 10,
    ensures
        s@ == seq![digit_char(d as nat)],
{
    let s: &'static str = match d {
        0 => "0",
        1 => "1",
        2 => "2",
        3 => "3",
        4 => "4",
        5 => "5",
        6 => "6",
        7 => "7",
        8 => "8",
        _ => "9",
    };
    proof {
        reveal_strlit("0");
        reveal_strlit("1");
        reveal_strlit("2");
        reveal_strlit("3");
        reveal_strlit("4");
        reveal_strlit("5");
        reveal_strlit("6");
        reveal_strlit("7");
        reveal_strlit("8");
        reveal_strlit("9");
        assert(s@ =~= seq![digit_char(d as nat)]);
    }
    s
}

/// Appends the decimal digits of `n` to `out`.
pub fn push_decimal(out: &mut String, n: u128)
    ensures
        final(out)@ == old(out)@ + decimal(n as nat),
    decreases n,
{
    if n >= 10 {
        push_decimal(out, n / 10);
    }
    out.append(digit_str(n % 10));
    proof {
        if n >= 10 {
            assert(decimal(n as nat) =~= decimal(n as nat / 10) + seq![
                digit_char(n as nat % 10),
            ]);
            assert(old(out)@ + decimal(n as nat / 10) + seq![digit_char(n as nat % 10)] =~= old(
                out,
            )@ + decimal(n as nat));
        } else {
            assert(old(out)@ + seq![digit_char(n as nat)] =~= old(out)@ + decimal(n as nat));
        }
    }
}

/// The decimal digits of `n` as a string.
pub fn decimal_string(n: u128) -> (s: String)
    ensures
        s@ == decimal(n as nat),
{
    let mut s = String::new();
    push_decimal(&mut s, n);
    proof {
        assert(Seq::<char>::empty() + decimal(n as nat) =~= decimal(n as nat));
    }
    s
}

/// The progress line logged after a row is rendered: the image row it was,
/// and how long it took in nanoseconds.
pub fn format_elapsed(row: usize, elapsed_nanos: u128) -> (s: String)
    ensures
        s@ == "time elapsed on "@ + decimal(row as nat) + " "@ + decimal(elapsed_nanos as nat)
            + "ns"@,
{
    let mut s = String::new();
    s.append("time elapsed on ");
    push_decimal(&mut s, row as u128);
    s.append(" ");
    push_decimal(&mut s, elapsed_nanos);
    s.append("ns");
    proof {
        assert(s@ =~= "time elapsed on "@ + decimal(row as nat) + " "@ + decimal(
            elapsed_nanos as nat,
        ) + "ns"@);
    }
    s
}

} // verus!
