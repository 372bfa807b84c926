//! Decimal rendering of machine integers, used for derived display names
//! and generated identifiers.

use vstd::prelude::*;

use vstd::string::StringExecFns;

verus! {

/// The character of a decimal digit.
pub open spec fn digit_char(d: int) -> char {
    if d == 0 {
        '0'
    } else if d == 1 {
        '1'
    } else if d == 2 {
        '2'
    } else if d == 3 {
        '3'
    } else if d == 4 {
        '4'
    } else if d == 5 {
        '5'
    } else if d == 6 {
        '6'
    } else if d == 7 {
        '7'
    } else if d == 8 {
        '8'
    } else {
        '9'
    }
}

/// The decimal digits of a number, most significant first, without leading
/// zeros (zero itself is "0").
pub open spec fn dec_chars(n: nat) -> Seq<char>
    decreases n,
{
    if n < 10 {
        seq![digit_char(n as int)]
    } else {
        dec_chars(n / 10).push(digit_char((n % 10) as int))
    }
}

/// The digits collected least-significant-first, read back in display order.
spec fn rev_chars(ds: Seq<u64>) -> Seq<char> {
    Seq::new(ds.len(), |i: int| digit_char(ds[ds.len() - 1 - i] as int))
}

/// The one-character string of a decimal digit.
fn digit_str(d: u64) -> (r: &'static str)
    requires
        d < 10,
    ensures
        r@ == seq![digit_char(d as int)],
{
    proof {
        reveal_strlit("0");
        reveal_strlit("1");
        reveal_strlit("2");
        reveal_strlit("3");
        reveal_strlit("4");
        reveal_strlit("5");
        reveal_strlit("6");
        reveal_strlit("7");
        reveal_strlit("8");
        reveal_strlit("9");
    }
    let r = match d {
        0 => "0",
        1 => "1",
        2 => "2",
        3 => "3",
        4 => "4",
        5 => "5",
        6 => "6",
        7 => "7",
        8 => "8",
        _ => "9",
    };
    proof {
        assert(r@ =~= seq![digit_char(d as int)]);
    }
    r
}

/// Renders a number in decimal.
pub fn u64_to_dec(n: u64) -> (r: String)
    ensures
        r@ == dec_chars(n as nat),
{
    let mut digits: Vec<u64> = Vec::new();
    digits.push(n % 10);
    let mut m: u64 = n / 10;
    proof {
        if n < 10 {
            assert(rev_chars(digits@) =~= dec_chars(n as nat));
        } else {
            assert(dec_chars(n as nat) =~= dec_chars((n / 10) as nat) + rev_chars(digits@));
        }
    }
    while m > 0
        invariant
            m > 0 ==> dec_chars(n as nat) == dec_chars(m as nat) + rev_chars(digits@),
            m == 0 ==> dec_chars(n as nat) == rev_chars(digits@),
            digits@.len() >= 1,
            forall|t: int| 0 <= t < digits@.len() ==> digits@[t] < 10,
        decreases m,
    {
        let d = m % 10;
        digits.push(d);
        let ghost old_m = m;
        let ghost old_ds = digits@.drop_last();
        m = m / 10;
        proof {
            assert(rev_chars(old_ds.push(d)) =~= seq![digit_char(d as int)] + rev_chars(old_ds));
            if old_m < 10 {
                assert(dec_chars(old_m as nat) =~= seq![digit_char(old_m as int)]);
                assert(dec_chars(n as nat) =~= rev_chars(digits@));
            } else {
                assert(dec_chars(old_m as nat) =~= dec_chars((old_m / 10) as nat) + seq![
                    digit_char((old_m % 10) as int),
                ]);
                assert(dec_chars((old_m / 10) as nat) + seq![digit_char((old_m % 10) as int)]
                    + rev_chars(old_ds) =~= dec_chars((old_m / 10) as nat) + rev_chars(digits@));
                assert(dec_chars(n as nat) =~= dec_chars(m as nat) + rev_chars(digits@));
            }
        }
    }
    let mut out = String::new();
    let mut j: usize = digits.len();
    while j > 0
        invariant
            j <= digits@.len(),
            forall|t: int| 0 <= t < digits@.len() ==> digits@[t] < 10,
            out@ == Seq::new(
                (digits@.len() - j) as nat,
                |i: int| digit_char(digits@[digits@.len() - 1 - i] as int),
            ),
        decreases j,
    {
        let piece = digit_str(digits[j - 1]);
        out.append(piece);
        proof {
            assert(out@ =~= Seq::new(
                (digits@.len() - (j - 1)) as nat,
                |i: int| digit_char(digits@[digits@.len() - 1 - i] as int),
            ));
        }
        j = j - 1;
    }
    proof {
        assert(out@ =~= rev_chars(digits@));
    }
    out
}

} // verus!
