//! Decimal rendering of the signed 16-bit values that appear in decoded
//! instructions: displacements, immediates and direct addresses.

use vstd::prelude::*;

verus! {

/// The character for a single decimal digit value.
pub open spec fn digit_char(d: nat) -> char {
    if d == 0 {
        '0'
    } else if d == 1 {
        '1'
    } else if d == 2 {
        '2'
    } else if d == 3 {
        '3'
    } else if d == 4 {
        '4'
    } else if d == 5 {
        '5'
    } else if d == 6 {
        '6'
    } else if d == 7 {
        '7'
    } else if d == 8 {
        '8'
    } else {
        '9'
    }
}

/// The usual decimal numeral of a natural number: most significant digit
/// first, no leading zeros (a single '0' for zero).
pub open spec fn dec_str(n: nat) -> Seq<char>
    decreases n,
{
    if n < 10 {
        seq![digit_char(n)]
    } else {
        dec_str(n / 10) + seq![digit_char(n % 10)]
    }
}

/// The decimal numeral of an integer: the numeral of its magnitude,
/// preceded by '-' when it is negative.
pub open spec fn int_str(v: int) -> Seq<char> {
    if v >= 0 {
        dec_str(v as nat)
    } else {
        "-"@ + dec_str((-v) as nat)
    }
}

/// Every character of a decimal numeral is a digit; in particular no sign
/// ever appears inside one.
pub proof fn lemma_dec_str_digits(n: nat)
    ensures
        dec_str(n).len() >= 1,
        forall|i: int| 0 <= i < dec_str(n).len() ==> '0' <= #[trigger] dec_str(n)[i] <= '9',
    decreases n,
{
    if n < 10 {
        assert(dec_str(n) == seq![digit_char(n)]);
    } else {
        lemma_dec_str_digits(n / 10);
        assert forall|i: int| 0 <= i < dec_str(n).len() implies '0' <= #[trigger] dec_str(n)[i]
            <= '9' by {
            if i < dec_str(n / 10).len() {
                assert(dec_str(n)[i] == dec_str(n / 10)[i]);
            } else {
                assert(dec_str(n)[i] == digit_char(n % 10));
            }
        }
    }
}

/// The one-character string for a decimal digit value.
fn digit_str(d: u8) -> (s: &'static str)
    requires
        d < 10,
    ensures
        s@ == seq![digit_char(d as nat)],
{
    proof {
        reveal_strlit("0");
        reveal_strlit("1");
        reveal_strlit("2");
        reveal_strlit("3");
        reveal_strlit("4");
        reveal_strlit("5");
        reveal_strlit("6");
        reveal_strlit("7");
        reveal_strlit("8");
        reveal_strlit("9");
    }
    let s: &'static str = match d {
        0 => "0",
        1 => "1",
        2 => "2",
        3 => "3",
        4 => "4",
        5 => "5",
        6 => "6",
        7 => "7",
        8 => "8",
        _ => "9",
    };
    proof {
        assert(s@ =~= seq![digit_char(d as nat)]);
    }
    s
}

/// Renders an unsigned value as its decimal numeral.
pub fn unsigned_decimal(n: u16) -> (s: String)
    ensures
        s@ == dec_str(n as nat),
    decreases n,
{
    if n < 10 {
        String::from_str(digit_str(n as u8))
    } else {
        let mut s = unsigned_decimal(n / 10);
        s.append(digit_str((n % 10) as u8));
        proof {
            assert(s@ =~= dec_str(n as nat));
        }
        s
    }
}

/// Renders a signed value as its decimal numeral, '-' first when negative.
pub fn signed_decimal(v: i16) -> (s: String)
    ensures
        s@ == int_str(v as int),
{
    if v >= 0 {
        unsigned_decimal(v as u16)
    } else {
        let mag: i32 = -(v as i32);
        let mut s = String::from_str("-");
        let digits = unsigned_decimal(mag as u16);
        s.append(digits.as_str());
        proof {
            assert(s@ =~= int_str(v as int));
        }
        s
    }
}

} // verus!
