//! Rendering numbers as text: decimal (the normalized immediate form, no
//! leading `+`) and fixed-minimum-width uppercase hexadecimal.

use vstd::prelude::*;
use vstd::string::{StrSliceExecFns, StringExecFns};

verus! {

/// The decimal digit character for a value below ten.
pub open spec fn dec_digit_char(d: nat) -> char {
    (48 + d) as char
}

/// The decimal rendering of a natural number: no sign, no leading zeros
/// (except the single digit of zero itself).
pub open spec fn spec_dec_nat(n: nat) -> Seq<char>
    decreases n,
{
    if n < 10 {
        seq![dec_digit_char(n)]
    } else {
        spec_dec_nat(n / 10) + seq![dec_digit_char(n % 10)]
    }
}

/// The normalized decimal rendering of a signed 16-bit value: a `-` sign for
/// negative values, none otherwise.
pub open spec fn spec_dec_i16(v: i16) -> Seq<char> {
    if v < 0 {
        seq!['-'] + spec_dec_nat((-(v as int)) as nat)
    } else {
        spec_dec_nat(v as nat)
    }
}

/// The uppercase hexadecimal digit character for a value below sixteen.
pub open spec fn hex_digit_char(d: nat) -> char {
    if d < 10 {
        (48 + d) as char
    } else {
        (55 + d) as char
    }
}

/// The uppercase hexadecimal rendering of a natural number, zero-padded on the
/// left to at least `width` digits.
pub open spec fn spec_hex(n: nat, width: nat) -> Seq<char>
    decreases n + width,
{
    if n < 16 && width <= 1 {
        seq![hex_digit_char(n)]
    } else {
        spec_hex(n / 16, if width == 0 { 0nat } else { (width - 1) as nat }) + seq![
            hex_digit_char(n % 16),
        ]
    }
}

fn dec_digit_str(d: u32) -> (s: &'static str)
    requires
        d < 10,
    ensures
        s@ == seq![dec_digit_char(d as nat)],
{
    proof {
        reveal_strlit("0");
        reveal_strlit("1");
        reveal_strlit("2");
        reveal_strlit("3");
        reveal_strlit("4");
        reveal_strlit("5");
        reveal_strlit("6");
        reveal_strlit("7");
        reveal_strlit("8");
        reveal_strlit("9");
    }
    let s = if d == 0 {
        "0"
    } else if d == 1 {
        "1"
    } else if d == 2 {
        "2"
    } else if d == 3 {
        "3"
    } else if d == 4 {
        "4"
    } else if d == 5 {
        "5"
    } else if d == 6 {
        "6"
    } else if d == 7 {
        "7"
    } else if d == 8 {
        "8"
    } else {
        "9"
    };
    proof {
        assert(s@ =~= seq![dec_digit_char(d as nat)]);
    }
    s
}

fn hex_digit_str(d: u32) -> (s: &'static str)
    requires
        d < 16,
    ensures
        s@ == seq![hex_digit_char(d as nat)],
{
    if d < 10 {
        dec_digit_str(d)
    } else {
        proof {
            reveal_strlit("A");
            reveal_strlit("B");
            reveal_strlit("C");
            reveal_strlit("D");
            reveal_strlit("E");
            reveal_strlit("F");
        }
        let s = if d == 10 {
            "A"
        } else if d == 11 {
            "B"
        } else if d == 12 {
            "C"
        } else if d == 13 {
            "D"
        } else if d == 14 {
            "E"
        } else {
            "F"
        };
        proof {
            assert(s@ =~= seq![hex_digit_char(d as nat)]);
        }
        s
    }
}

/// Render an unsigned value in decimal.
pub fn dec_u32_string(n: u32) -> (s: String)
    ensures
        s@ == spec_dec_nat(n as nat),
    decreases n,
{
    if n < 10 {
        String::from_str(dec_digit_str(n))
    } else {
        assert(n / 10 < n);
        let mut s = dec_u32_string(n / 10);
        s.append(dec_digit_str(n % 10));
        s
    }
}

/// Render a signed 16-bit value in normalized decimal.
pub fn dec_i16_string(v: i16) -> (s: String)
    ensures
        s@ == spec_dec_i16(v),
{
    if v < 0 {
        proof {
            lemma_i16_neg_bits(v);
        }
        let mag: u32 = 0x10000 - ((v as u16) as u32);
        let mut s = String::from_str("-");
        let digits = dec_u32_string(mag);
        s.append(digits.as_str());
        proof {
            reveal_strlit("-");
            assert(s@ =~= spec_dec_i16(v));
        }
        s
    } else {
        dec_u32_string(v as u32)
    }
}

proof fn lemma_i16_neg_bits(v: i16)
    by (bit_vector)
    requires
        v < 0,
    ensures
        (v as u16) == v + 0x10000,
{
}

/// Render a value in uppercase hexadecimal, zero-padded on the left to at
/// least `width` digits.
pub fn hex_u64_string(n: u64, width: usize) -> (s: String)
    ensures
        s@ == spec_hex(n as nat, width as nat),
    decreases n, width,
{
    if n < 16 && width <= 1 {
        String::from_str(hex_digit_str(n as u32))
    } else {
        let w2: usize = if width == 0 {
            0
        } else {
            width - 1
        };
        let mut s = hex_u64_string(n / 16, w2);
        s.append(hex_digit_str((n % 16) as u32));
        s
    }
}

} // verus!
