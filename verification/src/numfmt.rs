//! Decimal rendering of the numeric listing fields, pinned to a recursive
//! digit-sequence description.

use vstd::prelude::*;
use crate::strutil::string_from_chars;

verus! {

/// The character for one decimal digit.
pub open spec fn dec_digit(d: int) -> char {
    ((48 + d) as u8) as char
}

/// The decimal digits of `n`, most significant first, no leading zeros
/// (a single `'0'` for zero).
pub open spec fn dec_seq(n: nat) -> Seq<char>
    decreases n,
{
    if n < 10 {
        seq![dec_digit(n as int)]
    } else {
        dec_seq(n / 10).push(dec_digit((n % 10) as int))
    }
}

/// The decimal text of `n`, sign included.
pub open spec fn dec_seq_i64(n: int) -> Seq<char> {
    if n < 0 {
        seq!['-'] + dec_seq((-n) as nat)
    } else {
        dec_seq(n as nat)
    }
}

/// `n` written in decimal.
pub fn u64_to_string(n: u64) -> (s: String)
    ensures
        s@ == dec_seq(n as nat),
{
    let mut v: Vec<char> = Vec::new();
    let mut m: u64 = n;
    while m >= 10
        invariant
            dec_seq(n as nat) =~= dec_seq(m as nat) + v@,
        decreases m,
    {
        let d: u8 = (m % 10) as u8;
        let c: char = (48 + d) as char;
        v.insert(0, c);
        proof {
            assert(c == dec_digit((m % 10) as int));
            assert(dec_seq(m as nat) =~= dec_seq((m / 10) as nat) + seq![c]);
        }
        m = m / 10;
        proof {
            assert(dec_seq(n as nat) =~= dec_seq(m as nat) + v@);
        }
    }
    let d: u8 = (m % 10) as u8;
    let c: char = (48 + d) as char;
    v.insert(0, c);
    proof {
        assert(c == dec_digit(m as int));
        assert(dec_seq(m as nat) =~= seq![c]);
        assert(v@ =~= dec_seq(n as nat));
    }
    string_from_chars(&v)
}

/// `n` written in decimal, with a leading minus sign when negative.
pub fn i64_to_string(n: i64) -> (s: String)
    ensures
        s@ == dec_seq_i64(n as int),
{
    if n >= 0 {
        u64_to_string(n as u64)
    } else {
        let wide: i128 = n as i128;
        let mag: u64 = (-wide) as u64;
        let digits = u64_to_string(mag);
        let mut v: Vec<char> = vec!['-'];
        let mut s = string_from_chars(&v);
        vstd::string::StringExecFns::append(&mut s, digits.as_str());
        proof {
            assert(s@ =~= dec_seq_i64(n as int));
        }
        s
    }
}

} // verus!
