//! ASCII representations of unsigned numbers: uppercase hexadecimal for
//! chunk-size lines, decimal for `Content-Length` and status codes.

use vstd::prelude::*;

use crate::ascii::{DIGIT_0, DIGIT_9, LOWER_A, LOWER_F, UPPER_A, UPPER_F};

verus! {

/// Is `b` an ASCII decimal digit?
pub open spec fn is_dec_digit(b: u8) -> bool {
    DIGIT_0 <= b <= DIGIT_9
}

/// Is `b` an ASCII hexadecimal digit (either case)?
pub open spec fn is_hex_digit(b: u8) -> bool {
    (DIGIT_0 <= b <= DIGIT_9) || (LOWER_A <= b <= LOWER_F) || (UPPER_A <= b <= UPPER_F)
}

/// Numeric value of a hexadecimal digit.
pub open spec fn hex_digit_value(b: u8) -> nat {
    if DIGIT_0 <= b <= DIGIT_9 {
        (b - DIGIT_0) as nat
    } else if LOWER_A <= b <= LOWER_F {
        (b - LOWER_A + 10) as nat
    } else {
        (b - UPPER_A + 10) as nat
    }
}

/// The uppercase hexadecimal digit for a value below 16.
pub open spec fn hex_digit(v: nat) -> u8 {
    if v < 10 {
        (v + DIGIT_0) as u8
    } else {
        (v - 10 + UPPER_A) as u8
    }
}

/// The decimal digit for a value below 10.
pub open spec fn dec_digit(v: nat) -> u8 {
    (v + DIGIT_0) as u8
}

/// Uppercase hexadecimal digits of `n`, most significant first, no leading
/// zeros (`0` is written as one digit).
pub open spec fn hex_digits(n: nat) -> Seq<u8>
    decreases n,
{
    if n < 16 {
        seq![hex_digit(n)]
    } else {
        hex_digits(n / 16).push(hex_digit(n % 16))
    }
}

/// Decimal digits of `n`, most significant first, no leading zeros.
pub open spec fn dec_digits(n: nat) -> Seq<u8>
    decreases n,
{
    if n < 10 {
        seq![dec_digit(n)]
    } else {
        dec_digits(n / 10).push(dec_digit(n % 10))
    }
}

/// Value of a hexadecimal digit string (most significant digit first).
pub open spec fn hex_value(s: Seq<u8>) -> nat
    decreases s.len(),
{
    if s.len() == 0 {
        0
    } else {
        hex_value(s.drop_last()) * 16 + hex_digit_value(s.last())
    }
}

/// Value of a decimal digit string (most significant digit first).
pub open spec fn dec_value(s: Seq<u8>) -> nat
    decreases s.len(),
{
    if s.len() == 0 {
        0
    } else {
        dec_value(s.drop_last()) * 10 + (s.last() - DIGIT_0) as nat
    }
}

/// Every byte of the hexadecimal rendering is a hexadecimal digit.
pub proof fn lemma_hex_digits_are_digits(n: nat)
    ensures
        hex_digits(n).len() >= 1,
        forall|i: int| 0 <= i < hex_digits(n).len() ==> is_hex_digit(#[trigger] hex_digits(n)[i]),
    decreases n,
{
    if n >= 16 {
        lemma_hex_digits_are_digits(n / 16);
    }
}

/// Every byte of the decimal rendering is a decimal digit.
pub proof fn lemma_dec_digits_are_digits(n: nat)
    ensures
        dec_digits(n).len() >= 1,
        forall|i: int| 0 <= i < dec_digits(n).len() ==> is_dec_digit(#[trigger] dec_digits(n)[i]),
    decreases n,
{
    if n >= 10 {
        lemma_dec_digits_are_digits(n / 10);
    }
}

/// Reading the hexadecimal rendering of `n` back gives `n`.
pub proof fn lemma_hex_value_of_digits(n: nat)
    ensures
        hex_value(hex_digits(n)) == n,
    decreases n,
{
    if n < 16 {
        let s = hex_digits(n);
        assert(s =~= seq![hex_digit(n)]);
        assert(s.drop_last() =~= Seq::<u8>::empty());
        assert(s.last() == hex_digit(n));
        assert(hex_value(Seq::<u8>::empty()) == 0);
        assert(hex_value(s) == hex_value(s.drop_last()) * 16 + hex_digit_value(s.last()));
        assert(hex_digit_value(hex_digit(n)) == n);
    } else {
        lemma_hex_value_of_digits(n / 16);
        let s = hex_digits(n);
        assert(s == hex_digits(n / 16).push(hex_digit(n % 16)));
        assert(s.drop_last() =~= hex_digits(n / 16));
        assert(s.last() == hex_digit(n % 16));
        assert(hex_value(s) == hex_value(s.drop_last()) * 16 + hex_digit_value(s.last()));
        assert(hex_digit_value(hex_digit(n % 16)) == n % 16);
        assert((n / 16) * 16 + n % 16 == n) by (nonlinear_arith);
    }
}

/// Reading the decimal rendering of `n` back gives `n`.
pub proof fn lemma_dec_value_of_digits(n: nat)
    ensures
        dec_value(dec_digits(n)) == n,
    decreases n,
{
    if n < 10 {
        let s = dec_digits(n);
        assert(s =~= seq![dec_digit(n)]);
        assert(s.drop_last() =~= Seq::<u8>::empty());
        assert(s.last() == dec_digit(n));
        assert(dec_value(Seq::<u8>::empty()) == 0);
        assert(dec_value(s) == dec_value(s.drop_last()) * 10 + (s.last() - DIGIT_0) as nat);
    } else {
        lemma_dec_value_of_digits(n / 10);
        let s = dec_digits(n);
        assert(s == dec_digits(n / 10).push(dec_digit(n % 10)));
        assert(s.drop_last() =~= dec_digits(n / 10));
        assert(s.last() == dec_digit(n % 10));
        assert(dec_value(s) == dec_value(s.drop_last()) * 10 + (s.last() - DIGIT_0) as nat);
        assert((n / 10) * 10 + n % 10 == n) by (nonlinear_arith);
    }
}

/// The value of a digit-string prefix never exceeds the value of the whole.
pub proof fn lemma_dec_value_prefix(s: Seq<u8>, i: int)
    requires
        0 <= i <= s.len(),
    ensures
        dec_value(s.take(i)) <= dec_value(s),
    decreases s.len() - i,
{
    if i < s.len() {
        assert(s.take(i + 1).drop_last() =~= s.take(i));
        assert(dec_value(s.take(i + 1)) == dec_value(s.take(i)) * 10 + (s.take(i + 1).last()
            - DIGIT_0) as nat);
        lemma_dec_value_prefix(s, i + 1);
        assert(s.take(s.len() as int) =~= s);
    } else {
        assert(s.take(i) =~= s);
    }
}

/// Exec rendering of `n` in uppercase hexadecimal ASCII.
pub fn to_hex(n: usize) -> (v: Vec<u8>)
    ensures
        v@ =~= hex_digits(n as nat),
    decreases n,
{
    if n < 16 {
        let d: u8 = if n < 10 {
            n as u8 + DIGIT_0
        } else {
            n as u8 - 10 + UPPER_A
        };
        let mut v: Vec<u8> = Vec::new();
        v.push(d);
        v
    } else {
        let mut v = to_hex(n / 16);
        let r: usize = n % 16;
        let d: u8 = if r < 10 {
            r as u8 + DIGIT_0
        } else {
            r as u8 - 10 + UPPER_A
        };
        v.push(d);
        v
    }
}

/// Exec rendering of `n` in decimal ASCII.
pub fn to_dec(n: usize) -> (v: Vec<u8>)
    ensures
        v@ =~= dec_digits(n as nat),
    decreases n,
{
    if n < 10 {
        let mut v: Vec<u8> = Vec::new();
        v.push(n as u8 + DIGIT_0);
        v
    } else {
        let mut v = to_dec(n / 10);
        v.push((n % 10) as u8 + DIGIT_0);
        v
    }
}

/// Parses an ASCII decimal number. Returns `Ok(n)` exactly when `s` is
/// nonempty, holds decimal digits only, and its value fits in `usize`;
/// `n` is then that value.
pub fn parse_dec(s: &[u8]) -> (r: Result<usize, crate::error::HttpError>)
    ensures
        match r {
            Ok(n) => s@.len() >= 1 && (forall|i: int|
                0 <= i < s@.len() ==> is_dec_digit(#[trigger] s@[i])) && n as nat == dec_value(s@)
                && dec_value(s@) <= usize::MAX,
            Err(e) => e matches crate::error::HttpError::Parse && (s@.len() == 0 || (exists|i: int|
                0 <= i < s@.len() && !is_dec_digit(#[trigger] s@[i])) || dec_value(s@)
                > usize::MAX),
        },
{
    if s.len() == 0 {
        return Err(crate::error::HttpError::Parse);
    }
    let mut acc: usize = 0;
    let mut i: usize = 0;
    while i < s.len()
        invariant
            0 <= i <= s@.len(),
            acc as nat == dec_value(s@.take(i as int)),
            forall|j: int| 0 <= j < i ==> is_dec_digit(#[trigger] s@[j]),
        decreases s@.len() - i,
    {
        let b = s[i];
        if !(DIGIT_0 <= b && b <= DIGIT_9) {
            return Err(crate::error::HttpError::Parse);
        }
        let d: usize = (b - DIGIT_0) as usize;
        proof {
            assert(s@.take(i + 1).drop_last() =~= s@.take(i as int));
            assert(s@.take(i + 1).last() == s@[i as int]);
        }
        if acc > (usize::MAX - d) / 10 {
            proof {
                assert(dec_value(s@.take(i + 1)) == acc * 10 + d);
                assert(acc * 10 + d > usize::MAX) by (nonlinear_arith)
                    requires
                        acc > (usize::MAX - d) / 10,
                        d <= 9,
                ;
                lemma_dec_value_prefix(s@, i + 1);
            }
            return Err(crate::error::HttpError::Parse);
        }
        acc = acc * 10 + d;
        i = i + 1;
    }
    proof {
        assert(s@.take(s@.len() as int) =~= s@);
    }
    Ok(acc)
}

} // verus!
