//! Decimal formatting and parsing of unsigned integers, as `u64::to_string`
//! and `str::parse::<u64>` do them.

use vstd::prelude::*;
use crate::text::{chars_of, string_of};

verus! {

/// The ASCII digit for `d` (0 to 9).
pub open spec fn digit_char(d: int) -> char {
    if d == 0 {
        '0'
    } else if d == 1 {
        '1'
    } else if d == 2 {
        '2'
    } else if d == 3 {
        '3'
    } else if d == 4 {
        '4'
    } else if d == 5 {
        '5'
    } else if d == 6 {
        '6'
    } else if d == 7 {
        '7'
    } else if d == 8 {
        '8'
    } else {
        '9'
    }
}

/// The decimal representation of `n`, without sign or leading zeros.
pub open spec fn decimal(n: nat) -> Seq<char>
    decreases n,
{
    if n < 10 {
        seq![digit_char(n as int)]
    } else {
        decimal(n / 10).push(digit_char((n % 10) as int))
    }
}

fn digit(d: u64) -> (c: char)
    requires
        d < 10,
    ensures
        c == digit_char(d as int),
{
    if d == 0 {
        '0'
    } else if d == 1 {
        '1'
    } else if d == 2 {
        '2'
    } else if d == 3 {
        '3'
    } else if d == 4 {
        '4'
    } else if d == 5 {
        '5'
    } else if d == 6 {
        '6'
    } else if d == 7 {
        '7'
    } else if d == 8 {
        '8'
    } else {
        '9'
    }
}

/// `n.to_string()`.
pub fn decimal_string(n: u64) -> (s: String)
    ensures
        s@ == decimal(n as nat),
{
    let mut out: Vec<char> = Vec::new();
    let mut m: u64 = n;
    while m >= 10
        invariant
            decimal(n as nat) == decimal(m as nat) + out@,
        decreases m,
    {
        let c = digit(m % 10);
        let ghost before = out@;
        out.insert(0, c);
        assert(out@ =~= seq![c] + before);
        assert(decimal(m as nat) == decimal((m / 10) as nat).push(c));
        assert(decimal(m as nat) + before =~= decimal((m / 10) as nat) + out@);
        m = m / 10;
    }
    let ghost before = out@;
    out.insert(0, digit(m));
    assert(out@ =~= decimal(m as nat) + before);
    string_of(&out)
}

/// Why text is not a valid `u64` (`core::num::IntErrorKind`).
#[derive(Clone, Copy, Debug, PartialEq, Eq, Structural)]
pub enum IntErrorKind {
    /// The text is empty.
    Empty,
    /// A character is not a decimal digit.
    InvalidDigit,
    /// The value does not fit in a `u64`.
    PosOverflow,
}

/// `c` is an ASCII decimal digit.
pub open spec fn is_digit(c: char) -> bool {
    48 <= (c as u32) <= 57
}

/// The value of the ASCII digit `c`.
pub open spec fn digit_value(c: char) -> int {
    (c as u32) - 48
}

/// The value of a run of decimal digits read left to right, or the first
/// failure met on the way: a non-digit, or the value leaving `u64`.
pub open spec fn digits_value(s: Seq<char>) -> Result<u64, IntErrorKind>
    decreases s.len(),
{
    if s.len() == 0 {
        Ok(0)
    } else {
        match digits_value(s.drop_last()) {
            Err(e) => Err(e),
            Ok(v) => if !is_digit(s.last()) {
                Err(IntErrorKind::InvalidDigit)
            } else if v * 10 + digit_value(s.last()) > u64::MAX {
                Err(IntErrorKind::PosOverflow)
            } else {
                Ok((v * 10 + digit_value(s.last())) as u64)
            },
        }
    }
}

/// What `str::parse::<u64>` gives for `s`: an optional leading `'+'`, then
/// decimal digits.
pub open spec fn parse_u64_spec(s: Seq<char>) -> Result<u64, IntErrorKind> {
    if s.len() == 0 {
        Err(IntErrorKind::Empty)
    } else if s[0] == '+' {
        if s.len() == 1 {
            Err(IntErrorKind::InvalidDigit)
        } else {
            digits_value(s.drop_first())
        }
    } else {
        digits_value(s)
    }
}

/// `s.parse::<u64>()`, with the error's kind.
pub fn parse_u64(s: &str) -> (r: Result<u64, IntErrorKind>)
    ensures
        r == parse_u64_spec(s@),
{
    let v = chars_of(s);
    if v.len() == 0 {
        return Err(IntErrorKind::Empty);
    }
    let mut start: usize = 0;
    if v[0] == '+' {
        if v.len() == 1 {
            return Err(IntErrorKind::InvalidDigit);
        }
        start = 1;
    }
    let ghost d = v@.skip(start as int);
    assert(start == 1 ==> d == s@.drop_first());
    assert(start == 0 ==> d == s@);
    assert(parse_u64_spec(s@) == digits_value(d));
    let mut acc: u64 = 0;
    let mut i: usize = start;
    assert(d.take(0) == Seq::<char>::empty());
    while i < v.len()
        invariant
            start <= i <= v.len(),
            d == v@.skip(start as int),
            parse_u64_spec(s@) == digits_value(d),
            digits_value(d.take(i - start)) == Ok::<u64, IntErrorKind>(acc),
        decreases v.len() - i,
    {
        let c = v[i];
        let ghost k = (i - start) as int;
        assert(d.take(k + 1).drop_last() == d.take(k));
        assert(d.take(k + 1).last() == c);
        if !(48 <= (c as u32) && (c as u32) <= 57) {
            proof {
                lemma_digits_error_extends(d, k + 1);
            }
            return Err(IntErrorKind::InvalidDigit);
        }
        let dv = (c as u32 - 48) as u64;
        match acc.checked_mul(10) {
            None => {
                proof {
                    lemma_digits_error_extends(d, k + 1);
                }
                return Err(IntErrorKind::PosOverflow);
            },
            Some(t) => match t.checked_add(dv) {
                None => {
                    proof {
                        lemma_digits_error_extends(d, k + 1);
                    }
                    return Err(IntErrorKind::PosOverflow);
                },
                Some(u) => {
                    acc = u;
                },
            },
        }
        i += 1;
    }
    assert(d.take(v.len() - start) == d);
    Ok(acc)
}

/// Once a prefix fails, every longer run fails the same way.
proof fn lemma_digits_error_extends(s: Seq<char>, k: int)
    requires
        0 <= k <= s.len(),
        digits_value(s.take(k)) is Err,
    ensures
        digits_value(s) == digits_value(s.take(k)),
    decreases s.len() - k,
{
    if k < s.len() {
        assert(s.take(k + 1).drop_last() == s.take(k));
        lemma_digits_error_extends(s, k + 1);
    } else {
        assert(s.take(k) == s);
    }
}

/// The decimal form of a number is not empty and is made of digits.
pub proof fn lemma_decimal_digits(n: nat)
    ensures
        decimal(n).len() >= 1,
        forall|i: int| 0 <= i < decimal(n).len() ==> is_digit(#[trigger] decimal(n)[i]),
    decreases n,
{
    if n >= 10 {
        lemma_decimal_digits(n / 10);
    }
}

proof fn lemma_digit_char(d: int)
    requires
        0 <= d < 10,
    ensures
        is_digit(digit_char(d)),
        digit_value(digit_char(d)) == d,
{
    assert(('0' as u32) == 48 && ('1' as u32) == 49 && ('2' as u32) == 50 && ('3' as u32) == 51
        && ('4' as u32) == 52 && ('5' as u32) == 53 && ('6' as u32) == 54 && ('7' as u32) == 55
        && ('8' as u32) == 56 && ('9' as u32) == 57);
}

proof fn lemma_digits_value_decimal(n: nat)
    requires
        n <= u64::MAX,
    ensures
        digits_value(decimal(n)) == Ok::<u64, IntErrorKind>(n as u64),
    decreases n,
{
    let s = decimal(n);
    if n < 10 {
        lemma_digit_char(n as int);
        assert(s.drop_last() == Seq::<char>::empty());
        assert(digits_value(s.drop_last()) == Ok::<u64, IntErrorKind>(0));
        assert(s.last() == digit_char(n as int));
    } else {
        lemma_digits_value_decimal(n / 10);
        lemma_digit_char((n % 10) as int);
        assert(s.drop_last() == decimal(n / 10));
        assert(s.last() == digit_char((n % 10) as int));
        assert((n / 10) * 10 + n % 10 == n) by (nonlinear_arith);
    }
}

/// Formatting then parsing gives the number back.
pub proof fn law_parse_decimal_roundtrip(n: u64)
    ensures
        parse_u64_spec(decimal(n as nat)) == Ok::<u64, IntErrorKind>(n),
{
    lemma_decimal_digits(n as nat);
    lemma_digits_value_decimal(n as nat);
    assert(decimal(n as nat)[0] != '+');
}

/// The message `ParseIntError` displays for each kind.
pub open spec fn int_error_text(k: IntErrorKind) -> Seq<char> {
    match k {
        IntErrorKind::Empty => "cannot parse integer from empty string"@,
        IntErrorKind::InvalidDigit => "invalid digit found in string"@,
        IntErrorKind::PosOverflow => "number too large to fit in target type"@,
    }
}

/// The message of a parse error.
pub fn int_error_message(k: IntErrorKind) -> (s: &'static str)
    ensures
        s@ == int_error_text(k),
{
    match k {
        IntErrorKind::Empty => "cannot parse integer from empty string",
        IntErrorKind::InvalidDigit => "invalid digit found in string",
        IntErrorKind::PosOverflow => "number too large to fit in target type",
    }
}

/// `a.saturating_mul(b)`.
pub fn saturating_mul(a: u64, b: u64) -> (r: u64)
    ensures
        r == (if a * b > u64::MAX { u64::MAX as int } else { a * b }),
{
    match a.checked_mul(b) {
        Some(v) => v,
        None => u64::MAX,
    }
}

} // verus!
