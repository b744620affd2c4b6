//! Numeric-literal parsing: an optional sign, an optional two-character radix
//! prefix (`0x`, `0b`, `0o`; absence means decimal), then digits in that
//! radix. A negative literal is re-interpreted as its two's-complement bit
//! pattern in the target field width.

use vstd::prelude::*;

verus! {

/// The value of `c` as a digit, or 99 for a character that is no digit in any
/// supported radix.
pub open spec fn digit_val(c: char) -> int {
    if '0' as int <= c as int <= '9' as int {
        c as int - '0' as int
    } else if 'a' as int <= c as int <= 'f' as int {
        10 + c as int - 'a' as int
    } else if 'A' as int <= c as int <= 'F' as int {
        10 + c as int - 'A' as int
    } else {
        99
    }
}

/// Whether `c` is a digit of the given radix.
pub open spec fn is_digit(c: char, radix: u32) -> bool {
    digit_val(c) < radix
}

/// Whether every character of `s` is a digit of the given radix.
pub open spec fn all_digits(s: Seq<char>, radix: u32) -> bool {
    forall|k: int| 0 <= k < s.len() ==> is_digit(s[k], radix)
}

/// The value of the digit string `s` read in the given radix.
pub open spec fn digits_val(s: Seq<char>, radix: u32) -> int
    decreases s.len(),
{
    if s.len() == 0 {
        0
    } else {
        digits_val(s.drop_last(), radix) * radix + digit_val(s.last())
    }
}

/// The radix a literal announces, and the digit text after the prefix:
/// `0x` means 16, `0b` means 2, `0o` means 8, anything else decimal.
pub open spec fn radix_of(s: Seq<char>) -> (u32, Seq<char>) {
    if s.len() >= 2 && s[0] == '0' && s[1] == 'x' {
        (16u32, s.subrange(2, s.len() as int))
    } else if s.len() >= 2 && s[0] == '0' && s[1] == 'b' {
        (2u32, s.subrange(2, s.len() as int))
    } else if s.len() >= 2 && s[0] == '0' && s[1] == 'o' {
        (8u32, s.subrange(2, s.len() as int))
    } else {
        (10u32, s)
    }
}

/// The sign a literal announces (`true` for negative), and the text after it.
pub open spec fn sign_split(s: Seq<char>) -> (bool, Seq<char>) {
    if s.len() > 0 && s[0] == '-' {
        (true, s.subrange(1, s.len() as int))
    } else if s.len() > 0 && s[0] == '+' {
        (false, s.subrange(1, s.len() as int))
    } else {
        (false, s)
    }
}

/// The digit text of a literal: what remains after sign and radix prefix.
pub open spec fn num_payload(s: Seq<char>) -> Seq<char> {
    radix_of(sign_split(s).1).1
}

/// The bit pattern a literal denotes in a field of `m` values (`m` is 256 for
/// an 8-bit field, 65536 for a 16-bit one): the plain value of a non-negative
/// literal, the two's-complement pattern `m - v` of a negative one; `None`
/// when the digits do not parse in the announced radix or the value does not
/// fit the field.
pub open spec fn lit_pattern(s: Seq<char>, m: u32) -> Option<u32> {
    let neg = sign_split(s).0;
    let body = sign_split(s).1;
    let radix = radix_of(body).0;
    let digs = radix_of(body).1;
    if digs.len() > 0 && all_digits(digs, radix) {
        let v = digits_val(digs, radix);
        if neg {
            if v <= m / 2 {
                Some((if v == 0 { 0int } else { m - v }) as u32)
            } else {
                None
            }
        } else {
            if v < m {
                Some(v as u32)
            } else {
                None
            }
        }
    } else {
        None
    }
}

/// The value of a digit string is never negative.
pub proof fn lemma_digits_val_nonneg(s: Seq<char>, radix: u32)
    ensures
        digits_val(s, radix) >= 0,
    decreases s.len(),
{
    if s.len() > 0 {
        lemma_digits_val_nonneg(s.drop_last(), radix);
        let v = digits_val(s.drop_last(), radix);
        assert(v * radix >= 0) by (nonlinear_arith)
            requires
                v >= 0,
                radix >= 0,
        ;
    }
}

/// Reading more digits never makes the value smaller.
pub proof fn lemma_digits_val_prefix(s: Seq<char>, radix: u32, i: int)
    requires
        radix >= 1,
        0 <= i <= s.len(),
    ensures
        digits_val(s.subrange(0, i), radix) <= digits_val(s, radix),
    decreases s.len(),
{
    if i < s.len() {
        let t = s.drop_last();
        assert(s.subrange(0, i) =~= t.subrange(0, i));
        lemma_digits_val_prefix(t, radix, i);
        let v = digits_val(t, radix);
        lemma_digits_val_nonneg(t, radix);
        assert(v * radix >= v) by (nonlinear_arith)
            requires
                v >= 0,
                radix >= 1,
        ;
        assert(digit_val(s.last()) >= 0);
    } else {
        assert(s.subrange(0, i) =~= s);
    }
}

/// The value of `c` as a digit (99 for a non-digit).
fn char_digit(c: char) -> (r: u32)
    ensures
        r as int == digit_val(c),
{
    let u = c as u32;
    if 48 <= u && u <= 57 {
        u - 48
    } else if 97 <= u && u <= 102 {
        u - 87
    } else if 65 <= u && u <= 70 {
        u - 55
    } else {
        99
    }
}

/// Splits a literal into its radix and its digit text, by the two-character
/// radix prefix if one is there.
pub fn parse_radix<'a>(num: &'a str) -> (r: (u32, &'a str))
    ensures
        r.0 == radix_of(num@).0,
        r.1@ == radix_of(num@).1,
        r.0 == 2 || r.0 == 8 || r.0 == 10 || r.0 == 16,
{
    let n = num.unicode_len();
    if n < 2 {
        return (10, num);
    }
    let c0 = num.get_char(0);
    let c1 = num.get_char(1);
    if c0 == '0' && c1 == 'x' {
        (16, num.substring_char(2, n))
    } else if c0 == '0' && c1 == 'b' {
        (2, num.substring_char(2, n))
    } else if c0 == '0' && c1 == 'o' {
        (8, num.substring_char(2, n))
    } else {
        (10, num)
    }
}

/// Reads a digit string in the given radix, refusing any value above `cap`.
fn parse_digits(s: &str, radix: u32, cap: u32) -> (r: Option<u32>)
    requires
        radix == 2 || radix == 8 || radix == 10 || radix == 16,
        cap <= 65536,
    ensures
        match r {
            Some(v) => s@.len() > 0 && all_digits(s@, radix) && digits_val(s@, radix) == v && v
                <= cap,
            None => s@.len() == 0 || !all_digits(s@, radix) || digits_val(s@, radix) > cap,
        },
{
    let n = s.unicode_len();
    if n == 0 {
        return None;
    }
    let mut v: u32 = 0;
    let mut i: usize = 0;
    while i < n
        invariant
            n == s@.len(),
            i <= n,
            radix == 2 || radix == 8 || radix == 10 || radix == 16,
            cap <= 65536,
            v <= cap,
            v as int == digits_val(s@.subrange(0, i as int), radix),
            forall|k: int| 0 <= k < i ==> is_digit(s@[k], radix),
        decreases n - i,
    {
        let d = char_digit(s.get_char(i));
        if d >= radix {
            return None;
        }
        proof {
            assert(s@.subrange(0, i + 1).drop_last() =~= s@.subrange(0, i as int));
            assert(s@.subrange(0, i + 1).last() == s@[i as int]);
        }
        let v2 = v * radix + d;
        if v2 > cap {
            proof {
                if all_digits(s@, radix) {
                    lemma_digits_val_prefix(s@, radix, i + 1);
                }
            }
            return None;
        }
        v = v2;
        i += 1;
    }
    proof {
        assert(s@.subrange(0, n as int) =~= s@);
    }
    Some(v)
}

/// Reads a full numeric literal (sign, radix prefix, digits) as the bit
/// pattern it denotes in a field of `m` values. On failure hands back the
/// digit text, for the diagnostic.
pub fn parse_literal<'a>(s: &'a str, m: u32) -> (r: Result<u32, &'a str>)
    requires
        m == 256 || m == 65536,
    ensures
        match r {
            Ok(v) => lit_pattern(s@, m) == Some(v),
            Err(d) => lit_pattern(s@, m) is None && d@ == num_payload(s@),
        },
{
    let n = s.unicode_len();
    let neg: bool;
    let body: &str;
    if n > 0 && s.get_char(0) == '-' {
        neg = true;
        body = s.substring_char(1, n);
    } else if n > 0 && s.get_char(0) == '+' {
        neg = false;
        body = s.substring_char(1, n);
    } else {
        neg = false;
        body = s;
    }
    let (radix, digs) = parse_radix(body);
    let cap = if neg {
        m / 2
    } else {
        m - 1
    };
    match parse_digits(digs, radix, cap) {
        None => Err(digs),
        Some(v) => {
            proof {
                lemma_digits_val_nonneg(digs@, radix);
            }
            if neg {
                if v == 0 {
                    Ok(0)
                } else {
                    Ok(m - v)
                }
            } else {
                Ok(v)
            }
        },
    }
}

/// Signed-immediate law: a literal `-N`, with `N` non-zero and representable
/// in a field of `m` values, denotes exactly the two's-complement bit pattern
/// of `-N`, namely `m - N`.
pub proof fn lemma_signed_literal(s: Seq<char>, m: u32)
    requires
        m == 256 || m == 65536,
        s.len() > 0,
        s[0] == '-',
        ({
            let body = s.subrange(1, s.len() as int);
            let radix = radix_of(body).0;
            let digs = radix_of(body).1;
            digs.len() > 0 && all_digits(digs, radix) && 0 < digits_val(digs, radix) <= m / 2
        }),
    ensures
        ({
            let body = s.subrange(1, s.len() as int);
            let n = digits_val(radix_of(body).1, radix_of(body).0);
            lit_pattern(s, m) == Some((m - n) as u32)
        }),
{
}

} // verus!
