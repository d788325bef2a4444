//! Decimal and hexadecimal formatting and parsing of integers.

use vstd::prelude::*;

verus! {

/// The ASCII digit for `d` in base 16 (lowercase), valid for `d < 16`.
pub open spec fn digit_char(d: nat) -> char {
    if d < 10 {
        ((d + 48) as u8) as char
    } else {
        ((d - 10 + 97) as u8) as char
    }
}

/// Digits of `n` in base `b` (`b` is 10 or 16), most significant first, no
/// leading zeros; `0` is `"0"`. This is what `{}` and `{:x}` print.
pub open spec fn digits_spec(n: nat, b: nat) -> Seq<char>
    decreases n,
{
    if b < 2 || n < b {
        seq![digit_char(n)]
    } else {
        proof {
            assert(n / b < n) by (nonlinear_arith)
                requires
                    b >= 2,
                    n >= b,
            ;
        }
        digits_spec(n / b, b).push(digit_char(n % b))
    }
}

/// `format!("{}", n)` for a signed integer.
pub open spec fn signed_dec_spec(n: int) -> Seq<char> {
    if n < 0 {
        seq!['-'] + digits_spec((-n) as nat, 10)
    } else {
        digits_spec(n as nat, 10)
    }
}

/// The character for a digit value below 16.
pub fn digit_char_exec(d: u64) -> (c: char)
    requires
        d < 16,
    ensures
        c == digit_char(d as nat),
{
    let b: u8 = if d < 10 { (d as u8) + 48 } else { (d as u8) - 10 + 97 };
    b as char
}

fn push_digits(out: &mut String, n: u64, b: u64)
    requires
        b == 10 || b == 16,
    ensures
        final(out)@ == old(out)@ + digits_spec(n as nat, b as nat),
    decreases n,
{
    if n < b {
        crate::text::push_char(out, digit_char_exec(n));
    } else {
        push_digits(out, n / b, b);
        crate::text::push_char(out, digit_char_exec(n % b));
    }
}

/// `format!("{}", n)` for an unsigned integer.
pub fn u64_to_dec(n: u64) -> (res: String)
    ensures
        res@ == digits_spec(n as nat, 10),
{
    let mut s = String::new();
    push_digits(&mut s, n, 10);
    s
}

fn push_dec_wide(out: &mut String, n: u128)
    ensures
        final(out)@ == old(out)@ + digits_spec(n as nat, 10),
    decreases n,
{
    if n < 10 {
        crate::text::push_char(out, digit_char_exec(n as u64));
    } else {
        push_dec_wide(out, n / 10);
        crate::text::push_char(out, digit_char_exec((n % 10) as u64));
    }
}

/// `format!("{}", n)` for a `u128`.
pub fn u128_to_dec(n: u128) -> (res: String)
    ensures
        res@ == digits_spec(n as nat, 10),
{
    let mut s = String::new();
    push_dec_wide(&mut s, n);
    s
}

/// `format!("{:x}", n)`.
pub fn u64_to_hex(n: u64) -> (res: String)
    ensures
        res@ == digits_spec(n as nat, 16),
{
    let mut s = String::new();
    push_digits(&mut s, n, 16);
    s
}

/// `format!("{}", n)` for a signed integer.
pub fn i64_to_dec(n: i64) -> (res: String)
    ensures
        res@ == signed_dec_spec(n as int),
{
    let mut s = String::new();
    if n < 0 {
        crate::text::push_char(&mut s, '-');
        let m: u64 = if n == i64::MIN { 9223372036854775808u64 } else { (-n) as u64 };
        push_digits(&mut s, m, 10);
    } else {
        push_digits(&mut s, n as u64, 10);
    }
    s
}

/// True for the ASCII digits `0`..`9`.
pub open spec fn is_digit(c: char) -> bool {
    '0' <= c && c <= '9'
}

/// Value of an ASCII digit.
pub open spec fn digit_val(c: char) -> nat {
    (c as u32 - 48) as nat
}

/// Why `str::parse` of an integer failed (std's `IntErrorKind`).
#[derive(Debug, Clone, Copy, PartialEq, Eq, Structural)]
pub enum IntErrorKind {
    Empty,
    InvalidDigit,
    PosOverflow,
    NegOverflow,
}

/// std's left-to-right digit scan from position `k` with value `acc` so far:
/// the first non-digit is an invalid digit, a value above `max` an overflow.
pub open spec fn scan_digits(body: Seq<char>, k: int, acc: nat, max: nat, neg: bool) -> Result<nat, IntErrorKind>
    decreases body.len() - k,
{
    if k >= body.len() || k < 0 {
        Ok(acc)
    } else if !is_digit(body[k]) {
        Err(IntErrorKind::InvalidDigit)
    } else if acc * 10 + digit_val(body[k]) > max {
        Err(if neg { IntErrorKind::NegOverflow } else { IntErrorKind::PosOverflow })
    } else {
        scan_digits(body, k + 1, acc * 10 + digit_val(body[k]), max, neg)
    }
}

/// `str::parse` for an unsigned integer type whose largest value is `max`.
pub open spec fn parse_unsigned_spec(s: Seq<char>, max: nat) -> Result<nat, IntErrorKind> {
    if s.len() == 0 {
        Err(IntErrorKind::Empty)
    } else if s.len() == 1 && (s[0] == '+' || s[0] == '-') {
        Err(IntErrorKind::InvalidDigit)
    } else if s[0] == '+' {
        scan_digits(s.skip(1), 0, 0, max, false)
    } else {
        scan_digits(s, 0, 0, max, false)
    }
}

/// `str::parse::<i64>`.
pub open spec fn parse_i64_spec(s: Seq<char>) -> Result<int, IntErrorKind> {
    if s.len() == 0 {
        Err(IntErrorKind::Empty)
    } else if s.len() == 1 && (s[0] == '+' || s[0] == '-') {
        Err(IntErrorKind::InvalidDigit)
    } else if s[0] == '-' {
        match scan_digits(s.skip(1), 0, 0, 0x8000_0000_0000_0000, true) {
            Ok(v) => Ok(-(v as int)),
            Err(e) => Err(e),
        }
    } else {
        match parse_unsigned_spec(s, 0x7fff_ffff_ffff_ffff) {
            Ok(v) => Ok(v as int),
            Err(e) => Err(e),
        }
    }
}

fn scan_exec(s: &[char], lo: usize, max: u128, neg: bool) -> (res: Result<u128, IntErrorKind>)
    requires
        lo <= s.len(),
    ensures
        match res {
            Ok(v) => scan_digits(s@.skip(lo as int), 0, 0, max as nat, neg) == Ok::<nat, IntErrorKind>(v as nat)
                && v <= max,
            Err(e) => scan_digits(s@.skip(lo as int), 0, 0, max as nat, neg) == Err::<nat, IntErrorKind>(e),
        },
{
    let ghost body = s@.skip(lo as int);
    let mut v: u128 = 0;
    let mut i: usize = lo;
    while i < s.len()
        invariant
            lo <= i <= s.len(),
            body == s@.skip(lo as int),
            v <= max,
            scan_digits(body, 0, 0, max as nat, neg) == scan_digits(body, i - lo, v as nat, max as nat, neg),
        decreases s.len() - i,
    {
        let c = s[i];
        assert(body[i - lo] == c);
        if !('0' <= c && c <= '9') {
            return Err(IntErrorKind::InvalidDigit);
        }
        let d: u128 = (c as u32 - 48) as u128;
        if d > max || v > (max - d) / 10 {
            proof {
                assert(v * 10 + d > max) by (nonlinear_arith)
                    requires
                        d > max || v > (max - d) / 10,
                        d <= 9,
                ;
            }
            return Err(if neg { IntErrorKind::NegOverflow } else { IntErrorKind::PosOverflow });
        }
        proof {
            assert(v * 10 + d <= max) by (nonlinear_arith)
                requires
                    v <= (max - d) / 10,
                    d <= max,
            ;
        }
        v = v * 10 + d;
        i = i + 1;
    }
    Ok(v)
}

fn parse_unsigned_wide(s: &[char], max: u128) -> (res: Result<u128, IntErrorKind>)
    ensures
        match res {
            Ok(v) => parse_unsigned_spec(s@, max as nat) == Ok::<nat, IntErrorKind>(v as nat) && v <= max,
            Err(e) => parse_unsigned_spec(s@, max as nat) == Err::<nat, IntErrorKind>(e),
        },
{
    if s.len() == 0 {
        return Err(IntErrorKind::Empty);
    }
    if s.len() == 1 && (s[0] == '+' || s[0] == '-') {
        return Err(IntErrorKind::InvalidDigit);
    }
    let lo: usize = if s[0] == '+' { 1 } else { 0 };
    assert(lo == 0 ==> s@.skip(0) =~= s@);
    scan_exec(s, lo, max, false)
}

/// `str::parse` for an unsigned integer at most `max`, on a character slice.
pub fn parse_unsigned(s: &[char], max: u64) -> (res: Result<u64, IntErrorKind>)
    ensures
        match res {
            Ok(v) => parse_unsigned_spec(s@, max as nat) == Ok::<nat, IntErrorKind>(v as nat) && v <= max,
            Err(e) => parse_unsigned_spec(s@, max as nat) == Err::<nat, IntErrorKind>(e),
        },
{
    match parse_unsigned_wide(s, max as u128) {
        Ok(v) => Ok(v as u64),
        Err(e) => Err(e),
    }
}

/// `str::parse::<u128>`.
pub fn parse_u128(s: &str) -> (res: Result<u128, IntErrorKind>)
    ensures
        match res {
            Ok(v) => parse_unsigned_spec(s@, u128::MAX as nat) == Ok::<nat, IntErrorKind>(v as nat),
            Err(e) => parse_unsigned_spec(s@, u128::MAX as nat) == Err::<nat, IntErrorKind>(e),
        },
{
    let cs = crate::text::chars_of(s);
    parse_unsigned_wide(cs.as_slice(), u128::MAX)
}

/// `str::parse::<u32>`.
pub fn parse_u32(s: &str) -> (res: Result<u32, IntErrorKind>)
    ensures
        match res {
            Ok(v) => parse_unsigned_spec(s@, u32::MAX as nat) == Ok::<nat, IntErrorKind>(v as nat),
            Err(e) => parse_unsigned_spec(s@, u32::MAX as nat) == Err::<nat, IntErrorKind>(e),
        },
{
    let cs = crate::text::chars_of(s);
    match parse_unsigned(cs.as_slice(), u32::MAX as u64) {
        Ok(v) => Ok(v as u32),
        Err(e) => Err(e),
    }
}

/// `str::parse::<u8>`.
pub fn parse_u8(s: &str) -> (res: Result<u8, IntErrorKind>)
    ensures
        match res {
            Ok(v) => parse_unsigned_spec(s@, u8::MAX as nat) == Ok::<nat, IntErrorKind>(v as nat),
            Err(e) => parse_unsigned_spec(s@, u8::MAX as nat) == Err::<nat, IntErrorKind>(e),
        },
{
    let cs = crate::text::chars_of(s);
    match parse_unsigned(cs.as_slice(), u8::MAX as u64) {
        Ok(v) => Ok(v as u8),
        Err(e) => Err(e),
    }
}

/// `str::parse::<i64>`.
pub fn parse_i64(s: &str) -> (res: Result<i64, IntErrorKind>)
    ensures
        match res {
            Ok(v) => parse_i64_spec(s@) == Ok::<int, IntErrorKind>(v as int),
            Err(e) => parse_i64_spec(s@) == Err::<int, IntErrorKind>(e),
        },
{
    let cs = crate::text::chars_of(s);
    if cs.len() == 0 {
        return Err(IntErrorKind::Empty);
    }
    if cs.len() == 1 && (cs[0] == '+' || cs[0] == '-') {
        return Err(IntErrorKind::InvalidDigit);
    }
    if cs[0] == '-' {
        match scan_exec(cs.as_slice(), 1, 0x8000_0000_0000_0000u128, true) {
            Ok(v) => {
                if v == 0x8000_0000_0000_0000u128 {
                    Ok(i64::MIN)
                } else {
                    Ok(-(v as i64))
                }
            },
            Err(e) => Err(e),
        }
    } else {
        match parse_unsigned(cs.as_slice(), 0x7fff_ffff_ffff_ffffu64) {
            Ok(v) => Ok(v as i64),
            Err(e) => Err(e),
        }
    }
}

/// The message std's `ParseIntError` displays for each kind.
pub open spec fn int_error_message_spec(kind: IntErrorKind) -> Seq<char> {
    match kind {
        IntErrorKind::Empty => "cannot parse integer from empty string"@,
        IntErrorKind::InvalidDigit => "invalid digit found in string"@,
        IntErrorKind::PosOverflow => "number too large to fit in target type"@,
        IntErrorKind::NegOverflow => "number too small to fit in target type"@,
    }
}

/// The message of a failed integer parse, as std displays it.
pub fn int_error_message(kind: IntErrorKind) -> (res: String)
    ensures
        res@ == int_error_message_spec(kind),
{
    match kind {
        IntErrorKind::Empty => "cannot parse integer from empty string".to_owned(),
        IntErrorKind::InvalidDigit => "invalid digit found in string".to_owned(),
        IntErrorKind::PosOverflow => "number too large to fit in target type".to_owned(),
        IntErrorKind::NegOverflow => "number too small to fit in target type".to_owned(),
    }
}

} // verus!
