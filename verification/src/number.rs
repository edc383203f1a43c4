//! Reading integers written by the user (decimal, `0x` prefix or `h` suffix
//! for hexadecimal) and writing integers as decimal or hexadecimal text.

use vstd::prelude::*;
use crate::text::{chars_of, lower, lower_char, replace_all, replace_all_exec, slice_vec};

verus! {

/// Why a piece of text is not an integer of the wanted type.
#[derive(Debug, Clone, Copy, PartialEq, Eq, Structural)]
pub enum ParseError {
    Empty,
    InvalidDigit,
    PosOverflow,
    NegOverflow,
}

/// The message that the standard library's `ParseIntError` displays.
pub open spec fn error_text(e: ParseError) -> Seq<char> {
    match e {
        ParseError::Empty => "cannot parse integer from empty string"@,
        ParseError::InvalidDigit => "invalid digit found in string"@,
        ParseError::PosOverflow => "number too large to fit in target type"@,
        ParseError::NegOverflow => "number too small to fit in target type"@,
    }
}

impl ParseError {
    /// The message that the standard library's `ParseIntError` displays.
    pub fn message(&self) -> (r: &'static str)
        ensures
            r@ == error_text(*self),
    {
        match self {
            ParseError::Empty => "cannot parse integer from empty string",
            ParseError::InvalidDigit => "invalid digit found in string",
            ParseError::PosOverflow => "number too large to fit in target type",
            ParseError::NegOverflow => "number too small to fit in target type",
        }
    }
}

/// The integer types the debugger reads.
#[derive(Debug, Clone, Copy, PartialEq, Eq, Structural)]
pub enum IntKind {
    U8,
    I8,
    U16,
    I16,
    U32,
    I32,
    U64,
    I64,
    U128,
    Usize,
    Isize,
}

pub open spec fn kind_signed(k: IntKind) -> bool {
    match k {
        IntKind::I8 | IntKind::I16 | IntKind::I32 | IntKind::I64 | IntKind::Isize => true,
        _ => false,
    }
}

/// The largest value of the type.
pub open spec fn kind_max(k: IntKind) -> nat {
    match k {
        IntKind::U8 => u8::MAX as nat,
        IntKind::I8 => i8::MAX as nat,
        IntKind::U16 => u16::MAX as nat,
        IntKind::I16 => i16::MAX as nat,
        IntKind::U32 => u32::MAX as nat,
        IntKind::I32 => i32::MAX as nat,
        IntKind::U64 => u64::MAX as nat,
        IntKind::I64 => i64::MAX as nat,
        IntKind::U128 => u128::MAX as nat,
        IntKind::Usize => usize::MAX as nat,
        IntKind::Isize => isize::MAX as nat,
    }
}

/// The magnitude of the smallest value of the type.
pub open spec fn kind_min_mag(k: IntKind) -> nat {
    match k {
        IntKind::I8 => 128,
        IntKind::I16 => 0x8000,
        IntKind::I32 => 0x8000_0000,
        IntKind::I64 => 0x8000_0000_0000_0000,
        IntKind::Isize => (-(isize::MIN as int)) as nat,
        _ => 0,
    }
}

fn kind_bounds(k: IntKind) -> (r: (bool, u128, u128))
    ensures
        r.0 == kind_signed(k),
        r.1 == kind_max(k),
        r.2 == kind_min_mag(k),
{
    match k {
        IntKind::U8 => (false, 0xff, 0),
        IntKind::I8 => (true, 0x7f, 128),
        IntKind::U16 => (false, 0xffff, 0),
        IntKind::I16 => (true, 0x7fff, 0x8000),
        IntKind::U32 => (false, 0xffff_ffff, 0),
        IntKind::I32 => (true, 0x7fff_ffff, 0x8000_0000),
        IntKind::U64 => (false, 0xffff_ffff_ffff_ffff, 0),
        IntKind::I64 => (true, 0x7fff_ffff_ffff_ffff, 0x8000_0000_0000_0000),
        IntKind::U128 => (false, u128::MAX, 0),
        IntKind::Usize => (false, usize::MAX as u128, 0),
        IntKind::Isize => {
            let m = isize::MAX as u128;
            (true, m, m + 1)
        },
    }
}

/// The value of `c` as a digit in base `radix` (at most 36), as
/// `char::to_digit` gives it, or -1 when it is not such a digit.
pub open spec fn digit_value(c: char, radix: nat) -> int {
    let v: int = if '0' <= c <= '9' {
        c as int - '0' as int
    } else if 'a' <= c <= 'z' {
        c as int - 'a' as int + 10
    } else if 'A' <= c <= 'Z' {
        c as int - 'A' as int + 10
    } else {
        99
    };
    if v < radix {
        v
    } else {
        -1
    }
}

fn digit_value_exec(c: char, radix: u32) -> (r: i32)
    requires
        radix <= 36,
    ensures
        r == digit_value(c, radix as nat),
{
    let v: i32 = if '0' <= c && c <= '9' {
        (c as u32 - '0' as u32) as i32
    } else if 'a' <= c && c <= 'z' {
        (c as u32 - 'a' as u32 + 10) as i32
    } else if 'A' <= c && c <= 'Z' {
        (c as u32 - 'A' as u32 + 10) as i32
    } else {
        99
    };
    if (v as u32) < radix {
        v
    } else {
        -1
    }
}

/// Digit-by-digit accumulation from position `i` with the value `acc` read
/// so far: every character must be a digit, and the value may never pass
/// `limit` (the error is then `over`).
pub open spec fn scan(s: Seq<char>, radix: nat, i: int, acc: nat, limit: nat, over: ParseError) -> Result<
    nat,
    ParseError,
>
    decreases s.len() - i,
{
    if i >= s.len() {
        Ok(acc)
    } else {
        let d = digit_value(s[i], radix);
        if d < 0 {
            Err(ParseError::InvalidDigit)
        } else if acc * radix + d > limit {
            Err(over)
        } else {
            scan(s, radix, i + 1, (acc * radix + d) as nat, limit, over)
        }
    }
}

/// What `from_str_radix` of the standard library gives for `s` in base
/// `radix` for an integer of kind `k`, as its documentation states it: an
/// optional `+` (or `-` for a signed type) followed by digits of the radix and
/// nothing else, with errors for the empty string, a lone sign, a character
/// that is no digit (whitespace and `_` included) and a value out of range
/// (too large, or too small after a `-`).
pub open spec fn parse_radix(s: Seq<char>, radix: nat, k: IntKind) -> Result<int, ParseError> {
    if s.len() == 0 {
        Err(ParseError::Empty)
    } else if (s[0] == '+' || s[0] == '-') && s.len() == 1 {
        Err(ParseError::InvalidDigit)
    } else if s[0] == '+' {
        match scan(s, radix, 1, 0, kind_max(k), ParseError::PosOverflow) {
            Ok(v) => Ok(v as int),
            Err(e) => Err(e),
        }
    } else if s[0] == '-' && kind_signed(k) {
        match scan(s, radix, 1, 0, kind_min_mag(k), ParseError::NegOverflow) {
            Ok(v) => Ok(-v),
            Err(e) => Err(e),
        }
    } else {
        match scan(s, radix, 0, 0, kind_max(k), ParseError::PosOverflow) {
            Ok(v) => Ok(v as int),
            Err(e) => Err(e),
        }
    }
}

pub open spec fn zero_x() -> Seq<char> {
    seq!['0', 'x']
}

/// How the debugger reads a number: a leading `0x` or `0X` means
/// hexadecimal, with every `0x` of the text removed; otherwise a trailing
/// `h` or `H` means hexadecimal, without that letter; otherwise decimal.
pub open spec fn str_to_spec(s: Seq<char>, k: IntKind) -> Result<int, ParseError> {
    if s.len() >= 2 && s[0] == '0' && lower(s[1]) == 'x' {
        parse_radix(replace_all(s, zero_x(), Seq::empty()), 16, k)
    } else if s.len() >= 1 && lower(s.last()) == 'h' {
        parse_radix(s.drop_last(), 16, k)
    } else {
        parse_radix(s, 10, k)
    }
}

/// A sign and magnitude that fit in the type of kind `k`.
pub open spec fn kind_bounded(k: IntKind, neg: bool, mag: u128) -> bool {
    if neg {
        kind_signed(k) && mag <= kind_min_mag(k)
    } else {
        mag <= kind_max(k)
    }
}

/// Signed result of a parse: whether it is negative, and its magnitude.
pub open spec fn signed_value(neg: bool, mag: u128) -> int {
    if neg {
        -(mag as int)
    } else {
        mag as int
    }
}

fn scan_exec(s: &Vec<char>, radix: u32, start: usize, limit: u128, over: ParseError) -> (r: Result<
    u128,
    ParseError,
>)
    requires
        2 <= radix <= 36,
        start <= s.len(),
    ensures
        match r {
            Ok(v) => scan(s@, radix as nat, start as int, 0, limit as nat, over) == Ok::<
                nat,
                ParseError,
            >(v as nat),
            Err(e) => scan(s@, radix as nat, start as int, 0, limit as nat, over) == Err::<
                nat,
                ParseError,
            >(e),
        },
        r matches Ok(v) ==> v <= limit,
{
    let mut acc: u128 = 0;
    let mut i = start;
    while i < s.len()
        invariant
            start <= i <= s.len(),
            2 <= radix <= 36,
            acc <= limit,
            scan(s@, radix as nat, i as int, acc as nat, limit as nat, over) == scan(
                s@,
                radix as nat,
                start as int,
                0,
                limit as nat,
                over,
            ),
        decreases s.len() - i,
    {
        let d = digit_value_exec(s[i], radix);
        if d < 0 {
            return Err(ParseError::InvalidDigit);
        }
        let du = d as u128;
        match acc.checked_mul(radix as u128) {
            None => {
                assert(acc * radix + d > limit) by (nonlinear_arith)
                    requires
                        acc * radix > u128::MAX,
                        d >= 0,
                        limit <= u128::MAX,
                ;
                return Err(over);
            },
            Some(m) => {
                match m.checked_add(du) {
                    None => {
                        return Err(over);
                    },
                    Some(v) => {
                        if v > limit {
                            return Err(over);
                        }
                        acc = v;
                    },
                }
            },
        }
        i = i + 1;
    }
    Ok(acc)
}

/// `s` read as an integer of kind `k` in base `radix`; the result is the
/// sign and the magnitude.
pub fn parse_radix_exec(s: &Vec<char>, radix: u32, k: IntKind) -> (r: Result<(bool, u128), ParseError>)
    requires
        2 <= radix <= 36,
    ensures
        match r {
            Ok((neg, mag)) => parse_radix(s@, radix as nat, k) == Ok::<int, ParseError>(
                signed_value(neg, mag),
            ),
            Err(e) => parse_radix(s@, radix as nat, k) == Err::<int, ParseError>(e),
        },
        r matches Ok((neg, mag)) ==> kind_bounded(k, neg, mag),
{
    let (signed, max, min_mag) = kind_bounds(k);
    if s.len() == 0 {
        return Err(ParseError::Empty);
    }
    if (s[0] == '+' || s[0] == '-') && s.len() == 1 {
        return Err(ParseError::InvalidDigit);
    }
    if s[0] == '+' {
        match scan_exec(s, radix, 1, max, ParseError::PosOverflow) {
            Ok(v) => Ok((false, v)),
            Err(e) => Err(e),
        }
    } else if s[0] == '-' && signed {
        match scan_exec(s, radix, 1, min_mag, ParseError::NegOverflow) {
            Ok(v) => Ok((true, v)),
            Err(e) => Err(e),
        }
    } else {
        match scan_exec(s, radix, 0, max, ParseError::PosOverflow) {
            Ok(v) => Ok((false, v)),
            Err(e) => Err(e),
        }
    }
}

/// The debugger's reading of `s` as an integer of kind `k` (see
/// `str_to_spec`); the result is the sign and the magnitude.
pub fn str_to_chars(s: &Vec<char>, k: IntKind) -> (r: Result<(bool, u128), ParseError>)
    ensures
        match r {
            Ok((neg, mag)) => str_to_spec(s@, k) == Ok::<int, ParseError>(signed_value(neg, mag)),
            Err(e) => str_to_spec(s@, k) == Err::<int, ParseError>(e),
        },
        r matches Ok((neg, mag)) ==> kind_bounded(k, neg, mag),
{
    if s.len() >= 2 && s[0] == '0' && lower_char(s[1]) == 'x' {
        let p: Vec<char> = vec!['0', 'x'];
        let e: Vec<char> = Vec::new();
        proof {
            assert(p@ =~= zero_x());
            assert(e@ =~= Seq::<char>::empty());
        }
        let t = replace_all_exec(s, &p, &e);
        parse_radix_exec(&t, 16, k)
    } else if s.len() >= 1 && lower_char(s[s.len() - 1]) == 'h' {
        let t = slice_vec(s, 0, s.len() - 1);
        proof {
            assert(t@ =~= s@.drop_last());
        }
        parse_radix_exec(&t, 16, k)
    } else {
        parse_radix_exec(s, 10, k)
    }
}

/// `r` is the typed reading of the result `t` of `str_to_spec`.
pub open spec fn agrees<T>(r: Result<T, ParseError>, t: Result<int, ParseError>, f: spec_fn(T) -> int) -> bool {
    match r {
        Ok(v) => t == Ok::<int, ParseError>(f(v)),
        Err(e) => t == Err::<int, ParseError>(e),
    }
}

/// Reads `s` as an unsigned 64-bit integer.
pub fn str_to_u64(s: &str) -> (r: Result<u64, ParseError>)
    ensures
        agrees(r, str_to_spec(s@, IntKind::U64), |v: u64| v as int),
{
    let c = chars_of(s);
    str_to_u64_chars(&c)
}

/// Reads the characters `s` as an unsigned 64-bit integer.
pub fn str_to_u64_chars(s: &Vec<char>) -> (r: Result<u64, ParseError>)
    ensures
        agrees(r, str_to_spec(s@, IntKind::U64), |v: u64| v as int),
{
    match str_to_chars(s, IntKind::U64) {
        Ok((_, m)) => Ok(m as u64),
        Err(e) => Err(e),
    }
}

/// Reads `s` as a signed 64-bit integer.
pub fn str_to_i64(s: &str) -> (r: Result<i64, ParseError>)
    ensures
        agrees(r, str_to_spec(s@, IntKind::I64), |v: i64| v as int),
{
    let c = chars_of(s);
    str_to_i64_chars(&c)
}

/// Reads the characters `s` as a signed 64-bit integer.
pub fn str_to_i64_chars(s: &Vec<char>) -> (r: Result<i64, ParseError>)
    ensures
        agrees(r, str_to_spec(s@, IntKind::I64), |v: i64| v as int),
{
    match str_to_chars(s, IntKind::I64) {
        Ok((neg, m)) => {
            if neg {
                if m == 0x8000_0000_0000_0000 {
                    Ok(i64::MIN)
                } else {
                    Ok(-(m as i64))
                }
            } else {
                Ok(m as i64)
            }
        },
        Err(e) => Err(e),
    }
}

/// Reads `s` as a pointer-sized unsigned integer.
pub fn str_to_usize(s: &str) -> (r: Result<usize, ParseError>)
    ensures
        agrees(r, str_to_spec(s@, IntKind::Usize), |v: usize| v as int),
{
    let c = chars_of(s);
    str_to_usize_chars(&c)
}

/// Reads the characters `s` as a pointer-sized unsigned integer.
pub fn str_to_usize_chars(s: &Vec<char>) -> (r: Result<usize, ParseError>)
    ensures
        agrees(r, str_to_spec(s@, IntKind::Usize), |v: usize| v as int),
{
    match str_to_chars(s, IntKind::Usize) {
        Ok((_, m)) => Ok(m as usize),
        Err(e) => Err(e),
    }
}

/// Reads `s` as a pointer-sized signed integer.
pub fn str_to_isize(s: &str) -> (r: Result<isize, ParseError>)
    ensures
        agrees(r, str_to_spec(s@, IntKind::Isize), |v: isize| v as int),
{
    let c = chars_of(s);
    match str_to_chars(&c, IntKind::Isize) {
        Ok((neg, m)) => {
            if neg {
                if m == isize::MAX as u128 + 1 {
                    Ok(isize::MIN)
                } else {
                    Ok(-(m as isize))
                }
            } else {
                Ok(m as isize)
            }
        },
        Err(e) => Err(e),
    }
}

/// Reads `s` as an unsigned 8-bit integer.
pub fn str_to_u8(s: &str) -> (r: Result<u8, ParseError>)
    ensures
        agrees(r, str_to_spec(s@, IntKind::U8), |v: u8| v as int),
{
    let c = chars_of(s);
    match str_to_chars(&c, IntKind::U8) {
        Ok((_, m)) => Ok(m as u8),
        Err(e) => Err(e),
    }
}

/// Reads `s` as an unsigned 16-bit integer.
pub fn str_to_u16(s: &str) -> (r: Result<u16, ParseError>)
    ensures
        agrees(r, str_to_spec(s@, IntKind::U16), |v: u16| v as int),
{
    let c = chars_of(s);
    match str_to_chars(&c, IntKind::U16) {
        Ok((_, m)) => Ok(m as u16),
        Err(e) => Err(e),
    }
}

/// Reads `s` as a signed 8-bit integer.
pub fn str_to_i8(s: &str) -> (r: Result<i8, ParseError>)
    ensures
        agrees(r, str_to_spec(s@, IntKind::I8), |v: i8| v as int),
{
    let c = chars_of(s);
    match str_to_chars(&c, IntKind::I8) {
        Ok((neg, m)) => {
            if neg {
                if m == 0x80 {
                    Ok(i8::MIN)
                } else {
                    Ok(-(m as i8))
                }
            } else {
                Ok(m as i8)
            }
        },
        Err(e) => Err(e),
    }
}

/// Reads `s` as a signed 16-bit integer.
pub fn str_to_i16(s: &str) -> (r: Result<i16, ParseError>)
    ensures
        agrees(r, str_to_spec(s@, IntKind::I16), |v: i16| v as int),
{
    let c = chars_of(s);
    match str_to_chars(&c, IntKind::I16) {
        Ok((neg, m)) => {
            if neg {
                if m == 0x8000 {
                    Ok(i16::MIN)
                } else {
                    Ok(-(m as i16))
                }
            } else {
                Ok(m as i16)
            }
        },
        Err(e) => Err(e),
    }
}

/// Reads `s` as a signed 32-bit integer.
pub fn str_to_i32(s: &str) -> (r: Result<i32, ParseError>)
    ensures
        agrees(r, str_to_spec(s@, IntKind::I32), |v: i32| v as int),
{
    let c = chars_of(s);
    match str_to_chars(&c, IntKind::I32) {
        Ok((neg, m)) => {
            if neg {
                if m == 0x8000_0000 {
                    Ok(i32::MIN)
                } else {
                    Ok(-(m as i32))
                }
            } else {
                Ok(m as i32)
            }
        },
        Err(e) => Err(e),
    }
}

/// Reads `s` as an unsigned 32-bit integer.
pub fn str_to_u32(s: &str) -> (r: Result<u32, ParseError>)
    ensures
        agrees(r, str_to_spec(s@, IntKind::U32), |v: u32| v as int),
{
    let c = chars_of(s);
    match str_to_chars(&c, IntKind::U32) {
        Ok((_, m)) => Ok(m as u32),
        Err(e) => Err(e),
    }
}

/// Reads `s` as an unsigned 128-bit integer.
pub fn str_to_u128(s: &str) -> (r: Result<u128, ParseError>)
    ensures
        agrees(r, str_to_spec(s@, IntKind::U128), |v: u128| v as int),
{
    let c = chars_of(s);
    match str_to_chars(&c, IntKind::U128) {
        Ok((_, m)) => Ok(m),
        Err(e) => Err(e),
    }
}

/// The character of digit `d` (below 16), lowercase for hexadecimal.
pub open spec fn digit_char(d: nat) -> char {
    if d < 10 {
        ('0' as nat + d) as char
    } else {
        ('a' as nat + d - 10) as char
    }
}

/// The digits of `n` in base `radix`, most significant first, without
/// leading zeros (`0` is written as one digit).
pub open spec fn digits(n: nat, radix: nat) -> Seq<char>
    decreases n,
{
    if radix < 2 {
        Seq::empty()
    } else if n < radix {
        seq![digit_char(n)]
    } else {
        proof {
            vstd::arithmetic::div_mod::lemma_div_decreases(n as int, radix as int);
        }
        digits(n / radix, radix).push(digit_char(n % radix))
    }
}

fn digit_char_exec(d: u64) -> (c: char)
    requires
        d < 16,
    ensures
        c == digit_char(d as nat),
{
    let b: u8 = if d < 10 {
        48 + d as u8
    } else {
        87 + d as u8
    };
    b as char
}

/// The digits of `n` in base `radix` (2 to 16).
pub fn fmt_radix(n: u64, radix: u64) -> (r: Vec<char>)
    requires
        2 <= radix <= 16,
    ensures
        r@ == digits(n as nat, radix as nat),
{
    let mut acc: Vec<char> = Vec::new();
    let mut q = n;
    while q >= radix
        invariant
            2 <= radix <= 16,
            digits(n as nat, radix as nat) == digits(q as nat, radix as nat) + acc@,
        decreases q,
    {
        let c = digit_char_exec(q % radix);
        let ghost old_acc = acc@;
        acc.insert(0, c);
        proof {
            assert(digits(q as nat, radix as nat) == digits((q / radix) as nat, radix as nat).push(
                c,
            ));
            assert(digits((q / radix) as nat, radix as nat).push(c) + old_acc =~= digits(
                (q / radix) as nat,
                radix as nat,
            ) + acc@);
        }
        q = q / radix;
    }
    let c = digit_char_exec(q);
    acc.insert(0, c);
    acc
}

/// `n` in decimal, as `format!("{}", n)` writes it.
pub fn fmt_dec(n: u64) -> (r: Vec<char>)
    ensures
        r@ == digits(n as nat, 10),
{
    fmt_radix(n, 10)
}

/// `n` as `format!("{:#x}", n)` writes it: `0x` and the hexadecimal digits.
pub fn fmt_hex(n: u64) -> (r: Vec<char>)
    ensures
        r@ == zero_x() + digits(n as nat, 16),
{
    let d = fmt_radix(n, 16);
    let mut out: Vec<char> = vec!['0', 'x'];
    let mut i: usize = 0;
    while i < d.len()
        invariant
            i <= d.len(),
            out@ == zero_x() + d@.take(i as int),
        decreases d.len() - i,
    {
        out.push(d[i]);
        proof {
            assert(zero_x() + d@.take(i + 1) =~= (zero_x() + d@.take(i as int)).push(d@[i as int]));
        }
        i = i + 1;
    }
    proof {
        assert(d@.take(d.len() as int) =~= d@);
    }
    out
}

/// A signed integer in decimal: `-` before negative values and, when
/// `plus` is set, `+` before the others (`format!("{:+}", v)`).
pub open spec fn signed_digits(v: int, plus: bool) -> Seq<char> {
    if v < 0 {
        seq!['-'] + digits((-v) as nat, 10)
    } else if plus {
        seq!['+'] + digits(v as nat, 10)
    } else {
        digits(v as nat, 10)
    }
}

/// `v` in decimal with its sign (see `signed_digits`).
pub fn fmt_signed(v: i64, plus: bool) -> (r: Vec<char>)
    ensures
        r@ == signed_digits(v as int, plus),
{
    let mag: u64 = if v < 0 {
        (-(v as i128)) as u64
    } else {
        v as u64
    };
    let d = fmt_dec(mag);
    if v < 0 {
        let mut out = d;
        out.insert(0, '-');
        assert(out@ =~= seq!['-'] + d@);
        out
    } else if plus {
        let mut out = d;
        out.insert(0, '+');
        assert(out@ =~= seq!['+'] + d@);
        out
    } else {
        d
    }
}

/// A byte as two hexadecimal digits (`format!("{:02x}", b)`).
pub open spec fn hex2(b: u8) -> Seq<char> {
    seq![digit_char((b / 16) as nat), digit_char((b % 16) as nat)]
}

/// `b` as two hexadecimal digits.
pub fn fmt_hex2(b: u8) -> (r: Vec<char>)
    ensures
        r@ == hex2(b),
{
    let hi = digit_char_exec((b / 16) as u64);
    let lo = digit_char_exec((b % 16) as u64);
    vec![hi, lo]
}

proof fn lemma_digit_char_value(d: nat, radix: nat)
    requires
        d < radix <= 16,
    ensures
        digit_value(digit_char(d), radix) == d,
        digit_char(d) != 'x' && digit_char(d) != 'h' && digit_char(d) != 'H' && digit_char(d)
            != '+' && digit_char(d) != '-' && lower(digit_char(d)) == digit_char(d),
{
}

proof fn lemma_digits_chars(n: nat, radix: nat)
    requires
        2 <= radix <= 16,
    ensures
        digits(n, radix).len() >= 1,
        forall|i: int|
            0 <= i < digits(n, radix).len() ==> #[trigger] digit_value(digits(n, radix)[i], radix)
                >= 0 && digits(n, radix)[i] != 'x' && digits(n, radix)[i] != '+' && digits(
                n,
                radix,
            )[i] != '-' && lower(digits(n, radix)[i]) == digits(n, radix)[i] && digits(
                n,
                radix,
            )[i] != 'h' && digits(n, radix)[i] != 'H',
    decreases n,
{
    if n < radix {
        lemma_digit_char_value(n, radix);
    } else {
        vstd::arithmetic::div_mod::lemma_div_decreases(n as int, radix as int);
        lemma_digits_chars(n / radix, radix);
        lemma_digit_char_value(n % radix, radix);
    }
}

/// Scanning a sequence with one more character continues from where the
/// scan of the shorter one ended.
proof fn lemma_scan_push(
    a: Seq<char>,
    c: char,
    radix: nat,
    i: int,
    acc: nat,
    limit: nat,
    over: ParseError,
)
    requires
        0 <= i <= a.len(),
    ensures
        scan(a.push(c), radix, i, acc, limit, over) == match scan(a, radix, i, acc, limit, over) {
            Ok(m) => {
                let d = digit_value(c, radix);
                if d < 0 {
                    Err(ParseError::InvalidDigit)
                } else if m * radix + d > limit {
                    Err(over)
                } else {
                    Ok((m * radix + d) as nat)
                }
            },
            Err(e) => Err(e),
        },
    decreases a.len() - i,
{
    let b = a.push(c);
    if i < a.len() {
        assert(b[i] == a[i]);
        let d = digit_value(a[i], radix);
        if d >= 0 && acc * radix + d <= limit {
            lemma_scan_push(a, c, radix, i + 1, (acc * radix + d) as nat, limit, over);
        }
    } else {
        assert(b[i] == c);
        let d = digit_value(c, radix);
        if d >= 0 && acc * radix + d <= limit {
            assert(scan(b, radix, i + 1, (acc * radix + d) as nat, limit, over) == Ok::<
                nat,
                ParseError,
            >((acc * radix + d) as nat));
        }
    }
}

/// Reading the digits of `n` gives `n` back when it is within the limit.
proof fn lemma_scan_digits(n: nat, radix: nat, limit: nat, over: ParseError)
    requires
        2 <= radix <= 16,
        n <= limit,
    ensures
        scan(digits(n, radix), radix, 0, 0, limit, over) == Ok::<nat, ParseError>(n),
    decreases n,
{
    if n < radix {
        lemma_digit_char_value(n, radix);
        assert(digits(n, radix) =~= Seq::<char>::empty().push(digit_char(n)));
        lemma_scan_push(Seq::<char>::empty(), digit_char(n), radix, 0, 0, limit, over);
    } else {
        let q = n / radix;
        let r = n % radix;
        assert(q * radix + r == n) by (nonlinear_arith)
            requires
                q == n / radix,
                r == n % radix,
                radix > 0,
        ;
        assert(q <= n) by (nonlinear_arith)
            requires
                q == n / radix,
                radix > 0,
        ;
        vstd::arithmetic::div_mod::lemma_div_decreases(n as int, radix as int);
        lemma_scan_digits(q, radix, limit, over);
        lemma_digit_char_value(r, radix);
        lemma_scan_push(digits(q, radix), digit_char(r), radix, 0, 0, limit, over);
    }
}

/// Removing every `0x` from text without an `x` leaves it as it is.
proof fn lemma_replace_no_x(s: Seq<char>)
    requires
        forall|i: int| 0 <= i < s.len() ==> s[i] != 'x',
    ensures
        replace_all(s, zero_x(), Seq::empty()) == s,
    decreases s.len(),
{
    if s.len() >= 2 {
        assert(s.subrange(0, 2)[1] != 'x');
        assert(s.subrange(0, 2) != zero_x());
        lemma_replace_no_x(s.skip(1));
        assert(seq![s[0]] + s.skip(1) =~= s);
    }
}

/// Writing a 64-bit value with `{:#x}` and reading it back gives the value.
pub proof fn lemma_hex_roundtrip(v: u64)
    ensures
        str_to_spec(zero_x() + digits(v as nat, 16), IntKind::U64) == Ok::<int, ParseError>(
            v as int,
        ),
{
    let d = digits(v as nat, 16);
    let s = zero_x() + d;
    lemma_digits_chars(v as nat, 16);
    assert forall|i: int| 0 <= i < d.len() implies d[i] != 'x' by {
        assert(digit_value(d[i], 16) >= 0);
    }
    lemma_replace_no_x(d);
    assert(s.subrange(0, 2) =~= zero_x());
    assert(s.skip(2) =~= d);
    assert(replace_all(s, zero_x(), Seq::empty()) == Seq::<char>::empty() + replace_all(
        d,
        zero_x(),
        Seq::empty(),
    ));
    assert(Seq::<char>::empty() + d =~= d);
    assert(lower(s[1]) == 'x');
    lemma_scan_digits(v as nat, 16, u64::MAX as nat, ParseError::PosOverflow);
    assert(d[0] != '+' && d[0] != '-');
}

/// Law: hexadecimal digits followed by `h` or `H` read back as the value
/// they write, as with the `0x` prefix.
pub proof fn lemma_hex_suffix_roundtrip(v: u64)
    ensures
        str_to_spec(digits(v as nat, 16).push('h'), IntKind::U64) == Ok::<int, ParseError>(v as int),
        str_to_spec(digits(v as nat, 16).push('H'), IntKind::U64) == Ok::<int, ParseError>(v as int),
{
    let d = digits(v as nat, 16);
    lemma_digits_chars(v as nat, 16);
    lemma_scan_digits(v as nat, 16, u64::MAX as nat, ParseError::PosOverflow);
    assert(d.push('h').drop_last() =~= d);
    assert(d.push('H').drop_last() =~= d);
    assert(d[0] != '+' && d[0] != '-');
    assert(d.len() >= 2 ==> d[1] != 'x' && lower(d[1]) == d[1]);
    assert(d.len() == 1 ==> d.push('h')[1] == 'h' && d.push('H')[1] == 'H');
}

/// Writing a 64-bit value in decimal and reading it back gives the value.
pub proof fn lemma_dec_roundtrip(v: u64)
    ensures
        str_to_spec(digits(v as nat, 10), IntKind::U64) == Ok::<int, ParseError>(v as int),
{
    let d = digits(v as nat, 10);
    lemma_digits_chars(v as nat, 10);
    assert(d[d.len() - 1] == d.last());
    assert(digit_value(d[d.len() - 1], 10) >= 0);
    assert(d.len() >= 2 ==> digit_value(d[1], 10) >= 0);
    lemma_scan_digits(v as nat, 10, u64::MAX as nat, ParseError::PosOverflow);
    assert(digit_value(d[0], 10) >= 0);
}

} // verus!
