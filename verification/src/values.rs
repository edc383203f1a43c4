//! How the debugger reads and shows the values of memory: hexadecimal or
//! signed display, reading a value of each integer type from text or from a
//! character, printable bytes and escaped strings.

use vstd::prelude::*;
use crate::number::{
    agrees, digits, fmt_hex, fmt_hex2, fmt_signed, hex2, signed_digits, str_to_spec, str_to_u64,
    str_to_i64, str_to_u32, str_to_u8, str_to_i8, str_to_u16, str_to_i16, str_to_i32, zero_x,
    IntKind, ParseError,
};
use crate::text::{chars_of, str_eq, string_from};

verus! {

/// A value shown in a memory dump.
pub trait Print {
    fn print_value(&self) -> String;
}

/// `v` as `format!("{:#x}", v)` writes it.
pub open spec fn hex_text(v: nat) -> Seq<char> {
    zero_x() + digits(v, 16)
}

/// A signed value: in decimal when negative, else in hexadecimal with `0x`.
pub open spec fn signed_text(v: int) -> Seq<char> {
    if v < 0 {
        signed_digits(v, false)
    } else {
        hex_text(v as nat)
    }
}

/// See `signed_text`.
pub fn format_value(v: i64) -> (r: String)
    ensures
        r@ == signed_text(v as int),
{
    if v < 0 {
        string_from(&fmt_signed(v, false))
    } else {
        string_from(&fmt_hex(v as u64))
    }
}

impl Print for u8 {
    fn print_value(&self) -> (r: String)
        ensures
            r@ == hex_text(*self as nat),
    {
        string_from(&fmt_hex(*self as u64))
    }
}

impl Print for u16 {
    fn print_value(&self) -> (r: String)
        ensures
            r@ == hex_text(*self as nat),
    {
        string_from(&fmt_hex(*self as u64))
    }
}

impl Print for u32 {
    fn print_value(&self) -> (r: String)
        ensures
            r@ == hex_text(*self as nat),
    {
        string_from(&fmt_hex(*self as u64))
    }
}

impl Print for u64 {
    fn print_value(&self) -> (r: String)
        ensures
            r@ == hex_text(*self as nat),
    {
        string_from(&fmt_hex(*self))
    }
}

impl Print for usize {
    fn print_value(&self) -> (r: String)
        ensures
            r@ == hex_text(*self as nat),
    {
        string_from(&fmt_hex(*self as u64))
    }
}

impl Print for i8 {
    fn print_value(&self) -> (r: String)
        ensures
            r@ == signed_text(*self as int),
    {
        format_value(*self as i64)
    }
}

impl Print for i16 {
    fn print_value(&self) -> (r: String)
        ensures
            r@ == signed_text(*self as int),
    {
        format_value(*self as i64)
    }
}

impl Print for i32 {
    fn print_value(&self) -> (r: String)
        ensures
            r@ == signed_text(*self as int),
    {
        format_value(*self as i64)
    }
}

impl Print for i64 {
    fn print_value(&self) -> (r: String)
        ensures
            r@ == signed_text(*self as int),
    {
        format_value(*self)
    }
}

impl Print for bool {
    fn print_value(&self) -> (r: String)
        ensures
            r@ == if *self {
                "true"@
            } else {
                "false"@
            },
    {
        if *self {
            crate::text::string_of("true")
        } else {
            crate::text::string_of("false")
        }
    }
}

impl Print for char {
    fn print_value(&self) -> (r: String)
        ensures
            r@ == seq![*self],
    {
        let v = vec![*self];
        proof {
            assert(v@ =~= seq![*self]);
        }
        string_from(&v)
    }
}

/// Conversion of the word-sized integers through `u64`.
pub trait NumConvert: Sized {
    fn to_u64(&self) -> u64;

    fn from_u64(value: u64) -> Self;
}

impl NumConvert for u32 {
    fn to_u64(&self) -> (r: u64)
        ensures
            r == *self as u64,
    {
        *self as u64
    }

    /// The low 32 bits of `value`.
    fn from_u64(value: u64) -> (r: u32)
        ensures
            r == value as u32,
    {
        value as u32
    }
}

impl NumConvert for u64 {
    fn to_u64(&self) -> (r: u64)
        ensures
            r == *self,
    {
        *self
    }

    fn from_u64(value: u64) -> (r: u64)
        ensures
            r == value,
    {
        value
    }
}


/// The low byte of a character's code (what `c as u8` keeps).
pub open spec fn char_byte(c: char) -> int {
    (c as u32 as int) % 256
}

fn char_byte_exec(c: char) -> (r: u8)
    ensures
        r as int == char_byte(c),
{
    let u = c as u32;
    (u % 256) as u8
}

/// A value of a memory element type read from the user's text, or from one
/// character of a quoted string (the character's low byte, read as a
/// number).
pub trait ToType: Sized {
    /// Whether the low byte of `c` is a value of the type.
    spec fn char_fits(c: char) -> bool;

    fn from_str_value(value: &str) -> Result<Self, ParseError>;

    fn from_char(value: char) -> Self
        requires
            Self::char_fits(value),
    ;
}

impl ToType for u8 {
    open spec fn char_fits(c: char) -> bool {
        true
    }

    fn from_str_value(value: &str) -> (r: Result<u8, ParseError>)
        ensures
            agrees(r, str_to_spec(value@, IntKind::U8), |v: u8| v as int),
    {
        str_to_u8(value)
    }

    fn from_char(value: char) -> (r: u8)
        ensures
            r as int == char_byte(value),
    {
        char_byte_exec(value) as u8
    }
}

impl ToType for u16 {
    open spec fn char_fits(c: char) -> bool {
        true
    }

    fn from_str_value(value: &str) -> (r: Result<u16, ParseError>)
        ensures
            agrees(r, str_to_spec(value@, IntKind::U16), |v: u16| v as int),
    {
        str_to_u16(value)
    }

    fn from_char(value: char) -> (r: u16)
        ensures
            r as int == char_byte(value),
    {
        char_byte_exec(value) as u16
    }
}

impl ToType for i16 {
    open spec fn char_fits(c: char) -> bool {
        true
    }

    fn from_str_value(value: &str) -> (r: Result<i16, ParseError>)
        ensures
            agrees(r, str_to_spec(value@, IntKind::I16), |v: i16| v as int),
    {
        str_to_i16(value)
    }

    fn from_char(value: char) -> (r: i16)
        ensures
            r as int == char_byte(value),
    {
        char_byte_exec(value) as i16
    }
}

impl ToType for u32 {
    open spec fn char_fits(c: char) -> bool {
        true
    }

    fn from_str_value(value: &str) -> (r: Result<u32, ParseError>)
        ensures
            agrees(r, str_to_spec(value@, IntKind::U32), |v: u32| v as int),
    {
        str_to_u32(value)
    }

    fn from_char(value: char) -> (r: u32)
        ensures
            r as int == char_byte(value),
    {
        char_byte_exec(value) as u32
    }
}

impl ToType for i32 {
    open spec fn char_fits(c: char) -> bool {
        true
    }

    fn from_str_value(value: &str) -> (r: Result<i32, ParseError>)
        ensures
            agrees(r, str_to_spec(value@, IntKind::I32), |v: i32| v as int),
    {
        str_to_i32(value)
    }

    fn from_char(value: char) -> (r: i32)
        ensures
            r as int == char_byte(value),
    {
        char_byte_exec(value) as i32
    }
}

impl ToType for u64 {
    open spec fn char_fits(c: char) -> bool {
        true
    }

    fn from_str_value(value: &str) -> (r: Result<u64, ParseError>)
        ensures
            agrees(r, str_to_spec(value@, IntKind::U64), |v: u64| v as int),
    {
        str_to_u64(value)
    }

    fn from_char(value: char) -> (r: u64)
        ensures
            r as int == char_byte(value),
    {
        char_byte_exec(value) as u64
    }
}

impl ToType for i64 {
    open spec fn char_fits(c: char) -> bool {
        true
    }

    fn from_str_value(value: &str) -> (r: Result<i64, ParseError>)
        ensures
            agrees(r, str_to_spec(value@, IntKind::I64), |v: i64| v as int),
    {
        str_to_i64(value)
    }

    fn from_char(value: char) -> (r: i64)
        ensures
            r as int == char_byte(value),
    {
        char_byte_exec(value) as i64
    }
}

impl ToType for i8 {
    open spec fn char_fits(c: char) -> bool {
        char_byte(c) < 128
    }

    fn from_str_value(value: &str) -> (r: Result<i8, ParseError>)
        ensures
            agrees(r, str_to_spec(value@, IntKind::I8), |v: i8| v as int),
    {
        str_to_i8(value)
    }

    fn from_char(value: char) -> (r: i8)
        ensures
            r as int == char_byte(value),
    {
        char_byte_exec(value) as i8
    }
}

/// The first byte of the UTF-8 encoding of `c`.
pub open spec fn utf8_lead(c: char) -> u8 {
    let u = c as u32;
    if u < 0x80 {
        u as u8
    } else if u < 0x800 {
        (0xC0 | (u >> 6)) as u8
    } else if u < 0x10000 {
        (0xE0 | (u >> 12)) as u8
    } else {
        (0xF0 | (u >> 18)) as u8
    }
}

impl ToType for char {
    open spec fn char_fits(c: char) -> bool {
        true
    }

    /// The character whose code is the first byte of the text (of its UTF-8
    /// encoding), or NUL for empty text.
    fn from_str_value(value: &str) -> (r: Result<char, ParseError>)
        ensures
            r == Ok::<char, ParseError>(
                if value@.len() == 0 {
                    0 as char
                } else {
                    utf8_lead(value@[0]) as char
                },
            ),
    {
        let v = chars_of(value);
        if v.len() == 0 {
            return Ok('\0');
        }
        let u = v[0] as u32;
        let b: u8 = if u < 0x80 {
            u as u8
        } else if u < 0x800 {
            (0xC0 | (u >> 6)) as u8
        } else if u < 0x10000 {
            (0xE0 | (u >> 12)) as u8
        } else {
            (0xF0 | (u >> 18)) as u8
        };
        Ok(b as char)
    }

    fn from_char(value: char) -> (r: char)
        ensures
            r == value,
    {
        value
    }
}

impl ToType for bool {
    open spec fn char_fits(c: char) -> bool {
        true
    }

    fn from_str_value(value: &str) -> (r: Result<bool, ParseError>)
        ensures
            r == Ok::<bool, ParseError>(value@ == "true"@),
    {
        Ok(str_eq(value, "true"))
    }

    fn from_char(value: char) -> (r: bool)
        ensures
            r == (value == '1'),
    {
        value == '1'
    }
}

/// A byte shown as a character.
#[derive(Debug, Default, Clone, Copy, PartialEq, Eq, Structural)]
pub struct AsChar(pub u8);

impl ToType for AsChar {
    open spec fn char_fits(c: char) -> bool {
        true
    }

    fn from_str_value(value: &str) -> (r: Result<AsChar, ParseError>)
        ensures
            agrees(r, str_to_spec(value@, IntKind::U8), |v: AsChar| v.0 as int),
    {
        match str_to_u8(value) {
            Ok(b) => Ok(AsChar(b)),
            Err(e) => Err(e),
        }
    }

    fn from_char(value: char) -> (r: AsChar)
        ensures
            r.0 as int == char_byte(value),
    {
        AsChar(char_byte_exec(value))
    }
}

/// How a byte is shown: as itself when it is a visible ASCII character or
/// ASCII whitespace, else as `\x` and two hexadecimal digits.
pub open spec fn as_char_text(b: u8) -> Seq<char> {
    if (0x21 <= b <= 0x7e) || b == 0x20 || b == 0x09 || b == 0x0a || b == 0x0c || b == 0x0d {
        seq![b as char]
    } else {
        seq!['\\', 'x'] + hex2(b)
    }
}

/// See `as_char_text`.
pub fn fmt(selfs: &AsChar) -> (r: String)
    ensures
        r@ == as_char_text(selfs.0),
{
    let b = selfs.0;
    if (0x21 <= b && b <= 0x7e) || b == 0x20 || b == 0x09 || b == 0x0a || b == 0x0c || b == 0x0d {
        let v = vec![b as char];
        proof {
            assert(v@ =~= seq![b as char]);
        }
        string_from(&v)
    } else {
        let mut v = vec!['\\', 'x'];
        let mut h = fmt_hex2(b);
        v.append(&mut h);
        proof {
            assert(v@ =~= seq!['\\', 'x'] + hex2(b));
        }
        string_from(&v)
    }
}

impl AsChar {
    /// How the byte is shown (see `as_char_text`).
    pub fn to_string(&self) -> (r: String)
        ensures
            r@ == as_char_text(self.0),
    {
        fmt(self)
    }
}

/// The ASCII escape of a byte: `\t`, `\r`, `\n`, `\'`, `\"` and `\\` for
/// those characters, the character itself from space to `~`, else `\x` and
/// two lowercase hexadecimal digits.
pub open spec fn escape_byte(b: u8) -> Seq<char> {
    if b == 0x09 {
        seq!['\\', 't']
    } else if b == 0x0d {
        seq!['\\', 'r']
    } else if b == 0x0a {
        seq!['\\', 'n']
    } else if b == 0x27 {
        seq!['\\', '\'']
    } else if b == 0x22 {
        seq!['\\', '"']
    } else if b == 0x5c {
        seq!['\\', '\\']
    } else if 0x20 <= b <= 0x7e {
        seq![b as char]
    } else {
        seq!['\\', 'x'] + hex2(b)
    }
}

/// The escape sequence that starts yellow text.
pub open spec fn yellow() -> Seq<char> {
    seq!['\x1b', '[', '3', '3', 'm']
}

/// The escape sequence that starts green text.
pub open spec fn green() -> Seq<char> {
    seq!['\x1b', '[', '3', '2', 'm']
}

/// The escape sequence that ends colored text.
pub open spec fn plain() -> Seq<char> {
    seq!['\x1b', '[', '0', 'm']
}

/// How a byte of a string is shown: escaped bytes in yellow, plain
/// characters in green.
pub open spec fn byte_piece(b: u8) -> Seq<char> {
    if escape_byte(b).len() > 1 {
        yellow() + escape_byte(b) + plain()
    } else {
        green() + escape_byte(b) + plain()
    }
}

/// How bytes are shown as a string (see `byte_piece`).
pub open spec fn escaped_text(s: Seq<u8>) -> Seq<char>
    decreases s.len(),
{
    if s.len() == 0 {
        Seq::empty()
    } else {
        escaped_text(s.drop_last()) + byte_piece(s.last())
    }
}

/// Law: how one byte is shown by `espc`. A printable ASCII character other
/// than the quotes and the backslash is shown as itself in green
/// (`ESC [32m`, then the character, then `ESC [0m`). Tab, carriage return,
/// line feed, the quotes and the backslash are shown as a backslash and `t`,
/// `r`, `n` or the character, in yellow (`ESC [33m` ... `ESC [0m`); any other
/// byte as `\x` and its two lowercase hexadecimal digits, in yellow.
pub proof fn lemma_byte_shown(b: u8)
    ensures
        ({
            let t = escaped_text(seq![b]);
            let g = seq!['\x1b', '[', '3', '2', 'm'];
            let y = seq!['\x1b', '[', '3', '3', 'm'];
            let e = seq!['\x1b', '[', '0', 'm'];
            let hex = |d: int| if d < 10 { (48 + d) as char } else { (87 + d) as char };
            &&& (0x20 <= b <= 0x7e && b != 0x22 && b != 0x27 && b != 0x5c) ==> t == g + seq![b as char] + e
            &&& b == 0x09 ==> t == y + seq!['\\', 't'] + e
            &&& b == 0x0d ==> t == y + seq!['\\', 'r'] + e
            &&& b == 0x0a ==> t == y + seq!['\\', 'n'] + e
            &&& (b == 0x22 || b == 0x27 || b == 0x5c) ==> t == y + seq!['\\', b as char] + e
            &&& !(0x20 <= b <= 0x7e) && b != 0x09 && b != 0x0d && b != 0x0a ==> t == y + seq![
                '\\',
                'x',
                hex(b as int / 16),
                hex(b as int % 16),
            ] + e
        }),
{
    assert(seq![b].drop_last() =~= Seq::<u8>::empty());
    assert(seq![b].last() == b);
    let t = escaped_text(seq![b]);
    assert(escaped_text(seq![b].drop_last()) =~= Seq::<char>::empty());
    assert(t =~= byte_piece(b));
    let g = seq!['\x1b', '[', '3', '2', 'm'];
    let y = seq!['\x1b', '[', '3', '3', 'm'];
    let e = seq!['\x1b', '[', '0', 'm'];
    assert(green() == g && yellow() == y && plain() == e);
    if !(0x20 <= b <= 0x7e) && b != 0x09 && b != 0x0d && b != 0x0a {
        let hi = (b / 16) as nat;
        let lo = (b % 16) as nat;
        assert(hi == b as int / 16 && lo == b as int % 16);
        assert('0' as nat == 48 && 'a' as nat == 97);
        assert(hex2(b) =~= seq![crate::number::digit_char(hi), crate::number::digit_char(lo)]);
    }
}

/// Law: the escaped text of two byte strings one after the other is the
/// escaped text of the first followed by that of the second; the empty
/// string gives the empty text.
pub proof fn lemma_escaped_concat(a: Seq<u8>, b: Seq<u8>)
    ensures
        escaped_text(a + b) == escaped_text(a) + escaped_text(b),
        escaped_text(Seq::<u8>::empty()) == Seq::<char>::empty(),
    decreases b.len(),
{
    if b.len() == 0 {
        assert(a + b =~= a);
        assert(escaped_text(a) + Seq::<char>::empty() =~= escaped_text(a));
    } else {
        lemma_escaped_concat(a, b.drop_last());
        assert((a + b).drop_last() =~= a + b.drop_last());
        assert((a + b).last() == b.last());
        assert(escaped_text(a) + escaped_text(b.drop_last()) + byte_piece(b.last()) =~= escaped_text(a) + (
        escaped_text(b.drop_last()) + byte_piece(b.last())));
    }
}

fn escape_byte_exec(b: u8) -> (r: Vec<char>)
    ensures
        r@ == escape_byte(b),
{
    let r = if b == 0x09 {
        vec!['\\', 't']
    } else if b == 0x0d {
        vec!['\\', 'r']
    } else if b == 0x0a {
        vec!['\\', 'n']
    } else if b == 0x27 {
        vec!['\\', '\'']
    } else if b == 0x22 {
        vec!['\\', '"']
    } else if b == 0x5c {
        vec!['\\', '\\']
    } else if 0x20 <= b && b <= 0x7e {
        vec![b as char]
    } else {
        let mut v = vec!['\\', 'x'];
        let mut h = fmt_hex2(b);
        v.append(&mut h);
        v
    };
    proof {
        assert(r@ =~= escape_byte(b));
    }
    r
}

/// Bytes shown as a string (see `escaped_text`).
pub fn espc(input: &[u8]) -> (r: String)
    ensures
        r@ == escaped_text(input@),
{
    let mut out: Vec<char> = Vec::new();
    let mut i: usize = 0;
    while i < input.len()
        invariant
            i <= input.len(),
            out@ == escaped_text(input@.take(i as int)),
        decreases input.len() - i,
    {
        let e = escape_byte_exec(input[i]);
        let mut piece = if e.len() > 1 {
            vec!['\x1b', '[', '3', '3', 'm']
        } else {
            vec!['\x1b', '[', '3', '2', 'm']
        };
        let mut e2 = e;
        piece.append(&mut e2);
        let mut tail = vec!['\x1b', '[', '0', 'm'];
        piece.append(&mut tail);
        proof {
            assert(piece@ =~= byte_piece(input@[i as int]));
            assert(input@.take(i + 1).drop_last() =~= input@.take(i as int));
        }
        out.append(&mut piece);
        i = i + 1;
    }
    proof {
        assert(input@.take(input.len() as int) =~= input@);
    }
    string_from(&out)
}

} // verus!
