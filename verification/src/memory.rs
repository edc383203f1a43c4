//! Searching the debugged program's memory for a sequence of values, and
//! reading the values that the user types for it.

use vstd::prelude::*;
use vstd::wrapping::u64_specs;
use crate::commands::{join_from, join_words};
use crate::number::{
    kind_bounded, signed_value, str_to_chars, str_to_spec, str_to_u64, IntKind, ParseError,
};
use crate::target::words;
use crate::text::{chars_eq_str, chars_of, trim, trim_exec};
use crate::values::char_byte;

verus! {

/// The element types of a memory search.
#[derive(Debug, Clone, Copy, PartialEq, Eq, Structural)]
pub enum ElemKind {
    U8,
    I8,
    /// A byte shown as a character.
    Char,
    U16,
    I16,
    U32,
    I32,
    U64,
    I64,
}

/// The size in bytes of an element.
pub open spec fn elem_width(k: ElemKind) -> nat {
    match k {
        ElemKind::U8 | ElemKind::I8 | ElemKind::Char => 1,
        ElemKind::U16 | ElemKind::I16 => 2,
        ElemKind::U32 | ElemKind::I32 => 4,
        ElemKind::U64 | ElemKind::I64 => 8,
    }
}

/// The integer type in which an element is read from text.
pub open spec fn elem_int(k: ElemKind) -> IntKind {
    match k {
        ElemKind::U8 | ElemKind::Char => IntKind::U8,
        ElemKind::I8 => IntKind::I8,
        ElemKind::U16 => IntKind::U16,
        ElemKind::I16 => IntKind::I16,
        ElemKind::U32 => IntKind::U32,
        ElemKind::I32 => IntKind::I32,
        ElemKind::U64 => IntKind::U64,
        ElemKind::I64 => IntKind::I64,
    }
}

impl ElemKind {
    /// See `elem_width`.
    pub fn width(&self) -> (r: usize)
        ensures
            r == elem_width(*self),
    {
        match self {
            ElemKind::U8 | ElemKind::I8 | ElemKind::Char => 1,
            ElemKind::U16 | ElemKind::I16 => 2,
            ElemKind::U32 | ElemKind::I32 => 4,
            ElemKind::U64 | ElemKind::I64 => 8,
        }
    }

    fn int_kind(&self) -> (r: IntKind)
        ensures
            r == elem_int(*self),
    {
        match self {
            ElemKind::U8 | ElemKind::Char => IntKind::U8,
            ElemKind::I8 => IntKind::I8,
            ElemKind::U16 => IntKind::U16,
            ElemKind::I16 => IntKind::I16,
            ElemKind::U32 => IntKind::U32,
            ElemKind::I32 => IntKind::I32,
            ElemKind::U64 => IntKind::U64,
            ElemKind::I64 => IntKind::I64,
        }
    }
}

/// The element type that a type name of `find` designates.
pub open spec fn find_kind(s: Seq<char>) -> Option<ElemKind> {
    if s == "uint8_t"@ || s == "u8"@ || s == "byte"@ {
        Some(ElemKind::U8)
    } else if s == "i8"@ || s == "int8_t"@ {
        Some(ElemKind::I8)
    } else if s == "char"@ {
        Some(ElemKind::Char)
    } else if s == "uint16_t"@ || s == "u16"@ || s == "word"@ {
        Some(ElemKind::U16)
    } else if s == "int16_t"@ || s == "i16"@ || s == "short"@ {
        Some(ElemKind::I16)
    } else if s == "uint32_t"@ || s == "u32"@ || s == "dword"@ {
        Some(ElemKind::U32)
    } else if s == "int32_t"@ || s == "i32"@ || s == "int"@ || s == "long"@ {
        Some(ElemKind::I32)
    } else if s == "uint64_t"@ || s == "u64"@ || s == "qword"@ {
        Some(ElemKind::U64)
    } else if s == "int64_t"@ || s == "i64"@ || s == "long long"@ {
        Some(ElemKind::I64)
    } else {
        None
    }
}

/// Law: the element types of memory commands have the widths and the
/// signedness their names say: `U8`, `I8` and `Char` one byte, `U16` and
/// `I16` two, `U32` and `I32` four, `U64` and `I64` eight; each is read from
/// text as the integer type of that width and signedness (a character as an
/// unsigned byte).
pub proof fn lemma_elem_widths()
    ensures
        elem_width(ElemKind::U8) == 1 && elem_int(ElemKind::U8) == IntKind::U8,
        elem_width(ElemKind::I8) == 1 && elem_int(ElemKind::I8) == IntKind::I8,
        elem_width(ElemKind::Char) == 1 && elem_int(ElemKind::Char) == IntKind::U8,
        elem_width(ElemKind::U16) == 2 && elem_int(ElemKind::U16) == IntKind::U16,
        elem_width(ElemKind::I16) == 2 && elem_int(ElemKind::I16) == IntKind::I16,
        elem_width(ElemKind::U32) == 4 && elem_int(ElemKind::U32) == IntKind::U32,
        elem_width(ElemKind::I32) == 4 && elem_int(ElemKind::I32) == IntKind::I32,
        elem_width(ElemKind::U64) == 8 && elem_int(ElemKind::U64) == IntKind::U64,
        elem_width(ElemKind::I64) == 8 && elem_int(ElemKind::I64) == IntKind::I64,
{
}

/// Law: each type name of `find` designates the element of the width and
/// signedness it names: `uint8_t`, `u8`, `byte` an unsigned byte; `i8`,
/// `int8_t` a signed one; `char` a character; `uint16_t`, `u16`, `word` and
/// `int16_t`, `i16`, `short` two bytes; `uint32_t`, `u32`, `dword` and
/// `int32_t`, `i32`, `int`, `long` four bytes; `uint64_t`, `u64`, `qword`
/// and `int64_t`, `i64`, `long long` eight bytes. No other name designates
/// a type.
pub proof fn lemma_find_kind_names()
    ensures
        find_kind("uint8_t"@) == Some(ElemKind::U8),
        find_kind("u8"@) == Some(ElemKind::U8),
        find_kind("byte"@) == Some(ElemKind::U8),
        find_kind("i8"@) == Some(ElemKind::I8),
        find_kind("int8_t"@) == Some(ElemKind::I8),
        find_kind("char"@) == Some(ElemKind::Char),
        find_kind("uint16_t"@) == Some(ElemKind::U16),
        find_kind("u16"@) == Some(ElemKind::U16),
        find_kind("word"@) == Some(ElemKind::U16),
        find_kind("int16_t"@) == Some(ElemKind::I16),
        find_kind("i16"@) == Some(ElemKind::I16),
        find_kind("short"@) == Some(ElemKind::I16),
        find_kind("uint32_t"@) == Some(ElemKind::U32),
        find_kind("u32"@) == Some(ElemKind::U32),
        find_kind("dword"@) == Some(ElemKind::U32),
        find_kind("int32_t"@) == Some(ElemKind::I32),
        find_kind("i32"@) == Some(ElemKind::I32),
        find_kind("int"@) == Some(ElemKind::I32),
        find_kind("long"@) == Some(ElemKind::I32),
        find_kind("uint64_t"@) == Some(ElemKind::U64),
        find_kind("u64"@) == Some(ElemKind::U64),
        find_kind("qword"@) == Some(ElemKind::U64),
        find_kind("int64_t"@) == Some(ElemKind::I64),
        find_kind("i64"@) == Some(ElemKind::I64),
        find_kind("long long"@) == Some(ElemKind::I64),
        forall|s: Seq<char>| #[trigger] find_kind(s) is Some ==> (s == "uint8_t"@ || s == "u8"@ || s == "byte"@ || s == "i8"@ || s == "int8_t"@ || s == "char"@ || s == "uint16_t"@ || s == "u16"@ || s == "word"@ || s == "int16_t"@ || s == "i16"@ || s == "short"@ || s == "uint32_t"@ || s == "u32"@ || s == "dword"@ || s == "int32_t"@ || s == "i32"@ || s == "int"@ || s == "long"@ || s == "uint64_t"@ || s == "u64"@ || s == "qword"@ || s == "int64_t"@ || s == "i64"@ || s == "long long"@),
{
    reveal_strlit("uint8_t");
    assert("uint8_t"@.len() == 7);
    reveal_strlit("u8");
    assert("u8"@.len() == 2);
    reveal_strlit("byte");
    assert("byte"@.len() == 4);
    reveal_strlit("i8");
    assert("i8"@.len() == 2);
    reveal_strlit("int8_t");
    assert("int8_t"@.len() == 6);
    reveal_strlit("char");
    assert("char"@.len() == 4);
    reveal_strlit("uint16_t");
    assert("uint16_t"@.len() == 8);
    reveal_strlit("u16");
    assert("u16"@.len() == 3);
    reveal_strlit("word");
    assert("word"@.len() == 4);
    reveal_strlit("int16_t");
    assert("int16_t"@.len() == 7);
    reveal_strlit("i16");
    assert("i16"@.len() == 3);
    reveal_strlit("short");
    assert("short"@.len() == 5);
    reveal_strlit("uint32_t");
    assert("uint32_t"@.len() == 8);
    reveal_strlit("u32");
    assert("u32"@.len() == 3);
    reveal_strlit("dword");
    assert("dword"@.len() == 5);
    reveal_strlit("int32_t");
    assert("int32_t"@.len() == 7);
    reveal_strlit("i32");
    assert("i32"@.len() == 3);
    reveal_strlit("int");
    assert("int"@.len() == 3);
    reveal_strlit("long");
    assert("long"@.len() == 4);
    reveal_strlit("uint64_t");
    assert("uint64_t"@.len() == 8);
    reveal_strlit("u64");
    assert("u64"@.len() == 3);
    reveal_strlit("qword");
    assert("qword"@.len() == 5);
    reveal_strlit("int64_t");
    assert("int64_t"@.len() == 7);
    reveal_strlit("i64");
    assert("i64"@.len() == 3);
    reveal_strlit("long long");
    assert("long long"@.len() == 9);
    assert("i8"@[0] != "u8"@[0]);
    assert("char"@[0] != "byte"@[0]);
    assert("word"@[0] != "byte"@[0]);
    assert("word"@[0] != "char"@[0]);
    assert("int16_t"@[0] != "uint8_t"@[0]);
    assert("i16"@[0] != "u16"@[0]);
    assert("uint32_t"@[4] != "uint16_t"@[4]);
    assert("u32"@[1] != "u16"@[1]);
    assert("u32"@[0] != "i16"@[0]);
    assert("dword"@[0] != "short"@[0]);
    assert("int32_t"@[0] != "uint8_t"@[0]);
    assert("int32_t"@[3] != "int16_t"@[3]);
    assert("i32"@[0] != "u16"@[0]);
    assert("i32"@[1] != "i16"@[1]);
    assert("i32"@[0] != "u32"@[0]);
    assert("int"@[0] != "u16"@[0]);
    assert("int"@[1] != "i16"@[1]);
    assert("int"@[0] != "u32"@[0]);
    assert("long"@[0] != "byte"@[0]);
    assert("long"@[0] != "char"@[0]);
    assert("long"@[0] != "word"@[0]);
    assert("uint64_t"@[4] != "uint16_t"@[4]);
    assert("uint64_t"@[4] != "uint32_t"@[4]);
    assert("u64"@[1] != "u16"@[1]);
    assert("u64"@[0] != "i16"@[0]);
    assert("u64"@[1] != "u32"@[1]);
    assert("u64"@[0] != "i32"@[0]);
    assert("u64"@[0] != "int"@[0]);
    assert("qword"@[0] != "short"@[0]);
    assert("qword"@[0] != "dword"@[0]);
    assert("int64_t"@[0] != "uint8_t"@[0]);
    assert("int64_t"@[3] != "int16_t"@[3]);
    assert("int64_t"@[3] != "int32_t"@[3]);
    assert("i64"@[0] != "u16"@[0]);
    assert("i64"@[1] != "i16"@[1]);
    assert("i64"@[0] != "u32"@[0]);
    assert("i64"@[1] != "i32"@[1]);
    assert("i64"@[1] != "int"@[1]);
    assert("i64"@[0] != "u64"@[0]);
}

pub fn find_kind_exec(s: &Vec<char>) -> (r: Option<ElemKind>)
    ensures
        r == find_kind(s@),
{
    if chars_eq_str(s, "uint8_t") || chars_eq_str(s, "u8") || chars_eq_str(s, "byte") {
        Some(ElemKind::U8)
    } else if chars_eq_str(s, "i8") || chars_eq_str(s, "int8_t") {
        Some(ElemKind::I8)
    } else if chars_eq_str(s, "char") {
        Some(ElemKind::Char)
    } else if chars_eq_str(s, "uint16_t") || chars_eq_str(s, "u16") || chars_eq_str(s, "word") {
        Some(ElemKind::U16)
    } else if chars_eq_str(s, "int16_t") || chars_eq_str(s, "i16") || chars_eq_str(s, "short") {
        Some(ElemKind::I16)
    } else if chars_eq_str(s, "uint32_t") || chars_eq_str(s, "u32") || chars_eq_str(s, "dword") {
        Some(ElemKind::U32)
    } else if chars_eq_str(s, "int32_t") || chars_eq_str(s, "i32") || chars_eq_str(s, "int")
        || chars_eq_str(s, "long") {
        Some(ElemKind::I32)
    } else if chars_eq_str(s, "uint64_t") || chars_eq_str(s, "u64") || chars_eq_str(s, "qword") {
        Some(ElemKind::U64)
    } else if chars_eq_str(s, "int64_t") || chars_eq_str(s, "i64") || chars_eq_str(s, "long long") {
        Some(ElemKind::I64)
    } else {
        None
    }
}

/// The pieces of `s` between the occurrences of `c` (what `str::split`
/// yields: one more piece than there are separators).
pub open spec fn split_at_char(s: Seq<char>, c: char) -> Seq<Seq<char>>
    decreases s.len(),
{
    if s.len() == 0 {
        seq![Seq::empty()]
    } else {
        let rest = split_at_char(s.drop_last(), c);
        if s.last() == c {
            rest.push(Seq::empty())
        } else {
            rest.update(rest.len() - 1, rest.last().push(s.last()))
        }
    }
}

proof fn lemma_split_nonempty(s: Seq<char>, c: char)
    ensures
        split_at_char(s, c).len() >= 1,
    decreases s.len(),
{
    if s.len() > 0 {
        lemma_split_nonempty(s.drop_last(), c);
    }
}

/// The pieces of `s` between the occurrences of `c`.
pub fn split_char(s: &Vec<char>, c: char) -> (r: Vec<Vec<char>>)
    ensures
        crate::text::views(r@) == split_at_char(s@, c),
{
    let mut out: Vec<Vec<char>> = Vec::new();
    let mut cur: Vec<char> = Vec::new();
    let mut i: usize = 0;
    while i < s.len()
        invariant
            i <= s.len(),
            crate::text::views(out@).push(cur@) == split_at_char(s@.take(i as int), c),
        decreases s.len() - i,
    {
        proof {
            assert(s@.take(i + 1).drop_last() =~= s@.take(i as int));
            lemma_split_nonempty(s@.take(i as int), c);
        }
        if s[i] == c {
            let done = cur;
            proof {
                assert(crate::text::views(out@.push(done)) =~= crate::text::views(out@).push(done@));
            }
            out.push(done);
            cur = Vec::new();
            proof {
                assert(crate::text::views(out@).push(cur@) =~= split_at_char(s@.take(i + 1), c));
            }
        } else {
            let ghost before = cur@;
            cur.push(s[i]);
            proof {
                assert(crate::text::views(out@).push(cur@) =~= split_at_char(s@.take(i + 1), c));
            }
        }
        i = i + 1;
    }
    proof {
        assert(s@.take(s.len() as int) =~= s@);
        assert(crate::text::views(out@.push(cur)) =~= crate::text::views(out@).push(cur@));
    }
    out.push(cur);
    out
}

/// The bits of value `v` in an element of type `k` (two's complement for
/// negative values).
pub open spec fn elem_bits(k: ElemKind, v: int) -> u64 {
    if v < 0 {
        (v + match k {
            ElemKind::I8 => 0x100int,
            ElemKind::I16 => 0x1_0000int,
            ElemKind::I32 => 0x1_0000_0000int,
            _ => 0x1_0000_0000_0000_0000int,
        }) as u64
    } else {
        v as u64
    }
}

/// Law: a value of the element type is stored in two's complement: for a
/// signed type of `8 * w` bits and a value in its range, the stored bits are
/// below `2^(8 * w)` and agree with the value modulo `2^(8 * w)` (so `-1` is
/// stored as all ones); a value that is not negative is stored as it is.
pub proof fn lemma_elem_bits_twos_complement(k: ElemKind, v: int)
    ensures
        0 <= v <= u64::MAX ==> elem_bits(k, v) == v,
        k == ElemKind::I8 && -0x80 <= v < 0x80 ==> elem_bits(k, v) < 0x100 && elem_bits(k, v) % 0x100 == v
            % 0x100,
        k == ElemKind::I16 && -0x8000 <= v < 0x8000 ==> elem_bits(k, v) < 0x1_0000 && elem_bits(k, v)
            % 0x1_0000 == v % 0x1_0000,
        k == ElemKind::I32 && -0x8000_0000 <= v < 0x8000_0000 ==> elem_bits(k, v) < 0x1_0000_0000
            && elem_bits(k, v) % 0x1_0000_0000 == v % 0x1_0000_0000,
        k == ElemKind::I64 && -0x8000_0000_0000_0000 <= v < 0 ==> elem_bits(k, v) as int == v
            + 0x1_0000_0000_0000_0000int,
{
}

/// One piece of a search pattern read: a number read in the element type,
/// or, in quotes, the low byte of each of its characters (without the
/// surrounding whitespace inside the quotes). `None` where reading fails by
/// a panic: a quoted piece whose closing character is not a one-byte
/// character, or a character whose byte is no value of the type.
pub open spec fn piece_values(k: ElemKind, w: Seq<char>) -> Option<Result<Seq<u64>, ParseError>> {
    if w.len() >= 1 && (w[0] == '"' || w[0] == '\'') {
        if w.len() < 2 || (w.last() as u32) >= 0x80 {
            None
        } else {
            let inner = trim(w.subrange(1, w.len() - 1));
            if k == ElemKind::I8 && exists|j: int| 0 <= j < inner.len() && char_byte(inner[j]) >= 128 {
                None
            } else {
                Some(Ok(inner.map_values(|c: char| char_byte(c) as u64)))
            }
        }
    } else {
        match str_to_spec(w, elem_int(k)) {
            Ok(v) => Some(Ok(seq![elem_bits(k, v)])),
            Err(e) => Some(Err(e)),
        }
    }
}

/// The values of a pattern, piece by piece: read values are appended, and
/// a piece that is no number is reported and skipped. `None` where reading
/// panics.
pub open spec fn pattern_values(k: ElemKind, ws: Seq<Seq<char>>) -> Option<(Seq<u64>, Seq<ParseError>)>
    decreases ws.len(),
{
    if ws.len() == 0 {
        Some((Seq::empty(), Seq::empty()))
    } else {
        match pattern_values(k, ws.drop_last()) {
            None => None,
            Some((vals, errs)) => match piece_values(k, trim(ws.last())) {
                None => None,
                Some(Ok(vs)) => Some((vals + vs, errs)),
                Some(Err(e)) => Some((vals, errs.push(e))),
            },
        }
    }
}

pub fn elem_bits_exec(k: ElemKind, neg: bool, mag: u128) -> (r: u64)
    requires
        kind_bounded(elem_int(k), neg, mag),
    ensures
        r == elem_bits(k, signed_value(neg, mag)),
{
    if neg && mag > 0 {
        let m: u128 = match k {
            ElemKind::I8 => 0x100,
            ElemKind::I16 => 0x1_0000,
            ElemKind::I32 => 0x1_0000_0000,
            _ => 0x1_0000_0000_0000_0000,
        };
        (m - mag) as u64
    } else {
        mag as u64
    }
}

/// Reads one piece of a pattern (see `piece_values`).
fn piece_values_exec(k: ElemKind, w: &Vec<char>) -> (r: Option<Result<Vec<u64>, ParseError>>)
    ensures
        match r {
            None => piece_values(k, w@) is None,
            Some(Ok(v)) => piece_values(k, w@) == Some(Ok::<Seq<u64>, ParseError>(v@)),
            Some(Err(e)) => piece_values(k, w@) == Some(Err::<Seq<u64>, ParseError>(e)),
        },
{
    if w.len() >= 1 && (w[0] == '"' || w[0] == '\'') {
        if w.len() < 2 || (w[w.len() - 1] as u32) >= 0x80 {
            return None;
        }
        let mid = crate::text::slice_vec(w, 1, w.len() - 1);
        let inner = trim_exec(&mid);
        let mut out: Vec<u64> = Vec::new();
        let mut j: usize = 0;
        while j < inner.len()
            invariant
                j <= inner.len(),
                w@.len() >= 2,
                w@[0] == '"' || w@[0] == '\'',
                (w@.last() as u32) < 0x80,
                inner@ == trim(w@.subrange(1, w@.len() - 1)),
                out@ == inner@.take(j as int).map_values(|c: char| char_byte(c) as u64),
                k == ElemKind::I8 ==> forall|q: int| 0 <= q < j ==> char_byte(inner@[q]) < 128,
            decreases inner.len() - j,
        {
            let b = (inner[j] as u32) % 256;
            if k == ElemKind::I8 && b >= 128 {
                proof {
                    assert(char_byte(inner@[j as int]) >= 128);
                }
                return None;
            }
            out.push(b as u64);
            proof {
                assert(inner@.take(j + 1).map_values(|c: char| char_byte(c) as u64) =~= inner@.take(
                    j as int,
                ).map_values(|c: char| char_byte(c) as u64).push(b as u64));
            }
            j = j + 1;
        }
        proof {
            assert(inner@.take(inner.len() as int) =~= inner@);
        }
        Some(Ok(out))
    } else {
        match str_to_chars(w, k.int_kind()) {
            Ok((neg, mag)) => {
                let b = elem_bits_exec(k, neg, mag);
                let v = vec![b];
                proof {
                    assert(v@ =~= seq![b]);
                }
                Some(Ok(v))
            },
            Err(e) => Some(Err(e)),
        }
    }
}

proof fn lemma_pattern_none_extends(k: ElemKind, ps: Seq<Seq<char>>, i: int)
    requires
        0 <= i <= ps.len(),
        pattern_values(k, ps.take(i)) is None,
    ensures
        pattern_values(k, ps) is None,
    decreases ps.len() - i,
{
    if i < ps.len() {
        assert(ps.take(i + 1).drop_last() =~= ps.take(i));
        lemma_pattern_none_extends(k, ps, i + 1);
    } else {
        assert(ps.take(i) =~= ps);
    }
}

/// Reads the values of a pattern (see `pattern_values`); the pieces are the
/// parts of `args` between commas.
pub fn read_pattern(k: ElemKind, args: &Vec<char>) -> (r: Option<(Vec<u64>, Vec<ParseError>)>)
    ensures
        match r {
            None => pattern_values(k, split_at_char(args@, ',')) is None,
            Some((v, e)) => pattern_values(k, split_at_char(args@, ',')) == Some((v@, e@)),
        },
{
    let pieces = split_char(args, ',');
    let ghost ps = crate::text::views(pieces@);
    let mut vals: Vec<u64> = Vec::new();
    let mut errs: Vec<ParseError> = Vec::new();
    let mut i: usize = 0;
    while i < pieces.len()
        invariant
            i <= pieces.len(),
            ps == crate::text::views(pieces@),
            ps == split_at_char(args@, ','),
            pattern_values(k, ps.take(i as int)) == Some((vals@, errs@)),
        decreases pieces.len() - i,
    {
        proof {
            assert(ps.take(i + 1).drop_last() =~= ps.take(i as int));
            assert(ps.take(i + 1).last() == pieces@[i as int]@);
        }
        let w = trim_exec(&pieces[i]);
        match piece_values_exec(k, &w) {
            None => {
                proof {
                    lemma_pattern_none_extends(k, ps, i as int + 1);
                }
                return None;
            },
            Some(Ok(v)) => {
                let mut v2 = v;
                vals.append(&mut v2);
            },
            Some(Err(e)) => {
                errs.push(e);
            },
        }
        i = i + 1;
    }
    proof {
        assert(ps.take(pieces.len() as int) =~= ps);
    }
    Some((vals, errs))
}


/// The bytes of element value `x` in memory (`w` bytes, least significant
/// first).
pub open spec fn le_bytes(x: u64, w: nat) -> Seq<u8> {
    Seq::new(w, |k: int| ((x >> (8 * k) as u64) & 0xff) as u8)
}

/// Law: element values are laid out least significant byte first: the
/// first byte is the value modulo 256, and the following ones are the bytes
/// of the value divided by 256.
pub proof fn lemma_le_bytes_little_endian(x: u64, w: nat)
    requires
        1 <= w <= 8,
    ensures
        le_bytes(x, w).len() == w,
        le_bytes(x, w)[0] == x % 256,
        forall|k: int| 1 <= k < w ==> #[trigger] le_bytes(x, w)[k] == le_bytes(x / 256, (w - 1) as nat)[k - 1],
{
    assert(((x >> 0u64) & 0xff) == x % 256) by (bit_vector);
    assert forall|k: int| 1 <= k < w implies #[trigger] le_bytes(x, w)[k] == le_bytes(x / 256, (w - 1) as nat)[k - 1] by {
        let j = (8 * k) as u64;
        let i = (8 * (k - 1)) as u64;
        assert(((x >> j) & 0xff) == (((x / 256) >> i) & 0xff)) by (bit_vector)
            requires
                8 <= j < 64,
                i == j - 8,
        ;
    }
}

/// The bytes of a sequence of element values.
pub open spec fn pattern_bytes(vals: Seq<u64>, w: nat) -> Seq<u8>
    decreases vals.len(),
{
    if vals.len() == 0 {
        Seq::empty()
    } else {
        pattern_bytes(vals.drop_last(), w) + le_bytes(vals.last(), w)
    }
}

/// Byte `j` of the bytes of `vals` is byte `j % w` of value `j / w`.
pub proof fn lemma_pattern_bytes_at(vals: Seq<u64>, w: nat, j: int)
    requires
        w > 0,
        0 <= j < vals.len() * w,
    ensures
        pattern_bytes(vals, w)[j] == le_bytes(vals[j / (w as int)], w)[j % (w as int)],
    decreases vals.len(),
{
    let n = vals.len();
    let m = (n - 1) * w;
    lemma_pattern_bytes_len(vals.drop_last(), w);
    assert(n * w == m + w) by (nonlinear_arith)
        requires
            m == (n - 1) * w,
    ;
    if j >= m {
        vstd::arithmetic::div_mod::lemma_fundamental_div_mod_converse(j, w as int, n - 1, j - m);
        assert(vals[n - 1] == vals.last());
    } else {
        assert(0 <= j < vals.drop_last().len() * w);
        lemma_pattern_bytes_at(vals.drop_last(), w, j);
        vstd::arithmetic::div_mod::lemma_div_pos_is_pos(j, w as int);
        assert(j / (w as int) < n - 1) by {
            vstd::arithmetic::div_mod::lemma_div_is_ordered(j, m - 1, w as int);
            assert(m - 1 == (n - 2) * w + (w - 1)) by (nonlinear_arith)
                requires
                    m == (n - 1) * w,
            ;
            vstd::arithmetic::div_mod::lemma_fundamental_div_mod_converse(m - 1, w as int, n - 2, w - 1);
        }
        assert(vals.drop_last()[j / (w as int)] == vals[j / (w as int)]);
    }
}

/// A pattern of `n` values takes `n * w` bytes.
pub proof fn lemma_pattern_bytes_len(vals: Seq<u64>, w: nat)
    ensures
        pattern_bytes(vals, w).len() == vals.len() * w,
    decreases vals.len(),
{
    if vals.len() > 0 {
        lemma_pattern_bytes_len(vals.drop_last(), w);
        assert(vals.len() * w == (vals.len() - 1) * w + w) by (nonlinear_arith);
    }
}

pub fn pattern_bytes_exec(vals: &Vec<u64>, w: usize) -> (r: Vec<u8>)
    requires
        1 <= w <= 8,
    ensures
        r@ == pattern_bytes(vals@, w as nat),
{
    let mut out: Vec<u8> = Vec::new();
    let mut i: usize = 0;
    while i < vals.len()
        invariant
            1 <= w <= 8,
            i <= vals.len(),
            out@ == pattern_bytes(vals@.take(i as int), w as nat),
        decreases vals.len() - i,
    {
        let x = vals[i];
        let ghost start = out@;
        let mut k: usize = 0;
        while k < w
            invariant
                1 <= w <= 8,
                k <= w,
                out@ == start + Seq::new(k as nat, |q: int| ((x >> (8 * q) as u64) & 0xff) as u8),
            decreases w - k,
        {
            let b = ((x >> (8 * k as u64)) & 0xff) as u8;
            out.push(b);
            proof {
                assert(start + Seq::new((k + 1) as nat, |q: int| ((x >> (8 * q) as u64) & 0xff) as u8)
                    =~= (start + Seq::new(k as nat, |q: int| ((x >> (8 * q) as u64) & 0xff) as u8)).push(b));
            }
            k = k + 1;
        }
        proof {
            assert(vals@.take(i + 1).drop_last() =~= vals@.take(i as int));
            assert(Seq::new(w as nat, |q: int| ((x >> (8 * q) as u64) & 0xff) as u8) =~= le_bytes(x, w as nat));
        }
        i = i + 1;
    }
    proof {
        assert(vals@.take(vals.len() as int) =~= vals@);
    }
    out
}

/// The pattern (bytes `pb`) lies at element `i` of the `n` elements of
/// `mem` (elements of `w` bytes), whole.
pub open spec fn match_at(mem: Seq<u8>, pb: Seq<u8>, w: nat, n: nat, i: int) -> bool {
    &&& i * w + pb.len() <= n * w
    &&& mem.subrange(i * w, i * w + pb.len()) == pb
}

/// The addresses (from `beg`) of the elements from `i` on where the pattern
/// lies, in order.
pub open spec fn found_addrs(mem: Seq<u8>, pb: Seq<u8>, w: nat, n: nat, beg: u64, i: int) -> Seq<u64>
    decreases n - i,
{
    if i >= n {
        Seq::empty()
    } else {
        (if match_at(mem, pb, w, n, i) {
            seq![u64_specs::wrapping_add(beg, (i * w) as u64)]
        } else {
            Seq::empty()
        }) + found_addrs(mem, pb, w, n, beg, i + 1)
    }
}

/// Why a search cannot run.
#[derive(Debug, Clone, Copy, PartialEq, Eq, Structural)]
pub enum FindError {
    /// The memory is smaller than one element.
    TooSmall,
    /// The pattern has more elements than the memory.
    TooMany,
    /// The pattern has no element (reading it would panic).
    EmptyPattern,
}

/// Where the pattern `vals` (elements of type `k`) lies in `mem`, memory
/// read from address `beg`: the address of each element at which the whole
/// pattern starts, in order.
pub fn find_elements(mem: &Vec<u8>, vals: &Vec<u64>, k: ElemKind, beg: u64) -> (r: Result<Vec<u64>, FindError>)
    ensures
        ({
            let w = elem_width(k);
            let n = mem@.len() / w;
            if w > mem@.len() {
                r == Err::<Vec<u64>, FindError>(FindError::TooSmall)
            } else if vals@.len() > n {
                r == Err::<Vec<u64>, FindError>(FindError::TooMany)
            } else if vals@.len() == 0 {
                r == Err::<Vec<u64>, FindError>(FindError::EmptyPattern)
            } else {
                r matches Ok(v) && v@ == found_addrs(mem@, pattern_bytes(vals@, w), w, n, beg, 0)
            }
        }),
{
    let w = k.width();
    if w > mem.len() {
        return Err(FindError::TooSmall);
    }
    let n = mem.len() / w;
    if vals.len() > n {
        return Err(FindError::TooMany);
    }
    if vals.len() == 0 {
        return Err(FindError::EmptyPattern);
    }
    let pb = pattern_bytes_exec(vals, w);
    proof {
        lemma_pattern_bytes_len(vals@, w as nat);
        vstd::arithmetic::div_mod::lemma_fundamental_div_mod(mem@.len() as int, w as int);
        let ghost len: int = mem@.len() as int;
        let ghost wi: int = w as int;
        assert(n * w <= mem@.len()) by (nonlinear_arith)
            requires
                n == len / wi,
                len == wi * (len / wi) + len % wi,
                0 <= len % wi,
                len == mem@.len(),
                wi == w,
        {}
        assert(pb@.len() <= n * w) by (nonlinear_arith)
            requires
                pb@.len() == vals@.len() * w,
                vals@.len() <= n,
        {}
    }
    let plen = pb.len();
    let total = n * w;
    let mut out: Vec<u64> = Vec::new();
    let mut i: usize = 0;
    let mut off: usize = 0;
    proof {
        assert(out@ + found_addrs(mem@, pb@, w as nat, n as nat, beg, 0) =~= found_addrs(
            mem@,
            pb@,
            w as nat,
            n as nat,
            beg,
            0,
        ));
    }
    while i < n
        invariant
            1 <= w <= 8,
            n == mem@.len() / (w as nat),
            n * w <= mem@.len(),
            total == n * w,
            plen == pb@.len(),
            plen <= n * w,
            i <= n,
            off == i * w,
            out@ + found_addrs(mem@, pb@, w as nat, n as nat, beg, i as int) == found_addrs(
                mem@,
                pb@,
                w as nat,
                n as nat,
                beg,
                0,
            ),
        decreases n - i,
    {
        proof {
            assert((i + 1) * w == i * w + w) by (nonlinear_arith);
            assert(i * w + w <= n * w) by (nonlinear_arith)
                requires
                    i < n,
                    w >= 1,
            {}
        }
        let mut hit = plen <= total - off;
        if hit {
            let mut j: usize = 0;
            while j < plen
                invariant
                    off + plen <= mem.len(),
                    plen == pb@.len(),
                    j <= plen,
                    hit ==> forall|q: int| 0 <= q < j ==> mem@[off + q] == pb@[q],
                    !hit ==> exists|q: int| 0 <= q < plen && mem@[off + q] != pb@[q],
                decreases plen - j,
            {
                if mem[off + j] != pb[j] {
                    hit = false;
                }
                j = j + 1;
            }
            proof {
                if hit {
                    assert(mem@.subrange(off as int, off + plen) =~= pb@);
                } else {
                    let q = choose|q: int| 0 <= q < plen && mem@[off + q] != pb@[q];
                    assert(mem@.subrange(off as int, off + plen)[q] != pb@[q]);
                }
            }
        }
        let ghost before = out@;
        if hit {
            out.push(beg.wrapping_add(off as u64));
        }
        proof {
            assert(match_at(mem@, pb@, w as nat, n as nat, i as int) == hit);
            if hit {
                assert(before + found_addrs(mem@, pb@, w as nat, n as nat, beg, i as int) =~= out@
                    + found_addrs(mem@, pb@, w as nat, n as nat, beg, i + 1));
            } else {
                assert(before + found_addrs(mem@, pb@, w as nat, n as nat, beg, i as int) =~= out@
                    + found_addrs(mem@, pb@, w as nat, n as nat, beg, i + 1));
            }
        }
        i = i + 1;
        off = off + w;
    }
    proof {
        assert(out@ + Seq::<u64>::empty() =~= out@);
    }
    Ok(out)
}


/// Law: an address is reported by a search exactly when the whole pattern
/// lies at the element at that address.
pub proof fn lemma_found_exact(mem: Seq<u8>, pb: Seq<u8>, w: nat, n: nat, beg: u64, s: int, a: u64)
    requires
        0 <= s <= n,
    ensures
        found_addrs(mem, pb, w, n, beg, s).contains(a) <==> exists|i: int|
            s <= i < n && match_at(mem, pb, w, n, i) && a == u64_specs::wrapping_add(
                beg,
                (i * w) as u64,
            ),
    decreases n - s,
{
    if s < n {
        lemma_found_exact(mem, pb, w, n, beg, s + 1, a);
        let head = if match_at(mem, pb, w, n, s) {
            seq![u64_specs::wrapping_add(beg, (s * w) as u64)]
        } else {
            Seq::<u64>::empty()
        };
        let rest = found_addrs(mem, pb, w, n, beg, s + 1);
        assert(found_addrs(mem, pb, w, n, beg, s) == head + rest);
        if (head + rest).contains(a) {
            let k = choose|k: int| 0 <= k < (head + rest).len() && (head + rest)[k] == a;
            if k >= head.len() {
                assert(rest[k - head.len()] == a);
                assert(rest.contains(a));
            }
        }
        if exists|i: int|
            s <= i < n && match_at(mem, pb, w, n, i) && a == u64_specs::wrapping_add(
                beg,
                (i * w) as u64,
            ) {
            let i = choose|i: int|
                s <= i < n && match_at(mem, pb, w, n, i) && a == u64_specs::wrapping_add(
                    beg,
                    (i * w) as u64,
                );
            if i == s {
                assert((head + rest)[0] == a);
            } else {
                assert(rest.contains(a));
                let k = choose|k: int| 0 <= k < rest.len() && rest[k] == a;
                assert((head + rest)[head.len() + k] == a);
            }
        }
    }
}

/// What a `find` command asks for.
#[derive(Debug)]
pub struct FindRequest {
    pub kind: ElemKind,
    pub begin: u64,
    pub end: u64,
    /// The element values of the pattern.
    pub values: Vec<u64>,
    /// The pieces of the pattern that are no number, reported and skipped.
    pub errors: Vec<ParseError>,
    /// How many bytes to search, when the end address gives it; `None`
    /// when the memory region of `begin` decides.
    pub span: Option<u64>,
}

/// Why a `find` command is refused.
#[derive(Debug, Clone, Copy, PartialEq, Eq, Structural)]
pub enum FindCmdError {
    Usage,
    BadBegin(ParseError),
    BadEnd(ParseError),
    BadBoth(ParseError, ParseError),
    UnknownType,
    /// The start address lies after the end address.
    StartAfterEnd,
    /// Reading the pattern panics (see `piece_values`).
    Malformed,
}

/// The outcome of `find <type> <begin> <end> <values...>` (words `w`).
pub open spec fn find_request_spec(w: Seq<Seq<char>>) -> Result<
    (ElemKind, u64, u64, Seq<u64>, Seq<ParseError>, Option<u64>),
    FindCmdError,
> {
    if w.len() < 5 {
        Err(FindCmdError::Usage)
    } else {
        match (str_to_spec(w[2], IntKind::U64), str_to_spec(w[3], IntKind::U64)) {
            (Err(e1), Ok(_)) => Err(FindCmdError::BadBegin(e1)),
            (Ok(_), Err(e2)) => Err(FindCmdError::BadEnd(e2)),
            (Err(e1), Err(e2)) => Err(FindCmdError::BadBoth(e1, e2)),
            (Ok(b), Ok(e)) => match find_kind(w[1]) {
                None => Err(FindCmdError::UnknownType),
                Some(k) => match pattern_values(k, split_at_char(join_words(w.skip(4)), ',')) {
                    None => Err(FindCmdError::Malformed),
                    Some((vals, errs)) => if e != 0 && b >= e {
                        Err(FindCmdError::StartAfterEnd)
                    } else {
                        Ok(
                            (
                                k,
                                b as u64,
                                e as u64,
                                vals,
                                errs,
                                if e != 0 {
                                    Some((e - b) as u64)
                                } else {
                                    None
                                },
                            ),
                        )
                    },
                },
            },
        }
    }
}

/// Reads a `find` command (see `find_request_spec`).
pub fn find_request(linev: &[&str]) -> (r: Result<FindRequest, FindCmdError>)
    ensures
        match r {
            Ok(q) => find_request_spec(words(linev@)) == Ok::<
                (ElemKind, u64, u64, Seq<u64>, Seq<ParseError>, Option<u64>),
                FindCmdError,
            >((q.kind, q.begin, q.end, q.values@, q.errors@, q.span)),
            Err(e) => find_request_spec(words(linev@)) == Err::<
                (ElemKind, u64, u64, Seq<u64>, Seq<ParseError>, Option<u64>),
                FindCmdError,
            >(e),
        },
{
    let ghost w = words(linev@);
    if linev.len() < 5 {
        return Err(FindCmdError::Usage);
    }
    proof {
        assert(w[1] == linev@[1]@);
        assert(w[2] == linev@[2]@);
        assert(w[3] == linev@[3]@);
    }
    let (b, e) = match (str_to_u64(linev[2]), str_to_u64(linev[3])) {
        (Err(e1), Ok(_)) => {
            return Err(FindCmdError::BadBegin(e1));
        },
        (Ok(_), Err(e2)) => {
            return Err(FindCmdError::BadEnd(e2));
        },
        (Err(e1), Err(e2)) => {
            return Err(FindCmdError::BadBoth(e1, e2));
        },
        (Ok(b), Ok(e)) => (b, e),
    };
    let k = match find_kind_exec(&chars_of(linev[1])) {
        None => {
            return Err(FindCmdError::UnknownType);
        },
        Some(k) => k,
    };
    let args = join_from(linev, 4);
    let (values, errors) = match read_pattern(k, &chars_of(args.as_str())) {
        None => {
            return Err(FindCmdError::Malformed);
        },
        Some(p) => p,
    };
    if e != 0 && b >= e {
        return Err(FindCmdError::StartAfterEnd);
    }
    let span = if e != 0 {
        Some(e - b)
    } else {
        None
    };
    Ok(FindRequest { kind: k, begin: b, end: e, values, errors, span })
}

} // verus!
