//! Writing values into the debugged program's memory: which type, where,
//! how many elements, and the values the user typed (numbers, quoted
//! characters, or a value read through pointers).

use vstd::prelude::*;
use crate::commands::{join_from, join_words};
use crate::context::{value32_named, value_named, Context32, Context64, ToValue, ToValue32, Value};
use crate::memory::{
    elem_bits, elem_int, lemma_pattern_bytes_len, pattern_bytes, pattern_bytes_exec, split_at_char,
    split_char, ElemKind,
};
use crate::number::{
    error_text, kind_bounded, signed_value, str_to_chars, str_to_spec, str_to_u32, str_to_u64,
    str_to_u64_chars, str_to_usize_chars, IntKind, ParseError,
};
use crate::stack::Frame;
use crate::structs::{before_char, before_char_exec, bracket_groups, bracket_groups_exec};
use crate::symbol::{lookup_name, sym_addr64, RealAddr, SymbolFile, Symbols};
use crate::target::words;
use crate::text::{chars_eq_str, chars_of, lower_seq, lowercase, trim, trim_exec, views};

verus! {

/// How many elements a type written `<type>[n]` asks for: the number in the
/// last brackets; empty brackets mean as many as given; brackets that hold
/// no number leave the count as it was (1 at first).
pub open spec fn count_from(g: Seq<Seq<char>>) -> usize
    decreases g.len(),
{
    if g.len() == 0 {
        1
    } else {
        match str_to_spec(g.last(), IntKind::Usize) {
            Ok(v) => v as usize,
            Err(e) => if e == ParseError::Empty {
                usize::MAX
            } else {
                count_from(g.drop_last())
            },
        }
    }
}

/// The element count of a set-memory type (see `count_from`).
pub fn get_size(type_t: &str) -> (r: usize)
    ensures
        r == count_from(bracket_groups(type_t@)),
{
    let gs = bracket_groups_exec(&chars_of(type_t));
    let ghost g = views(gs@);
    let mut size: usize = 1;
    let mut i: usize = 0;
    while i < gs.len()
        invariant
            i <= gs.len(),
            g == views(gs@),
            size == count_from(g.take(i as int)),
        decreases gs.len() - i,
    {
        proof {
            assert(g.take(i + 1).drop_last() =~= g.take(i as int));
            assert(g.take(i + 1).last() == gs@[i as int]@);
        }
        match str_to_usize_chars(&gs[i]) {
            Ok(v) => {
                size = v;
            },
            Err(e) => {
                if e == ParseError::Empty {
                    size = usize::MAX;
                }
            },
        }
        i = i + 1;
    }
    proof {
        assert(g.take(gs.len() as int) =~= g);
    }
    size
}

/// The element type that a (lowercase) set-memory type name designates.
pub open spec fn set_kind(s: Seq<char>) -> Option<ElemKind> {
    if s == "uint8_t"@ || s == "u8"@ || s == "byte"@ {
        Some(ElemKind::U8)
    } else if s == "int8_t"@ || s == "i8"@ || s == "char"@ {
        Some(ElemKind::I8)
    } else if s == "uint16_t"@ || s == "word"@ || s == "u16"@ {
        Some(ElemKind::U16)
    } else if s == "int16_t"@ || s == "i16"@ {
        Some(ElemKind::I16)
    } else if s == "uint32_t"@ || s == "dword"@ || s == "u32"@ {
        Some(ElemKind::U32)
    } else if s == "int32_t"@ || s == "int"@ || s == "i32"@ {
        Some(ElemKind::I32)
    } else if s == "uint64_t"@ || s == "qword"@ || s == "u64"@ {
        Some(ElemKind::U64)
    } else if s == "int64_t"@ || s == "i64"@ {
        Some(ElemKind::I64)
    } else {
        None
    }
}

/// Law: each type name of `setmemory` designates the integer of the width
/// and signedness it names: `uint8_t`, `u8`, `byte` an unsigned byte;
/// `int8_t`, `i8`, `char` a signed byte; `uint16_t`, `word`, `u16` and
/// `int16_t`, `i16` two bytes; `uint32_t`, `dword`, `u32` and `int32_t`,
/// `int`, `i32` four bytes; `uint64_t`, `qword`, `u64` and `int64_t`, `i64`
/// eight bytes. No other name designates a type.
pub proof fn lemma_set_kind_names()
    ensures
        set_kind("uint8_t"@) == Some(ElemKind::U8) && crate::memory::elem_width(ElemKind::U8) == 1,
        set_kind("u8"@) == Some(ElemKind::U8) && crate::memory::elem_width(ElemKind::U8) == 1,
        set_kind("byte"@) == Some(ElemKind::U8) && crate::memory::elem_width(ElemKind::U8) == 1,
        set_kind("int8_t"@) == Some(ElemKind::I8) && crate::memory::elem_width(ElemKind::I8) == 1,
        set_kind("i8"@) == Some(ElemKind::I8) && crate::memory::elem_width(ElemKind::I8) == 1,
        set_kind("char"@) == Some(ElemKind::I8) && crate::memory::elem_width(ElemKind::I8) == 1,
        set_kind("uint16_t"@) == Some(ElemKind::U16) && crate::memory::elem_width(ElemKind::U16) == 2,
        set_kind("word"@) == Some(ElemKind::U16) && crate::memory::elem_width(ElemKind::U16) == 2,
        set_kind("u16"@) == Some(ElemKind::U16) && crate::memory::elem_width(ElemKind::U16) == 2,
        set_kind("int16_t"@) == Some(ElemKind::I16) && crate::memory::elem_width(ElemKind::I16) == 2,
        set_kind("i16"@) == Some(ElemKind::I16) && crate::memory::elem_width(ElemKind::I16) == 2,
        set_kind("uint32_t"@) == Some(ElemKind::U32) && crate::memory::elem_width(ElemKind::U32) == 4,
        set_kind("dword"@) == Some(ElemKind::U32) && crate::memory::elem_width(ElemKind::U32) == 4,
        set_kind("u32"@) == Some(ElemKind::U32) && crate::memory::elem_width(ElemKind::U32) == 4,
        set_kind("int32_t"@) == Some(ElemKind::I32) && crate::memory::elem_width(ElemKind::I32) == 4,
        set_kind("int"@) == Some(ElemKind::I32) && crate::memory::elem_width(ElemKind::I32) == 4,
        set_kind("i32"@) == Some(ElemKind::I32) && crate::memory::elem_width(ElemKind::I32) == 4,
        set_kind("uint64_t"@) == Some(ElemKind::U64) && crate::memory::elem_width(ElemKind::U64) == 8,
        set_kind("qword"@) == Some(ElemKind::U64) && crate::memory::elem_width(ElemKind::U64) == 8,
        set_kind("u64"@) == Some(ElemKind::U64) && crate::memory::elem_width(ElemKind::U64) == 8,
        set_kind("int64_t"@) == Some(ElemKind::I64) && crate::memory::elem_width(ElemKind::I64) == 8,
        set_kind("i64"@) == Some(ElemKind::I64) && crate::memory::elem_width(ElemKind::I64) == 8,
        forall|s: Seq<char>| #[trigger] set_kind(s) is Some ==> (s == "uint8_t"@ || s == "u8"@ || s == "byte"@ || s == "int8_t"@ || s == "i8"@ || s == "char"@ || s == "uint16_t"@ || s == "word"@ || s == "u16"@ || s == "int16_t"@ || s == "i16"@ || s == "uint32_t"@ || s == "dword"@ || s == "u32"@ || s == "int32_t"@ || s == "int"@ || s == "i32"@ || s == "uint64_t"@ || s == "qword"@ || s == "u64"@ || s == "int64_t"@ || s == "i64"@),
{
    reveal_strlit("uint8_t");
    assert("uint8_t"@.len() == 7);
    reveal_strlit("u8");
    assert("u8"@.len() == 2);
    reveal_strlit("byte");
    assert("byte"@.len() == 4);
    reveal_strlit("int8_t");
    assert("int8_t"@.len() == 6);
    reveal_strlit("i8");
    assert("i8"@.len() == 2);
    reveal_strlit("char");
    assert("char"@.len() == 4);
    reveal_strlit("uint16_t");
    assert("uint16_t"@.len() == 8);
    reveal_strlit("word");
    assert("word"@.len() == 4);
    reveal_strlit("u16");
    assert("u16"@.len() == 3);
    reveal_strlit("int16_t");
    assert("int16_t"@.len() == 7);
    reveal_strlit("i16");
    assert("i16"@.len() == 3);
    reveal_strlit("uint32_t");
    assert("uint32_t"@.len() == 8);
    reveal_strlit("dword");
    assert("dword"@.len() == 5);
    reveal_strlit("u32");
    assert("u32"@.len() == 3);
    reveal_strlit("int32_t");
    assert("int32_t"@.len() == 7);
    reveal_strlit("int");
    assert("int"@.len() == 3);
    reveal_strlit("i32");
    assert("i32"@.len() == 3);
    reveal_strlit("uint64_t");
    assert("uint64_t"@.len() == 8);
    reveal_strlit("qword");
    assert("qword"@.len() == 5);
    reveal_strlit("u64");
    assert("u64"@.len() == 3);
    reveal_strlit("int64_t");
    assert("int64_t"@.len() == 7);
    reveal_strlit("i64");
    assert("i64"@.len() == 3);
    assert("i8"@[0] != "u8"@[0]);
    assert("char"@[0] != "byte"@[0]);
    assert("word"@[0] != "byte"@[0]);
    assert("word"@[0] != "char"@[0]);
    assert("int16_t"@[0] != "uint8_t"@[0]);
    assert("i16"@[0] != "u16"@[0]);
    assert("uint32_t"@[4] != "uint16_t"@[4]);
    assert("u32"@[1] != "u16"@[1]);
    assert("u32"@[0] != "i16"@[0]);
    assert("int32_t"@[0] != "uint8_t"@[0]);
    assert("int32_t"@[3] != "int16_t"@[3]);
    assert("int"@[0] != "u16"@[0]);
    assert("int"@[1] != "i16"@[1]);
    assert("int"@[0] != "u32"@[0]);
    assert("i32"@[0] != "u16"@[0]);
    assert("i32"@[1] != "i16"@[1]);
    assert("i32"@[0] != "u32"@[0]);
    assert("uint64_t"@[4] != "uint16_t"@[4]);
    assert("uint64_t"@[4] != "uint32_t"@[4]);
    assert("qword"@[0] != "dword"@[0]);
    assert("u64"@[1] != "u16"@[1]);
    assert("u64"@[0] != "i16"@[0]);
    assert("u64"@[1] != "u32"@[1]);
    assert("u64"@[0] != "int"@[0]);
    assert("u64"@[0] != "i32"@[0]);
    assert("int64_t"@[0] != "uint8_t"@[0]);
    assert("int64_t"@[3] != "int16_t"@[3]);
    assert("int64_t"@[3] != "int32_t"@[3]);
    assert("i64"@[0] != "u16"@[0]);
    assert("i64"@[1] != "i16"@[1]);
    assert("i64"@[0] != "u32"@[0]);
    assert("i64"@[1] != "int"@[1]);
    assert("i64"@[1] != "i32"@[1]);
    assert("i64"@[0] != "u64"@[0]);
}

fn set_kind_exec(s: &Vec<char>) -> (r: Option<ElemKind>)
    ensures
        r == set_kind(s@),
{
    if chars_eq_str(s, "uint8_t") || chars_eq_str(s, "u8") || chars_eq_str(s, "byte") {
        Some(ElemKind::U8)
    } else if chars_eq_str(s, "int8_t") || chars_eq_str(s, "i8") || chars_eq_str(s, "char") {
        Some(ElemKind::I8)
    } else if chars_eq_str(s, "uint16_t") || chars_eq_str(s, "word") || chars_eq_str(s, "u16") {
        Some(ElemKind::U16)
    } else if chars_eq_str(s, "int16_t") || chars_eq_str(s, "i16") {
        Some(ElemKind::I16)
    } else if chars_eq_str(s, "uint32_t") || chars_eq_str(s, "dword") || chars_eq_str(s, "u32") {
        Some(ElemKind::U32)
    } else if chars_eq_str(s, "int32_t") || chars_eq_str(s, "int") || chars_eq_str(s, "i32") {
        Some(ElemKind::I32)
    } else if chars_eq_str(s, "uint64_t") || chars_eq_str(s, "qword") || chars_eq_str(s, "u64") {
        Some(ElemKind::U64)
    } else if chars_eq_str(s, "int64_t") || chars_eq_str(s, "i64") {
        Some(ElemKind::I64)
    } else {
        None
    }
}

/// Why a set-memory command is refused before any value is read.
#[derive(Debug, Clone, Copy, PartialEq, Eq, Structural)]
pub enum SetMemError {
    Usage,
    /// The target is a 128-bit register.
    Simd,
    /// The target is neither a register, a number nor a symbol.
    InvalidTarget,
    /// The target of a 32-bit program is no register and no number.
    InvalidAddress(ParseError),
}

/// What a set-memory command asks for.
#[derive(Debug)]
pub struct SetMemPlan {
    /// The element type, `None` when its name is not supported.
    pub kind: Option<ElemKind>,
    pub target: u64,
    /// How many elements at most to write.
    pub size: usize,
    /// The values, as typed.
    pub values: String,
}

/// The target of a set-memory command in a 64-bit program: a register
/// holding a 64-bit value, else a number, else the run-time address of the
/// first symbol of that name (0 when it cannot be computed).
pub open spec fn set_target64(
    t: Seq<char>,
    ctx: Context64,
    syms: Seq<SymbolFile>,
    frames: Seq<Frame>,
    base: u64,
) -> Result<u64, SetMemError> {
    match value_named(ctx, t) {
        Value::U64(v) => Ok(v),
        Value::U128(_) => Err(SetMemError::Simd),
        Value::Un => match str_to_spec(t, IntKind::U64) {
            Ok(v) => Ok(v as u64),
            Err(_) => match lookup_name(syms, t) {
                Some(i) => Ok(
                    match sym_addr64(syms[i], ctx, frames, base) {
                        Ok(a) => a,
                        Err(_) => 0,
                    },
                ),
                None => Err(SetMemError::InvalidTarget),
            },
        },
    }
}

/// The type name of a set-memory command: before the first `[`, lowercase.
pub open spec fn set_pointee(w: Seq<char>) -> Seq<char> {
    lower_seq(before_char(w, '['))
}

/// `set memory <type> <target> <values...>` in a 64-bit program (`arg` are
/// the words from the type on).
pub fn set_memory64(
    arg: &[&str],
    ctx: &Context64,
    syms: &Symbols,
    frames: &Vec<Frame>,
    base: u64,
) -> (r: Result<SetMemPlan, SetMemError>)
    ensures
        arg@.len() < 3 ==> r == Err::<SetMemPlan, SetMemError>(SetMemError::Usage),
        arg@.len() >= 3 ==> match set_target64(arg@[1]@, *ctx, syms.symbol_file@, frames@, base) {
            Err(e) => r == Err::<SetMemPlan, SetMemError>(e),
            Ok(t) => r matches Ok(p) && p.target == t && p.kind == set_kind(set_pointee(arg@[0]@))
                && p.size == count_from(bracket_groups(arg@[0]@)) && p.values@ == join_words(
                words(arg@).skip(2),
            ),
        },
{
    if arg.len() < 3 {
        return Err(SetMemError::Usage);
    }
    let size = get_size(arg[0]);
    let target = match ctx.str_to_value_ctx(arg[1]) {
        Value::U64(v) => v,
        Value::U128(_) => {
            return Err(SetMemError::Simd);
        },
        Value::Un => match str_to_u64(arg[1]) {
            Ok(v) => v,
            Err(_) => match syms.find_name(arg[1]) {
                Some(i) => match syms.symbol_file[i].real_addr64(ctx, frames, base) {
                    Ok(a) => a,
                    Err(_) => 0,
                },
                None => {
                    return Err(SetMemError::InvalidTarget);
                },
            },
        },
    };
    let name = lowercase(&before_char_exec(&chars_of(arg[0]), '['));
    let kind = set_kind_exec(&name);
    let values = join_from(arg, 2);
    Ok(SetMemPlan { kind, target, size, values })
}

/// The target of a set-memory command in a 32-bit program: the register of
/// that name unless it is 0, else a number.
pub open spec fn set_target32(t: Seq<char>, ctx: Context32) -> Result<u64, SetMemError> {
    let v = value32_named(ctx, lower_seq(t));
    if v != 0 {
        Ok(v as u64)
    } else {
        match str_to_spec(t, IntKind::U32) {
            Ok(a) => Ok(a as u64),
            Err(e) => Err(SetMemError::InvalidAddress(e)),
        }
    }
}

/// `set memory <type> <target> <values...>` in a 32-bit program.
pub fn set_memory32(arg: &[&str], ctx: &Context32) -> (r: Result<SetMemPlan, SetMemError>)
    ensures
        arg@.len() < 3 ==> r == Err::<SetMemPlan, SetMemError>(SetMemError::Usage),
        arg@.len() >= 3 ==> match set_target32(arg@[1]@, *ctx) {
            Err(e) => r == Err::<SetMemPlan, SetMemError>(e),
            Ok(t) => r matches Ok(p) && p.target == t && p.kind == set_kind(set_pointee(arg@[0]@))
                && p.size == count_from(bracket_groups(arg@[0]@)) && p.values@ == join_words(
                words(arg@).skip(2),
            ),
        },
{
    if arg.len() < 3 {
        return Err(SetMemError::Usage);
    }
    let size = get_size(arg[0]);
    let v = ctx.str_to_ctx(arg[1]);
    let target = if v != 0 {
        v as u64
    } else {
        match str_to_u32(arg[1]) {
            Ok(a) => a as u64,
            Err(e) => {
                return Err(SetMemError::InvalidAddress(e));
            },
        }
    };
    let name = lowercase(&before_char_exec(&chars_of(arg[0]), '['));
    let kind = set_kind_exec(&name);
    let values = join_from(arg, 2);
    Ok(SetMemPlan { kind, target, size, values })
}


/// The end of the run of `c` that starts at `i`.
pub open spec fn run_end(s: Seq<char>, i: int, c: char) -> int
    decreases s.len() - i,
{
    if 0 <= i < s.len() && s[i] == c {
        run_end(s, i + 1, c)
    } else {
        i
    }
}

/// The end of the type name that starts at `i`: the first `*`, `[` or `]`.
pub open spec fn type_end(s: Seq<char>, i: int) -> int
    decreases s.len() - i,
{
    if 0 <= i < s.len() && s[i] != '*' && s[i] != '[' && s[i] != ']' {
        type_end(s, i + 1)
    } else {
        i
    }
}

/// The end of the run of ASCII digits that starts at `i`.
pub open spec fn digit_end(s: Seq<char>, i: int) -> int
    decreases s.len() - i,
{
    if 0 <= i < s.len() && '0' <= s[i] <= '9' {
        digit_end(s, i + 1)
    } else {
        i
    }
}

pub open spec fn is_hex(c: char) -> bool {
    ('0' <= c <= '9') || ('a' <= c <= 'f') || ('A' <= c <= 'F')
}

/// The end of the run of hexadecimal digits that starts at `i`.
pub open spec fn hex_end(s: Seq<char>, i: int) -> int
    decreases s.len() - i,
{
    if 0 <= i < s.len() && is_hex(s[i]) {
        hex_end(s, i + 1)
    } else {
        i
    }
}

/// A value read through pointers, written `*(type[count]*)0xaddr` with as
/// many `*` on both sides as there are levels.
#[derive(Debug)]
pub struct DerefForm {
    /// The `*` before the parenthesis.
    pub outer: usize,
    pub pointee: Vec<char>,
    /// The digits between the brackets, when there are brackets.
    pub count: Option<Vec<char>>,
    /// The `*` inside the parenthesis.
    pub inner: usize,
    /// `0x` and the hexadecimal address.
    pub addr: Vec<char>,
}

/// The content of a `DerefForm`.
pub struct DerefView {
    pub outer: nat,
    pub pointee: Seq<char>,
    pub count: Option<Seq<char>>,
    pub inner: nat,
    pub addr: Seq<char>,
}

impl View for DerefForm {
    type V = DerefView;

    open spec fn view(&self) -> DerefView {
        DerefView {
            outer: self.outer as nat,
            pointee: self.pointee@,
            count: match self.count {
                Some(c) => Some(c@),
                None => None,
            },
            inner: self.inner as nat,
            addr: self.addr@,
        }
    }
}

/// The pointer form that starts at `p` in `s`, if one does: stars, `(`, a
/// type name (no `*`, `[` or `]`), optionally `[digits]`, stars, `)`, `0x`
/// and hexadecimal digits, each run as long as it goes.
pub open spec fn deref_at(s: Seq<char>, p: int) -> Option<DerefView> {
    if !(0 <= p < s.len() && s[p] == '*') {
        None
    } else {
        let a = run_end(s, p, '*');
        if !(a < s.len() && s[a] == '(') {
            None
        } else {
            let t = type_end(s, a + 1);
            if t == a + 1 {
                None
            } else {
                let bracket = t < s.len() && s[t] == '[';
                let d = digit_end(s, t + 1);
                if bracket && !(d < s.len() && s[d] == ']') {
                    None
                } else {
                    let k = if bracket {
                        d + 1
                    } else {
                        t
                    };
                    if !(k < s.len() && s[k] == '*') {
                        None
                    } else {
                        let b = run_end(s, k, '*');
                        if !(b + 3 < s.len() && s[b] == ')' && s[b + 1] == '0' && s[b + 2] == 'x'
                            && is_hex(s[b + 3])) {
                            None
                        } else {
                            let h = hex_end(s, b + 3);
                            Some(
                                DerefView {
                                    outer: (a - p) as nat,
                                    pointee: s.subrange(a + 1, t),
                                    count: if bracket {
                                        Some(s.subrange(t + 1, d))
                                    } else {
                                        None
                                    },
                                    inner: (b - k) as nat,
                                    addr: s.subrange(b + 1, h),
                                },
                            )
                        }
                    }
                }
            }
        }
    }
}

/// The first pointer form in `s` from `p` on (what the pattern
/// `(\*+)\(([^*\[\]]+)(?:\[(\d*)])?(\*+)\)(0x[0-9a-fA-F]+)` finds, digits
/// taken as ASCII digits).
pub open spec fn deref_search(s: Seq<char>, p: int) -> Option<DerefView>
    decreases s.len() - p,
{
    if p >= s.len() {
        None
    } else {
        match deref_at(s, p) {
            Some(f) => Some(f),
            None => deref_search(s, p + 1),
        }
    }
}

fn run_end_exec(s: &Vec<char>, i: usize, c: char) -> (r: usize)
    requires
        i <= s@.len(),
    ensures
        r == run_end(s@, i as int, c),
        i <= r <= s@.len(),
{
    let mut j = i;
    while j < s.len() && s[j] == c
        invariant
            i <= j <= s@.len(),
            run_end(s@, j as int, c) == run_end(s@, i as int, c),
        decreases s.len() - j,
    {
        j = j + 1;
    }
    j
}

fn type_end_exec(s: &Vec<char>, i: usize) -> (r: usize)
    requires
        i <= s@.len(),
    ensures
        r == type_end(s@, i as int),
        i <= r <= s@.len(),
{
    let mut j = i;
    while j < s.len() && s[j] != '*' && s[j] != '[' && s[j] != ']'
        invariant
            i <= j <= s@.len(),
            type_end(s@, j as int) == type_end(s@, i as int),
        decreases s.len() - j,
    {
        j = j + 1;
    }
    j
}

fn digit_end_exec(s: &Vec<char>, i: usize) -> (r: usize)
    requires
        i <= s@.len(),
    ensures
        r == digit_end(s@, i as int),
        i <= r <= s@.len(),
{
    let mut j = i;
    while j < s.len() && '0' <= s[j] && s[j] <= '9'
        invariant
            i <= j <= s@.len(),
            digit_end(s@, j as int) == digit_end(s@, i as int),
        decreases s.len() - j,
    {
        j = j + 1;
    }
    j
}

fn is_hex_exec(c: char) -> (r: bool)
    ensures
        r == is_hex(c),
{
    ('0' <= c && c <= '9') || ('a' <= c && c <= 'f') || ('A' <= c && c <= 'F')
}

fn hex_end_exec(s: &Vec<char>, i: usize) -> (r: usize)
    requires
        i <= s@.len(),
    ensures
        r == hex_end(s@, i as int),
        i <= r <= s@.len(),
{
    let mut j = i;
    while j < s.len() && is_hex_exec(s[j])
        invariant
            i <= j <= s@.len(),
            hex_end(s@, j as int) == hex_end(s@, i as int),
        decreases s.len() - j,
    {
        j = j + 1;
    }
    j
}

fn deref_at_exec(s: &Vec<char>, p: usize) -> (r: Option<DerefForm>)
    requires
        p < s@.len(),
    ensures
        match r {
            Some(f) => deref_at(s@, p as int) == Some(f@),
            None => deref_at(s@, p as int) is None,
        },
{
    if s[p] != '*' {
        return None;
    }
    let a = run_end_exec(s, p, '*');
    if !(a < s.len() && s[a] == '(') {
        return None;
    }
    let t = type_end_exec(s, a + 1);
    if t == a + 1 {
        return None;
    }
    let bracket = t < s.len() && s[t] == '[';
    let mut d = t;
    if bracket {
        d = digit_end_exec(s, t + 1);
        if !(d < s.len() && s[d] == ']') {
            return None;
        }
    }
    let k = if bracket {
        d + 1
    } else {
        t
    };
    if !(k < s.len() && s[k] == '*') {
        return None;
    }
    let b = run_end_exec(s, k, '*');
    if !(b < s.len() && s.len() - b > 3 && s[b] == ')' && s[b + 1] == '0' && s[b + 2] == 'x'
        && is_hex_exec(s[b + 3])) {
        return None;
    }
    let h = hex_end_exec(s, b + 3);
    let count = if bracket {
        Some(crate::text::slice_vec(s, t + 1, d))
    } else {
        None
    };
    let f = DerefForm {
        outer: a - p,
        pointee: crate::text::slice_vec(s, a + 1, t),
        count,
        inner: b - k,
        addr: crate::text::slice_vec(s, b + 1, h),
    };
    Some(f)
}

/// The first pointer form of `s` (see `deref_search`).
pub fn find_deref(s: &Vec<char>) -> (r: Option<DerefForm>)
    ensures
        match r {
            Some(f) => deref_search(s@, 0) == Some(f@),
            None => deref_search(s@, 0) is None,
        },
{
    let mut p: usize = 0;
    while p < s.len()
        invariant
            p <= s@.len(),
            deref_search(s@, p as int) == deref_search(s@, 0),
        decreases s.len() - p,
    {
        match deref_at_exec(s, p) {
            Some(f) => {
                return Some(f);
            },
            None => {},
        }
        p = p + 1;
    }
    None
}


/// What one piece of the values of a set-memory command gives.
#[derive(Debug)]
pub enum SetItem {
    /// An element value (its bits).
    Value(u64),
    /// A quoted character whose byte is no value of the type.
    CharError(char, ParseError),
    /// A piece that is no number (the piece, the reason).
    ValueError(Vec<char>, ParseError),
    /// A pointer form whose two runs of `*` differ in length.
    StarMismatch(usize, usize),
    /// A pointer form whose type is not the element type (the type given).
    TypeMismatch(Vec<char>),
    /// A pointer form whose address is no number.
    BadAddress(Vec<char>, ParseError),
    /// Values read through pointers: follow `levels - 1` pointers from
    /// `addr`, then read `count` elements.
    Deref { levels: usize, count: usize, addr: u64 },
}

/// The content of a `SetItem`.
pub enum SetItemV {
    Value(u64),
    CharError(char, ParseError),
    ValueError(Seq<char>, ParseError),
    StarMismatch(usize, usize),
    TypeMismatch(Seq<char>),
    BadAddress(Seq<char>, ParseError),
    Deref { levels: usize, count: usize, addr: u64 },
}

impl View for SetItem {
    type V = SetItemV;

    open spec fn view(&self) -> SetItemV {
        match self {
            SetItem::Value(v) => SetItemV::Value(*v),
            SetItem::CharError(c, e) => SetItemV::CharError(*c, *e),
            SetItem::ValueError(w, e) => SetItemV::ValueError(w@, *e),
            SetItem::StarMismatch(a, b) => SetItemV::StarMismatch(*a, *b),
            SetItem::TypeMismatch(t) => SetItemV::TypeMismatch(t@),
            SetItem::BadAddress(a, e) => SetItemV::BadAddress(a@, *e),
            SetItem::Deref { levels, count, addr } => SetItemV::Deref {
                levels: *levels,
                count: *count,
                addr: *addr,
            },
        }
    }
}

pub open spec fn item_views(v: Seq<SetItem>) -> Seq<SetItemV> {
    v.map_values(|i: SetItem| i@)
}

/// The type names that a pointer form may give for elements of type `k`.
pub open spec fn kind_names(k: ElemKind, t: Seq<char>) -> bool {
    match k {
        ElemKind::U8 | ElemKind::Char => t == "uint8_t"@ || t == "u8"@ || t == "byte"@,
        ElemKind::U16 => t == "uint16_t"@ || t == "u16"@ || t == "word"@,
        ElemKind::U32 => t == "uint32_t"@ || t == "u32"@ || t == "dword"@,
        ElemKind::U64 => t == "uint64_t"@ || t == "u64"@ || t == "qword"@,
        ElemKind::I8 => t == "int8_t"@ || t == "i8"@ || t == "char"@,
        ElemKind::I16 => t == "int16_t"@ || t == "i16"@,
        ElemKind::I32 => t == "int32_t"@ || t == "i32"@,
        ElemKind::I64 => t == "int64_t"@ || t == "i64"@,
    }
}

fn kind_names_exec(k: ElemKind, t: &Vec<char>) -> (r: bool)
    ensures
        r == kind_names(k, t@),
{
    match k {
        ElemKind::U8 | ElemKind::Char => chars_eq_str(t, "uint8_t") || chars_eq_str(t, "u8")
            || chars_eq_str(t, "byte"),
        ElemKind::U16 => chars_eq_str(t, "uint16_t") || chars_eq_str(t, "u16") || chars_eq_str(
            t,
            "word",
        ),
        ElemKind::U32 => chars_eq_str(t, "uint32_t") || chars_eq_str(t, "u32") || chars_eq_str(
            t,
            "dword",
        ),
        ElemKind::U64 => chars_eq_str(t, "uint64_t") || chars_eq_str(t, "u64") || chars_eq_str(
            t,
            "qword",
        ),
        ElemKind::I8 => chars_eq_str(t, "int8_t") || chars_eq_str(t, "i8") || chars_eq_str(t, "char"),
        ElemKind::I16 => chars_eq_str(t, "int16_t") || chars_eq_str(t, "i16"),
        ElemKind::I32 => chars_eq_str(t, "int32_t") || chars_eq_str(t, "i32"),
        ElemKind::I64 => chars_eq_str(t, "int64_t") || chars_eq_str(t, "i64"),
    }
}

/// The element count of a pointer form: its bracketed number, 1 without
/// one.
pub open spec fn form_count(c: Option<Seq<char>>) -> usize {
    match c {
        None => 1,
        Some(d) => match str_to_spec(d, IntKind::Usize) {
            Ok(v) => v as usize,
            Err(_) => 1,
        },
    }
}

/// Whether a piece is quoted (the same quote opens and closes it).
pub open spec fn quoted(w: Seq<char>) -> bool {
    w.len() >= 1 && ((w[0] == '\'' && w.last() == '\'') || (w[0] == '"' && w.last() == '"'))
}

/// The item of a quoted character `c` for elements of type `k`: its low
/// byte, which a signed byte cannot hold past 127.
pub open spec fn char_item(k: ElemKind, c: char) -> SetItemV {
    let b = crate::values::char_byte(c);
    if k == ElemKind::I8 && b > 127 {
        SetItemV::CharError(c, ParseError::PosOverflow)
    } else {
        SetItemV::Value(b as u64)
    }
}

/// The items of piece `w` of the values `all` (see `SetItem`); `None` where
/// reading it panics (a lone quote).
pub open spec fn piece_items(k: ElemKind, w: Seq<char>, all: Seq<char>) -> Option<Seq<SetItemV>> {
    if quoted(w) {
        if w.len() < 2 {
            None
        } else {
            Some(w.subrange(1, w.len() - 1).map_values(|c: char| char_item(k, c)))
        }
    } else {
        match deref_search(all, 0) {
            Some(f) => Some(
                seq![
                    if f.outer != f.inner {
                        SetItemV::StarMismatch(f.outer as usize, f.inner as usize)
                    } else if kind_names(k, f.pointee) {
                        match str_to_spec(f.addr, IntKind::U64) {
                            Ok(a) => SetItemV::Deref {
                                levels: f.outer as usize,
                                count: form_count(f.count),
                                addr: a as u64,
                            },
                            Err(e) => SetItemV::BadAddress(f.addr, e),
                        }
                    } else {
                        SetItemV::TypeMismatch(f.pointee)
                    },
                ],
            ),
            None => Some(
                seq![
                    match str_to_spec(w, elem_int(k)) {
                        Ok(v) => SetItemV::Value(elem_bits(k, v)),
                        Err(e) => SetItemV::ValueError(w, e),
                    },
                ],
            ),
        }
    }
}

/// The items of the values `s`: its pieces between commas, trimmed, in
/// order; `None` where reading panics.
pub open spec fn items_from(k: ElemKind, ps: Seq<Seq<char>>, all: Seq<char>) -> Option<Seq<SetItemV>>
    decreases ps.len(),
{
    if ps.len() == 0 {
        Some(Seq::empty())
    } else {
        match items_from(k, ps.drop_last(), all) {
            None => None,
            Some(v) => match piece_items(k, trim(ps.last()), all) {
                None => None,
                Some(x) => Some(v + x),
            },
        }
    }
}

proof fn lemma_items_none_extends(k: ElemKind, ps: Seq<Seq<char>>, all: Seq<char>, i: int)
    requires
        0 <= i <= ps.len(),
        items_from(k, ps.take(i), all) is None,
    ensures
        items_from(k, ps, all) is None,
    decreases ps.len() - i,
{
    if i < ps.len() {
        assert(ps.take(i + 1).drop_last() =~= ps.take(i));
        lemma_items_none_extends(k, ps, all, i + 1);
    } else {
        assert(ps.take(i) =~= ps);
    }
}

fn char_item_exec(k: ElemKind, c: char) -> (r: SetItem)
    ensures
        r@ == char_item(k, c),
{
    let b = (c as u32) % 256;
    if k == ElemKind::I8 && b > 127 {
        SetItem::CharError(c, ParseError::PosOverflow)
    } else {
        SetItem::Value(b as u64)
    }
}

fn piece_items_exec(k: ElemKind, w: &Vec<char>, all: &Vec<char>, form: &Option<DerefForm>) -> (r: Option<Vec<SetItem>>)
    requires
        match form {
            Some(f) => deref_search(all@, 0) == Some(f@),
            None => deref_search(all@, 0) is None,
        },
    ensures
        match r {
            None => piece_items(k, w@, all@) is None,
            Some(v) => piece_items(k, w@, all@) == Some(item_views(v@)),
        },
{
    let q = w.len() >= 1 && ((w[0] == '\'' && w[w.len() - 1] == '\'') || (w[0] == '"' && w[w.len() - 1] == '"'));
    if q {
        if w.len() < 2 {
            return None;
        }
        let mut out: Vec<SetItem> = Vec::new();
        let mut j: usize = 1;
        let ghost inner = w@.subrange(1, w@.len() - 1);
        while j < w.len() - 1
            invariant
                1 <= j <= w@.len() - 1,
                w@.len() >= 2,
                inner == w@.subrange(1, w@.len() - 1),
                item_views(out@) == inner.take(j - 1).map_values(|x: char| char_item(k, x)),
            decreases w.len() - 1 - j,
        {
            let ch = w[j];
            let it = char_item_exec(k, ch);
            let ghost prev = out@;
            out.push(it);
            proof {
                assert(inner[j - 1] == ch);
                assert(inner.take(j as int) =~= inner.take(j - 1).push(ch));
                assert(inner.take(j as int).map_values(|x: char| char_item(k, x)) =~= inner.take(
                    j - 1,
                ).map_values(|x: char| char_item(k, x)).push(char_item(k, ch)));
                assert(item_views(out@) =~= item_views(prev).push(char_item(k, ch)));
            }
            j = j + 1;
        }
        proof {
            assert(inner.take(j - 1) =~= inner);
        }
        return Some(out);
    }
    let it = match form {
        Some(f) => {
            if f.outer != f.inner {
                SetItem::StarMismatch(f.outer, f.inner)
            } else if kind_names_exec(k, &f.pointee) {
                match str_to_u64_chars(&f.addr) {
                    Ok(a) => {
                        let count = match &f.count {
                            None => 1,
                            Some(d) => match str_to_usize_chars(d) {
                                Ok(v) => v,
                                Err(_) => 1,
                            },
                        };
                        SetItem::Deref { levels: f.outer, count, addr: a }
                    },
                    Err(e) => SetItem::BadAddress(f.addr.clone(), e),
                }
            } else {
                SetItem::TypeMismatch(f.pointee.clone())
            }
        },
        None => match str_to_chars(w, k_int(k)) {
            Ok((neg, mag)) => SetItem::Value(crate::memory::elem_bits_exec(k, neg, mag)),
            Err(e) => SetItem::ValueError(w.clone(), e),
        },
    };
    let v = vec![it];
    proof {
        assert(item_views(v@) =~= seq![it@]);
    }
    Some(v)
}

fn k_int(k: ElemKind) -> (r: IntKind)
    ensures
        r == elem_int(k),
{
    match k {
        ElemKind::U8 | ElemKind::Char => IntKind::U8,
        ElemKind::I8 => IntKind::I8,
        ElemKind::U16 => IntKind::U16,
        ElemKind::I16 => IntKind::I16,
        ElemKind::U32 => IntKind::U32,
        ElemKind::I32 => IntKind::I32,
        ElemKind::U64 => IntKind::U64,
        ElemKind::I64 => IntKind::I64,
    }
}

/// The items of the values of a set-memory command (see `items_from`);
/// `None` where reading them panics.
pub fn set_items(k: ElemKind, values: &str) -> (r: Option<Vec<SetItem>>)
    ensures
        match r {
            None => items_from(k, split_at_char(values@, ','), values@) is None,
            Some(v) => items_from(k, split_at_char(values@, ','), values@) == Some(item_views(v@)),
        },
{
    let all = chars_of(values);
    let form = find_deref(&all);
    let pieces = split_char(&all, ',');
    let ghost ps = views(pieces@);
    let mut out: Vec<SetItem> = Vec::new();
    let mut i: usize = 0;
    while i < pieces.len()
        invariant
            i <= pieces.len(),
            all@ == values@,
            ps == views(pieces@),
            ps == split_at_char(values@, ','),
            match form {
                Some(f) => deref_search(all@, 0) == Some(f@),
                None => deref_search(all@, 0) is None,
            },
            items_from(k, ps.take(i as int), values@) == Some(item_views(out@)),
        decreases pieces.len() - i,
    {
        proof {
            assert(ps.take(i + 1).drop_last() =~= ps.take(i as int));
            assert(ps.take(i + 1).last() == pieces@[i as int]@);
        }
        let w = trim_exec(&pieces[i]);
        match piece_items_exec(k, &w, &all, &form) {
            None => {
                proof {
                    lemma_items_none_extends(k, ps, values@, i + 1);
                }
                return None;
            },
            Some(x) => {
                let mut x2 = x;
                proof {
                    assert(item_views(out@ + x2@) =~= item_views(out@) + item_views(x2@));
                }
                out.append(&mut x2);
            },
        }
        i = i + 1;
    }
    proof {
        assert(ps.take(pieces.len() as int) =~= ps);
    }
    Some(out)
}

/// How many elements a set-memory command writes: `size` of them, the
/// missing ones as zeros; all that were given when the count is unspecified
/// (`usize::MAX`, from empty brackets).
pub open spec fn write_count(size: usize, elements: nat) -> nat {
    if size == usize::MAX {
        elements
    } else {
        size as nat
    }
}

/// How many of the given elements are written: at most `size`.
pub open spec fn kept_count(size: usize, elements: nat) -> nat {
    if size < elements {
        size as nat
    } else {
        elements
    }
}

/// The bytes a set-memory command writes: the kept elements, `w` bytes each
/// in little endian, then zero bytes up to `write_count` elements.
pub open spec fn padded_bytes(vals: Seq<u64>, size: usize, w: nat) -> Seq<u8> {
    let k = kept_count(size, vals.len());
    pattern_bytes(vals.take(k as int), w) + Seq::new(
        ((write_count(size, vals.len()) - k) * w) as nat,
        |i: int| 0u8,
    )
}

/// Law: the bytes a set-memory command writes. For `size` elements (or, when
/// no count was given, as many as there are values), it writes `size * w`
/// bytes: the first values that fit, each as its `w` bytes least
/// significant first, then zero bytes.
pub proof fn lemma_padded_bytes_layout(vals: Seq<u64>, size: usize, w: nat)
    requires
        w > 0,
    ensures
        ({
            let p = padded_bytes(vals, size, w);
            let n: int = if size == usize::MAX { vals.len() as int } else { size as int };
            let kept: int = if size < vals.len() { size as int } else { vals.len() as int };
            &&& p.len() == n * w
            &&& forall|j: int|
                0 <= j < kept * w ==> #[trigger] p[j] == ((vals[j / (w as int)] >> (8 * (j % (w as int))) as u64)
                    & 0xff) as u8
            &&& forall|j: int| kept * w <= j < n * w ==> #[trigger] p[j] == 0
        }),
{
    let k = kept_count(size, vals.len());
    let t = vals.take(k as int);
    crate::memory::lemma_pattern_bytes_len(t, w);
    let n = write_count(size, vals.len());
    assert(k <= n);
    assert((n - k) * w == n * w - k * w) by (nonlinear_arith);
    let p = padded_bytes(vals, size, w);
    assert forall|j: int| 0 <= j < k * w implies #[trigger] p[j] == ((vals[j / (w as int)] >> (8 * (j
        % (w as int))) as u64) & 0xff) as u8 by {
        crate::memory::lemma_pattern_bytes_at(t, w, j);
        vstd::arithmetic::div_mod::lemma_div_pos_is_pos(j, w as int);
        assert(j / (w as int) < k) by {
            vstd::arithmetic::div_mod::lemma_div_is_ordered(j, k * w - 1, w as int);
            assert(k * w - 1 == (k - 1) * w + (w - 1)) by (nonlinear_arith);
            vstd::arithmetic::div_mod::lemma_fundamental_div_mod_converse(k * w - 1, w as int, k - 1, w - 1);
        }
        vstd::arithmetic::div_mod::lemma_mod_pos_bound(j, w as int);
        assert(t[j / (w as int)] == vals[j / (w as int)]);
    }
}

/// How many bytes a set-memory command writes (see `write_count`); `None`
/// when that number does not fit in `usize`.
pub fn write_len(size: usize, elements: usize, w: usize) -> (r: Option<usize>)
    ensures
        match r {
            Some(n) => n == write_count(size, elements as nat) * w,
            None => write_count(size, elements as nat) * w > usize::MAX,
        },
{
    let n = if size == usize::MAX {
        elements
    } else {
        size
    };
    n.checked_mul(w)
}

/// The bytes that a set-memory command writes (see `padded_bytes`).
pub fn padded_bytes_exec(vals: &Vec<u64>, size: usize, w: usize) -> (r: Vec<u8>)
    requires
        1 <= w <= 8,
        write_count(size, vals@.len()) * w <= usize::MAX,
    ensures
        r@ == padded_bytes(vals@, size, w as nat),
        r@.len() == write_count(size, vals@.len()) * w,
{
    let k = if size < vals.len() {
        size
    } else {
        vals.len()
    };
    let mut kept: Vec<u64> = Vec::new();
    let mut i: usize = 0;
    while i < k
        invariant
            k <= vals.len(),
            i <= k,
            kept@ == vals@.take(i as int),
        decreases k - i,
    {
        kept.push(vals[i]);
        proof {
            assert(vals@.take(i + 1) =~= vals@.take(i as int).push(vals@[i as int]));
        }
        i = i + 1;
    }
    let mut out = pattern_bytes_exec(&kept, w);
    proof {
        lemma_pattern_bytes_len(kept@, w as nat);
    }
    let total = if size == usize::MAX {
        vals.len()
    } else {
        size
    };
    assert(k <= total);
    let pad_n = total - k;
    proof {
        assert(pad_n * w <= total * w) by (nonlinear_arith)
            requires
                pad_n <= total,
        ;
        assert(k * w + pad_n * w == total * w) by (nonlinear_arith)
            requires
                k + pad_n == total,
        ;
    }
    let pad = pad_n * w;
    let ghost start = out@;
    let mut j: usize = 0;
    while j < pad
        invariant
            j <= pad,
            out@ == start + Seq::new(j as nat, |q: int| 0u8),
        decreases pad - j,
    {
        out.push(0u8);
        proof {
            assert(start + Seq::new((j + 1) as nat, |q: int| 0u8) =~= (start + Seq::new(
                j as nat,
                |q: int| 0u8,
            )).push(0u8));
        }
        j = j + 1;
    }
    proof {
        assert(out@ =~= padded_bytes(vals@, size, w as nat));
    }
    out
}

} // verus!
