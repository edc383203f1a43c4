//! The `deref` command: which address, how many pointers to follow, and
//! which type and how many elements to show.

use vstd::prelude::*;
use crate::context::{value_named, Context64, ToValue, Value};
use crate::number::{error_text, str_to_spec, str_to_u64, str_to_usize_chars, IntKind, ParseError};
use crate::stack::Frame;
use crate::structs::{before_char, before_char_exec, bracket_groups, bracket_groups_exec};
use crate::symbol::{lookup_name, sym_addr64, RealAddr, SymbolFile, Symbols};
use crate::text::{
    chars_eq_str, chars_of, contains_exec, contains_seq, count_and_remove, count_char, string_from,
    views,
};

verus! {

/// The element types `deref` shows.
#[derive(Debug, Clone, Copy, PartialEq, Eq, Structural)]
pub enum DerefKind {
    U8,
    I8,
    U16,
    I16,
    U32,
    I32,
    U64,
    I64,
    F32,
    F64,
    /// Characters, shown as an escaped string.
    Str,
}

/// The type that the name before `[` and `*` designates.
pub open spec fn deref_kind(t: Seq<char>) -> Option<DerefKind> {
    if t == "uint8_t"@ || t == "byte"@ || t == "u8"@ {
        Some(DerefKind::U8)
    } else if t == "int8_t"@ || t == "i8"@ {
        Some(DerefKind::I8)
    } else if t == "uint16_t"@ || t == "word"@ || t == "u16"@ {
        Some(DerefKind::U16)
    } else if t == "int16_t"@ || t == "short"@ || t == "i16"@ {
        Some(DerefKind::I16)
    } else if t == "uint32_t"@ || t == "u32"@ || t == "dword"@ {
        Some(DerefKind::U32)
    } else if t == "int32_t"@ || t == "int"@ || t == "long"@ || t == "i32"@ {
        Some(DerefKind::I32)
    } else if t == "uint64_t"@ || t == "qword"@ || t == "u64"@ {
        Some(DerefKind::U64)
    } else if t == "int64_t"@ || t == "i64"@ {
        Some(DerefKind::I64)
    } else if t == "float"@ || t == "f32"@ {
        Some(DerefKind::F32)
    } else if t == "double"@ || t == "f64"@ {
        Some(DerefKind::F64)
    } else if t == "char"@ || t == "str"@ || t == "string"@ {
        Some(DerefKind::Str)
    } else {
        None
    }
}

/// Law: each type name of `deref` designates the value of the width and
/// signedness it names: `uint8_t`, `byte`, `u8` and `int8_t`, `i8` one
/// byte; `uint16_t`, `word`, `u16` and `int16_t`, `short`, `i16` two bytes;
/// `uint32_t`, `u32`, `dword` and `int32_t`, `int`, `long`, `i32` four bytes;
/// `uint64_t`, `qword`, `u64` and `int64_t`, `i64` eight bytes (unsigned for
/// the `u` names, `byte`, `word`, `dword` and `qword`); `float`, `f32` and
/// `double`, `f64` the 4- and 8-byte floating-point numbers; `char`, `str`,
/// `string` a string. No other name designates a type.
pub proof fn lemma_deref_kind_names()
    ensures
        deref_kind("uint8_t"@) == Some(DerefKind::U8),
        deref_kind("byte"@) == Some(DerefKind::U8),
        deref_kind("u8"@) == Some(DerefKind::U8),
        deref_kind("int8_t"@) == Some(DerefKind::I8),
        deref_kind("i8"@) == Some(DerefKind::I8),
        deref_kind("uint16_t"@) == Some(DerefKind::U16),
        deref_kind("word"@) == Some(DerefKind::U16),
        deref_kind("u16"@) == Some(DerefKind::U16),
        deref_kind("int16_t"@) == Some(DerefKind::I16),
        deref_kind("short"@) == Some(DerefKind::I16),
        deref_kind("i16"@) == Some(DerefKind::I16),
        deref_kind("uint32_t"@) == Some(DerefKind::U32),
        deref_kind("u32"@) == Some(DerefKind::U32),
        deref_kind("dword"@) == Some(DerefKind::U32),
        deref_kind("int32_t"@) == Some(DerefKind::I32),
        deref_kind("int"@) == Some(DerefKind::I32),
        deref_kind("long"@) == Some(DerefKind::I32),
        deref_kind("i32"@) == Some(DerefKind::I32),
        deref_kind("uint64_t"@) == Some(DerefKind::U64),
        deref_kind("qword"@) == Some(DerefKind::U64),
        deref_kind("u64"@) == Some(DerefKind::U64),
        deref_kind("int64_t"@) == Some(DerefKind::I64),
        deref_kind("i64"@) == Some(DerefKind::I64),
        deref_kind("float"@) == Some(DerefKind::F32),
        deref_kind("f32"@) == Some(DerefKind::F32),
        deref_kind("double"@) == Some(DerefKind::F64),
        deref_kind("f64"@) == Some(DerefKind::F64),
        deref_kind("char"@) == Some(DerefKind::Str),
        deref_kind("str"@) == Some(DerefKind::Str),
        deref_kind("string"@) == Some(DerefKind::Str),
        forall|s: Seq<char>| #[trigger] deref_kind(s) is Some ==> (s == "uint8_t"@ || s == "byte"@ || s == "u8"@ || s == "int8_t"@ || s == "i8"@ || s == "uint16_t"@ || s == "word"@ || s == "u16"@ || s == "int16_t"@ || s == "short"@ || s == "i16"@ || s == "uint32_t"@ || s == "u32"@ || s == "dword"@ || s == "int32_t"@ || s == "int"@ || s == "long"@ || s == "i32"@ || s == "uint64_t"@ || s == "qword"@ || s == "u64"@ || s == "int64_t"@ || s == "i64"@ || s == "float"@ || s == "f32"@ || s == "double"@ || s == "f64"@ || s == "char"@ || s == "str"@ || s == "string"@),
{
    reveal_strlit("uint8_t");
    assert("uint8_t"@.len() == 7);
    reveal_strlit("byte");
    assert("byte"@.len() == 4);
    reveal_strlit("u8");
    assert("u8"@.len() == 2);
    reveal_strlit("int8_t");
    assert("int8_t"@.len() == 6);
    reveal_strlit("i8");
    assert("i8"@.len() == 2);
    reveal_strlit("uint16_t");
    assert("uint16_t"@.len() == 8);
    reveal_strlit("word");
    assert("word"@.len() == 4);
    reveal_strlit("u16");
    assert("u16"@.len() == 3);
    reveal_strlit("int16_t");
    assert("int16_t"@.len() == 7);
    reveal_strlit("short");
    assert("short"@.len() == 5);
    reveal_strlit("i16");
    assert("i16"@.len() == 3);
    reveal_strlit("uint32_t");
    assert("uint32_t"@.len() == 8);
    reveal_strlit("u32");
    assert("u32"@.len() == 3);
    reveal_strlit("dword");
    assert("dword"@.len() == 5);
    reveal_strlit("int32_t");
    assert("int32_t"@.len() == 7);
    reveal_strlit("int");
    assert("int"@.len() == 3);
    reveal_strlit("long");
    assert("long"@.len() == 4);
    reveal_strlit("i32");
    assert("i32"@.len() == 3);
    reveal_strlit("uint64_t");
    assert("uint64_t"@.len() == 8);
    reveal_strlit("qword");
    assert("qword"@.len() == 5);
    reveal_strlit("u64");
    assert("u64"@.len() == 3);
    reveal_strlit("int64_t");
    assert("int64_t"@.len() == 7);
    reveal_strlit("i64");
    assert("i64"@.len() == 3);
    reveal_strlit("float");
    assert("float"@.len() == 5);
    reveal_strlit("f32");
    assert("f32"@.len() == 3);
    reveal_strlit("double");
    assert("double"@.len() == 6);
    reveal_strlit("f64");
    assert("f64"@.len() == 3);
    reveal_strlit("char");
    assert("char"@.len() == 4);
    reveal_strlit("str");
    assert("str"@.len() == 3);
    reveal_strlit("string");
    assert("string"@.len() == 6);
    assert("i8"@[0] != "u8"@[0]);
    assert("word"@[0] != "byte"@[0]);
    assert("int16_t"@[0] != "uint8_t"@[0]);
    assert("i16"@[0] != "u16"@[0]);
    assert("uint32_t"@[4] != "uint16_t"@[4]);
    assert("u32"@[1] != "u16"@[1]);
    assert("u32"@[0] != "i16"@[0]);
    assert("dword"@[0] != "short"@[0]);
    assert("int32_t"@[0] != "uint8_t"@[0]);
    assert("int32_t"@[3] != "int16_t"@[3]);
    assert("int"@[0] != "u16"@[0]);
    assert("int"@[1] != "i16"@[1]);
    assert("int"@[0] != "u32"@[0]);
    assert("long"@[0] != "byte"@[0]);
    assert("long"@[0] != "word"@[0]);
    assert("i32"@[0] != "u16"@[0]);
    assert("i32"@[1] != "i16"@[1]);
    assert("i32"@[0] != "u32"@[0]);
    assert("uint64_t"@[4] != "uint16_t"@[4]);
    assert("uint64_t"@[4] != "uint32_t"@[4]);
    assert("qword"@[0] != "short"@[0]);
    assert("qword"@[0] != "dword"@[0]);
    assert("u64"@[1] != "u16"@[1]);
    assert("u64"@[0] != "i16"@[0]);
    assert("u64"@[1] != "u32"@[1]);
    assert("u64"@[0] != "int"@[0]);
    assert("u64"@[0] != "i32"@[0]);
    assert("int64_t"@[0] != "uint8_t"@[0]);
    assert("int64_t"@[3] != "int16_t"@[3]);
    assert("int64_t"@[3] != "int32_t"@[3]);
    assert("i64"@[0] != "u16"@[0]);
    assert("i64"@[1] != "i16"@[1]);
    assert("i64"@[0] != "u32"@[0]);
    assert("i64"@[1] != "int"@[1]);
    assert("i64"@[1] != "i32"@[1]);
    assert("i64"@[0] != "u64"@[0]);
    assert("float"@[0] != "short"@[0]);
    assert("float"@[0] != "dword"@[0]);
    assert("float"@[0] != "qword"@[0]);
    assert("f32"@[0] != "u16"@[0]);
    assert("f32"@[0] != "i16"@[0]);
    assert("f32"@[0] != "u32"@[0]);
    assert("f32"@[0] != "int"@[0]);
    assert("f32"@[0] != "i32"@[0]);
    assert("f32"@[0] != "u64"@[0]);
    assert("f32"@[0] != "i64"@[0]);
    assert("double"@[0] != "int8_t"@[0]);
    assert("f64"@[0] != "u16"@[0]);
    assert("f64"@[0] != "i16"@[0]);
    assert("f64"@[0] != "u32"@[0]);
    assert("f64"@[0] != "int"@[0]);
    assert("f64"@[0] != "i32"@[0]);
    assert("f64"@[0] != "u64"@[0]);
    assert("f64"@[0] != "i64"@[0]);
    assert("f64"@[1] != "f32"@[1]);
    assert("char"@[0] != "byte"@[0]);
    assert("char"@[0] != "word"@[0]);
    assert("char"@[0] != "long"@[0]);
    assert("str"@[0] != "u16"@[0]);
    assert("str"@[0] != "i16"@[0]);
    assert("str"@[0] != "u32"@[0]);
    assert("str"@[0] != "int"@[0]);
    assert("str"@[0] != "i32"@[0]);
    assert("str"@[0] != "u64"@[0]);
    assert("str"@[0] != "i64"@[0]);
    assert("str"@[0] != "f32"@[0]);
    assert("str"@[0] != "f64"@[0]);
    assert("string"@[0] != "int8_t"@[0]);
    assert("string"@[0] != "double"@[0]);
}

fn deref_kind_exec(t: &Vec<char>) -> (r: Option<DerefKind>)
    ensures
        r == deref_kind(t@),
{
    if chars_eq_str(t, "uint8_t") || chars_eq_str(t, "byte") || chars_eq_str(t, "u8") {
        Some(DerefKind::U8)
    } else if chars_eq_str(t, "int8_t") || chars_eq_str(t, "i8") {
        Some(DerefKind::I8)
    } else if chars_eq_str(t, "uint16_t") || chars_eq_str(t, "word") || chars_eq_str(t, "u16") {
        Some(DerefKind::U16)
    } else if chars_eq_str(t, "int16_t") || chars_eq_str(t, "short") || chars_eq_str(t, "i16") {
        Some(DerefKind::I16)
    } else if chars_eq_str(t, "uint32_t") || chars_eq_str(t, "u32") || chars_eq_str(t, "dword") {
        Some(DerefKind::U32)
    } else if chars_eq_str(t, "int32_t") || chars_eq_str(t, "int") || chars_eq_str(t, "long")
        || chars_eq_str(t, "i32") {
        Some(DerefKind::I32)
    } else if chars_eq_str(t, "uint64_t") || chars_eq_str(t, "qword") || chars_eq_str(t, "u64") {
        Some(DerefKind::U64)
    } else if chars_eq_str(t, "int64_t") || chars_eq_str(t, "i64") {
        Some(DerefKind::I64)
    } else if chars_eq_str(t, "float") || chars_eq_str(t, "f32") {
        Some(DerefKind::F32)
    } else if chars_eq_str(t, "double") || chars_eq_str(t, "f64") {
        Some(DerefKind::F64)
    } else if chars_eq_str(t, "char") || chars_eq_str(t, "str") || chars_eq_str(t, "string") {
        Some(DerefKind::Str)
    } else {
        None
    }
}

/// How to show memory: the element type, how many pointers lead to the
/// value (one per `*`, plus the address itself), and how many elements
/// (0 for a string: up to its NUL).
#[derive(Debug, Clone, Copy, PartialEq, Eq, Structural)]
pub struct DerefPlan {
    pub kind: DerefKind,
    pub count_ptr: usize,
    pub size: usize,
}

/// The element count from the groups: the number in the last brackets, 1
/// without any; a group that is no number is an error.
pub open spec fn deref_count(g: Seq<Seq<char>>) -> Result<nat, ParseError>
    decreases g.len(),
{
    if g.len() == 0 {
        Ok(1)
    } else {
        match deref_count(g.drop_last()) {
            Err(e) => Err(e),
            Ok(_) => match str_to_spec(g.last(), IntKind::Usize) {
                Ok(v) => Ok(v as nat),
                Err(e) => Err(e),
            },
        }
    }
}

/// Whether a type asks for a string (which has no element count).
pub open spec fn wants_string(d: Seq<char>) -> bool {
    contains_seq(d, "str"@) || contains_seq(d, "char[]"@)
}

/// How `deref <type> ...` shows memory, or the message to show.
pub open spec fn deref_plan_spec(d: Seq<char>) -> Result<DerefPlan, Seq<char>> {
    let size: Result<nat, ParseError> = if !wants_string(d) {
        deref_count(bracket_groups(d))
    } else {
        Ok(0)
    };
    match size {
        Err(e) => Err(error_text(e)),
        Ok(n) => match deref_kind(before_char(before_char(d, '['), '*')) {
            None => Err("Unknown type: "@ + d),
            Some(k) => Ok(
                DerefPlan {
                    kind: k,
                    count_ptr: vstd::wrapping::usize_specs::wrapping_add(count_char(d, '*') as usize, 1),
                    size: n as usize,
                },
            ),
        },
    }
}

proof fn lemma_before_char_prefix(s: Seq<char>, c: char)
    ensures
        before_char(s, c).len() <= s.len(),
        before_char(s, c) == s.take(before_char(s, c).len() as int),
        forall|k: int| 0 <= k < before_char(s, c).len() ==> #[trigger] s[k] != c,
        before_char(s, c).len() == s.len() || s[before_char(s, c).len() as int] == c,
    decreases s.len(),
{
    if s.len() > 0 && s[0] != c {
        let t = s.drop_first();
        lemma_before_char_prefix(t, c);
        let r = before_char(t, c);
        assert(before_char(s, c) == seq![s[0]] + r);
        assert(seq![s[0]] + r =~= s.take(r.len() as int + 1)) by {
            assert forall|k: int| 0 <= k < r.len() + 1 implies (seq![s[0]] + r)[k] == s.take(r.len() as int + 1)[k] by {
                if k > 0 {
                    assert(r[k - 1] == t.take(r.len() as int)[k - 1]);
                }
            }
        }
        assert forall|k: int| 0 <= k < r.len() + 1 implies #[trigger] s[k] != c by {
            if k > 0 {
                assert(t[k - 1] == s[k]);
            }
        }
        if r.len() < t.len() {
            assert(t[r.len() as int] == s[r.len() as int + 1]);
        }
    } else {
        assert(s.take(0) =~= Seq::<char>::empty());
    }
}

proof fn lemma_count_char_filter(s: Seq<char>, c: char)
    ensures
        count_char(s, c) == s.filter(|x: char| x == c).len(),
    decreases s.len(),
{
    reveal(Seq::filter);
    if s.len() > 0 {
        lemma_count_char_filter(s.drop_last(), c);
    }
}

/// Law: the element type of `deref <type>` is the one named by the text
/// before the first `[` or `*` (a prefix of the type holding neither), and
/// there is one pointer to follow for each `*` in the type, plus the address
/// itself.
pub proof fn lemma_deref_plan_parts(d: Seq<char>)
    ensures
        deref_plan_spec(d) matches Ok(p) ==> {
            let stars = d.filter(|x: char| x == '*').len();
            &&& stars + 1 <= usize::MAX ==> p.count_ptr == stars + 1
            &&& exists|n: int|
                #![trigger d.take(n)]
                0 <= n <= d.len() && (forall|k: int| 0 <= k < n ==> #[trigger] d[k] != '[' && d[k] != '*') && (
                n == d.len() || d[n] == '[' || d[n] == '*') && deref_kind(d.take(n)) == Some(p.kind)
        },
{
    let q = before_char(d, '[');
    let r = before_char(q, '*');
    lemma_before_char_prefix(d, '[');
    lemma_before_char_prefix(q, '*');
    lemma_count_char_filter(d, '*');
    let n = r.len() as int;
    assert(r =~= d.take(n));
    assert forall|k: int| 0 <= k < n implies #[trigger] d[k] != '[' && d[k] != '*' by {
        assert(q[k] == d[k]);
        assert(r[k] == q[k]);
    }
    if n < q.len() {
        assert(q[n] == d[n]);
    }
}

/// Reads the type of a `deref` command (see `deref_plan_spec`).
pub fn deref_memory(dtype: &str) -> (r: Result<DerefPlan, String>)
    ensures
        match r {
            Ok(p) => deref_plan_spec(dtype@) == Ok::<DerefPlan, Seq<char>>(p),
            Err(m) => deref_plan_spec(dtype@) == Err::<DerefPlan, Seq<char>>(m@),
        },
{
    let d = chars_of(dtype);
    let s1 = contains_exec(&d, &chars_of("str"));
    let s2 = contains_exec(&d, &chars_of("char[]"));
    let mut size: usize = 0;
    if !s1 && !s2 {
        let gs = bracket_groups_exec(&d);
        let ghost g = views(gs@);
        size = 1;
        let mut i: usize = 0;
        while i < gs.len()
            invariant
                i <= gs.len(),
                g == views(gs@),
                d@ == dtype@,
                !wants_string(d@),
                g == bracket_groups(d@),
                deref_count(g.take(i as int)) == Ok::<nat, ParseError>(size as nat),
            decreases gs.len() - i,
        {
            proof {
                assert(g.take(i + 1).drop_last() =~= g.take(i as int));
                assert(g.take(i + 1).last() == gs@[i as int]@);
            }
            match str_to_usize_chars(&gs[i]) {
                Ok(v) => {
                    size = v;
                },
                Err(e) => {
                    proof {
                        lemma_count_err(g, i as int + 1, e);
                    }
                    return Err(crate::text::string_of(e.message()));
                },
            }
            i = i + 1;
        }
        proof {
            assert(g.take(gs.len() as int) =~= g);
        }
    }
    let t = before_char_exec(&before_char_exec(&d, '['), '*');
    let (stars, _) = count_and_remove(&d, '*');
    match deref_kind_exec(&t) {
        None => {
            let mut m = chars_of("Unknown type: ");
            let mut d2 = chars_of(dtype);
            m.append(&mut d2);
            Err(string_from(&m))
        },
        Some(k) => {
            Ok(DerefPlan { kind: k, count_ptr: stars.wrapping_add(1), size })
        },
    }
}

proof fn lemma_count_err(g: Seq<Seq<char>>, k: int, e: ParseError)
    requires
        1 <= k <= g.len(),
        deref_count(g.take(k - 1)) is Ok,
        str_to_spec(g[k - 1], IntKind::Usize) == Err::<int, ParseError>(e),
    ensures
        deref_count(g) == Err::<nat, ParseError>(e),
    decreases g.len() - k,
{
    assert(g.take(k).drop_last() =~= g.take(k - 1));
    if k < g.len() {
        lemma_count_err_step(g, k + 1, e);
    } else {
        assert(g.take(k) =~= g);
    }
}

proof fn lemma_count_err_step(g: Seq<Seq<char>>, k: int, e: ParseError)
    requires
        2 <= k <= g.len(),
        deref_count(g.take(k - 1)) == Err::<nat, ParseError>(e),
    ensures
        deref_count(g) == Err::<nat, ParseError>(e),
    decreases g.len() - k,
{
    assert(g.take(k).drop_last() =~= g.take(k - 1));
    if k < g.len() {
        lemma_count_err_step(g, k + 1, e);
    } else {
        assert(g.take(k) =~= g);
    }
}

/// Why the address of a `deref` command is refused.
#[derive(Debug, Clone, Copy, PartialEq, Eq, Structural)]
pub enum DerefError {
    Usage,
    EmptyTarget,
    InvalidTarget,
}

/// The address a `deref` target designates: a number, else the value of the
/// register of that name (the low half of a 128-bit one) unless it is 0,
/// else the run-time address of the first symbol of that name (0 when it
/// cannot be computed).
pub open spec fn deref_target(
    t: Seq<char>,
    ctx: Context64,
    syms: Seq<SymbolFile>,
    frames: Seq<Frame>,
    base: u64,
) -> Result<u64, DerefError> {
    if t.len() == 0 {
        Err(DerefError::EmptyTarget)
    } else {
        match str_to_spec(t, IntKind::U64) {
            Ok(v) => Ok(v as u64),
            Err(_) => {
                let r = match value_named(ctx, t) {
                    Value::U64(v) => v,
                    Value::U128(x) => x.low,
                    Value::Un => 0,
                };
                if r != 0 {
                    Ok(r)
                } else {
                    match lookup_name(syms, t) {
                        Some(i) => Ok(
                            match sym_addr64(syms[i], ctx, frames, base) {
                                Ok(a) => a,
                                Err(_) => 0,
                            },
                        ),
                        None => Err(DerefError::InvalidTarget),
                    }
                }
            },
        }
    }
}

/// `deref <type> <target>`: the address to show (see `deref_target`).
pub fn handle_deref(
    linev: &[&str],
    ctx: &Context64,
    syms: &Symbols,
    frames: &Vec<Frame>,
    base: u64,
) -> (r: Result<u64, DerefError>)
    ensures
        linev@.len() < 3 ==> r == Err::<u64, DerefError>(DerefError::Usage),
        linev@.len() >= 3 ==> r == deref_target(linev@[2]@, *ctx, syms.symbol_file@, frames@, base),
{
    if linev.len() < 3 {
        return Err(DerefError::Usage);
    }
    let t = linev[2];
    if t.is_empty() {
        return Err(DerefError::EmptyTarget);
    }
    match str_to_u64(t) {
        Ok(v) => Ok(v),
        Err(_) => {
            let r = match ctx.str_to_value_ctx(t) {
                Value::U64(v) => v,
                Value::U128(x) => x.low,
                Value::Un => 0,
            };
            if r != 0 {
                Ok(r)
            } else {
                match syms.find_name(t) {
                    Some(i) => match syms.symbol_file[i].real_addr64(ctx, frames, base) {
                        Ok(a) => Ok(a),
                        Err(_) => Ok(0),
                    },
                    None => Err(DerefError::InvalidTarget),
                }
            }
        },
    }
}

/// Whether reading a string stops before byte `j`, which is `b`: after
/// `size` bytes when a size is given, at the NUL otherwise.
pub fn string_done(size: usize, j: usize, b: u8) -> (r: bool)
    ensures
        r == ((size != 0 && j == size) || (size == 0 && b == 0)),
{
    (size != 0 && j == size) || (size == 0 && b == 0)
}

} // verus!
