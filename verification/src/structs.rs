//! User-defined C-like types used to display memory: primitive types with an
//! element count, pointers and structures, read from declarations of the form
//! `<type> <name>[count]`.

use vstd::prelude::*;
use crate::text::{
    trim, trim_exec, chars_of, chars_eq_str, count_and_remove, count_char, lower_seq, lowercase, remove_char,
    split_whitespace, split_ws, string_from, string_of, views,
};
use crate::number::{
    agrees, digits, error_text, fmt_dec, str_to_spec, str_to_usize_chars, IntKind, ParseError,
};

verus! {

broadcast use vstd::std_specs::vec::group_vec_axioms;

/// The word size of the debugged program, known once its headers were read.
#[derive(Debug, Clone, Copy, PartialEq, Eq, Structural)]
pub enum Arch {
    X86,
    X64,
}

/// A type: a primitive with an element count, a structure, a pointer (with
/// its own element count) or `void`.
#[derive(Debug)]
pub enum TypeP {
    U8(usize),
    U16(usize),
    U32(usize),
    U64(usize),
    I8(usize),
    I16(usize),
    I32(usize),
    I64(usize),
    F32(usize),
    F64(usize),
    Char(usize),
    Structs(Vec<StructP>, String),
    Bool(usize),
    Ptr(Box<PtrS>, usize),
    Void,
}

/// A pointer type: how many levels of indirection, and the pointed type.
#[derive(Debug)]
pub struct PtrS {
    pub cout_ptr: usize,
    pub type_deref: Box<TypeP>,
}

/// One field of a structure.
#[derive(Debug)]
pub struct StructP {
    pub name_field: String,
    pub type_p: TypeP,
}

/// The mathematical value of a `TypeP`.
pub enum TypeV {
    U8(nat),
    U16(nat),
    U32(nat),
    U64(nat),
    I8(nat),
    I16(nat),
    I32(nat),
    I64(nat),
    F32(nat),
    F64(nat),
    Char(nat),
    Structs(Seq<FieldV>, Seq<char>),
    Bool(nat),
    /// Levels of indirection, pointed type, element count.
    Ptr(nat, Box<TypeV>, nat),
    Void,
}

/// The mathematical value of a `StructP`.
pub struct FieldV {
    pub name: Seq<char>,
    pub ty: TypeV,
}

pub open spec fn type_view(t: TypeP) -> TypeV
    decreases t,
{
    match t {
        TypeP::U8(n) => TypeV::U8(n as nat),
        TypeP::U16(n) => TypeV::U16(n as nat),
        TypeP::U32(n) => TypeV::U32(n as nat),
        TypeP::U64(n) => TypeV::U64(n as nat),
        TypeP::I8(n) => TypeV::I8(n as nat),
        TypeP::I16(n) => TypeV::I16(n as nat),
        TypeP::I32(n) => TypeV::I32(n as nat),
        TypeP::I64(n) => TypeV::I64(n as nat),
        TypeP::F32(n) => TypeV::F32(n as nat),
        TypeP::F64(n) => TypeV::F64(n as nat),
        TypeP::Char(n) => TypeV::Char(n as nat),
        TypeP::Structs(fs, name) => TypeV::Structs(fields_view(fs@), name@),
        TypeP::Bool(n) => TypeV::Bool(n as nat),
        TypeP::Ptr(p, n) => TypeV::Ptr(
            p.cout_ptr as nat,
            Box::new(type_view(*p.type_deref)),
            n as nat,
        ),
        TypeP::Void => TypeV::Void,
    }
}

pub open spec fn fields_view(fs: Seq<StructP>) -> Seq<FieldV>
    decreases fs,
{
    if fs.len() == 0 {
        Seq::empty()
    } else {
        fields_view(fs.subrange(0, fs.len() - 1)).push(
            FieldV { name: fs[fs.len() - 1].name_field@, ty: type_view(fs[fs.len() - 1].type_p) },
        )
    }
}

impl View for TypeP {
    type V = TypeV;

    open spec fn view(&self) -> TypeV {
        type_view(*self)
    }
}

impl View for StructP {
    type V = FieldV;

    open spec fn view(&self) -> FieldV {
        FieldV { name: self.name_field@, ty: type_view(self.type_p) }
    }
}

proof fn lemma_fields_view_push(fs: Seq<StructP>, f: StructP)
    ensures
        fields_view(fs.push(f)) == fields_view(fs).push(f@),
{
    assert(fs.push(f).subrange(0, fs.len() as int) =~= fs);
}


/// The structure's name: empty for a type that is not a structure.
pub open spec fn struct_name(t: TypeV) -> Seq<char> {
    match t {
        TypeV::Structs(_, name) => name,
        _ => Seq::empty(),
    }
}

/// The structure's fields: none for a type that is not a structure.
pub open spec fn struct_fields(t: TypeV) -> Seq<FieldV> {
    match t {
        TypeV::Structs(fs, _) => fs,
        _ => Seq::empty(),
    }
}

/// The type that a type name denotes, with `n` elements; `None` for an
/// unknown name.
pub open spec fn named_type(s: Seq<char>, n: nat) -> Option<TypeV> {
    if s == "u8"@ || s == "uint8_t"@ || s == "byte"@ {
        Some(TypeV::U8(n))
    } else if s == "i8"@ || s == "int8_t"@ {
        Some(TypeV::I8(n))
    } else if s == "char"@ {
        Some(TypeV::Char(n))
    } else if s == "u16"@ || s == "uint16_t"@ || s == "word"@ {
        Some(TypeV::U16(n))
    } else if s == "i16"@ || s == "int16_t"@ || s == "short"@ {
        Some(TypeV::I16(n))
    } else if s == "u32"@ || s == "uint32_t"@ || s == "dword"@ {
        Some(TypeV::U32(n))
    } else if s == "i32"@ || s == "int32_t"@ || s == "int"@ {
        Some(TypeV::I32(n))
    } else if s == "u64"@ || s == "uint64_t"@ || s == "qword"@ {
        Some(TypeV::U64(n))
    } else if s == "i64"@ || s == "int64_t"@ || s == "long long"@ {
        Some(TypeV::I64(n))
    } else if s == "f32"@ || s == "float"@ {
        Some(TypeV::F32(n))
    } else if s == "f64"@ || s == "double"@ {
        Some(TypeV::F64(n))
    } else if s == "bool"@ {
        Some(TypeV::Bool(n))
    } else if s == "void"@ {
        Some(TypeV::Void)
    } else {
        None
    }
}

/// Law: each type name of `def` denotes the type it names, and `n` values of
/// it take the bytes that type takes: one for `u8`, `uint8_t`, `byte`,
/// `i8`, `int8_t`, `char` and `bool`; two for `u16`, `uint16_t`, `word`,
/// `i16`, `int16_t`, `short`; four for `u32`, `uint32_t`, `dword`, `i32`,
/// `int32_t`, `int`, `f32`, `float`; eight for `u64`, `uint64_t`, `qword`,
/// `i64`, `int64_t`, `long long`, `f64`, `double`; `void` takes none.
pub proof fn lemma_type_names(n: nat, a: Option<Arch>)
    ensures
        named_type("u8"@, n) == Some(TypeV::U8(n)),
        named_type("uint8_t"@, n) == Some(TypeV::U8(n)),
        named_type("byte"@, n) == Some(TypeV::U8(n)),
        named_type("i8"@, n) == Some(TypeV::I8(n)),
        named_type("int8_t"@, n) == Some(TypeV::I8(n)),
        named_type("char"@, n) == Some(TypeV::Char(n)),
        named_type("u16"@, n) == Some(TypeV::U16(n)),
        named_type("uint16_t"@, n) == Some(TypeV::U16(n)),
        named_type("word"@, n) == Some(TypeV::U16(n)),
        named_type("i16"@, n) == Some(TypeV::I16(n)),
        named_type("int16_t"@, n) == Some(TypeV::I16(n)),
        named_type("short"@, n) == Some(TypeV::I16(n)),
        named_type("u32"@, n) == Some(TypeV::U32(n)),
        named_type("uint32_t"@, n) == Some(TypeV::U32(n)),
        named_type("dword"@, n) == Some(TypeV::U32(n)),
        named_type("i32"@, n) == Some(TypeV::I32(n)),
        named_type("int32_t"@, n) == Some(TypeV::I32(n)),
        named_type("int"@, n) == Some(TypeV::I32(n)),
        named_type("u64"@, n) == Some(TypeV::U64(n)),
        named_type("uint64_t"@, n) == Some(TypeV::U64(n)),
        named_type("qword"@, n) == Some(TypeV::U64(n)),
        named_type("i64"@, n) == Some(TypeV::I64(n)),
        named_type("int64_t"@, n) == Some(TypeV::I64(n)),
        named_type("long long"@, n) == Some(TypeV::I64(n)),
        named_type("f32"@, n) == Some(TypeV::F32(n)),
        named_type("float"@, n) == Some(TypeV::F32(n)),
        named_type("f64"@, n) == Some(TypeV::F64(n)),
        named_type("double"@, n) == Some(TypeV::F64(n)),
        named_type("bool"@, n) == Some(TypeV::Bool(n)),
        named_type("void"@, n) == Some(TypeV::Void),
        type_size(named_type("u8"@, n)->0, a) == 1 * n,
        type_size(named_type("uint8_t"@, n)->0, a) == 1 * n,
        type_size(named_type("byte"@, n)->0, a) == 1 * n,
        type_size(named_type("i8"@, n)->0, a) == 1 * n,
        type_size(named_type("int8_t"@, n)->0, a) == 1 * n,
        type_size(named_type("char"@, n)->0, a) == 1 * n,
        type_size(named_type("u16"@, n)->0, a) == 2 * n,
        type_size(named_type("uint16_t"@, n)->0, a) == 2 * n,
        type_size(named_type("word"@, n)->0, a) == 2 * n,
        type_size(named_type("i16"@, n)->0, a) == 2 * n,
        type_size(named_type("int16_t"@, n)->0, a) == 2 * n,
        type_size(named_type("short"@, n)->0, a) == 2 * n,
        type_size(named_type("u32"@, n)->0, a) == 4 * n,
        type_size(named_type("uint32_t"@, n)->0, a) == 4 * n,
        type_size(named_type("dword"@, n)->0, a) == 4 * n,
        type_size(named_type("i32"@, n)->0, a) == 4 * n,
        type_size(named_type("int32_t"@, n)->0, a) == 4 * n,
        type_size(named_type("int"@, n)->0, a) == 4 * n,
        type_size(named_type("u64"@, n)->0, a) == 8 * n,
        type_size(named_type("uint64_t"@, n)->0, a) == 8 * n,
        type_size(named_type("qword"@, n)->0, a) == 8 * n,
        type_size(named_type("i64"@, n)->0, a) == 8 * n,
        type_size(named_type("int64_t"@, n)->0, a) == 8 * n,
        type_size(named_type("long long"@, n)->0, a) == 8 * n,
        type_size(named_type("f32"@, n)->0, a) == 4 * n,
        type_size(named_type("float"@, n)->0, a) == 4 * n,
        type_size(named_type("f64"@, n)->0, a) == 8 * n,
        type_size(named_type("double"@, n)->0, a) == 8 * n,
        type_size(named_type("bool"@, n)->0, a) == 1 * n,
        type_size(named_type("void"@, n)->0, a) == 0 * n,
{
    reveal_strlit("u8");
    assert("u8"@.len() == 2);
    reveal_strlit("uint8_t");
    assert("uint8_t"@.len() == 7);
    reveal_strlit("byte");
    assert("byte"@.len() == 4);
    reveal_strlit("i8");
    assert("i8"@.len() == 2);
    reveal_strlit("int8_t");
    assert("int8_t"@.len() == 6);
    reveal_strlit("char");
    assert("char"@.len() == 4);
    reveal_strlit("u16");
    assert("u16"@.len() == 3);
    reveal_strlit("uint16_t");
    assert("uint16_t"@.len() == 8);
    reveal_strlit("word");
    assert("word"@.len() == 4);
    reveal_strlit("i16");
    assert("i16"@.len() == 3);
    reveal_strlit("int16_t");
    assert("int16_t"@.len() == 7);
    reveal_strlit("short");
    assert("short"@.len() == 5);
    reveal_strlit("u32");
    assert("u32"@.len() == 3);
    reveal_strlit("uint32_t");
    assert("uint32_t"@.len() == 8);
    reveal_strlit("dword");
    assert("dword"@.len() == 5);
    reveal_strlit("i32");
    assert("i32"@.len() == 3);
    reveal_strlit("int32_t");
    assert("int32_t"@.len() == 7);
    reveal_strlit("int");
    assert("int"@.len() == 3);
    reveal_strlit("u64");
    assert("u64"@.len() == 3);
    reveal_strlit("uint64_t");
    assert("uint64_t"@.len() == 8);
    reveal_strlit("qword");
    assert("qword"@.len() == 5);
    reveal_strlit("i64");
    assert("i64"@.len() == 3);
    reveal_strlit("int64_t");
    assert("int64_t"@.len() == 7);
    reveal_strlit("long long");
    assert("long long"@.len() == 9);
    reveal_strlit("f32");
    assert("f32"@.len() == 3);
    reveal_strlit("float");
    assert("float"@.len() == 5);
    reveal_strlit("f64");
    assert("f64"@.len() == 3);
    reveal_strlit("double");
    assert("double"@.len() == 6);
    reveal_strlit("bool");
    assert("bool"@.len() == 4);
    reveal_strlit("void");
    assert("void"@.len() == 4);
    assert("i8"@[0] != "u8"@[0]);
    assert("char"@[0] != "byte"@[0]);
    assert("word"@[0] != "byte"@[0]);
    assert("word"@[0] != "char"@[0]);
    assert("i16"@[0] != "u16"@[0]);
    assert("int16_t"@[0] != "uint8_t"@[0]);
    assert("u32"@[1] != "u16"@[1]);
    assert("u32"@[0] != "i16"@[0]);
    assert("uint32_t"@[4] != "uint16_t"@[4]);
    assert("dword"@[0] != "short"@[0]);
    assert("i32"@[0] != "u16"@[0]);
    assert("i32"@[1] != "i16"@[1]);
    assert("i32"@[0] != "u32"@[0]);
    assert("int32_t"@[0] != "uint8_t"@[0]);
    assert("int32_t"@[3] != "int16_t"@[3]);
    assert("int"@[0] != "u16"@[0]);
    assert("int"@[1] != "i16"@[1]);
    assert("int"@[0] != "u32"@[0]);
    assert("u64"@[1] != "u16"@[1]);
    assert("u64"@[0] != "i16"@[0]);
    assert("u64"@[1] != "u32"@[1]);
    assert("u64"@[0] != "i32"@[0]);
    assert("u64"@[0] != "int"@[0]);
    assert("uint64_t"@[4] != "uint16_t"@[4]);
    assert("uint64_t"@[4] != "uint32_t"@[4]);
    assert("qword"@[0] != "short"@[0]);
    assert("qword"@[0] != "dword"@[0]);
    assert("i64"@[0] != "u16"@[0]);
    assert("i64"@[1] != "i16"@[1]);
    assert("i64"@[0] != "u32"@[0]);
    assert("i64"@[1] != "i32"@[1]);
    assert("i64"@[1] != "int"@[1]);
    assert("i64"@[0] != "u64"@[0]);
    assert("int64_t"@[0] != "uint8_t"@[0]);
    assert("int64_t"@[3] != "int16_t"@[3]);
    assert("int64_t"@[3] != "int32_t"@[3]);
    assert("f32"@[0] != "u16"@[0]);
    assert("f32"@[0] != "i16"@[0]);
    assert("f32"@[0] != "u32"@[0]);
    assert("f32"@[0] != "i32"@[0]);
    assert("f32"@[0] != "int"@[0]);
    assert("f32"@[0] != "u64"@[0]);
    assert("f32"@[0] != "i64"@[0]);
    assert("float"@[0] != "short"@[0]);
    assert("float"@[0] != "dword"@[0]);
    assert("float"@[0] != "qword"@[0]);
    assert("f64"@[0] != "u16"@[0]);
    assert("f64"@[0] != "i16"@[0]);
    assert("f64"@[0] != "u32"@[0]);
    assert("f64"@[0] != "i32"@[0]);
    assert("f64"@[0] != "int"@[0]);
    assert("f64"@[0] != "u64"@[0]);
    assert("f64"@[0] != "i64"@[0]);
    assert("f64"@[1] != "f32"@[1]);
    assert("double"@[0] != "int8_t"@[0]);
    assert("bool"@[1] != "byte"@[1]);
    assert("bool"@[0] != "char"@[0]);
    assert("bool"@[0] != "word"@[0]);
    assert("void"@[0] != "byte"@[0]);
    assert("void"@[0] != "char"@[0]);
    assert("void"@[0] != "word"@[0]);
    assert("void"@[0] != "bool"@[0]);
}

/// The message for an unknown type name.
pub open spec fn unknown_type_text(s: Seq<char>) -> Seq<char> {
    "Unknown type p: "@ + s
}

impl TypeP {
    /// A copy of the type.
    pub fn duplicate(&self) -> (r: TypeP)
        ensures
            r@ == self@,
        decreases self,
    {
        match self {
            TypeP::U8(n) => TypeP::U8(*n),
            TypeP::U16(n) => TypeP::U16(*n),
            TypeP::U32(n) => TypeP::U32(*n),
            TypeP::U64(n) => TypeP::U64(*n),
            TypeP::I8(n) => TypeP::I8(*n),
            TypeP::I16(n) => TypeP::I16(*n),
            TypeP::I32(n) => TypeP::I32(*n),
            TypeP::I64(n) => TypeP::I64(*n),
            TypeP::F32(n) => TypeP::F32(*n),
            TypeP::F64(n) => TypeP::F64(*n),
            TypeP::Char(n) => TypeP::Char(*n),
            TypeP::Structs(fs, name) => TypeP::Structs(duplicate_fields(fs), name.clone()),
            TypeP::Bool(n) => TypeP::Bool(*n),
            TypeP::Ptr(p, n) => {
                let d = p.type_deref.duplicate();
                TypeP::Ptr(Box::new(PtrS { cout_ptr: p.cout_ptr, type_deref: Box::new(d) }), *n)
            },
            TypeP::Void => TypeP::Void,
        }
    }

    /// The name of the structure, or an empty string for another type.
    pub fn get_name_of_struct(&self) -> (r: String)
        ensures
            r@ == struct_name(self@),
    {
        match self {
            TypeP::Structs(_, name) => name.clone(),
            _ => String::new(),
        }
    }

    /// A copy of the fields of the structure, or none for another type.
    pub fn get_field_of_struct(&self) -> (r: Vec<StructP>)
        ensures
            fields_view(r@) == struct_fields(self@),
    {
        match self {
            TypeP::Structs(fs, _) => duplicate_fields(fs),
            _ => Vec::new(),
        }
    }

    /// The type named `type_str` (`u8`, `uint8_t`, `byte`, `int`, `qword`,
    /// `double`, `bool`, `void`, ...) with `cout` elements.
    pub fn get_type_with_str(type_str: &str, cout: usize) -> (r: Result<TypeP, String>)
        ensures
            match r {
                Ok(t) => named_type(type_str@, cout as nat) == Some(t@),
                Err(e) => named_type(type_str@, cout as nat) is None && e@ == unknown_type_text(
                    type_str@,
                ),
            },
    {
        let v = chars_of(type_str);
        match named_type_chars(&v, cout) {
            Some(t) => Ok(t),
            None => {
                let mut msg = chars_of("Unknown type p: ");
                let mut rest = v;
                msg.append(&mut rest);
                Err(string_from(&msg))
            },
        }
    }
}

/// A copy of each field, in order.
pub fn duplicate_fields(fs: &Vec<StructP>) -> (r: Vec<StructP>)
    ensures
        fields_view(r@) == fields_view(fs@),
    decreases fs,
{
    let mut out: Vec<StructP> = Vec::new();
    let mut i: usize = 0;
    while i < fs.len()
        invariant
            i <= fs.len(),
            fields_view(out@) == fields_view(fs@.take(i as int)),
        decreases fs.len() - i,
    {
        proof {
            assert(decreases_to!(fs => fs[i as int]));
        }
        let t = fs[i].type_p.duplicate();
        let f = StructP { name_field: fs[i].name_field.clone(), type_p: t };
        proof {
            lemma_fields_view_push(out@, f);
            lemma_fields_view_push(fs@.take(i as int), fs@[i as int]);
            assert(fs@.take(i + 1) =~= fs@.take(i as int).push(fs@[i as int]));
        }
        out.push(f);
        i = i + 1;
    }
    proof {
        assert(fs@.take(fs.len() as int) =~= fs@);
    }
    out
}

impl Default for TypeP {
    fn default() -> (r: TypeP)
        ensures
            r@ == TypeV::Void,
    {
        TypeP::Void
    }
}

impl Default for PtrS {
    fn default() -> (r: PtrS)
        ensures
            r.cout_ptr == 0,
            r.type_deref@ == TypeV::Void,
    {
        PtrS { cout_ptr: 0, type_deref: Box::new(TypeP::Void) }
    }
}

impl Default for StructP {
    fn default() -> (r: StructP)
        ensures
            r@.name == Seq::<char>::empty(),
            r@.ty == TypeV::Void,
    {
        StructP { name_field: String::new(), type_p: TypeP::Void }
    }
}


/// The size in bytes of a value of type `t`; a pointer's size needs the
/// word size, and counts as 0 while it is unknown.
pub open spec fn type_size(t: TypeV, a: Option<Arch>) -> int
    decreases t,
{
    match t {
        TypeV::U8(n) | TypeV::I8(n) | TypeV::Bool(n) | TypeV::Char(n) => n as int,
        TypeV::U16(n) | TypeV::I16(n) => 2 * n as int,
        TypeV::U32(n) | TypeV::I32(n) | TypeV::F32(n) => 4 * n as int,
        TypeV::U64(n) | TypeV::I64(n) | TypeV::F64(n) => 8 * n as int,
        TypeV::Ptr(_, _, n) => match a {
            Some(Arch::X86) => 4 * n as int,
            Some(Arch::X64) => 8 * n as int,
            None => 0,
        },
        TypeV::Structs(fs, _) => fields_size(fs, a),
        TypeV::Void => 0,
    }
}

/// The sum of the sizes of the fields.
pub open spec fn fields_size(fs: Seq<FieldV>, a: Option<Arch>) -> int
    decreases fs,
{
    if fs.len() == 0 {
        0
    } else {
        fields_size(fs.subrange(0, fs.len() - 1), a) + type_size(fs[fs.len() - 1].ty, a)
    }
}

proof fn lemma_size_nonneg(t: TypeV, a: Option<Arch>)
    ensures
        type_size(t, a) >= 0,
    decreases t,
{
    match t {
        TypeV::Structs(fs, _) => {
            lemma_fields_size_nonneg(fs, a);
        },
        _ => {},
    }
}

proof fn lemma_fields_size_nonneg(fs: Seq<FieldV>, a: Option<Arch>)
    ensures
        fields_size(fs, a) >= 0,
    decreases fs,
{
    if fs.len() > 0 {
        lemma_fields_size_nonneg(fs.subrange(0, fs.len() - 1), a);
        lemma_size_nonneg(fs[fs.len() - 1].ty, a);
    }
}

proof fn lemma_fields_size_prefix(fs: Seq<FieldV>, i: int, a: Option<Arch>)
    requires
        0 <= i <= fs.len(),
    ensures
        fields_size(fs.take(i), a) <= fields_size(fs, a),
    decreases fs.len(),
{
    if i < fs.len() {
        let short = fs.subrange(0, fs.len() - 1);
        lemma_fields_size_prefix(short, i, a);
        assert(short.take(i) =~= fs.take(i));
        lemma_size_nonneg(fs[fs.len() - 1].ty, a);
    } else {
        assert(fs.take(i) =~= fs);
    }
}

proof fn lemma_fields_view_take(fs: Seq<StructP>, i: int)
    requires
        0 <= i <= fs.len(),
    ensures
        fields_view(fs.take(i)) == fields_view(fs).take(i),
        fields_view(fs).len() == fs.len(),
    decreases fs.len(),
{
    if fs.len() > 0 {
        let short = fs.subrange(0, fs.len() - 1);
        if i < fs.len() {
            lemma_fields_view_take(short, i);
            assert(short.take(i) =~= fs.take(i));
            assert(fields_view(fs).take(i) =~= fields_view(short).take(i));
        } else {
            lemma_fields_view_take(short, 0);
            assert(fs.take(i) =~= fs);
            assert(fields_view(fs).take(i) =~= fields_view(fs));
        }
    } else {
        assert(fs.take(i) =~= fs);
        assert(fields_view(fs).take(i) =~= fields_view(fs));
    }
}

impl TypeP {
    /// The size in bytes of a value of this type (see `type_size`).
    pub fn get_size(&self, arch: Option<Arch>) -> (r: usize)
        requires
            type_size(self@, arch) <= usize::MAX,
        ensures
            r == type_size(self@, arch),
        decreases self,
    {
        match self {
            TypeP::U8(n) | TypeP::I8(n) | TypeP::Bool(n) | TypeP::Char(n) => *n,
            TypeP::U16(n) | TypeP::I16(n) => 2 * *n,
            TypeP::U32(n) | TypeP::I32(n) | TypeP::F32(n) => 4 * *n,
            TypeP::U64(n) | TypeP::I64(n) | TypeP::F64(n) => 8 * *n,
            TypeP::Ptr(_, n) => match arch {
                Some(Arch::X86) => 4 * *n,
                Some(Arch::X64) => 8 * *n,
                None => 0,
            },
            TypeP::Structs(fs, nm) => {
                let ghost all = fields_view(fs@);
                let mut total: usize = 0;
                let mut i: usize = 0;
                proof {
                    lemma_fields_view_take(fs@, 0);
                    assert(all.take(0) =~= Seq::<FieldV>::empty());
                }
                while i < fs.len()
                    invariant
                        *self == TypeP::Structs(*fs, *nm),
                        i <= fs.len(),
                        all == fields_view(fs@),
                        all.len() == fs.len(),
                        fields_size(all, arch) <= usize::MAX,
                        total == fields_size(all.take(i as int), arch),
                    decreases fs.len() - i,
                {
                    proof {
                        assert(decreases_to!(*fs => fs[i as int]));
                        assert(decreases_to!(*self => (*self)->Structs_0));
                        assert(decreases_to!(*self => fs[i as int].type_p));
                        lemma_fields_view_take(fs@, i + 1);
                        lemma_fields_view_take(fs@, i as int);
                        lemma_fields_size_prefix(all, i + 1, arch);
                        assert(all.take(i + 1).subrange(0, i as int) =~= all.take(i as int));
                        lemma_fields_view_push(fs@.take(i as int), fs@[i as int]);
                        assert(fs@.take(i + 1) =~= fs@.take(i as int).push(fs@[i as int]));
                        assert(all.take(i + 1)[i as int] == fs@[i as int]@);
                        lemma_fields_size_nonneg(all.take(i as int), arch);
                    }
                    let sz = fs[i].type_p.get_size(arch);
                    total = total + sz;
                    i = i + 1;
                }
                proof {
                    assert(all.take(fs.len() as int) =~= all);
                }
                total
            },
            TypeP::Void => 0,
        }
    }
}


/// `s`, followed by `[n]` unless `n` is 1.
pub open spec fn with_count(s: Seq<char>, n: nat) -> Seq<char> {
    if n != 1 {
        s + seq!['['] + digits(n, 10) + seq![']']
    } else {
        s
    }
}

/// `n` asterisks.
pub open spec fn stars(n: nat) -> Seq<char> {
    Seq::new(n, |i: int| '*')
}

/// How a type is written: its C name with the element count in brackets
/// (when it is not 1), a pointer as the pointed type followed by one `*` per
/// level, a structure as `struct <name>`.
pub open spec fn type_text(t: TypeV) -> Seq<char>
    decreases t,
{
    match t {
        TypeV::U8(n) => with_count("uint8_t"@, n),
        TypeV::U16(n) => with_count("uint16_t"@, n),
        TypeV::U32(n) => with_count("uint32_t"@, n),
        TypeV::U64(n) => with_count("uint64_t"@, n),
        TypeV::I8(n) => with_count("int8_t"@, n),
        TypeV::I16(n) => with_count("int16_t"@, n),
        TypeV::I32(n) => with_count("int32_t"@, n),
        TypeV::I64(n) => with_count("int64_t"@, n),
        TypeV::F32(n) => with_count("float"@, n),
        TypeV::F64(n) => with_count("double"@, n),
        TypeV::Char(n) => with_count("char"@, n),
        TypeV::Bool(n) => with_count("bool"@, n),
        TypeV::Ptr(c, d, n) => with_count(type_text(*d) + stars(c), n),
        TypeV::Structs(_, name) => "struct "@ + name,
        TypeV::Void => "void"@,
    }
}

fn with_count_chars(s: Vec<char>, n: usize) -> (r: Vec<char>)
    ensures
        r@ == with_count(s@, n as nat),
{
    if n != 1 {
        let mut out = s;
        out.push('[');
        let mut d = fmt_dec(n as u64);
        out.append(&mut d);
        out.push(']');
        out
    } else {
        s
    }
}

/// `name_text`, followed by `[size]` unless `size` is 1.
pub fn write_type(name_text: &str, size: usize) -> (r: String)
    ensures
        r@ == with_count(name_text@, size as nat),
{
    let v = with_count_chars(chars_of(name_text), size);
    string_from(&v)
}

impl TypeP {
    fn text_chars(&self) -> (r: Vec<char>)
        ensures
            r@ == type_text(self@),
        decreases self,
    {
        match self {
            TypeP::U8(n) => with_count_chars(chars_of("uint8_t"), *n),
            TypeP::U16(n) => with_count_chars(chars_of("uint16_t"), *n),
            TypeP::U32(n) => with_count_chars(chars_of("uint32_t"), *n),
            TypeP::U64(n) => with_count_chars(chars_of("uint64_t"), *n),
            TypeP::I8(n) => with_count_chars(chars_of("int8_t"), *n),
            TypeP::I16(n) => with_count_chars(chars_of("int16_t"), *n),
            TypeP::I32(n) => with_count_chars(chars_of("int32_t"), *n),
            TypeP::I64(n) => with_count_chars(chars_of("int64_t"), *n),
            TypeP::F32(n) => with_count_chars(chars_of("float"), *n),
            TypeP::F64(n) => with_count_chars(chars_of("double"), *n),
            TypeP::Char(n) => with_count_chars(chars_of("char"), *n),
            TypeP::Bool(n) => with_count_chars(chars_of("bool"), *n),
            TypeP::Ptr(p, n) => {
                let mut out = p.type_deref.text_chars();
                let ghost base = out@;
                let mut k: usize = 0;
                while k < p.cout_ptr
                    invariant
                        k <= p.cout_ptr,
                        out@ == base + stars(k as nat),
                    decreases p.cout_ptr - k,
                {
                    out.push('*');
                    proof {
                        assert(base + stars((k + 1) as nat) =~= (base + stars(k as nat)).push('*'));
                    }
                    k = k + 1;
                }
                with_count_chars(out, *n)
            },
            TypeP::Structs(_, name) => {
                let mut out = chars_of("struct ");
                let mut nm = chars_of(name.as_str());
                out.append(&mut nm);
                out
            },
            TypeP::Void => chars_of("void"),
        }
    }

    /// How the type is written (see `type_text`).
    pub fn to_string(&self) -> (r: String)
        ensures
            r@ == type_text(self@),
    {
        let v = self.text_chars();
        string_from(&v)
    }
}


fn named_type_chars(s: &Vec<char>, cout: usize) -> (r: Option<TypeP>)
    ensures
        match r {
            Some(t) => named_type(s@, cout as nat) == Some(t@),
            None => named_type(s@, cout as nat) is None,
        },
{
    if chars_eq_str(s, "u8") || chars_eq_str(s, "uint8_t") || chars_eq_str(s, "byte") {
        Some(TypeP::U8(cout))
    } else if chars_eq_str(s, "i8") || chars_eq_str(s, "int8_t") {
        Some(TypeP::I8(cout))
    } else if chars_eq_str(s, "char") {
        Some(TypeP::Char(cout))
    } else if chars_eq_str(s, "u16") || chars_eq_str(s, "uint16_t") || chars_eq_str(s, "word") {
        Some(TypeP::U16(cout))
    } else if chars_eq_str(s, "i16") || chars_eq_str(s, "int16_t") || chars_eq_str(s, "short") {
        Some(TypeP::I16(cout))
    } else if chars_eq_str(s, "u32") || chars_eq_str(s, "uint32_t") || chars_eq_str(s, "dword") {
        Some(TypeP::U32(cout))
    } else if chars_eq_str(s, "i32") || chars_eq_str(s, "int32_t") || chars_eq_str(s, "int") {
        Some(TypeP::I32(cout))
    } else if chars_eq_str(s, "u64") || chars_eq_str(s, "uint64_t") || chars_eq_str(s, "qword") {
        Some(TypeP::U64(cout))
    } else if chars_eq_str(s, "i64") || chars_eq_str(s, "int64_t") || chars_eq_str(
        s,
        "long long",
    ) {
        Some(TypeP::I64(cout))
    } else if chars_eq_str(s, "f32") || chars_eq_str(s, "float") {
        Some(TypeP::F32(cout))
    } else if chars_eq_str(s, "f64") || chars_eq_str(s, "double") {
        Some(TypeP::F64(cout))
    } else if chars_eq_str(s, "bool") {
        Some(TypeP::Bool(cout))
    } else if chars_eq_str(s, "void") {
        Some(TypeP::Void)
    } else {
        None
    }
}

/// The bracketed groups of `s` from position `i`: each `[` opens a group
/// that the next `]` closes, and what lies between is the group's text; a
/// `[` that nothing closes starts no group. `open` is where the group being
/// read starts.
pub open spec fn bracket_scan(s: Seq<char>, i: int, open: Option<int>) -> Seq<Seq<char>>
    decreases s.len() - i,
{
    if i >= s.len() {
        Seq::empty()
    } else {
        match open {
            None => if s[i] == '[' {
                bracket_scan(s, i + 1, Some(i + 1))
            } else {
                bracket_scan(s, i + 1, None)
            },
            Some(st) => if s[i] == ']' {
                seq![s.subrange(st, i)] + bracket_scan(s, i + 1, None)
            } else {
                bracket_scan(s, i + 1, Some(st))
            },
        }
    }
}

/// The bracketed groups of `s`, in order (what the pattern `\[(.*?)]`
/// captures).
pub open spec fn bracket_groups(s: Seq<char>) -> Seq<Seq<char>> {
    bracket_scan(s, 0, None)
}

/// The element count that the groups give: the number in the last group,
/// 1 when there is none; the first group that is not a number is an error.
pub open spec fn group_count(g: Seq<Seq<char>>) -> Result<nat, ParseError>
    decreases g.len(),
{
    if g.len() == 0 {
        Ok(1)
    } else {
        match group_count(g.drop_last()) {
            Err(e) => Err(e),
            Ok(_) => match str_to_spec(g.last(), IntKind::Usize) {
                Ok(v) => Ok(v as nat),
                Err(e) => Err(e),
            },
        }
    }
}

/// The message for a declaration that is not two words.
pub open spec fn decl_usage_text() -> Seq<char> {
    "valid line is <type> <field name>[cout]"@
}

/// The type that a declaration `<type> <name>[count]` gives: the first word,
/// lowercased, names the type, with one `*` per level of indirection
/// anywhere in it; the count is read from the brackets of the second word.
/// An error is the message to show.
pub open spec fn decl_type(s: Seq<char>) -> Result<TypeV, Seq<char>> {
    let ws = split_ws(s);
    if ws.len() != 2 {
        Err(decl_usage_text())
    } else {
        let types = lower_seq(ws[0]);
        match group_count(bracket_groups(ws[1])) {
            Err(e) => Err(error_text(e)),
            Ok(n) => if count_char(types, '*') > 0 {
                let base = remove_char(types, '*');
                match named_type(base, n) {
                    Some(t) => Ok(TypeV::Ptr(count_char(types, '*'), Box::new(t), n)),
                    None => Err(unknown_type_text(base)),
                }
            } else {
                match named_type(types, n) {
                    Some(t) => Ok(t),
                    None => Err(unknown_type_text(types)),
                }
            },
        }
    }
}

/// The bracketed groups of `s` (see `bracket_groups`).
pub fn bracket_groups_exec(s: &Vec<char>) -> (r: Vec<Vec<char>>)
    ensures
        views(r@) == bracket_groups(s@),
{
    let mut out: Vec<Vec<char>> = Vec::new();
    let mut open: Option<usize> = None;
    let mut i: usize = 0;
    proof {
        assert(views(out@) =~= Seq::<Seq<char>>::empty());
    }
    while i < s.len()
        invariant
            i <= s.len(),
            match open {
                Some(st) => st <= i,
                None => true,
            },
            views(out@) + bracket_scan(
                s@,
                i as int,
                match open {
                    Some(st) => Some(st as int),
                    None => None,
                },
            ) == bracket_groups(s@),
        decreases s.len() - i,
    {
        match open {
            None => {
                if s[i] == '[' {
                    open = Some(i + 1);
                }
            },
            Some(st) => {
                if s[i] == ']' {
                    let mut g: Vec<char> = Vec::new();
                    let mut k: usize = st;
                    while k < i
                        invariant
                            st <= k <= i < s.len(),
                            g@ == s@.subrange(st as int, k as int),
                        decreases i - k,
                    {
                        g.push(s[k]);
                        proof {
                            assert(s@.subrange(st as int, k + 1) =~= s@.subrange(
                                st as int,
                                k as int,
                            ).push(s@[k as int]));
                        }
                        k = k + 1;
                    }
                    let ghost before = views(out@);
                    proof {
                        assert(views(out@.push(g)) =~= views(out@).push(g@));
                        assert(before.push(g@) + bracket_scan(s@, i + 1, None) =~= before + (
                        seq![g@] + bracket_scan(s@, i + 1, None)));
                    }
                    out.push(g);
                    open = None;
                }
            },
        }
        i = i + 1;
    }
    proof {
        assert(views(out@) + Seq::<Seq<char>>::empty() =~= views(out@));
    }
    out
}

impl TypeP {
    /// The type of a field declaration `<type> <name>[count]` (see
    /// `decl_type`), or the message to show.
    pub fn parse(s: &str) -> (r: Result<TypeP, String>)
        ensures
            match r {
                Ok(t) => decl_type(s@) == Ok::<TypeV, Seq<char>>(t@),
                Err(e) => decl_type(s@) == Err::<TypeV, Seq<char>>(e@),
            },
    {
        let chars = chars_of(s);
        TypeP::parse_chars(&chars)
    }

    /// The type of the declaration held in `chars` (see `decl_type`).
    pub fn parse_chars(chars: &Vec<char>) -> (r: Result<TypeP, String>)
        ensures
            match r {
                Ok(t) => decl_type(chars@) == Ok::<TypeV, Seq<char>>(t@),
                Err(e) => decl_type(chars@) == Err::<TypeV, Seq<char>>(e@),
            },
    {
                let ws = split_whitespace(&chars);
        if ws.len() != 2 {
            return Err(string_of("valid line is <type> <field name>[cout]"));
        }
        proof {
            assert(views(ws@)[0] == ws@[0]@);
            assert(views(ws@)[1] == ws@[1]@);
        }
        let types = lowercase(&ws[0]);
        let groups = bracket_groups_exec(&ws[1]);
        let ghost gs = views(groups@);
        let mut cout: usize = 1;
        let mut i: usize = 0;
        while i < groups.len()
            invariant
                i <= groups.len(),
                gs == views(groups@),
                split_ws(chars@).len() == 2,
                gs == bracket_groups(split_ws(chars@)[1]),
                group_count(gs.take(i as int)) == Ok::<nat, ParseError>(cout as nat),
            decreases groups.len() - i,
        {
            proof {
                assert(gs.take(i + 1).drop_last() =~= gs.take(i as int));
                assert(gs.take(i + 1).last() == groups@[i as int]@);
            }
            match str_to_usize_chars(&groups[i]) {
                Ok(v) => {
                    cout = v;
                },
                Err(e) => {
                    proof {
                        assert(gs[i as int] == groups@[i as int]@);
                        lemma_group_count_err(gs, i as int + 1, e);
                        assert(gs == bracket_groups(split_ws(chars@)[1]));
                        assert(decl_type(chars@) == Err::<TypeV, Seq<char>>(error_text(e)));
                    }
                    return Err(string_of(e.message()));
                },
            }
            i = i + 1;
        }
        proof {
            assert(gs.take(groups.len() as int) =~= gs);
        }
        let (n_ptr, base) = count_and_remove(&types, '*');
        if n_ptr > 0 {
            match named_type_chars(&base, cout) {
                Some(t) => Ok(
                    TypeP::Ptr(Box::new(PtrS { cout_ptr: n_ptr, type_deref: Box::new(t) }), cout),
                ),
                None => {
                    let mut msg = chars_of("Unknown type p: ");
                    let mut rest = base;
                    msg.append(&mut rest);
                    Err(string_from(&msg))
                },
            }
        } else {
            proof {
                lemma_remove_none(types@, '*');
            }
            match named_type_chars(&types, cout) {
                Some(t) => Ok(t),
                None => {
                    let mut msg = chars_of("Unknown type p: ");
                    let mut rest = types;
                    msg.append(&mut rest);
                    Err(string_from(&msg))
                },
            }
        }
    }
}

proof fn lemma_group_count_err(g: Seq<Seq<char>>, k: int, e: ParseError)
    requires
        1 <= k <= g.len(),
        group_count(g.take(k - 1)) is Ok,
        str_to_spec(g[k - 1], IntKind::Usize) == Err::<int, ParseError>(e),
    ensures
        group_count(g) == Err::<nat, ParseError>(e),
    decreases g.len() - k,
{
    assert(g.take(k).drop_last() =~= g.take(k - 1));
    if k < g.len() {
        lemma_group_count_err_step(g, k + 1, e);
    } else {
        assert(g.take(k) =~= g);
    }
}

proof fn lemma_group_count_err_step(g: Seq<Seq<char>>, k: int, e: ParseError)
    requires
        2 <= k <= g.len(),
        group_count(g.take(k - 1)) == Err::<nat, ParseError>(e),
    ensures
        group_count(g) == Err::<nat, ParseError>(e),
    decreases g.len() - k,
{
    assert(g.take(k).drop_last() =~= g.take(k - 1));
    if k < g.len() {
        lemma_group_count_err_step(g, k + 1, e);
    } else {
        assert(g.take(k) =~= g);
    }
}

proof fn lemma_remove_none(s: Seq<char>, c: char)
    requires
        count_char(s, c) == 0,
    ensures
        remove_char(s, c) == s,
    decreases s.len(),
{
    if s.len() > 0 {
        lemma_remove_none(s.drop_last(), c);
        assert(s.drop_last().push(s.last()) =~= s);
    }
}


/// The part of `s` before its first `c` (all of `s` when there is none).
pub open spec fn before_char(s: Seq<char>, c: char) -> Seq<char>
    decreases s.len(),
{
    if s.len() == 0 || s[0] == c {
        Seq::empty()
    } else {
        seq![s[0]] + before_char(s.drop_first(), c)
    }
}

/// What one line typed inside a structure definition gives.
#[derive(Debug)]
pub enum StructLine {
    /// `:q` ends the definition.
    Quit,
    /// A field; `line` is the line without surrounding whitespace, and
    /// `terminated` says whether it ended with `;`.
    Field { name: String, ty: TypeP, line: String, terminated: bool },
    /// A line that declares no type, with the message to show.
    Invalid { line: String, msg: String },
    /// A declaration whose name is nothing but `;`: it has a type and no
    /// field name.
    Unnamed,
}

/// Reads one line of a structure definition: `:q` ends it, anything else is
/// a declaration `<type> <name>[count]`, optionally ended by `;`, whose field
/// name is the second word without `;` up to the first `]`.
pub fn struct_line(raw: &str) -> (r: StructLine)
    ensures
        trim(raw@) == ":q"@ ==> r is Quit,
        trim(raw@) != ":q"@ ==> match decl_type(trim(raw@)) {
            Err(m) => r matches StructLine::Invalid { line, msg } && line@ == trim(raw@) && msg@
                == m,
            Ok(t) => {
                let ws = split_ws(remove_char(trim(raw@), ';'));
                if ws.len() < 2 {
                    r is Unnamed
                } else {
                    r matches StructLine::Field { name, ty, line, terminated } && name@
                        == before_char(ws[1], ']') && ty@ == t && line@ == trim(raw@)
                        && terminated == (trim(raw@).len() > 0 && trim(raw@).last() == ';')
                }
            },
        },
{
    let raw_chars = chars_of(raw);
    let input = trim_exec(&raw_chars);
    if chars_eq_str(&input, ":q") {
        return StructLine::Quit;
    }
    match TypeP::parse_chars(&input) {
        Err(msg) => StructLine::Invalid { line: string_from(&input), msg },
        Ok(ty) => {
            let (_, no_semi) = count_and_remove(&input, ';');
            let ws = split_whitespace(&no_semi);
            if ws.len() < 2 {
                return StructLine::Unnamed;
            }
            proof {
                assert(views(ws@)[1] == ws@[1]@);
            }
            let name = before_char_exec(&ws[1], ']');
            let terminated = input.len() > 0 && input[input.len() - 1] == ';';
            StructLine::Field { name: string_from(&name), ty, line: string_from(&input), terminated }
        },
    }
}

pub fn before_char_exec(s: &Vec<char>, c: char) -> (r: Vec<char>)
    ensures
        r@ == before_char(s@, c),
{
    let mut out: Vec<char> = Vec::new();
    let mut i: usize = 0;
    while i < s.len() && s[i] != c
        invariant
            i <= s.len(),
            out@ == s@.take(i as int),
            forall|k: int| 0 <= k < i ==> s@[k] != c,
        decreases s.len() - i,
    {
        out.push(s[i]);
        proof {
            assert(s@.take(i + 1) =~= s@.take(i as int).push(s@[i as int]));
        }
        i = i + 1;
    }
    proof {
        lemma_before_char(s@, c, i as int);
    }
    out
}

proof fn lemma_before_char(s: Seq<char>, c: char, i: int)
    requires
        0 <= i <= s.len(),
        forall|k: int| 0 <= k < i ==> s[k] != c,
        i == s.len() || s[i] == c,
    ensures
        before_char(s, c) == s.take(i),
    decreases s.len(),
{
    if s.len() > 0 && s[0] != c {
        lemma_before_char(s.drop_first(), c, i - 1);
        assert(s.take(i) =~= seq![s[0]] + s.drop_first().take(i - 1));
    } else {
        assert(s.take(i) =~= Seq::<char>::empty());
    }
}

} // verus!
