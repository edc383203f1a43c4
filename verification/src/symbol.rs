//! Debug symbols of the debugged program: their kinds, the symbol records,
//! lookups by name and offset, and the address a symbol stands for at run
//! time.

use vstd::prelude::*;
use vstd::wrapping::u64_specs;
use crate::context::{Context32, Context64, ToValue, ToValue32, Value, value_named, value32_named};
use crate::stack::{Frame, first_frame_at, get_frame_before_func};
use crate::text::{chars_of, chars_eq, lower_seq, string_of};

verus! {

/// The format of the loaded symbols.
#[derive(Debug, Clone, Copy, PartialEq, Eq, Structural)]
pub enum SymbolType {
    DWARF,
    PDB,
    Un,
}

impl SymbolType {
    /// The name shown for the format.
    pub fn name(&self) -> (r: &'static str)
        ensures
            r@ == symbol_type_name(*self),
    {
        match self {
            SymbolType::Un => "UNKNOW",
            SymbolType::DWARF => "DWARF",
            SymbolType::PDB => "PDB",
        }
    }
}

pub open spec fn symbol_type_name(t: SymbolType) -> Seq<char> {
    match t {
        SymbolType::Un => "UNKNOW"@,
        SymbolType::DWARF => "DWARF"@,
        SymbolType::PDB => "PDB"@,
    }
}

impl Default for SymbolType {
    fn default() -> (r: Self)
        ensures
            r == SymbolType::Un,
    {
        SymbolType::Un
    }
}

/// One symbol: its name, its offset (from the image base for globals and
/// functions, negative for locals on the stack, from `register` when that is
/// not 0), its size and descriptive fields.
#[derive(Debug)]
pub struct SymbolFile {
    pub name: String,
    pub offset: i64,
    pub size: usize,
    pub value_str: String,
    pub types_e: String,
    pub filename: String,
    pub line: usize,
    pub register: u32,
}

/// Why the run-time address of a symbol is unknown.
#[derive(Debug, Clone, Copy, PartialEq, Eq, Structural)]
pub enum AddrError {
    /// The symbol is relative to a register that holds no 64-bit value.
    InvalidRegister,
    /// The symbol is a local and the caller's frame is unknown.
    NoCallerFrame,
}

impl SymbolFile {
    /// A symbol with empty texts and zero numbers.
    pub fn empty() -> (r: SymbolFile)
        ensures
            r.name@ == Seq::<char>::empty(),
            r.offset == 0,
            r.size == 0,
            r.value_str@ == Seq::<char>::empty(),
            r.types_e@ == Seq::<char>::empty(),
            r.filename@ == Seq::<char>::empty(),
            r.line == 0,
            r.register == 0,
    {
        SymbolFile {
            name: String::new(),
            offset: 0,
            size: 0,
            value_str: String::new(),
            types_e: String::new(),
            filename: String::new(),
            line: 0,
            register: 0,
        }
    }

    /// A copy of the symbol.
    pub fn duplicate(&self) -> (r: SymbolFile)
        ensures
            r == *self,
    {
        SymbolFile {
            name: self.name.clone(),
            offset: self.offset,
            size: self.size,
            value_str: self.value_str.clone(),
            types_e: self.types_e.clone(),
            filename: self.filename.clone(),
            line: self.line,
            register: self.register,
        }
    }
}

/// The run-time address of something the user named: a symbol or a
/// watched place.
pub trait RealAddr {
    /// Why the address in a 64-bit thread cannot be computed.
    type Fault;

    fn real_addr64(&self, ctx: &Context64, frames: &Vec<Frame>, base: u64) -> Result<u64, Self::Fault>;

    fn real_addr32(&self, ctx: &Context32, frames: &Vec<Frame>, base: u64) -> u32;
}

impl RealAddr for SymbolFile {
    type Fault = AddrError;

    /// The run-time address of the symbol in a 64-bit thread: register plus
    /// offset for register-relative symbols, the caller's stack pointer plus
    /// offset for locals, the image base plus offset otherwise.
    fn real_addr64(&self, ctx: &Context64, frames: &Vec<Frame>, base: u64) -> (r: Result<
        u64,
        AddrError,
    >)
        ensures
            r == sym_addr64(*self, *ctx, frames@, base),
    {
        if self.register != 0 {
            let name = get_reg_with_reg_field(self.register);
            return match ctx.str_to_value_ctx(name.as_str()) {
                Value::U64(v) => Ok(v.wrapping_add(self.offset as u64)),
                _ => Err(AddrError::InvalidRegister),
            };
        }
        if self.offset < 0 {
            match get_frame_before_func(frames, ctx.rip) {
                Some(f) => Ok(f.stack.wrapping_add(self.offset as u64)),
                None => Err(AddrError::NoCallerFrame),
            }
        } else {
            Ok(base.wrapping_add(self.offset as u64))
        }
    }

    /// The run-time address of the symbol in a 32-bit thread (see
    /// `real_addr64`); register-relative symbols read the register, and an
    /// unknown register or caller frame gives 0.
    fn real_addr32(&self, ctx: &Context32, frames: &Vec<Frame>, base: u64) -> (r: u32)
        ensures
            r == sym_addr32(*self, *ctx, frames@, base),
    {
        if self.register != 0 {
            let name = get_reg_with_reg_field(self.register);
            return ctx.str_to_ctx(name.as_str());
        }
        if self.offset < 0 {
            match get_frame_before_func(frames, ctx.eip as u64) {
                Some(f) => f.stack.wrapping_add(self.offset as u64) as u32,
                None => 0,
            }
        } else {
            base.wrapping_add(self.offset as u64) as u32
        }
    }
}

/// The caller frame of the first frame executing at `rip`, if any.
pub open spec fn caller_frame(frames: Seq<Frame>, rip: u64) -> Option<Frame> {
    if exists|i: int| first_frame_at(frames, rip, i) && i + 1 < frames.len() {
        let i = choose|i: int| first_frame_at(frames, rip, i) && i + 1 < frames.len();
        Some(frames[i + 1])
    } else {
        None
    }
}

/// See `SymbolFile::real_addr64`.
pub open spec fn sym_addr64(s: SymbolFile, ctx: Context64, frames: Seq<Frame>, base: u64) -> Result<
    u64,
    AddrError,
> {
    if s.register != 0 {
        match value_named(ctx, reg_field_name(s.register)) {
            Value::U64(v) => Ok(u64_specs::wrapping_add(v, s.offset as u64)),
            _ => Err(AddrError::InvalidRegister),
        }
    } else if s.offset < 0 {
        match caller_frame(frames, ctx.rip) {
            Some(f) => Ok(u64_specs::wrapping_add(f.stack, s.offset as u64)),
            None => Err(AddrError::NoCallerFrame),
        }
    } else {
        Ok(u64_specs::wrapping_add(base, s.offset as u64))
    }
}

/// Law: where a symbol is at run time in a 64-bit program. A symbol kept
/// relative to a register (CodeView register numbers 328 to 343 for `rax`,
/// `rbx`, `rcx`, `rdx`, `rsi`, `rdi`, `rbp`, `rsp`, `r8` to `r15`) is at that
/// register's value plus its offset; a symbol with no register and a
/// nonnegative offset is at the image base plus its offset; one with a
/// negative offset is below the stack address of the caller frame of the
/// frame executing at `rip`, and has no address when there is no such frame.
pub proof fn lemma_symbol_addresses(s: SymbolFile, ctx: Context64, frames: Seq<Frame>, base: u64)
    ensures
        s.register == 328 ==> sym_addr64(s, ctx, frames, base) == Ok::<u64, AddrError>(u64_specs::wrapping_add(ctx.rax, s.offset as u64)),
        s.register == 329 ==> sym_addr64(s, ctx, frames, base) == Ok::<u64, AddrError>(u64_specs::wrapping_add(ctx.rbx, s.offset as u64)),
        s.register == 330 ==> sym_addr64(s, ctx, frames, base) == Ok::<u64, AddrError>(u64_specs::wrapping_add(ctx.rcx, s.offset as u64)),
        s.register == 331 ==> sym_addr64(s, ctx, frames, base) == Ok::<u64, AddrError>(u64_specs::wrapping_add(ctx.rdx, s.offset as u64)),
        s.register == 332 ==> sym_addr64(s, ctx, frames, base) == Ok::<u64, AddrError>(u64_specs::wrapping_add(ctx.rsi, s.offset as u64)),
        s.register == 333 ==> sym_addr64(s, ctx, frames, base) == Ok::<u64, AddrError>(u64_specs::wrapping_add(ctx.rdi, s.offset as u64)),
        s.register == 334 ==> sym_addr64(s, ctx, frames, base) == Ok::<u64, AddrError>(u64_specs::wrapping_add(ctx.rbp, s.offset as u64)),
        s.register == 335 ==> sym_addr64(s, ctx, frames, base) == Ok::<u64, AddrError>(u64_specs::wrapping_add(ctx.rsp, s.offset as u64)),
        s.register == 336 ==> sym_addr64(s, ctx, frames, base) == Ok::<u64, AddrError>(u64_specs::wrapping_add(ctx.r8, s.offset as u64)),
        s.register == 337 ==> sym_addr64(s, ctx, frames, base) == Ok::<u64, AddrError>(u64_specs::wrapping_add(ctx.r9, s.offset as u64)),
        s.register == 338 ==> sym_addr64(s, ctx, frames, base) == Ok::<u64, AddrError>(u64_specs::wrapping_add(ctx.r10, s.offset as u64)),
        s.register == 339 ==> sym_addr64(s, ctx, frames, base) == Ok::<u64, AddrError>(u64_specs::wrapping_add(ctx.r11, s.offset as u64)),
        s.register == 340 ==> sym_addr64(s, ctx, frames, base) == Ok::<u64, AddrError>(u64_specs::wrapping_add(ctx.r12, s.offset as u64)),
        s.register == 341 ==> sym_addr64(s, ctx, frames, base) == Ok::<u64, AddrError>(u64_specs::wrapping_add(ctx.r13, s.offset as u64)),
        s.register == 342 ==> sym_addr64(s, ctx, frames, base) == Ok::<u64, AddrError>(u64_specs::wrapping_add(ctx.r14, s.offset as u64)),
        s.register == 343 ==> sym_addr64(s, ctx, frames, base) == Ok::<u64, AddrError>(u64_specs::wrapping_add(ctx.r15, s.offset as u64)),
        s.register == 0 && s.offset >= 0 ==> sym_addr64(s, ctx, frames, base) == Ok::<u64, AddrError>(
            u64_specs::wrapping_add(base, s.offset as u64),
        ),
        s.register == 0 && s.offset < 0 ==> sym_addr64(s, ctx, frames, base) == match caller_frame(frames, ctx.rip) {
            Some(f) => Ok::<u64, AddrError>(u64_specs::wrapping_add(f.stack, s.offset as u64)),
            None => Err(AddrError::NoCallerFrame),
        },
{
    crate::context::lemma_register_names(ctx);
    reveal_strlit("rax");
    reveal_strlit("rbx");
    reveal_strlit("rcx");
    reveal_strlit("rdx");
    reveal_strlit("rsi");
    reveal_strlit("rdi");
    reveal_strlit("rbp");
    reveal_strlit("rsp");
    reveal_strlit("r8");
    reveal_strlit("r9");
    reveal_strlit("r10");
    reveal_strlit("r11");
    reveal_strlit("r12");
    reveal_strlit("r13");
    reveal_strlit("r14");
    reveal_strlit("r15");
}

/// See `SymbolFile::real_addr32`.
pub open spec fn sym_addr32(s: SymbolFile, ctx: Context32, frames: Seq<Frame>, base: u64) -> u32 {
    if s.register != 0 {
        value32_named(ctx, lower_seq(reg_field_name(s.register)))
    } else if s.offset < 0 {
        match caller_frame(frames, ctx.eip as u64) {
            Some(f) => u64_specs::wrapping_add(f.stack, s.offset as u64) as u32,
            None => 0,
        }
    } else {
        u64_specs::wrapping_add(base, s.offset as u64) as u32
    }
}

/// Law: where a symbol is at run time in a 32-bit program: relative to
/// `eax`, `ecx` or `edx` (CodeView register numbers 17, 18, 19) it is at
/// that register's value, its offset not added; with no register and a
/// nonnegative offset it is at the image base plus its offset.
pub proof fn lemma_symbol_addresses32(s: SymbolFile, ctx: Context32, frames: Seq<Frame>, base: u64)
    ensures
        s.register == 17 ==> sym_addr32(s, ctx, frames, base) == ctx.eax,
        s.register == 18 ==> sym_addr32(s, ctx, frames, base) == ctx.ecx,
        s.register == 19 ==> sym_addr32(s, ctx, frames, base) == ctx.edx,
        s.register == 0 && s.offset >= 0 ==> sym_addr32(s, ctx, frames, base) == u64_specs::wrapping_add(
            base,
            s.offset as u64,
        ) as u32,
{
    crate::context::lemma_register32_names(ctx);
    reveal_strlit("eax");
    reveal_strlit("ecx");
    reveal_strlit("edx");
    assert(lower_seq("eax"@) =~= "eax"@);
    assert(lower_seq("ecx"@) =~= "ecx"@);
    assert(lower_seq("edx"@) =~= "edx"@);
}

/// The register that a register field of a PDB symbol designates.
pub open spec fn reg_field_name(f: u32) -> Seq<char> {
    if f == 17 {
        "eax"@
    } else if f == 18 {
        "ecx"@
    } else if f == 19 {
        "edx"@
    } else if f == 328 {
        "rax"@
    } else if f == 329 {
        "rbx"@
    } else if f == 330 {
        "rcx"@
    } else if f == 331 {
        "rdx"@
    } else if f == 332 {
        "rsi"@
    } else if f == 333 {
        "rdi"@
    } else if f == 334 {
        "rbp"@
    } else if f == 335 {
        "rsp"@
    } else if f == 336 {
        "r8"@
    } else if f == 337 {
        "r9"@
    } else if f == 338 {
        "r10"@
    } else if f == 339 {
        "r11"@
    } else if f == 340 {
        "r12"@
    } else if f == 341 {
        "r13"@
    } else if f == 342 {
        "r14"@
    } else if f == 343 {
        "r15"@
    } else {
        ""@
    }
}

fn reg_field_str(f: u32) -> (r: &'static str)
    ensures
        r@ == reg_field_name(f),
{
    match f {
        17 => "eax",
        18 => "ecx",
        19 => "edx",
        328 => "rax",
        329 => "rbx",
        330 => "rcx",
        331 => "rdx",
        332 => "rsi",
        333 => "rdi",
        334 => "rbp",
        335 => "rsp",
        336 => "r8",
        337 => "r9",
        338 => "r10",
        339 => "r11",
        340 => "r12",
        341 => "r13",
        342 => "r14",
        343 => "r15",
        _ => "",
    }
}

/// The name of the register that a PDB register field designates, or the
/// empty string.
pub fn get_reg_with_reg_field(reg_field: u32) -> (r: String)
    ensures
        r@ == reg_field_name(reg_field),
{
    string_of(reg_field_str(reg_field))
}

/// The uppercase of an ASCII small letter, any other character unchanged.
pub open spec fn upper(c: char) -> char {
    if 'a' <= c <= 'z' {
        ((c as u32) - 32) as char
    } else {
        c
    }
}

/// The register of a register field in capitals and parentheses, or the
/// empty text when the field names no register.
pub open spec fn reg_label(f: u32) -> Seq<char> {
    if reg_field_name(f).len() == 0 {
        Seq::empty()
    } else {
        seq!['('] + reg_field_name(f).map_values(|c: char| upper(c)) + seq![')']
    }
}

/// The label of a register field (see `reg_label`).
pub fn frmrs(reg_field: u32) -> (r: String)
    ensures
        r@ == reg_label(reg_field),
{
    let name = chars_of(reg_field_str(reg_field));
    if name.len() == 0 {
        let e: Vec<char> = Vec::new();
        proof {
            assert(e@ =~= Seq::<char>::empty());
        }
        return crate::text::string_from(&e);
    }
    let mut out: Vec<char> = vec!['('];
    let mut i: usize = 0;
    while i < name.len()
        invariant
            i <= name.len(),
            name@ == reg_field_name(reg_field),
            out@ == seq!['('] + name@.take(i as int).map_values(|c: char| upper(c)),
        decreases name.len() - i,
    {
        let c = name[i];
        let u = if 'a' <= c && c <= 'z' {
            ((c as u8) - 32) as char
        } else {
            c
        };
        out.push(u);
        proof {
            assert(seq!['('] + name@.take(i + 1).map_values(|c: char| upper(c)) =~= (seq!['(']
                + name@.take(i as int).map_values(|c: char| upper(c))).push(upper(c)));
        }
        i = i + 1;
    }
    out.push(')');
    proof {
        assert(name@.take(name.len() as int) =~= name@);
    }
    crate::text::string_from(&out)
}

/// The symbols loaded for the debugged program.
#[derive(Debug)]
pub struct Symbols {
    pub symbol_type: SymbolType,
    pub symbol_file: Vec<SymbolFile>,
}

/// `i` is the first symbol with name `name`.
pub open spec fn first_named(syms: Seq<SymbolFile>, name: Seq<char>, i: int) -> bool {
    0 <= i < syms.len() && syms[i].name@ == name && forall|j: int|
        0 <= j < i ==> syms[j].name@ != name
}

/// The first symbol with name `name`, if any.
pub open spec fn lookup_name(syms: Seq<SymbolFile>, name: Seq<char>) -> Option<int> {
    if exists|i: int| first_named(syms, name, i) {
        Some(choose|i: int| first_named(syms, name, i))
    } else {
        None
    }
}

impl Symbols {
    /// No symbols, of unknown format.
    pub fn new() -> (r: Symbols)
        ensures
            r.symbol_type == SymbolType::Un,
            r.symbol_file@ == Seq::<SymbolFile>::empty(),
    {
        Symbols { symbol_type: SymbolType::Un, symbol_file: Vec::new() }
    }

    /// The position of the first symbol named `name`.
    pub fn find_name(&self, name: &str) -> (r: Option<usize>)
        ensures
            match r {
                Some(i) => first_named(self.symbol_file@, name@, i as int),
                None => forall|j: int|
                    0 <= j < self.symbol_file@.len() ==> self.symbol_file@[j].name@ != name@,
            },
            r matches Some(i) ==> lookup_name(self.symbol_file@, name@) == Some(i as int),
            r is None ==> lookup_name(self.symbol_file@, name@) is None,
    {
        let n = chars_of(name);
        self.find_name_chars(&n)
    }

    /// The position of the first symbol whose name is the characters `n`.
    pub fn find_name_chars(&self, n: &Vec<char>) -> (r: Option<usize>)
        ensures
            match r {
                Some(i) => first_named(self.symbol_file@, n@, i as int),
                None => forall|j: int|
                    0 <= j < self.symbol_file@.len() ==> self.symbol_file@[j].name@ != n@,
            },
            r matches Some(i) ==> lookup_name(self.symbol_file@, n@) == Some(i as int),
            r is None ==> lookup_name(self.symbol_file@, n@) is None,
    {
        let mut i: usize = 0;
        while i < self.symbol_file.len()
            invariant
                i <= self.symbol_file.len(),
                forall|j: int| 0 <= j < i ==> self.symbol_file@[j].name@ != n@,
            decreases self.symbol_file.len() - i,
        {
            let s = chars_of(self.symbol_file[i].name.as_str());
            if chars_eq(&s, n) {
                proof {
                    assert(first_named(self.symbol_file@, n@, i as int));
                    assert forall|k: int| first_named(self.symbol_file@, n@, k) implies k == i by {}
                }
                return Some(i);
            }
            i = i + 1;
        }
        None
    }

    /// The position of the first symbol whose offset is `offset`.
    pub fn find_offset(&self, offset: i64) -> (r: Option<usize>)
        ensures
            match r {
                Some(i) => i < self.symbol_file@.len() && self.symbol_file@[i as int].offset
                    == offset && forall|j: int|
                    0 <= j < i ==> self.symbol_file@[j].offset != offset,
                None => forall|j: int|
                    0 <= j < self.symbol_file@.len() ==> self.symbol_file@[j].offset != offset,
            },
    {
        let mut i: usize = 0;
        while i < self.symbol_file.len()
            invariant
                i <= self.symbol_file.len(),
                forall|j: int| 0 <= j < i ==> self.symbol_file@[j].offset != offset,
            decreases self.symbol_file.len() - i,
        {
            if self.symbol_file[i].offset == offset {
                return Some(i);
            }
            i = i + 1;
        }
        None
    }
}

} // verus!
