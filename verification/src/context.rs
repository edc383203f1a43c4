//! Register contexts of a stopped thread (64-bit and 32-bit), reading and
//! writing registers by name, and the debug registers that implement
//! watchpoints.

use vstd::prelude::*;
use crate::text::{chars_of, chars_eq_str, lowercase, lower_seq};
use crate::number::{str_to_u64, str_to_u128, str_to_u32, ParseError};

verus! {

/// A 128-bit register: its low and high halves.
#[derive(Debug, Clone, Copy, PartialEq, Eq, Structural)]
pub struct M128 {
    pub low: u64,
    pub high: i64,
}

/// The registers of a 64-bit thread that the debugger reads and writes.
#[derive(Debug, Clone, Copy, PartialEq, Eq, Structural)]
pub struct Context64 {
    pub rax: u64,
    pub rbx: u64,
    pub rcx: u64,
    pub rdx: u64,
    pub rsi: u64,
    pub rdi: u64,
    pub rbp: u64,
    pub rsp: u64,
    pub rip: u64,
    pub r8: u64,
    pub r9: u64,
    pub r10: u64,
    pub r11: u64,
    pub r12: u64,
    pub r13: u64,
    pub r14: u64,
    pub r15: u64,
    pub seg_cs: u16,
    pub seg_ds: u16,
    pub seg_es: u16,
    pub seg_fs: u16,
    pub seg_gs: u16,
    pub seg_ss: u16,
    pub eflags: u32,
    pub xmm0: M128,
    pub xmm1: M128,
    pub xmm2: M128,
    pub xmm3: M128,
    pub xmm4: M128,
    pub xmm5: M128,
    pub xmm6: M128,
    pub xmm7: M128,
    pub xmm8: M128,
    pub xmm9: M128,
    pub xmm10: M128,
    pub xmm11: M128,
    pub xmm12: M128,
    pub xmm13: M128,
    pub xmm14: M128,
    pub xmm15: M128,
    pub mxcsr: u32,
    pub dr0: u64,
    pub dr1: u64,
    pub dr2: u64,
    pub dr3: u64,
    pub dr6: u64,
    pub dr7: u64,
    pub last_branch_from_rip: u64,
    pub last_branch_to_rip: u64,
    pub context_flags: u32,
}

/// What a 64-bit register holds: a 64-bit value, a 128-bit value, or
/// nothing for an unknown name.
#[derive(Debug, Clone, Copy, PartialEq, Eq, Structural)]
pub enum Value {
    U64(u64),
    U128(M128),
    Un,
}

/// The readable registers of a 64-bit context.
#[derive(Debug, Clone, Copy, PartialEq, Eq, Structural)]
pub enum Reg {
    Rax,
    Rbx,
    Rcx,
    Rdx,
    Rsi,
    Rdi,
    Rbp,
    Rsp,
    Rip,
    R8,
    R9,
    R10,
    R11,
    R12,
    R13,
    R14,
    R15,
    SegCs,
    SegDs,
    SegEs,
    SegFs,
    SegGs,
    SegSs,
    EFlags,
    Xmm0,
    Xmm1,
    Xmm2,
    Xmm3,
    Xmm4,
    Xmm5,
    Xmm6,
    Xmm7,
    Xmm8,
    Xmm9,
    Xmm10,
    Xmm11,
    Xmm12,
    Xmm13,
    Xmm14,
    Xmm15,
    MxCsr,
    /// Where the last branch came from.
    LastBranchFrom,
    /// Where the last branch went to.
    LastBranchTo,
}

/// The content of register `r` in `ctx`.
pub open spec fn reg_read(ctx: Context64, r: Reg) -> Value {
    match r {
        Reg::Rax => Value::U64(ctx.rax),
        Reg::Rbx => Value::U64(ctx.rbx),
        Reg::Rcx => Value::U64(ctx.rcx),
        Reg::Rdx => Value::U64(ctx.rdx),
        Reg::Rsi => Value::U64(ctx.rsi),
        Reg::Rdi => Value::U64(ctx.rdi),
        Reg::Rbp => Value::U64(ctx.rbp),
        Reg::Rsp => Value::U64(ctx.rsp),
        Reg::Rip => Value::U64(ctx.rip),
        Reg::R8 => Value::U64(ctx.r8),
        Reg::R9 => Value::U64(ctx.r9),
        Reg::R10 => Value::U64(ctx.r10),
        Reg::R11 => Value::U64(ctx.r11),
        Reg::R12 => Value::U64(ctx.r12),
        Reg::R13 => Value::U64(ctx.r13),
        Reg::R14 => Value::U64(ctx.r14),
        Reg::R15 => Value::U64(ctx.r15),
        Reg::SegCs => Value::U64(ctx.seg_cs as u64),
        Reg::SegDs => Value::U64(ctx.seg_ds as u64),
        Reg::SegEs => Value::U64(ctx.seg_es as u64),
        Reg::SegFs => Value::U64(ctx.seg_fs as u64),
        Reg::SegGs => Value::U64(ctx.seg_gs as u64),
        Reg::SegSs => Value::U64(ctx.seg_ss as u64),
        Reg::EFlags => Value::U64(ctx.eflags as u64),
        Reg::Xmm0 => Value::U128(ctx.xmm0),
        Reg::Xmm1 => Value::U128(ctx.xmm1),
        Reg::Xmm2 => Value::U128(ctx.xmm2),
        Reg::Xmm3 => Value::U128(ctx.xmm3),
        Reg::Xmm4 => Value::U128(ctx.xmm4),
        Reg::Xmm5 => Value::U128(ctx.xmm5),
        Reg::Xmm6 => Value::U128(ctx.xmm6),
        Reg::Xmm7 => Value::U128(ctx.xmm7),
        Reg::Xmm8 => Value::U128(ctx.xmm8),
        Reg::Xmm9 => Value::U128(ctx.xmm9),
        Reg::Xmm10 => Value::U128(ctx.xmm10),
        Reg::Xmm11 => Value::U128(ctx.xmm11),
        Reg::Xmm12 => Value::U128(ctx.xmm12),
        Reg::Xmm13 => Value::U128(ctx.xmm13),
        Reg::Xmm14 => Value::U128(ctx.xmm14),
        Reg::Xmm15 => Value::U128(ctx.xmm15),
        Reg::MxCsr => Value::U64(ctx.mxcsr as u64),
        Reg::LastBranchFrom => Value::U64(ctx.last_branch_from_rip),
        Reg::LastBranchTo => Value::U64(ctx.last_branch_to_rip),
    }
}

/// The content of register `r`.
pub fn read_reg(ctx: &Context64, r: Reg) -> (v: Value)
    ensures
        v == reg_read(*ctx, r),
{
    match r {
        Reg::Rax => Value::U64(ctx.rax),
        Reg::Rbx => Value::U64(ctx.rbx),
        Reg::Rcx => Value::U64(ctx.rcx),
        Reg::Rdx => Value::U64(ctx.rdx),
        Reg::Rsi => Value::U64(ctx.rsi),
        Reg::Rdi => Value::U64(ctx.rdi),
        Reg::Rbp => Value::U64(ctx.rbp),
        Reg::Rsp => Value::U64(ctx.rsp),
        Reg::Rip => Value::U64(ctx.rip),
        Reg::R8 => Value::U64(ctx.r8),
        Reg::R9 => Value::U64(ctx.r9),
        Reg::R10 => Value::U64(ctx.r10),
        Reg::R11 => Value::U64(ctx.r11),
        Reg::R12 => Value::U64(ctx.r12),
        Reg::R13 => Value::U64(ctx.r13),
        Reg::R14 => Value::U64(ctx.r14),
        Reg::R15 => Value::U64(ctx.r15),
        Reg::SegCs => Value::U64(ctx.seg_cs as u64),
        Reg::SegDs => Value::U64(ctx.seg_ds as u64),
        Reg::SegEs => Value::U64(ctx.seg_es as u64),
        Reg::SegFs => Value::U64(ctx.seg_fs as u64),
        Reg::SegGs => Value::U64(ctx.seg_gs as u64),
        Reg::SegSs => Value::U64(ctx.seg_ss as u64),
        Reg::EFlags => Value::U64(ctx.eflags as u64),
        Reg::Xmm0 => Value::U128(ctx.xmm0),
        Reg::Xmm1 => Value::U128(ctx.xmm1),
        Reg::Xmm2 => Value::U128(ctx.xmm2),
        Reg::Xmm3 => Value::U128(ctx.xmm3),
        Reg::Xmm4 => Value::U128(ctx.xmm4),
        Reg::Xmm5 => Value::U128(ctx.xmm5),
        Reg::Xmm6 => Value::U128(ctx.xmm6),
        Reg::Xmm7 => Value::U128(ctx.xmm7),
        Reg::Xmm8 => Value::U128(ctx.xmm8),
        Reg::Xmm9 => Value::U128(ctx.xmm9),
        Reg::Xmm10 => Value::U128(ctx.xmm10),
        Reg::Xmm11 => Value::U128(ctx.xmm11),
        Reg::Xmm12 => Value::U128(ctx.xmm12),
        Reg::Xmm13 => Value::U128(ctx.xmm13),
        Reg::Xmm14 => Value::U128(ctx.xmm14),
        Reg::Xmm15 => Value::U128(ctx.xmm15),
        Reg::MxCsr => Value::U64(ctx.mxcsr as u64),
        Reg::LastBranchFrom => Value::U64(ctx.last_branch_from_rip),
        Reg::LastBranchTo => Value::U64(ctx.last_branch_to_rip),
    }
}

/// The register that a (lowercase) name designates when reading.
pub open spec fn reg_named(n: Seq<char>) -> Option<Reg> {
    if n == "rax"@ {
        Some(Reg::Rax)
    } else if n == "rbx"@ {
        Some(Reg::Rbx)
    } else if n == "rcx"@ {
        Some(Reg::Rcx)
    } else if n == "rdx"@ {
        Some(Reg::Rdx)
    } else if n == "rsi"@ {
        Some(Reg::Rsi)
    } else if n == "rdi"@ {
        Some(Reg::Rdi)
    } else if n == "rbp"@ {
        Some(Reg::Rbp)
    } else if n == "rsp"@ {
        Some(Reg::Rsp)
    } else if n == "rip"@ {
        Some(Reg::Rip)
    } else if n == "r8"@ {
        Some(Reg::R8)
    } else if n == "r9"@ {
        Some(Reg::R9)
    } else if n == "r10"@ {
        Some(Reg::R10)
    } else if n == "r11"@ {
        Some(Reg::R11)
    } else if n == "r12"@ {
        Some(Reg::R12)
    } else if n == "r13"@ {
        Some(Reg::R13)
    } else if n == "r14"@ {
        Some(Reg::R14)
    } else if n == "r15"@ {
        Some(Reg::R15)
    } else if n == "segcs"@ {
        Some(Reg::SegCs)
    } else if n == "cs"@ {
        Some(Reg::SegCs)
    } else if n == "segds"@ {
        Some(Reg::SegDs)
    } else if n == "ds"@ {
        Some(Reg::SegDs)
    } else if n == "seges"@ {
        Some(Reg::SegEs)
    } else if n == "es"@ {
        Some(Reg::SegEs)
    } else if n == "segfs"@ {
        Some(Reg::SegFs)
    } else if n == "fs"@ {
        Some(Reg::SegFs)
    } else if n == "seggs"@ {
        Some(Reg::SegGs)
    } else if n == "gs"@ {
        Some(Reg::SegGs)
    } else if n == "segss"@ {
        Some(Reg::SegSs)
    } else if n == "ss"@ {
        Some(Reg::SegSs)
    } else if n == "eflags"@ {
        Some(Reg::EFlags)
    } else if n == "flags"@ || n == "flag"@ {
        Some(Reg::EFlags)
    } else if n == "xmm0"@ {
        Some(Reg::Xmm0)
    } else if n == "xmm1"@ {
        Some(Reg::Xmm1)
    } else if n == "xmm2"@ {
        Some(Reg::Xmm2)
    } else if n == "xmm3"@ {
        Some(Reg::Xmm3)
    } else if n == "xmm4"@ {
        Some(Reg::Xmm4)
    } else if n == "xmm5"@ {
        Some(Reg::Xmm5)
    } else if n == "xmm6"@ {
        Some(Reg::Xmm6)
    } else if n == "xmm7"@ {
        Some(Reg::Xmm7)
    } else if n == "xmm8"@ {
        Some(Reg::Xmm8)
    } else if n == "xmm9"@ {
        Some(Reg::Xmm9)
    } else if n == "xmm10"@ {
        Some(Reg::Xmm10)
    } else if n == "xmm11"@ {
        Some(Reg::Xmm11)
    } else if n == "xmm12"@ {
        Some(Reg::Xmm12)
    } else if n == "xmm13"@ {
        Some(Reg::Xmm13)
    } else if n == "xmm14"@ {
        Some(Reg::Xmm14)
    } else if n == "xmm15"@ {
        Some(Reg::Xmm15)
    } else if n == "mxcsr"@ {
        Some(Reg::MxCsr)
    } else if n == "lbfrip"@ {
        Some(Reg::LastBranchFrom)
    } else if n == "lbtrip"@ {
        Some(Reg::LastBranchTo)
    } else {
        None
    }
}

/// The register that the name `n` designates when reading.
pub fn reg_from_name(n: &Vec<char>) -> (r: Option<Reg>)
    ensures
        r == reg_named(n@),
{
    if chars_eq_str(n, "rax") {
        Some(Reg::Rax)
    } else if chars_eq_str(n, "rbx") {
        Some(Reg::Rbx)
    } else if chars_eq_str(n, "rcx") {
        Some(Reg::Rcx)
    } else if chars_eq_str(n, "rdx") {
        Some(Reg::Rdx)
    } else if chars_eq_str(n, "rsi") {
        Some(Reg::Rsi)
    } else if chars_eq_str(n, "rdi") {
        Some(Reg::Rdi)
    } else if chars_eq_str(n, "rbp") {
        Some(Reg::Rbp)
    } else if chars_eq_str(n, "rsp") {
        Some(Reg::Rsp)
    } else if chars_eq_str(n, "rip") {
        Some(Reg::Rip)
    } else if chars_eq_str(n, "r8") {
        Some(Reg::R8)
    } else if chars_eq_str(n, "r9") {
        Some(Reg::R9)
    } else if chars_eq_str(n, "r10") {
        Some(Reg::R10)
    } else if chars_eq_str(n, "r11") {
        Some(Reg::R11)
    } else if chars_eq_str(n, "r12") {
        Some(Reg::R12)
    } else if chars_eq_str(n, "r13") {
        Some(Reg::R13)
    } else if chars_eq_str(n, "r14") {
        Some(Reg::R14)
    } else if chars_eq_str(n, "r15") {
        Some(Reg::R15)
    } else if chars_eq_str(n, "segcs") {
        Some(Reg::SegCs)
    } else if chars_eq_str(n, "cs") {
        Some(Reg::SegCs)
    } else if chars_eq_str(n, "segds") {
        Some(Reg::SegDs)
    } else if chars_eq_str(n, "ds") {
        Some(Reg::SegDs)
    } else if chars_eq_str(n, "seges") {
        Some(Reg::SegEs)
    } else if chars_eq_str(n, "es") {
        Some(Reg::SegEs)
    } else if chars_eq_str(n, "segfs") {
        Some(Reg::SegFs)
    } else if chars_eq_str(n, "fs") {
        Some(Reg::SegFs)
    } else if chars_eq_str(n, "seggs") {
        Some(Reg::SegGs)
    } else if chars_eq_str(n, "gs") {
        Some(Reg::SegGs)
    } else if chars_eq_str(n, "segss") {
        Some(Reg::SegSs)
    } else if chars_eq_str(n, "ss") {
        Some(Reg::SegSs)
    } else if chars_eq_str(n, "eflags") {
        Some(Reg::EFlags)
    } else if chars_eq_str(n, "flags") || chars_eq_str(n, "flag") {
        Some(Reg::EFlags)
    } else if chars_eq_str(n, "xmm0") {
        Some(Reg::Xmm0)
    } else if chars_eq_str(n, "xmm1") {
        Some(Reg::Xmm1)
    } else if chars_eq_str(n, "xmm2") {
        Some(Reg::Xmm2)
    } else if chars_eq_str(n, "xmm3") {
        Some(Reg::Xmm3)
    } else if chars_eq_str(n, "xmm4") {
        Some(Reg::Xmm4)
    } else if chars_eq_str(n, "xmm5") {
        Some(Reg::Xmm5)
    } else if chars_eq_str(n, "xmm6") {
        Some(Reg::Xmm6)
    } else if chars_eq_str(n, "xmm7") {
        Some(Reg::Xmm7)
    } else if chars_eq_str(n, "xmm8") {
        Some(Reg::Xmm8)
    } else if chars_eq_str(n, "xmm9") {
        Some(Reg::Xmm9)
    } else if chars_eq_str(n, "xmm10") {
        Some(Reg::Xmm10)
    } else if chars_eq_str(n, "xmm11") {
        Some(Reg::Xmm11)
    } else if chars_eq_str(n, "xmm12") {
        Some(Reg::Xmm12)
    } else if chars_eq_str(n, "xmm13") {
        Some(Reg::Xmm13)
    } else if chars_eq_str(n, "xmm14") {
        Some(Reg::Xmm14)
    } else if chars_eq_str(n, "xmm15") {
        Some(Reg::Xmm15)
    } else if chars_eq_str(n, "mxcsr") {
        Some(Reg::MxCsr)
    } else if chars_eq_str(n, "lbfrip") {
        Some(Reg::LastBranchFrom)
    } else if chars_eq_str(n, "lbtrip") {
        Some(Reg::LastBranchTo)
    } else {
        None
    }
}

/// The value of the register named `target` (in any case), or `Un` when no
/// register has that name.
pub open spec fn value_named(ctx: Context64, target: Seq<char>) -> Value {
    match reg_named(lower_seq(target)) {
        Some(r) => reg_read(ctx, r),
        None => Value::Un,
    }
}

/// Reading a 64-bit register by name.
pub trait ToValue {
    fn str_to_value_ctx(self, target: &str) -> Value;
}

impl ToValue for Context64 {
    /// The value of the register named `target`, compared without case.
    fn str_to_value_ctx(self, target: &str) -> (v: Value)
        ensures
            v == value_named(self, target@),
    {
        let t = chars_of(target);
        let l = lowercase(&t);
        match reg_from_name(&l) {
            Some(r) => read_reg(&self, r),
            None => Value::Un,
        }
    }
}

/// The register that a name designates when writing: the sixteen general
/// registers and `rip` by their names, the vector registers `xmm0` to
/// `xmm15`, and `flag` for the flags register.
pub open spec fn set_target_named(n: Seq<char>) -> Option<Reg> {
    if n == "rax"@ {
        Some(Reg::Rax)
    } else if n == "rbx"@ {
        Some(Reg::Rbx)
    } else if n == "rcx"@ {
        Some(Reg::Rcx)
    } else if n == "rdx"@ {
        Some(Reg::Rdx)
    } else if n == "rsi"@ {
        Some(Reg::Rsi)
    } else if n == "rdi"@ {
        Some(Reg::Rdi)
    } else if n == "rbp"@ {
        Some(Reg::Rbp)
    } else if n == "rsp"@ {
        Some(Reg::Rsp)
    } else if n == "rip"@ {
        Some(Reg::Rip)
    } else if n == "r8"@ {
        Some(Reg::R8)
    } else if n == "r9"@ {
        Some(Reg::R9)
    } else if n == "r10"@ {
        Some(Reg::R10)
    } else if n == "r11"@ {
        Some(Reg::R11)
    } else if n == "r12"@ {
        Some(Reg::R12)
    } else if n == "r13"@ {
        Some(Reg::R13)
    } else if n == "r14"@ {
        Some(Reg::R14)
    } else if n == "r15"@ {
        Some(Reg::R15)
    } else if n == "xmm0"@ {
        Some(Reg::Xmm0)
    } else if n == "xmm1"@ {
        Some(Reg::Xmm1)
    } else if n == "xmm2"@ {
        Some(Reg::Xmm2)
    } else if n == "xmm3"@ {
        Some(Reg::Xmm3)
    } else if n == "xmm4"@ {
        Some(Reg::Xmm4)
    } else if n == "xmm5"@ {
        Some(Reg::Xmm5)
    } else if n == "xmm6"@ {
        Some(Reg::Xmm6)
    } else if n == "xmm7"@ {
        Some(Reg::Xmm7)
    } else if n == "xmm8"@ {
        Some(Reg::Xmm8)
    } else if n == "xmm9"@ {
        Some(Reg::Xmm9)
    } else if n == "xmm10"@ {
        Some(Reg::Xmm10)
    } else if n == "xmm11"@ {
        Some(Reg::Xmm11)
    } else if n == "xmm12"@ {
        Some(Reg::Xmm12)
    } else if n == "xmm13"@ {
        Some(Reg::Xmm13)
    } else if n == "xmm14"@ {
        Some(Reg::Xmm14)
    } else if n == "xmm15"@ {
        Some(Reg::Xmm15)
    } else if n == "flag"@ {
        Some(Reg::EFlags)
    } else {
        None
    }
}

/// Law: each register name of `set register` in a 64-bit program designates the register
/// it names: `rax` gives `Some(Reg::Rax)`; `rbx` gives `Some(Reg::Rbx)`; `rcx` gives
/// `Some(Reg::Rcx)`; `rdx` gives `Some(Reg::Rdx)`; `rsi` gives `Some(Reg::Rsi)`; `rdi`
/// gives `Some(Reg::Rdi)`; `rbp` gives `Some(Reg::Rbp)`; `rsp` gives `Some(Reg::Rsp)`;
/// `rip` gives `Some(Reg::Rip)`; `r8` gives `Some(Reg::R8)`; `r9` gives `Some(Reg::R9)`;
/// `r10` gives `Some(Reg::R10)`; `r11` gives `Some(Reg::R11)`; `r12` gives
/// `Some(Reg::R12)`; `r13` gives `Some(Reg::R13)`; `r14` gives `Some(Reg::R14)`; `r15`
/// gives `Some(Reg::R15)`; `xmm0` gives `Some(Reg::Xmm0)`; `xmm1` gives
/// `Some(Reg::Xmm1)`; `xmm2` gives `Some(Reg::Xmm2)`; `xmm3` gives `Some(Reg::Xmm3)`;
/// `xmm4` gives `Some(Reg::Xmm4)`; `xmm5` gives `Some(Reg::Xmm5)`; `xmm6` gives
/// `Some(Reg::Xmm6)`; `xmm7` gives `Some(Reg::Xmm7)`; `xmm8` gives `Some(Reg::Xmm8)`;
/// `xmm9` gives `Some(Reg::Xmm9)`; `xmm10` gives `Some(Reg::Xmm10)`; `xmm11` gives
/// `Some(Reg::Xmm11)`; `xmm12` gives `Some(Reg::Xmm12)`; `xmm13` gives
/// `Some(Reg::Xmm13)`; `xmm14` gives `Some(Reg::Xmm14)`; `xmm15` gives
/// `Some(Reg::Xmm15)`; `flag` gives `Some(Reg::EFlags)`.
#[verifier::rlimit(80)]
pub proof fn lemma_set_target_names()
    ensures
        set_target_named("rax"@) == Some(Reg::Rax),
        set_target_named("rbx"@) == Some(Reg::Rbx),
        set_target_named("rcx"@) == Some(Reg::Rcx),
        set_target_named("rdx"@) == Some(Reg::Rdx),
        set_target_named("rsi"@) == Some(Reg::Rsi),
        set_target_named("rdi"@) == Some(Reg::Rdi),
        set_target_named("rbp"@) == Some(Reg::Rbp),
        set_target_named("rsp"@) == Some(Reg::Rsp),
        set_target_named("rip"@) == Some(Reg::Rip),
        set_target_named("r8"@) == Some(Reg::R8),
        set_target_named("r9"@) == Some(Reg::R9),
        set_target_named("r10"@) == Some(Reg::R10),
        set_target_named("r11"@) == Some(Reg::R11),
        set_target_named("r12"@) == Some(Reg::R12),
        set_target_named("r13"@) == Some(Reg::R13),
        set_target_named("r14"@) == Some(Reg::R14),
        set_target_named("r15"@) == Some(Reg::R15),
        set_target_named("xmm0"@) == Some(Reg::Xmm0),
        set_target_named("xmm1"@) == Some(Reg::Xmm1),
        set_target_named("xmm2"@) == Some(Reg::Xmm2),
        set_target_named("xmm3"@) == Some(Reg::Xmm3),
        set_target_named("xmm4"@) == Some(Reg::Xmm4),
        set_target_named("xmm5"@) == Some(Reg::Xmm5),
        set_target_named("xmm6"@) == Some(Reg::Xmm6),
        set_target_named("xmm7"@) == Some(Reg::Xmm7),
        set_target_named("xmm8"@) == Some(Reg::Xmm8),
        set_target_named("xmm9"@) == Some(Reg::Xmm9),
        set_target_named("xmm10"@) == Some(Reg::Xmm10),
        set_target_named("xmm11"@) == Some(Reg::Xmm11),
        set_target_named("xmm12"@) == Some(Reg::Xmm12),
        set_target_named("xmm13"@) == Some(Reg::Xmm13),
        set_target_named("xmm14"@) == Some(Reg::Xmm14),
        set_target_named("xmm15"@) == Some(Reg::Xmm15),
        set_target_named("flag"@) == Some(Reg::EFlags),
{
    reveal_strlit("rax");
    assert("rax"@.len() == 3);
    reveal_strlit("rbx");
    assert("rbx"@.len() == 3);
    reveal_strlit("rcx");
    assert("rcx"@.len() == 3);
    reveal_strlit("rdx");
    assert("rdx"@.len() == 3);
    reveal_strlit("rsi");
    assert("rsi"@.len() == 3);
    reveal_strlit("rdi");
    assert("rdi"@.len() == 3);
    reveal_strlit("rbp");
    assert("rbp"@.len() == 3);
    reveal_strlit("rsp");
    assert("rsp"@.len() == 3);
    reveal_strlit("rip");
    assert("rip"@.len() == 3);
    reveal_strlit("r8");
    assert("r8"@.len() == 2);
    reveal_strlit("r9");
    assert("r9"@.len() == 2);
    reveal_strlit("r10");
    assert("r10"@.len() == 3);
    reveal_strlit("r11");
    assert("r11"@.len() == 3);
    reveal_strlit("r12");
    assert("r12"@.len() == 3);
    reveal_strlit("r13");
    assert("r13"@.len() == 3);
    reveal_strlit("r14");
    assert("r14"@.len() == 3);
    reveal_strlit("r15");
    assert("r15"@.len() == 3);
    reveal_strlit("xmm0");
    assert("xmm0"@.len() == 4);
    reveal_strlit("xmm1");
    assert("xmm1"@.len() == 4);
    reveal_strlit("xmm2");
    assert("xmm2"@.len() == 4);
    reveal_strlit("xmm3");
    assert("xmm3"@.len() == 4);
    reveal_strlit("xmm4");
    assert("xmm4"@.len() == 4);
    reveal_strlit("xmm5");
    assert("xmm5"@.len() == 4);
    reveal_strlit("xmm6");
    assert("xmm6"@.len() == 4);
    reveal_strlit("xmm7");
    assert("xmm7"@.len() == 4);
    reveal_strlit("xmm8");
    assert("xmm8"@.len() == 4);
    reveal_strlit("xmm9");
    assert("xmm9"@.len() == 4);
    reveal_strlit("xmm10");
    assert("xmm10"@.len() == 5);
    reveal_strlit("xmm11");
    assert("xmm11"@.len() == 5);
    reveal_strlit("xmm12");
    assert("xmm12"@.len() == 5);
    reveal_strlit("xmm13");
    assert("xmm13"@.len() == 5);
    reveal_strlit("xmm14");
    assert("xmm14"@.len() == 5);
    reveal_strlit("xmm15");
    assert("xmm15"@.len() == 5);
    reveal_strlit("flag");
    assert("flag"@.len() == 4);
    assert("rbx"@[1] != "rax"@[1]);
    assert("rcx"@[1] != "rax"@[1]);
    assert("rcx"@[1] != "rbx"@[1]);
    assert("rdx"@[1] != "rax"@[1]);
    assert("rdx"@[1] != "rbx"@[1]);
    assert("rdx"@[1] != "rcx"@[1]);
    assert("rsi"@[1] != "rax"@[1]);
    assert("rsi"@[1] != "rbx"@[1]);
    assert("rsi"@[1] != "rcx"@[1]);
    assert("rsi"@[1] != "rdx"@[1]);
    assert("rdi"@[1] != "rax"@[1]);
    assert("rdi"@[1] != "rbx"@[1]);
    assert("rdi"@[1] != "rcx"@[1]);
    assert("rdi"@[2] != "rdx"@[2]);
    assert("rdi"@[1] != "rsi"@[1]);
    assert("rbp"@[1] != "rax"@[1]);
    assert("rbp"@[2] != "rbx"@[2]);
    assert("rbp"@[1] != "rcx"@[1]);
    assert("rbp"@[1] != "rdx"@[1]);
    assert("rbp"@[1] != "rsi"@[1]);
    assert("rbp"@[1] != "rdi"@[1]);
    assert("rsp"@[1] != "rax"@[1]);
    assert("rsp"@[1] != "rbx"@[1]);
    assert("rsp"@[1] != "rcx"@[1]);
    assert("rsp"@[1] != "rdx"@[1]);
    assert("rsp"@[2] != "rsi"@[2]);
    assert("rsp"@[1] != "rdi"@[1]);
    assert("rsp"@[1] != "rbp"@[1]);
    assert("rip"@[1] != "rax"@[1]);
    assert("rip"@[1] != "rbx"@[1]);
    assert("rip"@[1] != "rcx"@[1]);
    assert("rip"@[1] != "rdx"@[1]);
    assert("rip"@[1] != "rsi"@[1]);
    assert("rip"@[1] != "rdi"@[1]);
    assert("rip"@[1] != "rbp"@[1]);
    assert("rip"@[1] != "rsp"@[1]);
    assert("r9"@[1] != "r8"@[1]);
    assert("r10"@[1] != "rax"@[1]);
    assert("r10"@[1] != "rbx"@[1]);
    assert("r10"@[1] != "rcx"@[1]);
    assert("r10"@[1] != "rdx"@[1]);
    assert("r10"@[1] != "rsi"@[1]);
    assert("r10"@[1] != "rdi"@[1]);
    assert("r10"@[1] != "rbp"@[1]);
    assert("r10"@[1] != "rsp"@[1]);
    assert("r10"@[1] != "rip"@[1]);
    assert("r11"@[1] != "rax"@[1]);
    assert("r11"@[1] != "rbx"@[1]);
    assert("r11"@[1] != "rcx"@[1]);
    assert("r11"@[1] != "rdx"@[1]);
    assert("r11"@[1] != "rsi"@[1]);
    assert("r11"@[1] != "rdi"@[1]);
    assert("r11"@[1] != "rbp"@[1]);
    assert("r11"@[1] != "rsp"@[1]);
    assert("r11"@[1] != "rip"@[1]);
    assert("r11"@[2] != "r10"@[2]);
    assert("r12"@[1] != "rax"@[1]);
    assert("r12"@[1] != "rbx"@[1]);
    assert("r12"@[1] != "rcx"@[1]);
    assert("r12"@[1] != "rdx"@[1]);
    assert("r12"@[1] != "rsi"@[1]);
    assert("r12"@[1] != "rdi"@[1]);
    assert("r12"@[1] != "rbp"@[1]);
    assert("r12"@[1] != "rsp"@[1]);
    assert("r12"@[1] != "rip"@[1]);
    assert("r12"@[2] != "r10"@[2]);
    assert("r12"@[2] != "r11"@[2]);
    assert("r13"@[1] != "rax"@[1]);
    assert("r13"@[1] != "rbx"@[1]);
    assert("r13"@[1] != "rcx"@[1]);
    assert("r13"@[1] != "rdx"@[1]);
    assert("r13"@[1] != "rsi"@[1]);
    assert("r13"@[1] != "rdi"@[1]);
    assert("r13"@[1] != "rbp"@[1]);
    assert("r13"@[1] != "rsp"@[1]);
    assert("r13"@[1] != "rip"@[1]);
    assert("r13"@[2] != "r10"@[2]);
    assert("r13"@[2] != "r11"@[2]);
    assert("r13"@[2] != "r12"@[2]);
    assert("r14"@[1] != "rax"@[1]);
    assert("r14"@[1] != "rbx"@[1]);
    assert("r14"@[1] != "rcx"@[1]);
    assert("r14"@[1] != "rdx"@[1]);
    assert("r14"@[1] != "rsi"@[1]);
    assert("r14"@[1] != "rdi"@[1]);
    assert("r14"@[1] != "rbp"@[1]);
    assert("r14"@[1] != "rsp"@[1]);
    assert("r14"@[1] != "rip"@[1]);
    assert("r14"@[2] != "r10"@[2]);
    assert("r14"@[2] != "r11"@[2]);
    assert("r14"@[2] != "r12"@[2]);
    assert("r14"@[2] != "r13"@[2]);
    assert("r15"@[1] != "rax"@[1]);
    assert("r15"@[1] != "rbx"@[1]);
    assert("r15"@[1] != "rcx"@[1]);
    assert("r15"@[1] != "rdx"@[1]);
    assert("r15"@[1] != "rsi"@[1]);
    assert("r15"@[1] != "rdi"@[1]);
    assert("r15"@[1] != "rbp"@[1]);
    assert("r15"@[1] != "rsp"@[1]);
    assert("r15"@[1] != "rip"@[1]);
    assert("r15"@[2] != "r10"@[2]);
    assert("r15"@[2] != "r11"@[2]);
    assert("r15"@[2] != "r12"@[2]);
    assert("r15"@[2] != "r13"@[2]);
    assert("r15"@[2] != "r14"@[2]);
    assert("xmm1"@[3] != "xmm0"@[3]);
    assert("xmm2"@[3] != "xmm0"@[3]);
    assert("xmm2"@[3] != "xmm1"@[3]);
    assert("xmm3"@[3] != "xmm0"@[3]);
    assert("xmm3"@[3] != "xmm1"@[3]);
    assert("xmm3"@[3] != "xmm2"@[3]);
    assert("xmm4"@[3] != "xmm0"@[3]);
    assert("xmm4"@[3] != "xmm1"@[3]);
    assert("xmm4"@[3] != "xmm2"@[3]);
    assert("xmm4"@[3] != "xmm3"@[3]);
    assert("xmm5"@[3] != "xmm0"@[3]);
    assert("xmm5"@[3] != "xmm1"@[3]);
    assert("xmm5"@[3] != "xmm2"@[3]);
    assert("xmm5"@[3] != "xmm3"@[3]);
    assert("xmm5"@[3] != "xmm4"@[3]);
    assert("xmm6"@[3] != "xmm0"@[3]);
    assert("xmm6"@[3] != "xmm1"@[3]);
    assert("xmm6"@[3] != "xmm2"@[3]);
    assert("xmm6"@[3] != "xmm3"@[3]);
    assert("xmm6"@[3] != "xmm4"@[3]);
    assert("xmm6"@[3] != "xmm5"@[3]);
    assert("xmm7"@[3] != "xmm0"@[3]);
    assert("xmm7"@[3] != "xmm1"@[3]);
    assert("xmm7"@[3] != "xmm2"@[3]);
    assert("xmm7"@[3] != "xmm3"@[3]);
    assert("xmm7"@[3] != "xmm4"@[3]);
    assert("xmm7"@[3] != "xmm5"@[3]);
    assert("xmm7"@[3] != "xmm6"@[3]);
    assert("xmm8"@[3] != "xmm0"@[3]);
    assert("xmm8"@[3] != "xmm1"@[3]);
    assert("xmm8"@[3] != "xmm2"@[3]);
    assert("xmm8"@[3] != "xmm3"@[3]);
    assert("xmm8"@[3] != "xmm4"@[3]);
    assert("xmm8"@[3] != "xmm5"@[3]);
    assert("xmm8"@[3] != "xmm6"@[3]);
    assert("xmm8"@[3] != "xmm7"@[3]);
    assert("xmm9"@[3] != "xmm0"@[3]);
    assert("xmm9"@[3] != "xmm1"@[3]);
    assert("xmm9"@[3] != "xmm2"@[3]);
    assert("xmm9"@[3] != "xmm3"@[3]);
    assert("xmm9"@[3] != "xmm4"@[3]);
    assert("xmm9"@[3] != "xmm5"@[3]);
    assert("xmm9"@[3] != "xmm6"@[3]);
    assert("xmm9"@[3] != "xmm7"@[3]);
    assert("xmm9"@[3] != "xmm8"@[3]);
    assert("xmm11"@[4] != "xmm10"@[4]);
    assert("xmm12"@[4] != "xmm10"@[4]);
    assert("xmm12"@[4] != "xmm11"@[4]);
    assert("xmm13"@[4] != "xmm10"@[4]);
    assert("xmm13"@[4] != "xmm11"@[4]);
    assert("xmm13"@[4] != "xmm12"@[4]);
    assert("xmm14"@[4] != "xmm10"@[4]);
    assert("xmm14"@[4] != "xmm11"@[4]);
    assert("xmm14"@[4] != "xmm12"@[4]);
    assert("xmm14"@[4] != "xmm13"@[4]);
    assert("xmm15"@[4] != "xmm10"@[4]);
    assert("xmm15"@[4] != "xmm11"@[4]);
    assert("xmm15"@[4] != "xmm12"@[4]);
    assert("xmm15"@[4] != "xmm13"@[4]);
    assert("xmm15"@[4] != "xmm14"@[4]);
    assert("flag"@[0] != "xmm0"@[0]);
    assert("flag"@[0] != "xmm1"@[0]);
    assert("flag"@[0] != "xmm2"@[0]);
    assert("flag"@[0] != "xmm3"@[0]);
    assert("flag"@[0] != "xmm4"@[0]);
    assert("flag"@[0] != "xmm5"@[0]);
    assert("flag"@[0] != "xmm6"@[0]);
    assert("flag"@[0] != "xmm7"@[0]);
    assert("flag"@[0] != "xmm8"@[0]);
    assert("flag"@[0] != "xmm9"@[0]);
}


/// The register that the name `n` designates when writing.
pub fn set_target_from_name(n: &Vec<char>) -> (r: Option<Reg>)
    ensures
        r == set_target_named(n@),
{
    if chars_eq_str(n, "rax") {
        Some(Reg::Rax)
    } else if chars_eq_str(n, "rbx") {
        Some(Reg::Rbx)
    } else if chars_eq_str(n, "rcx") {
        Some(Reg::Rcx)
    } else if chars_eq_str(n, "rdx") {
        Some(Reg::Rdx)
    } else if chars_eq_str(n, "rsi") {
        Some(Reg::Rsi)
    } else if chars_eq_str(n, "rdi") {
        Some(Reg::Rdi)
    } else if chars_eq_str(n, "rbp") {
        Some(Reg::Rbp)
    } else if chars_eq_str(n, "rsp") {
        Some(Reg::Rsp)
    } else if chars_eq_str(n, "rip") {
        Some(Reg::Rip)
    } else if chars_eq_str(n, "r8") {
        Some(Reg::R8)
    } else if chars_eq_str(n, "r9") {
        Some(Reg::R9)
    } else if chars_eq_str(n, "r10") {
        Some(Reg::R10)
    } else if chars_eq_str(n, "r11") {
        Some(Reg::R11)
    } else if chars_eq_str(n, "r12") {
        Some(Reg::R12)
    } else if chars_eq_str(n, "r13") {
        Some(Reg::R13)
    } else if chars_eq_str(n, "r14") {
        Some(Reg::R14)
    } else if chars_eq_str(n, "r15") {
        Some(Reg::R15)
    } else if chars_eq_str(n, "xmm0") {
        Some(Reg::Xmm0)
    } else if chars_eq_str(n, "xmm1") {
        Some(Reg::Xmm1)
    } else if chars_eq_str(n, "xmm2") {
        Some(Reg::Xmm2)
    } else if chars_eq_str(n, "xmm3") {
        Some(Reg::Xmm3)
    } else if chars_eq_str(n, "xmm4") {
        Some(Reg::Xmm4)
    } else if chars_eq_str(n, "xmm5") {
        Some(Reg::Xmm5)
    } else if chars_eq_str(n, "xmm6") {
        Some(Reg::Xmm6)
    } else if chars_eq_str(n, "xmm7") {
        Some(Reg::Xmm7)
    } else if chars_eq_str(n, "xmm8") {
        Some(Reg::Xmm8)
    } else if chars_eq_str(n, "xmm9") {
        Some(Reg::Xmm9)
    } else if chars_eq_str(n, "xmm10") {
        Some(Reg::Xmm10)
    } else if chars_eq_str(n, "xmm11") {
        Some(Reg::Xmm11)
    } else if chars_eq_str(n, "xmm12") {
        Some(Reg::Xmm12)
    } else if chars_eq_str(n, "xmm13") {
        Some(Reg::Xmm13)
    } else if chars_eq_str(n, "xmm14") {
        Some(Reg::Xmm14)
    } else if chars_eq_str(n, "xmm15") {
        Some(Reg::Xmm15)
    } else if chars_eq_str(n, "flag") {
        Some(Reg::EFlags)
    } else {
        None
    }
}

/// `ctx` with the 64-bit register `r` (a general register) set to `x`.
pub open spec fn write_u64(ctx: Context64, r: Reg, x: u64) -> Context64 {
    match r {
        Reg::Rax => Context64 { rax: x, ..ctx },
        Reg::Rbx => Context64 { rbx: x, ..ctx },
        Reg::Rcx => Context64 { rcx: x, ..ctx },
        Reg::Rdx => Context64 { rdx: x, ..ctx },
        Reg::Rsi => Context64 { rsi: x, ..ctx },
        Reg::Rdi => Context64 { rdi: x, ..ctx },
        Reg::Rbp => Context64 { rbp: x, ..ctx },
        Reg::Rsp => Context64 { rsp: x, ..ctx },
        Reg::Rip => Context64 { rip: x, ..ctx },
        Reg::R8 => Context64 { r8: x, ..ctx },
        Reg::R9 => Context64 { r9: x, ..ctx },
        Reg::R10 => Context64 { r10: x, ..ctx },
        Reg::R11 => Context64 { r11: x, ..ctx },
        Reg::R12 => Context64 { r12: x, ..ctx },
        Reg::R13 => Context64 { r13: x, ..ctx },
        Reg::R14 => Context64 { r14: x, ..ctx },
        Reg::R15 => Context64 { r15: x, ..ctx },
        _ => ctx,
    }
}

/// `ctx` with the vector register `r` set to `x`.
pub open spec fn write_m128(ctx: Context64, r: Reg, x: M128) -> Context64 {
    match r {
        Reg::Xmm0 => Context64 { xmm0: x, ..ctx },
        Reg::Xmm1 => Context64 { xmm1: x, ..ctx },
        Reg::Xmm2 => Context64 { xmm2: x, ..ctx },
        Reg::Xmm3 => Context64 { xmm3: x, ..ctx },
        Reg::Xmm4 => Context64 { xmm4: x, ..ctx },
        Reg::Xmm5 => Context64 { xmm5: x, ..ctx },
        Reg::Xmm6 => Context64 { xmm6: x, ..ctx },
        Reg::Xmm7 => Context64 { xmm7: x, ..ctx },
        Reg::Xmm8 => Context64 { xmm8: x, ..ctx },
        Reg::Xmm9 => Context64 { xmm9: x, ..ctx },
        Reg::Xmm10 => Context64 { xmm10: x, ..ctx },
        Reg::Xmm11 => Context64 { xmm11: x, ..ctx },
        Reg::Xmm12 => Context64 { xmm12: x, ..ctx },
        Reg::Xmm13 => Context64 { xmm13: x, ..ctx },
        Reg::Xmm14 => Context64 { xmm14: x, ..ctx },
        Reg::Xmm15 => Context64 { xmm15: x, ..ctx },
        _ => ctx,
    }
}

pub open spec fn is_gpr(r: Reg) -> bool {
    match r {
        Reg::Rax | Reg::Rbx | Reg::Rcx | Reg::Rdx | Reg::Rsi | Reg::Rdi | Reg::Rbp | Reg::Rsp | Reg::Rip | Reg::R8 | Reg::R9 | Reg::R10 | Reg::R11 | Reg::R12 | Reg::R13 | Reg::R14 | Reg::R15 => true,
        _ => false,
    }
}

pub open spec fn is_xmm(r: Reg) -> bool {
    match r {
        Reg::Xmm0 | Reg::Xmm1 | Reg::Xmm2 | Reg::Xmm3 | Reg::Xmm4 | Reg::Xmm5 | Reg::Xmm6 | Reg::Xmm7 | Reg::Xmm8 | Reg::Xmm9 | Reg::Xmm10 | Reg::Xmm11 | Reg::Xmm12 | Reg::Xmm13 | Reg::Xmm14 | Reg::Xmm15 => true,
        _ => false,
    }
}

fn write_u64_exec(ctx: &mut Context64, r: Reg, x: u64)
    requires
        is_gpr(r),
    ensures
        *final(ctx) == write_u64(*old(ctx), r, x),
{
    match r {
        Reg::Rax => {
            ctx.rax = x;
        },
        Reg::Rbx => {
            ctx.rbx = x;
        },
        Reg::Rcx => {
            ctx.rcx = x;
        },
        Reg::Rdx => {
            ctx.rdx = x;
        },
        Reg::Rsi => {
            ctx.rsi = x;
        },
        Reg::Rdi => {
            ctx.rdi = x;
        },
        Reg::Rbp => {
            ctx.rbp = x;
        },
        Reg::Rsp => {
            ctx.rsp = x;
        },
        Reg::Rip => {
            ctx.rip = x;
        },
        Reg::R8 => {
            ctx.r8 = x;
        },
        Reg::R9 => {
            ctx.r9 = x;
        },
        Reg::R10 => {
            ctx.r10 = x;
        },
        Reg::R11 => {
            ctx.r11 = x;
        },
        Reg::R12 => {
            ctx.r12 = x;
        },
        Reg::R13 => {
            ctx.r13 = x;
        },
        Reg::R14 => {
            ctx.r14 = x;
        },
        Reg::R15 => {
            ctx.r15 = x;
        },
        _ => {},
    }
}

fn write_m128_exec(ctx: &mut Context64, r: Reg, x: M128)
    requires
        is_xmm(r),
    ensures
        *final(ctx) == write_m128(*old(ctx), r, x),
{
    match r {
        Reg::Xmm0 => {
            ctx.xmm0 = x;
        },
        Reg::Xmm1 => {
            ctx.xmm1 = x;
        },
        Reg::Xmm2 => {
            ctx.xmm2 = x;
        },
        Reg::Xmm3 => {
            ctx.xmm3 = x;
        },
        Reg::Xmm4 => {
            ctx.xmm4 = x;
        },
        Reg::Xmm5 => {
            ctx.xmm5 = x;
        },
        Reg::Xmm6 => {
            ctx.xmm6 = x;
        },
        Reg::Xmm7 => {
            ctx.xmm7 = x;
        },
        Reg::Xmm8 => {
            ctx.xmm8 = x;
        },
        Reg::Xmm9 => {
            ctx.xmm9 = x;
        },
        Reg::Xmm10 => {
            ctx.xmm10 = x;
        },
        Reg::Xmm11 => {
            ctx.xmm11 = x;
        },
        Reg::Xmm12 => {
            ctx.xmm12 = x;
        },
        Reg::Xmm13 => {
            ctx.xmm13 = x;
        },
        Reg::Xmm14 => {
            ctx.xmm14 = x;
        },
        Reg::Xmm15 => {
            ctx.xmm15 = x;
        },
        _ => {},
    }
}

/// What writing a register did besides the plain case.
#[derive(Debug, Clone, Copy, PartialEq, Eq, Structural)]
pub enum SetNote {
    /// The register now holds the value.
    Done,
    /// The flags register got the low 32 bits of a wider value.
    FlagTruncated,
    /// A 128-bit value was refused for the flags register.
    FlagRejected,
    /// A 128-bit value was refused for a 64-bit register.
    RegRejected,
}

/// Why a register could not be written.
#[derive(Debug, Clone, Copy, PartialEq, Eq, Structural)]
pub enum SetRegError {
    /// Too few arguments.
    Usage,
    /// The value is no number.
    BadValue(ParseError),
    /// No register has that name.
    UnknownRegister,
}

/// A 128-bit value as the two halves of a vector register.
pub open spec fn m128_of(x: u128) -> M128 {
    M128 { low: (x & 0xFFFF_FFFF_FFFF_FFFFu128) as u64, high: (x >> 64u128) as i64 }
}

/// The value a register is set to: a 64-bit number when the text is one,
/// else a 128-bit number.
pub open spec fn parse_set_value(s: Seq<char>) -> Result<Value, ParseError> {
    match crate::number::str_to_spec(s, crate::number::IntKind::U64) {
        Ok(v) => Ok(Value::U64(v as u64)),
        Err(_) => match crate::number::str_to_spec(s, crate::number::IntKind::U128) {
            Ok(v) => Ok(Value::U128(m128_of(v as u128))),
            Err(e) => Err(e),
        },
    }
}

/// Writing the value `v` into register `r` of `ctx`: the new context and
/// what happened.
pub open spec fn apply_set(ctx: Context64, r: Reg, v: Value) -> (Context64, SetNote) {
    if is_gpr(r) {
        match v {
            Value::U64(x) => (write_u64(ctx, r, x), SetNote::Done),
            Value::U128(_) => (ctx, SetNote::RegRejected),
            Value::Un => (ctx, SetNote::Done),
        }
    } else if is_xmm(r) {
        match v {
            Value::U64(x) => (write_m128(ctx, r, M128 { low: x, high: 0 }), SetNote::Done),
            Value::U128(m) => (write_m128(ctx, r, m), SetNote::Done),
            Value::Un => (ctx, SetNote::Done),
        }
    } else {
        match v {
            Value::U64(x) => (
                Context64 { eflags: x as u32, ..ctx },
                if x > u32::MAX {
                    SetNote::FlagTruncated
                } else {
                    SetNote::Done
                },
            ),
            Value::U128(_) => (ctx, SetNote::FlagRejected),
            Value::Un => (ctx, SetNote::Done),
        }
    }
}

fn parse_set_value_exec(s: &str) -> (r: Result<Value, ParseError>)
    ensures
        r == parse_set_value(s@),
{
    match str_to_u64(s) {
        Ok(v) => Ok(Value::U64(v)),
        Err(_) => match str_to_u128(s) {
            Ok(x) => Ok(Value::U128(M128 { low: (x & 0xFFFF_FFFF_FFFF_FFFFu128) as u64, high: (x >> 64u128) as i64 })),
            Err(e) => Err(e),
        },
    }
}

/// Sets the register named `linev[0]` to the value written in `linev[1]`
/// (the `set register` command).
pub fn set_register64(linev: &[&str], ctx: &mut Context64) -> (r: Result<SetNote, SetRegError>)
    ensures
        linev@.len() < 2 ==> r == Err::<SetNote, SetRegError>(SetRegError::Usage) && *final(ctx)
            == *old(ctx),
        linev@.len() >= 2 ==> match parse_set_value(linev@[1]@) {
            Err(e) => r == Err::<SetNote, SetRegError>(SetRegError::BadValue(e)) && *final(ctx)
                == *old(ctx),
            Ok(v) => match set_target_named(linev@[0]@) {
                None => r == Err::<SetNote, SetRegError>(SetRegError::UnknownRegister)
                    && *final(ctx) == *old(ctx),
                Some(reg) => r == Ok::<SetNote, SetRegError>(apply_set(*old(ctx), reg, v).1)
                    && *final(ctx) == apply_set(*old(ctx), reg, v).0,
            },
        },
{
    if linev.len() < 2 {
        return Err(SetRegError::Usage);
    }
    let value = match parse_set_value_exec(linev[1]) {
        Ok(v) => v,
        Err(e) => {
            return Err(SetRegError::BadValue(e));
        },
    };
    let name = chars_of(linev[0]);
    let reg = match set_target_from_name(&name) {
        Some(reg) => reg,
        None => {
            return Err(SetRegError::UnknownRegister);
        },
    };
    if reg == Reg::EFlags {
        match value {
            Value::U64(x) => {
                ctx.eflags = x as u32;
                if x > u32::MAX as u64 {
                    Ok(SetNote::FlagTruncated)
                } else {
                    Ok(SetNote::Done)
                }
            },
            Value::U128(_) => Ok(SetNote::FlagRejected),
            Value::Un => Ok(SetNote::Done),
        }
    } else if is_xmm_exec(reg) {
        match value {
            Value::U64(x) => {
                write_m128_exec(ctx, reg, M128 { low: x, high: 0 });
                Ok(SetNote::Done)
            },
            Value::U128(m) => {
                write_m128_exec(ctx, reg, m);
                Ok(SetNote::Done)
            },
            Value::Un => Ok(SetNote::Done),
        }
    } else {
        match value {
            Value::U64(x) => {
                write_u64_exec(ctx, reg, x);
                Ok(SetNote::Done)
            },
            Value::U128(_) => Ok(SetNote::RegRejected),
            Value::Un => Ok(SetNote::Done),
        }
    }
}

fn is_xmm_exec(r: Reg) -> (b: bool)
    ensures
        b == is_xmm(r),
{
    match r {
        Reg::Xmm0 | Reg::Xmm1 | Reg::Xmm2 | Reg::Xmm3 | Reg::Xmm4 | Reg::Xmm5 | Reg::Xmm6 | Reg::Xmm7 | Reg::Xmm8 | Reg::Xmm9 | Reg::Xmm10 | Reg::Xmm11 | Reg::Xmm12 | Reg::Xmm13 | Reg::Xmm14 | Reg::Xmm15 => true,
        _ => false,
    }
}

/// The value of a 64-bit register shown as signed: as a 64-bit number when
/// bit 0 is set, else as a 32-bit number when one of bits 0 to 32 is set,
/// else as 16-bit when one of bits 0 to 48 is set, else as 8-bit when one of
/// bits 0 to 56 is set, else unchanged.
pub open spec fn signed_view(value: u64) -> i64 {
    if value & 1 != 0 {
        value as i64
    } else if value & 0x1_ffff_ffff != 0 {
        value as i32 as i64
    } else if value & 0x1_ffff_ffff_ffff != 0 {
        value as i16 as i64
    } else if value & 0x1ff_ffff_ffff_ffff != 0 {
        value as i8 as i64
    } else {
        value as i64
    }
}

/// The signed reading of a register value (see `signed_view`).
pub fn unsigned_to_signed(value: u64) -> (r: i64)
    ensures
        r == signed_view(value),
{
    proof {
        assert((value << 63u64 != 0) == (value & 1 != 0)) by (bit_vector);
        assert((value << 31u64 != 0) == (value & 0x1_ffff_ffff != 0)) by (bit_vector);
        assert((value << 15u64 != 0) == (value & 0x1_ffff_ffff_ffff != 0)) by (bit_vector);
        assert((value << 7u64 != 0) == (value & 0x1ff_ffff_ffff_ffff != 0)) by (bit_vector);
    }
    if value << 63u64 != 0 {
        value as i64
    } else if value << 31u64 != 0 {
        value as i32 as i64
    } else if value << 15u64 != 0 {
        value as i16 as i64
    } else if value << 7u64 != 0 {
        value as i8 as i64
    } else {
        value as i64
    }
}

/// A general register named `reg` (in lowercase, without the segment and
/// vector registers), or 0 for any other name.
pub open spec fn gpr_value(ctx: Context64, reg: Seq<char>) -> u64 {
    match reg_named(reg) {
        Some(r) => if is_gpr(r) {
            reg_read(ctx, r)->U64_0
        } else {
            0
        },
        None => 0,
    }
}

impl Context64 {
    /// A context with every register zero.
    pub fn zeroed() -> (c: Context64)
        ensures
            c == zero_context(),
    {
        let z = M128 { low: 0, high: 0 };
        Context64 {
            rax: 0,
            rbx: 0,
            rcx: 0,
            rdx: 0,
            rsi: 0,
            rdi: 0,
            rbp: 0,
            rsp: 0,
            rip: 0,
            r8: 0,
            r9: 0,
            r10: 0,
            r11: 0,
            r12: 0,
            r13: 0,
            r14: 0,
            r15: 0,
            seg_cs: 0,
            seg_ds: 0,
            seg_es: 0,
            seg_fs: 0,
            seg_gs: 0,
            seg_ss: 0,
            eflags: 0,
            xmm0: z,
            xmm1: z,
            xmm2: z,
            xmm3: z,
            xmm4: z,
            xmm5: z,
            xmm6: z,
            xmm7: z,
            xmm8: z,
            xmm9: z,
            xmm10: z,
            xmm11: z,
            xmm12: z,
            xmm13: z,
            xmm14: z,
            xmm15: z,
            mxcsr: 0,
            dr0: 0,
            dr1: 0,
            dr2: 0,
            dr3: 0,
            dr6: 0,
            dr7: 0,
            last_branch_from_rip: 0,
            last_branch_to_rip: 0,
            context_flags: 0,
        }
    }
}

/// The context with every register zero.
pub open spec fn zero_context() -> Context64 {
    Context64 {
        rax: 0,
        rbx: 0,
        rcx: 0,
        rdx: 0,
        rsi: 0,
        rdi: 0,
        rbp: 0,
        rsp: 0,
        rip: 0,
        r8: 0,
        r9: 0,
        r10: 0,
        r11: 0,
        r12: 0,
        r13: 0,
        r14: 0,
        r15: 0,
        seg_cs: 0,
        seg_ds: 0,
        seg_es: 0,
        seg_fs: 0,
        seg_gs: 0,
        seg_ss: 0,
        eflags: 0,
        xmm0: M128 { low: 0, high: 0 },
        xmm1: M128 { low: 0, high: 0 },
        xmm2: M128 { low: 0, high: 0 },
        xmm3: M128 { low: 0, high: 0 },
        xmm4: M128 { low: 0, high: 0 },
        xmm5: M128 { low: 0, high: 0 },
        xmm6: M128 { low: 0, high: 0 },
        xmm7: M128 { low: 0, high: 0 },
        xmm8: M128 { low: 0, high: 0 },
        xmm9: M128 { low: 0, high: 0 },
        xmm10: M128 { low: 0, high: 0 },
        xmm11: M128 { low: 0, high: 0 },
        xmm12: M128 { low: 0, high: 0 },
        xmm13: M128 { low: 0, high: 0 },
        xmm14: M128 { low: 0, high: 0 },
        xmm15: M128 { low: 0, high: 0 },
        mxcsr: 0,
        dr0: 0,
        dr1: 0,
        dr2: 0,
        dr3: 0,
        dr6: 0,
        dr7: 0,
        last_branch_from_rip: 0,
        last_branch_to_rip: 0,
        context_flags: 0,
    }
}

/// The value of the general register named `reg` (names as given, without
/// case folding), or 0 for any other name.
pub fn reg_to_value(reg: &str, ctx: &Context64) -> (r: u64)
    ensures
        r == gpr_value(*ctx, reg@),
{
    let n = chars_of(reg);
    match reg_from_name(&n) {
        Some(r) => if is_gpr_exec(r) {
            match read_reg(ctx, r) {
                Value::U64(v) => v,
                _ => 0,
            }
        } else {
            0
        },
        None => 0,
    }
}

fn is_gpr_exec(r: Reg) -> (b: bool)
    ensures
        b == is_gpr(r),
{
    match r {
        Reg::Rax | Reg::Rbx | Reg::Rcx | Reg::Rdx | Reg::Rsi | Reg::Rdi | Reg::Rbp | Reg::Rsp | Reg::Rip | Reg::R8 | Reg::R9 | Reg::R10 | Reg::R11 | Reg::R12 | Reg::R13 | Reg::R14 | Reg::R15 => true,
        _ => false,
    }
}

/// The x87 state of a 32-bit context that the debugger shows.
#[derive(Debug, Clone, Copy, PartialEq, Eq, Structural)]
pub struct FloatSave32 {
    pub control_word: u32,
    pub status_word: u32,
    pub tag_word: u32,
    pub error_offset: u32,
    pub error_selector: u32,
    pub data_offset: u32,
    pub data_selector: u32,
}

/// The registers of a 32-bit thread running under WOW64.
#[derive(Debug, Clone, Copy, PartialEq, Eq, Structural)]
pub struct Context32 {
    pub eax: u32,
    pub ebx: u32,
    pub ecx: u32,
    pub edx: u32,
    pub esi: u32,
    pub edi: u32,
    pub ebp: u32,
    pub esp: u32,
    pub eip: u32,
    pub seg_cs: u32,
    pub seg_ds: u32,
    pub seg_es: u32,
    pub seg_fs: u32,
    pub seg_gs: u32,
    pub seg_ss: u32,
    pub eflags: u32,
    pub dr0: u32,
    pub dr1: u32,
    pub dr2: u32,
    pub dr3: u32,
    pub dr6: u32,
    pub dr7: u32,
    pub context_flags: u32,
    pub float_save: FloatSave32,
}

/// The value that a (lowercase) name designates in a 32-bit context, or 0
/// for an unknown name.
pub open spec fn value32_named(ctx: Context32, n: Seq<char>) -> u32 {
    if n == "eax"@ {
        ctx.eax
    } else if n == "ebx"@ {
        ctx.ebx
    } else if n == "ecx"@ {
        ctx.ecx
    } else if n == "edx"@ {
        ctx.edx
    } else if n == "esi"@ {
        ctx.esi
    } else if n == "edi"@ {
        ctx.edi
    } else if n == "ebp"@ {
        ctx.ebp
    } else if n == "esp"@ {
        ctx.esp
    } else if n == "eip"@ {
        ctx.eip
    } else if n == "cs"@ {
        ctx.seg_cs
    } else if n == "segcs"@ {
        ctx.seg_cs
    } else if n == "ds"@ {
        ctx.seg_ds
    } else if n == "segds"@ {
        ctx.seg_ds
    } else if n == "es"@ {
        ctx.seg_es
    } else if n == "seges"@ {
        ctx.seg_es
    } else if n == "fs"@ {
        ctx.seg_fs
    } else if n == "segfs"@ {
        ctx.seg_fs
    } else if n == "gs"@ || n == "seggs"@ {
        ctx.seg_gs
    } else if n == "ss"@ || n == "segss"@ {
        ctx.seg_ss
    } else if n == "flag"@ || n == "eflag"@ {
        ctx.eflags
    } else if n == "ctrl-word"@ {
        ctx.float_save.control_word
    } else if n == "control-word"@ {
        ctx.float_save.control_word
    } else if n == "status-word"@ {
        ctx.float_save.status_word
    } else if n == "tag-word"@ {
        ctx.float_save.tag_word
    } else if n == "err-offset"@ {
        ctx.float_save.error_offset
    } else if n == "error-offset"@ {
        ctx.float_save.error_offset
    } else if n == "err-select"@ {
        ctx.float_save.error_selector
    } else if n == "error-select"@ || n == "error-selector"@ {
        ctx.float_save.error_selector
    } else if n == "data-offset"@ {
        ctx.float_save.data_offset
    } else if n == "data-select"@ || n == "data-selector"@ {
        ctx.float_save.data_selector
    } else {
        0
    }
}

/// Law: reading a register of a 32-bit context by name reads the field the
/// name designates: the general registers and `eip` by their names, the
/// segment registers as `cs` or `segcs` and so on, the flags as `flag` or
/// `eflag`, and the words of the floating-point state (control, status and
/// tag words, error and data offsets and selectors) by their names.
#[verifier::rlimit(80)]
pub proof fn lemma_register32_names(ctx: Context32)
    ensures
        value32_named(ctx, "eax"@) == ctx.eax,
        value32_named(ctx, "ebx"@) == ctx.ebx,
        value32_named(ctx, "ecx"@) == ctx.ecx,
        value32_named(ctx, "edx"@) == ctx.edx,
        value32_named(ctx, "esi"@) == ctx.esi,
        value32_named(ctx, "edi"@) == ctx.edi,
        value32_named(ctx, "ebp"@) == ctx.ebp,
        value32_named(ctx, "esp"@) == ctx.esp,
        value32_named(ctx, "eip"@) == ctx.eip,
        value32_named(ctx, "cs"@) == ctx.seg_cs,
        value32_named(ctx, "segcs"@) == ctx.seg_cs,
        value32_named(ctx, "ds"@) == ctx.seg_ds,
        value32_named(ctx, "segds"@) == ctx.seg_ds,
        value32_named(ctx, "es"@) == ctx.seg_es,
        value32_named(ctx, "seges"@) == ctx.seg_es,
        value32_named(ctx, "fs"@) == ctx.seg_fs,
        value32_named(ctx, "segfs"@) == ctx.seg_fs,
        value32_named(ctx, "gs"@) == ctx.seg_gs,
        value32_named(ctx, "seggs"@) == ctx.seg_gs,
        value32_named(ctx, "ss"@) == ctx.seg_ss,
        value32_named(ctx, "segss"@) == ctx.seg_ss,
        value32_named(ctx, "flag"@) == ctx.eflags,
        value32_named(ctx, "eflag"@) == ctx.eflags,
        value32_named(ctx, "ctrl-word"@) == ctx.float_save.control_word,
        value32_named(ctx, "control-word"@) == ctx.float_save.control_word,
        value32_named(ctx, "status-word"@) == ctx.float_save.status_word,
        value32_named(ctx, "tag-word"@) == ctx.float_save.tag_word,
        value32_named(ctx, "err-offset"@) == ctx.float_save.error_offset,
        value32_named(ctx, "error-offset"@) == ctx.float_save.error_offset,
        value32_named(ctx, "err-select"@) == ctx.float_save.error_selector,
        value32_named(ctx, "error-select"@) == ctx.float_save.error_selector,
        value32_named(ctx, "error-selector"@) == ctx.float_save.error_selector,
        value32_named(ctx, "data-offset"@) == ctx.float_save.data_offset,
        value32_named(ctx, "data-select"@) == ctx.float_save.data_selector,
        value32_named(ctx, "data-selector"@) == ctx.float_save.data_selector,
{
    reveal_strlit("eax");
    assert("eax"@.len() == 3);
    reveal_strlit("ebx");
    assert("ebx"@.len() == 3);
    reveal_strlit("ecx");
    assert("ecx"@.len() == 3);
    reveal_strlit("edx");
    assert("edx"@.len() == 3);
    reveal_strlit("esi");
    assert("esi"@.len() == 3);
    reveal_strlit("edi");
    assert("edi"@.len() == 3);
    reveal_strlit("ebp");
    assert("ebp"@.len() == 3);
    reveal_strlit("esp");
    assert("esp"@.len() == 3);
    reveal_strlit("eip");
    assert("eip"@.len() == 3);
    reveal_strlit("cs");
    assert("cs"@.len() == 2);
    reveal_strlit("segcs");
    assert("segcs"@.len() == 5);
    reveal_strlit("ds");
    assert("ds"@.len() == 2);
    reveal_strlit("segds");
    assert("segds"@.len() == 5);
    reveal_strlit("es");
    assert("es"@.len() == 2);
    reveal_strlit("seges");
    assert("seges"@.len() == 5);
    reveal_strlit("fs");
    assert("fs"@.len() == 2);
    reveal_strlit("segfs");
    assert("segfs"@.len() == 5);
    reveal_strlit("gs");
    assert("gs"@.len() == 2);
    reveal_strlit("seggs");
    assert("seggs"@.len() == 5);
    reveal_strlit("ss");
    assert("ss"@.len() == 2);
    reveal_strlit("segss");
    assert("segss"@.len() == 5);
    reveal_strlit("flag");
    assert("flag"@.len() == 4);
    reveal_strlit("eflag");
    assert("eflag"@.len() == 5);
    reveal_strlit("ctrl-word");
    assert("ctrl-word"@.len() == 9);
    reveal_strlit("control-word");
    assert("control-word"@.len() == 12);
    reveal_strlit("status-word");
    assert("status-word"@.len() == 11);
    reveal_strlit("tag-word");
    assert("tag-word"@.len() == 8);
    reveal_strlit("err-offset");
    assert("err-offset"@.len() == 10);
    reveal_strlit("error-offset");
    assert("error-offset"@.len() == 12);
    reveal_strlit("err-select");
    assert("err-select"@.len() == 10);
    reveal_strlit("error-select");
    assert("error-select"@.len() == 12);
    reveal_strlit("error-selector");
    assert("error-selector"@.len() == 14);
    reveal_strlit("data-offset");
    assert("data-offset"@.len() == 11);
    reveal_strlit("data-select");
    assert("data-select"@.len() == 11);
    reveal_strlit("data-selector");
    assert("data-selector"@.len() == 13);
    assert("ebx"@[1] != "eax"@[1]);
    assert("ecx"@[1] != "eax"@[1]);
    assert("ecx"@[1] != "ebx"@[1]);
    assert("edx"@[1] != "eax"@[1]);
    assert("edx"@[1] != "ebx"@[1]);
    assert("edx"@[1] != "ecx"@[1]);
    assert("esi"@[1] != "eax"@[1]);
    assert("esi"@[1] != "ebx"@[1]);
    assert("esi"@[1] != "ecx"@[1]);
    assert("esi"@[1] != "edx"@[1]);
    assert("edi"@[1] != "eax"@[1]);
    assert("edi"@[1] != "ebx"@[1]);
    assert("edi"@[1] != "ecx"@[1]);
    assert("edi"@[2] != "edx"@[2]);
    assert("edi"@[1] != "esi"@[1]);
    assert("ebp"@[1] != "eax"@[1]);
    assert("ebp"@[2] != "ebx"@[2]);
    assert("ebp"@[1] != "ecx"@[1]);
    assert("ebp"@[1] != "edx"@[1]);
    assert("ebp"@[1] != "esi"@[1]);
    assert("ebp"@[1] != "edi"@[1]);
    assert("esp"@[1] != "eax"@[1]);
    assert("esp"@[1] != "ebx"@[1]);
    assert("esp"@[1] != "ecx"@[1]);
    assert("esp"@[1] != "edx"@[1]);
    assert("esp"@[2] != "esi"@[2]);
    assert("esp"@[1] != "edi"@[1]);
    assert("esp"@[1] != "ebp"@[1]);
    assert("eip"@[1] != "eax"@[1]);
    assert("eip"@[1] != "ebx"@[1]);
    assert("eip"@[1] != "ecx"@[1]);
    assert("eip"@[1] != "edx"@[1]);
    assert("eip"@[1] != "esi"@[1]);
    assert("eip"@[1] != "edi"@[1]);
    assert("eip"@[1] != "ebp"@[1]);
    assert("eip"@[1] != "esp"@[1]);
    assert("ds"@[0] != "cs"@[0]);
    assert("segds"@[3] != "segcs"@[3]);
    assert("es"@[0] != "cs"@[0]);
    assert("es"@[0] != "ds"@[0]);
    assert("seges"@[3] != "segcs"@[3]);
    assert("seges"@[3] != "segds"@[3]);
    assert("fs"@[0] != "cs"@[0]);
    assert("fs"@[0] != "ds"@[0]);
    assert("fs"@[0] != "es"@[0]);
    assert("segfs"@[3] != "segcs"@[3]);
    assert("segfs"@[3] != "segds"@[3]);
    assert("segfs"@[3] != "seges"@[3]);
    assert("gs"@[0] != "cs"@[0]);
    assert("gs"@[0] != "ds"@[0]);
    assert("gs"@[0] != "es"@[0]);
    assert("gs"@[0] != "fs"@[0]);
    assert("seggs"@[3] != "segcs"@[3]);
    assert("seggs"@[3] != "segds"@[3]);
    assert("seggs"@[3] != "seges"@[3]);
    assert("seggs"@[3] != "segfs"@[3]);
    assert("ss"@[0] != "cs"@[0]);
    assert("ss"@[0] != "ds"@[0]);
    assert("ss"@[0] != "es"@[0]);
    assert("ss"@[0] != "fs"@[0]);
    assert("ss"@[0] != "gs"@[0]);
    assert("segss"@[3] != "segcs"@[3]);
    assert("segss"@[3] != "segds"@[3]);
    assert("segss"@[3] != "seges"@[3]);
    assert("segss"@[3] != "segfs"@[3]);
    assert("segss"@[3] != "seggs"@[3]);
    assert("eflag"@[0] != "segcs"@[0]);
    assert("eflag"@[0] != "segds"@[0]);
    assert("eflag"@[0] != "seges"@[0]);
    assert("eflag"@[0] != "segfs"@[0]);
    assert("eflag"@[0] != "seggs"@[0]);
    assert("eflag"@[0] != "segss"@[0]);
    assert("error-offset"@[0] != "control-word"@[0]);
    assert("err-select"@[4] != "err-offset"@[4]);
    assert("error-select"@[0] != "control-word"@[0]);
    assert("error-select"@[6] != "error-offset"@[6]);
    assert("data-offset"@[0] != "status-word"@[0]);
    assert("data-select"@[0] != "status-word"@[0]);
    assert("data-select"@[5] != "data-offset"@[5]);
}

fn value32_from_name(ctx: &Context32, n: &Vec<char>) -> (r: u32)
    ensures
        r == value32_named(*ctx, n@),
{
    if chars_eq_str(n, "eax") {
        ctx.eax
    } else if chars_eq_str(n, "ebx") {
        ctx.ebx
    } else if chars_eq_str(n, "ecx") {
        ctx.ecx
    } else if chars_eq_str(n, "edx") {
        ctx.edx
    } else if chars_eq_str(n, "esi") {
        ctx.esi
    } else if chars_eq_str(n, "edi") {
        ctx.edi
    } else if chars_eq_str(n, "ebp") {
        ctx.ebp
    } else if chars_eq_str(n, "esp") {
        ctx.esp
    } else if chars_eq_str(n, "eip") {
        ctx.eip
    } else if chars_eq_str(n, "cs") {
        ctx.seg_cs
    } else if chars_eq_str(n, "segcs") {
        ctx.seg_cs
    } else if chars_eq_str(n, "ds") {
        ctx.seg_ds
    } else if chars_eq_str(n, "segds") {
        ctx.seg_ds
    } else if chars_eq_str(n, "es") {
        ctx.seg_es
    } else if chars_eq_str(n, "seges") {
        ctx.seg_es
    } else if chars_eq_str(n, "fs") {
        ctx.seg_fs
    } else if chars_eq_str(n, "segfs") {
        ctx.seg_fs
    } else if chars_eq_str(n, "gs") || chars_eq_str(n, "seggs") {
        ctx.seg_gs
    } else if chars_eq_str(n, "ss") || chars_eq_str(n, "segss") {
        ctx.seg_ss
    } else if chars_eq_str(n, "flag") || chars_eq_str(n, "eflag") {
        ctx.eflags
    } else if chars_eq_str(n, "ctrl-word") {
        ctx.float_save.control_word
    } else if chars_eq_str(n, "control-word") {
        ctx.float_save.control_word
    } else if chars_eq_str(n, "status-word") {
        ctx.float_save.status_word
    } else if chars_eq_str(n, "tag-word") {
        ctx.float_save.tag_word
    } else if chars_eq_str(n, "err-offset") {
        ctx.float_save.error_offset
    } else if chars_eq_str(n, "error-offset") {
        ctx.float_save.error_offset
    } else if chars_eq_str(n, "err-select") {
        ctx.float_save.error_selector
    } else if chars_eq_str(n, "error-select") || chars_eq_str(n, "error-selector") {
        ctx.float_save.error_selector
    } else if chars_eq_str(n, "data-offset") {
        ctx.float_save.data_offset
    } else if chars_eq_str(n, "data-select") || chars_eq_str(n, "data-selector") {
        ctx.float_save.data_selector
    } else {
        0
    }
}

/// Reading a 32-bit register by name.
pub trait ToValue32 {
    fn str_to_ctx(self, target: &str) -> u32;
}

impl ToValue32 for Context32 {
    /// The value of the register named `target`, compared without case, or 0
    /// for an unknown name.
    fn str_to_ctx(self, target: &str) -> (r: u32)
        ensures
            r == value32_named(self, lower_seq(target@)),
    {
        let t = chars_of(target);
        let l = lowercase(&t);
        value32_from_name(&self, &l)
    }
}

/// The value of one of the nine general 32-bit registers named exactly
/// `reg`, or 0.
pub open spec fn gpr32_value(ctx: Context32, reg: Seq<char>) -> u32 {
    if reg == "eax"@ {
        ctx.eax
    } else if reg == "ebx"@ {
        ctx.ebx
    } else if reg == "ecx"@ {
        ctx.ecx
    } else if reg == "edx"@ {
        ctx.edx
    } else if reg == "esi"@ {
        ctx.esi
    } else if reg == "edi"@ {
        ctx.edi
    } else if reg == "ebp"@ {
        ctx.ebp
    } else if reg == "esp"@ {
        ctx.esp
    } else if reg == "eip"@ {
        ctx.eip
    } else {
        0
    }
}

/// Law: each general register name of a 32-bit context reads the field it names: `eax`
/// gives `ctx.eax`; `ebx` gives `ctx.ebx`; `ecx` gives `ctx.ecx`; `edx` gives `ctx.edx`;
/// `esi` gives `ctx.esi`; `edi` gives `ctx.edi`; `ebp` gives `ctx.ebp`; `esp` gives
/// `ctx.esp`; `eip` gives `ctx.eip`.
pub proof fn lemma_gpr32_names(ctx: Context32)
    ensures
        gpr32_value(ctx, "eax"@) == ctx.eax,
        gpr32_value(ctx, "ebx"@) == ctx.ebx,
        gpr32_value(ctx, "ecx"@) == ctx.ecx,
        gpr32_value(ctx, "edx"@) == ctx.edx,
        gpr32_value(ctx, "esi"@) == ctx.esi,
        gpr32_value(ctx, "edi"@) == ctx.edi,
        gpr32_value(ctx, "ebp"@) == ctx.ebp,
        gpr32_value(ctx, "esp"@) == ctx.esp,
        gpr32_value(ctx, "eip"@) == ctx.eip,
{
    reveal_strlit("eax");
    assert("eax"@.len() == 3);
    reveal_strlit("ebx");
    assert("ebx"@.len() == 3);
    reveal_strlit("ecx");
    assert("ecx"@.len() == 3);
    reveal_strlit("edx");
    assert("edx"@.len() == 3);
    reveal_strlit("esi");
    assert("esi"@.len() == 3);
    reveal_strlit("edi");
    assert("edi"@.len() == 3);
    reveal_strlit("ebp");
    assert("ebp"@.len() == 3);
    reveal_strlit("esp");
    assert("esp"@.len() == 3);
    reveal_strlit("eip");
    assert("eip"@.len() == 3);
    assert("ebx"@[1] != "eax"@[1]);
    assert("ecx"@[1] != "eax"@[1]);
    assert("ecx"@[1] != "ebx"@[1]);
    assert("edx"@[1] != "eax"@[1]);
    assert("edx"@[1] != "ebx"@[1]);
    assert("edx"@[1] != "ecx"@[1]);
    assert("esi"@[1] != "eax"@[1]);
    assert("esi"@[1] != "ebx"@[1]);
    assert("esi"@[1] != "ecx"@[1]);
    assert("esi"@[1] != "edx"@[1]);
    assert("edi"@[1] != "eax"@[1]);
    assert("edi"@[1] != "ebx"@[1]);
    assert("edi"@[1] != "ecx"@[1]);
    assert("edi"@[2] != "edx"@[2]);
    assert("edi"@[1] != "esi"@[1]);
    assert("ebp"@[1] != "eax"@[1]);
    assert("ebp"@[2] != "ebx"@[2]);
    assert("ebp"@[1] != "ecx"@[1]);
    assert("ebp"@[1] != "edx"@[1]);
    assert("ebp"@[1] != "esi"@[1]);
    assert("ebp"@[1] != "edi"@[1]);
    assert("esp"@[1] != "eax"@[1]);
    assert("esp"@[1] != "ebx"@[1]);
    assert("esp"@[1] != "ecx"@[1]);
    assert("esp"@[1] != "edx"@[1]);
    assert("esp"@[2] != "esi"@[2]);
    assert("esp"@[1] != "edi"@[1]);
    assert("esp"@[1] != "ebp"@[1]);
    assert("eip"@[1] != "eax"@[1]);
    assert("eip"@[1] != "ebx"@[1]);
    assert("eip"@[1] != "ecx"@[1]);
    assert("eip"@[1] != "edx"@[1]);
    assert("eip"@[1] != "esi"@[1]);
    assert("eip"@[1] != "edi"@[1]);
    assert("eip"@[1] != "ebp"@[1]);
    assert("eip"@[1] != "esp"@[1]);
}


/// The value of the general 32-bit register named `reg`, or 0.
pub fn reg32_to_value(reg: &str, ctx: &Context32) -> (r: u32)
    ensures
        r == gpr32_value(*ctx, reg@),
{
    let n = chars_of(reg);
    if chars_eq_str(&n, "eax") {
        ctx.eax
    } else if chars_eq_str(&n, "ebx") {
        ctx.ebx
    } else if chars_eq_str(&n, "ecx") {
        ctx.ecx
    } else if chars_eq_str(&n, "edx") {
        ctx.edx
    } else if chars_eq_str(&n, "esi") {
        ctx.esi
    } else if chars_eq_str(&n, "edi") {
        ctx.edi
    } else if chars_eq_str(&n, "ebp") {
        ctx.ebp
    } else if chars_eq_str(&n, "esp") {
        ctx.esp
    } else if chars_eq_str(&n, "eip") {
        ctx.eip
    } else {
        0
    }
}

/// `ctx` with the register named `n` set to `v`, when a register has that
/// name for writing.
pub open spec fn set32_named(ctx: Context32, n: Seq<char>, v: u32) -> Option<Context32> {
    if n == "eax"@ {
        Some(Context32 { eax: v, ..ctx })
    } else if n == "ebx"@ {
        Some(Context32 { ebx: v, ..ctx })
    } else if n == "ecx"@ {
        Some(Context32 { ecx: v, ..ctx })
    } else if n == "edx"@ {
        Some(Context32 { edx: v, ..ctx })
    } else if n == "esi"@ {
        Some(Context32 { esi: v, ..ctx })
    } else if n == "edi"@ {
        Some(Context32 { edi: v, ..ctx })
    } else if n == "ebp"@ {
        Some(Context32 { ebp: v, ..ctx })
    } else if n == "esp"@ {
        Some(Context32 { esp: v, ..ctx })
    } else if n == "eip"@ {
        Some(Context32 { eip: v, ..ctx })
    } else if n == "flag"@ {
        Some(Context32 { eflags: v, ..ctx })
    } else if n == "eflag"@ {
        Some(Context32 { eflags: v, ..ctx })
    } else if n == "cs"@ {
        Some(Context32 { seg_cs: v, ..ctx })
    } else if n == "ds"@ {
        Some(Context32 { seg_ds: v, ..ctx })
    } else if n == "es"@ {
        Some(Context32 { seg_es: v, ..ctx })
    } else if n == "fs"@ {
        Some(Context32 { seg_fs: v, ..ctx })
    } else if n == "gs"@ {
        Some(Context32 { seg_gs: v, ..ctx })
    } else if n == "ss"@ {
        Some(Context32 { seg_ss: v, ..ctx })
    } else {
        None
    }
}

/// Law: setting a register of a 32-bit context by name writes `v` into the
/// field the name designates and leaves every other field as it was: the
/// general registers and `eip` by their names, the flags as `flag` or
/// `eflag`, the segment registers as `cs`, `ds`, `es`, `fs`, `gs`, `ss`.
pub proof fn lemma_set32_names(ctx: Context32, v: u32)
    ensures
        set32_named(ctx, "eax"@, v) == Some(Context32 { eax: v, ..ctx }),
        set32_named(ctx, "ebx"@, v) == Some(Context32 { ebx: v, ..ctx }),
        set32_named(ctx, "ecx"@, v) == Some(Context32 { ecx: v, ..ctx }),
        set32_named(ctx, "edx"@, v) == Some(Context32 { edx: v, ..ctx }),
        set32_named(ctx, "esi"@, v) == Some(Context32 { esi: v, ..ctx }),
        set32_named(ctx, "edi"@, v) == Some(Context32 { edi: v, ..ctx }),
        set32_named(ctx, "ebp"@, v) == Some(Context32 { ebp: v, ..ctx }),
        set32_named(ctx, "esp"@, v) == Some(Context32 { esp: v, ..ctx }),
        set32_named(ctx, "eip"@, v) == Some(Context32 { eip: v, ..ctx }),
        set32_named(ctx, "flag"@, v) == Some(Context32 { eflags: v, ..ctx }),
        set32_named(ctx, "eflag"@, v) == Some(Context32 { eflags: v, ..ctx }),
        set32_named(ctx, "cs"@, v) == Some(Context32 { seg_cs: v, ..ctx }),
        set32_named(ctx, "ds"@, v) == Some(Context32 { seg_ds: v, ..ctx }),
        set32_named(ctx, "es"@, v) == Some(Context32 { seg_es: v, ..ctx }),
        set32_named(ctx, "fs"@, v) == Some(Context32 { seg_fs: v, ..ctx }),
        set32_named(ctx, "gs"@, v) == Some(Context32 { seg_gs: v, ..ctx }),
        set32_named(ctx, "ss"@, v) == Some(Context32 { seg_ss: v, ..ctx }),
{
    reveal_strlit("eax");
    assert("eax"@.len() == 3);
    reveal_strlit("ebx");
    assert("ebx"@.len() == 3);
    reveal_strlit("ecx");
    assert("ecx"@.len() == 3);
    reveal_strlit("edx");
    assert("edx"@.len() == 3);
    reveal_strlit("esi");
    assert("esi"@.len() == 3);
    reveal_strlit("edi");
    assert("edi"@.len() == 3);
    reveal_strlit("ebp");
    assert("ebp"@.len() == 3);
    reveal_strlit("esp");
    assert("esp"@.len() == 3);
    reveal_strlit("eip");
    assert("eip"@.len() == 3);
    reveal_strlit("flag");
    assert("flag"@.len() == 4);
    reveal_strlit("eflag");
    assert("eflag"@.len() == 5);
    reveal_strlit("cs");
    assert("cs"@.len() == 2);
    reveal_strlit("ds");
    assert("ds"@.len() == 2);
    reveal_strlit("es");
    assert("es"@.len() == 2);
    reveal_strlit("fs");
    assert("fs"@.len() == 2);
    reveal_strlit("gs");
    assert("gs"@.len() == 2);
    reveal_strlit("ss");
    assert("ss"@.len() == 2);
    assert("ebx"@[1] != "eax"@[1]);
    assert("ecx"@[1] != "eax"@[1]);
    assert("ecx"@[1] != "ebx"@[1]);
    assert("edx"@[1] != "eax"@[1]);
    assert("edx"@[1] != "ebx"@[1]);
    assert("edx"@[1] != "ecx"@[1]);
    assert("esi"@[1] != "eax"@[1]);
    assert("esi"@[1] != "ebx"@[1]);
    assert("esi"@[1] != "ecx"@[1]);
    assert("esi"@[1] != "edx"@[1]);
    assert("edi"@[1] != "eax"@[1]);
    assert("edi"@[1] != "ebx"@[1]);
    assert("edi"@[1] != "ecx"@[1]);
    assert("edi"@[2] != "edx"@[2]);
    assert("edi"@[1] != "esi"@[1]);
    assert("ebp"@[1] != "eax"@[1]);
    assert("ebp"@[2] != "ebx"@[2]);
    assert("ebp"@[1] != "ecx"@[1]);
    assert("ebp"@[1] != "edx"@[1]);
    assert("ebp"@[1] != "esi"@[1]);
    assert("ebp"@[1] != "edi"@[1]);
    assert("esp"@[1] != "eax"@[1]);
    assert("esp"@[1] != "ebx"@[1]);
    assert("esp"@[1] != "ecx"@[1]);
    assert("esp"@[1] != "edx"@[1]);
    assert("esp"@[2] != "esi"@[2]);
    assert("esp"@[1] != "edi"@[1]);
    assert("esp"@[1] != "ebp"@[1]);
    assert("eip"@[1] != "eax"@[1]);
    assert("eip"@[1] != "ebx"@[1]);
    assert("eip"@[1] != "ecx"@[1]);
    assert("eip"@[1] != "edx"@[1]);
    assert("eip"@[1] != "esi"@[1]);
    assert("eip"@[1] != "edi"@[1]);
    assert("eip"@[1] != "ebp"@[1]);
    assert("eip"@[1] != "esp"@[1]);
    assert("ds"@[0] != "cs"@[0]);
    assert("es"@[0] != "cs"@[0]);
    assert("es"@[0] != "ds"@[0]);
    assert("fs"@[0] != "cs"@[0]);
    assert("fs"@[0] != "ds"@[0]);
    assert("fs"@[0] != "es"@[0]);
    assert("gs"@[0] != "cs"@[0]);
    assert("gs"@[0] != "ds"@[0]);
    assert("gs"@[0] != "es"@[0]);
    assert("gs"@[0] != "fs"@[0]);
    assert("ss"@[0] != "cs"@[0]);
    assert("ss"@[0] != "ds"@[0]);
    assert("ss"@[0] != "es"@[0]);
    assert("ss"@[0] != "fs"@[0]);
    assert("ss"@[0] != "gs"@[0]);
}


/// Sets the register named `linev[1]` of a 32-bit context to the value
/// written in `linev[2]`.
pub fn handle_set_register(linev: &[&str], ctx: &mut Context32) -> (r: Result<(), SetRegError>)
    ensures
        linev@.len() < 3 ==> r == Err::<(), SetRegError>(SetRegError::Usage) && *final(ctx)
            == *old(ctx),
        linev@.len() >= 3 ==> match crate::number::str_to_spec(linev@[2]@, crate::number::IntKind::U32) {
            Err(e) => r == Err::<(), SetRegError>(SetRegError::BadValue(e)) && *final(ctx)
                == *old(ctx),
            Ok(v) => match set32_named(*old(ctx), linev@[1]@, v as u32) {
                None => r == Err::<(), SetRegError>(SetRegError::UnknownRegister) && *final(ctx)
                    == *old(ctx),
                Some(c) => r == Ok::<(), SetRegError>(()) && *final(ctx) == c,
            },
        },
{
    if linev.len() < 3 {
        return Err(SetRegError::Usage);
    }
    let value = match str_to_u32(linev[2]) {
        Ok(v) => v,
        Err(e) => {
            return Err(SetRegError::BadValue(e));
        },
    };
    let n = chars_of(linev[1]);
    if chars_eq_str(&n, "eax") {
        set_reg32(&mut ctx.eax, value);
    } else if chars_eq_str(&n, "ebx") {
        set_reg32(&mut ctx.ebx, value);
    } else if chars_eq_str(&n, "ecx") {
        set_reg32(&mut ctx.ecx, value);
    } else if chars_eq_str(&n, "edx") {
        set_reg32(&mut ctx.edx, value);
    } else if chars_eq_str(&n, "esi") {
        set_reg32(&mut ctx.esi, value);
    } else if chars_eq_str(&n, "edi") {
        set_reg32(&mut ctx.edi, value);
    } else if chars_eq_str(&n, "ebp") {
        set_reg32(&mut ctx.ebp, value);
    } else if chars_eq_str(&n, "esp") {
        set_reg32(&mut ctx.esp, value);
    } else if chars_eq_str(&n, "eip") {
        set_reg32(&mut ctx.eip, value);
    } else if chars_eq_str(&n, "flag") {
        set_reg32(&mut ctx.eflags, value);
    } else if chars_eq_str(&n, "eflag") {
        set_reg32(&mut ctx.eflags, value);
    } else if chars_eq_str(&n, "cs") {
        set_reg32(&mut ctx.seg_cs, value);
    } else if chars_eq_str(&n, "ds") {
        set_reg32(&mut ctx.seg_ds, value);
    } else if chars_eq_str(&n, "es") {
        set_reg32(&mut ctx.seg_es, value);
    } else if chars_eq_str(&n, "fs") {
        set_reg32(&mut ctx.seg_fs, value);
    } else if chars_eq_str(&n, "gs") {
        set_reg32(&mut ctx.seg_gs, value);
    } else if chars_eq_str(&n, "ss") {
        set_reg32(&mut ctx.seg_ss, value);
    } else {
        return Err(SetRegError::UnknownRegister);
    }
    Ok(())
}

/// Writes `value` into a 32-bit register.
pub fn set_reg32(reg: &mut u32, value: u32)
    ensures
        *final(reg) == value,
{
    *reg = value;
}

/// The 64-bit view of a 32-bit context: the general and debug registers
/// widened, the context flags kept, everything else zero.
pub open spec fn widened(w: Context32) -> Context64 {
    Context64 {
        rax: w.eax as u64,
        rbx: w.ebx as u64,
        rcx: w.ecx as u64,
        rdx: w.edx as u64,
        rsi: w.esi as u64,
        rdi: w.edi as u64,
        rsp: w.esp as u64,
        rbp: w.ebp as u64,
        rip: w.eip as u64,
        dr0: w.dr0 as u64,
        dr1: w.dr1 as u64,
        dr2: w.dr2 as u64,
        dr3: w.dr3 as u64,
        dr6: w.dr6 as u64,
        dr7: w.dr7 as u64,
        context_flags: w.context_flags,
        ..zero_context()
    }
}

/// The 64-bit view of a 32-bit context (see `widened`).
pub fn wow64_context_to_context(wow64_ctx: &Context32) -> (c: Context64)
    ensures
        c == widened(*wow64_ctx),
{
    let mut ctx = Context64::zeroed();
    ctx.rax = wow64_ctx.eax as u64;
    ctx.rbx = wow64_ctx.ebx as u64;
    ctx.rcx = wow64_ctx.ecx as u64;
    ctx.rdx = wow64_ctx.edx as u64;
    ctx.rsi = wow64_ctx.esi as u64;
    ctx.rdi = wow64_ctx.edi as u64;
    ctx.rsp = wow64_ctx.esp as u64;
    ctx.rbp = wow64_ctx.ebp as u64;
    ctx.rip = wow64_ctx.eip as u64;
    ctx.dr0 = wow64_ctx.dr0 as u64;
    ctx.dr1 = wow64_ctx.dr1 as u64;
    ctx.dr2 = wow64_ctx.dr2 as u64;
    ctx.dr3 = wow64_ctx.dr3 as u64;
    ctx.dr6 = wow64_ctx.dr6 as u64;
    ctx.dr7 = wow64_ctx.dr7 as u64;
    ctx.context_flags = wow64_ctx.context_flags;
    ctx
}


/// Law: reading a register by name reads the field of the context that the
/// name designates: the general registers, `rip` and the vector registers
/// `xmm0` to `xmm15` by their own names, the segment registers as `segcs` or
/// `cs` and so on, the flags register as `eflags`, `flags` or `flag`, the
/// control and status register of the vector unit as `mxcsr`, and the last
/// branch source and target as `lbfrip` and `lbtrip`.
#[verifier::rlimit(80)]
pub proof fn lemma_register_names(ctx: Context64)
    ensures
        value_named(ctx, "rax"@) == Value::U64(ctx.rax),
        value_named(ctx, "rbx"@) == Value::U64(ctx.rbx),
        value_named(ctx, "rcx"@) == Value::U64(ctx.rcx),
        value_named(ctx, "rdx"@) == Value::U64(ctx.rdx),
        value_named(ctx, "rsi"@) == Value::U64(ctx.rsi),
        value_named(ctx, "rdi"@) == Value::U64(ctx.rdi),
        value_named(ctx, "rbp"@) == Value::U64(ctx.rbp),
        value_named(ctx, "rsp"@) == Value::U64(ctx.rsp),
        value_named(ctx, "rip"@) == Value::U64(ctx.rip),
        value_named(ctx, "r8"@) == Value::U64(ctx.r8),
        value_named(ctx, "r9"@) == Value::U64(ctx.r9),
        value_named(ctx, "r10"@) == Value::U64(ctx.r10),
        value_named(ctx, "r11"@) == Value::U64(ctx.r11),
        value_named(ctx, "r12"@) == Value::U64(ctx.r12),
        value_named(ctx, "r13"@) == Value::U64(ctx.r13),
        value_named(ctx, "r14"@) == Value::U64(ctx.r14),
        value_named(ctx, "r15"@) == Value::U64(ctx.r15),
        value_named(ctx, "segcs"@) == Value::U64(ctx.seg_cs as u64),
        value_named(ctx, "cs"@) == Value::U64(ctx.seg_cs as u64),
        value_named(ctx, "segds"@) == Value::U64(ctx.seg_ds as u64),
        value_named(ctx, "ds"@) == Value::U64(ctx.seg_ds as u64),
        value_named(ctx, "seges"@) == Value::U64(ctx.seg_es as u64),
        value_named(ctx, "es"@) == Value::U64(ctx.seg_es as u64),
        value_named(ctx, "segfs"@) == Value::U64(ctx.seg_fs as u64),
        value_named(ctx, "fs"@) == Value::U64(ctx.seg_fs as u64),
        value_named(ctx, "seggs"@) == Value::U64(ctx.seg_gs as u64),
        value_named(ctx, "gs"@) == Value::U64(ctx.seg_gs as u64),
        value_named(ctx, "segss"@) == Value::U64(ctx.seg_ss as u64),
        value_named(ctx, "ss"@) == Value::U64(ctx.seg_ss as u64),
        value_named(ctx, "eflags"@) == Value::U64(ctx.eflags as u64),
        value_named(ctx, "flags"@) == Value::U64(ctx.eflags as u64),
        value_named(ctx, "flag"@) == Value::U64(ctx.eflags as u64),
        value_named(ctx, "xmm0"@) == Value::U128(ctx.xmm0),
        value_named(ctx, "xmm1"@) == Value::U128(ctx.xmm1),
        value_named(ctx, "xmm2"@) == Value::U128(ctx.xmm2),
        value_named(ctx, "xmm3"@) == Value::U128(ctx.xmm3),
        value_named(ctx, "xmm4"@) == Value::U128(ctx.xmm4),
        value_named(ctx, "xmm5"@) == Value::U128(ctx.xmm5),
        value_named(ctx, "xmm6"@) == Value::U128(ctx.xmm6),
        value_named(ctx, "xmm7"@) == Value::U128(ctx.xmm7),
        value_named(ctx, "xmm8"@) == Value::U128(ctx.xmm8),
        value_named(ctx, "xmm9"@) == Value::U128(ctx.xmm9),
        value_named(ctx, "xmm10"@) == Value::U128(ctx.xmm10),
        value_named(ctx, "xmm11"@) == Value::U128(ctx.xmm11),
        value_named(ctx, "xmm12"@) == Value::U128(ctx.xmm12),
        value_named(ctx, "xmm13"@) == Value::U128(ctx.xmm13),
        value_named(ctx, "xmm14"@) == Value::U128(ctx.xmm14),
        value_named(ctx, "xmm15"@) == Value::U128(ctx.xmm15),
        value_named(ctx, "mxcsr"@) == Value::U64(ctx.mxcsr as u64),
        value_named(ctx, "lbfrip"@) == Value::U64(ctx.last_branch_from_rip),
        value_named(ctx, "lbtrip"@) == Value::U64(ctx.last_branch_to_rip),
{
    reveal_strlit("rax");
    assert("rax"@.len() == 3);
    assert(lower_seq("rax"@) =~= "rax"@);
    reveal_strlit("rbx");
    assert("rbx"@.len() == 3);
    assert(lower_seq("rbx"@) =~= "rbx"@);
    reveal_strlit("rcx");
    assert("rcx"@.len() == 3);
    assert(lower_seq("rcx"@) =~= "rcx"@);
    reveal_strlit("rdx");
    assert("rdx"@.len() == 3);
    assert(lower_seq("rdx"@) =~= "rdx"@);
    reveal_strlit("rsi");
    assert("rsi"@.len() == 3);
    assert(lower_seq("rsi"@) =~= "rsi"@);
    reveal_strlit("rdi");
    assert("rdi"@.len() == 3);
    assert(lower_seq("rdi"@) =~= "rdi"@);
    reveal_strlit("rbp");
    assert("rbp"@.len() == 3);
    assert(lower_seq("rbp"@) =~= "rbp"@);
    reveal_strlit("rsp");
    assert("rsp"@.len() == 3);
    assert(lower_seq("rsp"@) =~= "rsp"@);
    reveal_strlit("rip");
    assert("rip"@.len() == 3);
    assert(lower_seq("rip"@) =~= "rip"@);
    reveal_strlit("r8");
    assert("r8"@.len() == 2);
    assert(lower_seq("r8"@) =~= "r8"@);
    reveal_strlit("r9");
    assert("r9"@.len() == 2);
    assert(lower_seq("r9"@) =~= "r9"@);
    reveal_strlit("r10");
    assert("r10"@.len() == 3);
    assert(lower_seq("r10"@) =~= "r10"@);
    reveal_strlit("r11");
    assert("r11"@.len() == 3);
    assert(lower_seq("r11"@) =~= "r11"@);
    reveal_strlit("r12");
    assert("r12"@.len() == 3);
    assert(lower_seq("r12"@) =~= "r12"@);
    reveal_strlit("r13");
    assert("r13"@.len() == 3);
    assert(lower_seq("r13"@) =~= "r13"@);
    reveal_strlit("r14");
    assert("r14"@.len() == 3);
    assert(lower_seq("r14"@) =~= "r14"@);
    reveal_strlit("r15");
    assert("r15"@.len() == 3);
    assert(lower_seq("r15"@) =~= "r15"@);
    reveal_strlit("segcs");
    assert("segcs"@.len() == 5);
    assert(lower_seq("segcs"@) =~= "segcs"@);
    reveal_strlit("cs");
    assert("cs"@.len() == 2);
    assert(lower_seq("cs"@) =~= "cs"@);
    reveal_strlit("segds");
    assert("segds"@.len() == 5);
    assert(lower_seq("segds"@) =~= "segds"@);
    reveal_strlit("ds");
    assert("ds"@.len() == 2);
    assert(lower_seq("ds"@) =~= "ds"@);
    reveal_strlit("seges");
    assert("seges"@.len() == 5);
    assert(lower_seq("seges"@) =~= "seges"@);
    reveal_strlit("es");
    assert("es"@.len() == 2);
    assert(lower_seq("es"@) =~= "es"@);
    reveal_strlit("segfs");
    assert("segfs"@.len() == 5);
    assert(lower_seq("segfs"@) =~= "segfs"@);
    reveal_strlit("fs");
    assert("fs"@.len() == 2);
    assert(lower_seq("fs"@) =~= "fs"@);
    reveal_strlit("seggs");
    assert("seggs"@.len() == 5);
    assert(lower_seq("seggs"@) =~= "seggs"@);
    reveal_strlit("gs");
    assert("gs"@.len() == 2);
    assert(lower_seq("gs"@) =~= "gs"@);
    reveal_strlit("segss");
    assert("segss"@.len() == 5);
    assert(lower_seq("segss"@) =~= "segss"@);
    reveal_strlit("ss");
    assert("ss"@.len() == 2);
    assert(lower_seq("ss"@) =~= "ss"@);
    reveal_strlit("eflags");
    assert("eflags"@.len() == 6);
    assert(lower_seq("eflags"@) =~= "eflags"@);
    reveal_strlit("flags");
    assert("flags"@.len() == 5);
    assert(lower_seq("flags"@) =~= "flags"@);
    reveal_strlit("flag");
    assert("flag"@.len() == 4);
    assert(lower_seq("flag"@) =~= "flag"@);
    reveal_strlit("xmm0");
    assert("xmm0"@.len() == 4);
    assert(lower_seq("xmm0"@) =~= "xmm0"@);
    reveal_strlit("xmm1");
    assert("xmm1"@.len() == 4);
    assert(lower_seq("xmm1"@) =~= "xmm1"@);
    reveal_strlit("xmm2");
    assert("xmm2"@.len() == 4);
    assert(lower_seq("xmm2"@) =~= "xmm2"@);
    reveal_strlit("xmm3");
    assert("xmm3"@.len() == 4);
    assert(lower_seq("xmm3"@) =~= "xmm3"@);
    reveal_strlit("xmm4");
    assert("xmm4"@.len() == 4);
    assert(lower_seq("xmm4"@) =~= "xmm4"@);
    reveal_strlit("xmm5");
    assert("xmm5"@.len() == 4);
    assert(lower_seq("xmm5"@) =~= "xmm5"@);
    reveal_strlit("xmm6");
    assert("xmm6"@.len() == 4);
    assert(lower_seq("xmm6"@) =~= "xmm6"@);
    reveal_strlit("xmm7");
    assert("xmm7"@.len() == 4);
    assert(lower_seq("xmm7"@) =~= "xmm7"@);
    reveal_strlit("xmm8");
    assert("xmm8"@.len() == 4);
    assert(lower_seq("xmm8"@) =~= "xmm8"@);
    reveal_strlit("xmm9");
    assert("xmm9"@.len() == 4);
    assert(lower_seq("xmm9"@) =~= "xmm9"@);
    reveal_strlit("xmm10");
    assert("xmm10"@.len() == 5);
    assert(lower_seq("xmm10"@) =~= "xmm10"@);
    reveal_strlit("xmm11");
    assert("xmm11"@.len() == 5);
    assert(lower_seq("xmm11"@) =~= "xmm11"@);
    reveal_strlit("xmm12");
    assert("xmm12"@.len() == 5);
    assert(lower_seq("xmm12"@) =~= "xmm12"@);
    reveal_strlit("xmm13");
    assert("xmm13"@.len() == 5);
    assert(lower_seq("xmm13"@) =~= "xmm13"@);
    reveal_strlit("xmm14");
    assert("xmm14"@.len() == 5);
    assert(lower_seq("xmm14"@) =~= "xmm14"@);
    reveal_strlit("xmm15");
    assert("xmm15"@.len() == 5);
    assert(lower_seq("xmm15"@) =~= "xmm15"@);
    reveal_strlit("mxcsr");
    assert("mxcsr"@.len() == 5);
    assert(lower_seq("mxcsr"@) =~= "mxcsr"@);
    reveal_strlit("lbfrip");
    assert("lbfrip"@.len() == 6);
    assert(lower_seq("lbfrip"@) =~= "lbfrip"@);
    reveal_strlit("lbtrip");
    assert("lbtrip"@.len() == 6);
    assert(lower_seq("lbtrip"@) =~= "lbtrip"@);
    assert("rbx"@[1] != "rax"@[1]);
    assert("rcx"@[1] != "rax"@[1]);
    assert("rcx"@[1] != "rbx"@[1]);
    assert("rdx"@[1] != "rax"@[1]);
    assert("rdx"@[1] != "rbx"@[1]);
    assert("rdx"@[1] != "rcx"@[1]);
    assert("rsi"@[1] != "rax"@[1]);
    assert("rsi"@[1] != "rbx"@[1]);
    assert("rsi"@[1] != "rcx"@[1]);
    assert("rsi"@[1] != "rdx"@[1]);
    assert("rdi"@[1] != "rax"@[1]);
    assert("rdi"@[1] != "rbx"@[1]);
    assert("rdi"@[1] != "rcx"@[1]);
    assert("rdi"@[2] != "rdx"@[2]);
    assert("rdi"@[1] != "rsi"@[1]);
    assert("rbp"@[1] != "rax"@[1]);
    assert("rbp"@[2] != "rbx"@[2]);
    assert("rbp"@[1] != "rcx"@[1]);
    assert("rbp"@[1] != "rdx"@[1]);
    assert("rbp"@[1] != "rsi"@[1]);
    assert("rbp"@[1] != "rdi"@[1]);
    assert("rsp"@[1] != "rax"@[1]);
    assert("rsp"@[1] != "rbx"@[1]);
    assert("rsp"@[1] != "rcx"@[1]);
    assert("rsp"@[1] != "rdx"@[1]);
    assert("rsp"@[2] != "rsi"@[2]);
    assert("rsp"@[1] != "rdi"@[1]);
    assert("rsp"@[1] != "rbp"@[1]);
    assert("rip"@[1] != "rax"@[1]);
    assert("rip"@[1] != "rbx"@[1]);
    assert("rip"@[1] != "rcx"@[1]);
    assert("rip"@[1] != "rdx"@[1]);
    assert("rip"@[1] != "rsi"@[1]);
    assert("rip"@[1] != "rdi"@[1]);
    assert("rip"@[1] != "rbp"@[1]);
    assert("rip"@[1] != "rsp"@[1]);
    assert("r9"@[1] != "r8"@[1]);
    assert("r10"@[1] != "rax"@[1]);
    assert("r10"@[1] != "rbx"@[1]);
    assert("r10"@[1] != "rcx"@[1]);
    assert("r10"@[1] != "rdx"@[1]);
    assert("r10"@[1] != "rsi"@[1]);
    assert("r10"@[1] != "rdi"@[1]);
    assert("r10"@[1] != "rbp"@[1]);
    assert("r10"@[1] != "rsp"@[1]);
    assert("r10"@[1] != "rip"@[1]);
    assert("r11"@[1] != "rax"@[1]);
    assert("r11"@[1] != "rbx"@[1]);
    assert("r11"@[1] != "rcx"@[1]);
    assert("r11"@[1] != "rdx"@[1]);
    assert("r11"@[1] != "rsi"@[1]);
    assert("r11"@[1] != "rdi"@[1]);
    assert("r11"@[1] != "rbp"@[1]);
    assert("r11"@[1] != "rsp"@[1]);
    assert("r11"@[1] != "rip"@[1]);
    assert("r11"@[2] != "r10"@[2]);
    assert("r12"@[1] != "rax"@[1]);
    assert("r12"@[1] != "rbx"@[1]);
    assert("r12"@[1] != "rcx"@[1]);
    assert("r12"@[1] != "rdx"@[1]);
    assert("r12"@[1] != "rsi"@[1]);
    assert("r12"@[1] != "rdi"@[1]);
    assert("r12"@[1] != "rbp"@[1]);
    assert("r12"@[1] != "rsp"@[1]);
    assert("r12"@[1] != "rip"@[1]);
    assert("r12"@[2] != "r10"@[2]);
    assert("r12"@[2] != "r11"@[2]);
    assert("r13"@[1] != "rax"@[1]);
    assert("r13"@[1] != "rbx"@[1]);
    assert("r13"@[1] != "rcx"@[1]);
    assert("r13"@[1] != "rdx"@[1]);
    assert("r13"@[1] != "rsi"@[1]);
    assert("r13"@[1] != "rdi"@[1]);
    assert("r13"@[1] != "rbp"@[1]);
    assert("r13"@[1] != "rsp"@[1]);
    assert("r13"@[1] != "rip"@[1]);
    assert("r13"@[2] != "r10"@[2]);
    assert("r13"@[2] != "r11"@[2]);
    assert("r13"@[2] != "r12"@[2]);
    assert("r14"@[1] != "rax"@[1]);
    assert("r14"@[1] != "rbx"@[1]);
    assert("r14"@[1] != "rcx"@[1]);
    assert("r14"@[1] != "rdx"@[1]);
    assert("r14"@[1] != "rsi"@[1]);
    assert("r14"@[1] != "rdi"@[1]);
    assert("r14"@[1] != "rbp"@[1]);
    assert("r14"@[1] != "rsp"@[1]);
    assert("r14"@[1] != "rip"@[1]);
    assert("r14"@[2] != "r10"@[2]);
    assert("r14"@[2] != "r11"@[2]);
    assert("r14"@[2] != "r12"@[2]);
    assert("r14"@[2] != "r13"@[2]);
    assert("r15"@[1] != "rax"@[1]);
    assert("r15"@[1] != "rbx"@[1]);
    assert("r15"@[1] != "rcx"@[1]);
    assert("r15"@[1] != "rdx"@[1]);
    assert("r15"@[1] != "rsi"@[1]);
    assert("r15"@[1] != "rdi"@[1]);
    assert("r15"@[1] != "rbp"@[1]);
    assert("r15"@[1] != "rsp"@[1]);
    assert("r15"@[1] != "rip"@[1]);
    assert("r15"@[2] != "r10"@[2]);
    assert("r15"@[2] != "r11"@[2]);
    assert("r15"@[2] != "r12"@[2]);
    assert("r15"@[2] != "r13"@[2]);
    assert("r15"@[2] != "r14"@[2]);
    assert("cs"@[0] != "r8"@[0]);
    assert("cs"@[0] != "r9"@[0]);
    assert("segds"@[3] != "segcs"@[3]);
    assert("ds"@[0] != "r8"@[0]);
    assert("ds"@[0] != "r9"@[0]);
    assert("ds"@[0] != "cs"@[0]);
    assert("seges"@[3] != "segcs"@[3]);
    assert("seges"@[3] != "segds"@[3]);
    assert("es"@[0] != "r8"@[0]);
    assert("es"@[0] != "r9"@[0]);
    assert("es"@[0] != "cs"@[0]);
    assert("es"@[0] != "ds"@[0]);
    assert("segfs"@[3] != "segcs"@[3]);
    assert("segfs"@[3] != "segds"@[3]);
    assert("segfs"@[3] != "seges"@[3]);
    assert("fs"@[0] != "r8"@[0]);
    assert("fs"@[0] != "r9"@[0]);
    assert("fs"@[0] != "cs"@[0]);
    assert("fs"@[0] != "ds"@[0]);
    assert("fs"@[0] != "es"@[0]);
    assert("seggs"@[3] != "segcs"@[3]);
    assert("seggs"@[3] != "segds"@[3]);
    assert("seggs"@[3] != "seges"@[3]);
    assert("seggs"@[3] != "segfs"@[3]);
    assert("gs"@[0] != "r8"@[0]);
    assert("gs"@[0] != "r9"@[0]);
    assert("gs"@[0] != "cs"@[0]);
    assert("gs"@[0] != "ds"@[0]);
    assert("gs"@[0] != "es"@[0]);
    assert("gs"@[0] != "fs"@[0]);
    assert("segss"@[3] != "segcs"@[3]);
    assert("segss"@[3] != "segds"@[3]);
    assert("segss"@[3] != "seges"@[3]);
    assert("segss"@[3] != "segfs"@[3]);
    assert("segss"@[3] != "seggs"@[3]);
    assert("ss"@[0] != "r8"@[0]);
    assert("ss"@[0] != "r9"@[0]);
    assert("ss"@[0] != "cs"@[0]);
    assert("ss"@[0] != "ds"@[0]);
    assert("ss"@[0] != "es"@[0]);
    assert("ss"@[0] != "fs"@[0]);
    assert("ss"@[0] != "gs"@[0]);
    assert("flags"@[0] != "segcs"@[0]);
    assert("flags"@[0] != "segds"@[0]);
    assert("flags"@[0] != "seges"@[0]);
    assert("flags"@[0] != "segfs"@[0]);
    assert("flags"@[0] != "seggs"@[0]);
    assert("flags"@[0] != "segss"@[0]);
    assert("xmm0"@[0] != "flag"@[0]);
    assert("xmm1"@[0] != "flag"@[0]);
    assert("xmm1"@[3] != "xmm0"@[3]);
    assert("xmm2"@[0] != "flag"@[0]);
    assert("xmm2"@[3] != "xmm0"@[3]);
    assert("xmm2"@[3] != "xmm1"@[3]);
    assert("xmm3"@[0] != "flag"@[0]);
    assert("xmm3"@[3] != "xmm0"@[3]);
    assert("xmm3"@[3] != "xmm1"@[3]);
    assert("xmm3"@[3] != "xmm2"@[3]);
    assert("xmm4"@[0] != "flag"@[0]);
    assert("xmm4"@[3] != "xmm0"@[3]);
    assert("xmm4"@[3] != "xmm1"@[3]);
    assert("xmm4"@[3] != "xmm2"@[3]);
    assert("xmm4"@[3] != "xmm3"@[3]);
    assert("xmm5"@[0] != "flag"@[0]);
    assert("xmm5"@[3] != "xmm0"@[3]);
    assert("xmm5"@[3] != "xmm1"@[3]);
    assert("xmm5"@[3] != "xmm2"@[3]);
    assert("xmm5"@[3] != "xmm3"@[3]);
    assert("xmm5"@[3] != "xmm4"@[3]);
    assert("xmm6"@[0] != "flag"@[0]);
    assert("xmm6"@[3] != "xmm0"@[3]);
    assert("xmm6"@[3] != "xmm1"@[3]);
    assert("xmm6"@[3] != "xmm2"@[3]);
    assert("xmm6"@[3] != "xmm3"@[3]);
    assert("xmm6"@[3] != "xmm4"@[3]);
    assert("xmm6"@[3] != "xmm5"@[3]);
    assert("xmm7"@[0] != "flag"@[0]);
    assert("xmm7"@[3] != "xmm0"@[3]);
    assert("xmm7"@[3] != "xmm1"@[3]);
    assert("xmm7"@[3] != "xmm2"@[3]);
    assert("xmm7"@[3] != "xmm3"@[3]);
    assert("xmm7"@[3] != "xmm4"@[3]);
    assert("xmm7"@[3] != "xmm5"@[3]);
    assert("xmm7"@[3] != "xmm6"@[3]);
    assert("xmm8"@[0] != "flag"@[0]);
    assert("xmm8"@[3] != "xmm0"@[3]);
    assert("xmm8"@[3] != "xmm1"@[3]);
    assert("xmm8"@[3] != "xmm2"@[3]);
    assert("xmm8"@[3] != "xmm3"@[3]);
    assert("xmm8"@[3] != "xmm4"@[3]);
    assert("xmm8"@[3] != "xmm5"@[3]);
    assert("xmm8"@[3] != "xmm6"@[3]);
    assert("xmm8"@[3] != "xmm7"@[3]);
    assert("xmm9"@[0] != "flag"@[0]);
    assert("xmm9"@[3] != "xmm0"@[3]);
    assert("xmm9"@[3] != "xmm1"@[3]);
    assert("xmm9"@[3] != "xmm2"@[3]);
    assert("xmm9"@[3] != "xmm3"@[3]);
    assert("xmm9"@[3] != "xmm4"@[3]);
    assert("xmm9"@[3] != "xmm5"@[3]);
    assert("xmm9"@[3] != "xmm6"@[3]);
    assert("xmm9"@[3] != "xmm7"@[3]);
    assert("xmm9"@[3] != "xmm8"@[3]);
    assert("xmm10"@[0] != "segcs"@[0]);
    assert("xmm10"@[0] != "segds"@[0]);
    assert("xmm10"@[0] != "seges"@[0]);
    assert("xmm10"@[0] != "segfs"@[0]);
    assert("xmm10"@[0] != "seggs"@[0]);
    assert("xmm10"@[0] != "segss"@[0]);
    assert("xmm10"@[0] != "flags"@[0]);
    assert("xmm11"@[0] != "segcs"@[0]);
    assert("xmm11"@[0] != "segds"@[0]);
    assert("xmm11"@[0] != "seges"@[0]);
    assert("xmm11"@[0] != "segfs"@[0]);
    assert("xmm11"@[0] != "seggs"@[0]);
    assert("xmm11"@[0] != "segss"@[0]);
    assert("xmm11"@[0] != "flags"@[0]);
    assert("xmm11"@[4] != "xmm10"@[4]);
    assert("xmm12"@[0] != "segcs"@[0]);
    assert("xmm12"@[0] != "segds"@[0]);
    assert("xmm12"@[0] != "seges"@[0]);
    assert("xmm12"@[0] != "segfs"@[0]);
    assert("xmm12"@[0] != "seggs"@[0]);
    assert("xmm12"@[0] != "segss"@[0]);
    assert("xmm12"@[0] != "flags"@[0]);
    assert("xmm12"@[4] != "xmm10"@[4]);
    assert("xmm12"@[4] != "xmm11"@[4]);
    assert("xmm13"@[0] != "segcs"@[0]);
    assert("xmm13"@[0] != "segds"@[0]);
    assert("xmm13"@[0] != "seges"@[0]);
    assert("xmm13"@[0] != "segfs"@[0]);
    assert("xmm13"@[0] != "seggs"@[0]);
    assert("xmm13"@[0] != "segss"@[0]);
    assert("xmm13"@[0] != "flags"@[0]);
    assert("xmm13"@[4] != "xmm10"@[4]);
    assert("xmm13"@[4] != "xmm11"@[4]);
    assert("xmm13"@[4] != "xmm12"@[4]);
    assert("xmm14"@[0] != "segcs"@[0]);
    assert("xmm14"@[0] != "segds"@[0]);
    assert("xmm14"@[0] != "seges"@[0]);
    assert("xmm14"@[0] != "segfs"@[0]);
    assert("xmm14"@[0] != "seggs"@[0]);
    assert("xmm14"@[0] != "segss"@[0]);
    assert("xmm14"@[0] != "flags"@[0]);
    assert("xmm14"@[4] != "xmm10"@[4]);
    assert("xmm14"@[4] != "xmm11"@[4]);
    assert("xmm14"@[4] != "xmm12"@[4]);
    assert("xmm14"@[4] != "xmm13"@[4]);
    assert("xmm15"@[0] != "segcs"@[0]);
    assert("xmm15"@[0] != "segds"@[0]);
    assert("xmm15"@[0] != "seges"@[0]);
    assert("xmm15"@[0] != "segfs"@[0]);
    assert("xmm15"@[0] != "seggs"@[0]);
    assert("xmm15"@[0] != "segss"@[0]);
    assert("xmm15"@[0] != "flags"@[0]);
    assert("xmm15"@[4] != "xmm10"@[4]);
    assert("xmm15"@[4] != "xmm11"@[4]);
    assert("xmm15"@[4] != "xmm12"@[4]);
    assert("xmm15"@[4] != "xmm13"@[4]);
    assert("xmm15"@[4] != "xmm14"@[4]);
    assert("mxcsr"@[0] != "segcs"@[0]);
    assert("mxcsr"@[0] != "segds"@[0]);
    assert("mxcsr"@[0] != "seges"@[0]);
    assert("mxcsr"@[0] != "segfs"@[0]);
    assert("mxcsr"@[0] != "seggs"@[0]);
    assert("mxcsr"@[0] != "segss"@[0]);
    assert("mxcsr"@[0] != "flags"@[0]);
    assert("mxcsr"@[0] != "xmm10"@[0]);
    assert("mxcsr"@[0] != "xmm11"@[0]);
    assert("mxcsr"@[0] != "xmm12"@[0]);
    assert("mxcsr"@[0] != "xmm13"@[0]);
    assert("mxcsr"@[0] != "xmm14"@[0]);
    assert("mxcsr"@[0] != "xmm15"@[0]);
    assert("lbfrip"@[0] != "eflags"@[0]);
    assert("lbtrip"@[0] != "eflags"@[0]);
    assert("lbtrip"@[2] != "lbfrip"@[2]);
}

/// Law (read after write): setting a general or vector register by name
/// with the `set register` command and then reading the register by that
/// name gives the value written (a 64-bit value written into a vector
/// register fills its low half), and every other register keeps its value.
#[verifier::rlimit(80)]
pub proof fn lemma_register_read_after_write(ctx: Context64, n: Seq<char>, v: Value)
    requires
        set_target_named(n) matches Some(r) && (is_gpr(r) || is_xmm(r)),
        v !is Un,
        is_gpr(set_target_named(n)->0) ==> v is U64,
    ensures
        ({
            let r = set_target_named(n)->0;
            let c = apply_set(ctx, r, v).0;
            &&& value_named(c, n) == match v {
                Value::U64(x) => if is_gpr(r) {
                    Value::U64(x)
                } else {
                    Value::U128(M128 { low: x, high: 0 })
                },
                _ => v,
            }
            &&& forall|r2: Reg| r2 != r ==> reg_read(c, r2) == reg_read(ctx, r2)
        }),
{
    reveal_strlit("rax");
    reveal_strlit("rbx");
    reveal_strlit("rcx");
    reveal_strlit("rdx");
    reveal_strlit("rsi");
    reveal_strlit("rdi");
    reveal_strlit("rbp");
    reveal_strlit("rsp");
    reveal_strlit("rip");
    reveal_strlit("r8");
    reveal_strlit("r9");
    reveal_strlit("r10");
    reveal_strlit("r11");
    reveal_strlit("r12");
    reveal_strlit("r13");
    reveal_strlit("r14");
    reveal_strlit("r15");
    reveal_strlit("segcs");
    reveal_strlit("cs");
    reveal_strlit("segds");
    reveal_strlit("ds");
    reveal_strlit("seges");
    reveal_strlit("es");
    reveal_strlit("segfs");
    reveal_strlit("fs");
    reveal_strlit("seggs");
    reveal_strlit("gs");
    reveal_strlit("segss");
    reveal_strlit("ss");
    reveal_strlit("eflags");
    reveal_strlit("flags");
    reveal_strlit("xmm0");
    reveal_strlit("xmm1");
    reveal_strlit("xmm2");
    reveal_strlit("xmm3");
    reveal_strlit("xmm4");
    reveal_strlit("xmm5");
    reveal_strlit("xmm6");
    reveal_strlit("xmm7");
    reveal_strlit("xmm8");
    reveal_strlit("xmm9");
    reveal_strlit("xmm10");
    reveal_strlit("xmm11");
    reveal_strlit("xmm12");
    reveal_strlit("xmm13");
    reveal_strlit("xmm14");
    reveal_strlit("xmm15");
    reveal_strlit("mxcsr");
    reveal_strlit("flag");
    reveal_strlit("lbfrip");
    reveal_strlit("lbtrip");
    let r = set_target_named(n)->0;
    assert(lower_seq(n) =~= n);
    if n == "rax"@ {
        assert(reg_named(n) == Some(Reg::Rax));
    } else if n == "rbx"@ {
        assert(reg_named(n) == Some(Reg::Rbx));
    } else if n == "rcx"@ {
        assert(reg_named(n) == Some(Reg::Rcx));
    } else if n == "rdx"@ {
        assert(reg_named(n) == Some(Reg::Rdx));
    } else if n == "rsi"@ {
        assert(reg_named(n) == Some(Reg::Rsi));
    } else if n == "rdi"@ {
        assert(reg_named(n) == Some(Reg::Rdi));
    } else if n == "rbp"@ {
        assert(reg_named(n) == Some(Reg::Rbp));
    } else if n == "rsp"@ {
        assert(reg_named(n) == Some(Reg::Rsp));
    } else if n == "rip"@ {
        assert(reg_named(n) == Some(Reg::Rip));
    } else if n == "r8"@ {
        assert(reg_named(n) == Some(Reg::R8));
    } else if n == "r9"@ {
        assert(reg_named(n) == Some(Reg::R9));
    } else if n == "r10"@ {
        assert(reg_named(n) == Some(Reg::R10));
    } else if n == "r11"@ {
        assert(reg_named(n) == Some(Reg::R11));
    } else if n == "r12"@ {
        assert(reg_named(n) == Some(Reg::R12));
    } else if n == "r13"@ {
        assert(reg_named(n) == Some(Reg::R13));
    } else if n == "r14"@ {
        assert(reg_named(n) == Some(Reg::R14));
    } else if n == "r15"@ {
        assert(reg_named(n) == Some(Reg::R15));
    } else if n == "xmm0"@ {
        assert(n[0] == 'x' && "flag"@[0] == 'f');
        assert(n != "flag"@);
        assert(reg_named(n) == Some(Reg::Xmm0));
    } else if n == "xmm1"@ {
        assert(n[0] == 'x' && "flag"@[0] == 'f');
        assert(n != "flag"@);
        assert(reg_named(n) == Some(Reg::Xmm1));
    } else if n == "xmm2"@ {
        assert(n[0] == 'x' && "flag"@[0] == 'f');
        assert(n != "flag"@);
        assert(reg_named(n) == Some(Reg::Xmm2));
    } else if n == "xmm3"@ {
        assert(n[0] == 'x' && "flag"@[0] == 'f');
        assert(n != "flag"@);
        assert(reg_named(n) == Some(Reg::Xmm3));
    } else if n == "xmm4"@ {
        assert(n[0] == 'x' && "flag"@[0] == 'f');
        assert(n != "flag"@);
        assert(reg_named(n) == Some(Reg::Xmm4));
    } else if n == "xmm5"@ {
        assert(n[0] == 'x' && "flag"@[0] == 'f');
        assert(n != "flag"@);
        assert(reg_named(n) == Some(Reg::Xmm5));
    } else if n == "xmm6"@ {
        assert(n[0] == 'x' && "flag"@[0] == 'f');
        assert(n != "flag"@);
        assert(reg_named(n) == Some(Reg::Xmm6));
    } else if n == "xmm7"@ {
        assert(n[0] == 'x' && "flag"@[0] == 'f');
        assert(n != "flag"@);
        assert(reg_named(n) == Some(Reg::Xmm7));
    } else if n == "xmm8"@ {
        assert(n[0] == 'x' && "flag"@[0] == 'f');
        assert(n != "flag"@);
        assert(reg_named(n) == Some(Reg::Xmm8));
    } else if n == "xmm9"@ {
        assert(n[0] == 'x' && "flag"@[0] == 'f');
        assert(n != "flag"@);
        assert(reg_named(n) == Some(Reg::Xmm9));
    } else if n == "xmm10"@ {
        assert(n.len() == 5 && n[4] == '0');
        assert(n != "xmm1"@);
        assert(reg_named(n) == Some(Reg::Xmm10));
    } else if n == "xmm11"@ {
        assert(n.len() == 5 && n[4] == '1');
        assert(n != "xmm1"@);
        assert(reg_named(n) == Some(Reg::Xmm11));
    } else if n == "xmm12"@ {
        assert(n.len() == 5 && n[4] == '2');
        assert(n != "xmm1"@);
        assert(reg_named(n) == Some(Reg::Xmm12));
    } else if n == "xmm13"@ {
        assert(n.len() == 5 && n[4] == '3');
        assert(n != "xmm1"@);
        assert(reg_named(n) == Some(Reg::Xmm13));
    } else if n == "xmm14"@ {
        assert(n.len() == 5 && n[4] == '4');
        assert(n != "xmm1"@);
        assert(reg_named(n) == Some(Reg::Xmm14));
    } else if n == "xmm15"@ {
        assert(n.len() == 5 && n[4] == '5');
        assert(n != "xmm1"@);
        assert(reg_named(n) == Some(Reg::Xmm15));
    }
}

} // verus!
