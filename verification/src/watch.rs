//! Watchpoints: their textual description, the address they watch, and
//! their encoding in the x86 debug registers.

use vstd::prelude::*;
use vstd::wrapping::{i64_specs, u32_specs, u64_specs};
use crate::context::{Context32, Context64, ToValue, ToValue32, Value, value_named, value32_named};
use crate::number::{ParseError, IntKind, str_to_spec, str_to_i64_chars, str_to_usize_chars, fmt_hex, fmt_signed, digits, zero_x, signed_digits};
use crate::stack::{Frame, get_frame_before_func};
use crate::symbol::{RealAddr, Symbols, SymbolFile, caller_frame, lookup_name, reg_field_name, get_reg_with_reg_field};
use crate::text::{chars_of, concat, concat_str, lower_seq, lowercase, split_whitespace, split_ws, starts_with, starts_with_str, string_from, views, lower};

verus! {

/// Where the watched memory is: relative to the caller's stack pointer,
/// relative to the image base, an absolute address, or not given yet.
#[derive(Debug, Clone, Copy, PartialEq, Eq, Structural)]
pub enum FlagTypeMem {
    Stack,
    MemoryStatic,
    VirtualAddr,
    NotDef,
}

impl FlagTypeMem {
    /// The name shown for the memory zone.
    pub fn name(&self) -> (r: &'static str)
        ensures
            r@ == zone_name(*self),
    {
        match self {
            FlagTypeMem::Stack => "stack",
            FlagTypeMem::MemoryStatic => "static memory",
            FlagTypeMem::VirtualAddr => "Absolute address",
            FlagTypeMem::NotDef => "",
        }
    }
}

pub open spec fn zone_name(f: FlagTypeMem) -> Seq<char> {
    match f {
        FlagTypeMem::Stack => "stack"@,
        FlagTypeMem::MemoryStatic => "static memory"@,
        FlagTypeMem::VirtualAddr => "Absolute address"@,
        FlagTypeMem::NotDef => ""@,
    }
}

/// A kind of access that triggers a watchpoint.
#[derive(Debug, Clone, Copy, PartialEq, Eq, Hash, Structural)]
pub enum CheckType {
    X,
    W,
    R,
}

impl CheckType {
    /// The name shown for the access kind.
    pub fn name(&self) -> (r: &'static str)
        ensures
            r@ == access_name(*self),
    {
        match self {
            CheckType::X => "execute",
            CheckType::W => "write",
            CheckType::R => "read",
        }
    }
}

pub open spec fn access_name(c: CheckType) -> Seq<char> {
    match c {
        CheckType::X => "execute"@,
        CheckType::W => "write"@,
        CheckType::R => "read"@,
    }
}

/// A watchpoint: offset, memory zone, the accesses watched, the size in
/// bytes, and the register the offset is relative to (empty for none).
#[derive(Debug)]
pub struct Watchpts {
    pub offset: i64,
    pub flag_type_mem: FlagTypeMem,
    pub check_type: Vec<CheckType>,
    pub memory_size: usize,
    pub register: String,
}

/// The content of a watchpoint.
pub struct WatchView {
    pub offset: i64,
    pub flag_type_mem: FlagTypeMem,
    pub check_type: Seq<CheckType>,
    pub memory_size: usize,
    pub register: Seq<char>,
}

impl View for Watchpts {
    type V = WatchView;

    open spec fn view(&self) -> WatchView {
        WatchView {
            offset: self.offset,
            flag_type_mem: self.flag_type_mem,
            check_type: self.check_type@,
            memory_size: self.memory_size,
            register: self.register@,
        }
    }
}

/// The debug-register bits of a list of access kinds: 1 for read, 2 for
/// write, 4 for execute.
pub open spec fn access_bits(s: Seq<CheckType>) -> u32
    decreases s.len(),
{
    if s.len() == 0 {
        0
    } else {
        access_bits(s.drop_last()) | match s.last() {
            CheckType::R => 1u32,
            CheckType::W => 2u32,
            CheckType::X => 4u32,
        }
    }
}

/// The two-bit access code of the debug control register for a list of
/// access kinds: 0b11 (read or write) when reads are watched, else 0b01
/// (write) when writes are, else 0b00 (execution). The hardware has no code
/// for reads alone.
pub open spec fn access_code(s: Seq<CheckType>) -> u64 {
    if s.contains(CheckType::R) {
        3
    } else if s.contains(CheckType::W) {
        1
    } else {
        0
    }
}

/// Why the address of a watchpoint is unknown.
#[derive(Debug, Clone, Copy, PartialEq, Eq, Structural)]
pub enum WatchAddrError {
    /// The base register is a 128-bit register.
    Register128,
    /// No register has the base register's name.
    UnknownRegister,
}

/// See `Watchpts::real_addr64`.
pub open spec fn watch_addr64(w: WatchView, ctx: Context64, frames: Seq<Frame>, base: u64) -> Result<
    u64,
    WatchAddrError,
> {
    if w.register.len() != 0 {
        match value_named(ctx, w.register) {
            Value::U64(v) => Ok(u64_specs::wrapping_add(v, w.offset as u64)),
            Value::U128(_) => Err(WatchAddrError::Register128),
            Value::Un => Err(WatchAddrError::UnknownRegister),
        }
    } else {
        match w.flag_type_mem {
            FlagTypeMem::Stack => match caller_frame(frames, ctx.rip) {
                Some(f) => Ok(u64_specs::wrapping_add(f.stack, w.offset as u64)),
                None => Ok(0),
            },
            FlagTypeMem::MemoryStatic => Ok(u64_specs::wrapping_add(w.offset as u64, base)),
            FlagTypeMem::VirtualAddr => Ok(w.offset as u64),
            FlagTypeMem::NotDef => Ok(0),
        }
    }
}

/// See `Watchpts::real_addr32`.
pub open spec fn watch_addr32(w: WatchView, ctx: Context32, frames: Seq<Frame>, base: u64) -> u32 {
    if w.register.len() != 0 {
        value32_named(ctx, lower_seq(w.register))
    } else {
        match w.flag_type_mem {
            FlagTypeMem::Stack => match caller_frame(frames, ctx.eip as u64) {
                Some(f) => u64_specs::wrapping_add(f.stack, w.offset as u64) as u32,
                None => 0,
            },
            FlagTypeMem::MemoryStatic => u32_specs::wrapping_add(w.offset as u32, base as u32),
            FlagTypeMem::VirtualAddr => w.offset as u32,
            FlagTypeMem::NotDef => 0,
        }
    }
}

impl Watchpts {
    /// A copy of the watchpoint.
    pub fn duplicate(&self) -> (r: Watchpts)
        ensures
            r@ == self@,
    {
        let mut c: Vec<CheckType> = Vec::new();
        let mut i: usize = 0;
        while i < self.check_type.len()
            invariant
                i <= self.check_type.len(),
                c@ == self.check_type@.take(i as int),
            decreases self.check_type.len() - i,
        {
            c.push(self.check_type[i]);
            proof {
                assert(self.check_type@.take(i + 1) =~= self.check_type@.take(i as int).push(
                    self.check_type@[i as int],
                ));
            }
            i = i + 1;
        }
        proof {
            assert(self.check_type@.take(self.check_type.len() as int) =~= self.check_type@);
        }
        Watchpts {
            offset: self.offset,
            flag_type_mem: self.flag_type_mem,
            check_type: c,
            memory_size: self.memory_size,
            register: self.register.clone(),
        }
    }

    /// The access code the debug control register gets for the watchpoint
    /// (see `access_code`).
    pub fn access_code_exec(&self) -> (r: u64)
        ensures
            r == access_code(self.check_type@),
    {
        let mut read = false;
        let mut write = false;
        let mut i: usize = 0;
        while i < self.check_type.len()
            invariant
                i <= self.check_type.len(),
                read == self.check_type@.take(i as int).contains(CheckType::R),
                write == self.check_type@.take(i as int).contains(CheckType::W),
            decreases self.check_type.len() - i,
        {
            proof {
                assert(self.check_type@.take(i + 1) =~= self.check_type@.take(i as int).push(
                    self.check_type@[i as int],
                ));
                vstd::seq_lib::lemma_seq_contains_after_push(
                    self.check_type@.take(i as int),
                    self.check_type@[i as int],
                    CheckType::R,
                );
                vstd::seq_lib::lemma_seq_contains_after_push(
                    self.check_type@.take(i as int),
                    self.check_type@[i as int],
                    CheckType::W,
                );
            }
            match self.check_type[i] {
                CheckType::R => read = true,
                CheckType::W => write = true,
                CheckType::X => {},
            }
            i = i + 1;
        }
        proof {
            assert(self.check_type@.take(self.check_type.len() as int) =~= self.check_type@);
        }
        if read {
            3
        } else if write {
            1
        } else {
            0
        }
    }

    /// The debug-register access bits of the watchpoint (see `access_bits`).
    pub fn acces_type_to_bits(&self) -> (r: u32)
        ensures
            r == access_bits(self.check_type@),
    {
        let mut result: u32 = 0;
        let mut i: usize = 0;
        while i < self.check_type.len()
            invariant
                i <= self.check_type.len(),
                result == access_bits(self.check_type@.take(i as int)),
            decreases self.check_type.len() - i,
        {
            proof {
                assert(self.check_type@.take(i + 1).drop_last() =~= self.check_type@.take(
                    i as int,
                ));
            }
            match self.check_type[i] {
                CheckType::R => result = result | 1u32 << 0u32,
                CheckType::W => result = result | 1u32 << 1u32,
                CheckType::X => result = result | 1u32 << 2u32,
            }
            proof {
                assert(1u32 << 0u32 == 1u32) by (bit_vector);
                assert(1u32 << 1u32 == 2u32) by (bit_vector);
                assert(1u32 << 2u32 == 4u32) by (bit_vector);
            }
            i = i + 1;
        }
        proof {
            assert(self.check_type@.take(self.check_type.len() as int) =~= self.check_type@);
        }
        result
    }


    /// How the watched place is shown: its address once the program runs
    /// (or for absolute addresses; 0 when it is unknown), `.fp` and the
    /// signed offset for the stack, else `base-address + ` and the offset.
    pub fn format_offset(&self, ctx: &Context64, frames: &Vec<Frame>, base: u64) -> (r: String)
        ensures
            r@ == offset_text(self@, *ctx, frames@, base),
    {
        if base != 0 || self.flag_type_mem == FlagTypeMem::VirtualAddr {
            let a = match self.real_addr64(ctx, frames, base) {
                Ok(a) => a,
                Err(_) => 0,
            };
            string_from(&fmt_hex(a))
        } else if self.flag_type_mem == FlagTypeMem::Stack {
            let p: Vec<char> = vec!['.', 'f', 'p'];
            let t = concat(&p, &fmt_signed(self.offset, true));
            string_from(&t)
        } else {
            let p = chars_of("base-address + ");
            let t = concat(&p, &fmt_hex(self.offset as u64));
            string_from(&t)
        }
    }
}

impl RealAddr for Watchpts {
    type Fault = WatchAddrError;

    /// The address watched in a 64-bit thread: the base register plus the
    /// offset when a register is given; otherwise by zone the caller's stack
    /// pointer plus the offset (0 without caller frame), the image base plus
    /// the offset, the offset itself, or 0.
    fn real_addr64(&self, ctx: &Context64, frames: &Vec<Frame>, base: u64) -> (r: Result<
        u64,
        WatchAddrError,
    >)
        ensures
            r == watch_addr64(self@, *ctx, frames@, base),
    {
        if !self.register.as_str().is_empty() {
            return match ctx.str_to_value_ctx(self.register.as_str()) {
                Value::U64(v) => Ok(v.wrapping_add(self.offset as u64)),
                Value::U128(_) => Err(WatchAddrError::Register128),
                Value::Un => Err(WatchAddrError::UnknownRegister),
            };
        }
        match self.flag_type_mem {
            FlagTypeMem::Stack => match get_frame_before_func(frames, ctx.rip) {
                Some(f) => Ok(f.stack.wrapping_add(self.offset as u64)),
                None => Ok(0),
            },
            FlagTypeMem::MemoryStatic => Ok((self.offset as u64).wrapping_add(base)),
            FlagTypeMem::VirtualAddr => Ok(self.offset as u64),
            FlagTypeMem::NotDef => Ok(0),
        }
    }


    /// The address watched in a 32-bit thread (see `watch_addr32`).
    fn real_addr32(&self, ctx: &Context32, frames: &Vec<Frame>, base: u64) -> (r: u32)
        ensures
            r == watch_addr32(self@, *ctx, frames@, base),
    {
        if !self.register.as_str().is_empty() {
            return ctx.str_to_ctx(self.register.as_str());
        }
        match self.flag_type_mem {
            FlagTypeMem::Stack => match get_frame_before_func(frames, ctx.eip as u64) {
                Some(f) => f.stack.wrapping_add(self.offset as u64) as u32,
                None => 0,
            },
            FlagTypeMem::MemoryStatic => (self.offset as u32).wrapping_add(base as u32),
            FlagTypeMem::VirtualAddr => self.offset as u32,
            FlagTypeMem::NotDef => 0,
        }
    }
}

/// See `Watchpts::format_offset`.
pub open spec fn offset_text(w: WatchView, ctx: Context64, frames: Seq<Frame>, base: u64) -> Seq<char> {
    if base != 0 || w.flag_type_mem == FlagTypeMem::VirtualAddr {
        zero_x() + digits(
            match watch_addr64(w, ctx, frames, base) {
                Ok(a) => a,
                Err(_) => 0,
            } as nat,
            16,
        )
    } else if w.flag_type_mem == FlagTypeMem::Stack {
        seq!['.', 'f', 'p'] + signed_digits(w.offset as int, true)
    } else {
        "base-address + "@ + zero_x() + digits((w.offset as u64) as nat, 16)
    }
}

/// Law: the access bits of any watchpoint fit in three bits.
pub proof fn lemma_access_bits_small(s: Seq<CheckType>)
    ensures
        access_bits(s) <= 7,
    decreases s.len(),
{
    if s.len() > 0 {
        lemma_access_bits_small(s.drop_last());
        let a = access_bits(s.drop_last());
        assert(a | 1u32 <= 7 && a | 2u32 <= 7 && a | 4u32 <= 7) by (bit_vector)
            requires
                a <= 7,
        ;
    }
}

/// The address that the debug status register `dr6` reports as hit: the
/// address register of the lowest set bit among the four, or 0.
pub open spec fn hit_address(dr6: u64, dr0: u64, dr1: u64, dr2: u64, dr3: u64) -> u64 {
    if dr6 & 1 != 0 {
        dr0
    } else if dr6 & 2 != 0 {
        dr1
    } else if dr6 & 4 != 0 {
        dr2
    } else if dr6 & 8 != 0 {
        dr3
    } else {
        0
    }
}

/// The watched address that triggered the last debug exception of a 64-bit
/// thread.
pub fn triggered_address64(ctx: &Context64) -> (r: u64)
    ensures
        r == hit_address(ctx.dr6, ctx.dr0, ctx.dr1, ctx.dr2, ctx.dr3),
{
    if ctx.dr6 & 1 != 0 {
        ctx.dr0
    } else if ctx.dr6 & 2 != 0 {
        ctx.dr1
    } else if ctx.dr6 & 4 != 0 {
        ctx.dr2
    } else if ctx.dr6 & 8 != 0 {
        ctx.dr3
    } else {
        0
    }
}

/// The watched address that triggered the last debug exception of a 32-bit
/// thread.
pub fn triggered_address32(ctx: &Context32) -> (r: u32)
    ensures
        r as u64 == hit_address(ctx.dr6 as u64, ctx.dr0 as u64, ctx.dr1 as u64, ctx.dr2 as u64, ctx.dr3 as u64),
{
    proof {
        let d = ctx.dr6;
        assert((d & 1 != 0) == ((d as u64) & 1 != 0)) by (bit_vector);
        assert((d & 2 != 0) == ((d as u64) & 2 != 0)) by (bit_vector);
        assert((d & 4 != 0) == ((d as u64) & 4 != 0)) by (bit_vector);
        assert((d & 8 != 0) == ((d as u64) & 8 != 0)) by (bit_vector);
    }
    if ctx.dr6 & 1 != 0 {
        ctx.dr0
    } else if ctx.dr6 & 2 != 0 {
        ctx.dr1
    } else if ctx.dr6 & 4 != 0 {
        ctx.dr2
    } else if ctx.dr6 & 8 != 0 {
        ctx.dr3
    } else {
        0
    }
}

/// The size bits of a watchpoint of `size` bytes: 1, 2, 4 and 8 bytes are
/// encoded 0, 1, 3 and 2; any other size is taken as 1 byte.
pub open spec fn size_bits(size: usize) -> u64 {
    if size == 1 {
        0
    } else if size == 2 {
        1
    } else if size == 4 {
        3
    } else if size == 8 {
        2
    } else {
        0
    }
}

/// Whether a watchpoint size is one the debug registers support.
pub open spec fn size_supported(size: usize) -> bool {
    size == 1 || size == 2 || size == 4 || size == 8
}

/// `dr7` with slot `idx` enabled, watching the accesses `bits` on a region
/// encoded `sz`.
pub open spec fn dr7_set(dr7: u64, idx: u64, bits: u64, sz: u64) -> u64 {
    let a = dr7 | (1u64 << (idx * 2));
    let b = a & !(3u64 << (16 + idx * 4));
    let c = b | (bits << (16 + idx * 4));
    let d = c & !(3u64 << (18 + idx * 4));
    d | (sz << (18 + idx * 4))
}

/// `dr7` with slot `idx` disabled and its access and size fields cleared.
pub open spec fn dr7_clear(dr7: u64, idx: u64) -> u64 {
    let a = dr7 & !(1u64 << (idx * 2));
    let b = a & !(15u64 << (16 + idx * 4));
    b & !(3u64 << (18 + idx * 4))
}

/// `ctx` with address register `idx` set to `addr` (registers 0 to 3; any
/// other slot has no address register).
pub open spec fn with_dr(ctx: Context64, idx: usize, addr: u64) -> Context64 {
    if idx == 0 {
        Context64 { dr0: addr, ..ctx }
    } else if idx == 1 {
        Context64 { dr1: addr, ..ctx }
    } else if idx == 2 {
        Context64 { dr2: addr, ..ctx }
    } else if idx == 3 {
        Context64 { dr3: addr, ..ctx }
    } else {
        ctx
    }
}

/// `ctx` with debug-register slot `idx` armed for the watchpoint `w`: its
/// address register holds the watched address (0 when it cannot be
/// computed), and the control register enables the slot with the
/// watchpoint's access code (see `access_code`) and size bits.
pub open spec fn armed(ctx: Context64, w: WatchView, idx: usize, frames: Seq<Frame>, base: u64) -> Context64 {
    let addr = match watch_addr64(w, ctx, frames, base) {
        Ok(a) => a,
        Err(_) => 0,
    };
    Context64 {
        dr7: dr7_set(ctx.dr7, idx as u64, access_code(w.check_type), size_bits(w.memory_size)),
        ..with_dr(ctx, idx, addr)
    }
}

/// Arms debug-register slot `reg_index` of a 64-bit context with the
/// watchpoint `watch` (slots past 3 have no address register, and past 11
/// their bits would leave the control register); returns whether its size was one the hardware
/// supports (otherwise one byte is watched).
pub fn set_dreg(ctx: &mut Context64, watch: &Watchpts, reg_index: usize, frames: &Vec<Frame>, base: u64) -> (r: bool)
    requires
        reg_index < 12,
    ensures
        r == size_supported(watch.memory_size),
        *final(ctx) == armed(*old(ctx), watch@, reg_index, frames@, base),
{
    let addr = match watch.real_addr64(ctx, frames, base) {
        Ok(a) => a,
        Err(_) => 0,
    };
    if reg_index == 0 {
        ctx.dr0 = addr;
    } else if reg_index == 1 {
        ctx.dr1 = addr;
    } else if reg_index == 2 {
        ctx.dr2 = addr;
    } else if reg_index == 3 {
        ctx.dr3 = addr;
    }
    let idx = reg_index as u64;
    ctx.dr7 = ctx.dr7 | (1u64 << (idx * 2));
    let access = watch.access_code_exec();
    ctx.dr7 = ctx.dr7 & !(3u64 << (16 + idx * 4));
    ctx.dr7 = ctx.dr7 | (access << (16 + idx * 4));
    let m = watch.memory_size;
    let supported = m == 1 || m == 2 || m == 4 || m == 8;
    let sz: u64 = if m == 1 {
        0
    } else if m == 2 {
        1
    } else if m == 4 {
        3
    } else if m == 8 {
        2
    } else {
        0
    };
    ctx.dr7 = ctx.dr7 & !(3u64 << (18 + idx * 4));
    ctx.dr7 = ctx.dr7 | (sz << (18 + idx * 4));
    supported
}

/// Disarms debug-register slot `reg_index` of a 64-bit context: its address
/// register (for slots 0 to 3) becomes 0 and its enable, access and size bits
/// are cleared. Past slot 11 the bit positions leave the register.
pub fn clear_dreg(ctx: &mut Context64, reg_index: usize)
    requires
        reg_index < 12,
    ensures
        *final(ctx) == (Context64 {
            dr7: dr7_clear(old(ctx).dr7, reg_index as u64),
            ..with_dr(*old(ctx), reg_index, 0)
        }),
{
    if reg_index == 0 {
        ctx.dr0 = 0;
    } else if reg_index == 1 {
        ctx.dr1 = 0;
    } else if reg_index == 2 {
        ctx.dr2 = 0;
    } else if reg_index == 3 {
        ctx.dr3 = 0;
    }
    let idx = reg_index as u64;
    ctx.dr7 = ctx.dr7 & !(1u64 << (idx * 2));
    ctx.dr7 = ctx.dr7 & !(15u64 << (16 + idx * 4));
    ctx.dr7 = ctx.dr7 & !(3u64 << (18 + idx * 4));
}

/// Law: clearing a slot after arming it leaves the control register as
/// clearing it directly would; arming and clearing a slot never touch the
/// bits of the other slots.
pub proof fn lemma_dr7_clear_undoes_set(dr7: u64, idx: u64, bits: u64, sz: u64)
    requires
        idx < 4,
        bits <= 7,
        sz <= 3,
    ensures
        dr7_clear(dr7_set(dr7, idx, bits, sz), idx) == dr7_clear(dr7, idx),
{
    assert(dr7_clear(dr7_set(dr7, idx, bits, sz), idx) == dr7_clear(dr7, idx)) by (bit_vector)
        requires
            idx < 4,
            bits <= 7,
            sz <= 3,
    ;
}


proof fn lemma_dr7_set_fields(dr7: u64, idx: u64, bits: u64, sz: u64)
    requires
        idx < 12,
        bits <= 3,
        sz <= 3,
    ensures
        (dr7_set(dr7, idx, bits, sz) >> (idx * 2)) & 1 == 1,
        (dr7_set(dr7, idx, bits, sz) >> (16 + idx * 4)) & 3 == bits,
        (dr7_set(dr7, idx, bits, sz) >> (18 + idx * 4)) & 3 == sz,
        dr7_set(dr7, idx, bits, sz) & !((1u64 << (idx * 2)) | (15u64 << (16 + idx * 4))) == dr7
            & !((1u64 << (idx * 2)) | (15u64 << (16 + idx * 4))),
{
    assert((dr7_set(dr7, idx, bits, sz) >> (idx * 2)) & 1 == 1) by (bit_vector)
        requires
            idx < 12,
    ;
    assert((dr7_set(dr7, idx, bits, sz) >> (16 + idx * 4)) & 3 == bits) by (bit_vector)
        requires
            idx < 12,
            bits <= 3,
    ;
    assert((dr7_set(dr7, idx, bits, sz) >> (18 + idx * 4)) & 3 == sz) by (bit_vector)
        requires
            idx < 12,
            bits <= 3,
            sz <= 3,
    ;
    assert(dr7_set(dr7, idx, bits, sz) & !((1u64 << (idx * 2)) | (15u64 << (16 + idx * 4))) == dr7
        & !((1u64 << (idx * 2)) | (15u64 << (16 + idx * 4)))) by (bit_vector)
        requires
            idx < 12,
            bits <= 3,
            sz <= 3,
    ;
}

proof fn lemma_dr7_set32_fields(dr7: u32, idx: u32, bits: u32, sz: u32)
    requires
        idx < 4,
        bits <= 3,
        sz <= 3,
    ensures
        (dr7_set32(dr7, idx, bits, sz) >> (idx * 2)) & 1 == 1,
        (dr7_set32(dr7, idx, bits, sz) >> (16 + idx * 4)) & 3 == bits,
        (dr7_set32(dr7, idx, bits, sz) >> (18 + idx * 4)) & 3 == sz,
        dr7_set32(dr7, idx, bits, sz) & !((1u32 << (idx * 2)) | (15u32 << (16 + idx * 4))) == dr7
            & !((1u32 << (idx * 2)) | (15u32 << (16 + idx * 4))),
{
    assert((dr7_set32(dr7, idx, bits, sz) >> (idx * 2)) & 1 == 1) by (bit_vector)
        requires
            idx < 4,
    ;
    assert((dr7_set32(dr7, idx, bits, sz) >> (16 + idx * 4)) & 3 == bits) by (bit_vector)
        requires
            idx < 4,
            bits <= 3,
    ;
    assert((dr7_set32(dr7, idx, bits, sz) >> (18 + idx * 4)) & 3 == sz) by (bit_vector)
        requires
            idx < 4,
            bits <= 3,
            sz <= 3,
    ;
    assert(dr7_set32(dr7, idx, bits, sz) & !((1u32 << (idx * 2)) | (15u32 << (16 + idx * 4))) == dr7
        & !((1u32 << (idx * 2)) | (15u32 << (16 + idx * 4)))) by (bit_vector)
        requires
            idx < 4,
            bits <= 3,
            sz <= 3,
    ;
}

/// Law: arming slot `idx` of a 64-bit context for `w` enables that slot
/// (its local-enable bit `2 * idx`), writes the x86 read/write code of the
/// watched accesses at bits `16 + 4 * idx` (`11` when reads are watched,
/// the hardware having no code for reads alone, else `01` for writes, else
/// `00` for execution) and the x86 length code of the watched size at bits
/// `18 + 4 * idx` (1, 2, 4 and 8 bytes are `00`, `01`, `11` and `10`; any
/// other size is watched as one byte), and leaves every other bit of `dr7`
/// as it was.
pub proof fn lemma_armed_dr7_fields(ctx: Context64, w: WatchView, idx: usize, frames: Seq<Frame>, base: u64)
    requires
        idx < 12,
    ensures
        ({
            let d = armed(ctx, w, idx, frames, base).dr7;
            let i = idx as u64;
            let mask = (1u64 << (i * 2)) | (15u64 << (16 + i * 4));
            &&& (d >> (i * 2)) & 1 == 1
            &&& (d >> (16 + i * 4)) & 3 == (if w.check_type.contains(CheckType::R) {
                0b11u64
            } else if w.check_type.contains(CheckType::W) {
                0b01u64
            } else {
                0b00u64
            })
            &&& w.memory_size == 1 ==> (d >> (18 + i * 4)) & 3 == 0b00
            &&& w.memory_size == 2 ==> (d >> (18 + i * 4)) & 3 == 0b01
            &&& w.memory_size == 4 ==> (d >> (18 + i * 4)) & 3 == 0b11
            &&& w.memory_size == 8 ==> (d >> (18 + i * 4)) & 3 == 0b10
            &&& !(w.memory_size == 1 || w.memory_size == 2 || w.memory_size == 4 || w.memory_size
                == 8) ==> (d >> (18 + i * 4)) & 3 == 0b00
            &&& d & !mask == ctx.dr7 & !mask
        }),
{
    lemma_dr7_set_fields(ctx.dr7, idx as u64, access_code(w.check_type), size_bits(w.memory_size));
}

/// Law: arming slot `idx` of a 32-bit context for `w` writes the same
/// fields of its `dr7` as `lemma_armed_dr7_fields` says of a 64-bit one, and
/// leaves its other bits as they were.
pub proof fn lemma_armed32_dr7_fields(ctx: Context32, w: WatchView, idx: usize, frames: Seq<Frame>, base: u64)
    requires
        idx < 4,
    ensures
        ({
            let d = armed32(ctx, w, idx, frames, base).dr7;
            let i = idx as u32;
            let mask = (1u32 << (i * 2)) | (15u32 << (16 + i * 4));
            &&& (d >> (i * 2)) & 1 == 1
            &&& (d >> (16 + i * 4)) & 3 == (if w.check_type.contains(CheckType::R) {
                0b11u32
            } else if w.check_type.contains(CheckType::W) {
                0b01u32
            } else {
                0b00u32
            })
            &&& w.memory_size == 1 ==> (d >> (18 + i * 4)) & 3 == 0b00
            &&& w.memory_size == 2 ==> (d >> (18 + i * 4)) & 3 == 0b01
            &&& w.memory_size == 4 ==> (d >> (18 + i * 4)) & 3 == 0b11
            &&& w.memory_size == 8 ==> (d >> (18 + i * 4)) & 3 == 0b10
            &&& !(w.memory_size == 1 || w.memory_size == 2 || w.memory_size == 4 || w.memory_size
                == 8) ==> (d >> (18 + i * 4)) & 3 == 0b00
            &&& d & !mask == ctx.dr7 & !mask
        }),
{
    lemma_dr7_set32_fields(
        ctx.dr7,
        idx as u32,
        access_code(w.check_type) as u32,
        size_bits(w.memory_size) as u32,
    );
}

proof fn lemma_dr6_single_slot(dr6: u64, idx: u64)
    requires
        idx < 4,
        dr6 & 15 == 1u64 << idx,
    ensures
        (dr6 & 1 != 0) == (idx == 0),
        (dr6 & 2 != 0) == (idx == 1),
        (dr6 & 4 != 0) == (idx == 2),
        (dr6 & 8 != 0) == (idx == 3),
{
    assert((dr6 & 1 != 0) == (idx == 0)) by (bit_vector)
        requires
            idx < 4,
            dr6 & 15 == 1u64 << idx,
    ;
    assert((dr6 & 2 != 0) == (idx == 1)) by (bit_vector)
        requires
            idx < 4,
            dr6 & 15 == 1u64 << idx,
    ;
    assert((dr6 & 4 != 0) == (idx == 2)) by (bit_vector)
        requires
            idx < 4,
            dr6 & 15 == 1u64 << idx,
    ;
    assert((dr6 & 8 != 0) == (idx == 3)) by (bit_vector)
        requires
            idx < 4,
            dr6 & 15 == 1u64 << idx,
    ;
}

/// Law: a watchpoint armed in slot `idx` (0 to 3) is the one reported when
/// the debug status register says that slot alone fired (bit `idx` of its
/// low four bits): the reported address is the watched one (0 when it could
/// not be computed), in a 64-bit as in a 32-bit context.
pub proof fn lemma_armed_slot_is_reported(
    ctx: Context64,
    ctx32: Context32,
    w: WatchView,
    idx: usize,
    frames: Seq<Frame>,
    base: u64,
    dr6: u64,
)
    requires
        idx < 4,
        dr6 & 15 == 1u64 << (idx as u64),
    ensures
        ({
            let c = armed(ctx, w, idx, frames, base);
            hit_address(dr6, c.dr0, c.dr1, c.dr2, c.dr3) == match watch_addr64(w, ctx, frames, base) {
                Ok(a) => a,
                Err(_) => 0,
            }
        }),
        ({
            let c = armed32(ctx32, w, idx, frames, base);
            hit_address(dr6, c.dr0 as u64, c.dr1 as u64, c.dr2 as u64, c.dr3 as u64) == watch_addr32(
                w,
                ctx32,
                frames,
                base,
            ) as u64
        }),
{
    lemma_dr6_single_slot(dr6, idx as u64);
}

/// `s` with `p` removed from its start as many times as it occurs there
/// (`str::trim_start_matches`).
pub open spec fn trim_prefix_all(s: Seq<char>, p: Seq<char>) -> Seq<char>
    decreases s.len(),
{
    if p.len() > 0 && starts_with(s, p) {
        trim_prefix_all(s.skip(p.len() as int), p)
    } else {
        s
    }
}

/// `s` with every leading repetition of `p` removed.
pub fn trim_prefix_all_exec(s: &Vec<char>, p: &str) -> (r: Vec<char>)
    ensures
        r@ == trim_prefix_all(s@, p@),
{
    let q = chars_of(p);
    if q.len() == 0 {
        return crate::text::slice_vec(s, 0, s.len());
    }
    let mut i: usize = 0;
    proof {
        assert(s@.skip(0) =~= s@);
    }
    while i <= s.len() && s.len() - i >= q.len() && crate::text::occurs_at_exec(s, &q, i)
        invariant
            i <= s.len(),
            q@ == p@,
            q.len() > 0,
            trim_prefix_all(s@.skip(i as int), p@) == trim_prefix_all(s@, p@),
        decreases s.len() - i,
    {
        proof {
            assert(s@.skip(i as int).subrange(0, q.len() as int) =~= s@.subrange(
                i as int,
                i + q.len(),
            ));
            assert(s@.skip(i as int).skip(q.len() as int) =~= s@.skip(i + q.len()));
        }
        i = i + q.len();
    }
    proof {
        if i <= s.len() {
            if s@.skip(i as int).len() >= q@.len() {
                assert(s@.skip(i as int).subrange(0, q.len() as int) =~= s@.subrange(
                    i as int,
                    i + q.len(),
                ));
            }
        }
    }
    crate::text::slice_vec(s, i, s.len())
}

/// The access kind that a letter of `--access=` stands for.
pub open spec fn access_of(c: char) -> Option<CheckType> {
    if c == 'x' || c == 'X' {
        Some(CheckType::X)
    } else if c == 'w' || c == 'W' {
        Some(CheckType::W)
    } else if c == 'r' || c == 'R' {
        Some(CheckType::R)
    } else {
        None
    }
}

/// The access kinds of the letters `r`, or the first letter that is none.
pub open spec fn parse_access(r: Seq<char>) -> Result<Seq<CheckType>, char>
    decreases r.len(),
{
    if r.len() == 0 {
        Ok(Seq::empty())
    } else {
        match access_of(r.last()) {
            None => match parse_access(r.drop_last()) {
                Ok(_) => Err(r.last()),
                Err(c) => Err(c),
            },
            Some(t) => match parse_access(r.drop_last()) {
                Ok(rest) => Ok(rest.push(t)),
                Err(c) => Err(c),
            },
        }
    }
}

/// Law: the letters of `--access=` are read one for one, in either case:
/// `r` is a read, `w` a write, `x` an execution; any other letter is refused
/// (the first such letter is reported).
pub proof fn lemma_access_letters(r: Seq<char>)
    ensures
        access_of('r') == Some(CheckType::R) && access_of('R') == Some(CheckType::R),
        access_of('w') == Some(CheckType::W) && access_of('W') == Some(CheckType::W),
        access_of('x') == Some(CheckType::X) && access_of('X') == Some(CheckType::X),
        forall|c: char| #[trigger] access_of(c) is Some ==> c == 'r' || c == 'R' || c == 'w' || c == 'W'
            || c == 'x' || c == 'X',
        parse_access(r) matches Ok(t) ==> t.len() == r.len() && forall|i: int|
            0 <= i < r.len() ==> access_of(r[i]) == Some(#[trigger] t[i]),
        parse_access(r) matches Err(c) ==> exists|i: int|
            0 <= i < r.len() && r[i] == c && #[trigger] access_of(r[i]) is None,
    decreases r.len(),
{
    if r.len() > 0 {
        lemma_access_letters(r.drop_last());
        if let Err(c) = parse_access(r.drop_last()) {
            let i = choose|i: int|
                0 <= i < r.drop_last().len() && r.drop_last()[i] == c && #[trigger] access_of(
                    r.drop_last()[i],
                ) is None;
            assert(r[i] == r.drop_last()[i]);
        }
        if let Ok(t) = parse_access(r) {
            assert forall|i: int| 0 <= i < r.len() implies access_of(r[i]) == Some(#[trigger] t[i]) by {
                if i < r.len() - 1 {
                    assert(r[i] == r.drop_last()[i]);
                }
            }
        }
        if let Err(c) = parse_access(r) {
            if parse_access(r.drop_last()) is Ok {
                assert(r[r.len() - 1] == r.last());
            }
        }
    }
}

/// Law: where a watchpoint watches in a 64-bit program. Relative to a
/// 64-bit register it watches that register's value plus its offset; in
/// static memory, the image base plus its offset; at a virtual address, the
/// offset itself; on the stack, the caller frame's stack address plus the
/// offset (0 when there is no caller frame).
pub proof fn lemma_watch_addresses(w: WatchView, ctx: Context64, frames: Seq<Frame>, base: u64)
    ensures
        forall|v: u64|
            w.register.len() != 0 && value_named(ctx, w.register) == Value::U64(v) ==> #[trigger] watch_addr64(
                w,
                ctx,
                frames,
                base,
            ) == Ok::<u64, WatchAddrError>(u64_specs::wrapping_add(v, w.offset as u64)),
        w.register.len() == 0 && w.flag_type_mem == FlagTypeMem::MemoryStatic ==> watch_addr64(
            w,
            ctx,
            frames,
            base,
        ) == Ok::<u64, WatchAddrError>(u64_specs::wrapping_add(base, w.offset as u64)),
        w.register.len() == 0 && w.flag_type_mem == FlagTypeMem::VirtualAddr ==> watch_addr64(
            w,
            ctx,
            frames,
            base,
        ) == Ok::<u64, WatchAddrError>(w.offset as u64),
        w.register.len() == 0 && w.flag_type_mem == FlagTypeMem::Stack ==> watch_addr64(
            w,
            ctx,
            frames,
            base,
        ) == Ok::<u64, WatchAddrError>(match caller_frame(frames, ctx.rip) {
            Some(f) => u64_specs::wrapping_add(f.stack, w.offset as u64),
            None => 0,
        }),
{
    let a = w.offset as u64;
    assert(u64_specs::wrapping_add(a, base) == u64_specs::wrapping_add(base, a));
}

/// The first access kind of `s` that repeats an earlier one.
pub open spec fn first_dup(s: Seq<CheckType>, i: int) -> Option<CheckType>
    decreases s.len() - i,
{
    if i < 0 || i >= s.len() {
        None
    } else if s.take(i).contains(s[i]) {
        Some(s[i])
    } else {
        first_dup(s, i + 1)
    }
}

fn parse_access_exec(r: &Vec<char>) -> (res: Result<Vec<CheckType>, char>)
    ensures
        match res {
            Ok(v) => parse_access(r@) == Ok::<Seq<CheckType>, char>(v@),
            Err(c) => parse_access(r@) == Err::<Seq<CheckType>, char>(c),
        },
{
    let mut out: Vec<CheckType> = Vec::new();
    let mut i: usize = 0;
    while i < r.len()
        invariant
            i <= r.len(),
            parse_access(r@.take(i as int)) == Ok::<Seq<CheckType>, char>(out@),
        decreases r.len() - i,
    {
        let c = r[i];
        proof {
            assert(r@.take(i + 1).drop_last() =~= r@.take(i as int));
            assert(r@.take(i + 1).last() == c);
        }
        if c == 'x' || c == 'X' {
            out.push(CheckType::X);
        } else if c == 'w' || c == 'W' {
            out.push(CheckType::W);
        } else if c == 'r' || c == 'R' {
            out.push(CheckType::R);
        } else {
            proof {
                lemma_parse_access_prefix_err(r@, (i + 1) as int);
            }
            return Err(c);
        }
        i = i + 1;
    }
    proof {
        assert(r@.take(r.len() as int) =~= r@);
    }
    Ok(out)
}

/// Once a prefix has a bad letter, so has every longer prefix.
proof fn lemma_parse_access_prefix_err(r: Seq<char>, k: int)
    requires
        0 < k <= r.len(),
        parse_access(r.take(k)) is Err,
    ensures
        parse_access(r) == parse_access(r.take(k)),
    decreases r.len() - k,
{
    if k < r.len() {
        assert(r.take(k + 1).drop_last() =~= r.take(k));
        lemma_parse_access_prefix_err(r, k + 1);
    } else {
        assert(r.take(k) =~= r);
    }
}

fn contains_check(s: &Vec<CheckType>, n: usize, t: CheckType) -> (b: bool)
    requires
        n <= s.len(),
    ensures
        b == s@.take(n as int).contains(t),
{
    let mut i: usize = 0;
    while i < n
        invariant
            i <= n <= s.len(),
            forall|j: int| 0 <= j < i ==> s@[j] != t,
        decreases n - i,
    {
        if s[i] == t {
            assert(s@.take(n as int)[i as int] == t);
            return true;
        }
        i = i + 1;
    }
    proof {
        if s@.take(n as int).contains(t) {
            let k = choose|k: int| 0 <= k < s@.take(n as int).len() && s@.take(n as int)[k] == t;
            assert(s@[k] == t);
        }
    }
    false
}

fn first_dup_exec(s: &Vec<CheckType>) -> (r: Option<CheckType>)
    ensures
        r == first_dup(s@, 0),
{
    let mut i: usize = 0;
    while i < s.len()
        invariant
            i <= s.len(),
            first_dup(s@, i as int) == first_dup(s@, 0),
        decreases s.len() - i,
    {
        if contains_check(s, i, s[i]) {
            return Some(s[i]);
        }
        i = i + 1;
    }
    None
}

/// Why a watchpoint description is refused.
#[derive(Debug)]
pub enum WatchError {
    /// `--memory=` names no known zone (the name, in lowercase).
    InvalidMemoryType(String),
    /// `--access=` holds a letter that is no access kind.
    InvalidAccess(char),
    /// `--access=` names an access kind twice.
    DuplicateAccess(CheckType),
    /// The value after `--size` is no number.
    InvalidSize(ParseError),
    /// `--size` ends the description.
    MissingSize,
    /// A word is neither an option, a number, nor a symbol's name.
    InvalidPart(String),
    /// No offset was given.
    MissingOffset,
}

/// The content of a `WatchError`.
pub enum WatchFault {
    InvalidMemoryType(Seq<char>),
    InvalidAccess(char),
    DuplicateAccess(CheckType),
    InvalidSize(ParseError),
    MissingSize,
    InvalidPart(Seq<char>),
    MissingOffset,
}

impl View for WatchError {
    type V = WatchFault;

    open spec fn view(&self) -> WatchFault {
        match self {
            WatchError::InvalidMemoryType(s) => WatchFault::InvalidMemoryType(s@),
            WatchError::InvalidAccess(c) => WatchFault::InvalidAccess(*c),
            WatchError::DuplicateAccess(t) => WatchFault::DuplicateAccess(*t),
            WatchError::InvalidSize(e) => WatchFault::InvalidSize(*e),
            WatchError::MissingSize => WatchFault::MissingSize,
            WatchError::InvalidPart(s) => WatchFault::InvalidPart(s@),
            WatchError::MissingOffset => WatchFault::MissingOffset,
        }
    }
}

/// What has been read of a watchpoint description so far.
pub struct WState {
    pub offset: Option<i64>,
    pub flag: FlagTypeMem,
    pub check: Seq<CheckType>,
    pub size: usize,
    pub register: Seq<char>,
}

/// The state before the first word: write and read accesses, no offset,
/// no zone, no size, no register.
pub open spec fn wstate_init() -> WState {
    WState {
        offset: None,
        flag: FlagTypeMem::NotDef,
        check: seq![CheckType::W, CheckType::R],
        size: usize::MAX,
        register: Seq::empty(),
    }
}

/// The memory zone that a `--memory=` value names.
pub open spec fn zone_named(m: Seq<char>) -> Option<FlagTypeMem> {
    if m == "stack"@ {
        Some(FlagTypeMem::Stack)
    } else if m == "static"@ || m == "static-mem"@ || m == "static-memory"@ {
        Some(FlagTypeMem::MemoryStatic)
    } else if m == "virtual"@ || m == "virtual-addr"@ || m == "virtual-address"@ {
        Some(FlagTypeMem::VirtualAddr)
    } else {
        None
    }
}

/// Law: each memory zone name of `watchpoint` designates the zone it names: `stack` gives
/// `Some(FlagTypeMem::Stack)`; `static`/`static-mem`/`static-memory` gives
/// `Some(FlagTypeMem::MemoryStatic)`; `virtual`/`virtual-addr`/`virtual-address` gives
/// `Some(FlagTypeMem::VirtualAddr)`.
pub proof fn lemma_zone_names()
    ensures
        zone_named("stack"@) == Some(FlagTypeMem::Stack),
        zone_named("static"@) == Some(FlagTypeMem::MemoryStatic),
        zone_named("static-mem"@) == Some(FlagTypeMem::MemoryStatic),
        zone_named("static-memory"@) == Some(FlagTypeMem::MemoryStatic),
        zone_named("virtual"@) == Some(FlagTypeMem::VirtualAddr),
        zone_named("virtual-addr"@) == Some(FlagTypeMem::VirtualAddr),
        zone_named("virtual-address"@) == Some(FlagTypeMem::VirtualAddr),
{
    reveal_strlit("stack");
    assert("stack"@.len() == 5);
    reveal_strlit("static");
    assert("static"@.len() == 6);
    reveal_strlit("static-mem");
    assert("static-mem"@.len() == 10);
    reveal_strlit("static-memory");
    assert("static-memory"@.len() == 13);
    reveal_strlit("virtual");
    assert("virtual"@.len() == 7);
    reveal_strlit("virtual-addr");
    assert("virtual-addr"@.len() == 12);
    reveal_strlit("virtual-address");
    assert("virtual-address"@.len() == 15);
}


/// Reading word `i` of a watchpoint description in state `st`.
pub open spec fn watch_step(parts: Seq<Seq<char>>, i: int, st: WState, syms: Seq<SymbolFile>) -> Result<
    WState,
    WatchFault,
> {
    let p = parts[i];
    if starts_with(p, "--memory="@) {
        let m = lower_seq(trim_prefix_all(p, "--memory="@));
        match zone_named(m) {
            Some(z) => Ok(WState { flag: z, ..st }),
            None => Err(WatchFault::InvalidMemoryType(m)),
        }
    } else if starts_with(p, "--access="@) {
        match parse_access(trim_prefix_all(p, "--access="@)) {
            Err(c) => Err(WatchFault::InvalidAccess(c)),
            Ok(cs) => match first_dup(cs, 0) {
                Some(t) => Err(WatchFault::DuplicateAccess(t)),
                None => Ok(WState { check: cs, ..st }),
            },
        }
    } else if starts_with(p, "--size"@) {
        if i + 1 < parts.len() {
            match str_to_spec(parts[i + 1], IntKind::Usize) {
                Ok(v) => Ok(WState { size: v as usize, ..st }),
                Err(e) => Err(WatchFault::InvalidSize(e)),
            }
        } else {
            Err(WatchFault::MissingSize)
        }
    } else if starts_with(p, "--reg="@) || starts_with(p, "--register="@) {
        Ok(WState { register: trim_prefix_all(trim_prefix_all(p, "--reg="@), "--register="@), ..st })
    } else {
        match str_to_spec(p, IntKind::I64) {
            Ok(v) => Ok(WState { offset: Some(v as i64), ..st }),
            Err(_) => match lookup_name(syms, p) {
                Some(k) => {
                    let sym = syms[k];
                    Ok(
                        WState {
                            offset: Some(sym.offset),
                            flag: if st.flag == FlagTypeMem::NotDef && sym.offset < 0 {
                                FlagTypeMem::Stack
                            } else {
                                st.flag
                            },
                            check: st.check,
                            size: if st.size == usize::MAX {
                                sym.size
                            } else {
                                st.size
                            },
                            register: if sym.register != 0 {
                                reg_field_name(sym.register)
                            } else {
                                st.register
                            },
                        },
                    )
                },
                None => Err(WatchFault::InvalidPart(p)),
            },
        }
    }
}

/// The word read after word `i`: the value that follows `--size` is its
/// argument and is not read again.
pub open spec fn watch_next(parts: Seq<Seq<char>>, i: int) -> int {
    if starts_with(parts[i], "--size"@) {
        i + 2
    } else {
        i + 1
    }
}

/// A word that starts with `--size` starts with no other option.
proof fn lemma_size_word_is_no_option(p: Seq<char>)
    requires
        starts_with(p, "--size"@),
    ensures
        !starts_with(p, "--memory="@),
        !starts_with(p, "--access="@),
{
    reveal_strlit("--size");
    reveal_strlit("--memory=");
    reveal_strlit("--access=");
    assert(p.subrange(0, 6)[2] == "--size"@[2]);
    assert(p[2] == 's');
    if starts_with(p, "--memory="@) {
        assert(p.subrange(0, 9)[2] == "--memory="@[2]);
    }
    if starts_with(p, "--access="@) {
        assert(p.subrange(0, 9)[2] == "--access="@[2]);
    }
}

/// Reading the words of a description from word `i` on.
pub open spec fn watch_fold(parts: Seq<Seq<char>>, i: int, st: WState, syms: Seq<SymbolFile>) -> Result<
    WState,
    WatchFault,
>
    decreases parts.len() + 1 - i,
{
    if i < 0 || i >= parts.len() {
        Ok(st)
    } else {
        match watch_step(parts, i, st, syms) {
            Ok(s2) => watch_fold(parts, watch_next(parts, i), s2, syms),
            Err(e) => Err(e),
        }
    }
}

/// The watchpoint that a description denotes: the words read in order; an
/// offset is required; the zone defaults to static memory and the size to
/// 0 when neither the description nor a symbol gave one.
pub open spec fn watch_spec(s: Seq<char>, syms: Seq<SymbolFile>) -> Result<WatchView, WatchFault> {
    match watch_fold(split_ws(s), 0, wstate_init(), syms) {
        Err(e) => Err(e),
        Ok(st) => match st.offset {
            None => Err(WatchFault::MissingOffset),
            Some(o) => Ok(
                WatchView {
                    offset: o,
                    flag_type_mem: if st.flag == FlagTypeMem::NotDef {
                        FlagTypeMem::MemoryStatic
                    } else {
                        st.flag
                    },
                    check_type: st.check,
                    memory_size: if st.size == usize::MAX {
                        0
                    } else {
                        st.size
                    },
                    register: st.register,
                },
            ),
        },
    }
}

struct WParse {
    offset: Option<i64>,
    flag: FlagTypeMem,
    check: Vec<CheckType>,
    size: usize,
    register: Vec<char>,
}

spec fn wview(w: WParse) -> WState {
    WState { offset: w.offset, flag: w.flag, check: w.check@, size: w.size, register: w.register@ }
}

fn zone_from(m: &Vec<char>) -> (r: Option<FlagTypeMem>)
    ensures
        r == zone_named(m@),
{
    if crate::text::chars_eq_str(m, "stack") {
        Some(FlagTypeMem::Stack)
    } else if crate::text::chars_eq_str(m, "static") || crate::text::chars_eq_str(m, "static-mem")
        || crate::text::chars_eq_str(m, "static-memory") {
        Some(FlagTypeMem::MemoryStatic)
    } else if crate::text::chars_eq_str(m, "virtual") || crate::text::chars_eq_str(
        m,
        "virtual-addr",
    ) || crate::text::chars_eq_str(m, "virtual-address") {
        Some(FlagTypeMem::VirtualAddr)
    } else {
        None
    }
}

fn watch_step_exec(parts: &Vec<Vec<char>>, i: usize, st: &mut WParse, syms: &Symbols) -> (r: Result<
    (),
    WatchError,
>)
    requires
        i < parts.len(),
    ensures
        match r {
            Ok(()) => watch_step(views(parts@), i as int, wview(*old(st)), syms.symbol_file@)
                == Ok::<WState, WatchFault>(wview(*final(st))),
            Err(e) => watch_step(views(parts@), i as int, wview(*old(st)), syms.symbol_file@)
                == Err::<WState, WatchFault>(e@),
        },
{
    let p = &parts[i];
    proof {
        assert(views(parts@)[i as int] == p@);
    }
    if starts_with_str(p, "--memory=") {
        let t = trim_prefix_all_exec(p, "--memory=");
        let m = lowercase(&t);
        match zone_from(&m) {
            Some(z) => {
                st.flag = z;
                Ok(())
            },
            None => Err(WatchError::InvalidMemoryType(string_from(&m))),
        }
    } else if starts_with_str(p, "--access=") {
        let t = trim_prefix_all_exec(p, "--access=");
        match parse_access_exec(&t) {
            Err(c) => Err(WatchError::InvalidAccess(c)),
            Ok(cs) => match first_dup_exec(&cs) {
                Some(d) => Err(WatchError::DuplicateAccess(d)),
                None => {
                    st.check = cs;
                    Ok(())
                },
            },
        }
    } else if starts_with_str(p, "--size") {
        if i + 1 < parts.len() {
            proof {
                assert(views(parts@)[i + 1] == parts@[i + 1]@);
            }
            match str_to_usize_chars(&parts[i + 1]) {
                Ok(v) => {
                    st.size = v;
                    Ok(())
                },
                Err(e) => Err(WatchError::InvalidSize(e)),
            }
        } else {
            Err(WatchError::MissingSize)
        }
    } else if starts_with_str(p, "--reg=") || starts_with_str(p, "--register=") {
        let t = trim_prefix_all_exec(p, "--reg=");
        let u = trim_prefix_all_exec(&t, "--register=");
        st.register = u;
        Ok(())
    } else {
        match str_to_i64_chars(p) {
            Ok(v) => {
                st.offset = Some(v);
                Ok(())
            },
            Err(_) => match syms.find_name_chars(p) {
                Some(k) => {
                    let sym = &syms.symbol_file[k];
                    if st.flag == FlagTypeMem::NotDef && sym.offset < 0 {
                        st.flag = FlagTypeMem::Stack;
                    }
                    st.offset = Some(sym.offset);
                    if st.size == usize::MAX {
                        st.size = sym.size;
                    }
                    if sym.register != 0 {
                        let r = get_reg_with_reg_field(sym.register);
                        st.register = chars_of(r.as_str());
                    }
                    Ok(())
                },
                None => Err(WatchError::InvalidPart(string_from(p))),
            },
        }
    }
}

impl Watchpts {
    /// Reads a watchpoint description such as
    /// `--memory=stack --access=rw --size 4 -20` (see `watch_spec`); names
    /// of symbols stand for their offsets.
    pub fn from_str(s: &str, syms: &Symbols) -> (r: Result<Watchpts, WatchError>)
        ensures
            match r {
                Ok(w) => watch_spec(s@, syms.symbol_file@) == Ok::<WatchView, WatchFault>(w@),
                Err(e) => watch_spec(s@, syms.symbol_file@) == Err::<WatchView, WatchFault>(e@),
            },
    {
        let c = chars_of(s);
        let parts = split_whitespace(&c);
        let mut st = WParse {
            offset: None,
            flag: FlagTypeMem::NotDef,
            check: vec![CheckType::W, CheckType::R],
            size: usize::MAX,
            register: Vec::new(),
        };
        proof {
            assert(wview(st) == wstate_init()) by {
                assert(st.check@ =~= seq![CheckType::W, CheckType::R]);
                assert(st.register@ =~= Seq::<char>::empty());
            }
        }
        let mut i: usize = 0;
        while i < parts.len()
            invariant
                i <= parts.len() + 1,
                views(parts@) == split_ws(s@),
                watch_fold(views(parts@), i as int, wview(st), syms.symbol_file@) == watch_fold(
                    views(parts@),
                    0,
                    wstate_init(),
                    syms.symbol_file@,
                ),
            decreases parts.len() - i,
        {
            match watch_step_exec(&parts, i, &mut st, syms) {
                Ok(()) => {},
                Err(e) => {
                    return Err(e);
                },
            }
            proof {
                assert(views(parts@)[i as int] == parts@[i as int]@);
            }
            if starts_with_str(&parts[i], "--size") {
                proof {
                    lemma_size_word_is_no_option(parts@[i as int]@);
                }
                i = i + 2;
            } else {
                i = i + 1;
            }
        }
        let offset = match st.offset {
            Some(o) => o,
            None => {
                return Err(WatchError::MissingOffset);
            },
        };
        let flag = if st.flag == FlagTypeMem::NotDef {
            FlagTypeMem::MemoryStatic
        } else {
            st.flag
        };
        let size = if st.size == usize::MAX {
            0
        } else {
            st.size
        };
        Ok(
            Watchpts {
                offset,
                flag_type_mem: flag,
                check_type: st.check,
                memory_size: size,
                register: string_from(&st.register),
            },
        )
    }
}


/// `dr7` of a 32-bit context with slot `idx` enabled, watching the accesses
/// `bits` on a region encoded `sz`.
pub open spec fn dr7_set32(dr7: u32, idx: u32, bits: u32, sz: u32) -> u32 {
    let a = dr7 | (1u32 << (idx * 2));
    let b = a & !(3u32 << (16 + idx * 4));
    let c = b | (bits << (16 + idx * 4));
    let d = c & !(3u32 << (18 + idx * 4));
    d | (sz << (18 + idx * 4))
}

/// A 32-bit context with debug-register slot `idx` armed for `w`.
pub open spec fn armed32(ctx: Context32, w: WatchView, idx: usize, frames: Seq<Frame>, base: u64) -> Context32 {
    let addr = watch_addr32(w, ctx, frames, base);
    let c = if idx == 0 {
        Context32 { dr0: addr, ..ctx }
    } else if idx == 1 {
        Context32 { dr1: addr, ..ctx }
    } else if idx == 2 {
        Context32 { dr2: addr, ..ctx }
    } else {
        Context32 { dr3: addr, ..ctx }
    };
    Context32 {
        dr7: dr7_set32(ctx.dr7, idx as u32, access_code(w.check_type) as u32, size_bits(w.memory_size) as u32),
        ..c
    }
}

/// Arms debug-register slot `reg_index` (0 to 3) of a 32-bit context with
/// the watchpoint `watch`; returns whether its size was one the hardware
/// supports (otherwise one byte is watched).
pub fn set_watchpoint32(ctx: &mut Context32, watch: &Watchpts, reg_index: usize, frames: &Vec<Frame>, base: u64) -> (r: bool)
    requires
        reg_index < 4,
    ensures
        r == size_supported(watch.memory_size),
        *final(ctx) == armed32(*old(ctx), watch@, reg_index, frames@, base),
{
    let addr = watch.real_addr32(ctx, frames, base);
    if reg_index == 0 {
        ctx.dr0 = addr;
    } else if reg_index == 1 {
        ctx.dr1 = addr;
    } else if reg_index == 2 {
        ctx.dr2 = addr;
    } else {
        ctx.dr3 = addr;
    }
    let idx = reg_index as u32;
    ctx.dr7 = ctx.dr7 | (1u32 << (idx * 2));
    let access = watch.access_code_exec() as u32;
    ctx.dr7 = ctx.dr7 & !(3u32 << (16 + idx * 4));
    ctx.dr7 = ctx.dr7 | (access << (16 + idx * 4));
    let m = watch.memory_size;
    let supported = m == 1 || m == 2 || m == 4 || m == 8;
    let sz: u32 = if m == 1 {
        0
    } else if m == 2 {
        1
    } else if m == 4 {
        3
    } else if m == 8 {
        2
    } else {
        0
    };
    ctx.dr7 = ctx.dr7 & !(3u32 << (18 + idx * 4));
    ctx.dr7 = ctx.dr7 | (sz << (18 + idx * 4));
    supported
}

/// How the watched address `addr` is named: `of <symbol> - <addr>` for the
/// first symbol whose offset moved by `base` is `addr`, else the address.
pub open spec fn access_label(syms: Seq<SymbolFile>, addr: u64, base: u64) -> Seq<char> {
    let i = crate::commands::first_index_by(syms, sym_on(addr, base));
    if i < syms.len() {
        "of "@ + syms[i].name@ + " - "@ + zero_x() + digits(addr as nat, 16)
    } else {
        zero_x() + digits(addr as nat, 16)
    }
}

/// The symbols whose offset, moved by `base`, is `addr`.
pub open spec fn sym_on(addr: u64, base: u64) -> spec_fn(SymbolFile) -> bool {
    |s: SymbolFile| i64_specs::wrapping_add(s.offset, base as i64) == addr as i64
}

/// See `access_label`.
pub fn accessed_name(syms: &Symbols, addr: u64, base: u64) -> (r: String)
    ensures
        r@ == access_label(syms.symbol_file@, addr, base),
{
    let ghost p = sym_on(addr, base);
    let mut i: usize = 0;
    while i < syms.symbol_file.len()
        invariant
            i <= syms.symbol_file.len(),
            p == sym_on(addr, base),
            forall|j: int| 0 <= j < i ==> !p(#[trigger] syms.symbol_file@[j]),
        ensures
            i <= syms.symbol_file.len(),
            forall|j: int| 0 <= j < i ==> !p(#[trigger] syms.symbol_file@[j]),
            i == syms.symbol_file.len() || p(syms.symbol_file@[i as int]),
        decreases syms.symbol_file.len() - i,
    {
        if syms.symbol_file[i].offset.wrapping_add(base as i64) == addr as i64 {
            break;
        }
        i = i + 1;
    }
    proof {
        crate::commands::lemma_first_index_by(syms.symbol_file@, p, i as int);
    }
    let hex = fmt_hex(addr);
    if i < syms.symbol_file.len() {
        let a = concat_str(&chars_of("of "), syms.symbol_file[i].name.as_str());
        let b = concat_str(&a, " - ");
        string_from(&concat(&b, &hex))
    } else {
        string_from(&hex)
    }
}

} // verus!
