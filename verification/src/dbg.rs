//! Decisions of the debug loop: the table of bytes that breakpoints
//! replaced, what a breakpoint exception means, which addresses get
//! breakpoints when the program starts, and the code of created functions.

use vstd::prelude::*;
use vstd::wrapping::u64_specs;
use crate::cli::{All, AllView, AfterB, CrtFuncV, Hook, func_views};
use crate::commands::{first_index_by, hook_targets, shifted};
use crate::context::{Context32, Context64};
use crate::stack::{Frame, get_real_frame, first_frame_at};
use crate::watch::{WatchView, armed, armed32, set_dreg, set_watchpoint32, watch_addr32, watch_addr64};
use crate::number::{digits, fmt_hex, zero_x};
use crate::symbol::{RealAddr, SymbolFile, Symbols};
use crate::text::{chars_of, concat, contains_exec, contains_seq, replace_all, replace_all_exec, string_from};

verus! {

/// The byte that a breakpoint replaced, and where.
#[derive(Debug, Default, Clone, Copy, PartialEq, Eq, Structural)]
pub struct SaveInsn {
    pub addr: u64,
    pub last_oc: u8,
}

/// The opcode of the one-byte breakpoint instruction `int3`.
pub open spec fn int3() -> u8 {
    0xcc
}

/// How a redirection names the place it starts from: by address, or by
/// the name of a symbol.
#[derive(Debug, Clone, Copy, PartialEq, Eq, Structural)]
pub enum ModIntpr {
    Address,
    Name,
}

impl Default for ModIntpr {
    /// By name.
    fn default() -> (r: ModIntpr)
        ensures
            r == ModIntpr::Name,
    {
        ModIntpr::Name
    }
}

/// The saved bytes, oldest first.
#[derive(Debug)]
pub struct SaveTable {
    pub entries: Vec<SaveInsn>,
}

/// The entries that save a byte at `addr`.
pub open spec fn saved_at(addr: u64) -> spec_fn(SaveInsn) -> bool {
    |s: SaveInsn| s.addr == addr
}

impl SaveTable {
    /// An empty table.
    pub fn new() -> (r: SaveTable)
        ensures
            r.entries@ == Seq::<SaveInsn>::empty(),
    {
        SaveTable { entries: Vec::new() }
    }

    /// Placing a breakpoint at `addr` over the byte `original`: unless the
    /// byte is a breakpoint already, it is saved and `true` says that `int3`
    /// must be written there.
    pub fn record(&mut self, addr: u64, original: u8) -> (r: bool)
        ensures
            r == (original != int3()),
            r ==> final(self).entries@ == old(self).entries@.push(SaveInsn { addr, last_oc: original }),
            !r ==> final(self).entries@ == old(self).entries@,
    {
        if original == 0xcc {
            return false;
        }
        self.entries.push(SaveInsn { addr, last_oc: original });
        true
    }

    /// Saves the byte at `addr` whatever it is (a breakpoint put back after
    /// the instruction it covered ran).
    pub fn push(&mut self, addr: u64, original: u8)
        ensures
            final(self).entries@ == old(self).entries@.push(SaveInsn { addr, last_oc: original }),
    {
        self.entries.push(SaveInsn { addr, last_oc: original });
    }

    /// Taking out the breakpoint at `addr`: the oldest entry saved for that
    /// address leaves the table and gives the byte to write back; `None` when
    /// no byte is saved there.
    pub fn take(&mut self, addr: u64) -> (r: Option<SaveInsn>)
        ensures
            ({
                let i = first_index_by(old(self).entries@, saved_at(addr));
                if i == old(self).entries@.len() {
                    r is None && final(self).entries@ == old(self).entries@
                } else {
                    r == Some(old(self).entries@[i]) && final(self).entries@ == old(
                        self,
                    ).entries@.remove(i)
                }
            }),
    {
        let ghost p = saved_at(addr);
        let mut i: usize = 0;
        while i < self.entries.len()
            invariant
                i <= self.entries.len(),
                p == saved_at(addr),
                forall|j: int| 0 <= j < i ==> !p(#[trigger] self.entries@[j]),
            ensures
                i <= self.entries.len(),
                forall|j: int| 0 <= j < i ==> !p(#[trigger] self.entries@[j]),
                i == self.entries.len() || p(self.entries@[i as int]),
            decreases self.entries.len() - i,
        {
            if self.entries[i].addr == addr {
                break;
            }
            i = i + 1;
        }
        proof {
            crate::commands::lemma_first_index_by(self.entries@, p, i as int);
        }
        if i == self.entries.len() {
            return None;
        }
        Some(self.entries.remove(i))
    }
}

/// Law: taking out a breakpoint that was just placed where no byte was
/// saved gives back the byte it covered and leaves the table as it was.
pub proof fn lemma_record_then_take(t: Seq<SaveInsn>, addr: u64, original: u8)
    requires
        first_index_by(t, saved_at(addr)) == t.len(),
    ensures
        ({
            let t2 = t.push(SaveInsn { addr, last_oc: original });
            let i = first_index_by(t2, saved_at(addr));
            i == t.len() && t2[i].last_oc == original && t2.remove(i) == t
        }),
{
    lemma_first_index_push(t, SaveInsn { addr, last_oc: original }, saved_at(addr));
    assert(t.push(SaveInsn { addr, last_oc: original }).remove(t.len() as int) =~= t);
}

pub(crate) proof fn lemma_first_index_push<T>(s: Seq<T>, x: T, p: spec_fn(T) -> bool)
    requires
        first_index_by(s, p) == s.len(),
        p(x),
    ensures
        first_index_by(s.push(x), p) == s.len(),
    decreases s.len(),
{
    if s.len() > 0 {
        assert(s.push(x).drop_first() =~= s.drop_first().push(x));
        lemma_first_index_push(s.drop_first(), x, p);
    }
}

/// The bytes of a created function that returns `ret`:
/// `mov rax, ret` (`48 B8` and the 8 bytes of `ret`, least significant
/// first) then `ret` (`C3`).
pub open spec fn crt_code(ret: u64) -> Seq<u8> {
    seq![0x48u8, 0xb8u8] + Seq::new(8, |k: int| ((ret >> (8 * k) as u64) & 0xff) as u8) + seq![0xc3u8]
}

/// The code of a created function that returns `ret` (see `crt_code`).
pub fn crt_func_code(ret: u64) -> (r: Vec<u8>)
    ensures
        r@ == crt_code(ret),
        r@.len() == 11,
{
    let mut code: Vec<u8> = vec![0x48, 0xb8];
    let mut k: u64 = 0;
    while k < 8
        invariant
            k <= 8,
            code@ == seq![0x48u8, 0xb8u8] + Seq::new(k as nat, |j: int| ((ret >> (8 * j) as u64) & 0xff) as u8),
        decreases 8 - k,
    {
        let b = ((ret >> (8 * k)) & 0xff) as u8;
        code.push(b);
        proof {
            assert(seq![0x48u8, 0xb8u8] + Seq::new((k + 1) as nat, |j: int| ((ret >> (8 * j) as u64) & 0xff) as u8)
                =~= (seq![0x48u8, 0xb8u8] + Seq::new(k as nat, |j: int| ((ret >> (8 * j) as u64) & 0xff) as u8)).push(b));
        }
        k = k + 1;
    }
    code.push(0xc3);
    code
}

/// The value that bytes 2 to 9 of a created function's code load into
/// `rax`, read least significant first.
pub open spec fn loaded_value(c: Seq<u8>) -> u64 {
    (c[2] as u64) | ((c[3] as u64) << 8) | ((c[4] as u64) << 16) | ((c[5] as u64) << 24) | ((
    c[6] as u64) << 32) | ((c[7] as u64) << 40) | ((c[8] as u64) << 48) | ((c[9] as u64) << 56)
}

/// Law: the code of a created function loads exactly the value it was made
/// to return, and ends with `ret`.
pub proof fn lemma_crt_code_returns(ret: u64)
    ensures
        loaded_value(crt_code(ret)) == ret,
        crt_code(ret)[10] == 0xc3,
{
    let c = crt_code(ret);
    let b0 = c[2];
    let b1 = c[3];
    let b2 = c[4];
    let b3 = c[5];
    let b4 = c[6];
    let b5 = c[7];
    let b6 = c[8];
    let b7 = c[9];
    assert(b0 == ((ret >> 0u64) & 0xff) as u8);
    assert(b1 == ((ret >> 8u64) & 0xff) as u8);
    assert(b2 == ((ret >> 16u64) & 0xff) as u8);
    assert(b3 == ((ret >> 24u64) & 0xff) as u8);
    assert(b4 == ((ret >> 32u64) & 0xff) as u8);
    assert(b5 == ((ret >> 40u64) & 0xff) as u8);
    assert(b6 == ((ret >> 48u64) & 0xff) as u8);
    assert(b7 == ((ret >> 56u64) & 0xff) as u8);
    assert((b0 as u64) | ((b1 as u64) << 8) | ((b2 as u64) << 16) | ((b3 as u64) << 24) | ((
    b4 as u64) << 32) | ((b5 as u64) << 40) | ((b6 as u64) << 48) | ((b7 as u64) << 56) == ret)
        by (bit_vector)
        requires
            b0 == ((ret >> 0u64) & 0xff) as u8,
            b1 == ((ret >> 8u64) & 0xff) as u8,
            b2 == ((ret >> 16u64) & 0xff) as u8,
            b3 == ((ret >> 24u64) & 0xff) as u8,
            b4 == ((ret >> 32u64) & 0xff) as u8,
            b5 == ((ret >> 40u64) & 0xff) as u8,
            b6 == ((ret >> 48u64) & 0xff) as u8,
            b7 == ((ret >> 56u64) & 0xff) as u8,
    ;
}


/// What a breakpoint exception at `addr` asks of the debugger, given the
/// configuration and where the image is loaded.
#[derive(Debug, Clone, Copy, PartialEq, Eq, Structural)]
pub struct BreakPlan {
    /// The breakpoint put after an earlier one to re-arm it, if `addr` is one.
    pub after: Option<AfterB>,
    /// The hook starting at `addr`; when there is one, nothing below applies.
    pub hook: Option<Hook>,
    /// Stop at the prompt: `addr` is a relative or absolute breakpoint.
    pub stop: bool,
    /// `addr` is a return breakpoint given relative to the image.
    pub ret_rva: bool,
    /// `addr` is a return breakpoint given as an absolute address.
    pub ret_va: bool,
}

pub open spec fn after_at(addr: u64) -> spec_fn(AfterB) -> bool {
    |a: AfterB| a.after_b == addr
}

pub open spec fn hook_hit(addr: u64, base: u64) -> spec_fn(Hook) -> bool {
    |h: Hook| u64_specs::wrapping_add(h.target, base) == addr
}

/// The first element of `s` that satisfies `p`.
pub open spec fn find_by<T>(s: Seq<T>, p: spec_fn(T) -> bool) -> Option<T> {
    let i = first_index_by(s, p);
    if i < s.len() {
        Some(s[i])
    } else {
        None
    }
}

/// See `BreakPlan`.
pub open spec fn break_plan(a: AllView, addr: u64, base: u64) -> BreakPlan {
    let hook = find_by(a.hook, hook_hit(addr, base));
    let rel = addr > base && a.break_rva.contains((addr - base) as u64);
    BreakPlan {
        after: find_by(a.after_b, after_at(addr)),
        hook,
        stop: hook is None && (rel || a.break_va.contains(addr)),
        ret_rva: hook is None && addr > base && a.break_ret.contains((addr - base) as u64),
        ret_va: hook is None && a.break_ret_va.contains(addr),
    }
}

proof fn lemma_find_by<T>(s: Seq<T>, p: spec_fn(T) -> bool)
    ensures
        (find_by(s, p) is Some) <==> (exists|k: int| 0 <= k < s.len() && #[trigger] p(s[k])),
        find_by(s, p) matches Some(x) ==> p(x) && s.contains(x),
    decreases s.len(),
{
    if s.len() > 0 {
        lemma_find_by(s.drop_first(), p);
        if !p(s[0]) {
            let i = first_index_by(s.drop_first(), p);
            crate::disasm::lemma_first_index_bound(s.drop_first(), p);
            assert(first_index_by(s, p) == 1 + i);
            if i < s.drop_first().len() {
                assert(s[1 + i] == s.drop_first()[i]);
                assert(find_by(s, p) == Some(s[1 + i]));
                assert(s.contains(s[1 + i]));
            }
            assert forall|k: int| 1 <= k < s.len() && #[trigger] p(s[k]) implies exists|j: int|
                0 <= j < s.drop_first().len() && p(s.drop_first()[j]) by {
                assert(s.drop_first()[k - 1] == s[k]);
            }
            if exists|j: int| 0 <= j < s.drop_first().len() && #[trigger] p(s.drop_first()[j]) {
                let j = choose|j: int| 0 <= j < s.drop_first().len() && #[trigger] p(s.drop_first()[j]);
                assert(p(s[j + 1]));
            }
        } else {
            assert(s.contains(s[0]));
        }
    }
}

/// Law: what a breakpoint exception at `addr` asks for, with the image at
/// `base`. When a hook starts at `addr` (its target moved by `base`), the
/// hook is followed and the debugger neither stops nor places a return
/// breakpoint. Otherwise it stops exactly when `addr` is an absolute
/// breakpoint (`b-va`) or, past `base`, a breakpoint relative to the image,
/// and places the return breakpoint of an absolute or relative `b-ret`
/// listed at `addr`. The re-arm entry is one recorded for `addr`, and there
/// is one whenever such an entry was recorded.
pub proof fn lemma_breakpoint_plan(a: AllView, addr: u64, base: u64)
    ensures
        ({
            let p = break_plan(a, addr, base);
            let hooked = exists|k: int|
                0 <= k < a.hook.len() && u64_specs::wrapping_add(#[trigger] a.hook[k].target, base) == addr;
            &&& hooked ==> {
                &&& p.hook matches Some(h) && a.hook.contains(h) && u64_specs::wrapping_add(h.target, base) == addr
                &&& !p.stop && !p.ret_rva && !p.ret_va
            }
            &&& !hooked ==> {
                &&& p.hook is None
                &&& p.stop <==> (a.break_va.contains(addr) || (addr > base && a.break_rva.contains(
                    (addr - base) as u64,
                )))
                &&& p.ret_va <==> a.break_ret_va.contains(addr)
                &&& p.ret_rva <==> (addr > base && a.break_ret.contains((addr - base) as u64))
            }
            &&& p.after matches Some(ab) ==> ab.after_b == addr && a.after_b.contains(ab)
            &&& (p.after is None) <==> (forall|k: int| 0 <= k < a.after_b.len() ==> #[trigger] a.after_b[k].after_b != addr)
        }),
{
    lemma_find_by(a.hook, hook_hit(addr, base));
    lemma_find_by(a.after_b, after_at(addr));
    let hp = hook_hit(addr, base);
    let ap = after_at(addr);
    assert(forall|k: int| 0 <= k < a.hook.len() ==> (hp(a.hook[k]) == (u64_specs::wrapping_add(
        a.hook[k].target,
        base,
    ) == addr)));
    assert(forall|k: int| 0 <= k < a.after_b.len() ==> (ap(a.after_b[k]) == (a.after_b[k].after_b == addr)));
}

fn find_after(v: &Vec<AfterB>, addr: u64) -> (r: Option<AfterB>)
    ensures
        r == find_by(v@, after_at(addr)),
{
    let ghost p = after_at(addr);
    let mut i: usize = 0;
    while i < v.len()
        invariant
            i <= v.len(),
            p == after_at(addr),
            forall|j: int| 0 <= j < i ==> !p(#[trigger] v@[j]),
        decreases v.len() - i,
    {
        if v[i].after_b == addr {
            proof {
                crate::commands::lemma_first_index_by(v@, p, i as int);
            }
            return Some(v[i]);
        }
        i = i + 1;
    }
    proof {
        crate::commands::lemma_first_index_by(v@, p, i as int);
    }
    None
}

fn find_hook(v: &Vec<Hook>, addr: u64, base: u64) -> (r: Option<Hook>)
    ensures
        r == find_by(v@, hook_hit(addr, base)),
{
    let ghost p = hook_hit(addr, base);
    let mut i: usize = 0;
    while i < v.len()
        invariant
            i <= v.len(),
            p == hook_hit(addr, base),
            forall|j: int| 0 <= j < i ==> !p(#[trigger] v@[j]),
        decreases v.len() - i,
    {
        if v[i].target.wrapping_add(base) == addr {
            proof {
                crate::commands::lemma_first_index_by(v@, p, i as int);
            }
            return Some(v[i]);
        }
        i = i + 1;
    }
    proof {
        crate::commands::lemma_first_index_by(v@, p, i as int);
    }
    None
}

impl All {
    /// What to do on a breakpoint exception at `addr` (see `break_plan`).
    pub fn breakpoint_plan(&self, addr: u64, base: u64) -> (r: BreakPlan)
        ensures
            r == break_plan(self@, addr, base),
    {
        let after = find_after(&self.after_b, addr);
        let hook = find_hook(&self.hook, addr, base);
        let mut plan = BreakPlan { after, hook, stop: false, ret_rva: false, ret_va: false };
        if hook.is_none() {
            let rel = addr > base && crate::cli::contains_u64(&self.break_rva, addr - base);
            plan.stop = rel || crate::cli::contains_u64(&self.break_va, addr);
            plan.ret_rva = addr > base && crate::cli::contains_u64(&self.break_ret, addr - base);
            plan.ret_va = crate::cli::contains_u64(&self.break_ret_va, addr);
        }
        plan
    }

    /// The breakpoints and skipped functions to place when the program has
    /// been loaded at `base`: hooks, relative and return breakpoints are
    /// moved by `base`, absolute return breakpoints are kept as they are;
    /// skipped functions are given relative to the image.
    pub fn init_plan(&self, base: u64) -> (r: (Vec<u64>, Vec<u64>))
        ensures
            r.0@ == shifted(hook_targets(self@.hook), base) + shifted(self@.break_rva, base)
                + shifted(self@.break_ret, base) + shifted(self@.break_ret_va, 0),
            r.1@ == self@.skip_addr,
    {
        let mut b: Vec<u64> = Vec::new();
        crate::commands::append_hook_targets(&mut b, &self.hook, base);
        crate::commands::append_shifted(&mut b, &self.break_rva, base);
        crate::commands::append_shifted(&mut b, &self.break_ret, base);
        crate::commands::append_shifted(&mut b, &self.break_ret_va, 0);
        proof {
            assert(Seq::<u64>::empty() + shifted(hook_targets(self@.hook), base) =~= shifted(
                hook_targets(self@.hook),
                base,
            ));
        }
        (b, crate::cli::copy_u64s(&self.skip_addr))
    }

    /// When the debugged program ends: the created functions have no
    /// address any more.
    pub fn stop_dbg(&mut self)
        ensures
            final(self)@ == (AllView {
                crt_func: old(self)@.crt_func.map_values(
                    |f: CrtFuncV| CrtFuncV { address: 0, ..f },
                ),
                ..old(self)@
            }),
    {
        let ghost start = self@;
        let mut i: usize = 0;
        while i < self.crt_func.len()
            invariant
                i <= self.crt_func.len(),
                self.crt_func.len() == start.crt_func.len(),
                self@ == (AllView { crt_func: self@.crt_func, ..start }),
                forall|j: int|
                    0 <= j < i ==> #[trigger] self@.crt_func[j] == (CrtFuncV {
                        address: 0,
                        ..start.crt_func[j]
                    }),
                forall|j: int| i <= j < self.crt_func.len() ==> #[trigger] self@.crt_func[j] == start.crt_func[j],
            decreases self.crt_func.len() - i,
        {
            proof {
                assert(self@.crt_func[i as int] == start.crt_func[i as int]);
                assert(self@.crt_func[i as int] == self.crt_func@[i as int]@);
            }
            let f = &self.crt_func[i];
            let g = crate::cli::CrtFunc { name: f.name.clone(), ret_value: f.ret_value, address: 0 };
            let ghost before = self.crt_func@;
            self.crt_func.set(i, g);
            proof {
                assert(func_views(self.crt_func@) =~= func_views(before).update(i as int, g@));
                assert(g@ == (CrtFuncV { address: 0, ..start.crt_func[i as int] }));
            }
            i = i + 1;
        }
        proof {
            assert(self@.crt_func =~= start.crt_func.map_values(
                |f: CrtFuncV| CrtFuncV { address: 0, ..f },
            ));
        }
    }

    /// Whether a single-step exception at `addr` in a 64-bit program is one
    /// of the watchpoints (whose run-time address, 0 when it cannot be
    /// computed, is `addr`).
    pub fn watch_hit64(&self, ctx: &Context64, frames: &Vec<Frame>, base: u64, addr: u64) -> (r: bool)
        ensures
            r == exists|j: int|
                0 <= j < self@.watchpts.len() && (match watch_addr64(
                    #[trigger] self@.watchpts[j],
                    *ctx,
                    frames@,
                    base,
                ) {
                    Ok(a) => a,
                    Err(_) => 0,
                }) == addr,
    {
        let mut i: usize = 0;
        while i < self.watchpts.len()
            invariant
                i <= self.watchpts.len(),
                forall|j: int|
                    0 <= j < i ==> (match watch_addr64(#[trigger] self@.watchpts[j], *ctx, frames@, base) {
                        Ok(a) => a,
                        Err(_) => 0,
                    }) != addr,
            decreases self.watchpts.len() - i,
        {
            let a = match self.watchpts[i].real_addr64(ctx, frames, base) {
                Ok(a) => a,
                Err(_) => 0,
            };
            if a == addr {
                proof {
                    assert(self@.watchpts[i as int] == self.watchpts@[i as int]@);
                }
                return true;
            }
            i = i + 1;
        }
        false
    }

    /// Whether a single-step exception at `addr` in a 32-bit program is one
    /// of the watchpoints.
    pub fn watch_hit32(&self, ctx: &Context32, frames: &Vec<Frame>, base: u64, addr: u32) -> (r: bool)
        ensures
            r == exists|j: int|
                0 <= j < self@.watchpts.len() && watch_addr32(
                    #[trigger] self@.watchpts[j],
                    *ctx,
                    frames@,
                    base,
                ) == addr,
    {
        let mut i: usize = 0;
        while i < self.watchpts.len()
            invariant
                i <= self.watchpts.len(),
                forall|j: int|
                    0 <= j < i ==> watch_addr32(#[trigger] self@.watchpts[j], *ctx, frames@, base)
                        != addr,
            decreases self.watchpts.len() - i,
        {
            if self.watchpts[i].real_addr32(ctx, frames, base) == addr {
                proof {
                    assert(self@.watchpts[i as int] == self.watchpts@[i as int]@);
                }
                return true;
            }
            i = i + 1;
        }
        false
    }

    /// A breakpoint at a function's return: the return address of the
    /// frame executing at `rip` becomes an absolute breakpoint (returned);
    /// `None`, and no change, when no frame executes there.
    pub fn ret_breakpoint(&mut self, frames: &Vec<Frame>, rip: u64) -> (r: Option<u64>)
        ensures
            match r {
                Some(ret) => (exists|i: int| first_frame_at(frames@, rip, i) && frames@[i].ret == ret)
                    && final(self)@ == (AllView {
                    break_va: old(self)@.break_va.push(ret),
                    ..old(self)@
                }),
                None => (forall|i: int| !first_frame_at(frames@, rip, i)) && final(self)@ == old(
                    self,
                )@,
            },
    {
        match get_real_frame(frames, rip) {
            Some(f) => {
                self.break_va.push(f.ret);
                Some(f.ret)
            },
            None => None,
        }
    }
}


/// The kinds of debug exceptions the debugger tells apart.
#[derive(Debug, Clone, Copy, PartialEq, Eq, Structural)]
pub enum ExceptionKind {
    Breakpoint,
    SingleStep,
    ArrayBoundsExceeded,
    DatatypeMisalignment,
    FltDenormalOperand,
    FltDivideByZero,
    FltInexactResult,
    FltInvalidOperation,
    FltOverflow,
    IllegalInstruction,
    StackOverflow,
    AccessViolation,
    Other,
}

/// The kind of an exception code (a breakpoint or single step of a 32-bit
/// program running on a 64-bit system counts as one).
pub open spec fn exception_kind(code: u32) -> ExceptionKind {
    if code == 0x80000003 || code == 0x4000001f {
        ExceptionKind::Breakpoint
    } else if code == 0x80000004 || code == 0x4000001e {
        ExceptionKind::SingleStep
    } else if code == 0xC000008C {
        ExceptionKind::ArrayBoundsExceeded
    } else if code == 0x80000002 {
        ExceptionKind::DatatypeMisalignment
    } else if code == 0xC000008D {
        ExceptionKind::FltDenormalOperand
    } else if code == 0xC000008E {
        ExceptionKind::FltDivideByZero
    } else if code == 0xC000008F {
        ExceptionKind::FltInexactResult
    } else if code == 0xC0000090 {
        ExceptionKind::FltInvalidOperation
    } else if code == 0xC0000091 {
        ExceptionKind::FltOverflow
    } else if code == 0xC000001D {
        ExceptionKind::IllegalInstruction
    } else if code == 0xC00000FD {
        ExceptionKind::StackOverflow
    } else if code == 0xC0000005 {
        ExceptionKind::AccessViolation
    } else {
        ExceptionKind::Other
    }
}

/// The kind of an exception code (see `exception_kind`).
pub fn classify_exception(code: u32) -> (r: ExceptionKind)
    ensures
        r == exception_kind(code),
{
    if code == 0x80000003 || code == 0x4000001f {
        ExceptionKind::Breakpoint
    } else if code == 0x80000004 || code == 0x4000001e {
        ExceptionKind::SingleStep
    } else if code == 0xC000008C {
        ExceptionKind::ArrayBoundsExceeded
    } else if code == 0x80000002 {
        ExceptionKind::DatatypeMisalignment
    } else if code == 0xC000008D {
        ExceptionKind::FltDenormalOperand
    } else if code == 0xC000008E {
        ExceptionKind::FltDivideByZero
    } else if code == 0xC000008F {
        ExceptionKind::FltInexactResult
    } else if code == 0xC0000090 {
        ExceptionKind::FltInvalidOperation
    } else if code == 0xC0000091 {
        ExceptionKind::FltOverflow
    } else if code == 0xC000001D {
        ExceptionKind::IllegalInstruction
    } else if code == 0xC00000FD {
        ExceptionKind::StackOverflow
    } else if code == 0xC0000005 {
        ExceptionKind::AccessViolation
    } else {
        ExceptionKind::Other
    }
}

/// Whether an exception of kind `k` ends the debugging session: the fatal
/// faults do, breakpoints, single steps, bounds errors and floating-point
/// overflows do not.
pub open spec fn exception_stops(k: ExceptionKind) -> bool {
    match k {
        ExceptionKind::DatatypeMisalignment | ExceptionKind::FltDenormalOperand
        | ExceptionKind::FltDivideByZero | ExceptionKind::FltInexactResult
        | ExceptionKind::FltInvalidOperation | ExceptionKind::IllegalInstruction
        | ExceptionKind::StackOverflow | ExceptionKind::AccessViolation => true,
        _ => false,
    }
}

impl ExceptionKind {
    /// See `exception_stops`.
    pub fn stops(&self) -> (r: bool)
        ensures
            r == exception_stops(*self),
    {
        match self {
            ExceptionKind::DatatypeMisalignment | ExceptionKind::FltDenormalOperand
            | ExceptionKind::FltDivideByZero | ExceptionKind::FltInexactResult
            | ExceptionKind::FltInvalidOperation | ExceptionKind::IllegalInstruction
            | ExceptionKind::StackOverflow | ExceptionKind::AccessViolation => true,
            _ => false,
        }
    }
}

/// The access that caused an access violation, from the first word of the
/// exception information.
pub open spec fn access_text(t: u64) -> Seq<char> {
    if t == 0 {
        "read"@
    } else if t == 1 {
        "write"@
    } else if t == 8 {
        "execute"@
    } else {
        "unknown"@
    }
}

/// See `access_text`.
pub fn access_str(t: u64) -> (r: &'static str)
    ensures
        r@ == access_text(t),
{
    if t == 0 {
        "read"
    } else if t == 1 {
        "write"
    } else if t == 8 {
        "execute"
    } else {
        "unknown"
    }
}


/// `ctx` with the watchpoints `ws` armed in slots 0, 1, ... in order.
pub open spec fn arm_all(ctx: Context64, ws: Seq<WatchView>, frames: Seq<Frame>, base: u64) -> Context64
    decreases ws.len(),
{
    if ws.len() == 0 {
        ctx
    } else {
        armed(arm_all(ctx, ws.drop_last(), frames, base), ws.last(), (ws.len() - 1) as usize, frames, base)
    }
}

/// The 32-bit counterpart of `arm_all`.
pub open spec fn arm_all32(ctx: Context32, ws: Seq<WatchView>, frames: Seq<Frame>, base: u64) -> Context32
    decreases ws.len(),
{
    if ws.len() == 0 {
        ctx
    } else {
        armed32(arm_all32(ctx, ws.drop_last(), frames, base), ws.last(), (ws.len() - 1) as usize, frames, base)
    }
}

impl All {
    /// Arms every watchpoint in `ctx` when the program starts (past eleven
    /// watchpoints the control register has no room for their bits).
    pub fn set_watchpoints64(&self, ctx: &mut Context64, frames: &Vec<Frame>, base: u64)
        requires
            self@.watchpts.len() <= 12,
        ensures
            *final(ctx) == arm_all(*old(ctx), self@.watchpts, frames@, base),
    {
        let mut i: usize = 0;
        while i < self.watchpts.len()
            invariant
                i <= self.watchpts.len() <= 12,
                *ctx == arm_all(*old(ctx), self@.watchpts.take(i as int), frames@, base),
            decreases self.watchpts.len() - i,
        {
            proof {
                assert(self@.watchpts.take(i + 1).drop_last() =~= self@.watchpts.take(i as int));
                assert(self@.watchpts[i as int] == self.watchpts@[i as int]@);
            }
            set_dreg(ctx, &self.watchpts[i], i, frames, base);
            i = i + 1;
        }
        proof {
            assert(self@.watchpts.take(i as int) =~= self@.watchpts);
        }
    }

    /// Arms every watchpoint in a 32-bit context when the program starts
    /// (a 32-bit control register has room for four).
    pub fn set_watchpoints32(&self, ctx: &mut Context32, frames: &Vec<Frame>, base: u64)
        requires
            self@.watchpts.len() <= 4,
        ensures
            *final(ctx) == arm_all32(*old(ctx), self@.watchpts, frames@, base),
    {
        let mut i: usize = 0;
        while i < self.watchpts.len()
            invariant
                i <= self.watchpts.len() <= 4,
                *ctx == arm_all32(*old(ctx), self@.watchpts.take(i as int), frames@, base),
            decreases self.watchpts.len() - i,
        {
            proof {
                assert(self@.watchpts.take(i + 1).drop_last() =~= self@.watchpts.take(i as int));
                assert(self@.watchpts[i as int] == self.watchpts@[i as int]@);
            }
            set_watchpoint32(ctx, &self.watchpts[i], i, frames, base);
            i = i + 1;
        }
        proof {
            assert(self@.watchpts.take(i as int) =~= self@.watchpts);
        }
    }
}


/// After a breakpoint exception the instruction pointer is one past the
/// `int3`; this moves it back onto the breakpoint's address.
pub fn rewind64(ctx: &mut Context64)
    requires
        old(ctx).rip >= 1,
    ensures
        *final(ctx) == (Context64 { rip: (old(ctx).rip - 1) as u64, ..*old(ctx) }),
{
    ctx.rip = ctx.rip - 1;
}

/// See `rewind64`.
pub fn rewind32(ctx: &mut Context32)
    requires
        old(ctx).eip >= 1,
    ensures
        *final(ctx) == (Context32 { eip: (old(ctx).eip - 1) as u32, ..*old(ctx) }),
{
    ctx.eip = ctx.eip - 1;
}

/// A hook takes execution to its replacement, relative to the image base.
pub fn redirect64(ctx: &mut Context64, h: Hook, base: u64)
    requires
        h.replacen + base <= u64::MAX,
    ensures
        *final(ctx) == (Context64 { rip: (h.replacen + base) as u64, ..*old(ctx) }),
{
    ctx.rip = h.replacen + base;
}

/// See `redirect64`; a 32-bit program gets the low 32 bits of the address.
pub fn redirect32(ctx: &mut Context32, h: Hook, base: u64)
    requires
        h.replacen + base <= u64::MAX,
    ensures
        *final(ctx) == (Context32 { eip: ((h.replacen + base) as u64) as u32, ..*old(ctx) }),
{
    let a = h.replacen + base;
    ctx.eip = a as u32;
}

/// The path of a loaded library as shown: without the `\\?\` prefix of a
/// path that the system gives in its long form.
pub open spec fn shown_path(p: Seq<char>) -> Seq<char> {
    if p.len() >= 4 && p.take(4) == seq!['\\', '\\', '?', '\\'] {
        p.skip(4)
    } else {
        p
    }
}

/// See `shown_path`.
pub fn dll_display_path(p: &str) -> (r: String)
    ensures
        r@ == shown_path(p@),
{
    let c = crate::text::chars_of(p);
    if c.len() >= 4 && c[0] == '\\' && c[1] == '\\' && c[2] == '?' && c[3] == '\\' {
        proof {
            assert(c@.take(4) =~= seq!['\\', '\\', '?', '\\']);
        }
        let rest = crate::text::slice_vec(&c, 4, c.len());
        proof {
            assert(rest@ =~= p@.skip(4));
        }
        crate::text::string_from(&rest)
    } else {
        proof {
            if c@.len() >= 4 && c@.take(4) == seq!['\\', '\\', '?', '\\'] {
                assert(c@.take(4)[0] == c@[0]);
                assert(c@.take(4)[1] == c@[1]);
                assert(c@.take(4)[2] == c@[2]);
                assert(c@.take(4)[3] == c@[3]);
            }
        }
        crate::text::string_from(&c)
    }
}


/// The symbols whose name occurs in `line`.
pub open spec fn named_in(line: Seq<char>) -> spec_fn(SymbolFile) -> bool {
    |s: SymbolFile| contains_seq(line, s.name@)
}

/// A line of assembly of a created function with the symbol it names turned
/// into its run-time address: the first symbol whose name occurs in the line
/// decides; a name of more than three characters is replaced everywhere by
/// the address (image base plus offset, in hexadecimal), which requires a
/// positive offset; shorter names leave the line as it is.
pub open spec fn insn_with_addresses(line: Seq<char>, syms: Seq<SymbolFile>, base: u64) -> Result<
    Seq<char>,
    Seq<char>,
> {
    let i = first_index_by(syms, named_in(line));
    if i < syms.len() && syms[i].name@.len() > 3 {
        if syms[i].offset > 0 {
            Ok(
                replace_all(
                    line,
                    syms[i].name@,
                    zero_x() + digits(u64_specs::wrapping_add(syms[i].offset as u64, base) as nat, 16),
                ),
            )
        } else {
            Err("you can only specify functions or global variables: "@ + syms[i].name@)
        }
    } else {
        Ok(line)
    }
}

/// See `insn_with_addresses`.
pub fn get_real_insn(line: &str, syms: &Symbols, base: u64) -> (r: Result<String, String>)
    ensures
        match r {
            Ok(l) => insn_with_addresses(line@, syms.symbol_file@, base) == Ok::<Seq<char>, Seq<char>>(l@),
            Err(m) => insn_with_addresses(line@, syms.symbol_file@, base) == Err::<Seq<char>, Seq<char>>(m@),
        },
{
    let l = chars_of(line);
    let ghost p = named_in(line@);
    let mut i: usize = 0;
    while i < syms.symbol_file.len()
        invariant
            i <= syms.symbol_file.len(),
            l@ == line@,
            p == named_in(line@),
            forall|j: int| 0 <= j < i ==> !p(#[trigger] syms.symbol_file@[j]),
        ensures
            i <= syms.symbol_file.len(),
            forall|j: int| 0 <= j < i ==> !p(#[trigger] syms.symbol_file@[j]),
            i == syms.symbol_file.len() || p(syms.symbol_file@[i as int]),
        decreases syms.symbol_file.len() - i,
    {
        let n = chars_of(syms.symbol_file[i].name.as_str());
        if contains_exec(&l, &n) {
            break;
        }
        i = i + 1;
    }
    proof {
        crate::commands::lemma_first_index_by(syms.symbol_file@, p, i as int);
    }
    if i == syms.symbol_file.len() {
        return Ok(string_from(&l));
    }
    let s = &syms.symbol_file[i];
    let n = chars_of(s.name.as_str());
    if n.len() <= 3 {
        return Ok(string_from(&l));
    }
    if s.offset <= 0 {
        let m = concat(&chars_of("you can only specify functions or global variables: "), &n);
        return Err(string_from(&m));
    }
    let addr = fmt_hex((s.offset as u64).wrapping_add(base));
    let out = replace_all_exec(&l, &n, &addr);
    Ok(string_from(&out))
}

/// The program's memory after a breakpoint is placed at `addr` and the
/// table of saved bytes after it: unless the byte there is `int3` already,
/// it is saved and `int3` replaces it (as `SaveTable::record` decides).
pub open spec fn place_bp(mem: Map<u64, u8>, t: Seq<SaveInsn>, addr: u64) -> (Map<u64, u8>, Seq<SaveInsn>) {
    let o = mem[addr];
    if o != int3() {
        (mem.insert(addr, int3()), t.push(SaveInsn { addr, last_oc: o }))
    } else {
        (mem, t)
    }
}

/// The memory and table after the breakpoint at `addr` is taken out: the
/// oldest byte saved there is written back and leaves the table (as
/// `SaveTable::take` gives it).
pub open spec fn restore_bp(mem: Map<u64, u8>, t: Seq<SaveInsn>, addr: u64) -> (Map<u64, u8>, Seq<SaveInsn>) {
    let i = first_index_by(t, saved_at(addr));
    if i < t.len() {
        (mem.insert(t[i].addr, t[i].last_oc), t.remove(i))
    } else {
        (mem, t)
    }
}

/// Breakpoints placed at each address of `rs` in order.
pub open spec fn place_all(mem: Map<u64, u8>, t: Seq<SaveInsn>, rs: Seq<u64>) -> (Map<u64, u8>, Seq<SaveInsn>)
    decreases rs.len(),
{
    if rs.len() == 0 {
        (mem, t)
    } else {
        let p = place_bp(mem, t, rs[0]);
        place_all(p.0, p.1, rs.drop_first())
    }
}

/// The breakpoints at each address of `rs` taken out in order.
pub open spec fn restore_all(mem: Map<u64, u8>, t: Seq<SaveInsn>, rs: Seq<u64>) -> (Map<u64, u8>, Seq<SaveInsn>)
    decreases rs.len(),
{
    if rs.len() == 0 {
        (mem, t)
    } else {
        let p = restore_bp(mem, t, rs[0]);
        restore_all(p.0, p.1, rs.drop_first())
    }
}

/// Whether breakpoints can be placed at all of `rs` over `mem` and `t`:
/// distinct addresses of the memory, none holding `int3`, none with a byte
/// saved already.
pub open spec fn placeable(mem: Map<u64, u8>, t: Seq<SaveInsn>, rs: Seq<u64>) -> bool {
    &&& rs.no_duplicates()
    &&& forall|k: int|
        0 <= k < rs.len() ==> mem.dom().contains(#[trigger] rs[k]) && mem[rs[k]] != int3()
            && first_index_by(t, saved_at(rs[k])) == t.len()
}

/// Law: taking out a breakpoint just placed (where no byte was saved and
/// none was `int3`) gives back the program's byte and the table.
pub proof fn lemma_restore_undoes_place(mem: Map<u64, u8>, t: Seq<SaveInsn>, addr: u64)
    requires
        mem.dom().contains(addr),
        mem[addr] != int3(),
        first_index_by(t, saved_at(addr)) == t.len(),
    ensures
        restore_bp(place_bp(mem, t, addr).0, place_bp(mem, t, addr).1, addr) == (mem, t),
{
    lemma_record_then_take(t, addr, mem[addr]);
    assert(mem.insert(addr, int3()).insert(addr, mem[addr]) =~= mem);
}

proof fn lemma_no_index_none<T>(s: Seq<T>, p: spec_fn(T) -> bool, j: int)
    requires
        first_index_by(s, p) == s.len(),
        0 <= j < s.len(),
    ensures
        !p(s[j]),
    decreases s.len(),
{
    if s.len() > 0 && !p(s[0]) && j > 0 {
        lemma_no_index_none(s.drop_first(), p, j - 1);
    }
}

/// The memory with `int3` at each address of `rs`.
pub open spec fn with_int3(mem: Map<u64, u8>, rs: Seq<u64>) -> Map<u64, u8>
    decreases rs.len(),
{
    if rs.len() == 0 {
        mem
    } else {
        with_int3(mem.insert(rs[0], int3()), rs.drop_first())
    }
}

/// The entries saved for the addresses `rs` over `mem`.
pub open spec fn saved_of(mem: Map<u64, u8>, rs: Seq<u64>) -> Seq<SaveInsn> {
    rs.map_values(|r: u64| SaveInsn { addr: r, last_oc: mem[r] })
}

/// The memory with each saved byte of `e` written back in order.
pub open spec fn written_back(mem: Map<u64, u8>, e: Seq<SaveInsn>) -> Map<u64, u8>
    decreases e.len(),
{
    if e.len() == 0 {
        mem
    } else {
        written_back(mem.insert(e[0].addr, e[0].last_oc), e.drop_first())
    }
}

proof fn lemma_place_all_shape(mem: Map<u64, u8>, t: Seq<SaveInsn>, rs: Seq<u64>)
    requires
        rs.no_duplicates(),
        forall|k: int| 0 <= k < rs.len() ==> mem.dom().contains(#[trigger] rs[k]) && mem[rs[k]] != int3(),
    ensures
        place_all(mem, t, rs) == (with_int3(mem, rs), t + saved_of(mem, rs)),
    decreases rs.len(),
{
    if rs.len() == 0 {
        assert(t + saved_of(mem, rs) =~= t);
    } else {
        let r0 = rs[0];
        let rest = rs.drop_first();
        let m1 = mem.insert(r0, int3());
        let t1 = t.push(SaveInsn { addr: r0, last_oc: mem[r0] });
        assert(rest.no_duplicates()) by {
            assert forall|i: int, j: int| 0 <= i < rest.len() && 0 <= j < rest.len() && i != j implies rest[i]
                != rest[j] by {
                assert(rest[i] == rs[i + 1] && rest[j] == rs[j + 1]);
            }
        }
        assert forall|k: int| 0 <= k < rest.len() implies m1.dom().contains(#[trigger] rest[k]) && m1[rest[k]]
            != int3() && m1[rest[k]] == mem[rest[k]] by {
            assert(rest[k] == rs[k + 1]);
            assert(rs[k + 1] != rs[0]);
        }
        lemma_place_all_shape(m1, t1, rest);
        assert(saved_of(m1, rest) =~= saved_of(mem, rest)) by {
            assert forall|k: int| 0 <= k < rest.len() implies saved_of(m1, rest)[k] == saved_of(mem, rest)[k] by {
                assert(rest[k] == rs[k + 1]);
                assert(rs[k + 1] != rs[0]);
            }
        }
        assert(t1 + saved_of(mem, rest) =~= t + saved_of(mem, rs));
    }
}

proof fn lemma_restore_all_shape(m2: Map<u64, u8>, t: Seq<SaveInsn>, e: Seq<SaveInsn>, rs: Seq<u64>)
    requires
        rs.no_duplicates(),
        e.len() == rs.len(),
        forall|k: int| 0 <= k < rs.len() ==> (#[trigger] e[k]).addr == rs[k],
        forall|k: int| 0 <= k < rs.len() ==> first_index_by(t, saved_at(#[trigger] rs[k])) == t.len(),
    ensures
        restore_all(m2, t + e, rs) == (written_back(m2, e), t),
    decreases rs.len(),
{
    if rs.len() == 0 {
        assert(t + e =~= t);
    } else {
        let r0 = rs[0];
        let s = t + e;
        assert forall|j: int| 0 <= j < t.len() implies !saved_at(r0)(#[trigger] s[j]) by {
            assert(first_index_by(t, saved_at(rs[0])) == t.len());
            lemma_no_index_none(t, saved_at(r0), j);
            assert(s[j] == t[j]);
        }
        assert(s[t.len() as int] == e[0]);
        crate::commands::lemma_first_index_by(s, saved_at(r0), t.len() as int);
        let rest = rs.drop_first();
        let e1 = e.drop_first();
        assert(s.remove(t.len() as int) =~= t + e1);
        assert(rest.no_duplicates()) by {
            assert forall|i: int, j: int| 0 <= i < rest.len() && 0 <= j < rest.len() && i != j implies rest[i]
                != rest[j] by {
                assert(rest[i] == rs[i + 1] && rest[j] == rs[j + 1]);
            }
        }
        assert forall|k: int| 0 <= k < rest.len() implies (#[trigger] e1[k]).addr == rest[k] by {
            assert(e1[k] == e[k + 1] && rest[k] == rs[k + 1]);
        }
        assert forall|k: int| 0 <= k < rest.len() implies first_index_by(t, saved_at(#[trigger] rest[k])) == t.len() by {
            assert(rest[k] == rs[k + 1]);
        }
        lemma_restore_all_shape(m2.insert(e[0].addr, e[0].last_oc), t, e1, rest);
    }
}

proof fn lemma_written_back_original(mem: Map<u64, u8>, m2: Map<u64, u8>, rs: Seq<u64>)
    requires
        rs.no_duplicates(),
        forall|k: int| 0 <= k < rs.len() ==> mem.dom().contains(#[trigger] rs[k]),
        m2.dom() == mem.dom(),
        forall|a: u64| mem.dom().contains(a) && !rs.contains(a) ==> m2[a] == mem[a],
    ensures
        written_back(with_int3(m2, rs), saved_of(mem, rs)) == mem,
    decreases rs.len(),
{
    if rs.len() == 0 {
        assert(m2 =~= mem);
    } else {
        let r0 = rs[0];
        let rest = rs.drop_first();
        assert(rest.no_duplicates()) by {
            assert forall|i: int, j: int| 0 <= i < rest.len() && 0 <= j < rest.len() && i != j implies rest[i]
                != rest[j] by {
                assert(rest[i] == rs[i + 1] && rest[j] == rs[j + 1]);
            }
        }
        assert forall|k: int| 0 <= k < rest.len() implies mem.dom().contains(#[trigger] rest[k]) by {
            assert(rest[k] == rs[k + 1]);
        }
        // placing the first breakpoint and writing its byte back first
        // amounts to a memory that differs from `mem` only on `rest`
        let m3 = m2.insert(r0, mem[r0]);
        assert(!rest.contains(r0)) by {
            if rest.contains(r0) {
                let k = choose|k: int| 0 <= k < rest.len() && rest[k] == r0;
                assert(rs[k + 1] == rs[0]);
            }
        }
        assert forall|a: u64| mem.dom().contains(a) && !rest.contains(a) implies m3[a] == mem[a] by {
            if a != r0 {
                assert(!rs.contains(a)) by {
                    if rs.contains(a) {
                        let k = choose|k: int| 0 <= k < rs.len() && rs[k] == a;
                        assert(k != 0);
                        assert(rest[k - 1] == a);
                    }
                }
            }
        }
        assert(m3.dom() =~= mem.dom());
        lemma_written_back_original(mem, m3, rest);
        lemma_int3_commutes(m2, r0, rest, mem[r0]);
        assert(saved_of(mem, rs).drop_first() =~= saved_of(mem, rest));
    }
}

proof fn lemma_int3_commutes(m: Map<u64, u8>, r0: u64, rest: Seq<u64>, b: u8)
    requires
        !rest.contains(r0),
    ensures
        with_int3(m.insert(r0, int3()), rest).insert(r0, b) == with_int3(m.insert(r0, b), rest),
    decreases rest.len(),
{
    if rest.len() > 0 {
        let r1 = rest[0];
        assert(rest[0] != r0);
        assert(!rest.drop_first().contains(r0)) by {
            if rest.drop_first().contains(r0) {
                let k = choose|k: int| 0 <= k < rest.drop_first().len() && rest.drop_first()[k] == r0;
                assert(rest[k + 1] == r0);
            }
        }
        assert(m.insert(r0, int3()).insert(r1, int3()) =~= m.insert(r1, int3()).insert(r0, int3()));
        assert(m.insert(r0, b).insert(r1, int3()) =~= m.insert(r1, int3()).insert(r0, b));
        lemma_int3_commutes(m.insert(r1, int3()), r0, rest.drop_first(), b);
    } else {
        assert(m.insert(r0, int3()).insert(r0, b) =~= m.insert(r0, b));
    }
}

/// Law: taking out, in order, the breakpoints placed at distinct addresses
/// (none holding `int3`, none with a byte saved already) gives back every
/// byte of the program and the table of saved bytes.
pub proof fn lemma_restore_all_undoes_place_all(mem: Map<u64, u8>, t: Seq<SaveInsn>, rs: Seq<u64>)
    requires
        placeable(mem, t, rs),
    ensures
        restore_all(place_all(mem, t, rs).0, place_all(mem, t, rs).1, rs) == (mem, t),
{
    lemma_place_all_shape(mem, t, rs);
    let e = saved_of(mem, rs);
    assert forall|k: int| 0 <= k < rs.len() implies first_index_by(t, saved_at(#[trigger] rs[k])) == t.len() by {
    }
    lemma_restore_all_shape(with_int3(mem, rs), t, e, rs);
    lemma_written_back_original(mem, mem, rs);
}

/// The table after `SaveTable::record` saved, in order, the byte `os[k]`
/// at each address `rs[k]` (bytes that are not `int3`, so each is saved).
pub open spec fn record_all(t: Seq<SaveInsn>, rs: Seq<u64>, os: Seq<u8>) -> Seq<SaveInsn> {
    t + Seq::new(rs.len(), |k: int| SaveInsn { addr: rs[k], last_oc: os[k] })
}

/// `SaveTable::take` at each address of `rs` in order: the table left and
/// the byte handed back each time (`None` when nothing was saved there).
pub open spec fn take_all(t: Seq<SaveInsn>, rs: Seq<u64>) -> (Seq<SaveInsn>, Seq<Option<u8>>)
    decreases rs.len(),
{
    if rs.len() == 0 {
        (t, Seq::empty())
    } else {
        let i = first_index_by(t, saved_at(rs[0]));
        let t1 = if i < t.len() { t.remove(i) } else { t };
        let got = if i < t.len() { Some(t[i].last_oc) } else { None };
        let rest = take_all(t1, rs.drop_first());
        (rest.0, seq![got] + rest.1)
    }
}

/// Law: taking out, in order, the breakpoints recorded at distinct
/// addresses where nothing was saved before hands back each recorded byte
/// and leaves the table as it was.
pub proof fn lemma_take_all_after_record_all(t: Seq<SaveInsn>, rs: Seq<u64>, os: Seq<u8>)
    requires
        rs.no_duplicates(),
        os.len() == rs.len(),
        forall|k: int| 0 <= k < rs.len() ==> first_index_by(t, saved_at(#[trigger] rs[k])) == t.len(),
    ensures
        take_all(record_all(t, rs, os), rs) == (t, os.map_values(|o: u8| Some(o))),
    decreases rs.len(),
{
    let e = Seq::new(rs.len(), |k: int| SaveInsn { addr: rs[k], last_oc: os[k] });
    if rs.len() == 0 {
        assert(record_all(t, rs, os) =~= t);
        assert(os.map_values(|o: u8| Some(o)) =~= Seq::<Option<u8>>::empty());
    } else {
        let r0 = rs[0];
        let s = t + e;
        assert(s == record_all(t, rs, os));
        assert forall|j: int| 0 <= j < t.len() implies !saved_at(r0)(#[trigger] s[j]) by {
            assert(first_index_by(t, saved_at(rs[0])) == t.len());
            lemma_no_index_none(t, saved_at(r0), j);
            assert(s[j] == t[j]);
        }
        assert(s[t.len() as int] == e[0]);
        crate::commands::lemma_first_index_by(s, saved_at(r0), t.len() as int);
        let rest = rs.drop_first();
        let os1 = os.drop_first();
        assert(s.remove(t.len() as int) =~= record_all(t, rest, os1));
        assert(rest.no_duplicates()) by {
            assert forall|i: int, j: int| 0 <= i < rest.len() && 0 <= j < rest.len() && i != j implies rest[i]
                != rest[j] by {
                assert(rest[i] == rs[i + 1] && rest[j] == rs[j + 1]);
            }
        }
        assert forall|k: int| 0 <= k < rest.len() implies first_index_by(t, saved_at(#[trigger] rest[k])) == t.len() by {
            assert(rest[k] == rs[k + 1]);
        }
        lemma_take_all_after_record_all(t, rest, os1);
        assert(seq![Some(os[0])] + os1.map_values(|o: u8| Some(o)) =~= os.map_values(|o: u8| Some(o)));
    }
}

} // verus!
