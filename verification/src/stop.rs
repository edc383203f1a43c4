//! The commands read while the debugged program is stopped, and the
//! decisions behind them: which command a line names, where the current
//! function starts, returning from it, skipping functions, quitting.

use vstd::prelude::*;
use vstd::wrapping::{u32_specs, u64_specs};
use crate::cli::{All, AllView};
use crate::commands::first_index_by;
use crate::context::{Context32, Context64};
use crate::number::{str_to_spec, str_to_usize, IntKind, ParseError};
use crate::pe::FuncEntry;
use crate::stack::{first_frame_at, get_real_frame, Frame};
use crate::symbol::{Symbols, SymbolFile};
use crate::target::{addr_br, get_addr_br};
use crate::text::{chars_of, chars_eq_str, str_eq, trim, trim_exec, string_of};

verus! {

/// The functions whose range (moved by `base`, end included) holds `rip`.
pub open spec fn func_around(rip: u64, base: u64) -> spec_fn(FuncEntry) -> bool {
    |f: FuncEntry|
        u64_specs::wrapping_add(f.begin_address as u64, base) <= rip && rip <= u64_specs::wrapping_add(
            f.end_address as u64,
            base,
        )
}

/// Where the function being executed starts: the start (moved by `base`)
/// of the first function whose range holds `rip`, else `rip` itself.
pub open spec fn current_function(funcs: Seq<FuncEntry>, rip: u64, base: u64) -> u64 {
    let i = first_index_by(funcs, func_around(rip, base));
    if i < funcs.len() {
        u64_specs::wrapping_add(funcs[i].begin_address as u64, base)
    } else {
        rip
    }
}

/// See `current_function`.
pub fn function_start(funcs: &Vec<FuncEntry>, rip: u64, base: u64) -> (r: u64)
    ensures
        r == current_function(funcs@, rip, base),
{
    let ghost p = func_around(rip, base);
    let mut i: usize = 0;
    while i < funcs.len()
        invariant
            i <= funcs.len(),
            p == func_around(rip, base),
            forall|j: int| 0 <= j < i ==> !p(#[trigger] funcs@[j]),
        decreases funcs.len() - i,
    {
        let f = funcs[i];
        let b = (f.begin_address as u64).wrapping_add(base);
        let e = (f.end_address as u64).wrapping_add(base);
        if b <= rip && rip <= e {
            proof {
                crate::commands::lemma_first_index_by(funcs@, p, i as int);
            }
            return b;
        }
        i = i + 1;
    }
    proof {
        crate::commands::lemma_first_index_by(funcs@, p, i as int);
    }
    rip
}

/// How many frames `backtrace [<count>|full]` shows.
pub fn backtrace_count(arg: Option<&str>) -> (r: Result<usize, ParseError>)
    ensures
        match arg {
            None => r == Ok::<usize, ParseError>(usize::MAX),
            Some(a) => if a@ == "full"@ {
                r == Ok::<usize, ParseError>(usize::MAX)
            } else {
                crate::number::agrees(r, str_to_spec(a@, IntKind::Usize), |v: usize| v as int)
            },
        },
{
    match arg {
        None => Ok(usize::MAX),
        Some(a) => {
            if str_eq(a, "full") {
                Ok(usize::MAX)
            } else {
                str_to_usize(a)
            }
        },
    }
}

/// Whether an answer to "stop this process?" confirms.
pub fn quit_confirmed(answer: &str) -> (r: bool)
    ensures
        r == (trim(answer@) == "y"@ || trim(answer@) == "yes"@),
{
    let t = trim_exec(&chars_of(answer));
    chars_eq_str(&t, "y") || chars_eq_str(&t, "yes")
}

/// An answer to "kill the attached process?": `Some(true)` for yes,
/// `Some(false)` for no, `None` to ask again.
pub fn kill_answer(answer: &str) -> (r: Option<bool>)
    ensures
        r == if trim(answer@) == "n"@ || trim(answer@) == "nop"@ {
            Some(false)
        } else if trim(answer@) == "y"@ || trim(answer@) == "yes"@ {
            Some(true)
        } else {
            None::<bool>
        },
{
    let t = trim_exec(&chars_of(answer));
    if chars_eq_str(&t, "n") || chars_eq_str(&t, "nop") {
        Some(false)
    } else if chars_eq_str(&t, "y") || chars_eq_str(&t, "yes") {
        Some(true)
    } else {
        None
    }
}

/// `ret` in a 64-bit program: the instruction pointer jumps to the return
/// address of the frame executing at it, and the stack pointer goes down by
/// the pointer size; `false`, and no change, when no frame executes there.
pub fn handle_ret64(ctx: &mut Context64, frames: &Vec<Frame>, ptr_size: u64) -> (r: bool)
    ensures
        r == exists|i: int| first_frame_at(frames@, old(ctx).rip, i),
        r ==> exists|i: int|
            first_frame_at(frames@, old(ctx).rip, i) && *final(ctx) == (Context64 {
                rip: frames@[i].ret,
                rsp: u64_specs::wrapping_sub(old(ctx).rsp, ptr_size),
                ..*old(ctx)
            }),
        !r ==> *final(ctx) == *old(ctx),
{
    match get_real_frame(frames, ctx.rip) {
        Some(f) => {
            ctx.rip = f.ret;
            ctx.rsp = ctx.rsp.wrapping_sub(ptr_size);
            true
        },
        None => {
            proof {
                assert forall|i: int| !first_frame_at(frames@, old(ctx).rip, i) by {}
            }
            false
        },
    }
}

/// `ret` in a 32-bit program (addresses keep their low 32 bits).
pub fn handle_ret32(ctx: &mut Context32, frames: &Vec<Frame>, ptr_size: u64) -> (r: bool)
    ensures
        r == exists|i: int| #[trigger] first_frame_at(frames@, old(ctx).eip as u64, i),
        r ==> exists|i: int|
            #[trigger] first_frame_at(frames@, old(ctx).eip as u64, i) && *final(ctx) == (Context32 {
                eip: frames@[i].ret as u32,
                esp: u32_specs::wrapping_sub(old(ctx).esp, ptr_size as u32),
                ..*old(ctx)
            }),
        !r ==> *final(ctx) == *old(ctx),
{
    match get_real_frame(frames, ctx.eip as u64) {
        Some(f) => {
            ctx.eip = f.ret as u32;
            ctx.esp = ctx.esp.wrapping_sub(ptr_size as u32);
            true
        },
        None => {
            proof {
                assert forall|i: int| !#[trigger] first_frame_at(frames@, old(ctx).eip as u64, i) by {}
            }
            false
        },
    }
}

/// What `skip <target>` did at a breakpoint.
#[derive(Debug)]
pub enum StopSkip {
    Usage,
    /// The target could not be read; the message to show.
    BadTarget(String),
    /// The target designates address 0.
    UnknownSymbol,
    /// Calls of the function at this (relative) address are skipped from now
    /// on.
    Added(u64),
}

impl All {
    /// `skip <target>` at a breakpoint: the target is read by `addr_br`.
    pub fn handle_skip(&mut self, linev: &[&str], syms: &Symbols) -> (r: StopSkip)
        ensures
            linev@.len() != 2 ==> r is Usage && final(self)@ == old(self)@,
            linev@.len() == 2 ==> match addr_br(linev@[1]@, syms.symbol_file@) {
                Err(m) => (r matches StopSkip::BadTarget(e) && e@ == m) && final(self)@ == old(
                    self,
                )@,
                Ok(a) => if a == 0 {
                    r is UnknownSymbol && final(self)@ == old(self)@
                } else {
                    (r matches StopSkip::Added(x) && x == a) && final(self)@ == (AllView {
                        skip_addr: old(self)@.skip_addr.push(a),
                        ..old(self)@
                    })
                },
            },
    {
        if linev.len() != 2 {
            return StopSkip::Usage;
        }
        match get_addr_br(linev[1], syms) {
            Err(e) => StopSkip::BadTarget(e),
            Ok(a) => {
                if a == 0 {
                    StopSkip::UnknownSymbol
                } else {
                    self.skip_addr.push(a);
                    StopSkip::Added(a)
                }
            },
        }
    }
}

} // verus!
