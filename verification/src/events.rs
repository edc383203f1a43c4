//! The debug loop as a state machine: for each debug event the program
//! reports, what the debugger does, and after the event was handled,
//! whether the program resumes or the debugger detaches.

use vstd::prelude::*;
use crate::cli::{AfterB, All, AllView};
use crate::commands::first_index_by;
use crate::dbg::{
    after_at, break_plan, classify_exception, exception_kind, exception_stops, int3,
    lemma_restore_undoes_place, place_bp, restore_bp, saved_at, BreakPlan, ExceptionKind, SaveInsn,
};

verus! {

/// What the debug loop keeps between events.
#[derive(Debug, Clone, Copy, PartialEq, Eq, Structural)]
pub struct LoopState {
    /// Whether the session goes on; once false, the debugger detaches.
    pub go_on: bool,
    /// Where the image of the program is loaded (0 before it is known and
    /// after the session).
    pub base: u64,
}

/// A debug event of the program, or the outcome of what the debugger did.
#[derive(Debug, Clone, Copy, PartialEq, Eq, Structural)]
pub enum DebugEvent {
    /// An exception with its code, the address of the instruction, and the
    /// first two words of its information.
    Exception { code: u32, addr: u64, info0: u64, info1: u64 },
    CreateProcess { base: u64 },
    ExitProcess { code: u32 },
    CreateThread { start: u64 },
    ExitThread { code: u32 },
    LoadDll { base: u64 },
    UnloadDll { base: u64 },
    DebugString,
    /// Any other event.
    Other,
    /// The action of the last event was carried out; `go_on` is false when
    /// it ended the session (a prompt that quit).
    Handled { go_on: bool },
    /// Waiting for an event failed.
    WaitFailed,
    /// Resuming the program failed.
    ContinueFailed,
}

/// What the debugger does next.
#[derive(Debug, Clone, Copy, PartialEq, Eq, Structural)]
pub enum LoopAction {
    /// A breakpoint was hit at `addr`: re-arm, redirect, stop at the prompt
    /// and place return breakpoints as `plan` says.
    Breakpoint { addr: u64, plan: BreakPlan },
    /// A single step at `addr` (after a breakpoint was stepped over).
    SingleStep { addr: u64 },
    /// Report an access violation by the instruction at `addr` (`access` is
    /// the kind of access, `target` the address); the session ends.
    AccessViolation { addr: u64, access: u64, target: u64 },
    /// Report an exception of kind `kind` at `addr`.
    Exception { kind: ExceptionKind, addr: u64 },
    /// The process was created with its image at `base`: place the
    /// breakpoints of the configuration.
    ProcessCreated { base: u64 },
    /// Report the exit code; the session ends.
    ProcessExited { code: u32 },
    ThreadCreated { start: u64 },
    ThreadExited { code: u32 },
    DllLoaded { base: u64 },
    DllUnloaded { base: u64 },
    DebugString,
    /// Nothing to do for this event.
    Ignore,
    /// Resume the program.
    Continue,
    /// Forget the run-time addresses and detach from the program; the
    /// session is over.
    Detach,
}

/// The state at the start of a session.
pub open spec fn loop_start() -> LoopState {
    LoopState { go_on: true, base: 0 }
}

/// One step of the debug loop: the next state and the action for event
/// `ev`, given the configuration `a`.
pub open spec fn loop_step(st: LoopState, a: AllView, ev: DebugEvent) -> (LoopState, LoopAction) {
    match ev {
        DebugEvent::Exception { code, addr, info0, info1 } => {
            let k = exception_kind(code);
            match k {
                ExceptionKind::Breakpoint => (
                    st,
                    LoopAction::Breakpoint { addr, plan: break_plan(a, addr, st.base) },
                ),
                ExceptionKind::SingleStep => (st, LoopAction::SingleStep { addr }),
                ExceptionKind::AccessViolation => (
                    LoopState { go_on: false, ..st },
                    LoopAction::AccessViolation { addr, access: info0, target: info1 },
                ),
                _ => (
                    LoopState { go_on: st.go_on && !exception_stops(k), ..st },
                    LoopAction::Exception { kind: k, addr },
                ),
            }
        },
        DebugEvent::CreateProcess { base } => (
            LoopState { base, ..st },
            LoopAction::ProcessCreated { base },
        ),
        DebugEvent::ExitProcess { code } => (
            LoopState { go_on: false, ..st },
            LoopAction::ProcessExited { code },
        ),
        DebugEvent::CreateThread { start } => (st, LoopAction::ThreadCreated { start }),
        DebugEvent::ExitThread { code } => (st, LoopAction::ThreadExited { code }),
        DebugEvent::LoadDll { base } => (st, LoopAction::DllLoaded { base }),
        DebugEvent::UnloadDll { base } => (st, LoopAction::DllUnloaded { base }),
        DebugEvent::DebugString => (st, LoopAction::DebugString),
        DebugEvent::Other => (st, LoopAction::Ignore),
        DebugEvent::Handled { go_on } => if st.go_on && go_on {
            (st, LoopAction::Continue)
        } else {
            (LoopState { go_on: false, base: 0 }, LoopAction::Detach)
        },
        DebugEvent::WaitFailed | DebugEvent::ContinueFailed => (
            LoopState { go_on: false, base: 0 },
            LoopAction::Detach,
        ),
    }
}

impl LoopState {
    /// The state at the start of a session (see `loop_start`).
    pub fn new() -> (r: LoopState)
        ensures
            r == loop_start(),
    {
        LoopState { go_on: true, base: 0 }
    }
}

/// One step of the debug loop (see `loop_step`).
pub fn debug_step(state: &mut LoopState, all: &All, ev: &DebugEvent) -> (act: LoopAction)
    ensures
        (*final(state), act) == loop_step(*old(state), all@, *ev),
{
    match *ev {
        DebugEvent::Exception { code, addr, info0, info1 } => {
            let k = classify_exception(code);
            match k {
                ExceptionKind::Breakpoint => {
                    let plan = all.breakpoint_plan(addr, state.base);
                    LoopAction::Breakpoint { addr, plan }
                },
                ExceptionKind::SingleStep => LoopAction::SingleStep { addr },
                ExceptionKind::AccessViolation => {
                    state.go_on = false;
                    LoopAction::AccessViolation { addr, access: info0, target: info1 }
                },
                _ => {
                    state.go_on = state.go_on && !k.stops();
                    LoopAction::Exception { kind: k, addr }
                },
            }
        },
        DebugEvent::CreateProcess { base } => {
            state.base = base;
            LoopAction::ProcessCreated { base }
        },
        DebugEvent::ExitProcess { code } => {
            state.go_on = false;
            LoopAction::ProcessExited { code }
        },
        DebugEvent::CreateThread { start } => LoopAction::ThreadCreated { start },
        DebugEvent::ExitThread { code } => LoopAction::ThreadExited { code },
        DebugEvent::LoadDll { base } => LoopAction::DllLoaded { base },
        DebugEvent::UnloadDll { base } => LoopAction::DllUnloaded { base },
        DebugEvent::DebugString => LoopAction::DebugString,
        DebugEvent::Other => LoopAction::Ignore,
        DebugEvent::Handled { go_on } => {
            if state.go_on && go_on {
                LoopAction::Continue
            } else {
                state.go_on = false;
                state.base = 0;
                LoopAction::Detach
            }
        },
        DebugEvent::WaitFailed | DebugEvent::ContinueFailed => {
            state.go_on = false;
            state.base = 0;
            LoopAction::Detach
        },
    }
}

/// Law: how the debug loop answers an exception by its Windows code. A
/// breakpoint (`EXCEPTION_BREAKPOINT` 0x80000003, or 0x4000001F in a 32-bit
/// program) is handled as a breakpoint hit at its address, a single step
/// (0x80000004, or 0x4000001E) as a single step; an access violation
/// (0xC0000005) is reported with its access kind and target and ends the
/// session. Misalignment (0x80000002), the floating-point faults denormal
/// operand, division by zero, inexact result and invalid operation
/// (0xC000008D to 0xC0000090), an illegal instruction (0xC000001D) and a
/// stack overflow (0xC00000FD) end the session; an array bound exceeded
/// (0xC000008C) and a floating-point overflow (0xC0000091) are reported and
/// the session goes on. None of these changes where the image is.
pub proof fn lemma_exception_codes(st: LoopState, a: AllView, code: u32, addr: u64, info0: u64, info1: u64)
    ensures
        ({
            let (st2, act) = loop_step(st, a, DebugEvent::Exception { code, addr, info0, info1 });
            &&& st2.base == st.base
            &&& (code == 0x80000003 || code == 0x4000001f) ==> st2 == st && act == (LoopAction::Breakpoint {
                addr,
                plan: break_plan(a, addr, st.base),
            })
            &&& (code == 0x80000004 || code == 0x4000001e) ==> st2 == st && act == (LoopAction::SingleStep { addr })
            &&& code == 0xC0000005 ==> !st2.go_on && act == (LoopAction::AccessViolation {
                addr,
                access: info0,
                target: info1,
            })
            &&& (code == 0x80000002 || code == 0xC000008D || code == 0xC000008E || code == 0xC000008F
                || code == 0xC0000090 || code == 0xC000001D || code == 0xC00000FD) ==> !st2.go_on
                && act is Exception
            &&& (code == 0xC000008C || code == 0xC0000091) ==> st2 == st && act is Exception
        }),
{
}

/// Law: once the session is over, every event leads to detaching again.
pub proof fn lemma_detached_stays_detached(st: LoopState, a: AllView, go_on: bool)
    requires
        !st.go_on,
    ensures
        loop_step(st, a, DebugEvent::Handled { go_on }).1 == LoopAction::Detach,
        !loop_step(st, a, DebugEvent::Handled { go_on }).0.go_on,
{
}

/// Law: an event that ends the program (its exit, an access violation, or
/// an exception that stops it) is followed by detaching, whatever its
/// handling reports.
pub proof fn lemma_end_events_detach(st: LoopState, a: AllView, ev: DebugEvent, go_on: bool)
    requires
        ev matches DebugEvent::ExitProcess { .. } || (ev matches DebugEvent::Exception { code, .. }
            && exception_stops(exception_kind(code))),
    ensures
        loop_step(loop_step(st, a, ev).0, a, DebugEvent::Handled { go_on }).1 == LoopAction::Detach,
{
}

/// Law: the breakpoint placed after the one at `b`, at `next` over the
/// program's byte there, and recorded with `All::add_after_b`, is recognised
/// when it is hit: the debug loop plans to re-arm `b` with that very entry,
/// and writing back the byte the entry carries leaves the memory at `next` as
/// the program had it. Putting the breakpoint at `b` back (where no byte is
/// saved for `b` any more, its own byte having been handed back when it was
/// hit) saves the byte now at `b`, and taking it out later gives that byte
/// and the table back.
pub proof fn lemma_after_breakpoint_rearms(
    st: LoopState,
    a: AllView,
    mem: Map<u64, u8>,
    t: Seq<SaveInsn>,
    b: u64,
    next: u64,
    code: u32,
    info0: u64,
    info1: u64,
)
    requires
        exception_kind(code) == ExceptionKind::Breakpoint,
        first_index_by(a.after_b, after_at(next)) == a.after_b.len(),
        mem.dom().contains(next),
        mem.dom().contains(b),
        b != next,
        mem[b] != int3(),
        first_index_by(t, saved_at(b)) == t.len(),
    ensures
        ({
            let ab = AfterB { last_addr_b: b, after_b: next, last_oc: mem[next] };
            let armed = AllView { after_b: a.after_b.push(ab), ..a };
            let ev = DebugEvent::Exception { code, addr: next, info0, info1 };
            let back = mem.insert(next, int3()).insert(ab.after_b, ab.last_oc);
            let re = place_bp(back, t, ab.last_addr_b);
            &&& loop_step(st, armed, ev) == (st, LoopAction::Breakpoint {
                addr: next,
                plan: break_plan(armed, next, st.base),
            })
            &&& break_plan(armed, next, st.base).after == Some(ab)
            &&& back == mem
            &&& re == (mem.insert(b, int3()), t.push(SaveInsn { addr: b, last_oc: mem[b] }))
            &&& restore_bp(re.0, re.1, b) == (mem, t)
        }),
{
    let ab = AfterB { last_addr_b: b, after_b: next, last_oc: mem[next] };
    crate::dbg::lemma_first_index_push(a.after_b, ab, after_at(next));
    assert(mem.insert(next, int3()).insert(next, mem[next]) =~= mem);
    lemma_restore_undoes_place(mem, t, b);
}

} // verus!
