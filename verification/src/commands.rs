//! The commands that change the debugger's configuration: placing and
//! removing breakpoints, hooks, skipped functions and watchpoints, resetting
//! lists, recording arguments and defined structures.

use vstd::prelude::*;
use vstd::wrapping::u64_specs;
use crate::cli::{
    all_empty, func_views, has_break, type_views, watch_views, All, AllView, CrtFunc, CrtFuncV, Hook,
};
use crate::structs::{struct_name, TypeP, TypeV};
use crate::symbol::{lookup_name, RealAddr, SymbolFile};
use crate::text::{
    chars_eq, chars_eq_str, chars_of, lower_seq, str_eq, lowercase, replace_all, replace_all_exec, string_from,
    trim, trim_exec,
};
use crate::watch::{
    clear_dreg, dr7_clear, set_dreg, watch_addr64, watch_spec, with_dr, WatchError, WatchFault, WatchView,
    Watchpts,
};
use crate::number::str_to_i64;
use crate::number::{agrees, str_to_spec, str_to_u64, IntKind, ParseError};
use crate::symbol::Symbols;
use crate::target::{
    addr_br, addr_va, addr_va32, address_of, get_addr_br, get_addr_or_symbol, get_addr_va,
    get_addr_va32, get_address, hook_target, words, HookTargetError,
};
use crate::context::{Context32, Context64};
use crate::stack::Frame;
use crate::pe::{find_func_by_addr, first_func_at, FuncEntry};

verus! {

/// The address lists of the configuration: four kinds of breakpoints and
/// the skipped functions.
#[derive(Debug, Clone, Copy, PartialEq, Eq, Structural)]
pub enum BreakList {
    /// Relative to the image base.
    Rva,
    /// Absolute.
    Va,
    /// At the return of the function containing a relative address.
    Ret,
    /// At the return of the function containing an absolute address.
    RetVa,
    /// Functions whose calls are skipped.
    Skip,
}

/// The address list `l` of `a`.
pub open spec fn list_of(a: AllView, l: BreakList) -> Seq<u64> {
    match l {
        BreakList::Rva => a.break_rva,
        BreakList::Va => a.break_va,
        BreakList::Ret => a.break_ret,
        BreakList::RetVa => a.break_ret_va,
        BreakList::Skip => a.skip_addr,
    }
}

/// `a` with its address list `l` replaced by `s`.
pub open spec fn with_list(a: AllView, l: BreakList, s: Seq<u64>) -> AllView {
    match l {
        BreakList::Rva => AllView { break_rva: s, ..a },
        BreakList::Va => AllView { break_va: s, ..a },
        BreakList::Ret => AllView { break_ret: s, ..a },
        BreakList::RetVa => AllView { break_ret_va: s, ..a },
        BreakList::Skip => AllView { skip_addr: s, ..a },
    }
}

/// `a` with `addr` appended to list `l`.
pub open spec fn push_break(a: AllView, l: BreakList, addr: u64) -> AllView {
    with_list(a, l, list_of(a, l).push(addr))
}

/// What a breakpoint command did.
#[derive(Debug)]
pub enum BreakOutcome {
    /// The command has the wrong number of words.
    Usage,
    /// The target could not be read; the message to show.
    BadTarget(String),
    /// The target is not a number.
    BadNumber(ParseError),
    /// A breakpoint is already set at this address; nothing changed.
    AlreadySet(u64),
    /// The breakpoint was recorded.
    Added(u64),
}

/// Adding `addr` to list `l` of `old` gave `new` and `r`: refused when a
/// breakpoint is set there already, appended otherwise.
pub open spec fn add_effect(old: AllView, new: AllView, r: BreakOutcome, l: BreakList, addr: u64) -> bool {
    if has_break(old, addr) {
        (r matches BreakOutcome::AlreadySet(x) && x == addr) && new == old
    } else {
        (r matches BreakOutcome::Added(x) && x == addr) && new == push_break(old, l, addr)
    }
}

impl All {
    /// Appends `addr` to list `l` unless a breakpoint is set there already.
    pub fn add_break(&mut self, l: BreakList, addr: u64) -> (r: BreakOutcome)
        ensures
            add_effect(old(self)@, final(self)@, r, l, addr),
    {
        if self.break_contain(addr) {
            return BreakOutcome::AlreadySet(addr);
        }
        match l {
            BreakList::Rva => self.break_rva.push(addr),
            BreakList::Va => self.break_va.push(addr),
            BreakList::Ret => self.break_ret.push(addr),
            BreakList::RetVa => self.break_ret_va.push(addr),
            BreakList::Skip => self.skip_addr.push(addr),
        }
        BreakOutcome::Added(addr)
    }

    /// `breakpoint <target>`: a breakpoint at a relative address, read by
    /// `addr_br`.
    pub fn handle_breakpts(&mut self, linev: &[&str], syms: &Symbols) -> (r: BreakOutcome)
        ensures
            linev@.len() != 2 ==> r is Usage && final(self)@ == old(self)@,
            linev@.len() == 2 ==> match addr_br(linev@[1]@, syms.symbol_file@) {
                Err(m) => (r matches BreakOutcome::BadTarget(e) && e@ == m) && final(self)@ == old(
                    self,
                )@,
                Ok(a) => add_effect(old(self)@, final(self)@, r, BreakList::Rva, a),
            },
    {
        if linev.len() != 2 {
            return BreakOutcome::Usage;
        }
        match get_addr_br(linev[1], syms) {
            Err(e) => BreakOutcome::BadTarget(e),
            Ok(a) => self.add_break(BreakList::Rva, a),
        }
    }

    /// `b-va <address>`: a breakpoint at an absolute address.
    pub fn handle_break_va(&mut self, linev: &[&str]) -> (r: BreakOutcome)
        ensures
            linev@.len() != 2 ==> r is Usage && final(self)@ == old(self)@,
            linev@.len() == 2 ==> match str_to_spec(linev@[1]@, IntKind::U64) {
                Err(e) => (r matches BreakOutcome::BadNumber(x) && x == e) && final(self)@ == old(
                    self,
                )@,
                Ok(a) => add_effect(old(self)@, final(self)@, r, BreakList::Va, a as u64),
            },
    {
        if linev.len() != 2 {
            return BreakOutcome::Usage;
        }
        match str_to_u64(linev[1]) {
            Err(e) => BreakOutcome::BadNumber(e),
            Ok(a) => self.add_break(BreakList::Va, a),
        }
    }

    /// `b-ret-va <address>`: a breakpoint at the return of the function that
    /// contains an absolute address.
    pub fn handle_b_ret_va(&mut self, linev: &[&str]) -> (r: BreakOutcome)
        ensures
            linev@.len() < 2 ==> r is Usage && final(self)@ == old(self)@,
            linev@.len() >= 2 ==> match str_to_spec(linev@[1]@, IntKind::U64) {
                Err(e) => (r matches BreakOutcome::BadNumber(x) && x == e) && final(self)@ == old(
                    self,
                )@,
                Ok(a) => add_effect(old(self)@, final(self)@, r, BreakList::RetVa, a as u64),
            },
    {
        if linev.len() < 2 {
            return BreakOutcome::Usage;
        }
        match str_to_u64(linev[1]) {
            Err(e) => BreakOutcome::BadNumber(e),
            Ok(a) => self.add_break(BreakList::RetVa, a),
        }
    }

    /// `b-ret <target>` while the program runs: a breakpoint at the return of
    /// the function that contains a relative address, read by `addr_br`.
    pub fn handle_stret(&mut self, linev: &[&str], syms: &Symbols) -> (r: BreakOutcome)
        ensures
            linev@.len() != 2 ==> r is Usage && final(self)@ == old(self)@,
            linev@.len() == 2 ==> match addr_br(linev@[1]@, syms.symbol_file@) {
                Err(m) => (r matches BreakOutcome::BadTarget(e) && e@ == m) && final(self)@ == old(
                    self,
                )@,
                Ok(a) => add_effect(old(self)@, final(self)@, r, BreakList::Ret, a),
            },
    {
        if linev.len() != 2 {
            return BreakOutcome::Usage;
        }
        match get_addr_br(linev[1], syms) {
            Err(e) => BreakOutcome::BadTarget(e),
            Ok(a) => self.add_break(BreakList::Ret, a),
        }
    }
}


impl All {
    /// `breakpoint <target>` while a 64-bit program runs: the target is read
    /// by `addr_va` and recorded as a relative breakpoint.
    pub fn handle_breakpoint_proc(
        &mut self,
        linev: &[&str],
        ctx: &Context64,
        syms: &Symbols,
        frames: &Vec<Frame>,
        base: u64,
    ) -> (r: BreakOutcome)
        ensures
            linev@.len() != 2 ==> r is Usage && final(self)@ == old(self)@,
            linev@.len() == 2 ==> match addr_va(linev@[1]@, *ctx, syms.symbol_file@, frames@, base) {
                Err(m) => (r matches BreakOutcome::BadTarget(e) && e@ == m) && final(self)@ == old(
                    self,
                )@,
                Ok(a) => add_effect(old(self)@, final(self)@, r, BreakList::Rva, a),
            },
    {
        if linev.len() != 2 {
            return BreakOutcome::Usage;
        }
        match get_addr_va(linev[1], ctx, syms, frames, base) {
            Err(e) => BreakOutcome::BadTarget(e),
            Ok(a) => self.add_break(BreakList::Rva, a),
        }
    }

    /// `breakpoint <target>` while a 32-bit program runs: the target is read
    /// by `addr_va32` and recorded as a relative breakpoint.
    pub fn handle_breakpoint_proc32(
        &mut self,
        linev: &[&str],
        ctx: &Context32,
        syms: &Symbols,
        frames: &Vec<Frame>,
        base: u64,
    ) -> (r: BreakOutcome)
        ensures
            linev@.len() != 2 ==> r is Usage && final(self)@ == old(self)@,
            linev@.len() == 2 ==> match addr_va32(linev@[1]@, *ctx, syms.symbol_file@, frames@, base) {
                Err(m) => (r matches BreakOutcome::BadTarget(e) && e@ == m) && final(self)@ == old(
                    self,
                )@,
                Ok(a) => add_effect(old(self)@, final(self)@, r, BreakList::Rva, a as u64),
            },
    {
        if linev.len() != 2 {
            return BreakOutcome::Usage;
        }
        match get_addr_va32(linev[1], ctx, syms, frames, base) {
            Err(e) => BreakOutcome::BadTarget(e),
            Ok(a) => self.add_break(BreakList::Rva, a as u64),
        }
    }

    /// `break-ret [-a] <target>`: a breakpoint at the return of a function,
    /// whose address `address_of` reads.
    pub fn st_return(&mut self, linev: &[&str], syms: &Symbols) -> (r: BreakOutcome)
        ensures
            linev@.len() < 2 ==> r is Usage && final(self)@ == old(self)@,
            linev@.len() >= 2 ==> match address_of(words(linev@), syms.symbol_file@) {
                Err(m) => (r matches BreakOutcome::BadTarget(e) && e@ == m) && final(self)@ == old(
                    self,
                )@,
                Ok(a) => add_effect(old(self)@, final(self)@, r, BreakList::Ret, a),
            },
    {
        if linev.len() < 2 {
            return BreakOutcome::Usage;
        }
        match get_address(linev, syms) {
            Err(e) => BreakOutcome::BadTarget(e),
            Ok(a) => self.add_break(BreakList::Ret, a),
        }
    }
}

/// What a hook command did.
#[derive(Debug, Clone, Copy, PartialEq, Eq, Structural)]
pub enum HookOutcome {
    /// Fewer than three words.
    Usage,
    /// Word `1` or `2` is no endpoint.
    BadTarget(usize, HookTargetError),
    /// The hook was recorded.
    Added(Hook),
}

impl All {
    /// `hook <from> <to>`: execution reaching `from` continues at `to`; both
    /// are read by `hook_target`.
    pub fn hook(&mut self, linev: &[&str], syms: &Symbols) -> (r: HookOutcome)
        ensures
            linev@.len() < 3 ==> r == HookOutcome::Usage && final(self)@ == old(self)@,
            linev@.len() >= 3 ==> match (
                hook_target(linev@[1]@, syms.symbol_file@),
                hook_target(linev@[2]@, syms.symbol_file@),
            ) {
                (Err(e), _) => r == HookOutcome::BadTarget(1, e) && final(self)@ == old(self)@,
                (Ok(_), Err(e)) => r == HookOutcome::BadTarget(2, e) && final(self)@ == old(self)@,
                (Ok(t), Ok(d)) => r == HookOutcome::Added(Hook { target: t, replacen: d })
                    && final(self)@ == (AllView {
                    hook: old(self)@.hook.push(Hook { target: t, replacen: d }),
                    ..old(self)@
                }),
            },
    {
        if linev.len() < 3 {
            return HookOutcome::Usage;
        }
        let t = match get_addr_or_symbol(linev, 1, syms) {
            Ok(a) => a,
            Err(e) => {
                return HookOutcome::BadTarget(1, e);
            },
        };
        let d = match get_addr_or_symbol(linev, 2, syms) {
            Ok(a) => a,
            Err(e) => {
                return HookOutcome::BadTarget(2, e);
            },
        };
        let h = Hook { target: t, replacen: d };
        self.hook.push(h);
        HookOutcome::Added(h)
    }
}

/// What a `skip` command did.
#[derive(Debug)]
pub enum SkipOutcome {
    Usage,
    /// The function address could not be read; the message to show.
    BadTarget(String),
    /// No function of the image starts at this address.
    UnknownFunction(u64),
    /// Calls of the function at this address will be skipped.
    Added(u64),
}

impl All {
    /// `skip [-a] <target>`: calls of the function at the address that
    /// `address_of` reads are skipped, provided a function of `funcs` starts
    /// there.
    pub fn skip(&mut self, linev: &[&str], syms: &Symbols, funcs: &Vec<FuncEntry>) -> (r: SkipOutcome)
        ensures
            linev@.len() < 2 ==> r is Usage && final(self)@ == old(self)@,
            linev@.len() >= 2 ==> match address_of(words(linev@), syms.symbol_file@) {
                Err(m) => (r matches SkipOutcome::BadTarget(e) && e@ == m) && final(self)@ == old(
                    self,
                )@,
                Ok(a) => if exists|i: int| first_func_at(funcs@, a, i) {
                    (r matches SkipOutcome::Added(x) && x == a) && final(self)@ == (AllView {
                        skip_addr: old(self)@.skip_addr.push(a),
                        ..old(self)@
                    })
                } else {
                    (r matches SkipOutcome::UnknownFunction(x) && x == a) && final(self)@ == old(
                        self,
                    )@
                },
            },
    {
        if linev.len() < 2 {
            return SkipOutcome::Usage;
        }
        let a = match get_address(linev, syms) {
            Ok(a) => a,
            Err(e) => {
                return SkipOutcome::BadTarget(e);
            },
        };
        match find_func_by_addr(funcs, a) {
            Some(_) => {
                self.skip_addr.push(a);
                SkipOutcome::Added(a)
            },
            None => SkipOutcome::UnknownFunction(a),
        }
    }
}


/// `s` without its first occurrence of `x`.
pub open spec fn remove_first(s: Seq<u64>, x: u64) -> Seq<u64>
    decreases s.len(),
{
    if s.len() == 0 {
        s
    } else if s[0] == x {
        s.drop_first()
    } else {
        seq![s[0]] + remove_first(s.drop_first(), x)
    }
}

/// The elements of `s` that satisfy `p`, in order.
pub open spec fn keep<T>(s: Seq<T>, p: spec_fn(T) -> bool) -> Seq<T>
    decreases s.len(),
{
    if s.len() == 0 {
        s
    } else if p(s.last()) {
        keep(s.drop_last(), p).push(s.last())
    } else {
        keep(s.drop_last(), p)
    }
}

proof fn lemma_keep_push<T>(s: Seq<T>, x: T, p: spec_fn(T) -> bool)
    ensures
        keep(s.push(x), p) == if p(x) {
            keep(s, p).push(x)
        } else {
            keep(s, p)
        },
{
    assert(s.push(x).drop_last() =~= s);
}

proof fn lemma_remove_first_at(s: Seq<u64>, x: u64, i: int)
    requires
        0 <= i < s.len(),
        s[i] == x,
        forall|j: int| 0 <= j < i ==> s[j] != x,
    ensures
        remove_first(s, x) == s.remove(i),
    decreases s.len(),
{
    if i > 0 {
        lemma_remove_first_at(s.drop_first(), x, i - 1);
        assert(s.remove(i) =~= seq![s[0]] + s.drop_first().remove(i - 1));
    }
}

/// Removes the first occurrence of `x` from `v`; says whether there was one.
pub fn remove_first_exec(v: &mut Vec<u64>, x: u64) -> (r: bool)
    ensures
        r == old(v)@.contains(x),
        final(v)@ == remove_first(old(v)@, x),
{
    let mut i: usize = 0;
    while i < v.len()
        invariant
            i <= v.len(),
            v@ == old(v)@,
            forall|j: int| 0 <= j < i ==> v@[j] != x,
        decreases v.len() - i,
    {
        if v[i] == x {
            proof {
                lemma_remove_first_at(v@, x, i as int);
            }
            v.remove(i);
            return true;
        }
        i = i + 1;
    }
    proof {
        lemma_remove_first_absent(v@, x);
    }
    false
}

proof fn lemma_remove_first_absent(s: Seq<u64>, x: u64)
    requires
        !s.contains(x),
    ensures
        remove_first(s, x) == s,
    decreases s.len(),
{
    if s.len() > 0 {
        assert(!s.drop_first().contains(x)) by {
            if s.drop_first().contains(x) {
                let k = choose|k: int| 0 <= k < s.drop_first().len() && s.drop_first()[k] == x;
                assert(s[k + 1] == x);
            }
        }
        lemma_remove_first_absent(s.drop_first(), x);
        assert(seq![s[0]] + s.drop_first() =~= s);
    }
}

/// The hooks that do not start at `addr`.
pub open spec fn hook_not_at(addr: u64) -> spec_fn(Hook) -> bool {
    |h: Hook| h.target != addr
}

/// The watchpoints whose offset is not `off`.
pub open spec fn watch_not_at(off: i64) -> spec_fn(WatchView) -> bool {
    |x: WatchView| x.offset != off
}

/// The created functions not named `n`.
pub open spec fn func_not_named(n: Seq<char>) -> spec_fn(CrtFuncV) -> bool {
    |f: CrtFuncV| f.name != n
}

/// The defined types that are not a structure named `n`.
pub open spec fn struct_not_named(n: Seq<char>) -> spec_fn(TypeV) -> bool {
    |x: TypeV| struct_name(x) != n
}

/// The address list that an element name of `remove` designates.
pub open spec fn list_named(e: Seq<char>) -> Option<BreakList> {
    if e == "breakpoint"@ || e == "b"@ {
        Some(BreakList::Rva)
    } else if e == "break-ret"@ || e == "b-ret"@ {
        Some(BreakList::Ret)
    } else if e == "skip"@ {
        Some(BreakList::Skip)
    } else if e == "break-va"@ || e == "b-va"@ {
        Some(BreakList::Va)
    } else if e == "break-ret-va"@ {
        Some(BreakList::RetVa)
    } else {
        None
    }
}

/// Law: the element names of `remove` designate the address lists they
/// name: `breakpoint`, `b` the breakpoints relative to the image;
/// `break-ret`, `b-ret` the return breakpoints; `skip` the skipped
/// functions; `break-va`, `b-va` the absolute breakpoints; `break-ret-va`
/// the absolute return breakpoints.
pub proof fn lemma_list_names()
    ensures
        list_named("breakpoint"@) == Some(BreakList::Rva),
        list_named("b"@) == Some(BreakList::Rva),
        list_named("break-ret"@) == Some(BreakList::Ret),
        list_named("b-ret"@) == Some(BreakList::Ret),
        list_named("skip"@) == Some(BreakList::Skip),
        list_named("break-va"@) == Some(BreakList::Va),
        list_named("b-va"@) == Some(BreakList::Va),
        list_named("break-ret-va"@) == Some(BreakList::RetVa),
{
    reveal_strlit("breakpoint");
    assert("breakpoint"@.len() == 10);
    reveal_strlit("b");
    assert("b"@.len() == 1);
    reveal_strlit("break-ret");
    assert("break-ret"@.len() == 9);
    reveal_strlit("b-ret");
    assert("b-ret"@.len() == 5);
    reveal_strlit("skip");
    assert("skip"@.len() == 4);
    reveal_strlit("break-va");
    assert("break-va"@.len() == 8);
    reveal_strlit("b-va");
    assert("b-va"@.len() == 4);
    reveal_strlit("break-ret-va");
    assert("break-ret-va"@.len() == 12);
    assert("b-va"@[0] != "skip"@[0]);
}

/// Law: while the program runs, the element names of `remove` designate
/// the lists they name: `breakpoint`, `b` the relative breakpoints,
/// `break-va`, `b-va` the absolute ones, `break-ret`, `b-ret` the return
/// breakpoints, `skip` the skipped functions.
pub proof fn lemma_proc_list_names()
    ensures
        proc_list_named("breakpoint"@) == Some(BreakList::Rva),
        proc_list_named("b"@) == Some(BreakList::Rva),
        proc_list_named("break-va"@) == Some(BreakList::Va),
        proc_list_named("b-va"@) == Some(BreakList::Va),
        proc_list_named("break-ret"@) == Some(BreakList::Ret),
        proc_list_named("b-ret"@) == Some(BreakList::Ret),
        proc_list_named("skip"@) == Some(BreakList::Skip),
{
    reveal_strlit("breakpoint");
    assert("breakpoint"@.len() == 10);
    reveal_strlit("b");
    assert("b"@.len() == 1);
    reveal_strlit("break-va");
    assert("break-va"@.len() == 8);
    reveal_strlit("b-va");
    assert("b-va"@.len() == 4);
    reveal_strlit("break-ret");
    assert("break-ret"@.len() == 9);
    reveal_strlit("b-ret");
    assert("b-ret"@.len() == 5);
    reveal_strlit("skip");
    assert("skip"@.len() == 4);
    assert("skip"@[0] != "b-va"@[0]);
}

/// Law: the option words of `reset` designate what they name: `file`,
/// `breakpoint`/`b` (and `break` while the program runs), `symbol`/`s`,
/// `hook`/`ho`, `break-va`/`b-va`, `break-ret`/`b-ret`, `skip`,
/// `args`/`arg`/`argv`, the watchpoints by `watchpoint`, `watchpts`, `watch`
/// or `w`, the created functions by `crt-func`, and everything by `all`.
pub proof fn lemma_reset_names(running: bool)
    ensures
        reset_kind("file"@, running) == Some(ResetKind::File),
        reset_kind("breakpoint"@, running) == Some(ResetKind::Breakpoints),
        reset_kind("b"@, running) == Some(ResetKind::Breakpoints),
        reset_kind("symbol"@, running) == Some(ResetKind::Symbols),
        reset_kind("s"@, running) == Some(ResetKind::Symbols),
        reset_kind("hook"@, running) == Some(ResetKind::Hooks),
        reset_kind("ho"@, running) == Some(ResetKind::Hooks),
        reset_kind("break-va"@, running) == Some(ResetKind::BreakVa),
        reset_kind("b-va"@, running) == Some(ResetKind::BreakVa),
        reset_kind("break-ret"@, running) == Some(ResetKind::BreakRet),
        reset_kind("b-ret"@, running) == Some(ResetKind::BreakRet),
        reset_kind("skip"@, running) == Some(ResetKind::Skip),
        reset_kind("args"@, running) == Some(ResetKind::Args),
        reset_kind("arg"@, running) == Some(ResetKind::Args),
        reset_kind("argv"@, running) == Some(ResetKind::Args),
        reset_kind("watchpoint"@, running) == Some(ResetKind::Watchpoints),
        reset_kind("watchpts"@, running) == Some(ResetKind::Watchpoints),
        reset_kind("watch"@, running) == Some(ResetKind::Watchpoints),
        reset_kind("w"@, running) == Some(ResetKind::Watchpoints),
        reset_kind("crt-func"@, running) == Some(ResetKind::CrtFuncs),
        reset_kind("all"@, running) == Some(ResetKind::All),
        reset_kind("break"@, true) == Some(ResetKind::Breakpoints),
        reset_kind("break"@, false) is None,
{
    reveal_strlit("file");
    assert("file"@.len() == 4);
    reveal_strlit("breakpoint");
    assert("breakpoint"@.len() == 10);
    reveal_strlit("b");
    assert("b"@.len() == 1);
    reveal_strlit("symbol");
    assert("symbol"@.len() == 6);
    reveal_strlit("s");
    assert("s"@.len() == 1);
    reveal_strlit("hook");
    assert("hook"@.len() == 4);
    reveal_strlit("ho");
    assert("ho"@.len() == 2);
    reveal_strlit("break-va");
    assert("break-va"@.len() == 8);
    reveal_strlit("b-va");
    assert("b-va"@.len() == 4);
    reveal_strlit("break-ret");
    assert("break-ret"@.len() == 9);
    reveal_strlit("b-ret");
    assert("b-ret"@.len() == 5);
    reveal_strlit("skip");
    assert("skip"@.len() == 4);
    reveal_strlit("args");
    assert("args"@.len() == 4);
    reveal_strlit("arg");
    assert("arg"@.len() == 3);
    reveal_strlit("argv");
    assert("argv"@.len() == 4);
    reveal_strlit("watchpoint");
    assert("watchpoint"@.len() == 10);
    reveal_strlit("watchpts");
    assert("watchpts"@.len() == 8);
    reveal_strlit("watch");
    assert("watch"@.len() == 5);
    reveal_strlit("w");
    assert("w"@.len() == 1);
    reveal_strlit("crt-func");
    assert("crt-func"@.len() == 8);
    reveal_strlit("all");
    assert("all"@.len() == 3);
    assert("s"@[0] != "b"@[0]);
    assert("hook"@[0] != "file"@[0]);
    assert("b-va"@[0] != "file"@[0]);
    assert("b-va"@[0] != "hook"@[0]);
    assert("skip"@[0] != "file"@[0]);
    assert("skip"@[0] != "hook"@[0]);
    assert("skip"@[0] != "b-va"@[0]);
    assert("args"@[0] != "file"@[0]);
    assert("args"@[0] != "hook"@[0]);
    assert("args"@[0] != "b-va"@[0]);
    assert("args"@[0] != "skip"@[0]);
    assert("argv"@[0] != "file"@[0]);
    assert("argv"@[0] != "hook"@[0]);
    assert("argv"@[0] != "b-va"@[0]);
    assert("argv"@[0] != "skip"@[0]);
    assert("watchpoint"@[0] != "breakpoint"@[0]);
    assert("watchpts"@[0] != "break-va"@[0]);
    assert("watch"@[0] != "b-ret"@[0]);
    assert("w"@[0] != "b"@[0]);
    assert("w"@[0] != "s"@[0]);
    assert("crt-func"@[0] != "break-va"@[0]);
    assert("crt-func"@[0] != "watchpts"@[0]);
    assert("all"@[1] != "arg"@[1]);
    reveal_strlit("break");
    assert("break"@.len() == 5);
    assert("break"@[0] != "watch"@[0]);
    assert("break"@[1] != "b-ret"@[1]);
}

fn list_named_exec(e: &Vec<char>) -> (r: Option<BreakList>)
    ensures
        r == list_named(e@),
{
    if chars_eq_str(e, "breakpoint") || chars_eq_str(e, "b") {
        Some(BreakList::Rva)
    } else if chars_eq_str(e, "break-ret") || chars_eq_str(e, "b-ret") {
        Some(BreakList::Ret)
    } else if chars_eq_str(e, "skip") {
        Some(BreakList::Skip)
    } else if chars_eq_str(e, "break-va") || chars_eq_str(e, "b-va") {
        Some(BreakList::Va)
    } else if chars_eq_str(e, "break-ret-va") {
        Some(BreakList::RetVa)
    } else {
        None
    }
}

/// The number that a `remove` target designates: the target read as a
/// signed number, else the offset of the first symbol of that name, else 0.
pub open spec fn remove_addr(t: Seq<char>, syms: Seq<SymbolFile>) -> i64 {
    match str_to_spec(t, IntKind::I64) {
        Ok(v) => v as i64,
        Err(_) => match lookup_name(syms, t) {
            Some(i) => syms[i].offset,
            None => 0,
        },
    }
}

/// What a `remove` command did.
#[derive(Debug)]
pub enum RemoveOutcome {
    /// Fewer than three words.
    Usage,
    /// The target designates address 0.
    InvalidTarget,
    /// The element was removed (or the hooks and watchpoints at the target
    /// were).
    Removed,
    /// The element (lowercase) names no list, or the list does not hold the
    /// target.
    NotValid(String),
    /// `remove def` without the name of the definition.
    NoDefTarget,
    /// `remove def` of something that is neither a function nor a structure.
    UnknownDef,
    /// The definitions with that name were removed.
    DefRemoved,
}

/// The effect of `remove <element> <target> [<name>]` (words `w`) on `old`.
pub open spec fn remove_effect(
    w: Seq<Seq<char>>,
    syms: Seq<SymbolFile>,
    old: AllView,
    new: AllView,
    r: RemoveOutcome,
) -> bool {
    if w.len() < 3 {
        r is Usage && new == old
    } else {
        let e = lower_seq(w[1]);
        let t = w[2];
        let addr = remove_addr(t, syms);
        match list_named(e) {
            Some(l) => if addr == 0 {
                r is InvalidTarget && new == old
            } else if list_of(old, l).contains(addr as u64) {
                r is Removed && new == with_list(old, l, remove_first(list_of(old, l), addr as u64))
            } else {
                (r matches RemoveOutcome::NotValid(m) && m@ == e) && new == old
            },
            None => if e == "hook"@ {
                if addr == 0 {
                    r is InvalidTarget && new == old
                } else {
                    r is Removed && new == (AllView {
                        hook: keep(old.hook, hook_not_at(addr as u64)),
                        ..old
                    })
                }
            } else if e == "watchpoint"@ || e == "watch"@ || e == "w"@ {
                if addr == 0 {
                    r is InvalidTarget && new == old
                } else {
                    r is Removed && new == (AllView {
                        watchpts: keep(old.watchpts, watch_not_at(addr)),
                        ..old
                    })
                }
            } else if e == "def"@ {
                if w.len() != 4 {
                    r is NoDefTarget && new == old
                } else if t == "func"@ || t == "function"@ {
                    r is DefRemoved && new == (AllView {
                        crt_func: keep(old.crt_func, func_not_named(w[3])),
                        ..old
                    })
                } else if t == "struct"@ {
                    r is DefRemoved && new == (AllView {
                        struct_def: keep(old.struct_def, struct_not_named(w[3])),
                        ..old
                    })
                } else {
                    r is UnknownDef && new == old
                }
            } else if e == "crt-func"@ {
                r is Removed && new == (AllView { crt_func: keep(old.crt_func, func_not_named(t)), ..old })
            } else {
                (r matches RemoveOutcome::NotValid(m) && m@ == e) && new == old
            },
        }
    }
}

impl All {
    fn remove_addr_exec(t: &str, syms: &Symbols) -> (r: i64)
        ensures
            r == remove_addr(t@, syms.symbol_file@),
    {
        match str_to_i64(t) {
            Ok(v) => v,
            Err(_) => match syms.find_name(t) {
                Some(i) => syms.symbol_file[i].offset,
                None => 0,
            },
        }
    }

    fn keep_hooks(&mut self, addr: u64)
        ensures
            final(self)@ == (AllView {
                hook: keep(old(self)@.hook, hook_not_at(addr)),
                ..old(self)@
            }),
    {
        let ghost p = hook_not_at(addr);
        let mut out: Vec<Hook> = Vec::new();
        let mut i: usize = 0;
        while i < self.hook.len()
            invariant
                i <= self.hook.len(),
                self@ == old(self)@,
                p == hook_not_at(addr),
                out@ == keep(self.hook@.take(i as int), p),
            decreases self.hook.len() - i,
        {
            proof {
                assert(self.hook@.take(i + 1) =~= self.hook@.take(i as int).push(self.hook@[i as int]));
                lemma_keep_push(self.hook@.take(i as int), self.hook@[i as int], p);
            }
            if self.hook[i].target != addr {
                out.push(self.hook[i]);
            }
            i = i + 1;
        }
        proof {
            assert(self.hook@.take(self.hook.len() as int) =~= self.hook@);
        }
        self.hook = out;
    }

    fn keep_watchpts(&mut self, addr: i64)
        ensures
            final(self)@ == (AllView {
                watchpts: keep(old(self)@.watchpts, watch_not_at(addr)),
                ..old(self)@
            }),
    {
        let ghost p = watch_not_at(addr);
        let mut out: Vec<Watchpts> = Vec::new();
        let mut i: usize = 0;
        while i < self.watchpts.len()
            invariant
                i <= self.watchpts.len(),
                self@ == old(self)@,
                p == watch_not_at(addr),
                watch_views(out@) == keep(watch_views(self.watchpts@.take(i as int)), p),
            decreases self.watchpts.len() - i,
        {
            proof {
                assert(watch_views(self.watchpts@.take(i + 1)) =~= watch_views(
                    self.watchpts@.take(i as int),
                ).push(self.watchpts@[i as int]@));
                lemma_keep_push(
                    watch_views(self.watchpts@.take(i as int)),
                    self.watchpts@[i as int]@,
                    p,
                );
            }
            if self.watchpts[i].offset != addr {
                let c = self.watchpts[i].duplicate();
                proof {
                    assert(watch_views(out@.push(c)) =~= watch_views(out@).push(c@));
                }
                out.push(c);
            }
            i = i + 1;
        }
        proof {
            assert(self.watchpts@.take(self.watchpts.len() as int) =~= self.watchpts@);
        }
        self.watchpts = out;
    }

    fn keep_funcs(&mut self, name: &str)
        ensures
            final(self)@ == (AllView {
                crt_func: keep(old(self)@.crt_func, func_not_named(name@)),
                ..old(self)@
            }),
    {
        let ghost p = func_not_named(name@);
        let n = chars_of(name);
        let mut out: Vec<CrtFunc> = Vec::new();
        let mut i: usize = 0;
        while i < self.crt_func.len()
            invariant
                i <= self.crt_func.len(),
                self@ == old(self)@,
                n@ == name@,
                p == func_not_named(name@),
                func_views(out@) == keep(func_views(self.crt_func@.take(i as int)), p),
            decreases self.crt_func.len() - i,
        {
            proof {
                assert(func_views(self.crt_func@.take(i + 1)) =~= func_views(
                    self.crt_func@.take(i as int),
                ).push(self.crt_func@[i as int]@));
                lemma_keep_push(
                    func_views(self.crt_func@.take(i as int)),
                    self.crt_func@[i as int]@,
                    p,
                );
            }
            let f = &self.crt_func[i];
            let fname = chars_of(f.name.as_str());
            if !chars_eq(&fname, &n) {
                let c = CrtFunc { name: f.name.clone(), ret_value: f.ret_value, address: f.address };
                proof {
                    assert(func_views(out@.push(c)) =~= func_views(out@).push(c@));
                }
                out.push(c);
            }
            i = i + 1;
        }
        proof {
            assert(self.crt_func@.take(self.crt_func.len() as int) =~= self.crt_func@);
        }
        self.crt_func = out;
    }

    fn keep_structs(&mut self, name: &str)
        ensures
            final(self)@ == (AllView {
                struct_def: keep(old(self)@.struct_def, struct_not_named(name@)),
                ..old(self)@
            }),
    {
        let ghost p = struct_not_named(name@);
        let n = chars_of(name);
        let mut out: Vec<TypeP> = Vec::new();
        let mut i: usize = 0;
        while i < self.struct_def.len()
            invariant
                i <= self.struct_def.len(),
                self@ == old(self)@,
                n@ == name@,
                p == struct_not_named(name@),
                type_views(out@) == keep(type_views(self.struct_def@.take(i as int)), p),
            decreases self.struct_def.len() - i,
        {
            proof {
                assert(type_views(self.struct_def@.take(i + 1)) =~= type_views(
                    self.struct_def@.take(i as int),
                ).push(self.struct_def@[i as int]@));
                lemma_keep_push(
                    type_views(self.struct_def@.take(i as int)),
                    self.struct_def@[i as int]@,
                    p,
                );
            }
            let sname = self.struct_def[i].get_name_of_struct();
            let sn = chars_of(sname.as_str());
            if !chars_eq(&sn, &n) {
                let c = self.struct_def[i].duplicate();
                proof {
                    assert(type_views(out@.push(c)) =~= type_views(out@).push(c@));
                }
                out.push(c);
            }
            i = i + 1;
        }
        proof {
            assert(self.struct_def@.take(self.struct_def.len() as int) =~= self.struct_def@);
        }
        self.struct_def = out;
    }

    fn remove_from_list(&mut self, l: BreakList, x: u64) -> (r: bool)
        ensures
            r == list_of(old(self)@, l).contains(x),
            final(self)@ == with_list(old(self)@, l, remove_first(list_of(old(self)@, l), x)),
            !r ==> final(self)@ == old(self)@,
    {
        proof {
            if !list_of(self@, l).contains(x) {
                lemma_remove_first_absent(list_of(self@, l), x);
            }
        }
        match l {
            BreakList::Rva => remove_first_exec(&mut self.break_rva, x),
            BreakList::Va => remove_first_exec(&mut self.break_va, x),
            BreakList::Ret => remove_first_exec(&mut self.break_ret, x),
            BreakList::RetVa => remove_first_exec(&mut self.break_ret_va, x),
            BreakList::Skip => remove_first_exec(&mut self.skip_addr, x),
        }
    }

    /// `remove <element> <target>`: removes the first occurrence of the
    /// target from a breakpoint list or the skipped functions, every hook or
    /// watchpoint at the target, or, with `remove def func|struct <name>`,
    /// every definition of that name (see `remove_effect`).
    pub fn remove_element(&mut self, linev: &[&str], syms: &Symbols) -> (r: RemoveOutcome)
        ensures
            remove_effect(words(linev@), syms.symbol_file@, old(self)@, final(self)@, r),
    {
        let ghost w = words(linev@);
        if linev.len() < 3 {
            return RemoveOutcome::Usage;
        }
        proof {
            assert(w[1] == linev@[1]@);
            assert(w[2] == linev@[2]@);
        }
        let e = lowercase(&chars_of(linev[1]));
        let t = linev[2];
        let addr = All::remove_addr_exec(t, syms);
        match list_named_exec(&e) {
            Some(l) => {
                if addr == 0 {
                    return RemoveOutcome::InvalidTarget;
                }
                if self.remove_from_list(l, addr as u64) {
                    RemoveOutcome::Removed
                } else {
                    RemoveOutcome::NotValid(string_from(&e))
                }
            },
            None => {
                if chars_eq_str(&e, "hook") {
                    if addr == 0 {
                        return RemoveOutcome::InvalidTarget;
                    }
                    self.keep_hooks(addr as u64);
                    RemoveOutcome::Removed
                } else if chars_eq_str(&e, "watchpoint") || chars_eq_str(&e, "watch")
                    || chars_eq_str(&e, "w") {
                    if addr == 0 {
                        return RemoveOutcome::InvalidTarget;
                    }
                    self.keep_watchpts(addr);
                    RemoveOutcome::Removed
                } else if chars_eq_str(&e, "def") {
                    if linev.len() != 4 {
                        return RemoveOutcome::NoDefTarget;
                    }
                    proof {
                        assert(w[3] == linev@[3]@);
                    }
                    let tc = chars_of(t);
                    if chars_eq_str(&tc, "func") || chars_eq_str(&tc, "function") {
                        self.keep_funcs(linev[3]);
                        RemoveOutcome::DefRemoved
                    } else if chars_eq_str(&tc, "struct") {
                        self.keep_structs(linev[3]);
                        RemoveOutcome::DefRemoved
                    } else {
                        RemoveOutcome::UnknownDef
                    }
                } else if chars_eq_str(&e, "crt-func") {
                    self.keep_funcs(t);
                    RemoveOutcome::Removed
                } else {
                    RemoveOutcome::NotValid(string_from(&e))
                }
            },
        }
    }
}


/// What a `reset` command clears.
#[derive(Debug, Clone, Copy, PartialEq, Eq, Structural)]
pub enum ResetKind {
    /// The file and everything read from it.
    File,
    /// The relative breakpoints.
    Breakpoints,
    /// The symbols read from the file.
    Symbols,
    Hooks,
    BreakVa,
    BreakRet,
    Skip,
    Args,
    Watchpoints,
    /// The functions created with `crt-func`.
    CrtFuncs,
    /// The whole configuration.
    All,
}

/// What the option word of `reset` names; `running` accepts `break` for the
/// relative breakpoints too.
pub open spec fn reset_kind(o: Seq<char>, running: bool) -> Option<ResetKind> {
    if o == "file"@ {
        Some(ResetKind::File)
    } else if o == "breakpoint"@ || o == "b"@ || (running && o == "break"@) {
        Some(ResetKind::Breakpoints)
    } else if o == "symbol"@ || o == "s"@ {
        Some(ResetKind::Symbols)
    } else if o == "hook"@ || o == "ho"@ {
        Some(ResetKind::Hooks)
    } else if o == "break-va"@ || o == "b-va"@ {
        Some(ResetKind::BreakVa)
    } else if o == "break-ret"@ || o == "b-ret"@ {
        Some(ResetKind::BreakRet)
    } else if o == "skip"@ {
        Some(ResetKind::Skip)
    } else if o == "args"@ || o == "arg"@ || o == "argv"@ {
        Some(ResetKind::Args)
    } else if o == "watchpoint"@ || o == "watchpts"@ || o == "watch"@ || o == "w"@ {
        Some(ResetKind::Watchpoints)
    } else if o == "crt-func"@ {
        Some(ResetKind::CrtFuncs)
    } else if o == "all"@ {
        Some(ResetKind::All)
    } else {
        None
    }
}

fn reset_kind_exec(o: &Vec<char>, running: bool) -> (r: Option<ResetKind>)
    ensures
        r == reset_kind(o@, running),
{
    if chars_eq_str(o, "file") {
        Some(ResetKind::File)
    } else if chars_eq_str(o, "breakpoint") || chars_eq_str(o, "b") || (running && chars_eq_str(
        o,
        "break",
    )) {
        Some(ResetKind::Breakpoints)
    } else if chars_eq_str(o, "symbol") || chars_eq_str(o, "s") {
        Some(ResetKind::Symbols)
    } else if chars_eq_str(o, "hook") || chars_eq_str(o, "ho") {
        Some(ResetKind::Hooks)
    } else if chars_eq_str(o, "break-va") || chars_eq_str(o, "b-va") {
        Some(ResetKind::BreakVa)
    } else if chars_eq_str(o, "break-ret") || chars_eq_str(o, "b-ret") {
        Some(ResetKind::BreakRet)
    } else if chars_eq_str(o, "skip") {
        Some(ResetKind::Skip)
    } else if chars_eq_str(o, "args") || chars_eq_str(o, "arg") || chars_eq_str(o, "argv") {
        Some(ResetKind::Args)
    } else if chars_eq_str(o, "watchpoint") || chars_eq_str(o, "watchpts") || chars_eq_str(o, "watch")
        || chars_eq_str(o, "w") {
        Some(ResetKind::Watchpoints)
    } else if chars_eq_str(o, "crt-func") {
        Some(ResetKind::CrtFuncs)
    } else if chars_eq_str(o, "all") {
        Some(ResetKind::All)
    } else {
        None
    }
}

/// Whether a reset also forgets the symbols, the image base and the headers
/// read from the file (which the configuration does not hold).
pub open spec fn reset_clears_symbols(k: ResetKind) -> bool {
    k == ResetKind::File || k == ResetKind::Symbols || k == ResetKind::All
}

impl ResetKind {
    /// See `reset_clears_symbols`.
    pub fn clears_symbols(&self) -> (r: bool)
        ensures
            r == reset_clears_symbols(*self),
    {
        match self {
            ResetKind::File | ResetKind::Symbols | ResetKind::All => true,
            _ => false,
        }
    }
}

/// The configuration after a reset of kind `k`: the named list or value is
/// emptied and nothing else changes; `All` empties everything.
pub open spec fn reset_apply(a: AllView, k: ResetKind) -> AllView {
    match k {
        ResetKind::File => AllView { file: None, ..a },
        ResetKind::Breakpoints => AllView { break_rva: Seq::empty(), ..a },
        ResetKind::Symbols => a,
        ResetKind::Hooks => AllView { hook: Seq::empty(), ..a },
        ResetKind::BreakVa => AllView { break_va: Seq::empty(), ..a },
        ResetKind::BreakRet => AllView { break_ret: Seq::empty(), ..a },
        ResetKind::Skip => AllView { skip_addr: Seq::empty(), ..a },
        ResetKind::Args => AllView { arg: None, ..a },
        ResetKind::Watchpoints => AllView { watchpts: Seq::empty(), ..a },
        ResetKind::CrtFuncs => AllView { crt_func: Seq::empty(), ..a },
        ResetKind::All => all_empty(),
    }
}

/// Each address of `s` moved by `off` (wrapping).
pub open spec fn shifted(s: Seq<u64>, off: u64) -> Seq<u64> {
    s.map_values(|x: u64| u64_specs::wrapping_add(x, off))
}

/// The start addresses of the hooks.
pub open spec fn hook_targets(s: Seq<Hook>) -> Seq<u64> {
    s.map_values(|h: Hook| h.target)
}

/// The addresses whose original byte goes back into the running program
/// when a reset of kind `k` removes their breakpoints; `base` is where the
/// image is loaded.
pub open spec fn reset_restores(a: AllView, k: ResetKind, base: u64) -> Seq<u64> {
    match k {
        ResetKind::Breakpoints => shifted(a.break_rva, base),
        ResetKind::BreakVa => shifted(a.break_va, 0),
        ResetKind::Hooks => shifted(hook_targets(a.hook), base),
        ResetKind::Skip => shifted(a.skip_addr, base),
        ResetKind::All => shifted(a.skip_addr, base) + shifted(a.break_ret, base) + shifted(
            hook_targets(a.hook),
            base,
        ) + shifted(a.break_va, 0) + shifted(a.break_rva, base),
        _ => Seq::empty(),
    }
}

/// The option word of a `reset` command (`w` its words): lowercased, without
/// surrounding whitespace.
pub open spec fn reset_word(w: Seq<Seq<char>>) -> Seq<char> {
    trim(lower_seq(w[1]))
}

pub fn append_shifted(out: &mut Vec<u64>, s: &Vec<u64>, off: u64)
    ensures
        final(out)@ == old(out)@ + shifted(s@, off),
{
    let ghost start = out@;
    let mut i: usize = 0;
    while i < s.len()
        invariant
            i <= s.len(),
            out@ == start + shifted(s@.take(i as int), off),
        decreases s.len() - i,
    {
        out.push(s[i].wrapping_add(off));
        proof {
            assert(start + shifted(s@.take(i + 1), off) =~= (start + shifted(s@.take(i as int), off)).push(
                u64_specs::wrapping_add(s@[i as int], off),
            ));
        }
        i = i + 1;
    }
    proof {
        assert(s@.take(s.len() as int) =~= s@);
    }
}

pub fn append_hook_targets(out: &mut Vec<u64>, s: &Vec<Hook>, off: u64)
    ensures
        final(out)@ == old(out)@ + shifted(hook_targets(s@), off),
{
    let ghost start = out@;
    let mut i: usize = 0;
    while i < s.len()
        invariant
            i <= s.len(),
            out@ == start + shifted(hook_targets(s@.take(i as int)), off),
        decreases s.len() - i,
    {
        out.push(s[i].target.wrapping_add(off));
        proof {
            assert(start + shifted(hook_targets(s@.take(i + 1)), off) =~= (start + shifted(
                hook_targets(s@.take(i as int)),
                off,
            )).push(u64_specs::wrapping_add(s@[i as int].target, off)));
        }
        i = i + 1;
    }
    proof {
        assert(s@.take(s.len() as int) =~= s@);
    }
}

impl All {
    /// Applies a reset of kind `k` (see `reset_apply`).
    pub fn apply_reset(&mut self, k: ResetKind)
        ensures
            final(self)@ == reset_apply(old(self)@, k),
    {
        match k {
            ResetKind::File => {
                self.file = None;
            },
            ResetKind::Breakpoints => {
                self.break_rva = Vec::new();
            },
            ResetKind::Symbols => {},
            ResetKind::Hooks => {
                self.hook = Vec::new();
            },
            ResetKind::BreakVa => {
                self.break_va = Vec::new();
            },
            ResetKind::BreakRet => {
                self.break_ret = Vec::new();
            },
            ResetKind::Skip => {
                self.skip_addr = Vec::new();
            },
            ResetKind::Args => {
                self.arg = None;
            },
            ResetKind::Watchpoints => {
                self.watchpts = Vec::new();
                proof {
                    assert(watch_views(self.watchpts@) =~= Seq::<WatchView>::empty());
                }
            },
            ResetKind::CrtFuncs => {
                self.crt_func = Vec::new();
                proof {
                    assert(func_views(self.crt_func@) =~= Seq::<CrtFuncV>::empty());
                }
            },
            ResetKind::All => {
                *self = All::default();
            },
        }
    }

    /// `reset <what>` before a run: empties what the word names (see
    /// `reset_kind` and `reset_apply`); `None` for a wrong command, which
    /// changes nothing.
    pub fn handle_reset(&mut self, linev: &[&str]) -> (r: Option<ResetKind>)
        ensures
            linev@.len() != 2 ==> r is None && final(self)@ == old(self)@,
            linev@.len() == 2 ==> r == reset_kind(reset_word(words(linev@)), false) && final(self)@
                == match r {
                Some(k) => reset_apply(old(self)@, k),
                None => old(self)@,
            },
    {
        if linev.len() != 2 {
            return None;
        }
        proof {
            assert(words(linev@)[1] == linev@[1]@);
        }
        let o = trim_exec(&lowercase(&chars_of(linev[1])));
        let k = reset_kind_exec(&o, false);
        match k {
            Some(kind) => self.apply_reset(kind),
            None => {},
        }
        k
    }

    /// `reset <what>` while the program runs: as `handle_reset` (where
    /// `break` also names the relative breakpoints), and the addresses whose
    /// breakpoints must be taken out of the program (see `reset_restores`).
    pub fn reset_proc(&mut self, linev: &[&str], base: u64) -> (r: Option<(ResetKind, Vec<u64>)>)
        ensures
            linev@.len() != 2 ==> r is None && final(self)@ == old(self)@,
            linev@.len() == 2 ==> match reset_kind(reset_word(words(linev@)), true) {
                Some(k) => (r matches Some((x, v)) && x == k && v@ == reset_restores(
                    old(self)@,
                    k,
                    base,
                )) && final(self)@ == reset_apply(old(self)@, k),
                None => r is None && final(self)@ == old(self)@,
            },
    {
        if linev.len() != 2 {
            return None;
        }
        proof {
            assert(words(linev@)[1] == linev@[1]@);
        }
        let o = trim_exec(&lowercase(&chars_of(linev[1])));
        let k = match reset_kind_exec(&o, true) {
            Some(k) => k,
            None => {
                return None;
            },
        };
        let mut restore: Vec<u64> = Vec::new();
        match k {
            ResetKind::Breakpoints => append_shifted(&mut restore, &self.break_rva, base),
            ResetKind::BreakVa => append_shifted(&mut restore, &self.break_va, 0),
            ResetKind::Hooks => append_hook_targets(&mut restore, &self.hook, base),
            ResetKind::Skip => append_shifted(&mut restore, &self.skip_addr, base),
            ResetKind::All => {
                append_shifted(&mut restore, &self.skip_addr, base);
                append_shifted(&mut restore, &self.break_ret, base);
                append_hook_targets(&mut restore, &self.hook, base);
                append_shifted(&mut restore, &self.break_va, 0);
                append_shifted(&mut restore, &self.break_rva, base);
            },
            _ => {},
        }
        proof {
            assert(restore@ =~= reset_restores(self@, k, base));
        }
        self.apply_reset(k);
        Some((k, restore))
    }

    /// `arg <arguments...>`: the arguments become the command line `line`
    /// with every occurrence of the command word removed; `false` (and no
    /// change) for a command of one word.
    pub fn set_argument(&mut self, linev: &[&str], line: &str) -> (r: bool)
        ensures
            r == (linev@.len() >= 2),
            r ==> final(self)@ == (AllView {
                arg: Some(replace_all(line@, linev@[0]@, Seq::empty())),
                ..old(self)@
            }),
            !r ==> final(self)@ == old(self)@,
    {
        if linev.len() < 2 {
            return false;
        }
        let l = chars_of(line);
        let p = chars_of(linev[0]);
        let out = if p.len() == 0 {
            l
        } else {
            replace_all_exec(&l, &p, &Vec::new())
        };
        proof {
            if p.len() == 0 {
                assert(replace_all(line@, linev@[0]@, Seq::empty()) == line@);
            }
        }
        self.arg = Some(string_from(&out));
        true
    }

    /// Records a structure defined by the user.
    pub fn add_struct_def(&mut self, name: &str, fields: Vec<crate::structs::StructP>)
        ensures
            final(self)@ == (AllView {
                struct_def: old(self)@.struct_def.push(
                    TypeV::Structs(crate::structs::fields_view(fields@), name@),
                ),
                ..old(self)@
            }),
    {
        let t = TypeP::Structs(fields, crate::text::string_of(name));
        proof {
            assert(type_views(self.struct_def@.push(t)) =~= type_views(self.struct_def@).push(t@));
        }
        self.struct_def.push(t);
    }
}


/// The words `ws` joined by single spaces.
pub open spec fn join_words(ws: Seq<Seq<char>>) -> Seq<char>
    decreases ws.len(),
{
    if ws.len() == 0 {
        Seq::empty()
    } else if ws.len() == 1 {
        ws[0]
    } else {
        join_words(ws.drop_last()) + seq![' '] + ws.last()
    }
}

/// Words `from..` of `linev`, joined by single spaces.
pub fn join_from(linev: &[&str], from: usize) -> (r: String)
    requires
        from <= linev@.len(),
    ensures
        r@ == join_words(words(linev@).skip(from as int)),
{
    let ghost ws = words(linev@);
    let mut out: Vec<char> = Vec::new();
    let mut i: usize = from;
    proof {
        assert(ws.skip(from as int).take(0) =~= Seq::<Seq<char>>::empty());
    }
    while i < linev.len()
        invariant
            from <= i <= linev@.len(),
            ws == words(linev@),
            out@ == join_words(ws.skip(from as int).take(i - from)),
        decreases linev.len() - i,
    {
        let w = chars_of(linev[i]);
        proof {
            let t = ws.skip(from as int).take(i + 1 - from);
            assert(t.drop_last() =~= ws.skip(from as int).take(i - from));
            assert(t.last() == linev@[i as int]@);
        }
        if i > from {
            out.push(' ');
        }
        let mut w2 = w;
        out.append(&mut w2);
        i = i + 1;
    }
    proof {
        assert(ws.skip(from as int).take(linev@.len() - from) =~= ws.skip(from as int));
    }
    string_from(&out)
}

/// What a `watchpoint` command did.
#[derive(Debug)]
pub enum WatchOutcome {
    /// The command has no description.
    Usage,
    /// The description is refused.
    Refused(WatchError),
    /// Four watchpoints are set already; nothing changed.
    Full,
    /// The watchpoint was recorded; how many there are now, and, in a running
    /// program, whether the hardware supports its size.
    Added(usize, bool),
}

/// The effect of `watchpoint <description...>` (words `w`) on `old`.
pub open spec fn watch_effect(
    w: Seq<Seq<char>>,
    syms: Seq<SymbolFile>,
    old: AllView,
    new: AllView,
    r: WatchOutcome,
) -> bool {
    if w.len() == 1 {
        r is Usage && new == old
    } else {
        match watch_spec(join_words(w.skip(1)), syms) {
            Err(f) => (r matches WatchOutcome::Refused(e) && e@ == f) && new == old,
            Ok(wv) => if old.watchpts.len() < 4 {
                (r matches WatchOutcome::Added(n, _) && n == old.watchpts.len() + 1) && new == (
                AllView { watchpts: old.watchpts.push(wv), ..old })
            } else {
                r is Full && new == old
            },
        }
    }
}

impl All {
    fn push_watch(&mut self, w: Watchpts)
        ensures
            final(self)@ == (AllView { watchpts: old(self)@.watchpts.push(w@), ..old(self)@ }),
    {
        proof {
            assert(watch_views(self.watchpts@.push(w)) =~= watch_views(self.watchpts@).push(w@));
        }
        self.watchpts.push(w);
    }

    /// `watchpoint <description...>` before a run: reads the description
    /// (see `watch_spec`) and records it unless four are set already.
    pub fn watchpoint(&mut self, linev: &[&str], syms: &Symbols) -> (r: WatchOutcome)
        requires
            linev@.len() >= 1,
        ensures
            watch_effect(words(linev@), syms.symbol_file@, old(self)@, final(self)@, r),
            r matches WatchOutcome::Added(_, b) ==> b,
    {
        if linev.len() == 1 {
            return WatchOutcome::Usage;
        }
        let d = join_from(linev, 1);
        match Watchpts::from_str(d.as_str(), syms) {
            Err(e) => WatchOutcome::Refused(e),
            Ok(wt) => {
                if self.watchpts.len() < 4 {
                    let n = self.watchpts.len();
                    self.push_watch(wt);
                    WatchOutcome::Added(n + 1, true)
                } else {
                    WatchOutcome::Full
                }
            },
        }
    }

    /// `watchpoint <description...>` while a 64-bit program runs: as
    /// `watchpoint`, and the new watchpoint is armed in the next free
    /// debug-register slot of `ctx`.
    pub fn watchpoint_proc(
        &mut self,
        linev: &[&str],
        ctx: &mut Context64,
        syms: &Symbols,
        frames: &Vec<Frame>,
        base: u64,
    ) -> (r: WatchOutcome)
        requires
            linev@.len() >= 1,
        ensures
            watch_effect(words(linev@), syms.symbol_file@, old(self)@, final(self)@, r),
            !(r is Added) ==> *final(ctx) == *old(ctx),
            r matches WatchOutcome::Added(n, b) ==> b == crate::watch::size_supported(
                final(self)@.watchpts.last().memory_size,
            ) && *final(ctx) == crate::watch::armed(
                *old(ctx),
                final(self)@.watchpts.last(),
                (n - 1) as usize,
                frames@,
                base,
            ),
    {
        if linev.len() == 1 {
            return WatchOutcome::Usage;
        }
        let d = join_from(linev, 1);
        match Watchpts::from_str(d.as_str(), syms) {
            Err(e) => WatchOutcome::Refused(e),
            Ok(wt) => {
                if self.watchpts.len() < 4 {
                    let slot = self.watchpts.len();
                    let ok = set_dreg(ctx, &wt, slot, frames, base);
                    self.push_watch(wt);
                    WatchOutcome::Added(slot + 1, ok)
                } else {
                    WatchOutcome::Full
                }
            },
        }
    }
}


/// The position of the first element of `s` that satisfies `p` (the length
/// of `s` when none does).
pub open spec fn first_index_by<T>(s: Seq<T>, p: spec_fn(T) -> bool) -> int
    decreases s.len(),
{
    if s.len() == 0 || p(s[0]) {
        0
    } else {
        1 + first_index_by(s.drop_first(), p)
    }
}

/// `first_index_by(s, p)` is a position of `s` (or its end) before which no
/// element satisfies `p`, and at which one does unless it is the end.
pub proof fn lemma_first_index_spec<T>(s: Seq<T>, p: spec_fn(T) -> bool)
    ensures
        0 <= first_index_by(s, p) <= s.len(),
        forall|j: int| 0 <= j < first_index_by(s, p) ==> !p(#[trigger] s[j]),
        first_index_by(s, p) < s.len() ==> p(s[first_index_by(s, p)]),
    decreases s.len(),
{
    if s.len() > 0 && !p(s[0]) {
        lemma_first_index_spec(s.drop_first(), p);
        assert forall|j: int| 0 <= j < first_index_by(s, p) implies !p(#[trigger] s[j]) by {
            if j > 0 {
                assert(s[j] == s.drop_first()[j - 1]);
            }
        }
    }
}

/// A position `i` before which no element satisfies `p`, and at which one
/// does (or the end), is `first_index_by(s, p)`.
pub proof fn lemma_first_index_by<T>(s: Seq<T>, p: spec_fn(T) -> bool, i: int)
    requires
        0 <= i <= s.len(),
        forall|j: int| 0 <= j < i ==> !p(s[j]),
        i == s.len() || p(s[i]),
    ensures
        first_index_by(s, p) == i,
    decreases s.len(),
{
    if s.len() > 0 && !p(s[0]) {
        lemma_first_index_by(s.drop_first(), p, i - 1);
    }
}

/// The watchpoints whose run-time address (0 when it cannot be computed)
/// is `addr`.
pub open spec fn watch_hits(ctx: Context64, frames: Seq<Frame>, base: u64, addr: u64) -> spec_fn(
    WatchView,
) -> bool {
    |w: WatchView|
        (match watch_addr64(w, ctx, frames, base) {
            Ok(a) => a,
            Err(_) => 0,
        }) == addr
}

/// The hooks that start at `addr`.
pub open spec fn hook_at(addr: u64) -> spec_fn(Hook) -> bool {
    |h: Hook| h.target == addr
}

/// What `remove` did while a 64-bit program runs.
#[derive(Debug, Clone, Copy, PartialEq, Eq, Structural)]
pub enum RemoveProcOutcome {
    /// Not three words.
    Usage,
    /// The target is neither a number nor a symbol.
    InvalidTarget,
    /// The address was taken out of list `l`; the original byte goes back
    /// at the second address.
    Restore(BreakList, u64),
    /// List `l` does not hold the address.
    NotSet(BreakList, u64),
    /// The watchpoint was removed and its debug-register slot disarmed.
    WatchRemoved,
    /// The watchpoint sits past the slots the control register can describe.
    WatchSlotOverflow,
    /// No watchpoint watches the address.
    NoWatch(u64),
    /// The hook was removed; the original byte goes back at this address.
    HookRemoved(u64),
    /// No hook starts at the address.
    NoHook,
    /// `remove def` needs a fourth word, which a command of three words
    /// never has.
    NoDefTarget,
    /// The created functions with the target's name were removed.
    FuncsRemoved,
    /// The element names nothing that can be removed here.
    Ignored,
}

/// The list that an element name designates while the program runs.
pub open spec fn proc_list_named(e: Seq<char>) -> Option<BreakList> {
    if e == "breakpoint"@ || e == "b"@ {
        Some(BreakList::Rva)
    } else if e == "break-va"@ || e == "b-va"@ {
        Some(BreakList::Va)
    } else if e == "break-ret"@ || e == "b-ret"@ {
        Some(BreakList::Ret)
    } else if e == "skip"@ {
        Some(BreakList::Skip)
    } else {
        None
    }
}

fn proc_list_named_exec(e: &Vec<char>) -> (r: Option<BreakList>)
    ensures
        r == proc_list_named(e@),
{
    if chars_eq_str(e, "breakpoint") || chars_eq_str(e, "b") {
        Some(BreakList::Rva)
    } else if chars_eq_str(e, "break-va") || chars_eq_str(e, "b-va") {
        Some(BreakList::Va)
    } else if chars_eq_str(e, "break-ret") || chars_eq_str(e, "b-ret") {
        Some(BreakList::Ret)
    } else if chars_eq_str(e, "skip") {
        Some(BreakList::Skip)
    } else {
        None
    }
}

/// The address that a target designates while a 64-bit program runs: a
/// number, else the run-time address of the first symbol of that name (0
/// when it cannot be computed); `None` when it is neither.
pub open spec fn proc_target(
    t: Seq<char>,
    ctx: Context64,
    syms: Seq<SymbolFile>,
    frames: Seq<Frame>,
    base: u64,
) -> Option<u64> {
    match str_to_spec(t, IntKind::U64) {
        Ok(v) => Some(v as u64),
        Err(_) => match lookup_name(syms, t) {
            Some(i) => Some(
                match crate::symbol::sym_addr64(syms[i], ctx, frames, base) {
                    Ok(a) => a,
                    Err(_) => 0,
                },
            ),
            None => None,
        },
    }
}

/// The effect of `remove <element> <target>` (words `w`) while a 64-bit
/// program runs, on the configuration and on the thread context.
pub open spec fn remove_proc_effect(
    w: Seq<Seq<char>>,
    syms: Seq<SymbolFile>,
    frames: Seq<Frame>,
    base: u64,
    old: AllView,
    new: AllView,
    ctx: Context64,
    new_ctx: Context64,
    r: RemoveProcOutcome,
) -> bool {
    if w.len() != 3 {
        r == RemoveProcOutcome::Usage && new == old && new_ctx == ctx
    } else if w[1] == "crt-func"@ {
        r == RemoveProcOutcome::FuncsRemoved && new == (AllView {
            crt_func: keep(old.crt_func, func_not_named(w[2])),
            ..old
        }) && new_ctx == ctx
    } else {
        match proc_target(w[2], ctx, syms, frames, base) {
            None => r == RemoveProcOutcome::InvalidTarget && new == old && new_ctx == ctx,
            Some(addr) => {
                let e = w[1];
                match proc_list_named(e) {
                    Some(l) => new_ctx == ctx && if list_of(old, l).contains(addr) {
                        r == RemoveProcOutcome::Restore(l, u64_specs::wrapping_add(addr, base))
                            && new == with_list(old, l, remove_first(list_of(old, l), addr))
                    } else {
                        r == RemoveProcOutcome::NotSet(l, addr) && new == old
                    },
                    None => if e == "watchpoint"@ || e == "watch"@ || e == "w"@ {
                        let i = first_index_by(old.watchpts, watch_hits(ctx, frames, base, addr));
                        if i == old.watchpts.len() {
                            r == RemoveProcOutcome::NoWatch(addr) && new == old && new_ctx == ctx
                        } else if i >= 12 {
                            r == RemoveProcOutcome::WatchSlotOverflow && new == old && new_ctx
                                == ctx
                        } else {
                            r == RemoveProcOutcome::WatchRemoved && new == (AllView {
                                watchpts: old.watchpts.remove(i),
                                ..old
                            }) && new_ctx == (Context64 {
                                dr7: dr7_clear(ctx.dr7, i as u64),
                                ..with_dr(ctx, i as usize, 0)
                            })
                        }
                    } else if e == "hook"@ {
                        let i = first_index_by(old.hook, hook_at(addr));
                        new_ctx == ctx && if i == old.hook.len() {
                            r == RemoveProcOutcome::NoHook && new == old
                        } else {
                            r == RemoveProcOutcome::HookRemoved(u64_specs::wrapping_add(addr, base))
                                && new == (AllView { hook: old.hook.remove(i), ..old })
                        }
                    } else if e == "def"@ {
                        r == RemoveProcOutcome::NoDefTarget && new == old && new_ctx == ctx
                    } else {
                        r == RemoveProcOutcome::Ignored && new == old && new_ctx == ctx
                    },
                }
            },
        }
    }
}

impl All {
    fn proc_target_exec(
        t: &str,
        ctx: &Context64,
        syms: &Symbols,
        frames: &Vec<Frame>,
        base: u64,
    ) -> (r: Option<u64>)
        ensures
            r == proc_target(t@, *ctx, syms.symbol_file@, frames@, base),
    {
        match str_to_u64(t) {
            Ok(v) => Some(v),
            Err(_) => match syms.find_name(t) {
                Some(i) => match syms.symbol_file[i].real_addr64(ctx, frames, base) {
                    Ok(a) => Some(a),
                    Err(_) => Some(0),
                },
                None => None,
            },
        }
    }

    /// `remove <element> <target>` while a 64-bit program runs (see
    /// `remove_proc_effect`): a removed watchpoint's debug-register slot is
    /// disarmed in `ctx`; for a removed breakpoint or hook, the outcome gives
    /// the address whose original byte goes back.
    pub fn remove_element_proc(
        &mut self,
        linev: &[&str],
        ctx: &mut Context64,
        syms: &Symbols,
        frames: &Vec<Frame>,
        base: u64,
    ) -> (r: RemoveProcOutcome)
        ensures
            remove_proc_effect(
                words(linev@),
                syms.symbol_file@,
                frames@,
                base,
                old(self)@,
                final(self)@,
                *old(ctx),
                *final(ctx),
                r,
            ),
    {
        let ghost w = words(linev@);
        if linev.len() != 3 {
            return RemoveProcOutcome::Usage;
        }
        proof {
            assert(w[1] == linev@[1]@);
            assert(w[2] == linev@[2]@);
        }
        if str_eq(linev[1], "crt-func") {
            self.keep_funcs(linev[2]);
            return RemoveProcOutcome::FuncsRemoved;
        }
        let addr = match All::proc_target_exec(linev[2], ctx, syms, frames, base) {
            Some(a) => a,
            None => {
                return RemoveProcOutcome::InvalidTarget;
            },
        };
        let e = chars_of(linev[1]);
        match proc_list_named_exec(&e) {
            Some(l) => {
                if self.remove_from_list(l, addr) {
                    RemoveProcOutcome::Restore(l, addr.wrapping_add(base))
                } else {
                    RemoveProcOutcome::NotSet(l, addr)
                }
            },
            None => {
                if chars_eq_str(&e, "watchpoint") || chars_eq_str(&e, "watch") || chars_eq_str(
                    &e,
                    "w",
                ) {
                    let ghost p = watch_hits(*ctx, frames@, base, addr);
                    let mut i: usize = 0;
                    while i < self.watchpts.len()
                        invariant
                            i <= self.watchpts.len(),
                            p == watch_hits(*ctx, frames@, base, addr),
                            forall|j: int| 0 <= j < i ==> !p(#[trigger] self@.watchpts[j]),
                        ensures
                            i <= self.watchpts.len(),
                            forall|j: int| 0 <= j < i ==> !p(#[trigger] self@.watchpts[j]),
                            i == self.watchpts.len() || p(self@.watchpts[i as int]),
                        decreases self.watchpts.len() - i,
                    {
                        let a = match self.watchpts[i].real_addr64(ctx, frames, base) {
                            Ok(a) => a,
                            Err(_) => 0,
                        };
                        if a == addr {
                            break;
                        }
                        i = i + 1;
                    }
                    proof {
                        lemma_first_index_by(self@.watchpts, p, i as int);
                    }
                    if i == self.watchpts.len() {
                        return RemoveProcOutcome::NoWatch(addr);
                    }
                    if i >= 12 {
                        return RemoveProcOutcome::WatchSlotOverflow;
                    }
                    clear_dreg(ctx, i);
                    proof {
                        assert(watch_views(self.watchpts@.remove(i as int)) =~= watch_views(
                            self.watchpts@,
                        ).remove(i as int));
                    }
                    self.watchpts.remove(i);
                    RemoveProcOutcome::WatchRemoved
                } else if chars_eq_str(&e, "hook") {
                    let ghost p = hook_at(addr);
                    let mut i: usize = 0;
                    while i < self.hook.len()
                        invariant
                            i <= self.hook.len(),
                            p == hook_at(addr),
                            forall|j: int| 0 <= j < i ==> !p(#[trigger] self.hook@[j]),
                        ensures
                            i <= self.hook.len(),
                            forall|j: int| 0 <= j < i ==> !p(#[trigger] self.hook@[j]),
                            i == self.hook.len() || p(self.hook@[i as int]),
                        decreases self.hook.len() - i,
                    {
                        if self.hook[i].target == addr {
                            break;
                        }
                        i = i + 1;
                    }
                    proof {
                        lemma_first_index_by(self.hook@, p, i as int);
                    }
                    if i == self.hook.len() {
                        return RemoveProcOutcome::NoHook;
                    }
                    self.hook.remove(i);
                    RemoveProcOutcome::HookRemoved(addr.wrapping_add(base))
                } else if chars_eq_str(&e, "def") {
                    RemoveProcOutcome::NoDefTarget
                } else {
                    RemoveProcOutcome::Ignored
                }
            },
        }
    }
}


proof fn lemma_remove_first_push(s: Seq<u64>, x: u64)
    requires
        !s.contains(x),
    ensures
        remove_first(s.push(x), x) == s,
    decreases s.len(),
{
    if s.len() == 0 {
        assert(s.push(x).drop_first() =~= s);
    } else {
        assert(s[0] != x);
        assert(!s.drop_first().contains(x)) by {
            if s.drop_first().contains(x) {
                let k = choose|k: int| 0 <= k < s.drop_first().len() && s.drop_first()[k] == x;
                assert(s[k + 1] == x);
            }
        }
        lemma_remove_first_push(s.drop_first(), x);
        assert(s.push(x).drop_first() =~= s.drop_first().push(x));
        assert(seq![s[0]] + s.drop_first() =~= s);
    }
}

/// Law: recording a breakpoint (or skipped function) at an address that
/// its list does not hold, then removing that address from the list, gives
/// back the configuration.
pub proof fn lemma_break_add_then_remove(a: AllView, l: BreakList, addr: u64)
    requires
        !list_of(a, l).contains(addr),
    ensures
        with_list(push_break(a, l, addr), l, remove_first(list_of(push_break(a, l, addr), l), addr))
            == a,
{
    lemma_remove_first_push(list_of(a, l), addr);
}

/// No breakpoint address is recorded twice: each of the relative, absolute
/// and return lists is free of repetitions, and no two of them share an
/// address.
pub open spec fn breaks_distinct(a: AllView) -> bool {
    &&& a.break_rva.no_duplicates()
    &&& a.break_va.no_duplicates()
    &&& a.break_ret.no_duplicates()
    &&& a.break_rva.disjoint(a.break_va)
    &&& a.break_rva.disjoint(a.break_ret)
    &&& a.break_va.disjoint(a.break_ret)
}

proof fn lemma_push_fresh(s: Seq<u64>, x: u64)
    requires
        s.no_duplicates(),
        !s.contains(x),
    ensures
        s.push(x).no_duplicates(),
        forall|y: u64| s.push(x).contains(y) ==> s.contains(y) || y == x,
{
    assert forall|y: u64| s.push(x).contains(y) implies s.contains(y) || y == x by {
        let k = choose|k: int| 0 <= k < s.push(x).len() && s.push(x)[k] == y;
        if k < s.len() {
            assert(s[k] == y);
        }
    }
}

proof fn lemma_disjoint_by_contains(p: Seq<u64>, q: Seq<u64>)
    requires
        forall|y: u64| p.contains(y) ==> !q.contains(y),
    ensures
        p.disjoint(q),
{
    assert forall|i: int, j: int| 0 <= i < p.len() && 0 <= j < q.len() implies p[i] != q[j] by {
        assert(p.contains(p[i]));
        assert(q.contains(q[j]));
    }
}

/// Law: a breakpoint command keeps breakpoint addresses distinct, since it
/// refuses an address that is set already.
pub proof fn lemma_add_keeps_distinct(
    a: AllView,
    b: AllView,
    r: BreakOutcome,
    l: BreakList,
    addr: u64,
)
    requires
        breaks_distinct(a),
        add_effect(a, b, r, l, addr),
    ensures
        breaks_distinct(b),
{
    if !has_break(a, addr) {
        match l {
            BreakList::Rva => {
                lemma_push_fresh(a.break_rva, addr);
                lemma_disjoint_by_contains(b.break_rva, b.break_va);
                lemma_disjoint_by_contains(b.break_rva, b.break_ret);
            },
            BreakList::Va => {
                lemma_push_fresh(a.break_va, addr);
                lemma_disjoint_by_contains(b.break_va, b.break_rva);
                lemma_disjoint_by_contains(b.break_rva, b.break_va);
                lemma_disjoint_by_contains(b.break_va, b.break_ret);
            },
            BreakList::Ret => {
                lemma_push_fresh(a.break_ret, addr);
                lemma_disjoint_by_contains(b.break_ret, b.break_rva);
                lemma_disjoint_by_contains(b.break_rva, b.break_ret);
                lemma_disjoint_by_contains(b.break_ret, b.break_va);
                lemma_disjoint_by_contains(b.break_va, b.break_ret);
            },
            _ => {},
        }
    }
}

proof fn lemma_remove_first_sub(s: Seq<u64>, x: u64)
    ensures
        forall|y: u64| remove_first(s, x).contains(y) ==> s.contains(y),
        s.no_duplicates() ==> remove_first(s, x).no_duplicates(),
    decreases s.len(),
{
    if s.len() > 0 {
        let rest = s.drop_first();
        lemma_remove_first_sub(rest, x);
        assert forall|y: u64| rest.contains(y) implies s.contains(y) by {
            let k = choose|k: int| 0 <= k < rest.len() && rest[k] == y;
            assert(s[k + 1] == y);
        }
        if s[0] != x {
            let t = remove_first(rest, x);
            assert forall|y: u64| (seq![s[0]] + t).contains(y) implies s.contains(y) by {
                let k = choose|k: int| 0 <= k < (seq![s[0]] + t).len() && (seq![s[0]] + t)[k] == y;
                if k > 0 {
                    assert(t[k - 1] == y);
                    assert(t.contains(y));
                } else {
                    assert(s[0] == y);
                }
            }
            if s.no_duplicates() {
                assert(rest.no_duplicates());
                assert forall|i: int, j: int|
                    0 <= i < seq![s[0]].len() && 0 <= j < t.len() implies seq![s[0]][i] != t[j] by {
                    assert(t.contains(t[j]));
                    assert(rest.contains(t[j]));
                    let k = choose|k: int| 0 <= k < rest.len() && rest[k] == t[j];
                    assert(s[k + 1] == t[j]);
                }
                vstd::seq_lib::lemma_no_dup_in_concat(seq![s[0]], t);
            }
        }
    }
}

/// Law: removing an address from a list keeps breakpoint addresses
/// distinct.
pub proof fn lemma_remove_keeps_distinct(a: AllView, l: BreakList, addr: u64)
    requires
        breaks_distinct(a),
    ensures
        breaks_distinct(with_list(a, l, remove_first(list_of(a, l), addr))),
{
    let b = with_list(a, l, remove_first(list_of(a, l), addr));
    lemma_remove_first_sub(list_of(a, l), addr);
    assert forall|y: u64| b.break_rva.contains(y) implies a.break_rva.contains(y) by {}
    assert forall|y: u64| b.break_va.contains(y) implies a.break_va.contains(y) by {}
    assert forall|y: u64| b.break_ret.contains(y) implies a.break_ret.contains(y) by {}
    assert forall|y: u64| b.break_rva.contains(y) implies !b.break_va.contains(y) by {
        if b.break_rva.contains(y) && b.break_va.contains(y) {
            let i = choose|i: int| 0 <= i < a.break_rva.len() && a.break_rva[i] == y;
            let j = choose|j: int| 0 <= j < a.break_va.len() && a.break_va[j] == y;
        }
    }
    assert forall|y: u64| b.break_rva.contains(y) implies !b.break_ret.contains(y) by {
        if b.break_rva.contains(y) && b.break_ret.contains(y) {
            let i = choose|i: int| 0 <= i < a.break_rva.len() && a.break_rva[i] == y;
            let j = choose|j: int| 0 <= j < a.break_ret.len() && a.break_ret[j] == y;
        }
    }
    assert forall|y: u64| b.break_va.contains(y) implies !b.break_ret.contains(y) by {
        if b.break_va.contains(y) && b.break_ret.contains(y) {
            let i = choose|i: int| 0 <= i < a.break_va.len() && a.break_va[i] == y;
            let j = choose|j: int| 0 <= j < a.break_ret.len() && a.break_ret[j] == y;
        }
    }
    lemma_disjoint_by_contains(b.break_rva, b.break_va);
    lemma_disjoint_by_contains(b.break_rva, b.break_ret);
    lemma_disjoint_by_contains(b.break_va, b.break_ret);
}

/// Law: a watchpoint command never brings the number of watchpoints above
/// four, the number of debug-register slots.
pub proof fn lemma_watch_cap(
    w: Seq<Seq<char>>,
    syms: Seq<SymbolFile>,
    a: AllView,
    b: AllView,
    r: WatchOutcome,
)
    requires
        a.watchpts.len() <= 4,
        watch_effect(w, syms, a, b, r),
    ensures
        b.watchpts.len() <= 4,
{
}

/// Law: resetting the same thing twice is resetting it once.
pub proof fn lemma_reset_idempotent(a: AllView, k: ResetKind)
    ensures
        reset_apply(reset_apply(a, k), k) == reset_apply(a, k),
{
}

/// The addresses other than `x`.
pub open spec fn addr_not(x: u64) -> spec_fn(u64) -> bool {
    |y: u64| y != x
}

/// The addresses of `v` other than `x`, in order.
pub fn without_addr(v: &Vec<u64>, x: u64) -> (r: Vec<u64>)
    ensures
        r@ == keep(v@, addr_not(x)),
{
    let ghost p = addr_not(x);
    let mut out: Vec<u64> = Vec::new();
    let mut i: usize = 0;
    while i < v.len()
        invariant
            i <= v.len(),
            p == addr_not(x),
            out@ == keep(v@.take(i as int), p),
        decreases v.len() - i,
    {
        proof {
            assert(v@.take(i + 1) =~= v@.take(i as int).push(v@[i as int]));
            lemma_keep_push(v@.take(i as int), v@[i as int], p);
        }
        if v[i] != x {
            out.push(v[i]);
        }
        i = i + 1;
    }
    proof {
        assert(v@.take(v.len() as int) =~= v@);
    }
    out
}

/// What `dskip` or `dret` did.
#[derive(Debug, Clone, Copy, PartialEq, Eq, Structural)]
pub enum StOpOutcome {
    /// Not two words.
    Usage,
    /// The target is neither a number nor a known symbol (or one at 0).
    InvalidTarget,
    /// Every occurrence of the address left the list.
    Retained(u64),
}

/// The effect of `<op> <target>` (words `w`) that drops an address from list
/// `l`: the target read as a number, else the address of the symbol of that
/// name, which must not be 0.
pub open spec fn st_op_effect(w: Seq<Seq<char>>, l: BreakList, syms: Seq<SymbolFile>, old: AllView, new: AllView, r: StOpOutcome) -> bool {
    if w.len() != 2 {
        r == StOpOutcome::Usage && new == old
    } else {
        let a = match str_to_spec(w[1], IntKind::U64) {
            Ok(v) => v as u64,
            Err(_) => crate::target::sym_addr_named(syms, w[1]),
        };
        if str_to_spec(w[1], IntKind::U64) is Err && a == 0 {
            r == StOpOutcome::InvalidTarget && new == old
        } else {
            r == StOpOutcome::Retained(a) && new == with_list(old, l, keep(list_of(old, l), addr_not(a)))
        }
    }
}

impl All {
    fn set_list(&mut self, l: BreakList, v: Vec<u64>)
        ensures
            final(self)@ == with_list(old(self)@, l, v@),
    {
        match l {
            BreakList::Rva => self.break_rva = v,
            BreakList::Va => self.break_va = v,
            BreakList::Ret => self.break_ret = v,
            BreakList::RetVa => self.break_ret_va = v,
            BreakList::Skip => self.skip_addr = v,
        }
    }

    fn list_ref(&self, l: BreakList) -> (r: &Vec<u64>)
        ensures
            r@ == list_of(self@, l),
    {
        match l {
            BreakList::Rva => &self.break_rva,
            BreakList::Va => &self.break_va,
            BreakList::Ret => &self.break_ret,
            BreakList::RetVa => &self.break_ret_va,
            BreakList::Skip => &self.skip_addr,
        }
    }

    /// Drops every occurrence of the address that the second word names
    /// from list `l` (see `st_op_effect`).
    pub fn process_st_operation(&mut self, linev: &[&str], l: BreakList, syms: &Symbols) -> (r: StOpOutcome)
        ensures
            st_op_effect(words(linev@), l, syms.symbol_file@, old(self)@, final(self)@, r),
    {
        if linev.len() != 2 {
            return StOpOutcome::Usage;
        }
        proof {
            assert(words(linev@)[1] == linev@[1]@);
        }
        let target = linev[1];
        let addr = match str_to_u64(target) {
            Ok(v) => v,
            Err(_) => {
                let a = crate::target::target_addr_with_name_sym(target, syms);
                if a == 0 {
                    return StOpOutcome::InvalidTarget;
                }
                a
            },
        };
        let kept = without_addr(self.list_ref(l), addr);
        self.set_list(l, kept);
        StOpOutcome::Retained(addr)
    }

    /// `dskip <target>`: the function is executed again (see
    /// `process_st_operation`).
    pub fn dskip(&mut self, linev: &[&str], syms: &Symbols) -> (r: StOpOutcome)
        ensures
            st_op_effect(words(linev@), BreakList::Skip, syms.symbol_file@, old(self)@, final(self)@, r),
    {
        self.process_st_operation(linev, BreakList::Skip, syms)
    }

    /// `dret <target>`: the returns of the function are no longer watched
    /// (see `process_st_operation`).
    pub fn dret(&mut self, linev: &[&str], syms: &Symbols) -> (r: StOpOutcome)
        ensures
            st_op_effect(words(linev@), BreakList::Ret, syms.symbol_file@, old(self)@, final(self)@, r),
    {
        self.process_st_operation(linev, BreakList::Ret, syms)
    }
}

/// Law: removing, while the program runs, a breakpoint given relative to
/// the image (`remove b <target>`) takes out the breakpoint at the target
/// moved by the image base; when that breakpoint was placed over a byte of
/// the program (no byte saved there before, none `int3`), the program gets
/// the byte back and the table of saved bytes is as before, and the first
/// occurrence of the target leaves the list.
pub proof fn lemma_remove_breakpoint_restores_byte(
    w: Seq<Seq<char>>,
    syms: Seq<SymbolFile>,
    frames: Seq<Frame>,
    base: u64,
    a: AllView,
    b: AllView,
    ctx: Context64,
    ctx2: Context64,
    r: RemoveProcOutcome,
    mem: Map<u64, u8>,
    t: Seq<crate::dbg::SaveInsn>,
    p: u64,
)
    requires
        w.len() == 3,
        proc_list_named(w[1]) == Some(BreakList::Rva),
        proc_target(w[2], ctx, syms, frames, base) == Some(p),
        a.break_rva.contains(p),
        remove_proc_effect(w, syms, frames, base, a, b, ctx, ctx2, r),
        mem.dom().contains(u64_specs::wrapping_add(p, base)),
        mem[u64_specs::wrapping_add(p, base)] != crate::dbg::int3(),
        first_index_by(t, crate::dbg::saved_at(u64_specs::wrapping_add(p, base))) == t.len(),
    ensures
        r == RemoveProcOutcome::Restore(BreakList::Rva, u64_specs::wrapping_add(p, base)),
        b == with_list(a, BreakList::Rva, remove_first(a.break_rva, p)),
        ({
            let x = u64_specs::wrapping_add(p, base);
            let placed = crate::dbg::place_bp(mem, t, x);
            crate::dbg::restore_bp(placed.0, placed.1, x) == (mem, t)
        }),
{
    reveal_strlit("breakpoint");
    reveal_strlit("b");
    reveal_strlit("crt-func");
    assert(w[1] != "crt-func"@) by {
        assert(w[1] == "breakpoint"@ || w[1] == "b"@);
    }
    crate::dbg::lemma_restore_undoes_place(mem, t, u64_specs::wrapping_add(p, base));
}

proof fn lemma_shift_distinct(s: Seq<u64>, off: u64)
    requires
        s.no_duplicates(),
    ensures
        shifted(s, off).no_duplicates(),
{
    assert forall|i: int, j: int|
        0 <= i < shifted(s, off).len() && 0 <= j < shifted(s, off).len() && i != j implies shifted(s, off)[i]
        != shifted(s, off)[j] by {
        assert(s[i] != s[j]);
    }
}

/// Law: `reset b` while the program runs takes out, in order, the
/// breakpoints of the relative list moved by the image base; when they were
/// placed over bytes of the program (no byte saved there before, none
/// `int3`), the program gets every byte back, the table of saved bytes is as
/// before, and the list is empty.
pub proof fn lemma_reset_breakpoints_restores_bytes(
    a: AllView,
    base: u64,
    mem: Map<u64, u8>,
    t: Seq<crate::dbg::SaveInsn>,
)
    requires
        a.break_rva.no_duplicates(),
        forall|k: int|
            0 <= k < a.break_rva.len() ==> {
                let x = u64_specs::wrapping_add(#[trigger] a.break_rva[k], base);
                &&& mem.dom().contains(x)
                &&& mem[x] != crate::dbg::int3()
                &&& first_index_by(t, crate::dbg::saved_at(x)) == t.len()
            },
    ensures
        ({
            let rs = reset_restores(a, ResetKind::Breakpoints, base);
            let placed = crate::dbg::place_all(mem, t, rs);
            &&& rs == shifted(a.break_rva, base)
            &&& crate::dbg::restore_all(placed.0, placed.1, rs) == (mem, t)
            &&& reset_apply(a, ResetKind::Breakpoints).break_rva == Seq::<u64>::empty()
        }),
{
    let rs = shifted(a.break_rva, base);
    lemma_shift_distinct(a.break_rva, base);
    assert forall|k: int| 0 <= k < rs.len() implies mem.dom().contains(#[trigger] rs[k]) && mem[rs[k]]
        != crate::dbg::int3() && first_index_by(t, crate::dbg::saved_at(rs[k])) == t.len() by {
        assert(rs[k] == u64_specs::wrapping_add(a.break_rva[k], base));
    }
    crate::dbg::lemma_restore_all_undoes_place_all(mem, t, rs);
}

/// Law: `remove b <target>` while the program runs hands back, through
/// `SaveTable::take` at the address it names, the byte that
/// `SaveTable::record` saved when that breakpoint was placed over a byte that
/// was not `int3` (nothing saved there before), and the table is as before.
pub proof fn lemma_remove_hands_back_recorded_byte(
    w: Seq<Seq<char>>,
    syms: Seq<SymbolFile>,
    frames: Seq<Frame>,
    base: u64,
    a: AllView,
    b: AllView,
    ctx: Context64,
    ctx2: Context64,
    r: RemoveProcOutcome,
    t: Seq<crate::dbg::SaveInsn>,
    p: u64,
    o: u8,
)
    requires
        w.len() == 3,
        proc_list_named(w[1]) == Some(BreakList::Rva),
        proc_target(w[2], ctx, syms, frames, base) == Some(p),
        a.break_rva.contains(p),
        remove_proc_effect(w, syms, frames, base, a, b, ctx, ctx2, r),
        o != crate::dbg::int3(),
        first_index_by(t, crate::dbg::saved_at(u64_specs::wrapping_add(p, base))) == t.len(),
    ensures
        ({
            let x = u64_specs::wrapping_add(p, base);
            let recorded = t.push(crate::dbg::SaveInsn { addr: x, last_oc: o });
            let i = first_index_by(recorded, crate::dbg::saved_at(x));
            &&& r == RemoveProcOutcome::Restore(BreakList::Rva, x)
            &&& i < recorded.len()
            &&& recorded[i] == crate::dbg::SaveInsn { addr: x, last_oc: o }
            &&& recorded.remove(i) == t
        }),
{
    reveal_strlit("breakpoint");
    reveal_strlit("b");
    reveal_strlit("crt-func");
    assert(w[1] != "crt-func"@) by {
        assert(w[1] == "breakpoint"@ || w[1] == "b"@);
    }
    crate::dbg::lemma_record_then_take(t, u64_specs::wrapping_add(p, base), o);
}

/// Law: `reset b` while the program runs names the addresses of the relative
/// breakpoints moved by the image base; taking them out in that order hands
/// back, through `SaveTable::take`, the bytes that `SaveTable::record` saved
/// when they were placed (none `int3`, nothing saved there before), and the
/// table is as before.
pub proof fn lemma_reset_hands_back_recorded_bytes(
    a: AllView,
    base: u64,
    t: Seq<crate::dbg::SaveInsn>,
    os: Seq<u8>,
)
    requires
        a.break_rva.no_duplicates(),
        os.len() == a.break_rva.len(),
        forall|k: int|
            0 <= k < a.break_rva.len() ==> first_index_by(
                t,
                crate::dbg::saved_at(u64_specs::wrapping_add(#[trigger] a.break_rva[k], base)),
            ) == t.len(),
    ensures
        ({
            let rs = reset_restores(a, ResetKind::Breakpoints, base);
            crate::dbg::take_all(crate::dbg::record_all(t, rs, os), rs) == (t, os.map_values(|o: u8| Some(o)))
        }),
{
    let rs = shifted(a.break_rva, base);
    lemma_shift_distinct(a.break_rva, base);
    assert forall|k: int| 0 <= k < rs.len() implies first_index_by(t, crate::dbg::saved_at(#[trigger] rs[k]))
        == t.len() by {
        assert(rs[k] == u64_specs::wrapping_add(a.break_rva[k], base));
    }
    crate::dbg::lemma_take_all_after_record_all(t, rs, os);
}

} // verus!
