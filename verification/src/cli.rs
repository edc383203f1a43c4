//! The debugger's configuration: everything the user asked for before or
//! during a run (breakpoints, watchpoints, hooks, skipped functions, defined
//! structures, arguments) and the command-line options that seed it.

use vstd::prelude::*;
use crate::structs::{TypeP, TypeV};
use crate::text::{chars_of, concat_str, string_from, views};
use crate::watch::{WatchView, Watchpts};

verus! {

/// A breakpoint placed on the instruction that follows a breakpoint, to put
/// the first one back once it has been passed.
#[derive(Debug, Default, Clone, Copy, PartialEq, Eq, Structural)]
pub struct AfterB {
    pub last_addr_b: u64,
    pub after_b: u64,
    pub last_oc: u8,
}

/// A redirection: when execution reaches `target`, it continues at
/// `replacen` (both relative to the image base).
#[derive(Debug, Default, Clone, Copy, PartialEq, Eq, Structural)]
pub struct Hook {
    pub target: u64,
    pub replacen: u64,
}

/// A function created in the debugged process that returns a constant.
#[derive(Debug)]
pub struct CrtFunc {
    pub name: String,
    pub ret_value: u64,
    pub address: u64,
}

/// The content of a `CrtFunc`.
pub struct CrtFuncV {
    pub name: Seq<char>,
    pub ret_value: u64,
    pub address: u64,
}

impl View for CrtFunc {
    type V = CrtFuncV;

    open spec fn view(&self) -> CrtFuncV {
        CrtFuncV { name: self.name@, ret_value: self.ret_value, address: self.address }
    }
}

/// The debugger's configuration.
#[derive(Debug)]
pub struct All {
    pub file: Option<String>,
    pub break_rva: Vec<u64>,
    pub break_va: Vec<u64>,
    pub arg: Option<String>,
    pub watchpts: Vec<Watchpts>,
    pub skip_addr: Vec<u64>,
    pub crt_func: Vec<CrtFunc>,
    pub break_ret: Vec<u64>,
    pub hook: Vec<Hook>,
    pub attach: Option<String>,
    pub struct_def: Vec<TypeP>,
    pub after_b: Vec<AfterB>,
    pub break_ret_va: Vec<u64>,
}

/// The content of an `All`.
pub struct AllView {
    pub file: Option<Seq<char>>,
    pub break_rva: Seq<u64>,
    pub break_va: Seq<u64>,
    pub arg: Option<Seq<char>>,
    pub watchpts: Seq<WatchView>,
    pub skip_addr: Seq<u64>,
    pub crt_func: Seq<CrtFuncV>,
    pub break_ret: Seq<u64>,
    pub hook: Seq<Hook>,
    pub attach: Option<Seq<char>>,
    pub struct_def: Seq<TypeV>,
    pub after_b: Seq<AfterB>,
    pub break_ret_va: Seq<u64>,
}

pub open spec fn opt_view(o: Option<String>) -> Option<Seq<char>> {
    match o {
        Some(s) => Some(s@),
        None => None,
    }
}

pub open spec fn watch_views(v: Seq<Watchpts>) -> Seq<WatchView> {
    v.map_values(|w: Watchpts| w@)
}

pub open spec fn func_views(v: Seq<CrtFunc>) -> Seq<CrtFuncV> {
    v.map_values(|f: CrtFunc| f@)
}

pub open spec fn type_views(v: Seq<TypeP>) -> Seq<TypeV> {
    v.map_values(|t: TypeP| t@)
}

impl View for All {
    type V = AllView;

    open spec fn view(&self) -> AllView {
        AllView {
            file: opt_view(self.file),
            break_rva: self.break_rva@,
            break_va: self.break_va@,
            arg: opt_view(self.arg),
            watchpts: watch_views(self.watchpts@),
            skip_addr: self.skip_addr@,
            crt_func: func_views(self.crt_func@),
            break_ret: self.break_ret@,
            hook: self.hook@,
            attach: opt_view(self.attach),
            struct_def: type_views(self.struct_def@),
            after_b: self.after_b@,
            break_ret_va: self.break_ret_va@,
        }
    }
}

/// The configuration with nothing set.
pub open spec fn all_empty() -> AllView {
    AllView {
        file: None,
        break_rva: Seq::empty(),
        break_va: Seq::empty(),
        arg: None,
        watchpts: Seq::empty(),
        skip_addr: Seq::empty(),
        crt_func: Seq::empty(),
        break_ret: Seq::empty(),
        hook: Seq::empty(),
        attach: None,
        struct_def: Seq::empty(),
        after_b: Seq::empty(),
        break_ret_va: Seq::empty(),
    }
}

/// `addr` is a breakpoint already: relative, absolute, or at a function's
/// return.
pub open spec fn has_break(a: AllView, addr: u64) -> bool {
    a.break_rva.contains(addr) || a.break_va.contains(addr) || a.break_ret.contains(addr)
}

impl Default for All {
    fn default() -> (r: All)
        ensures
            r@ == all_empty(),
    {
        let r = All {
            file: None,
            break_rva: Vec::new(),
            break_va: Vec::new(),
            arg: None,
            watchpts: Vec::new(),
            skip_addr: Vec::new(),
            crt_func: Vec::new(),
            break_ret: Vec::new(),
            hook: Vec::new(),
            attach: None,
            struct_def: Vec::new(),
            after_b: Vec::new(),
            break_ret_va: Vec::new(),
        };
        proof {
            assert(watch_views(r.watchpts@) =~= Seq::<WatchView>::empty());
            assert(func_views(r.crt_func@) =~= Seq::<CrtFuncV>::empty());
            assert(type_views(r.struct_def@) =~= Seq::<TypeV>::empty());
        }
        r
    }
}

/// Whether `addr` occurs in `v`.
pub fn contains_u64(v: &Vec<u64>, addr: u64) -> (r: bool)
    ensures
        r == v@.contains(addr),
{
    let mut i: usize = 0;
    while i < v.len()
        invariant
            i <= v.len(),
            forall|k: int| 0 <= k < i ==> v@[k] != addr,
        decreases v.len() - i,
    {
        if v[i] == addr {
            return true;
        }
        i = i + 1;
    }
    false
}

/// A copy of `v`.
pub fn copy_u64s(v: &Vec<u64>) -> (r: Vec<u64>)
    ensures
        r@ == v@,
{
    let mut out: Vec<u64> = Vec::new();
    let mut i: usize = 0;
    while i < v.len()
        invariant
            i <= v.len(),
            out@ == v@.take(i as int),
        decreases v.len() - i,
    {
        out.push(v[i]);
        proof {
            assert(v@.take(i + 1) =~= v@.take(i as int).push(v@[i as int]));
        }
        i = i + 1;
    }
    proof {
        assert(v@.take(v.len() as int) =~= v@);
    }
    out
}

/// A copy of an optional string.
pub fn copy_opt(o: &Option<String>) -> (r: Option<String>)
    ensures
        opt_view(r) == opt_view(*o),
{
    match o {
        Some(s) => Some(s.clone()),
        None => None,
    }
}

impl All {
    /// Whether a breakpoint is set at `addr` (see `has_break`).
    pub fn break_contain(&self, addr: u64) -> (r: bool)
        ensures
            r == has_break(self@, addr),
    {
        contains_u64(&self.break_rva, addr) || contains_u64(&self.break_va, addr) || contains_u64(
            &self.break_ret,
            addr,
        )
    }
}

/// The options given on the command line.
#[derive(Debug)]
pub struct Dbgoption {
    pub file: Option<String>,
    pub breakpoint_addr: Vec<u64>,
    pub b_ret_va: Vec<u64>,
    pub b_ret: Vec<u64>,
    pub b_va: Vec<u64>,
    pub arg: Option<String>,
    pub exec_cmd: Vec<String>,
    pub watchpts: Vec<Watchpts>,
    pub attach: Option<String>,
}

pub open spec fn string_views(v: Seq<String>) -> Seq<Seq<char>> {
    v.map_values(|s: String| s@)
}

impl Dbgoption {
    /// The command lines to run before the prompt: each `--exec` command in
    /// order, then `attach <target>` when `--attach` was given.
    pub fn exec_cmd(&self) -> (r: Vec<String>)
        ensures
            string_views(r@) == string_views(self.exec_cmd@) + match self.attach {
                Some(a) => seq!["attach "@ + a@],
                None => Seq::empty(),
            },
    {
        let mut out: Vec<String> = Vec::new();
        let mut i: usize = 0;
        while i < self.exec_cmd.len()
            invariant
                i <= self.exec_cmd.len(),
                string_views(out@) == string_views(self.exec_cmd@.take(i as int)),
            decreases self.exec_cmd.len() - i,
        {
            let c = self.exec_cmd[i].clone();
            proof {
                assert(string_views(out@.push(c)) =~= string_views(out@).push(c@));
                assert(string_views(self.exec_cmd@.take(i + 1)) =~= string_views(
                    self.exec_cmd@.take(i as int),
                ).push(self.exec_cmd@[i as int]@));
            }
            out.push(c);
            i = i + 1;
        }
        proof {
            assert(self.exec_cmd@.take(self.exec_cmd.len() as int) =~= self.exec_cmd@);
        }
        match &self.attach {
            Some(a) => {
                let line = concat_str(&chars_of("attach "), a.as_str());
                let s = string_from(&line);
                proof {
                    assert(string_views(out@.push(s)) =~= string_views(out@).push(s@));
                }
                out.push(s);
            },
            None => {
                proof {
                    assert(string_views(out@) + Seq::<Seq<char>>::empty() =~= string_views(out@));
                }
            },
        }
        out
    }

    /// The configuration that the options give: the file, the arguments,
    /// the watchpoints and the four kinds of breakpoints; the rest is empty.
    pub fn to_all_elm(&self) -> (r: All)
        ensures
            r@ == (AllView {
                file: opt_view(self.file),
                break_rva: self.breakpoint_addr@,
                arg: opt_view(self.arg),
                watchpts: watch_views(self.watchpts@),
                break_va: self.b_va@,
                break_ret_va: self.b_ret_va@,
                break_ret: self.b_ret@,
                ..all_empty()
            }),
    {
        let mut result = All::default();
        result.file = copy_opt(&self.file);
        result.break_rva = copy_u64s(&self.breakpoint_addr);
        result.arg = copy_opt(&self.arg);
        let mut w: Vec<Watchpts> = Vec::new();
        let mut i: usize = 0;
        while i < self.watchpts.len()
            invariant
                i <= self.watchpts.len(),
                watch_views(w@) == watch_views(self.watchpts@.take(i as int)),
            decreases self.watchpts.len() - i,
        {
            let c = self.watchpts[i].duplicate();
            proof {
                assert(watch_views(w@.push(c)) =~= watch_views(w@).push(c@));
                assert(watch_views(self.watchpts@.take(i + 1)) =~= watch_views(
                    self.watchpts@.take(i as int),
                ).push(self.watchpts@[i as int]@));
            }
            w.push(c);
            i = i + 1;
        }
        proof {
            assert(self.watchpts@.take(self.watchpts.len() as int) =~= self.watchpts@);
        }
        result.watchpts = w;
        result.break_va = copy_u64s(&self.b_va);
        result.break_ret_va = copy_u64s(&self.b_ret_va);
        result.break_ret = copy_u64s(&self.b_ret);
        result
    }
}

} // verus!
