//! What the `view` and `backtrace` commands show: which list, and how a code
//! address is named after its function.

use vstd::prelude::*;
use vstd::wrapping::{i64_specs, u64_specs};
use crate::commands::first_index_by;
use crate::number::{digits, fmt_radix, fmt_signed, signed_digits};
use crate::pe::FuncEntry;
use crate::symbol::{SymbolFile, Symbols};
use crate::text::{chars_of, concat, concat_str, str_eq, string_from, string_of};

verus! {

/// The lists that `view` shows.
#[derive(Debug, Clone, Copy, PartialEq, Eq, Structural)]
pub enum ViewWhat {
    /// Not two words.
    Usage,
    Breakpoints,
    Skip,
    Stret,
    Symbols,
    Hooks,
    CreatedFunctions,
    Watchpoints,
    Functions,
    Sections,
    /// Modules are accepted and show nothing.
    Modules,
    /// The word names no list.
    Unknown,
}

/// The list that the word of `view` names.
pub open spec fn view_named(w: Seq<char>) -> ViewWhat {
    if w == "breakpoint"@ || w == "brpt"@ || w == "b"@ {
        ViewWhat::Breakpoints
    } else if w == "skip"@ {
        ViewWhat::Skip
    } else if w == "stret"@ {
        ViewWhat::Stret
    } else if w == "symbol"@ || w == "sym"@ || w == "s"@ {
        ViewWhat::Symbols
    } else if w == "hook-func"@ || w == "hook"@ || w == "h"@ {
        ViewWhat::Hooks
    } else if w == "create-function"@ || w == "create-func"@ || w == "crt-func"@ {
        ViewWhat::CreatedFunctions
    } else if w == "watchpoint"@ || w == "watch"@ || w == "w"@ {
        ViewWhat::Watchpoints
    } else if w == "function"@ || w == "func"@ || w == "f"@ {
        ViewWhat::Functions
    } else if w == "section"@ || w == "sec"@ {
        ViewWhat::Sections
    } else if w == "hmodule"@ || w == "module"@ {
        ViewWhat::Modules
    } else {
        ViewWhat::Unknown
    }
}

/// Law: each word after `view` designates what it names: `breakpoint`/`brpt`/`b` gives
/// `ViewWhat::Breakpoints`; `skip` gives `ViewWhat::Skip`; `stret` gives
/// `ViewWhat::Stret`; `symbol`/`sym`/`s` gives `ViewWhat::Symbols`;
/// `hook-func`/`hook`/`h` gives `ViewWhat::Hooks`;
/// `create-function`/`create-func`/`crt-func` gives `ViewWhat::CreatedFunctions`;
/// `watchpoint`/`watch`/`w` gives `ViewWhat::Watchpoints`; `function`/`func`/`f` gives
/// `ViewWhat::Functions`; `section`/`sec` gives `ViewWhat::Sections`; `hmodule`/`module`
/// gives `ViewWhat::Modules`.
pub proof fn lemma_view_names()
    ensures
        view_named("breakpoint"@) == ViewWhat::Breakpoints,
        view_named("brpt"@) == ViewWhat::Breakpoints,
        view_named("b"@) == ViewWhat::Breakpoints,
        view_named("skip"@) == ViewWhat::Skip,
        view_named("stret"@) == ViewWhat::Stret,
        view_named("symbol"@) == ViewWhat::Symbols,
        view_named("sym"@) == ViewWhat::Symbols,
        view_named("s"@) == ViewWhat::Symbols,
        view_named("hook-func"@) == ViewWhat::Hooks,
        view_named("hook"@) == ViewWhat::Hooks,
        view_named("h"@) == ViewWhat::Hooks,
        view_named("create-function"@) == ViewWhat::CreatedFunctions,
        view_named("create-func"@) == ViewWhat::CreatedFunctions,
        view_named("crt-func"@) == ViewWhat::CreatedFunctions,
        view_named("watchpoint"@) == ViewWhat::Watchpoints,
        view_named("watch"@) == ViewWhat::Watchpoints,
        view_named("w"@) == ViewWhat::Watchpoints,
        view_named("function"@) == ViewWhat::Functions,
        view_named("func"@) == ViewWhat::Functions,
        view_named("f"@) == ViewWhat::Functions,
        view_named("section"@) == ViewWhat::Sections,
        view_named("sec"@) == ViewWhat::Sections,
        view_named("hmodule"@) == ViewWhat::Modules,
        view_named("module"@) == ViewWhat::Modules,
{
    reveal_strlit("breakpoint");
    assert("breakpoint"@.len() == 10);
    reveal_strlit("brpt");
    assert("brpt"@.len() == 4);
    reveal_strlit("b");
    assert("b"@.len() == 1);
    reveal_strlit("skip");
    assert("skip"@.len() == 4);
    reveal_strlit("stret");
    assert("stret"@.len() == 5);
    reveal_strlit("symbol");
    assert("symbol"@.len() == 6);
    reveal_strlit("sym");
    assert("sym"@.len() == 3);
    reveal_strlit("s");
    assert("s"@.len() == 1);
    reveal_strlit("hook-func");
    assert("hook-func"@.len() == 9);
    reveal_strlit("hook");
    assert("hook"@.len() == 4);
    reveal_strlit("h");
    assert("h"@.len() == 1);
    reveal_strlit("create-function");
    assert("create-function"@.len() == 15);
    reveal_strlit("create-func");
    assert("create-func"@.len() == 11);
    reveal_strlit("crt-func");
    assert("crt-func"@.len() == 8);
    reveal_strlit("watchpoint");
    assert("watchpoint"@.len() == 10);
    reveal_strlit("watch");
    assert("watch"@.len() == 5);
    reveal_strlit("w");
    assert("w"@.len() == 1);
    reveal_strlit("function");
    assert("function"@.len() == 8);
    reveal_strlit("func");
    assert("func"@.len() == 4);
    reveal_strlit("f");
    assert("f"@.len() == 1);
    reveal_strlit("section");
    assert("section"@.len() == 7);
    reveal_strlit("sec");
    assert("sec"@.len() == 3);
    reveal_strlit("hmodule");
    assert("hmodule"@.len() == 7);
    reveal_strlit("module");
    assert("module"@.len() == 6);
    assert("skip"@[0] != "brpt"@[0]);
    assert("s"@[0] != "b"@[0]);
    assert("hook"@[0] != "brpt"@[0]);
    assert("hook"@[0] != "skip"@[0]);
    assert("h"@[0] != "b"@[0]);
    assert("h"@[0] != "s"@[0]);
    assert("watchpoint"@[0] != "breakpoint"@[0]);
    assert("watch"@[0] != "stret"@[0]);
    assert("w"@[0] != "b"@[0]);
    assert("w"@[0] != "s"@[0]);
    assert("w"@[0] != "h"@[0]);
    assert("function"@[0] != "crt-func"@[0]);
    assert("func"@[0] != "brpt"@[0]);
    assert("func"@[0] != "skip"@[0]);
    assert("func"@[0] != "hook"@[0]);
    assert("f"@[0] != "b"@[0]);
    assert("f"@[0] != "s"@[0]);
    assert("f"@[0] != "h"@[0]);
    assert("f"@[0] != "w"@[0]);
    assert("sec"@[1] != "sym"@[1]);
    assert("hmodule"@[0] != "section"@[0]);
    assert("module"@[0] != "symbol"@[0]);
}


/// Reads `view <list>` (see `view_named`).
pub fn view_brpkt(linev: &[&str]) -> (r: ViewWhat)
    ensures
        linev@.len() != 2 ==> r == ViewWhat::Usage,
        linev@.len() == 2 ==> r == view_named(linev@[1]@),
{
    if linev.len() != 2 {
        return ViewWhat::Usage;
    }
    let w = linev[1];
    if str_eq(w, "breakpoint") || str_eq(w, "brpt") || str_eq(w, "b") {
        ViewWhat::Breakpoints
    } else if str_eq(w, "skip") {
        ViewWhat::Skip
    } else if str_eq(w, "stret") {
        ViewWhat::Stret
    } else if str_eq(w, "symbol") || str_eq(w, "sym") || str_eq(w, "s") {
        ViewWhat::Symbols
    } else if str_eq(w, "hook-func") || str_eq(w, "hook") || str_eq(w, "h") {
        ViewWhat::Hooks
    } else if str_eq(w, "create-function") || str_eq(w, "create-func") || str_eq(w, "crt-func") {
        ViewWhat::CreatedFunctions
    } else if str_eq(w, "watchpoint") || str_eq(w, "watch") || str_eq(w, "w") {
        ViewWhat::Watchpoints
    } else if str_eq(w, "function") || str_eq(w, "func") || str_eq(w, "f") {
        ViewWhat::Functions
    } else if str_eq(w, "section") || str_eq(w, "sec") {
        ViewWhat::Sections
    } else if str_eq(w, "hmodule") || str_eq(w, "module") {
        ViewWhat::Modules
    } else {
        ViewWhat::Unknown
    }
}

/// The symbols that lie where function `f` starts (offsets compared once
/// moved by `base`).
pub open spec fn sym_at_func(f: FuncEntry, base: u64) -> spec_fn(SymbolFile) -> bool {
    |s: SymbolFile|
        i64_specs::wrapping_add(s.offset, base as i64) == i64_specs::wrapping_add(
            f.begin_address as i64,
            base as i64,
        )
}

/// The name shown beside a function of the function list: `<name>` of the
/// first symbol that lies where it starts, else nothing.
pub open spec fn func_sym_name(syms: Seq<SymbolFile>, f: FuncEntry, base: u64) -> Seq<char> {
    let i = first_index_by(syms, sym_at_func(f, base));
    if i < syms.len() {
        seq!['<'] + syms[i].name@ + seq!['>']
    } else {
        Seq::empty()
    }
}

/// See `func_sym_name`.
pub fn get_sym_name(syms: &Symbols, f: &FuncEntry, base: u64) -> (r: String)
    ensures
        r@ == func_sym_name(syms.symbol_file@, *f, base),
{
    let ghost p = sym_at_func(*f, base);
    let target = (f.begin_address as i64).wrapping_add(base as i64);
    let mut i: usize = 0;
    while i < syms.symbol_file.len()
        invariant
            i <= syms.symbol_file.len(),
            p == sym_at_func(*f, base),
            target == i64_specs::wrapping_add(f.begin_address as i64, base as i64),
            forall|j: int| 0 <= j < i ==> !p(#[trigger] syms.symbol_file@[j]),
        decreases syms.symbol_file.len() - i,
    {
        if syms.symbol_file[i].offset.wrapping_add(base as i64) == target {
            proof {
                crate::commands::lemma_first_index_by(syms.symbol_file@, p, i as int);
            }
            let mut v = vec!['<'];
            let mut n = chars_of(syms.symbol_file[i].name.as_str());
            v.append(&mut n);
            v.push('>');
            proof {
                assert(v@ =~= seq!['<'] + syms.symbol_file@[i as int].name@ + seq!['>']);
            }
            return string_from(&v);
        }
        i = i + 1;
    }
    proof {
        crate::commands::lemma_first_index_by(syms.symbol_file@, p, i as int);
    }
    String::new()
}

/// The functions whose range, moved by `base`, holds `off` (end included).
pub open spec fn func_holding(off: u64, base: u64) -> spec_fn(FuncEntry) -> bool {
    |f: FuncEntry|
        u64_specs::wrapping_add(f.begin_address as u64, base) <= off && off <= u64_specs::wrapping_add(
            f.end_address as u64,
            base,
        )
}

/// The symbols whose offset is where function `f` starts.
pub open spec fn sym_on_func(f: FuncEntry) -> spec_fn(SymbolFile) -> bool {
    |s: SymbolFile| s.offset == f.begin_address as i64
}

/// How a code address `off` of a frame is named: `<symbol+delta>` from the
/// start of the first function holding it when a symbol lies there, else
/// `<func_` with the function's start in hexadecimal and the delta (the
/// closing `>` is left out); nothing outside every function. The delta is
/// signed, in decimal, with its sign.
pub open spec fn frame_label(funcs: Seq<FuncEntry>, syms: Seq<SymbolFile>, base: u64, off: u64) -> Seq<char> {
    let i = first_index_by(funcs, func_holding(off, base));
    if i < funcs.len() {
        let f = funcs[i];
        let delta = i64_specs::wrapping_sub(
            off as i64,
            i64_specs::wrapping_add(f.begin_address as i64, base as i64),
        );
        let k = first_index_by(syms, sym_on_func(f));
        if k < syms.len() {
            seq!['<'] + syms[k].name@ + signed_digits(delta as int, true) + seq!['>']
        } else {
            "<func_"@ + digits(f.begin_address as nat, 16) + signed_digits(delta as int, true)
        }
    } else {
        Seq::empty()
    }
}

/// See `frame_label`.
pub fn frame_annotation(funcs: &Vec<FuncEntry>, syms: &Symbols, base: u64, off: u64) -> (r: String)
    ensures
        r@ == frame_label(funcs@, syms.symbol_file@, base, off),
{
    let ghost p = func_holding(off, base);
    let mut i: usize = 0;
    while i < funcs.len()
        invariant
            i <= funcs.len(),
            p == func_holding(off, base),
            forall|j: int| 0 <= j < i ==> !p(#[trigger] funcs@[j]),
        ensures
            i <= funcs.len(),
            forall|j: int| 0 <= j < i ==> !p(#[trigger] funcs@[j]),
            i == funcs.len() || p(funcs@[i as int]),
        decreases funcs.len() - i,
    {
        let f = funcs[i];
        if (f.begin_address as u64).wrapping_add(base) <= off && off <= (f.end_address as u64).wrapping_add(base) {
            break;
        }
        i = i + 1;
    }
    proof {
        crate::commands::lemma_first_index_by(funcs@, p, i as int);
    }
    if i == funcs.len() {
        return String::new();
    }
    let f = funcs[i];
    let delta = (off as i64).wrapping_sub((f.begin_address as i64).wrapping_add(base as i64));
    let ghost q = sym_on_func(f);
    let mut k: usize = 0;
    while k < syms.symbol_file.len()
        invariant
            k <= syms.symbol_file.len(),
            q == sym_on_func(f),
            forall|j: int| 0 <= j < k ==> !q(#[trigger] syms.symbol_file@[j]),
        ensures
            k <= syms.symbol_file.len(),
            forall|j: int| 0 <= j < k ==> !q(#[trigger] syms.symbol_file@[j]),
            k == syms.symbol_file.len() || q(syms.symbol_file@[k as int]),
        decreases syms.symbol_file.len() - k,
    {
        if syms.symbol_file[k].offset == f.begin_address as i64 {
            break;
        }
        k = k + 1;
    }
    proof {
        crate::commands::lemma_first_index_by(syms.symbol_file@, q, k as int);
    }
    let d = fmt_signed(delta, true);
    if k < syms.symbol_file.len() {
        let mut v = vec!['<'];
        let mut n = chars_of(syms.symbol_file[k].name.as_str());
        v.append(&mut n);
        let mut d2 = d;
        v.append(&mut d2);
        v.push('>');
        proof {
            assert(v@ =~= seq!['<'] + syms.symbol_file@[k as int].name@ + signed_digits(delta as int, true) + seq!['>']);
        }
        string_from(&v)
    } else {
        let mut v = chars_of("<func_");
        let mut h = fmt_radix(f.begin_address as u64, 16);
        v.append(&mut h);
        let mut d2 = d;
        v.append(&mut d2);
        string_from(&v)
    }
}

} // verus!
