//! The `value` command: which registers to show and their values.

use vstd::prelude::*;
use crate::context::{value32_named, value_named, Context32, Context64, ToValue, ToValue32, Value};
use crate::text::{chars_of, lower_seq, str_eq, string_of};

verus! {

/// The registers of a 64-bit thread that `value` knows, in order.
pub open spec fn all_reg64() -> Seq<Seq<char>> {
    seq!["rax"@, "rbx"@, "rcx"@, "rdx"@, "rsi"@, "rdi"@, "rbp"@, "rsp"@, "rip"@, "r8"@, "r9"@, "r10"@, "r11"@, "r12"@, "r13"@, "r14"@, "r15"@, "segcs"@, "segds"@, "seges"@, "segfs"@, "seggs"@, "segss"@, "eflags"@, "cs"@, "ds"@, "es"@, "fs"@, "gs"@, "ss"@, "flags"@, "xmm0"@, "xmm1"@, "xmm2"@, "xmm3"@, "xmm4"@, "xmm5"@, "xmm6"@, "xmm7"@, "xmm8"@, "xmm9"@, "xmm10"@, "xmm11"@, "xmm12"@, "xmm13"@, "xmm14"@, "xmm15"@, "mxcsr"@]
}

/// The registers of a 32-bit thread that `value` knows, in order.
pub open spec fn all_reg32() -> Seq<Seq<char>> {
    seq!["eax"@, "ebx"@, "ecx"@, "edx"@, "esi"@, "edi"@, "ebp"@, "esp"@, "eip"@, "cs"@, "segcs"@, "ds"@, "segds"@, "es"@, "seges"@, "fs"@, "segfs"@, "gs"@, "seggs"@, "ss"@, "segss"@, "flag"@, "eflag"@, "ctrl-word"@, "control-word"@, "status-word"@, "tag-word"@, "err-offset"@, "error-offset"@, "err-select"@, "error-selector"@, "data-offset"@, "data-selector"@, "data-select"@]
}

pub open spec fn strs(v: Seq<&str>) -> Seq<Seq<char>> {
    v.map_values(|s: &str| s@)
}

fn all_reg64_exec() -> (r: Vec<&'static str>)
    ensures
        strs(r@) == all_reg64(),
{
    let r = vec!["rax", "rbx", "rcx", "rdx", "rsi", "rdi", "rbp", "rsp", "rip", "r8", "r9", "r10", "r11", "r12", "r13", "r14", "r15", "segcs", "segds", "seges", "segfs", "seggs", "segss", "eflags", "cs", "ds", "es", "fs", "gs", "ss", "flags", "xmm0", "xmm1", "xmm2", "xmm3", "xmm4", "xmm5", "xmm6", "xmm7", "xmm8", "xmm9", "xmm10", "xmm11", "xmm12", "xmm13", "xmm14", "xmm15", "mxcsr"];
    assert(strs(r@) =~= all_reg64());
    r
}

fn all_reg32_exec() -> (r: Vec<&'static str>)
    ensures
        strs(r@) == all_reg32(),
{
    let r = vec!["eax", "ebx", "ecx", "edx", "esi", "edi", "ebp", "esp", "eip", "cs", "segcs", "ds", "segds", "es", "seges", "fs", "segfs", "gs", "seggs", "ss", "segss", "flag", "eflag", "ctrl-word", "control-word", "status-word", "tag-word", "err-offset", "error-offset", "err-select", "error-selector", "data-offset", "data-selector", "data-select"];
    assert(strs(r@) =~= all_reg32());
    r
}

/// Which registers `value <what>` shows.
#[derive(Debug, Clone, Copy, PartialEq, Eq, Structural)]
pub enum RegQuery {
    /// No word after the command.
    Usage,
    AllReg,
    AllSeg,
    AllVec,
    All,
    /// The register named by the word.
    One,
}

/// The query of `value <what>`.
pub open spec fn reg_query(w: Seq<char>) -> RegQuery {
    if w == "all-reg"@ || w == "all-register"@ {
        RegQuery::AllReg
    } else if w == "all-seg"@ || w == "all-segment"@ {
        RegQuery::AllSeg
    } else if w == "all-vec"@ || w == "all-vector"@ {
        RegQuery::AllVec
    } else if w == "all"@ {
        RegQuery::All
    } else {
        RegQuery::One
    }
}

/// Law: each register-group word designates the group it names: `all-reg`/`all-register`
/// gives `RegQuery::AllReg`; `all-seg`/`all-segment` gives `RegQuery::AllSeg`;
/// `all-vec`/`all-vector` gives `RegQuery::AllVec`; `all` gives `RegQuery::All`.
pub proof fn lemma_reg_query_names()
    ensures
        reg_query("all-reg"@) == RegQuery::AllReg,
        reg_query("all-register"@) == RegQuery::AllReg,
        reg_query("all-seg"@) == RegQuery::AllSeg,
        reg_query("all-segment"@) == RegQuery::AllSeg,
        reg_query("all-vec"@) == RegQuery::AllVec,
        reg_query("all-vector"@) == RegQuery::AllVec,
        reg_query("all"@) == RegQuery::All,
{
    reveal_strlit("all-reg");
    assert("all-reg"@.len() == 7);
    reveal_strlit("all-register");
    assert("all-register"@.len() == 12);
    reveal_strlit("all-seg");
    assert("all-seg"@.len() == 7);
    reveal_strlit("all-segment");
    assert("all-segment"@.len() == 11);
    reveal_strlit("all-vec");
    assert("all-vec"@.len() == 7);
    reveal_strlit("all-vector");
    assert("all-vector"@.len() == 10);
    reveal_strlit("all");
    assert("all"@.len() == 3);
    assert("all-seg"@[4] != "all-reg"@[4]);
    assert("all-vec"@[4] != "all-reg"@[4]);
    assert("all-vec"@[4] != "all-seg"@[4]);
}


fn reg_query_exec(w: &str) -> (r: RegQuery)
    ensures
        r == reg_query(w@),
{
    if str_eq(w, "all-reg") || str_eq(w, "all-register") {
        RegQuery::AllReg
    } else if str_eq(w, "all-seg") || str_eq(w, "all-segment") {
        RegQuery::AllSeg
    } else if str_eq(w, "all-vec") || str_eq(w, "all-vector") {
        RegQuery::AllVec
    } else if str_eq(w, "all") {
        RegQuery::All
    } else {
        RegQuery::One
    }
}

/// A register shown: its name and value.
#[derive(Debug)]
pub struct RegRow {
    pub name: String,
    pub value: Value,
}

/// The names a query selects among `names`, before their values are read.
pub open spec fn name_kept(q: RegQuery) -> spec_fn(Seq<char>) -> bool {
    |n: Seq<char>| match q {
        RegQuery::AllReg => n.len() > 0 && n[0] == 'r',
        RegQuery::AllSeg => n.len() == 2 && n[1] == 's',
        RegQuery::AllVec => n.len() >= 3 && n[0] == 'x' && n[1] == 'm' && n[2] == 'm',
        _ => true,
    }
}

/// Whether a value read for query `q` is shown.
pub open spec fn value_shown(q: RegQuery, v: Value) -> bool {
    match q {
        RegQuery::AllReg => !(v is Un),
        RegQuery::AllSeg => v is U64,
        RegQuery::AllVec => v is U128,
        _ => true,
    }
}

/// The rows of a listing query in a 64-bit thread: the selected names in
/// order with their values, those whose value the query does not show left
/// out.
pub open spec fn rows64(q: RegQuery, ctx: Context64, names: Seq<Seq<char>>) -> Seq<(Seq<char>, Value)>
    decreases names.len(),
{
    if names.len() == 0 {
        Seq::empty()
    } else {
        let rest = rows64(q, ctx, names.drop_last());
        let n = names.last();
        let v = value_named(ctx, n);
        if name_kept(q)(n) && value_shown(q, v) {
            rest.push((n, v))
        } else {
            rest
        }
    }
}

pub open spec fn row_views(v: Seq<RegRow>) -> Seq<(Seq<char>, Value)> {
    v.map_values(|r: RegRow| (r.name@, r.value))
}

fn name_kept_exec(q: RegQuery, n: &str) -> (r: bool)
    ensures
        r == name_kept(q)(n@),
{
    let c = chars_of(n);
    match q {
        RegQuery::AllReg => c.len() > 0 && c[0] == 'r',
        RegQuery::AllSeg => c.len() == 2 && c[1] == 's',
        RegQuery::AllVec => c.len() >= 3 && c[0] == 'x' && c[1] == 'm' && c[2] == 'm',
        _ => true,
    }
}

/// `value <what>` in a 64-bit thread: `None` without a word, else the rows
/// to show: the listing of a query, or the one register named (whose value
/// is `Un` when there is no such register).
pub fn handle_reg(linev: &[&str], ctx: &Context64) -> (r: Option<Vec<RegRow>>)
    ensures
        linev@.len() < 2 ==> r is None,
        linev@.len() >= 2 ==> (r matches Some(v) && row_views(v@) == if reg_query(linev@[1]@)
            == RegQuery::One {
            seq![(linev@[1]@, value_named(*ctx, linev@[1]@))]
        } else {
            rows64(reg_query(linev@[1]@), *ctx, all_reg64())
        }),
{
    if linev.len() < 2 {
        return None;
    }
    let q = reg_query_exec(linev[1]);
    let mut out: Vec<RegRow> = Vec::new();
    if q == RegQuery::One {
        let v = ctx.str_to_value_ctx(linev[1]);
        out.push(RegRow { name: string_of(linev[1]), value: v });
        proof {
            assert(row_views(out@) =~= seq![(linev@[1]@, value_named(*ctx, linev@[1]@))]);
        }
        return Some(out);
    }
    let names = all_reg64_exec();
    let mut i: usize = 0;
    proof {
        assert(row_views(out@) =~= rows64(q, *ctx, strs(names@).take(0)));
    }
    while i < names.len()
        invariant
            i <= names.len(),
            strs(names@) == all_reg64(),
            row_views(out@) == rows64(q, *ctx, strs(names@).take(i as int)),
        decreases names.len() - i,
    {
        let n = names[i];
        let v = ctx.str_to_value_ctx(n);
        proof {
            assert(strs(names@).take(i + 1).drop_last() =~= strs(names@).take(i as int));
            assert(strs(names@).take(i + 1).last() == n@);
        }
        let shown = match (q, &v) {
            (RegQuery::AllReg, Value::Un) => false,
            (RegQuery::AllReg, _) => true,
            (RegQuery::AllSeg, Value::U64(_)) => true,
            (RegQuery::AllSeg, _) => false,
            (RegQuery::AllVec, Value::U128(_)) => true,
            (RegQuery::AllVec, _) => false,
            _ => true,
        };
        if name_kept_exec(q, n) && shown {
            let row = RegRow { name: string_of(n), value: v };
            proof {
                assert(row_views(out@.push(row)) =~= row_views(out@).push((n@, v)));
            }
            out.push(row);
        }
        i = i + 1;
    }
    proof {
        assert(strs(names@).take(names.len() as int) =~= strs(names@));
    }
    Some(out)
}

/// What `value <what>` shows in a 32-bit thread.
#[derive(Debug)]
pub enum Reg32Listing {
    Usage,
    Rows(Vec<(String, u32)>),
    /// No register has the name.
    Unknown(String),
}

/// The names a query selects in a 32-bit thread: for all registers, the
/// three-letter names (`eax` to `eip`); for segments, two letters ending
/// in `s`; everything for `all`.
pub open spec fn name32_kept(q: RegQuery) -> spec_fn(Seq<char>) -> bool {
    |n: Seq<char>| match q {
        RegQuery::AllReg => n.len() == 3,
        RegQuery::AllSeg => n.len() == 2 && n[1] == 's',
        _ => true,
    }
}

pub open spec fn rows32(q: RegQuery, ctx: Context32, names: Seq<Seq<char>>) -> Seq<(Seq<char>, u32)>
    decreases names.len(),
{
    if names.len() == 0 {
        Seq::empty()
    } else {
        let rest = rows32(q, ctx, names.drop_last());
        let n = names.last();
        if name32_kept(q)(n) {
            rest.push((n, value32_named(ctx, lower_seq(n))))
        } else {
            rest
        }
    }
}

pub open spec fn pair_views(v: Seq<(String, u32)>) -> Seq<(Seq<char>, u32)> {
    v.map_values(|p: (String, u32)| (p.0@, p.1))
}

/// `value <what>` in a 32-bit thread (there are no vector registers: any
/// other word names one register, which must be one of `all_reg32`).
pub fn handle_reg32(linev: &[&str], ctx: &Context32) -> (r: Reg32Listing)
    ensures
        linev@.len() < 2 ==> r is Usage,
        linev@.len() >= 2 ==> {
            let w = linev@[1]@;
            let q = reg_query(w);
            if q == RegQuery::AllReg || q == RegQuery::AllSeg || q == RegQuery::All {
                r matches Reg32Listing::Rows(v) && pair_views(v@) == rows32(q, *ctx, all_reg32())
            } else if all_reg32().contains(w) {
                r matches Reg32Listing::Rows(v) && pair_views(v@) == seq![(w, value32_named(*ctx, lower_seq(w)))]
            } else {
                r matches Reg32Listing::Unknown(n) && n@ == w
            }
        },
{
    if linev.len() < 2 {
        return Reg32Listing::Usage;
    }
    let q = reg_query_exec(linev[1]);
    let names = all_reg32_exec();
    if q == RegQuery::AllReg || q == RegQuery::AllSeg || q == RegQuery::All {
        let mut out: Vec<(String, u32)> = Vec::new();
        let mut i: usize = 0;
        proof {
            assert(pair_views(out@) =~= rows32(q, *ctx, strs(names@).take(0)));
        }
        while i < names.len()
            invariant
                i <= names.len(),
                strs(names@) == all_reg32(),
                pair_views(out@) == rows32(q, *ctx, strs(names@).take(i as int)),
            decreases names.len() - i,
        {
            let n = names[i];
            proof {
                assert(strs(names@).take(i + 1).drop_last() =~= strs(names@).take(i as int));
                assert(strs(names@).take(i + 1).last() == n@);
            }
            let c = chars_of(n);
            let kept = match q {
                RegQuery::AllReg => c.len() == 3,
                RegQuery::AllSeg => c.len() == 2 && c[1] == 's',
                _ => true,
            };
            if kept {
                let p = (string_of(n), ctx.str_to_ctx(n));
                proof {
                    assert(pair_views(out@.push(p)) =~= pair_views(out@).push((n@, p.1)));
                }
                out.push(p);
            }
            i = i + 1;
        }
        proof {
            assert(strs(names@).take(names.len() as int) =~= strs(names@));
        }
        return Reg32Listing::Rows(out);
    }
    let w = linev[1];
    let mut i: usize = 0;
    while i < names.len()
        invariant
            i <= names.len(),
            strs(names@) == all_reg32(),
            linev@.len() >= 2,
            w@ == linev@[1]@,
            q == reg_query(w@),
            !(q == RegQuery::AllReg || q == RegQuery::AllSeg || q == RegQuery::All),
            forall|j: int| 0 <= j < i ==> strs(names@)[j] != w@,
        decreases names.len() - i,
    {
        if str_eq(names[i], w) {
            let p = (string_of(w), ctx.str_to_ctx(w));
            let v = vec![p];
            proof {
                assert(strs(names@)[i as int] == w@);
                assert(pair_views(v@) =~= seq![(w@, p.1)]);
            }
            return Reg32Listing::Rows(v);
        }
        i = i + 1;
    }
    Reg32Listing::Unknown(string_of(w))
}

} // verus!
