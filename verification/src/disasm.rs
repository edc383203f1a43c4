//! Walking machine code: instruction lengths and branch targets come from
//! the iced-x86 decoder; this module decides what follows from them (where
//! the next instruction starts, which addresses get labels, how much code to
//! read).

use vstd::prelude::*;
use vstd::wrapping::u64_specs;
use crate::cli::{All, AllView, AfterB};
use crate::number::{str_to_spec, str_to_usize, IntKind, ParseError};
use crate::pe::FuncEntry;
use crate::symbol::SymbolFile;

verus! {

/// The length in bytes of the instruction that iced-x86 decodes at the
/// start of `code` for a processor in `bitness`-bit mode, at address `ip`.
pub uninterp spec fn decoded_len(bitness: u32, code: Seq<u8>, ip: u64) -> usize;

/// The target of the near branch that iced-x86 decodes at the start of
/// `code` (0 when the instruction is no near branch).
pub uninterp spec fn decoded_branch_target(bitness: u32, code: Seq<u8>, ip: u64) -> u64;

/// The length of the instruction at `code[offset..]`, decoded at address
/// `ip`. Trusted: iced-x86's `Decoder::with_ip` (which panics unless the
/// bitness is 16, 32 or 64), `Decoder::decode` and `Instruction::len`. The
/// source shows that a decoded instruction takes at least one byte when one
/// is left, at most 15, and never more than are left.
#[verifier::external_body]
pub(crate) fn insn_len(bitness: u32, code: &Vec<u8>, offset: usize, ip: u64) -> (r: usize)
    requires
        bitness == 16 || bitness == 32 || bitness == 64,
        offset <= code@.len(),
    ensures
        r == decoded_len(bitness, code@.skip(offset as int), ip),
        offset < code@.len() ==> 1 <= r <= 15 && offset + r <= code@.len(),
{
    let mut decoder = iced_x86::Decoder::with_ip(bitness, &code[offset..], ip, iced_x86::DecoderOptions::NONE);
    decoder.decode().len()
}

/// The near-branch target of the instruction at `code[offset..]`, decoded
/// at address `ip` (0 for an instruction that is no near branch). Trusted:
/// iced-x86's `Decoder::with_ip`, `Decoder::decode` and
/// `Instruction::near_branch_target`; nothing is claimed of the value
/// beyond its name.
#[verifier::external_body]
pub(crate) fn insn_branch_target(bitness: u32, code: &Vec<u8>, offset: usize, ip: u64) -> (r: u64)
    requires
        bitness == 16 || bitness == 32 || bitness == 64,
        offset <= code@.len(),
    ensures
        r == decoded_branch_target(bitness, code@.skip(offset as int), ip),
{
    let mut decoder = iced_x86::Decoder::with_ip(bitness, &code[offset..], ip, iced_x86::DecoderOptions::NONE);
    decoder.decode().near_branch_target()
}

/// Where the instruction after the breakpoint at `b_addr` starts, given the
/// code read there (wrapping past the end of the address space).
pub fn next_insn_addr(bitness: u32, code: &Vec<u8>, b_addr: u64) -> (r: u64)
    requires
        bitness == 16 || bitness == 32 || bitness == 64,
    ensures
        r == u64_specs::wrapping_add(b_addr, decoded_len(bitness, code@.skip(0), b_addr) as u64),
{
    let l = insn_len(bitness, code, 0, b_addr);
    b_addr.wrapping_add(l as u64)
}

impl All {
    /// Records the breakpoint placed after the one at `b_addr` (at `next`,
    /// over the byte `last_oc`), which re-arms the first once passed.
    pub fn add_after_b(&mut self, b_addr: u64, next: u64, last_oc: u8)
        ensures
            final(self)@ == (AllView {
                after_b: old(self)@.after_b.push(AfterB { last_addr_b: b_addr, after_b: next, last_oc }),
                ..old(self)@
            }),
    {
        self.after_b.push(AfterB { last_addr_b: b_addr, after_b: next, last_oc });
    }
}

/// A branch target in listed code, and how many branches beyond the first
/// lead there.
#[derive(Debug, Clone, Copy, PartialEq, Eq, Structural)]
pub struct JAddr {
    pub addr: u64,
    pub num_target: usize,
}

/// The branch targets `ts` gathered in order of first appearance, each with
/// the number of later branches to it; a target of 0 is no branch.
pub open spec fn gather_targets(ts: Seq<u64>) -> Seq<JAddr>
    decreases ts.len(),
{
    if ts.len() == 0 {
        Seq::empty()
    } else {
        let g = gather_targets(ts.drop_last());
        let t = ts.last();
        if t == 0 {
            g
        } else {
            let i = crate::commands::first_index_by(g, jaddr_at(t));
            if i < g.len() {
                g.update(i, JAddr { addr: t, num_target: (g[i].num_target + 1) as usize })
            } else {
                g.push(JAddr { addr: t, num_target: 0 })
            }
        }
    }
}

/// The branch targets of the instructions decoded one after the other from
/// `offset`, at most `count` of them.
pub open spec fn walk_targets(bitness: u32, code: Seq<u8>, ip: u64, offset: int, count: nat) -> Seq<u64>
    decreases count, code.len() - offset,
{
    if offset >= code.len() || count == 0 {
        Seq::empty()
    } else {
        let l = decoded_len(bitness, code.skip(offset), u64_specs::wrapping_add(ip, offset as u64));
        if l == 0 {
            seq![decoded_branch_target(bitness, code.skip(offset), u64_specs::wrapping_add(ip, offset as u64))]
        } else {
            seq![decoded_branch_target(bitness, code.skip(offset), u64_specs::wrapping_add(ip, offset as u64))]
                + walk_targets(bitness, code, ip, offset + l, (count - 1) as nat)
        }
    }
}

proof fn lemma_walk_step(bitness: u32, code: Seq<u8>, ip: u64, offset: int, count: nat, acc: Seq<u64>)
    requires
        0 <= offset < code.len(),
        count > 0,
    ensures
        ({
            let l = decoded_len(bitness, code.skip(offset), u64_specs::wrapping_add(ip, offset as u64));
            let t = decoded_branch_target(bitness, code.skip(offset), u64_specs::wrapping_add(ip, offset as u64));
            l > 0 ==> acc + walk_targets(bitness, code, ip, offset, count) == acc.push(t)
                + walk_targets(bitness, code, ip, offset + l, (count - 1) as nat)
        }),
{
    let l = decoded_len(bitness, code.skip(offset), u64_specs::wrapping_add(ip, offset as u64));
    let t = decoded_branch_target(bitness, code.skip(offset), u64_specs::wrapping_add(ip, offset as u64));
    if l > 0 {
        assert(acc + (seq![t] + walk_targets(bitness, code, ip, offset + l, (count - 1) as nat))
            =~= acc.push(t) + walk_targets(bitness, code, ip, offset + l, (count - 1) as nat));
    }
}

/// The gathered targets at `t`.
pub open spec fn jaddr_at(t: u64) -> spec_fn(JAddr) -> bool {
    |j: JAddr| j.addr == t
}

/// Adds branch target `t` to the gathered targets (see `gather_targets`).
fn gather_one(g: &mut Vec<JAddr>, t: u64)
    requires
        forall|k: int| 0 <= k < old(g)@.len() ==> old(g)@[k].num_target < usize::MAX,
    ensures
        t == 0 ==> final(g)@ == old(g)@,
        t != 0 ==> ({
            let i = crate::commands::first_index_by(old(g)@, jaddr_at(t));
            if i < old(g)@.len() {
                final(g)@ == old(g)@.update(
                    i,
                    JAddr { addr: t, num_target: (old(g)@[i].num_target + 1) as usize },
                )
            } else {
                final(g)@ == old(g)@.push(JAddr { addr: t, num_target: 0 })
            }
        }),
{
    if t == 0 {
        return;
    }
    let ghost p = jaddr_at(t);
    let mut i: usize = 0;
    while i < g.len()
        invariant
            i <= g.len(),
            g@ == old(g)@,
            t != 0,
            forall|k: int| 0 <= k < old(g)@.len() ==> old(g)@[k].num_target < usize::MAX,
            p == jaddr_at(t),
            forall|j: int| 0 <= j < i ==> !p(#[trigger] g@[j]),
        decreases g.len() - i,
    {
        if g[i].addr == t {
            proof {
                crate::commands::lemma_first_index_by(g@, p, i as int);
            }
            let n = g[i].num_target + 1;
            g.set(i, JAddr { addr: t, num_target: n });
            return;
        }
        i = i + 1;
    }
    proof {
        crate::commands::lemma_first_index_by(g@, p, i as int);
    }
    g.push(JAddr { addr: t, num_target: 0 });
}


proof fn lemma_gather_push(ts: Seq<u64>, t: u64)
    ensures
        gather_targets(ts.push(t)) == ({
            let g = gather_targets(ts);
            if t == 0 {
                g
            } else {
                let i = crate::commands::first_index_by(g, jaddr_at(t));
                if i < g.len() {
                    g.update(i, JAddr { addr: t, num_target: (g[i].num_target + 1) as usize })
                } else {
                    g.push(JAddr { addr: t, num_target: 0 })
                }
            }
        }),
{
    assert(ts.push(t).drop_last() =~= ts);
}

pub(crate) proof fn lemma_first_index_bound<T>(s: Seq<T>, p: spec_fn(T) -> bool)
    ensures
        0 <= crate::commands::first_index_by(s, p) <= s.len(),
    decreases s.len(),
{
    if s.len() > 0 && !p(s[0]) {
        lemma_first_index_bound(s.drop_first(), p);
    }
}

/// The branch targets of at most `count` instructions decoded one after the
/// other from the start of `code` (at address `ip`), gathered as
/// `gather_targets` does: the addresses that get a label in a listing.
pub fn first_it(bitness: u32, code: &Vec<u8>, ip: u64, count: usize) -> (r: Vec<JAddr>)
    requires
        bitness == 16 || bitness == 32 || bitness == 64,
    ensures
        r@ == gather_targets(walk_targets(bitness, code@, ip, 0, count as nat)),
{
    let mut result: Vec<JAddr> = Vec::new();
    let mut offset: usize = 0;
    let mut i: usize = 0;
    let ghost mut acc: Seq<u64> = Seq::empty();
    proof {
        assert(acc + walk_targets(bitness, code@, ip, 0, count as nat) =~= walk_targets(
            bitness,
            code@,
            ip,
            0,
            count as nat,
        ));
    }
    while offset < code.len() && i < count
        invariant
            bitness == 16 || bitness == 32 || bitness == 64,
            offset <= code.len(),
            i <= count,
            i <= offset,
            acc.len() == i,
            acc + walk_targets(bitness, code@, ip, offset as int, (count - i) as nat) == walk_targets(
                bitness,
                code@,
                ip,
                0,
                count as nat,
            ),
            result@ == gather_targets(acc),
            forall|k: int| 0 <= k < result@.len() ==> result@[k].num_target < i || i == 0,
        decreases count - i,
    {
        let here = ip.wrapping_add(offset as u64);
        let t = insn_branch_target(bitness, code, offset, here);
        let l = insn_len(bitness, code, offset, here);
        proof {
            lemma_walk_step(bitness, code@, ip, offset as int, (count - i) as nat, acc);
            lemma_gather_push(acc, t);
            lemma_first_index_bound(result@, jaddr_at(t));
        }
        gather_one(&mut result, t);
        proof {
            acc = acc.push(t);
        }
        offset = offset + l;
        i = i + 1;
    }
    proof {
        assert(walk_targets(bitness, code@, ip, offset as int, (count - i) as nat) =~= Seq::<u64>::empty());
        assert(acc + Seq::<u64>::empty() =~= acc);
    }
    result
}

/// How many bytes to list from `addr`: up to the end of the function of
/// `funcs` that contains it (relative addresses moved by `base`), 2093 when
/// none does; `None` when the image has no function table, and the size of
/// the memory region must be asked of the system.
pub open spec fn listing_size(funcs: Seq<FuncEntry>, addr: u64, base: u64) -> Option<usize> {
    if funcs.len() == 0 {
        None
    } else {
        let i = crate::commands::first_index_by(funcs, func_holds(addr, base));
        if i < funcs.len() {
            Some((u64_specs::wrapping_sub(u64_specs::wrapping_add(funcs[i].end_address as u64, base), addr)) as usize)
        } else {
            Some(2093)
        }
    }
}

/// The functions whose (moved) range holds `addr`.
pub open spec fn func_holds(addr: u64, base: u64) -> spec_fn(FuncEntry) -> bool {
    |f: FuncEntry|
        u64_specs::wrapping_add(f.begin_address as u64, base) <= addr && addr < u64_specs::wrapping_add(
            f.end_address as u64,
            base,
        )
}

/// See `listing_size`.
pub fn disasm_size(funcs: &Vec<FuncEntry>, addr: u64, base: u64) -> (r: Option<usize>)
    ensures
        r == listing_size(funcs@, addr, base),
{
    if funcs.len() == 0 {
        return None;
    }
    let ghost p = func_holds(addr, base);
    let mut i: usize = 0;
    while i < funcs.len()
        invariant
            i <= funcs.len(),
            p == func_holds(addr, base),
            forall|j: int| 0 <= j < i ==> !p(#[trigger] funcs@[j]),
        decreases funcs.len() - i,
    {
        let f = funcs[i];
        if (f.begin_address as u64).wrapping_add(base) <= addr && addr < (f.end_address as u64).wrapping_add(base) {
            proof {
                crate::commands::lemma_first_index_by(funcs@, p, i as int);
            }
            let end = (f.end_address as u64).wrapping_add(base);
            return Some(end.wrapping_sub(addr) as usize);
        }
        i = i + 1;
    }
    proof {
        crate::commands::lemma_first_index_by(funcs@, p, i as int);
    }
    Some(2093)
}

/// How many instructions to list: the optional count word, every one when
/// it is absent.
pub fn disasm_count(count_str: Option<&str>) -> (r: Result<usize, ParseError>)
    ensures
        match count_str {
            None => r == Ok::<usize, ParseError>(usize::MAX),
            Some(c) => crate::number::agrees(r, str_to_spec(c@, IntKind::Usize), |v: usize| v as int),
        },
{
    match count_str {
        None => Ok(usize::MAX),
        Some(c) => str_to_usize(c),
    }
}

/// Whether `sym` lies at the run-time address `target`: a symbol with a
/// non-negative offset, moved by `base`.
pub open spec fn sym_at(sym: SymbolFile, target: u64, base: u64) -> bool {
    sym.offset >= 0 && u64_specs::wrapping_add(sym.offset as u64, base) == target
}

/// See `sym_at`.
pub fn finder(sym: &SymbolFile, target: u64, base: u64) -> (r: bool)
    ensures
        r == sym_at(*sym, target, base),
{
    if sym.offset < 0 {
        false
    } else {
        (sym.offset as u64).wrapping_add(base) == target
    }
}

} // verus!
