//! The lines of a disassembly listing: the instructions decoded one after
//! the other from the code read at an address, each with its address, its
//! bytes, whether a label comes before it, and its text with the addresses
//! of known symbols replaced by their names.

use vstd::prelude::*;
use vstd::wrapping::u64_specs;
use crate::disasm::{
    decoded_branch_target, decoded_len, first_it, gather_targets, insn_branch_target, insn_len,
    sym_at, walk_targets, JAddr,
};
use crate::number::{digits, fmt_radix};
use crate::symbol::{SymbolFile, Symbols};
use crate::text::{chars_of, concat, replace_all, replace_all_exec, string_from};

verus! {

/// The text iced-x86 writes for the instruction it decodes at the start of
/// `code` (`Display` of `Instruction`).
pub uninterp spec fn insn_text(bitness: u32, code: Seq<u8>, ip: u64) -> Seq<char>;

/// Whether the instruction decoded at the start of `code` is a `ret`.
pub uninterp spec fn decoded_is_ret(bitness: u32, code: Seq<u8>, ip: u64) -> bool;

/// Whether the instruction decoded at the start of `code` has a memory
/// operand relative to the instruction pointer.
pub uninterp spec fn decoded_has_ip_rel(bitness: u32, code: Seq<u8>, ip: u64) -> bool;

/// The address that such an operand designates.
pub uninterp spec fn decoded_ip_rel_addr(bitness: u32, code: Seq<u8>, ip: u64) -> u64;

/// The 64-bit immediate field of the instruction decoded at the start of
/// `code`.
pub uninterp spec fn decoded_immediate(bitness: u32, code: Seq<u8>, ip: u64) -> u64;

/// The size in bytes of the memory operand of that instruction (0 when it
/// has none).
pub uninterp spec fn decoded_mem_size(bitness: u32, code: Seq<u8>, ip: u64) -> usize;

/// The text of the instruction at `code[offset..]`, decoded at address
/// `ip`. Trusted: iced-x86's `Decoder::with_ip`, `Decoder::decode` and the
/// `Display` of `Instruction`, which depend on these arguments alone.
#[verifier::external_body]
pub(crate) fn format_insn(bitness: u32, code: &Vec<u8>, offset: usize, ip: u64) -> (r: String)
    requires
        bitness == 16 || bitness == 32 || bitness == 64,
        offset < code@.len(),
    ensures
        r@ == insn_text(bitness, code@.skip(offset as int), ip),
{
    let mut decoder = iced_x86::Decoder::with_ip(bitness, &code[offset..], ip, iced_x86::DecoderOptions::NONE);
    decoder.decode().to_string()
}

/// Whether the instruction at `code[offset..]` is a `ret`. Trusted:
/// iced-x86's decoder and `Instruction::mnemonic`.
#[verifier::external_body]
fn insn_is_ret(bitness: u32, code: &Vec<u8>, offset: usize, ip: u64) -> (r: bool)
    requires
        bitness == 16 || bitness == 32 || bitness == 64,
        offset < code@.len(),
    ensures
        r == decoded_is_ret(bitness, code@.skip(offset as int), ip),
{
    let mut decoder = iced_x86::Decoder::with_ip(bitness, &code[offset..], ip, iced_x86::DecoderOptions::NONE);
    match decoder.decode().mnemonic() {
        iced_x86::Mnemonic::Ret => true,
        _ => false,
    }
}

/// Whether the instruction at `code[offset..]` addresses memory relative to
/// the instruction pointer. Trusted: iced-x86's decoder and
/// `Instruction::is_ip_rel_memory_operand`.
#[verifier::external_body]
fn insn_has_ip_rel(bitness: u32, code: &Vec<u8>, offset: usize, ip: u64) -> (r: bool)
    requires
        bitness == 16 || bitness == 32 || bitness == 64,
        offset < code@.len(),
    ensures
        r == decoded_has_ip_rel(bitness, code@.skip(offset as int), ip),
{
    let mut decoder = iced_x86::Decoder::with_ip(bitness, &code[offset..], ip, iced_x86::DecoderOptions::NONE);
    decoder.decode().is_ip_rel_memory_operand()
}

/// The address of the instruction-pointer-relative operand of the
/// instruction at `code[offset..]`. Trusted: iced-x86's decoder and
/// `Instruction::ip_rel_memory_address`.
#[verifier::external_body]
fn insn_ip_rel_addr(bitness: u32, code: &Vec<u8>, offset: usize, ip: u64) -> (r: u64)
    requires
        bitness == 16 || bitness == 32 || bitness == 64,
        offset < code@.len(),
    ensures
        r == decoded_ip_rel_addr(bitness, code@.skip(offset as int), ip),
{
    let mut decoder = iced_x86::Decoder::with_ip(bitness, &code[offset..], ip, iced_x86::DecoderOptions::NONE);
    decoder.decode().ip_rel_memory_address()
}

/// The 64-bit immediate of the instruction at `code[offset..]`. Trusted:
/// iced-x86's decoder and `Instruction::immediate64`.
#[verifier::external_body]
fn insn_immediate(bitness: u32, code: &Vec<u8>, offset: usize, ip: u64) -> (r: u64)
    requires
        bitness == 16 || bitness == 32 || bitness == 64,
        offset < code@.len(),
    ensures
        r == decoded_immediate(bitness, code@.skip(offset as int), ip),
{
    let mut decoder = iced_x86::Decoder::with_ip(bitness, &code[offset..], ip, iced_x86::DecoderOptions::NONE);
    decoder.decode().immediate64()
}

/// The size of the memory operand of the instruction at `code[offset..]`.
/// Trusted: iced-x86's decoder, `Instruction::memory_size` and
/// `MemorySize::size`.
#[verifier::external_body]
fn insn_mem_size(bitness: u32, code: &Vec<u8>, offset: usize, ip: u64) -> (r: usize)
    requires
        bitness == 16 || bitness == 32 || bitness == 64,
        offset < code@.len(),
    ensures
        r == decoded_mem_size(bitness, code@.skip(offset as int), ip),
{
    let mut decoder = iced_x86::Decoder::with_ip(bitness, &code[offset..], ip, iced_x86::DecoderOptions::NONE);
    decoder.decode().memory_size().size()
}

/// A hexadecimal digit in upper case.
pub open spec fn upper_digit(c: char) -> char {
    if 'a' <= c <= 'f' {
        ((c as u32) - 32) as char
    } else {
        c
    }
}

/// `v` as `format!("{:X}", v)` writes it.
pub open spec fn upper_hex(v: u64) -> Seq<char> {
    digits(v as nat, 16).map_values(|c: char| upper_digit(c))
}

/// `v` as `format!("{:016X}", v)` writes it: zeros in front up to sixteen
/// digits.
pub open spec fn upper_hex16(v: u64) -> Seq<char> {
    let h = upper_hex(v);
    if h.len() < 16 {
        Seq::new((16 - h.len()) as nat, |i: int| '0') + h
    } else {
        h
    }
}

fn upper_digit_exec(c: char) -> (r: char)
    ensures
        r == upper_digit(c),
{
    if 'a' <= c && c <= 'f' {
        let b = (c as u8) - 32;
        proof {
            assert(b == (c as u32) - 32);
        }
        b as char
    } else {
        c
    }
}

fn upper_hex_exec(v: u64) -> (r: Vec<char>)
    ensures
        r@ == upper_hex(v),
{
    let d = fmt_radix(v, 16);
    let mut out: Vec<char> = Vec::new();
    let mut i: usize = 0;
    while i < d.len()
        invariant
            i <= d.len(),
            out@ == d@.take(i as int).map_values(|c: char| upper_digit(c)),
        decreases d.len() - i,
    {
        out.push(upper_digit_exec(d[i]));
        proof {
            assert(d@.take(i + 1).map_values(|c: char| upper_digit(c)) =~= d@.take(i as int).map_values(
                |c: char| upper_digit(c),
            ).push(upper_digit(d@[i as int])));
        }
        i = i + 1;
    }
    proof {
        assert(d@.take(d.len() as int) =~= d@);
    }
    out
}

fn upper_hex16_exec(v: u64) -> (r: Vec<char>)
    ensures
        r@ == upper_hex16(v),
{
    let h = upper_hex_exec(v);
    if h.len() < 16 {
        let mut out: Vec<char> = Vec::new();
        let n = 16 - h.len();
        let mut i: usize = 0;
        while i < n
            invariant
                i <= n,
                out@ == Seq::new(i as nat, |k: int| '0'),
            decreases n - i,
        {
            out.push('0');
            proof {
                assert(Seq::new((i + 1) as nat, |k: int| '0') =~= Seq::new(i as nat, |k: int| '0').push(
                    '0',
                ));
            }
            i = i + 1;
        }
        concat(&out, &h)
    } else {
        h
    }
}

/// The name of the first symbol of `syms` at `t` (see `sym_at`).
pub open spec fn name_at(syms: Seq<SymbolFile>, t: u64, base: u64) -> Option<Seq<char>> {
    let i = crate::commands::first_index_by(syms, |s: SymbolFile| sym_at(s, t, base));
    if i < syms.len() {
        Some(syms[i].name@)
    } else {
        None
    }
}

fn name_at_exec(syms: &Symbols, t: u64, base: u64) -> (r: Option<Vec<char>>)
    ensures
        match r {
            Some(n) => name_at(syms.symbol_file@, t, base) == Some(n@),
            None => name_at(syms.symbol_file@, t, base) is None,
        },
{
    let ghost p = |s: SymbolFile| sym_at(s, t, base);
    let mut i: usize = 0;
    while i < syms.symbol_file.len()
        invariant
            i <= syms.symbol_file.len(),
            p == (|s: SymbolFile| sym_at(s, t, base)),
            forall|j: int| 0 <= j < i ==> !p(#[trigger] syms.symbol_file@[j]),
        decreases syms.symbol_file.len() - i,
    {
        if crate::disasm::finder(&syms.symbol_file[i], t, base) {
            proof {
                crate::commands::lemma_first_index_by(syms.symbol_file@, p, i as int);
            }
            return Some(chars_of(syms.symbol_file[i].name.as_str()));
        }
        i = i + 1;
    }
    proof {
        crate::commands::lemma_first_index_by(syms.symbol_file@, p, i as int);
    }
    None
}

/// The text shown for the instruction decoded at the start of `code`: the
/// decoder's text where the branch target (written `{:016X}h`) becomes the
/// name of the symbol there or `label_` and the target in hexadecimal, and
/// the instruction-pointer-relative address and the immediate (written
/// `{:X}h`) become the name of the symbol there, when there is one.
pub open spec fn line_text(bitness: u32, code: Seq<u8>, ip: u64, syms: Seq<SymbolFile>, base: u64) -> Seq<char> {
    let t0 = insn_text(bitness, code, ip);
    let target = decoded_branch_target(bitness, code, ip);
    let t1 = if target != 0 {
        replace_all(
            t0,
            upper_hex16(target).push('h'),
            match name_at(syms, target, base) {
                Some(n) => n,
                None => "label_"@ + digits(target as nat, 16),
            },
        )
    } else {
        t0
    };
    let m = decoded_ip_rel_addr(bitness, code, ip);
    let t2 = if decoded_has_ip_rel(bitness, code, ip) {
        match name_at(syms, m, base) {
            Some(n) => replace_all(t1, upper_hex(m).push('h'), n),
            None => t1,
        }
    } else {
        t1
    };
    let imm = decoded_immediate(bitness, code, ip);
    if imm != 0 {
        match name_at(syms, imm, base) {
            Some(n) => replace_all(t2, upper_hex(imm).push('h'), n),
            None => t2,
        }
    } else {
        t2
    }
}

/// One line of a listing.
#[derive(Debug)]
pub struct ListingLine {
    /// The address of the instruction.
    pub addr: u64,
    /// Where its bytes start in the code read.
    pub offset: usize,
    /// How many bytes it takes.
    pub len: usize,
    /// Whether a label comes before it.
    pub label: bool,
    /// Its text (see `line_text`).
    pub text: String,
    /// The address of its instruction-pointer-relative memory operand.
    pub ip_rel: Option<u64>,
    /// The size of its memory operand (0 when it has none).
    pub mem_size: usize,
}

/// The content of a `ListingLine`.
pub struct LineV {
    pub addr: u64,
    pub offset: usize,
    pub len: usize,
    pub label: bool,
    pub text: Seq<char>,
    pub ip_rel: Option<u64>,
    pub mem_size: usize,
}

pub open spec fn line_views(s: Seq<ListingLine>) -> Seq<LineV> {
    s.map_values(
        |l: ListingLine|
            LineV {
                addr: l.addr,
                offset: l.offset,
                len: l.len,
                label: l.label,
                text: l.text@,
                ip_rel: l.ip_rel,
                mem_size: l.mem_size,
            },
    )
}

/// Whether one of the gathered branch targets is `ip`.
pub open spec fn has_label(labels: Seq<JAddr>, ip: u64) -> bool {
    exists|k: int| 0 <= k < labels.len() && labels[k].addr == ip
}

/// The line of the instruction at `offset`.
pub open spec fn line_at(
    bitness: u32,
    code: Seq<u8>,
    addr: u64,
    syms: Seq<SymbolFile>,
    base: u64,
    labels: Seq<JAddr>,
    offset: int,
    after_ret: bool,
) -> LineV {
    let c = code.skip(offset);
    let ip = u64_specs::wrapping_add(addr, offset as u64);
    LineV {
        addr: ip,
        offset: offset as usize,
        len: decoded_len(bitness, c, ip),
        label: after_ret || has_label(labels, ip),
        text: line_text(bitness, c, ip, syms, base),
        ip_rel: if decoded_has_ip_rel(bitness, c, ip) {
            Some(decoded_ip_rel_addr(bitness, c, ip))
        } else {
            None
        },
        mem_size: decoded_mem_size(bitness, c, ip),
    }
}

/// The lines of at most `count` instructions decoded one after the other
/// from `offset` (each at the address `addr` plus its offset); a label comes
/// before an instruction after a `ret` and before one at a branch target of
/// `labels`.
pub open spec fn listing_from(
    bitness: u32,
    code: Seq<u8>,
    addr: u64,
    count: nat,
    syms: Seq<SymbolFile>,
    base: u64,
    labels: Seq<JAddr>,
    offset: int,
    after_ret: bool,
) -> Seq<LineV>
    decreases count, code.len() - offset,
{
    if offset < 0 || offset >= code.len() || count == 0 {
        Seq::empty()
    } else {
        let c = code.skip(offset);
        let ip = u64_specs::wrapping_add(addr, offset as u64);
        let line = line_at(bitness, code, addr, syms, base, labels, offset, after_ret);
        let l = decoded_len(bitness, c, ip);
        if l == 0 {
            seq![line]
        } else {
            seq![line] + listing_from(
                bitness,
                code,
                addr,
                (count - 1) as nat,
                syms,
                base,
                labels,
                offset + l,
                decoded_is_ret(bitness, c, ip),
            )
        }
    }
}

/// The listing of `disasm`: at most `count` instructions of `code` read at
/// `addr`, labels at the branch targets that `first_it` gathers.
pub open spec fn listing(
    bitness: u32,
    code: Seq<u8>,
    addr: u64,
    count: nat,
    syms: Seq<SymbolFile>,
    base: u64,
) -> Seq<LineV> {
    listing_from(
        bitness,
        code,
        addr,
        count,
        syms,
        base,
        gather_targets(walk_targets(bitness, code, addr, 0, count)),
        0,
        false,
    )
}

proof fn lemma_listing_step(
    bitness: u32,
    code: Seq<u8>,
    addr: u64,
    count: nat,
    syms: Seq<SymbolFile>,
    base: u64,
    labels: Seq<JAddr>,
    offset: int,
    after_ret: bool,
    acc: Seq<LineV>,
)
    requires
        0 <= offset < code.len(),
        count > 0,
    ensures
        ({
            let c = code.skip(offset);
            let ip = u64_specs::wrapping_add(addr, offset as u64);
            let l = decoded_len(bitness, c, ip);
            let line = line_at(bitness, code, addr, syms, base, labels, offset, after_ret);
            l > 0 ==> acc + listing_from(bitness, code, addr, count, syms, base, labels, offset, after_ret)
                == acc.push(line) + listing_from(
                bitness,
                code,
                addr,
                (count - 1) as nat,
                syms,
                base,
                labels,
                offset + l,
                decoded_is_ret(bitness, c, ip),
            )
        }),
{
    let c = code.skip(offset);
    let ip = u64_specs::wrapping_add(addr, offset as u64);
    let l = decoded_len(bitness, c, ip);
    let line = line_at(bitness, code, addr, syms, base, labels, offset, after_ret);
    if l > 0 {
        let rest = listing_from(bitness, code, addr, (count - 1) as nat, syms, base, labels, offset + l, decoded_is_ret(bitness, c, ip));
        assert(acc + (seq![line] + rest) =~= acc.push(line) + rest);
    }
}

fn has_label_exec(labels: &Vec<JAddr>, ip: u64) -> (r: bool)
    ensures
        r == has_label(labels@, ip),
{
    let mut i: usize = 0;
    while i < labels.len()
        invariant
            i <= labels.len(),
            forall|k: int| 0 <= k < i ==> labels@[k].addr != ip,
        decreases labels.len() - i,
    {
        if labels[i].addr == ip {
            return true;
        }
        i = i + 1;
    }
    false
}

/// The text of the instruction at `code[offset..]` (see `line_text`).
fn line_text_exec(bitness: u32, code: &Vec<u8>, offset: usize, ip: u64, syms: &Symbols, base: u64) -> (r: Vec<
    char,
>)
    requires
        bitness == 16 || bitness == 32 || bitness == 64,
        offset < code@.len(),
    ensures
        r@ == line_text(bitness, code@.skip(offset as int), ip, syms.symbol_file@, base),
{
    let s0 = format_insn(bitness, code, offset, ip);
    let t0 = chars_of(s0.as_str());
    let target = insn_branch_target(bitness, code, offset, ip);
    let t1 = if target != 0 {
        let mut p = upper_hex16_exec(target);
        p.push('h');
        let named = name_at_exec(syms, target, base);
        let rep = match named {
            Some(n) => n,
            None => {
                let l = chars_of("label_");
                concat(&l, &fmt_radix(target, 16))
            },
        };
        replace_all_exec(&t0, &p, &rep)
    } else {
        t0
    };
    let has = insn_has_ip_rel(bitness, code, offset, ip);
    let m = insn_ip_rel_addr(bitness, code, offset, ip);
    let t2 = if has {
        match name_at_exec(syms, m, base) {
            Some(n) => {
                let mut p = upper_hex_exec(m);
                p.push('h');
                replace_all_exec(&t1, &p, &n)
            },
            None => t1,
        }
    } else {
        t1
    };
    let imm = insn_immediate(bitness, code, offset, ip);
    if imm != 0 {
        match name_at_exec(syms, imm, base) {
            Some(n) => {
                let mut p = upper_hex_exec(imm);
                p.push('h');
                replace_all_exec(&t2, &p, &n)
            },
            None => t2,
        }
    } else {
        t2
    }
}

/// `disasm`: the listing of at most `count` instructions of `code`, the
/// bytes read at `addr` (see `listing`).
pub fn disasm_listing(bitness: u32, code: &Vec<u8>, addr: u64, count: usize, syms: &Symbols, base: u64) -> (r: Vec<
    ListingLine,
>)
    requires
        bitness == 16 || bitness == 32 || bitness == 64,
    ensures
        line_views(r@) == listing(bitness, code@, addr, count as nat, syms.symbol_file@, base),
        r@.len() <= count,
{
    let labels = first_it(bitness, code, addr, count);
    let ghost lab = labels@;
    let mut out: Vec<ListingLine> = Vec::new();
    let mut offset: usize = 0;
    let mut i: usize = 0;
    let mut after_ret = false;
    let ghost whole = listing_from(bitness, code@, addr, count as nat, syms.symbol_file@, base, lab, 0, false);
    proof {
        assert(line_views(out@) + whole =~= whole);
    }
    while offset < code.len() && i < count
        invariant
            bitness == 16 || bitness == 32 || bitness == 64,
            offset <= code.len(),
            i <= count,
            out@.len() == i,
            lab == labels@,
            whole == listing_from(bitness, code@, addr, count as nat, syms.symbol_file@, base, lab, 0, false),
            line_views(out@) + listing_from(
                bitness,
                code@,
                addr,
                (count - i) as nat,
                syms.symbol_file@,
                base,
                lab,
                offset as int,
                after_ret,
            ) == whole,
        decreases count - i,
    {
        let here = addr.wrapping_add(offset as u64);
        let l = insn_len(bitness, code, offset, here);
        let text = line_text_exec(bitness, code, offset, here, syms, base);
        let label = after_ret || has_label_exec(&labels, here);
        let ip_rel = if insn_has_ip_rel(bitness, code, offset, here) {
            Some(insn_ip_rel_addr(bitness, code, offset, here))
        } else {
            None
        };
        let mem_size = insn_mem_size(bitness, code, offset, here);
        let is_ret = insn_is_ret(bitness, code, offset, here);
        let line = ListingLine {
            addr: here,
            offset,
            len: l,
            label,
            text: string_from(&text),
            ip_rel,
            mem_size,
        };
        proof {
            lemma_listing_step(
                bitness,
                code@,
                addr,
                (count - i) as nat,
                syms.symbol_file@,
                base,
                lab,
                offset as int,
                after_ret,
                line_views(out@),
            );
            assert(line_views(out@.push(line)) =~= line_views(out@).push(
                line_at(bitness, code@, addr, syms.symbol_file@, base, lab, offset as int, after_ret),
            ));
        }
        out.push(line);
        after_ret = is_ret;
        offset = offset + l;
        i = i + 1;
    }
    proof {
        assert(listing_from(
            bitness,
            code@,
            addr,
            (count - i) as nat,
            syms.symbol_file@,
            base,
            lab,
            offset as int,
            after_ret,
        ) =~= Seq::<LineV>::empty());
        assert(line_views(out@) + Seq::<LineV>::empty() =~= line_views(out@));
    }
    out
}

} // verus!
