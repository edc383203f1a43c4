//! Building the symbol table from debug information: the operations of a
//! DWARF location expression as gimli decodes them one by one, what the
//! symbol table reads of each, how the attributes of an entry fill a symbol,
//! and how a PDB record becomes a symbol. Walking the units and entries of
//! the DWARF sections is left to the caller, which hands over each entry's
//! encoding and attributes as plain values.

use vstd::prelude::*;
use gimli::{Encoding, EndianSlice, Format, LittleEndian, Operation, RunTimeEndian};
use self::DwarfFormat::{Dwarf32, Dwarf64};
use self::RawOp::{
    Address, Deref, EntryValue, ImplicitPointer, ImplicitValue, Other, PlusConstant, SignedConstant, UnsignedConstant,
};
use vstd::wrapping::u64_specs;
use crate::number::{digits, fmt_dec, fmt_radix, fmt_signed, hex2, signed_digits, zero_x};
use crate::pe::{lossy_string, lossy_text};
use crate::symbol::{SymbolFile, SymbolType};
use crate::text::{concat, string_from};

verus! {

/// A decoded operation of a DWARF location expression, with what the symbol
/// table reads of it.
#[derive(Debug)]
pub enum DwarfOp {
    /// A dereference; `sized` when the opcode itself gives the size.
    Deref { size: u8, sized: bool },
    PlusConstant(u64),
    /// A signed constant; `literal` when the opcode is one of the
    /// `DW_OP_const*s` forms.
    SignedConstant { value: i64, literal: bool },
    /// An unsigned constant; `literal` when the opcode is one of the
    /// `DW_OP_const*u` forms.
    UnsignedConstant { value: u64, literal: bool },
    ImplicitValue(Vec<u8>),
    ImplicitPointer(u64),
    Address(u64),
    /// Any other operation: it leaves the symbol as it is.
    Other,
}

/// The content of a `DwarfOp`.
pub enum DwarfOpV {
    Deref { size: u8, sized: bool },
    PlusConstant(u64),
    SignedConstant { value: i64, literal: bool },
    UnsignedConstant { value: u64, literal: bool },
    ImplicitValue(Seq<u8>),
    ImplicitPointer(u64),
    Address(u64),
    Other,
}

impl View for DwarfOp {
    type V = DwarfOpV;

    open spec fn view(&self) -> DwarfOpV {
        match self {
            DwarfOp::Deref { size, sized } => DwarfOpV::Deref { size: *size, sized: *sized },
            DwarfOp::PlusConstant(v) => DwarfOpV::PlusConstant(*v),
            DwarfOp::SignedConstant { value, literal } => DwarfOpV::SignedConstant {
                value: *value,
                literal: *literal,
            },
            DwarfOp::UnsignedConstant { value, literal } => DwarfOpV::UnsignedConstant {
                value: *value,
                literal: *literal,
            },
            DwarfOp::ImplicitValue(d) => DwarfOpV::ImplicitValue(d@),
            DwarfOp::ImplicitPointer(v) => DwarfOpV::ImplicitPointer(*v),
            DwarfOp::Address(a) => DwarfOpV::Address(*a),
            DwarfOp::Other => DwarfOpV::Other,
        }
    }
}

/// A decoded attribute of a DWARF entry.
#[derive(Debug)]
pub enum DwarfAttr {
    /// A location expression: its bytes, whether the raw attribute is an
    /// expression too (not only once resolved), and its operations in order
    /// (those of an entry value inlined where it stands).
    Exprloc { bytes: Vec<u8>, raw: bool, ops: Vec<DwarfOp> },
    /// An address.
    Addr(u64),
    /// A name, as bytes (inline or from the string section).
    Name(Vec<u8>),
    /// Any other attribute: it leaves the symbol as it is.
    Other,
}

/// The content of a `DwarfAttr`.
pub enum DwarfAttrV {
    Exprloc { bytes: Seq<u8>, raw: bool, ops: Seq<DwarfOpV> },
    Addr(u64),
    Name(Seq<u8>),
    Other,
}

pub open spec fn op_views(v: Seq<DwarfOp>) -> Seq<DwarfOpV> {
    v.map_values(|o: DwarfOp| o@)
}

impl View for DwarfAttr {
    type V = DwarfAttrV;

    open spec fn view(&self) -> DwarfAttrV {
        match self {
            DwarfAttr::Exprloc { bytes, raw, ops } => DwarfAttrV::Exprloc {
                bytes: bytes@,
                raw: *raw,
                ops: op_views(ops@),
            },
            DwarfAttr::Addr(a) => DwarfAttrV::Addr(*a),
            DwarfAttr::Name(n) => DwarfAttrV::Name(n@),
            DwarfAttr::Other => DwarfAttrV::Other,
        }
    }
}

pub open spec fn attr_views(v: Seq<DwarfAttr>) -> Seq<DwarfAttrV> {
    v.map_values(|a: DwarfAttr| a@)
}

/// What DWARF information sets of a symbol.
pub struct SymState {
    pub name: Seq<char>,
    pub offset: i64,
    pub size: usize,
    pub value_str: Seq<char>,
}

pub open spec fn sym_state(s: SymbolFile) -> SymState {
    SymState { name: s.name@, offset: s.offset, size: s.size, value_str: s.value_str@ }
}

/// The hexadecimal digits of the bytes, separated by `, ` (as a byte slice
/// is shown by `{:x?}`, without the brackets).
pub open spec fn hex_items(b: Seq<u8>) -> Seq<char>
    decreases b.len(),
{
    if b.len() == 0 {
        Seq::empty()
    } else if b.len() == 1 {
        digits(b[0] as nat, 16)
    } else {
        hex_items(b.drop_last()) + seq![',', ' '] + digits(b.last() as nat, 16)
    }
}

/// A byte slice as `{:x?}` shows it: `[1, a, ff]`.
pub open spec fn debug_hex(b: Seq<u8>) -> Seq<char> {
    seq!['['] + hex_items(b) + seq![']']
}

/// The bytes written `0x` and two hexadecimal digits each, separated by
/// `, `.
pub open spec fn byte_items(b: Seq<u8>) -> Seq<char>
    decreases b.len(),
{
    if b.len() == 0 {
        Seq::empty()
    } else if b.len() == 1 {
        "0x"@ + hex2(b[0])
    } else {
        byte_items(b.drop_last()) + ", 0x"@ + hex2(b.last())
    }
}

/// How gimli shows a little-endian slice of DWARF data with `{:x?}`:
/// `EndianSlice(Little, [0x01, 0x02])`, at most the first eight bytes, then
/// `...; ` and the length when there are more.
pub open spec fn endian_slice_text(b: Seq<u8>) -> Seq<char> {
    "EndianSlice(Little, ["@ + if b.len() > 8 {
        byte_items(b.take(8)) + ", ...; "@ + digits(b.len() as nat, 10)
    } else {
        byte_items(b)
    } + "])"@
}

/// The text of `{:x?}` applied to a gimli `EndianSlice` over `b` in little
/// endian. Trusted: gimli's `Debug` for `EndianSlice` (`debug_tuple` of the
/// endianness and a list of at most eight bytes written `0x{:02x}`, then
/// `...; ` and the length), as `endian_slice_text` states it.
#[verifier::external_body]
fn slice_debug_text(b: &Vec<u8>) -> (r: String)
    ensures
        r@ == endian_slice_text(b@),
{
    format!("{:x?}", EndianSlice::new(b.as_slice(), RunTimeEndian::Little))
}

/// What one operation of a location expression does to the symbol.
pub open spec fn op_step(st: SymState, op: DwarfOpV) -> SymState {
    match op {
        DwarfOpV::Deref { size, sized } => if sized {
            SymState { size: size as usize, ..st }
        } else {
            st
        },
        DwarfOpV::PlusConstant(v) => SymState { value_str: zero_x() + digits(v as nat, 16), ..st },
        DwarfOpV::SignedConstant { value, literal } => if literal {
            SymState { value_str: signed_digits(value as int, false), ..st }
        } else {
            st
        },
        DwarfOpV::UnsignedConstant { value, literal } => if literal {
            SymState { value_str: digits(value as nat, 10), ..st }
        } else {
            st
        },
        DwarfOpV::ImplicitValue(d) => SymState { value_str: debug_hex(d), ..st },
        DwarfOpV::ImplicitPointer(v) => SymState { value_str: zero_x() + digits(v as nat, 16), ..st },
        DwarfOpV::Address(a) => SymState { offset: a as i64, ..st },
        DwarfOpV::Other => st,
    }
}

/// The operations applied in order.
pub open spec fn ops_fold(st: SymState, ops: Seq<DwarfOpV>) -> SymState
    decreases ops.len(),
{
    if ops.len() == 0 {
        st
    } else {
        op_step(ops_fold(st, ops.drop_last()), ops.last())
    }
}

/// What one attribute does to the symbol: an expression gives its length
/// and the text gimli shows for its bytes (when the raw attribute is one)
/// and then its operations; an
/// address above the image base is made relative to it; a name is read as
/// text, invalid sequences replaced.
pub open spec fn attr_step(st: SymState, a: DwarfAttrV, image_base: u64) -> SymState {
    match a {
        DwarfAttrV::Exprloc { bytes, raw, ops } => {
            let first = if raw {
                SymState { size: bytes.len() as usize, value_str: endian_slice_text(bytes), ..st }
            } else {
                st
            };
            ops_fold(first, ops)
        },
        DwarfAttrV::Addr(addr) => SymState {
            offset: (if addr > image_base {
                (addr - image_base) as u64
            } else {
                addr
            }) as i64,
            ..st
        },
        DwarfAttrV::Name(n) => SymState { name: lossy_text(n), ..st },
        DwarfAttrV::Other => st,
    }
}

/// The attributes applied in order.
pub open spec fn attrs_fold(st: SymState, attrs: Seq<DwarfAttrV>, image_base: u64) -> SymState
    decreases attrs.len(),
{
    if attrs.len() == 0 {
        st
    } else {
        attr_step(attrs_fold(st, attrs.drop_last(), image_base), attrs.last(), image_base)
    }
}

/// The state of a symbol with nothing set.
pub open spec fn empty_state() -> SymState {
    SymState { name: Seq::empty(), offset: 0, size: 0, value_str: Seq::empty() }
}

/// See `debug_hex`.
pub fn fmt_debug_hex(b: &Vec<u8>) -> (r: Vec<char>)
    ensures
        r@ == debug_hex(b@),
{
    let mut items: Vec<char> = Vec::new();
    let mut i: usize = 0;
    while i < b.len()
        invariant
            i <= b.len(),
            items@ == hex_items(b@.take(i as int)),
        decreases b.len() - i,
    {
        proof {
            assert(b@.take(i + 1).drop_last() =~= b@.take(i as int));
            assert(b@.take(i + 1).last() == b@[i as int]);
        }
        let d = fmt_radix(b[i] as u64, 16);
        if i > 0 {
            items.push(',');
            items.push(' ');
            proof {
                assert(b@.take(i + 1).len() > 1);
            }
        }
        let ghost before = items@;
        items = concat(&items, &d);
        proof {
            if i == 0 {
                assert(b@.take(1).len() == 1);
                assert(items@ =~= hex_items(b@.take(1)));
            } else {
                assert(items@ =~= hex_items(b@.take(i as int)) + seq![',', ' '] + digits(
                    b@[i as int] as nat,
                    16,
                ));
            }
        }
        i = i + 1;
    }
    proof {
        assert(b@.take(b.len() as int) =~= b@);
    }
    let mut out: Vec<char> = vec!['['];
    out = concat(&out, &items);
    out.push(']');
    proof {
        assert(out@ =~= debug_hex(b@));
    }
    out
}

/// Applies one operation of a location expression to `sym` (see `op_step`).
pub fn apply_op(sym: &mut SymbolFile, op: &DwarfOp)
    ensures
        sym_state(*final(sym)) == op_step(sym_state(*old(sym)), op@),
        final(sym).types_e == old(sym).types_e,
        final(sym).filename == old(sym).filename,
        final(sym).line == old(sym).line,
        final(sym).register == old(sym).register,
{
    match op {
        DwarfOp::Deref { size, sized } => {
            if *sized {
                sym.size = *size as usize;
            }
        },
        DwarfOp::PlusConstant(v) => {
            sym.value_str = string_from(&concat(&vec!['0', 'x'], &fmt_radix(*v, 16)));
            proof {
                assert(seq!['0', 'x'] =~= zero_x());
            }
        },
        DwarfOp::SignedConstant { value, literal } => {
            if *literal {
                sym.value_str = string_from(&fmt_signed(*value, false));
            }
        },
        DwarfOp::UnsignedConstant { value, literal } => {
            if *literal {
                sym.value_str = string_from(&fmt_dec(*value));
            }
        },
        DwarfOp::ImplicitValue(d) => {
            sym.value_str = string_from(&fmt_debug_hex(d));
        },
        DwarfOp::ImplicitPointer(v) => {
            sym.value_str = string_from(&concat(&vec!['0', 'x'], &fmt_radix(*v, 16)));
            proof {
                assert(seq!['0', 'x'] =~= zero_x());
            }
        },
        DwarfOp::Address(a) => {
            sym.offset = *a as i64;
        },
        DwarfOp::Other => {},
    }
}

/// Applies one attribute of an entry to `sym` (see `attr_step`).
pub fn apply_attr(sym: &mut SymbolFile, a: &DwarfAttr, image_base: u64)
    ensures
        sym_state(*final(sym)) == attr_step(sym_state(*old(sym)), a@, image_base),
        final(sym).types_e == old(sym).types_e,
        final(sym).filename == old(sym).filename,
        final(sym).line == old(sym).line,
        final(sym).register == old(sym).register,
{
    match a {
        DwarfAttr::Exprloc { bytes, raw, ops } => {
            if *raw {
                sym.size = bytes.len();
                sym.value_str = slice_debug_text(bytes);
            }
            let ghost first = sym_state(*sym);
            let mut i: usize = 0;
            proof {
                assert(op_views(ops@).take(0) =~= Seq::<DwarfOpV>::empty());
            }
            while i < ops.len()
                invariant
                    i <= ops.len(),
                    sym_state(*sym) == ops_fold(first, op_views(ops@).take(i as int)),
                    sym.types_e == old(sym).types_e,
                    sym.filename == old(sym).filename,
                    sym.line == old(sym).line,
                    sym.register == old(sym).register,
                decreases ops.len() - i,
            {
                proof {
                    assert(op_views(ops@).take(i + 1).drop_last() =~= op_views(ops@).take(i as int));
                    assert(op_views(ops@).take(i + 1).last() == ops@[i as int]@);
                }
                apply_op(sym, &ops[i]);
                i = i + 1;
            }
            proof {
                assert(op_views(ops@).take(ops.len() as int) =~= op_views(ops@));
            }
        },
        DwarfAttr::Addr(addr) => {
            let off = if *addr > image_base {
                *addr - image_base
            } else {
                *addr
            };
            sym.offset = off as i64;
        },
        DwarfAttr::Name(n) => {
            sym.name = lossy_string(n);
        },
        DwarfAttr::Other => {},
    }
}

/// The symbol that a DWARF entry with attributes `attrs` gives (see
/// `attrs_fold`); what DWARF does not set stays empty.
pub fn dwarf_symbol(attrs: &Vec<DwarfAttr>, image_base: u64) -> (r: SymbolFile)
    ensures
        sym_state(r) == attrs_fold(empty_state(), attr_views(attrs@), image_base),
        r.types_e@ == Seq::<char>::empty(),
        r.filename@ == Seq::<char>::empty(),
        r.line == 0,
        r.register == 0,
{
    let mut s = SymbolFile::empty();
    let mut i: usize = 0;
    proof {
        assert(sym_state(s) == empty_state());
        assert(attr_views(attrs@).take(0) =~= Seq::<DwarfAttrV>::empty());
    }
    while i < attrs.len()
        invariant
            i <= attrs.len(),
            sym_state(s) == attrs_fold(empty_state(), attr_views(attrs@).take(i as int), image_base),
            s.types_e@ == Seq::<char>::empty(),
            s.filename@ == Seq::<char>::empty(),
            s.line == 0,
            s.register == 0,
        decreases attrs.len() - i,
    {
        proof {
            assert(attr_views(attrs@).take(i + 1).drop_last() =~= attr_views(attrs@).take(i as int));
            assert(attr_views(attrs@).take(i + 1).last() == attrs@[i as int]@);
        }
        apply_attr(&mut s, &attrs[i], image_base);
        i = i + 1;
    }
    proof {
        assert(attr_views(attrs@).take(attrs.len() as int) =~= attr_views(attrs@));
    }
    s
}

/// Whether a DWARF unit uses 32- or 64-bit offsets.
#[derive(Debug, Clone, Copy, PartialEq, Eq, Structural)]
pub enum DwarfFormat {
    Dwarf32,
    Dwarf64,
}

/// The encoding of a DWARF unit: what decoding its expressions depends on.
#[derive(Debug, Clone, Copy, PartialEq, Eq, Structural)]
pub struct DwarfEnc {
    pub format: DwarfFormat,
    pub version: u16,
    pub address_size: u8,
}

/// An operation as gimli decodes it, before the symbol table reads it.
#[derive(Debug)]
pub enum RawOp {
    Deref(u8),
    PlusConstant(u64),
    SignedConstant(i64),
    UnsignedConstant(u64),
    ImplicitValue(Vec<u8>),
    ImplicitPointer(usize),
    /// The bytes of an expression to evaluate at the entry of the function.
    EntryValue(Vec<u8>),
    Address(u64),
    /// Any other operation, or bytes that decode to none.
    Other,
}

/// The content of a `RawOp`.
pub enum RawOpV {
    Deref(u8),
    PlusConstant(u64),
    SignedConstant(i64),
    UnsignedConstant(u64),
    ImplicitValue(Seq<u8>),
    ImplicitPointer(usize),
    EntryValue(Seq<u8>),
    Address(u64),
    Other,
}

impl View for RawOp {
    type V = RawOpV;

    open spec fn view(&self) -> RawOpV {
        match self {
            RawOp::Deref(s) => RawOpV::Deref(*s),
            RawOp::PlusConstant(v) => RawOpV::PlusConstant(*v),
            RawOp::SignedConstant(v) => RawOpV::SignedConstant(*v),
            RawOp::UnsignedConstant(v) => RawOpV::UnsignedConstant(*v),
            RawOp::ImplicitValue(d) => RawOpV::ImplicitValue(d@),
            RawOp::ImplicitPointer(v) => RawOpV::ImplicitPointer(*v),
            RawOp::EntryValue(e) => RawOpV::EntryValue(e@),
            RawOp::Address(a) => RawOpV::Address(*a),
            RawOp::Other => RawOpV::Other,
        }
    }
}

/// What gimli's `Operation::parse` decodes at the start of `code` for a
/// unit of the given format (64-bit or not), version and address size.
pub uninterp spec fn parsed_op(dwarf64: bool, version: u16, address_size: u8, code: Seq<u8>) -> RawOpV;

/// How many bytes of `code` are left after `Operation::parse` decoded one
/// operation at its start; `None` when it fails.
pub uninterp spec fn op_rest_len(dwarf64: bool, version: u16, address_size: u8, code: Seq<u8>) -> Option<usize>;

/// The operation that gimli decodes at `b[offset..]`. Trusted:
/// `gimli::Operation::parse` on a little-endian slice, its variants moved
/// into `RawOp`; an entry value's expression is a part of the operation's
/// bytes after its opcode (the source splits it off them), so it is shorter
/// than they are.
#[verifier::external_body]
fn op_parse(enc: DwarfEnc, b: &Vec<u8>, offset: usize) -> (r: RawOp)
    requires
        offset <= b@.len(),
    ensures
        r@ == parsed_op(enc.format == DwarfFormat::Dwarf64, enc.version, enc.address_size, b@.skip(offset as int)),
        r matches RawOp::EntryValue(e) ==> e@.len() < b@.len() - offset,
{
    let format = match enc.format { Dwarf32 => Format::Dwarf32, Dwarf64 => Format::Dwarf64 };
    let mut pc = EndianSlice::new(&b[offset..], LittleEndian);
    let Ok(op) = Operation::parse(&mut pc, Encoding { format, version: enc.version, address_size: enc.address_size }) else { return Other };
    match op {
        Operation::Deref { size, .. } => Deref(size),
        Operation::PlusConstant { value } => PlusConstant(value),
        Operation::SignedConstant { value } => SignedConstant(value),
        Operation::UnsignedConstant { value } => UnsignedConstant(value),
        Operation::ImplicitValue { data } => ImplicitValue(data.to_vec()),
        Operation::ImplicitPointer { value, .. } => ImplicitPointer(value.0),
        Operation::EntryValue { expression } => EntryValue(expression.to_vec()),
        Operation::Address { address } => Address(address),
        _ => Other,
    }
}

/// How many bytes are left after the operation that gimli decodes at
/// `b[offset..]`, `None` when it cannot decode one. Trusted:
/// `gimli::Operation::parse`, which reads the opcode byte first, so at least
/// one byte is used.
#[verifier::external_body]
fn op_rest(enc: DwarfEnc, b: &Vec<u8>, offset: usize) -> (r: Option<usize>)
    requires
        offset <= b@.len(),
    ensures
        r == op_rest_len(enc.format == DwarfFormat::Dwarf64, enc.version, enc.address_size, b@.skip(offset as int)),
        r matches Some(n) ==> n < b@.len() - offset,
{
    let format = match enc.format { Dwarf32 => Format::Dwarf32, Dwarf64 => Format::Dwarf64 };
    let mut pc = EndianSlice::new(&b[offset..], LittleEndian);
    match Operation::parse(&mut pc, Encoding { format, version: enc.version, address_size: enc.address_size }) {
        Ok(_) => Some(pc.len()),
        Err(_) => None,
    }
}

/// Whether an opcode gives the size of its dereference itself
/// (`DW_OP_deref_size`, `DW_OP_xderef_size`).
pub open spec fn sized_deref(code: u8) -> bool {
    code == 0x94 || code == 0x95
}

/// Whether an opcode is one of `DW_OP_const1u`, `const2u`, `const4u`,
/// `const8u` and `constu`.
pub open spec fn unsigned_literal(code: u8) -> bool {
    code == 0x08 || code == 0x0a || code == 0x0c || code == 0x0e || code == 0x10
}

/// Whether an opcode is one of `DW_OP_const1s`, `const2s`, `const4s`,
/// `const8s` and `consts`.
pub open spec fn signed_literal(code: u8) -> bool {
    code == 0x09 || code == 0x0b || code == 0x0d || code == 0x0f || code == 0x11
}

/// What the symbol table reads of an operation decoded from opcode `code`.
pub open spec fn decided_op(code: u8, op: RawOpV) -> DwarfOpV {
    match op {
        RawOpV::Deref(size) => DwarfOpV::Deref { size, sized: sized_deref(code) },
        RawOpV::PlusConstant(v) => DwarfOpV::PlusConstant(v),
        RawOpV::SignedConstant(v) => DwarfOpV::SignedConstant { value: v, literal: signed_literal(code) },
        RawOpV::UnsignedConstant(v) => DwarfOpV::UnsignedConstant { value: v, literal: unsigned_literal(code) },
        RawOpV::ImplicitValue(d) => DwarfOpV::ImplicitValue(d),
        RawOpV::ImplicitPointer(v) => DwarfOpV::ImplicitPointer(v as u64),
        RawOpV::Address(a) => DwarfOpV::Address(a),
        _ => DwarfOpV::Other,
    }
}

pub open spec fn enc64(e: DwarfEnc) -> bool {
    e.format == DwarfFormat::Dwarf64
}

/// The operations of the location expression `b` from `offset` on: each
/// decoded operation in order, an entry value's expression inlined where it
/// stands; decoding stops at the first bytes that decode to no operation.
pub open spec fn expr_ops_from(e: DwarfEnc, b: Seq<u8>, offset: int) -> Seq<DwarfOpV>
    decreases b.len(), b.len() - offset,
{
    if offset < 0 || offset >= b.len() {
        Seq::empty()
    } else {
        let c = b.skip(offset);
        match op_rest_len(enc64(e), e.version, e.address_size, c) {
            None => Seq::empty(),
            Some(n) => if n >= c.len() {
                Seq::empty()
            } else {
                let head = match parsed_op(enc64(e), e.version, e.address_size, c) {
                    RawOpV::EntryValue(x) => if x.len() < b.len() {
                        expr_ops_from(e, x, 0)
                    } else {
                        Seq::empty()
                    },
                    op => seq![decided_op(b[offset], op)],
                };
                head + expr_ops_from(e, b, b.len() - n)
            },
        }
    }
}

/// Appends the operations of `b` from `offset` on (see `expr_ops_from`).
fn append_expr_ops(e: DwarfEnc, b: &Vec<u8>, offset: usize, out: &mut Vec<DwarfOp>)
    requires
        offset <= b@.len(),
    ensures
        op_views(final(out)@) == op_views(old(out)@) + expr_ops_from(e, b@, offset as int),
    decreases b@.len(), b@.len() - offset,
{
    if offset >= b.len() {
        proof {
            assert(op_views(out@) + Seq::<DwarfOpV>::empty() =~= op_views(out@));
        }
        return;
    }
    let ghost c = b@.skip(offset as int);
    let n = match op_rest(e, b, offset) {
        None => {
            proof {
                assert(op_views(out@) + Seq::<DwarfOpV>::empty() =~= op_views(out@));
            }
            return;
        },
        Some(n) => n,
    };
    let raw = op_parse(e, b, offset);
    let code = b[offset];
    let ghost before = op_views(out@);
    let ghost head = match raw@ {
        RawOpV::EntryValue(x) => expr_ops_from(e, x, 0),
        op => seq![decided_op(code, op)],
    };
    match raw {
        RawOp::EntryValue(x) => {
            append_expr_ops(e, &x, 0, out);
        },
        RawOp::Deref(size) => {
            out.push(DwarfOp::Deref { size, sized: code == 0x94 || code == 0x95 });
            proof { assert(op_views(out@) =~= before + head); }
        },
        RawOp::PlusConstant(v) => {
            out.push(DwarfOp::PlusConstant(v));
            proof { assert(op_views(out@) =~= before + head); }
        },
        RawOp::SignedConstant(v) => {
            let literal = code == 0x09 || code == 0x0b || code == 0x0d || code == 0x0f || code == 0x11;
            out.push(DwarfOp::SignedConstant { value: v, literal });
            proof { assert(op_views(out@) =~= before + head); }
        },
        RawOp::UnsignedConstant(v) => {
            let literal = code == 0x08 || code == 0x0a || code == 0x0c || code == 0x0e || code == 0x10;
            out.push(DwarfOp::UnsignedConstant { value: v, literal });
            proof { assert(op_views(out@) =~= before + head); }
        },
        RawOp::ImplicitValue(d) => {
            out.push(DwarfOp::ImplicitValue(d));
            proof { assert(op_views(out@) =~= before + head); }
        },
        RawOp::ImplicitPointer(v) => {
            out.push(DwarfOp::ImplicitPointer(v as u64));
            proof { assert(op_views(out@) =~= before + head); }
        },
        RawOp::Address(a) => {
            out.push(DwarfOp::Address(a));
            proof { assert(op_views(out@) =~= before + head); }
        },
        RawOp::Other => {
            out.push(DwarfOp::Other);
            proof { assert(op_views(out@) =~= before + head); }
        },
    }
    let ghost mid = op_views(out@);
    append_expr_ops(e, b, b.len() - n, out);
    proof {
        assert(op_views(out@) =~= before + (head + expr_ops_from(e, b@, b@.len() - n)));
    }
}

/// The operations of the location expression `b` (see `expr_ops_from`).
pub fn expression_ops(e: DwarfEnc, b: &Vec<u8>) -> (r: Vec<DwarfOp>)
    ensures
        op_views(r@) == expr_ops_from(e, b@, 0),
{
    let mut out: Vec<DwarfOp> = Vec::new();
    append_expr_ops(e, b, 0, &mut out);
    proof {
        assert(op_views(Seq::<DwarfOp>::empty()) + expr_ops_from(e, b@, 0) =~= expr_ops_from(e, b@, 0));
    }
    out
}

/// An attribute of a DWARF entry as gimli gives it, before its expression
/// is decoded.
#[derive(Debug)]
pub enum RawAttr {
    /// A location expression: its bytes, and whether the raw attribute is an
    /// expression too (not only once resolved).
    Exprloc { bytes: Vec<u8>, raw: bool },
    Addr(u64),
    /// A name, as bytes (inline or from the string section).
    Name(Vec<u8>),
    Other,
}

/// The content of a `RawAttr`.
pub enum RawAttrV {
    Exprloc { bytes: Seq<u8>, raw: bool },
    Addr(u64),
    Name(Seq<u8>),
    Other,
}

impl View for RawAttr {
    type V = RawAttrV;

    open spec fn view(&self) -> RawAttrV {
        match self {
            RawAttr::Exprloc { bytes, raw } => RawAttrV::Exprloc { bytes: bytes@, raw: *raw },
            RawAttr::Addr(a) => RawAttrV::Addr(*a),
            RawAttr::Name(n) => RawAttrV::Name(n@),
            RawAttr::Other => RawAttrV::Other,
        }
    }
}

/// The attribute with its expression decoded.
pub open spec fn decoded_attr(e: DwarfEnc, a: RawAttrV) -> DwarfAttrV {
    match a {
        RawAttrV::Exprloc { bytes, raw } => DwarfAttrV::Exprloc { bytes, raw, ops: expr_ops_from(e, bytes, 0) },
        RawAttrV::Addr(x) => DwarfAttrV::Addr(x),
        RawAttrV::Name(n) => DwarfAttrV::Name(n),
        RawAttrV::Other => DwarfAttrV::Other,
    }
}

/// Decodes the expression of an attribute (see `decoded_attr`).
pub fn decode_attr(e: DwarfEnc, a: RawAttr) -> (r: DwarfAttr)
    ensures
        r@ == decoded_attr(e, a@),
{
    match a {
        RawAttr::Exprloc { bytes, raw } => {
            let ops = expression_ops(e, &bytes);
            DwarfAttr::Exprloc { bytes, raw, ops }
        },
        RawAttr::Addr(x) => DwarfAttr::Addr(x),
        RawAttr::Name(n) => DwarfAttr::Name(n),
        RawAttr::Other => DwarfAttr::Other,
    }
}

/// A DWARF entry: the encoding of its unit and its attributes in order.
#[derive(Debug)]
pub struct DwarfEntry {
    pub enc: DwarfEnc,
    pub attrs: Vec<RawAttr>,
}

pub open spec fn raw_attr_views(v: Seq<RawAttr>) -> Seq<RawAttrV> {
    v.map_values(|a: RawAttr| a@)
}

/// The decoded attributes of an entry.
pub open spec fn entry_attrs(d: DwarfEntry) -> Seq<DwarfAttrV> {
    raw_attr_views(d.attrs@).map_values(|a: RawAttrV| decoded_attr(d.enc, a))
}

/// The symbol of one entry (see `dwarf_symbol`).
pub open spec fn entry_symbol_state(d: DwarfEntry, image_base: u64) -> SymState {
    attrs_fold(empty_state(), entry_attrs(d), image_base)
}

/// One symbol per DWARF entry, in order: each as `dwarf_symbol` makes it
/// from the entry's attributes with their expressions decoded.
pub fn dwarf_symbols(entries: Vec<DwarfEntry>, image_base: u64) -> (r: Vec<SymbolFile>)
    ensures
        r@.len() == entries@.len(),
        forall|k: int|
            0 <= k < r@.len() ==> sym_state(#[trigger] r@[k]) == entry_symbol_state(entries@[k], image_base)
                && r@[k].types_e@ == Seq::<char>::empty() && r@[k].filename@ == Seq::<char>::empty()
                && r@[k].line == 0 && r@[k].register == 0,
{
    let ghost orig = entries@;
    let mut entries = entries;
    let mut out: Vec<SymbolFile> = Vec::new();
    let mut rest: Vec<DwarfEntry> = Vec::new();
    // take the entries from the back, then build the symbols from the front
    while entries.len() > 0
        invariant
            orig == entries@ + rest@.reverse(),
        decreases entries.len(),
    {
        let d = entries.pop().unwrap();
        proof {
            assert(entries@.push(d) + rest@.reverse() =~= entries@ + rest@.push(d).reverse());
        }
        rest.push(d);
    }
    proof {
        assert(orig =~= rest@.reverse());
    }
    let ghost n = orig.len();
    while rest.len() > 0
        invariant
            out@.len() + rest@.len() == n,
            n == orig.len(),
            forall|j: int| 0 <= j < rest@.len() ==> rest@[j] == orig[n - 1 - j],
            forall|k: int|
                0 <= k < out@.len() ==> sym_state(#[trigger] out@[k]) == entry_symbol_state(orig[k], image_base)
                    && out@[k].types_e@ == Seq::<char>::empty() && out@[k].filename@ == Seq::<char>::empty()
                    && out@[k].line == 0 && out@[k].register == 0,
        decreases rest.len(),
    {
        let ghost k = out@.len() as int;
        let d = rest.pop().unwrap();
        proof {
            assert(d == orig[k]);
        }
        let ghost dv = d;
        let enc = d.enc;
        let mut raw = d.attrs;
        let mut attrs: Vec<DwarfAttr> = Vec::new();
        let mut back: Vec<RawAttr> = Vec::new();
        let ghost rv = raw@;
        while raw.len() > 0
            invariant
                rv == raw@ + back@.reverse(),
            decreases raw.len(),
        {
            let a = raw.pop().unwrap();
            proof {
                assert(raw@.push(a) + back@.reverse() =~= raw@ + back@.push(a).reverse());
            }
            back.push(a);
        }
        proof {
            assert(rv =~= back@.reverse());
        }
        let ghost m = rv.len();
        while back.len() > 0
            invariant
                attrs@.len() + back@.len() == m,
                m == rv.len(),
                rv == dv.attrs@,
                enc == dv.enc,
                forall|j: int| 0 <= j < back@.len() ==> back@[j] == rv[m - 1 - j],
                forall|i: int| 0 <= i < attrs@.len() ==> (#[trigger] attrs@[i])@ == decoded_attr(enc, rv[i]@),
            decreases back.len(),
        {
            let ghost i = attrs@.len() as int;
            let a = back.pop().unwrap();
            proof {
                assert(a == rv[i]);
            }
            attrs.push(decode_attr(enc, a));
        }
        proof {
            assert(attr_views(attrs@) =~= entry_attrs(dv));
        }
        let sym = dwarf_symbol(&attrs, image_base);
        out.push(sym);
    }
    out
}

/// The kind of the symbols once DWARF information was read: DWARF when any
/// entry was found, else as it was.
pub fn after_dwarf(previous: SymbolType, found: usize) -> (r: SymbolType)
    ensures
        r == if found > 0 {
            SymbolType::DWARF
        } else {
            previous
        },
{
    if found > 0 {
        SymbolType::DWARF
    } else {
        previous
    }
}

/// The offset of a symbol at absolute address `address`: relative to the
/// image base when it lies above it, else the address itself.
pub open spec fn relative_offset(address: u64, image_base: u64) -> i64 {
    (if image_base < address {
        (address - image_base) as u64
    } else {
        address
    }) as i64
}

/// The symbol made of a PDB record: its name, file, line and size, its tag
/// as text, and its address relative to the image base (see
/// `relative_offset`).
pub fn pdb_symbol(
    size: u32,
    address: u64,
    tag: String,
    name: String,
    filename: String,
    line: u32,
    image_base: u64,
) -> (r: SymbolFile)
    ensures
        r.name == name,
        r.offset == relative_offset(address, image_base),
        r.size == size as usize,
        r.value_str@ == Seq::<char>::empty(),
        r.types_e == tag,
        r.filename == filename,
        r.line == line as usize,
        r.register == 0,
{
    let off = if image_base < address {
        address - image_base
    } else {
        address
    };
    SymbolFile {
        name,
        offset: off as i64,
        size: size as usize,
        value_str: String::new(),
        types_e: tag,
        filename,
        line: line as usize,
        register: 0,
    }
}


/// The symbol made of a local variable that the PDB reader reports: its
/// value in decimal, its tag marked as local, an offset from the low 32 bits
/// of its address read as signed, and the register it is relative to.
pub fn local_symbol(
    size: u32,
    value: u64,
    address: u64,
    tag: String,
    name: String,
    line: u32,
    register: u32,
) -> (r: SymbolFile)
    ensures
        r.name == name,
        r.offset == (address as i32) as i64,
        r.size == size as usize,
        r.value_str@ == digits(value as nat, 10),
        r.types_e@ == tag@ + " (local)"@,
        r.filename@ == Seq::<char>::empty(),
        r.line == line as usize,
        r.register == register,
{
    let t = concat(&crate::text::chars_of(tag.as_str()), &crate::text::chars_of(" (local)"));
    SymbolFile {
        name,
        offset: (address as i32) as i64,
        size: size as usize,
        value_str: string_from(&fmt_dec(value)),
        types_e: string_from(&t),
        filename: String::new(),
        line: line as usize,
        register,
    }
}

/// Leaving a stopped program: the `n` local symbols added last go (all of
/// them when there are fewer).
pub fn drop_locals(syms: &mut Vec<SymbolFile>, n: usize)
    ensures
        final(syms)@ == old(syms)@.take(
            if n <= old(syms)@.len() {
                old(syms)@.len() - n
            } else {
                0
            },
        ),
{
    let mut k: usize = 0;
    while k < n && syms.len() > 0
        invariant
            k <= n,
            k <= old(syms)@.len(),
            syms@ == old(syms)@.take(old(syms)@.len() - k),
        decreases n - k,
    {
        syms.pop();
        proof {
            assert(old(syms)@.take(old(syms)@.len() - k).drop_last() =~= old(syms)@.take(
                old(syms)@.len() - (k + 1),
            ));
        }
        k = k + 1;
    }
}

/// Adds the local symbols of the function where the program stopped to the
/// symbol table; returns how many there are, which `drop_locals` takes out
/// when the prompt is left.
pub fn add_locals(syms: &mut Vec<SymbolFile>, locals: Vec<SymbolFile>) -> (r: usize)
    ensures
        final(syms)@ == old(syms)@ + locals@,
        r == locals@.len(),
{
    let mut locals = locals;
    let n = locals.len();
    syms.append(&mut locals);
    n
}

/// Law: leaving the prompt takes out exactly the local symbols added when
/// it was entered: the table is as before.
pub proof fn lemma_locals_leave_no_trace(s: Seq<SymbolFile>, locals: Seq<SymbolFile>)
    ensures
        ({
            let t = s + locals;
            t.take(
                if locals.len() <= t.len() {
                    t.len() - locals.len()
                } else {
                    0
                },
            ) == s
        }),
{
    assert((s + locals).take(s.len() as int) =~= s);
}

/// Which symbols `symbol-local` shows: the `n` added last, newest first, as
/// indices into the table.
pub fn locals_shown(len: usize, n: usize) -> (r: Vec<usize>)
    ensures
        r@.len() == if n <= len {
            n
        } else {
            len
        },
        forall|k: int| 0 <= k < r@.len() ==> r@[k] == len - 1 - k,
{
    let mut out: Vec<usize> = Vec::new();
    let mut k: usize = 0;
    while k < n && k < len
        invariant
            k <= len,
            k <= n,
            out@.len() == k,
            forall|j: int| 0 <= j < k ==> out@[j] == len - 1 - j,
        decreases len - k,
    {
        out.push(len - 1 - k);
        k = k + 1;
    }
    out
}

} // verus!
