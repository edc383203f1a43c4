use lisadbg::context::{Context32, Context64, FloatSave32};
use lisadbg::cli::Hook;
use lisadbg::dbg::{dll_display_path, get_real_insn, redirect32, redirect64, rewind32, rewind64};
use lisadbg::dispatch::{attach_target, file_path_of, AttachTarget};
use lisadbg::pe::starts_with_mz;
use lisadbg::symbol::{SymbolFile, SymbolType, Symbols};
use lisadbg::symload::{
    after_dwarf, apply_attr, drop_locals, dwarf_symbol, dwarf_symbols, expression_ops, local_symbol, locals_shown,
    pdb_symbol, DwarfAttr, DwarfEnc, DwarfEntry, DwarfFormat, DwarfOp, RawAttr,
};

fn sym(name: &str, offset: i64) -> SymbolFile {
    SymbolFile {
        name: name.to_string(),
        offset,
        size: 0,
        value_str: String::new(),
        types_e: String::new(),
        filename: String::new(),
        line: 0,
        register: 0,
    }
}

#[test]
fn dwarf_entry_becomes_a_symbol() {
    let attrs = vec![
        DwarfAttr::Name(b"counter".to_vec()),
        DwarfAttr::Addr(0x140003010),
        DwarfAttr::Other,
    ];
    let s = dwarf_symbol(&attrs, 0x140000000);
    assert_eq!(s.name, "counter");
    assert_eq!(s.offset, 0x3010);
    assert_eq!(s.size, 0);
    // an address below the image base is kept as it is
    let s = dwarf_symbol(&vec![DwarfAttr::Addr(0x10)], 0x140000000);
    assert_eq!(s.offset, 0x10);
}

#[test]
fn location_expressions() {
    let mut s = sym("x", 0);
    let e = DwarfAttr::Exprloc {
        bytes: vec![0x91, 0x70],
        raw: true,
        ops: vec![DwarfOp::Other],
    };
    apply_attr(&mut s, &e, 0);
    assert_eq!(s.size, 2);
    assert_eq!(s.value_str, "EndianSlice(Little, [0x91, 0x70])");
    let long = DwarfAttr::Exprloc { bytes: (1u8..=10).collect(), raw: true, ops: vec![] };
    apply_attr(&mut s, &long, 0);
    assert_eq!(
        s.value_str,
        "EndianSlice(Little, [0x01, 0x02, 0x03, 0x04, 0x05, 0x06, 0x07, 0x08, ...; 10])"
    );
    assert_eq!(s.size, 10);
    let e = DwarfAttr::Exprloc {
        bytes: vec![0x0a, 0x05, 0x00],
        raw: false,
        ops: vec![
            DwarfOp::UnsignedConstant { value: 5, literal: true },
            DwarfOp::Deref { size: 4, sized: true },
        ],
    };
    apply_attr(&mut s, &e, 0);
    assert_eq!(s.value_str, "5");
    assert_eq!(s.size, 4);
    let ops = vec![
        DwarfOp::SignedConstant { value: -3, literal: true },
        DwarfOp::Deref { size: 8, sized: false },
    ];
    apply_attr(&mut s, &DwarfAttr::Exprloc { bytes: vec![], raw: false, ops }, 0);
    assert_eq!(s.value_str, "-3");
    assert_eq!(s.size, 4);
    apply_attr(&mut s, &DwarfAttr::Exprloc { bytes: vec![], raw: false, ops: vec![DwarfOp::PlusConstant(255)] }, 0);
    assert_eq!(s.value_str, "0xff");
    apply_attr(
        &mut s,
        &DwarfAttr::Exprloc { bytes: vec![], raw: false, ops: vec![DwarfOp::ImplicitValue(vec![1, 0xab])] },
        0,
    );
    assert_eq!(s.value_str, "[1, ab]");
    apply_attr(&mut s, &DwarfAttr::Exprloc { bytes: vec![], raw: false, ops: vec![DwarfOp::Address(0x4000)] }, 0);
    assert_eq!(s.offset, 0x4000);
    assert_eq!(after_dwarf(SymbolType::Un, 1), SymbolType::DWARF);
    assert_eq!(after_dwarf(SymbolType::Un, 0), SymbolType::Un);
}

#[test]
fn pdb_records() {
    let s = pdb_symbol(4, 0x140001000, "Function".into(), "main".into(), "a.c".into(), 12, 0x140000000);
    assert_eq!(s.offset, 0x1000);
    assert_eq!(s.size, 4);
    assert_eq!(s.types_e, "Function");
    assert_eq!(s.line, 12);
    let l = local_symbol(8, 42, 0xffff_fff0, "Data".into(), "i".into(), 3, 335);
    assert_eq!(l.offset, -16);
    assert_eq!(l.value_str, "42");
    assert_eq!(l.types_e, "Data (local)");
    assert_eq!(l.register, 335);
}

#[test]
fn locals_leave_with_the_stop() {
    let mut v = vec![sym("a", 1), sym("b", 2), sym("l1", -8), sym("l2", -16)];
    assert_eq!(locals_shown(v.len(), 2), vec![3, 2]);
    drop_locals(&mut v, 2);
    assert_eq!(v.len(), 2);
    assert_eq!(v[1].name, "b");
    drop_locals(&mut v, 5);
    assert!(v.is_empty());
}

#[test]
fn symbols_in_assembly_lines() {
    let syms = Symbols {
        symbol_type: SymbolType::PDB,
        symbol_file: vec![sym("rax", 0x10), sym("helper", 0x1500), sym("local_var", -8)],
    };
    // a name of three characters or less stays
    assert_eq!(get_real_insn("mov rax, 1", &syms, 0x400000), Ok("mov rax, 1".to_string()));
    let syms = Symbols { symbol_type: SymbolType::PDB, symbol_file: vec![sym("helper", 0x1500), sym("local_var", -8)] };
    assert_eq!(get_real_insn("call helper", &syms, 0x400000), Ok("call 0x401500".to_string()));
    assert_eq!(
        get_real_insn("mov eax, [local_var]", &syms, 0x400000),
        Err("you can only specify functions or global variables: local_var".to_string())
    );
    assert_eq!(get_real_insn("ret", &syms, 0x400000), Ok("ret".to_string()));
}

#[test]
fn attach_targets() {
    assert!(matches!(attach_target(&["attach"]), AttachTarget::Usage));
    assert!(matches!(attach_target(&["attach", "1234"]), AttachTarget::Pid(1234)));
    match attach_target(&["attach", "\"notepad.exe\""]) {
        AttachTarget::Name(n) => assert_eq!(n, "notepad.exe"),
        o => panic!("{:?}", o),
    }
    assert!(matches!(attach_target(&["attach", "notepad"]), AttachTarget::Invalid));
}

#[test]
fn file_paths() {
    assert_eq!(file_path_of("file \"C:\\a b\\x.exe\" "), "C:\\a b\\x.exe");
    assert_eq!(file_path_of("file  prog.exe"), "prog.exe");
    assert!(starts_with_mz(&b"MZ\x90\x00".to_vec()));
    assert!(!starts_with_mz(&b"M".to_vec()));
    assert!(!starts_with_mz(&b"ELF".to_vec()));
}

#[test]
fn breakpoint_context_changes() {
    let mut c = Context64::zeroed();
    c.rip = 0x401001;
    rewind64(&mut c);
    assert_eq!(c.rip, 0x401000);
    redirect64(&mut c, Hook { target: 0x1000, replacen: 0x2000 }, 0x400000);
    assert_eq!(c.rip, 0x402000);
    let mut d = Context32 {
        eax: 0,
        ebx: 0,
        ecx: 0,
        edx: 0,
        esi: 0,
        edi: 0,
        ebp: 0,
        esp: 0,
        eip: 0x1001,
        seg_cs: 0,
        seg_ds: 0,
        seg_es: 0,
        seg_fs: 0,
        seg_gs: 0,
        seg_ss: 0,
        eflags: 0,
        dr0: 0,
        dr1: 0,
        dr2: 0,
        dr3: 0,
        dr6: 0,
        dr7: 0,
        context_flags: 0,
        float_save: FloatSave32 {
            control_word: 0,
            status_word: 0,
            tag_word: 0,
            error_offset: 0,
            error_selector: 0,
            data_offset: 0,
            data_selector: 0,
        },
    };
    rewind32(&mut d);
    assert_eq!(d.eip, 0x1000);
    redirect32(&mut d, Hook { target: 0, replacen: 0x10 }, 0x1_0000_0000);
    assert_eq!(d.eip, 0x10);
}

#[test]
fn library_paths() {
    assert_eq!(dll_display_path("\\\\?\\C:\\Windows\\System32\\kernel32.dll"), "C:\\Windows\\System32\\kernel32.dll");
    assert_eq!(dll_display_path("C:\\a.dll"), "C:\\a.dll");
}

fn enc() -> DwarfEnc {
    DwarfEnc { format: DwarfFormat::Dwarf32, version: 4, address_size: 8 }
}

#[test]
fn expressions_are_decoded_and_read() {
    let ops = expression_ops(enc(), &vec![0x0a, 0x05, 0x00]);
    assert!(matches!(ops[..], [DwarfOp::UnsignedConstant { value: 5, literal: true }]));
    let ops = expression_ops(enc(), &vec![0x94, 0x04, 0x06]);
    assert!(matches!(ops[..], [DwarfOp::Deref { size: 4, sized: true }, DwarfOp::Deref { size: 8, sized: false }]));
    let ops = expression_ops(enc(), &vec![0x11, 0x7d, 0x30]);
    assert!(matches!(
        ops[..],
        [DwarfOp::SignedConstant { value: -3, literal: true }, DwarfOp::UnsignedConstant { value: 0, literal: false }]
    ));
    let ops = expression_ops(enc(), &vec![0x23, 0x10, 0x91, 0x70]);
    assert!(matches!(ops[..], [DwarfOp::PlusConstant(16), DwarfOp::Other]));
    // an entry value's operations stand where it stands
    let ops = expression_ops(enc(), &vec![0xa3, 0x03, 0x0a, 0x05, 0x00, 0x06]);
    assert!(matches!(
        ops[..],
        [DwarfOp::UnsignedConstant { value: 5, literal: true }, DwarfOp::Deref { size: 8, sized: false }]
    ));
    // decoding stops at bytes that decode to no operation
    let ops = expression_ops(enc(), &vec![0x06, 0x0a, 0x05]);
    assert!(matches!(ops[..], [DwarfOp::Deref { size: 8, sized: false }]));
    assert!(expression_ops(enc(), &vec![]).is_empty());
}

#[test]
fn dwarf_entries_become_symbols() {
    let mut addr = vec![0x03];
    addr.extend_from_slice(&0x140001000u64.to_le_bytes());
    let entries = vec![
        DwarfEntry {
            enc: enc(),
            attrs: vec![
                RawAttr::Name(b"counter".to_vec()),
                RawAttr::Exprloc { bytes: addr, raw: true },
            ],
        },
        DwarfEntry { enc: enc(), attrs: vec![RawAttr::Addr(0x140002000), RawAttr::Other] },
    ];
    let syms = dwarf_symbols(entries, 0x140000000);
    assert_eq!(syms.len(), 2);
    assert_eq!(syms[0].name, "counter");
    assert_eq!(syms[0].offset, 0x140001000);
    assert_eq!(syms[0].size, 9);
    assert_eq!(syms[1].offset, 0x2000);
    assert_eq!(syms[1].name, "");
}
