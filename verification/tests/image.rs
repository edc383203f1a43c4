use lisadbg::disasm::{disasm_count, disasm_size, finder, first_it, next_insn_addr, JAddr};
use lisadbg::number::ParseError;
use lisadbg::pe::{
    find_func_by_addr, get_name, parse_header, parse_pdata, pdata_functions, section_name,
    section_index, table_name, FuncEntry, NameRef, PeError, Section,
};
use lisadbg::structs::Arch;
use lisadbg::listing::disasm_listing;
use lisadbg::symbol::{SymbolFile, SymbolType, Symbols};

fn put16(b: &mut [u8], o: usize, v: u16) {
    b[o..o + 2].copy_from_slice(&v.to_le_bytes());
}
fn put32(b: &mut [u8], o: usize, v: u32) {
    b[o..o + 4].copy_from_slice(&v.to_le_bytes());
}
fn put64(b: &mut [u8], o: usize, v: u64) {
    b[o..o + 8].copy_from_slice(&v.to_le_bytes());
}

/// A minimal image: DOS header, NT headers at 0x40, one section `.text`.
fn image(pe32: bool) -> Vec<u8> {
    let mut b = vec![0u8; 0x200];
    b[0] = b'M';
    b[1] = b'Z';
    put32(&mut b, 0x3c, 0x40);
    b[0x40..0x44].copy_from_slice(b"PE\0\0");
    put16(&mut b, 0x40 + 6, 1);
    put32(&mut b, 0x40 + 12, 0x1000);
    put32(&mut b, 0x40 + 16, 2);
    put16(&mut b, 0x40 + 20, 240);
    let opt = 0x40 + 24;
    if pe32 {
        put16(&mut b, opt, 0x10b);
        put32(&mut b, opt + 28, 0x400000);
        put32(&mut b, opt + 120, 0x3000);
        put32(&mut b, opt + 124, 0x18);
    } else {
        put16(&mut b, opt, 0x20b);
        put64(&mut b, opt + 24, 0x1_4000_0000);
        put32(&mut b, opt + 136, 0x3000);
        put32(&mut b, opt + 140, 0x24);
    }
    let sec = opt + 240;
    b[sec..sec + 5].copy_from_slice(b".text");
    put32(&mut b, sec + 12, 0x1000);
    put32(&mut b, sec + 16, 0x200);
    put32(&mut b, sec + 20, 0x400);
    b
}

#[test]
fn headers_of_a_64_bit_image() {
    let h = parse_header(&image(false)).unwrap();
    assert_eq!(h.arch, Arch::X64);
    assert_eq!(h.image_base, 0x1_4000_0000);
    assert_eq!(h.string_table, 0x1000 + 2 * 18);
    assert_eq!(h.pdata_rva, 0x3000);
    assert_eq!(h.pdata_size, 0x24);
    assert_eq!(h.sections.len(), 1);
    assert_eq!(&h.sections[0].name, b".text\0\0\0");
    assert_eq!(h.sections[0].virtual_address, 0x1000);
    assert_eq!(h.sections[0].size_of_raw_data, 0x200);
    assert_eq!(h.sections[0].pointer_to_raw_data, 0x400);
    assert_eq!(h.arch.get_bitness(), 64);
    assert_eq!(h.arch.get_size_of_arch(), 8);
}

#[test]
fn headers_of_a_32_bit_image() {
    let h = parse_header(&image(true)).unwrap();
    assert_eq!(h.arch, Arch::X86);
    assert_eq!(h.image_base, 0x400000);
    assert_eq!(h.pdata_rva, 0x3000);
    assert_eq!(h.pdata_size, 0x18);
    assert_eq!(h.arch.get_bitness(), 32);
    assert_eq!(h.arch.get_size_of_arch(), 4);
}

#[test]
fn bad_images() {
    let mut b = image(false);
    b[0] = b'X';
    assert_eq!(parse_header(&b).unwrap_err(), PeError::BadDosSignature);
    assert_eq!(parse_header(&vec![0u8; 10]).unwrap_err(), PeError::Truncated);
    let b = image(false);
    assert_eq!(parse_header(&b[..0x100].to_vec()).unwrap_err(), PeError::Truncated);
}

#[test]
fn function_table() {
    let mut content = Vec::new();
    for (b, e, u) in [(0x1000u32, 0x1050u32, 0x4000u32), (0x1050, 0x10a0, 0x4010)] {
        content.extend_from_slice(&b.to_le_bytes());
        content.extend_from_slice(&e.to_le_bytes());
        content.extend_from_slice(&u.to_le_bytes());
    }
    content.extend_from_slice(&[1, 2, 3]);
    let funcs = pdata_functions(&content);
    assert_eq!(
        funcs,
        vec![
            FuncEntry { begin_address: 0x1000, end_address: 0x1050, unwind_data: 0x4000 },
            FuncEntry { begin_address: 0x1050, end_address: 0x10a0, unwind_data: 0x4010 },
        ]
    );
    assert_eq!(find_func_by_addr(&funcs, 0x1050), Some(1));
    assert_eq!(find_func_by_addr(&funcs, 0x1051), None);

    let sections = vec![
        Section { name: ".text".to_string(), content: vec![0; 0x10], addr: 0x1000 },
        Section { name: ".pdata".to_string(), content: content.clone(), addr: 0x3000 },
    ];
    assert_eq!(parse_pdata(&sections, 0x3000, 24), Some(funcs.clone()));
    assert_eq!(parse_pdata(&sections, 0x3000, 0), None);
    assert_eq!(parse_pdata(&sections, 0x5000, 24), None);
}

#[test]
fn section_names() {
    assert_eq!(section_name(&b".text\0\0\0".to_vec()), ".text");
    assert_eq!(section_name(&b".data".to_vec()), ".data");
    // invalid UTF-8 is replaced, not dropped
    assert_eq!(section_name(&vec![b'a', 0xff, 0]), "a\u{fffd}");
    assert_eq!(get_name(&b".text\0\0\0".to_vec()), NameRef::Inline);
    assert_eq!(get_name(&b"/4\0\0\0\0\0\0".to_vec()), NameRef::Table(0, 4));
    assert_eq!(get_name(&b"/x\0\0\0\0\0\0".to_vec()), NameRef::Malformed);
    assert_eq!(get_name(&vec![b'/', 0xff, b'1']), NameRef::Malformed);
    assert_eq!(
        table_name(&b"/4\0\0\0\0\0\0".to_vec(), 0, &b".debug_info\0rest".to_vec()),
        b".debug_info".to_vec()
    );
}

#[test]
fn next_instruction_after_a_breakpoint() {
    // nop
    assert_eq!(next_insn_addr(64, &vec![0x90], 0x1000), 0x1001);
    // mov rax, imm64
    let mut code = vec![0x48, 0xb8];
    code.extend_from_slice(&[0u8; 8]);
    assert_eq!(next_insn_addr(64, &code, 0x2000), 0x200a);
    // push ebp, in 32-bit code
    assert_eq!(next_insn_addr(32, &vec![0x55, 0x90], 0x400000), 0x400001);
}

#[test]
fn branch_targets_get_labels() {
    // jmp +2; nop; nop; jmp +0
    let code = vec![0xeb, 0x02, 0x90, 0x90, 0xeb, 0x00];
    assert_eq!(
        first_it(64, &code, 0x1000, 100),
        vec![JAddr { addr: 0x1004, num_target: 0 }, JAddr { addr: 0x1006, num_target: 0 }]
    );
    // two jumps to the same place
    let code = vec![0xeb, 0x02, 0xeb, 0x00];
    assert_eq!(first_it(64, &code, 0x1000, 100), vec![JAddr { addr: 0x1004, num_target: 1 }]);
    // only the first instruction is looked at
    assert_eq!(
        first_it(64, &vec![0xeb, 0x02, 0xeb, 0x10], 0x1000, 1),
        vec![JAddr { addr: 0x1004, num_target: 0 }]
    );
    assert_eq!(first_it(64, &vec![0x90, 0x90], 0, 10), vec![]);
}

#[test]
fn listing_bounds() {
    let funcs = vec![FuncEntry { begin_address: 0x1000, end_address: 0x1080, unwind_data: 0 }];
    assert_eq!(disasm_size(&funcs, 0x401010, 0x400000), Some(0x70));
    assert_eq!(disasm_size(&funcs, 0x402000, 0x400000), Some(2093));
    assert_eq!(disasm_size(&vec![], 0x401010, 0x400000), None);
    assert_eq!(disasm_count(None), Ok(usize::MAX));
    assert_eq!(disasm_count(Some("0x10")), Ok(16));
    assert_eq!(disasm_count(Some("ten")), Err(ParseError::InvalidDigit));
}

#[test]
fn symbol_at_address() {
    let mut s = SymbolFile {
        name: "x".to_string(),
        offset: 0x20,
        size: 4,
        value_str: String::new(),
        types_e: String::new(),
        filename: String::new(),
        line: 0,
        register: 0,
    };
    assert!(finder(&s, 0x400020, 0x400000));
    assert!(!finder(&s, 0x400021, 0x400000));
    s.offset = -0x20;
    assert!(!finder(&s, 0x3fffe0, 0x400000));
}

#[test]
fn listing_names_targets_and_labels_lines() {
    let syms = Symbols {
        symbol_type: SymbolType::DWARF,
        symbol_file: vec![SymbolFile {
            name: "main".to_string(),
            offset: 5,
            size: 2,
            value_str: String::new(),
            types_e: String::new(),
            filename: String::new(),
            line: 0,
            register: 0,
        }],
    };
    // call +0 ; push rbp ; ret ; nop
    let code = vec![0xe8, 0, 0, 0, 0, 0x55, 0xc3, 0x90];
    let lines = disasm_listing(64, &code, 0x1000, 100, &syms, 0x1000);
    let addrs: Vec<u64> = lines.iter().map(|l| l.addr).collect();
    assert_eq!(addrs, vec![0x1000, 0x1005, 0x1006, 0x1007]);
    let lens: Vec<usize> = lines.iter().map(|l| l.len).collect();
    assert_eq!(lens, vec![5, 1, 1, 1]);
    let labels: Vec<bool> = lines.iter().map(|l| l.label).collect();
    assert_eq!(labels, vec![false, true, false, true]);
    assert_eq!(lines[0].text, "call main");
    assert_eq!(lines[1].text, "push rbp");
    assert_eq!(lines[2].text, "ret");
    assert_eq!(lines[3].text, "nop");
    // without a symbol the target becomes a label name; the count bounds the lines
    let lines = disasm_listing(64, &code, 0x1000, 1, &Symbols { symbol_type: SymbolType::Un, symbol_file: vec![] }, 0);
    assert_eq!(lines.len(), 1);
    assert_eq!(lines[0].text, "call label_1005");
}

#[test]
fn debug_sections_are_found_by_name() {
    let sections = vec![
        Section { name: ".text".to_string(), content: vec![0x90], addr: 0x1000 },
        Section { name: ".debug_info".to_string(), content: vec![1, 2], addr: 0x2000 },
        Section { name: ".debug_info".to_string(), content: vec![3], addr: 0x3000 },
    ];
    assert_eq!(section_index(&sections, ".debug_info"), Some(1));
    assert_eq!(section_index(&sections, ".text"), Some(0));
    assert_eq!(section_index(&sections, ".debug_abbrev"), None);
    assert_eq!(section_index(&Vec::new(), ".text"), None);
}
