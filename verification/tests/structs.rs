use lisadbg::structs::{Arch, PtrS, StructLine, StructP, TypeP};

#[test]
fn declarations_are_read() {
    assert!(matches!(TypeP::parse("u32 count"), Ok(TypeP::U32(1))));
    assert!(matches!(TypeP::parse("CHAR name[16]"), Ok(TypeP::Char(16))));
    assert!(matches!(TypeP::parse("int grid[2][0x10]"), Ok(TypeP::I32(16))));
    match TypeP::parse("u8** p[3]") {
        Ok(TypeP::Ptr(p, 3)) => {
            assert_eq!(p.cout_ptr, 2);
            assert!(matches!(*p.type_deref, TypeP::U8(3)));
        }
        o => panic!("{:?}", o),
    }
}

#[test]
fn bad_declarations() {
    assert_eq!(TypeP::parse("u32").unwrap_err(), "valid line is <type> <field name>[cout]");
    assert_eq!(TypeP::parse("u32 a b").unwrap_err(), "valid line is <type> <field name>[cout]");
    assert_eq!(TypeP::parse("str name").unwrap_err(), "Unknown type p: str");
    assert_eq!(TypeP::parse("u8 name[]").unwrap_err(), "cannot parse integer from empty string");
    assert_eq!(TypeP::parse("u8 name[x]").unwrap_err(), "invalid digit found in string");
}

#[test]
fn type_names() {
    assert!(matches!(TypeP::get_type_with_str("qword", 2), Ok(TypeP::U64(2))));
    assert!(matches!(TypeP::get_type_with_str("double", 1), Ok(TypeP::F64(1))));
    assert!(matches!(TypeP::get_type_with_str("void", 7), Ok(TypeP::Void)));
    assert_eq!(TypeP::get_type_with_str("Byte", 1).unwrap_err(), "Unknown type p: Byte");
}

#[test]
fn types_are_written_back() {
    assert_eq!(TypeP::U8(1).to_string(), "uint8_t");
    assert_eq!(TypeP::I16(4).to_string(), "int16_t[4]");
    assert_eq!(TypeP::F32(1).to_string(), "float");
    let p = TypeP::Ptr(Box::new(PtrS { cout_ptr: 2, type_deref: Box::new(TypeP::Char(1)) }), 5);
    assert_eq!(p.to_string(), "char**[5]");
    assert_eq!(TypeP::Structs(Vec::new(), "node".to_string()).to_string(), "struct node");
    assert_eq!(TypeP::Void.to_string(), "void");
}

#[test]
fn sizes() {
    assert_eq!(TypeP::U16(3).get_size(None), 6);
    assert_eq!(TypeP::F64(2).get_size(None), 16);
    let p = TypeP::Ptr(Box::new(PtrS { cout_ptr: 1, type_deref: Box::new(TypeP::U8(1)) }), 2);
    assert_eq!(p.get_size(Some(Arch::X64)), 16);
    assert_eq!(p.get_size(Some(Arch::X86)), 8);
    assert_eq!(p.get_size(None), 0);
    let s = TypeP::Structs(
        vec![
            StructP { name_field: "a".to_string(), type_p: TypeP::U32(1) },
            StructP { name_field: "b".to_string(), type_p: TypeP::Char(10) },
        ],
        "pair".to_string(),
    );
    assert_eq!(s.get_size(Some(Arch::X64)), 14);
    assert_eq!(s.get_name_of_struct(), "pair");
    assert_eq!(s.get_field_of_struct().len(), 2);
    assert_eq!(TypeP::U8(1).get_name_of_struct(), "");
    assert!(TypeP::U8(1).get_field_of_struct().is_empty());
}

#[test]
fn structure_lines() {
    assert!(matches!(lisadbg::structs::struct_line("  :q "), StructLine::Quit));
    match lisadbg::structs::struct_line("  u8 name[4];") {
        StructLine::Field { name, ty, line, terminated } => {
            // the name is cut at the first `]`, so its `[` stays
            assert_eq!(name, "name[4");
            assert!(matches!(ty, TypeP::U8(4)));
            assert_eq!(line, "u8 name[4];");
            assert!(terminated);
        }
        o => panic!("{:?}", o),
    }
    match lisadbg::structs::struct_line("i64 total") {
        StructLine::Field { name, terminated, .. } => {
            assert_eq!(name, "total");
            assert!(!terminated);
        }
        o => panic!("{:?}", o),
    }
    match lisadbg::structs::struct_line("what x") {
        StructLine::Invalid { line, msg } => {
            assert_eq!(line, "what x");
            assert_eq!(msg, "Unknown type p: what");
        }
        o => panic!("{:?}", o),
    }
    assert!(matches!(lisadbg::structs::struct_line("u8 ;"), StructLine::Unnamed));
}
