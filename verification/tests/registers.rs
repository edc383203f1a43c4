use lisadbg::context::{
    handle_set_register, reg32_to_value, reg_to_value, set_register64, unsigned_to_signed,
    wow64_context_to_context, Context32, Context64, FloatSave32, SetNote, SetRegError, ToValue, ToValue32, Value, M128,
};
use lisadbg::number::ParseError;
use lisadbg::registers::{handle_reg, handle_reg32, Reg32Listing};
use lisadbg::stack::Frame;
use lisadbg::symbol::{RealAddr, Symbols};
use lisadbg::watch::{
    clear_dreg, set_dreg, triggered_address64, CheckType, FlagTypeMem, Watchpts,
};

fn ctx32() -> Context32 {
    Context32 {
        eax: 1,
        ebx: 2,
        ecx: 3,
        edx: 4,
        esi: 5,
        edi: 6,
        ebp: 7,
        esp: 8,
        eip: 0x401000,
        seg_cs: 0x23,
        seg_ds: 0x2b,
        seg_es: 0x2b,
        seg_fs: 0x53,
        seg_gs: 0x2b,
        seg_ss: 0x2b,
        eflags: 0x246,
        dr0: 0,
        dr1: 0,
        dr2: 0,
        dr3: 0,
        dr6: 0,
        dr7: 0,
        context_flags: 0,
        float_save: FloatSave32 {
            control_word: 0x37f,
            status_word: 0,
            tag_word: 0xffff,
            error_offset: 0,
            error_selector: 0,
            data_offset: 0,
            data_selector: 0,
        },
    }
}

#[test]
fn registers_are_read_by_name() {
    let mut c = Context64::zeroed();
    c.rax = 0x1234;
    c.seg_cs = 0x33;
    c.eflags = 0x246;
    c.xmm3 = M128 { low: 7, high: -1 };
    assert_eq!(c.str_to_value_ctx("RAX"), Value::U64(0x1234));
    assert_eq!(c.str_to_value_ctx("cs"), Value::U64(0x33));
    assert_eq!(c.str_to_value_ctx("segcs"), Value::U64(0x33));
    assert_eq!(c.str_to_value_ctx("flags"), Value::U64(0x246));
    assert_eq!(c.str_to_value_ctx("xmm3"), Value::U128(M128 { low: 7, high: -1 }));
    assert_eq!(c.str_to_value_ctx("eax"), Value::Un);
    assert_eq!(reg_to_value("rax", &c), 0x1234);
    assert_eq!(reg_to_value("nothing", &c), 0);
}

#[test]
fn a_register_reads_back_what_was_written() {
    let mut c = Context64::zeroed();
    assert_eq!(set_register64(&["rbx", "0x99"], &mut c), Ok(SetNote::Done));
    assert_eq!(c.str_to_value_ctx("rbx"), Value::U64(0x99));
    assert_eq!(set_register64(&["xmm1", "5"], &mut c), Ok(SetNote::Done));
    assert_eq!(c.xmm1, M128 { low: 5, high: 0 });
    assert_eq!(set_register64(&["xmm2", "0x10000000000000002"], &mut c), Ok(SetNote::Done));
    assert_eq!(c.xmm2, M128 { low: 2, high: 1 });
}

#[test]
fn register_write_refusals() {
    let mut c = Context64::zeroed();
    assert_eq!(set_register64(&["rax"], &mut c), Err(SetRegError::Usage));
    assert_eq!(
        set_register64(&["rax", "zz"], &mut c),
        Err(SetRegError::BadValue(ParseError::InvalidDigit))
    );
    assert_eq!(set_register64(&["eax", "1"], &mut c), Err(SetRegError::UnknownRegister));
    assert_eq!(set_register64(&["rax", "0x10000000000000000"], &mut c), Ok(SetNote::RegRejected));
    assert_eq!(c.rax, 0);
    assert_eq!(set_register64(&["flag", "0x100000001"], &mut c), Ok(SetNote::FlagTruncated));
    assert_eq!(c.eflags, 1);
    assert_eq!(set_register64(&["flag", "0x10000000000000000"], &mut c), Ok(SetNote::FlagRejected));
    assert_eq!(c.eflags, 1);
}

#[test]
fn thirty_two_bit_registers() {
    let mut c = ctx32();
    assert_eq!(reg32_to_value("eax", &c), 1);
    assert_eq!(reg32_to_value("EAX", &c), 0);
    assert_eq!(c.str_to_ctx("ctrl-word"), 0x37f);
    assert_eq!(c.str_to_ctx("nothing"), 0);
    assert_eq!(handle_set_register(&["reg", "ecx", "0x30"], &mut c), Ok(()));
    assert_eq!(c.ecx, 0x30);
    assert_eq!(handle_set_register(&["reg", "rax", "1"], &mut c), Err(SetRegError::UnknownRegister));
    assert_eq!(handle_set_register(&["reg", "ecx"], &mut c), Err(SetRegError::Usage));
    let w = wow64_context_to_context(&c);
    assert_eq!(w.rcx, 0x30);
    assert_eq!(w.rip, 0x401000);
}

#[test]
fn every_listed_x64_name_reads_its_register() {
    let mut c = Context64::zeroed();
    c.eflags = 0x202;
    c.last_branch_from_rip = 0x401000;
    c.last_branch_to_rip = 0x402000;
    assert_eq!(c.str_to_value_ctx("flag"), Value::U64(0x202));
    assert_eq!(c.str_to_value_ctx("LBFRIP"), Value::U64(0x401000));
    assert_eq!(c.str_to_value_ctx("lbtrip"), Value::U64(0x402000));
}

#[test]
fn every_listed_x32_name_reads_its_register() {
    let mut c = ctx32();
    c.seg_gs = 0x2b;
    c.seg_ss = 0x23;
    c.float_save.error_selector = 0x11;
    c.float_save.data_selector = 0x22;
    assert_eq!(c.str_to_ctx("flag"), 0x246);
    assert_eq!(c.str_to_ctx("eflag"), 0x246);
    assert_eq!(c.str_to_ctx("gs"), 0x2b);
    assert_eq!(c.str_to_ctx("seggs"), 0x2b);
    assert_eq!(c.str_to_ctx("ss"), 0x23);
    assert_eq!(c.str_to_ctx("segss"), 0x23);
    assert_eq!(c.str_to_ctx("error-selector"), 0x11);
    assert_eq!(c.str_to_ctx("data-selector"), 0x22);
}

#[test]
fn signed_view() {
    assert_eq!(unsigned_to_signed(u64::MAX), -1);
    assert_eq!(unsigned_to_signed(5), 5);
}

#[test]
fn value_listings() {
    let mut c = Context64::zeroed();
    c.r8 = 8;
    assert!(handle_reg(&["value"], &c).is_none());
    let rows = handle_reg(&["value", "all-reg"], &c).unwrap();
    let names: Vec<&str> = rows.iter().map(|r| r.name.as_str()).collect();
    assert_eq!(
        names,
        vec![
            "rax", "rbx", "rcx", "rdx", "rsi", "rdi", "rbp", "rsp", "rip", "r8", "r9", "r10",
            "r11", "r12", "r13", "r14", "r15"
        ]
    );
    assert_eq!(rows[9].value, Value::U64(8));
    let rows = handle_reg(&["value", "all-seg"], &c).unwrap();
    let names: Vec<&str> = rows.iter().map(|r| r.name.as_str()).collect();
    assert_eq!(names, vec!["cs", "ds", "es", "fs", "gs", "ss"]);
    let rows = handle_reg(&["value", "all-vec"], &c).unwrap();
    let names: Vec<&str> = rows.iter().map(|r| r.name.as_str()).collect();
    let xmm: Vec<String> = (0..16).map(|i| format!("xmm{i}")).collect();
    assert_eq!(names, xmm.iter().map(|s| s.as_str()).collect::<Vec<&str>>());
    assert!(rows.iter().all(|r| matches!(r.value, Value::U128(_))));
    assert_eq!(handle_reg(&["value", "all"], &c).unwrap().len(), 48);
    let rows = handle_reg(&["value", "foo"], &c).unwrap();
    assert_eq!(rows.len(), 1);
    assert_eq!(rows[0].name, "foo");
    assert_eq!(rows[0].value, Value::Un);
}

#[test]
fn value_listings_32() {
    let c = ctx32();
    assert!(matches!(handle_reg32(&["value"], &c), Reg32Listing::Usage));
    match handle_reg32(&["value", "eip"], &c) {
        Reg32Listing::Rows(v) => assert_eq!(v, vec![("eip".to_string(), 0x401000)]),
        o => panic!("{:?}", o),
    }
    match handle_reg32(&["value", "all-seg"], &c) {
        Reg32Listing::Rows(v) => {
            let names: Vec<&str> = v.iter().map(|p| p.0.as_str()).collect();
            assert_eq!(names, vec!["cs", "ds", "es", "fs", "gs", "ss"]);
        }
        o => panic!("{:?}", o),
    }
    match handle_reg32(&["value", "rax"], &c) {
        Reg32Listing::Unknown(n) => assert_eq!(n, "rax"),
        o => panic!("{:?}", o),
    }
    match handle_reg32(&["value", "all-reg"], &c) {
        Reg32Listing::Rows(v) => {
            let names: Vec<&str> = v.iter().map(|p| p.0.as_str()).collect();
            assert_eq!(names, vec!["eax", "ebx", "ecx", "edx", "esi", "edi", "ebp", "esp", "eip"]);
            assert_eq!(v[0].1, 1);
            assert_eq!(v[8].1, 0x401000);
        }
        o => panic!("{:?}", o),
    }
}

#[test]
fn debug_registers_arm_and_disarm() {
    let mut c = Context64::zeroed();
    let w = Watchpts {
        offset: 0x3010,
        flag_type_mem: FlagTypeMem::MemoryStatic,
        check_type: vec![CheckType::W],
        memory_size: 4,
        register: String::new(),
    };
    assert_eq!(w.acces_type_to_bits(), 2);
    let frames: Vec<Frame> = Vec::new();
    assert!(set_dreg(&mut c, &w, 1, &frames, 0x400000));
    assert_eq!(c.dr1, 0x403010);
    assert_eq!(w.access_code_exec(), 0b01);
    // enable bit 2, write code 01 at bit 20, size bits 3 at bit 22
    assert_eq!(c.dr7, (1 << 2) | (1 << 20) | (3 << 22));
    clear_dreg(&mut c, 1);
    assert_eq!(c.dr1, 0);
    assert_eq!(c.dr7, 0);
    // a size the hardware does not support watches one byte
    let odd = Watchpts { memory_size: 3, ..w.duplicate() };
    assert!(!set_dreg(&mut c, &odd, 0, &frames, 0x400000));
    assert_eq!(c.dr7, 1 | (1 << 16));
}

#[test]
fn access_kinds_map_to_the_x86_codes() {
    let w = |k: Vec<CheckType>| Watchpts {
        offset: 0x10,
        flag_type_mem: FlagTypeMem::VirtualAddr,
        check_type: k,
        memory_size: 1,
        register: String::new(),
    };
    assert_eq!(w(vec![CheckType::W]).access_code_exec(), 0b01);
    assert_eq!(w(vec![CheckType::R]).access_code_exec(), 0b11);
    assert_eq!(w(vec![CheckType::W, CheckType::R]).access_code_exec(), 0b11);
    assert_eq!(w(vec![CheckType::X]).access_code_exec(), 0b00);
    let mut c = Context64::zeroed();
    assert!(set_dreg(&mut c, &w(vec![CheckType::R, CheckType::W]), 0, &Vec::new(), 0));
    assert_eq!(c.dr7, 1 | (3 << 16));
}

#[test]
fn the_triggering_register_is_found() {
    let mut c = Context64::zeroed();
    c.dr0 = 0x10;
    c.dr2 = 0x30;
    c.dr6 = 4;
    assert_eq!(triggered_address64(&c), 0x30);
    c.dr6 = 0;
    assert_eq!(triggered_address64(&c), 0);
}

#[test]
fn watchpoint_on_a_register() {
    let syms = Symbols::new();
    let w = Watchpts::from_str("8 --reg=rsp --size 8", &syms).unwrap();
    // the value after --size is read as an offset too
    assert_eq!(w.offset, 8);
    assert_eq!(w.memory_size, 8);
    assert_eq!(w.register, "rsp");
    let mut c = Context64::zeroed();
    c.rsp = 0x1000;
    assert_eq!(w.real_addr64(&c, &Vec::new(), 0), Ok(0x1008));
}
